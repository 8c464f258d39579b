//! Locator for a single-document target.

use vstd::prelude::*;

use crate::addrs::{spec_thread_addr, target_view, thread_addr};
use crate::errors::DlError;
use crate::strutil::{spec_split, split_char};

verus! {

/// What the locator produces for a single-document endpoint string: the
/// last path segment is the document identifier, the segment two before it
/// is the scope name, and the document address is built from both. An input
/// with fewer than three segments is malformed.
pub open spec fn spec_parse_url(u: Seq<char>) -> Result<(Seq<char>, Seq<char>), DlError> {
    let segs = spec_split(u, '/');
    if segs.len() >= 3 {
        Ok(
            (
                spec_thread_addr(segs[segs.len() - 3], segs[segs.len() - 1]),
                segs[segs.len() - 3],
            ),
        )
    } else {
        Err(DlError::MalformedTarget)
    }
}

/// Splits a single-document endpoint string into the document address and
/// the scope name. The result is a pure function of the input string: no
/// I/O, no side effects.
pub fn parse_url(url: &str) -> (r: Result<(String, String), DlError>)
    ensures
        target_view(r) == spec_parse_url(url@),
{
    let segs = split_char(url, '/');
    proof {
        assert(segs@.len() == spec_split(url@, '/').len());
    }
    if segs.len() >= 3 {
        let board = &segs[segs.len() - 3];
        let id = &segs[segs.len() - 1];
        let addr = thread_addr(board.as_str(), id.as_str());
        proof {
            let f = |t: String| t@;
            let ss = spec_split(url@, '/');
            assert(f(segs@[segs@.len() - 3]) == ss[ss.len() - 3]);
            assert(f(segs@[segs@.len() - 1]) == ss[ss.len() - 1]);
        }
        Ok((addr, board.clone()))
    } else {
        Err(DlError::MalformedTarget)
    }
}

} // verus!
