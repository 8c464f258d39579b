//! Canonical remote addresses and local file names.
//!
//! Every address the pipeline uses is a pure function of the scope name and
//! the identifiers involved; the builders here return exactly what the spec
//! functions say.

use vstd::prelude::*;
use vstd::string::*;

use crate::errors::DlError;
use crate::strutil::dec_i64;

verus! {

/// The catalog address of a scope: it enumerates the scope's documents.
pub open spec fn spec_catalog_addr(board: Seq<char>) -> Seq<char> {
    "https://a.4cdn.org/"@ + board + "/catalog.json"@
}

/// The document address of one thread within a scope.
pub open spec fn spec_thread_addr(board: Seq<char>, id: Seq<char>) -> Seq<char> {
    "https://a.4cdn.org/"@ + board + "/thread/"@ + id + ".json"@
}

/// The remote address of one attachment file.
pub open spec fn spec_file_url(board: Seq<char>, id: int, ext: Seq<char>) -> Seq<char> {
    "https://i.4cdn.org/"@ + board + "/"@ + dec_i64(id) + ext
}

/// The local destination of one attachment file inside the output directory.
pub open spec fn spec_file_path(out: Seq<char>, id: int, ext: Seq<char>) -> Seq<char> {
    out + "/"@ + dec_i64(id) + ext
}

/// The view of a locator result: the produced address and the scope name.
pub open spec fn target_view(r: Result<(String, String), DlError>) -> Result<
    (Seq<char>, Seq<char>),
    DlError,
> {
    match r {
        Ok((a, b)) => Ok((a@, b@)),
        Err(e) => Err(e),
    }
}

/// Builds the catalog address of a scope.
pub fn catalog_addr(board: &str) -> (r: String)
    ensures
        r@ == spec_catalog_addr(board@),
{
    let mut s = String::from_str("https://a.4cdn.org/");
    s.append(board);
    s.append("/catalog.json");
    proof {
        assert(s@ =~= spec_catalog_addr(board@));
    }
    s
}

/// Builds the document address of one thread.
pub fn thread_addr(board: &str, id: &str) -> (r: String)
    ensures
        r@ == spec_thread_addr(board@, id@),
{
    let mut s = String::from_str("https://a.4cdn.org/");
    s.append(board);
    s.append("/thread/");
    s.append(id);
    s.append(".json");
    proof {
        assert(s@ =~= spec_thread_addr(board@, id@));
    }
    s
}

/// Builds the remote address of one attachment file.
pub fn file_url(board: &str, id: i64, ext: &str) -> (r: String)
    ensures
        r@ == spec_file_url(board@, id as int, ext@),
{
    let dec = crate::strutil::i64_to_dec(id);
    let mut s = String::from_str("https://i.4cdn.org/");
    s.append(board);
    s.append("/");
    s.append(dec.as_str());
    s.append(ext);
    proof {
        assert(s@ =~= spec_file_url(board@, id as int, ext@));
    }
    s
}

/// Builds the local destination of one attachment file.
pub fn file_path(out: &str, id: i64, ext: &str) -> (r: String)
    ensures
        r@ == spec_file_path(out@, id as int, ext@),
{
    let dec = crate::strutil::i64_to_dec(id);
    let mut s = String::from_str(out);
    s.append("/");
    s.append(dec.as_str());
    s.append(ext);
    proof {
        assert(s@ =~= spec_file_path(out@, id as int, ext@));
    }
    s
}

} // verus!
