//! Verified string utilities: splitting an endpoint string into path
//! segments, and rendering numeric identifiers as decimal text.

use vstd::prelude::*;
use vstd::string::*;

verus! {

/// The segments of `s` separated by `sep`, as `str::split` yields them:
/// there is always at least one segment, and empty segments are kept.
pub open spec fn spec_split(s: Seq<char>, sep: char) -> Seq<Seq<char>>
    decreases s.len(),
{
    if s.len() == 0 {
        seq![Seq::<char>::empty()]
    } else if s[0] == sep {
        seq![Seq::<char>::empty()] + spec_split(s.skip(1), sep)
    } else {
        let rest = spec_split(s.skip(1), sep);
        seq![seq![s[0]] + rest[0]] + rest.skip(1)
    }
}

/// Splitting a separator-free sequence yields that sequence alone.
proof fn lemma_split_no_sep(t: Seq<char>, sep: char)
    requires
        forall|k: int| 0 <= k < t.len() ==> t[k] != sep,
    ensures
        spec_split(t, sep) == seq![t],
    decreases t.len(),
{
    if t.len() == 0 {
        assert(t =~= Seq::<char>::empty());
    } else {
        assert(forall|k: int| 0 <= k < t.skip(1).len() ==> t.skip(1)[k] != sep);
        lemma_split_no_sep(t.skip(1), sep);
        let rest = spec_split(t.skip(1), sep);
        assert(seq![t[0]] + rest[0] =~= t);
        assert(rest.skip(1) =~= Seq::<Seq<char>>::empty());
        assert(spec_split(t, sep) =~= seq![t]);
    }
}

/// Splitting at the first separator detaches the separator-free prefix as
/// the first segment.
proof fn lemma_split_at_sep(t: Seq<char>, r: Seq<char>, sep: char)
    requires
        forall|k: int| 0 <= k < t.len() ==> t[k] != sep,
    ensures
        spec_split(t + seq![sep] + r, sep) == seq![t] + spec_split(r, sep),
    decreases t.len(),
{
    let s = t + seq![sep] + r;
    if t.len() == 0 {
        assert(s[0] == sep);
        assert(s.skip(1) =~= r);
        assert(t =~= Seq::<char>::empty());
        assert(spec_split(s, sep) =~= seq![t] + spec_split(r, sep));
    } else {
        assert(s[0] == t[0]);
        assert(s.skip(1) =~= t.skip(1) + seq![sep] + r);
        assert(forall|k: int| 0 <= k < t.skip(1).len() ==> t.skip(1)[k] != sep);
        lemma_split_at_sep(t.skip(1), r, sep);
        let rest = spec_split(s.skip(1), sep);
        assert(rest == seq![t.skip(1)] + spec_split(r, sep));
        assert(rest[0] == t.skip(1));
        assert(seq![t[0]] + rest[0] =~= t);
        assert(rest.skip(1) =~= spec_split(r, sep));
        assert(spec_split(s, sep) =~= seq![t] + spec_split(r, sep));
    }
}

/// Splits `s` at every occurrence of `sep`, exactly as `spec_split` says.
pub fn split_char(s: &str, sep: char) -> (r: Vec<String>)
    ensures
        r@.map_values(|t: String| t@) == spec_split(s@, sep),
{
    let n = s.unicode_len();
    let mut segs: Vec<String> = Vec::new();
    let mut seg_start: usize = 0;
    let mut i: usize = 0;
    proof {
        let f = |t: String| t@;
        assert(s@.skip(0) =~= s@);
        assert(segs@.map_values(f) + spec_split(s@, sep) =~= spec_split(s@, sep));
    }
    while i < n
        invariant
            seg_start <= i <= n,
            n == s@.len(),
            forall|k: int| seg_start <= k < i ==> s@[k] != sep,
            spec_split(s@, sep) == segs@.map_values(|t: String| t@) + spec_split(
                s@.skip(seg_start as int),
                sep,
            ),
        decreases n - i,
    {
        let c = s.get_char(i);
        if c == sep {
            let seg = String::from_str(s.substring_char(seg_start, i));
            proof {
                let t = s@.subrange(seg_start as int, i as int);
                let tail = s@.skip(i as int + 1);
                assert(s@.skip(seg_start as int) =~= t + seq![sep] + tail);
                lemma_split_at_sep(t, tail, sep);
                let f = |t: String| t@;
                assert(segs@.push(seg).map_values(f) =~= segs@.map_values(f) + seq![t]);
                assert(segs@.map_values(f) + (seq![t] + spec_split(tail, sep)) =~= segs@.push(
                    seg,
                ).map_values(f) + spec_split(tail, sep));
            }
            segs.push(seg);
            seg_start = i + 1;
        }
        i = i + 1;
    }
    let last = String::from_str(s.substring_char(seg_start, n));
    proof {
        let t = s@.skip(seg_start as int);
        assert(s@.subrange(seg_start as int, n as int) =~= t);
        lemma_split_no_sep(t, sep);
        let f = |t: String| t@;
        assert(segs@.push(last).map_values(f) =~= segs@.map_values(f) + seq![t]);
    }
    segs.push(last);
    segs
}

/// The decimal digit characters.
pub open spec fn digit_char(d: int) -> char {
    if d == 0 {
        '0'
    } else if d == 1 {
        '1'
    } else if d == 2 {
        '2'
    } else if d == 3 {
        '3'
    } else if d == 4 {
        '4'
    } else if d == 5 {
        '5'
    } else if d == 6 {
        '6'
    } else if d == 7 {
        '7'
    } else if d == 8 {
        '8'
    } else {
        '9'
    }
}

/// The decimal rendering of a non-negative number, most significant digit
/// first, with no leading zeroes (`0` itself renders as one digit).
pub open spec fn dec_digits(n: int) -> Seq<char>
    decreases n,
{
    if n < 10 {
        seq![digit_char(n)]
    } else {
        dec_digits(n / 10).push(digit_char(n % 10))
    }
}

/// The decimal rendering of a signed number: a minus sign before the digits
/// of the magnitude when the number is negative.
pub open spec fn dec_i64(n: int) -> Seq<char> {
    if n >= 0 {
        dec_digits(n)
    } else {
        seq!['-'] + dec_digits(-n)
    }
}

/// The one-character string of a decimal digit.
fn digit_lit(d: u64) -> (r: &'static str)
    requires
        d < 10,
    ensures
        r@ == seq![digit_char(d as int)],
{
    if d == 0 {
        proof {
            reveal_strlit("0");
            assert("0"@ =~= seq![digit_char(0)]);
        }
        "0"
    } else if d == 1 {
        proof {
            reveal_strlit("1");
            assert("1"@ =~= seq![digit_char(1)]);
        }
        "1"
    } else if d == 2 {
        proof {
            reveal_strlit("2");
            assert("2"@ =~= seq![digit_char(2)]);
        }
        "2"
    } else if d == 3 {
        proof {
            reveal_strlit("3");
            assert("3"@ =~= seq![digit_char(3)]);
        }
        "3"
    } else if d == 4 {
        proof {
            reveal_strlit("4");
            assert("4"@ =~= seq![digit_char(4)]);
        }
        "4"
    } else if d == 5 {
        proof {
            reveal_strlit("5");
            assert("5"@ =~= seq![digit_char(5)]);
        }
        "5"
    } else if d == 6 {
        proof {
            reveal_strlit("6");
            assert("6"@ =~= seq![digit_char(6)]);
        }
        "6"
    } else if d == 7 {
        proof {
            reveal_strlit("7");
            assert("7"@ =~= seq![digit_char(7)]);
        }
        "7"
    } else if d == 8 {
        proof {
            reveal_strlit("8");
            assert("8"@ =~= seq![digit_char(8)]);
        }
        "8"
    } else {
        proof {
            reveal_strlit("9");
            assert("9"@ =~= seq![digit_char(9)]);
        }
        "9"
    }
}

/// Appends the decimal digits of `n` to `s`.
fn push_dec(s: &mut String, n: u64)
    ensures
        final(s)@ == old(s)@ + dec_digits(n as int),
    decreases n,
{
    if n >= 10 {
        push_dec(s, n / 10);
        let d = n % 10;
        s.append(digit_lit(d));
        proof {
            assert(final(s)@ =~= old(s)@ + dec_digits(n as int));
        }
    } else {
        s.append(digit_lit(n));
        proof {
            assert(final(s)@ =~= old(s)@ + dec_digits(n as int));
        }
    }
}

/// Renders a signed identifier as decimal text.
pub fn i64_to_dec(n: i64) -> (r: String)
    ensures
        r@ == dec_i64(n as int),
{
    if n >= 0 {
        let mut s = String::new();
        push_dec(&mut s, n as u64);
        proof {
            assert(s@ =~= dec_i64(n as int));
        }
        s
    } else {
        let mut s = String::from_str("-");
        proof {
            reveal_strlit("-");
            assert(s@ =~= seq!['-']);
        }
        let mag: u64 = ((-(n + 1)) as u64) + 1;
        push_dec(&mut s, mag);
        proof {
            assert(mag as int == -(n as int));
            assert(s@ =~= dec_i64(n as int));
        }
        s
    }
}

} // verus!
