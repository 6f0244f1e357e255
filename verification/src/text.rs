//! Verified text helpers: literal prefix and suffix tests, marker
//! recognition, decimal rendering of offsets, and warning formatting.

use vstd::prelude::*;
use vstd::string::StrSliceExecFns;
use vstd::string::StringExecFns;

use crate::model::dec_digits;
use crate::model::digit_char;
use crate::model::has_prefix;
use crate::model::has_suffix;
use crate::model::is_marker;
use crate::model::warning_model;

verus! {

/// Whether `s` begins with the characters of `p`.
pub fn str_starts_with(s: &str, p: &str) -> (r: bool)
    ensures
        r == has_prefix(s@, p@),
{
    let sl = s.unicode_len();
    let pl = p.unicode_len();
    if sl < pl {
        return false;
    }
    let mut i: usize = 0;
    while i < pl
        invariant
            i <= pl,
            sl == s@.len(),
            pl == p@.len(),
            pl <= sl,
            forall|j: int| 0 <= j < i ==> s@[j] == p@[j],
        decreases pl - i,
    {
        if s.get_char(i) != p.get_char(i) {
            proof {
                assert(s@.subrange(0, p@.len() as int)[i as int] != p@[i as int]);
            }
            return false;
        }
        i += 1;
    }
    proof {
        assert(s@.subrange(0, p@.len() as int) =~= p@);
    }
    true
}

/// Whether `s` ends with the characters of `p`.
pub fn str_ends_with(s: &str, p: &str) -> (r: bool)
    ensures
        r == has_suffix(s@, p@),
{
    let sl = s.unicode_len();
    let pl = p.unicode_len();
    if sl < pl {
        return false;
    }
    let off = sl - pl;
    let mut i: usize = 0;
    while i < pl
        invariant
            off == sl - pl,
            i <= pl,
            sl == s@.len(),
            pl == p@.len(),
            pl <= sl,
            forall|j: int| 0 <= j < i ==> s@[off + j] == p@[j],
        decreases pl - i,
    {
        if s.get_char(off + i) != p.get_char(i) {
            proof {
                assert(s@.subrange(s@.len() - p@.len(), s@.len() as int)[i as int]
                    != p@[i as int]);
            }
            return false;
        }
        i += 1;
    }
    proof {
        assert(s@.subrange(s@.len() - p@.len(), s@.len() as int) =~= p@);
    }
    true
}

/// Whether a raw HTML block's text is an annotation marker.
pub fn is_marker_text(s: &str) -> (r: bool)
    ensures
        r == is_marker(s@),
{
    proof {
        reveal_strlit("<!-- marki[card] ");
        reveal_strlit("-->\n");
    }
    let n = s.unicode_len();
    n >= 21 && str_starts_with(s, "<!-- marki[card] ") && str_ends_with(s, "-->\n")
}

/// The one-character string for a decimal digit value.
pub fn digit_str(d: usize) -> (r: &'static str)
    requires
        d < 10,
    ensures
        r@ == seq![digit_char(d as nat)],
{
    proof {
        reveal_strlit("0");
        reveal_strlit("1");
        reveal_strlit("2");
        reveal_strlit("3");
        reveal_strlit("4");
        reveal_strlit("5");
        reveal_strlit("6");
        reveal_strlit("7");
        reveal_strlit("8");
        reveal_strlit("9");
    }
    let r: &'static str = if d == 0 {
        "0"
    } else if d == 1 {
        "1"
    } else if d == 2 {
        "2"
    } else if d == 3 {
        "3"
    } else if d == 4 {
        "4"
    } else if d == 5 {
        "5"
    } else if d == 6 {
        "6"
    } else if d == 7 {
        "7"
    } else if d == 8 {
        "8"
    } else {
        "9"
    };
    proof {
        assert(r@ =~= seq![digit_char(d as nat)]);
    }
    r
}

/// The decimal rendering of `n`.
pub fn usize_to_dec(n: usize) -> (r: String)
    ensures
        r@ == dec_digits(n as nat),
    decreases n,
{
    if n < 10 {
        String::from_str(digit_str(n))
    } else {
        proof {
            assert(n / 10 < n);
        }
        let mut r = usize_to_dec(n / 10);
        r.append(digit_str(n % 10));
        proof {
            assert(r@ =~= dec_digits(n as nat));
        }
        r
    }
}

/// Build one diagnostic line `<path>:<start>:<end>: <msg>`.
pub fn make_warning(path: &str, start: usize, end: usize, msg: &str) -> (r: String)
    ensures
        r@ == warning_model(path@, start as nat, end as nat, msg@),
{
    let mut r = String::from_str(path);
    r.append(":");
    let ds = usize_to_dec(start);
    r.append(ds.as_str());
    r.append(":");
    let de = usize_to_dec(end);
    r.append(de.as_str());
    r.append(": ");
    r.append(msg);
    r
}

} // verus!
