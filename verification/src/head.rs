//! The head tool's number parsing: a count given on the command line must
//! be a positive integer, read the way the standard library reads one.

use vstd::prelude::*;
use crate::numerals::{all_digits, digits_val, parse_all_digits};

verus! {

/// A digit string the standard `usize` parser accepts: non-empty, digits
/// only, value within the machine word.
pub open spec fn digits_fit(t: Seq<char>) -> bool {
    t.len() > 0 && all_digits(t) && digits_val(t) <= usize::MAX
}

/// The shape the standard `usize` parser accepts: an optional leading
/// plus sign, then digits.
pub open spec fn std_usize_shape(s: Seq<char>) -> bool {
    if s.len() > 0 && s[0] == '+' {
        digits_fit(s.skip(1))
    } else {
        digits_fit(s)
    }
}

/// The value the standard `usize` parser reads.
pub open spec fn std_usize_val(s: Seq<char>) -> nat {
    if s.len() > 0 && s[0] == '+' {
        digits_val(s.skip(1))
    } else {
        digits_val(s)
    }
}

/// Parses a line or byte count: any unsigned decimal integer above zero.
/// Anything else — a word, zero, a value past the machine word — is handed
/// back verbatim as the error.
pub fn parse_positive_int(num: &str) -> (r: Result<usize, String>)
    ensures
        match r {
            Ok(n) => std_usize_shape(num@) && n > 0 && n == std_usize_val(num@),
            Err(e) => (!std_usize_shape(num@) || std_usize_val(num@) == 0) && e@ == num@,
        },
{
    let n = num.unicode_len();
    let parsed: Option<usize>;
    if n > 0 && num.get_char(0) == '+' {
        let rest = num.substring_char(1, n);
        proof {
            assert(rest@ =~= num@.skip(1));
        }
        parsed = parse_all_digits(rest);
    } else {
        parsed = parse_all_digits(num);
    }
    match parsed {
        Some(x) => {
            if x > 0 {
                Ok(x)
            } else {
                Err(num.to_owned())
            }
        },
        None => Err(num.to_owned()),
    }
}

} // verus!
