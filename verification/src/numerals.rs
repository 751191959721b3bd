//! Decimal numerals: the value of a digit string and the digit string of a
//! value, with exact overflow behaviour.

use vstd::prelude::*;

verus! {

/// `c` is a decimal digit.
pub open spec fn is_digit(c: char) -> bool {
    '0' as u32 <= c as u32 && c as u32 <= '9' as u32
}

/// Numeric value of a digit character.
pub open spec fn digit_val(c: char) -> nat {
    (c as u32 - '0' as u32) as nat
}

/// Every character of `s` is a decimal digit.
pub open spec fn all_digits(s: Seq<char>) -> bool {
    forall|i: int| 0 <= i < s.len() ==> is_digit(#[trigger] s[i])
}

/// The value of a digit string, most significant digit first.
pub open spec fn digits_val(s: Seq<char>) -> nat
    decreases s.len(),
{
    if s.len() == 0 {
        0
    } else {
        digits_val(s.drop_last()) * 10 + digit_val(s.last())
    }
}

/// Extending a digit string to the right never decreases its value.
pub proof fn lemma_digits_val_take_mono(s: Seq<char>, i: int, j: int)
    requires
        0 <= i <= j <= s.len(),
    ensures
        digits_val(s.take(i)) <= digits_val(s.take(j)),
    decreases j - i,
{
    if i < j {
        lemma_digits_val_take_mono(s, i, j - 1);
        assert(s.take(j).drop_last() =~= s.take(j - 1));
        assert(digits_val(s.take(j)) == digits_val(s.take(j - 1)) * 10 + digit_val(s.take(j).last()));
    }
}

/// Parses a string made entirely of decimal digits. Returns its value
/// exactly when the string is non-empty, all digits, and the value fits in
/// `usize`.
pub fn parse_all_digits(s: &str) -> (r: Option<usize>)
    ensures
        match r {
            Some(v) => s@.len() > 0 && all_digits(s@) && v == digits_val(s@),
            None => s@.len() == 0 || !all_digits(s@) || digits_val(s@) > usize::MAX,
        },
{
    let n = s.unicode_len();
    if n == 0 {
        return None;
    }
    let mut acc: usize = 0;
    let mut i: usize = 0;
    while i < n
        invariant
            0 <= i <= n,
            n == s@.len(),
            all_digits(s@.take(i as int)),
            acc == digits_val(s@.take(i as int)),
        decreases n - i,
    {
        let c = s.get_char(i);
        let cu = c as u32;
        if cu < 0x30 || cu > 0x39 {
            assert(!is_digit(s@[i as int]));
            return None;
        }
        let d = (cu - 0x30) as usize;
        proof {
            assert(s@.take(i + 1).drop_last() =~= s@.take(i as int));
            assert(digits_val(s@.take(i + 1)) == digits_val(s@.take(i as int)) * 10 + digit_val(
                s@[i as int],
            ));
        }
        let limit = (usize::MAX - d) / 10;
        if acc > limit {
            proof {
                let x = (usize::MAX - d) as int;
                vstd::arithmetic::div_mod::lemma_fundamental_div_mod(x, 10);
                assert(x % 10 < 10) by {
                    vstd::arithmetic::div_mod::lemma_mod_bound(x, 10);
                }
                vstd::arithmetic::mul::lemma_mul_inequality(limit as int + 1, acc as int, 10);
                assert(acc * 10 + d > usize::MAX);
                lemma_digits_val_take_mono(s@, i + 1, n as int);
                assert(s@.take(n as int) =~= s@);
            }
            return None;
        }
        proof {
            let x = (usize::MAX - d) as int;
            vstd::arithmetic::div_mod::lemma_fundamental_div_mod(x, 10);
            assert(x % 10 >= 0) by {
                vstd::arithmetic::div_mod::lemma_mod_bound(x, 10);
            }
            vstd::arithmetic::mul::lemma_mul_inequality(acc as int, limit as int, 10);
            assert(acc * 10 + d <= usize::MAX);
        }
        acc = acc * 10 + d;
        i = i + 1;
    }
    proof {
        assert(s@.take(n as int) =~= s@);
    }
    Some(acc)
}

/// Tests whether a string is made of decimal digits only (true for the
/// empty string).
pub fn str_all_digits(s: &str) -> (b: bool)
    ensures
        b == all_digits(s@),
{
    let n = s.unicode_len();
    let mut i: usize = 0;
    while i < n
        invariant
            0 <= i <= n,
            n == s@.len(),
            all_digits(s@.take(i as int)),
        decreases n - i,
    {
        let c = s.get_char(i);
        let cu = c as u32;
        if cu < 0x30 || cu > 0x39 {
            assert(!is_digit(s@[i as int]));
            return false;
        }
        proof {
            assert(s@.take(i + 1).drop_last() =~= s@.take(i as int));
            assert(forall|j: int|
                0 <= j < i + 1 ==> is_digit(#[trigger] s@.take(i + 1)[j]));
        }
        i = i + 1;
    }
    proof {
        assert(s@.take(n as int) =~= s@);
    }
    true
}

/// The digit character of a value below ten.
pub open spec fn digit_char(d: nat) -> char {
    if d == 0 {
        '0'
    } else if d == 1 {
        '1'
    } else if d == 2 {
        '2'
    } else if d == 3 {
        '3'
    } else if d == 4 {
        '4'
    } else if d == 5 {
        '5'
    } else if d == 6 {
        '6'
    } else if d == 7 {
        '7'
    } else if d == 8 {
        '8'
    } else {
        '9'
    }
}

/// The decimal numeral of `n`, most significant digit first, no sign and no
/// leading zeros (`0` itself is written `"0"`).
pub open spec fn spec_decimal(n: nat) -> Seq<char>
    decreases n,
{
    if n < 10 {
        seq![digit_char(n)]
    } else {
        spec_decimal(n / 10) + seq![digit_char(n % 10)]
    }
}

/// How many digits the numeral of `n` has; zero for `n == 0`.
pub open spec fn spec_num_digits(n: nat) -> nat
    decreases n,
{
    if n == 0 {
        0
    } else {
        1 + spec_num_digits(n / 10)
    }
}

/// For positive `n` the numeral is exactly `spec_num_digits(n)` long.
pub proof fn lemma_decimal_len(n: nat)
    requires
        n >= 1,
    ensures
        spec_decimal(n).len() == spec_num_digits(n),
    decreases n,
{
    if n >= 10 {
        lemma_decimal_len(n / 10);
    } else {
        assert(n / 10 == 0);
        assert(spec_num_digits(n) == 1 + spec_num_digits(0));
        assert(spec_num_digits(0) == 0);
    }
}

/// A numeral is never longer than its value.
pub proof fn lemma_num_digits_le(n: nat)
    ensures
        spec_num_digits(n) <= n,
    decreases n,
{
    if n > 0 {
        lemma_num_digits_le(n / 10);
    }
}

fn digit_str(d: usize) -> (r: &'static str)
    requires
        d < 10,
    ensures
        r@ == seq![digit_char(d as nat)],
{
    proof {
        reveal_strlit("0");
        reveal_strlit("1");
        reveal_strlit("2");
        reveal_strlit("3");
        reveal_strlit("4");
        reveal_strlit("5");
        reveal_strlit("6");
        reveal_strlit("7");
        reveal_strlit("8");
        reveal_strlit("9");
    }
    let r = if d == 0 {
        "0"
    } else if d == 1 {
        "1"
    } else if d == 2 {
        "2"
    } else if d == 3 {
        "3"
    } else if d == 4 {
        "4"
    } else if d == 5 {
        "5"
    } else if d == 6 {
        "6"
    } else if d == 7 {
        "7"
    } else if d == 8 {
        "8"
    } else {
        "9"
    };
    proof {
        assert(r@ =~= seq![digit_char(d as nat)]);
    }
    r
}

/// Writes `n` in decimal.
pub fn decimal_string(n: usize) -> (s: String)
    ensures
        s@ == spec_decimal(n as nat),
    decreases n,
{
    if n < 10 {
        let mut s = String::new();
        s.append(digit_str(n));
        proof {
            assert(s@ =~= spec_decimal(n as nat));
        }
        s
    } else {
        let mut s = decimal_string(n / 10);
        s.append(digit_str(n % 10));
        proof {
            assert(s@ =~= spec_decimal(n as nat));
        }
        s
    }
}

/// `n` space characters.
pub open spec fn spaces(n: nat) -> Seq<char> {
    Seq::new(n, |i: int| ' ')
}

/// `s` padded on the left with spaces to width `width`; unchanged when it is
/// already that wide.
pub open spec fn padded(s: Seq<char>, width: nat) -> Seq<char> {
    if s.len() >= width {
        s
    } else {
        spaces((width - s.len()) as nat) + s
    }
}

pub fn n_spaces(n: usize) -> (s: String)
    ensures
        s@ == spaces(n as nat),
{
    let mut s = String::new();
    let mut i: usize = 0;
    while i < n
        invariant
            0 <= i <= n,
            s@ =~= spaces(i as nat),
        decreases n - i,
    {
        s.append(" ");
        i = i + 1;
        proof {
            reveal_strlit(" ");
            assert(s@ =~= spaces(i as nat));
        }
    }
    s
}

/// Writes `n` in decimal, right-aligned in a field of `width` spaces.
pub fn padded_decimal(n: usize, width: usize) -> (s: String)
    ensures
        s@ == padded(spec_decimal(n as nat), width as nat),
{
    let digits = decimal_string(n);
    let len = digits.as_str().unicode_len();
    if len >= width {
        digits
    } else {
        let mut s = n_spaces(width - len);
        s.append(digits.as_str());
        s
    }
}

} // verus!
