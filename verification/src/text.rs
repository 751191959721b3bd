//! Characters and lines: the white-space set, word and line counting, and
//! trimming, shared by the counting and grouping tools.

use vstd::prelude::*;

verus! {

/// The Unicode `White_Space` characters, the set `str::trim_end` and
/// `str::split_whitespace` split on.
pub open spec fn is_space(c: char) -> bool {
    c == ' ' || c == '\t' || c == '\n' || c == '\u{b}' || c == '\u{c}' || c == '\r' || c
        == '\u{85}' || c == '\u{a0}' || c == '\u{1680}' || ('\u{2000}' as u32 <= c as u32 && c
        as u32 <= '\u{200a}' as u32) || c == '\u{2028}' || c == '\u{2029}' || c == '\u{202f}' || c
        == '\u{205f}' || c == '\u{3000}'
}

/// Decides `is_space`.
pub fn char_is_space(c: char) -> (b: bool)
    ensures
        b == is_space(c),
{
    let u = c as u32;
    u == 0x20 || (0x09 <= u && u <= 0x0d) || u == 0x85 || u == 0xa0 || u == 0x1680 || (0x2000 <= u
        && u <= 0x200a) || u == 0x2028 || u == 0x2029 || u == 0x202f || u == 0x205f || u == 0x3000
}

/// A word begins at `i`: a non-space character at the start of the text or
/// right after a space.
pub open spec fn word_starts(s: Seq<char>, i: int) -> bool {
    0 <= i < s.len() && !is_space(s[i]) && (i == 0 || is_space(s[i - 1]))
}

/// How many words begin before position `n`.
pub open spec fn count_words_upto(s: Seq<char>, n: int) -> nat
    decreases n,
{
    if n <= 0 {
        0
    } else {
        count_words_upto(s, n - 1) + (if word_starts(s, n - 1) {
            1nat
        } else {
            0nat
        })
    }
}

/// The number of maximal runs of non-space characters.
pub open spec fn count_words(s: Seq<char>) -> nat {
    count_words_upto(s, s.len() as int)
}

/// How many newline characters lie before position `n`.
pub open spec fn count_newlines_upto(s: Seq<char>, n: int) -> nat
    decreases n,
{
    if n <= 0 {
        0
    } else {
        count_newlines_upto(s, n - 1) + (if s[n - 1] == '\n' {
            1nat
        } else {
            0nat
        })
    }
}

pub proof fn lemma_count_newlines_le(s: Seq<char>, n: int)
    requires
        n >= 0,
    ensures
        count_newlines_upto(s, n) <= n,
    decreases n,
{
    if n > 0 {
        lemma_count_newlines_le(s, n - 1);
    }
}

/// The number of lines a line-by-line reader hands out: one per newline,
/// and one more for a final unterminated line.
pub open spec fn count_lines(s: Seq<char>) -> nat {
    count_newlines_upto(s, s.len() as int) + (if s.len() > 0 && s.last() != '\n' {
        1nat
    } else {
        0nat
    })
}

/// `s` with every trailing white-space character removed.
pub open spec fn trimmed(s: Seq<char>) -> Seq<char>
    decreases s.len(),
{
    if s.len() == 0 || !is_space(s.last()) {
        s
    } else {
        trimmed(s.drop_last())
    }
}

/// Removes trailing white space, as `str::trim_end` does.
pub fn trim_end(s: &str) -> (r: &str)
    ensures
        r@ == trimmed(s@),
{
    let n = s.unicode_len();
    let mut k: usize = n;
    proof {
        assert(s@.take(n as int) =~= s@);
    }
    loop
        invariant
            0 <= k <= n,
            n == s@.len(),
            trimmed(s@) == trimmed(s@.take(k as int)),
        ensures
            0 <= k <= n,
            n == s@.len(),
            trimmed(s@) == trimmed(s@.take(k as int)),
            k == 0 || !is_space(s@[k - 1]),
        decreases k,
    {
        if k == 0 {
            break;
        }
        let c = s.get_char(k - 1);
        if !char_is_space(c) {
            break;
        }
        proof {
            assert(s@.take(k as int).last() == s@[k - 1]);
            assert(s@.take(k as int).drop_last() =~= s@.take(k - 1));
        }
        k = k - 1;
    }
    let r = s.substring_char(0, k);
    proof {
        assert(r@ =~= s@.take(k as int));
        if k > 0 {
            assert(s@.take(k as int).last() == s@[k - 1]);
        }
    }
    r
}

/// Decides whether two strings hold the same characters.
pub fn str_eq(a: &str, b: &str) -> (r: bool)
    ensures
        r == (a@ == b@),
{
    let na = a.unicode_len();
    let nb = b.unicode_len();
    if na != nb {
        return false;
    }
    let mut i: usize = 0;
    while i < na
        invariant
            0 <= i <= na,
            na == a@.len(),
            na == b@.len(),
            forall|j: int| 0 <= j < i ==> a@[j] == b@[j],
        decreases na - i,
    {
        if a.get_char(i) != b.get_char(i) {
            return false;
        }
        i = i + 1;
    }
    proof {
        assert(a@ =~= b@);
    }
    true
}

} // verus!
