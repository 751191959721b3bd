//! The position-list parser: a comma-separated list of tokens, each either
//! a single 1-based position `N` or a pair `N-M` with `N < M`, becomes an
//! ordered list of half-open zero-based ranges. Tokens are kept in the
//! order written, unmerged; the first bad token aborts the parse.

use vstd::prelude::*;
use std::ops::Range;
use crate::numerals::{all_digits, digits_val, is_digit, parse_all_digits, str_all_digits, spec_decimal, decimal_string};
use crate::split::{first_at, split_on, lemma_first_at_bounds, lemma_first_at_is, find_char, split_str};

verus! {

/// Why a position list was rejected.
#[derive(Debug)]
pub enum ParseError {
    /// A token that is not a plain positive number and not a well-shaped
    /// pair of them; carries the offending text verbatim.
    IllegalListValue(String),
    /// A pair whose first 1-based bound is not below its second; carries
    /// both bounds.
    RangeOrder(usize, usize),
}

/// The message text of an illegal-token rejection.
pub open spec fn illegal_msg(t: Seq<char>) -> Seq<char> {
    "illegal list value: \""@ + t + "\""@
}

/// The message text of an out-of-order pair rejection.
pub open spec fn order_msg(first: nat, second: nat) -> Seq<char> {
    "first number in range ("@ + spec_decimal(first) + ") must be lower than second number ("@
        + spec_decimal(second) + ")"@
}

/// Builds the illegal-token message for `token`.
pub fn illegal_message(token: &str) -> (m: String)
    ensures
        m@ == illegal_msg(token@),
{
    let mut m = String::new();
    m.append("illegal list value: \"");
    m.append(token);
    m.append("\"");
    proof {
        assert(m@ =~= illegal_msg(token@));
    }
    m
}

impl ParseError {
    /// What this error means in `self`'s message.
    pub open spec fn msg_spec(&self) -> Seq<char> {
        match self {
            ParseError::IllegalListValue(t) => illegal_msg(t@),
            ParseError::RangeOrder(a, b) => order_msg(*a as nat, *b as nat),
        }
    }

    /// The user-visible message.
    pub fn message(&self) -> (m: String)
        ensures
            m@ == self.msg_spec(),
    {
        match self {
            ParseError::IllegalListValue(t) => illegal_message(t.as_str()),
            ParseError::RangeOrder(a, b) => {
                let mut m = String::new();
                m.append("first number in range (");
                m.append(decimal_string(*a).as_str());
                m.append(") must be lower than second number (");
                m.append(decimal_string(*b).as_str());
                m.append(")");
                proof {
                    assert(m@ =~= self.msg_spec());
                }
                m
            },
        }
    }
}

/// A token that is a plain position: non-empty, all digits, value at least
/// one and within the machine word.
pub open spec fn single_ok(t: Seq<char>) -> bool {
    t.len() > 0 && all_digits(t) && 1 <= digits_val(t) && digits_val(t) <= usize::MAX
}

/// A digit-string side of a pair whose value is usable as a 1-based bound.
pub open spec fn side_ok(a: Seq<char>) -> bool {
    1 <= digits_val(a) && digits_val(a) <= usize::MAX
}

/// The token has the shape `<digits>-<digits>`: exactly one dash, digits
/// and nothing else on both sides, neither side empty.
pub open spec fn pair_shape(t: Seq<char>) -> bool {
    let i = first_at(t, '-');
    1 <= i && i + 2 <= t.len() && all_digits(t.take(i)) && all_digits(t.skip(i + 1))
}

/// What one token means.
pub enum TokenParse {
    /// A plain position `N`: selects the zero-based range `[N-1, N)`.
    Single { val: nat },
    /// A pair `N-M`, `N < M`: selects the zero-based range `[N-1, M)`.
    Pair { lo: nat, hi: nat },
    /// Rejected outright; `text` is reproduced in the message.
    Illegal { text: Seq<char> },
    /// A pair whose bounds are not strictly increasing (1-based values).
    Inverted { first: nat, second: nat },
}

/// The meaning of a single token: a plain position if it parses as one,
/// else the pair form, else illegal. Inside a well-shaped pair, a bad side
/// is reported by its own text alone.
pub open spec fn parse_token_spec(t: Seq<char>) -> TokenParse {
    if single_ok(t) {
        TokenParse::Single { val: digits_val(t) }
    } else {
        let i = first_at(t, '-');
        if pair_shape(t) {
            let a = t.take(i);
            let b = t.skip(i + 1);
            if !side_ok(a) {
                TokenParse::Illegal { text: a }
            } else if !side_ok(b) {
                TokenParse::Illegal { text: b }
            } else if digits_val(a) >= digits_val(b) {
                TokenParse::Inverted { first: digits_val(a), second: digits_val(b) }
            } else {
                TokenParse::Pair { lo: (digits_val(a) - 1) as nat, hi: digits_val(b) }
            }
        } else {
            TokenParse::Illegal { text: t }
        }
    }
}

/// What a whole token list means: the ranges of all tokens in order, or
/// the first failure.
pub enum ListParse {
    Parsed { ranges: Seq<(nat, nat)> },
    Failed { bad: TokenParse },
}

/// Folds `parse_token_spec` over the tokens; an earlier failure wins.
pub open spec fn parse_list_spec(tokens: Seq<Seq<char>>) -> ListParse
    decreases tokens.len(),
{
    if tokens.len() == 0 {
        ListParse::Parsed { ranges: Seq::empty() }
    } else {
        match parse_list_spec(tokens.drop_last()) {
            ListParse::Failed { bad } => ListParse::Failed { bad },
            ListParse::Parsed { ranges } => match parse_token_spec(tokens.last()) {
                TokenParse::Single { val } => ListParse::Parsed {
                    ranges: ranges.push(((val - 1) as nat, val)),
                },
                TokenParse::Pair { lo, hi } => ListParse::Parsed { ranges: ranges.push((lo, hi)) },
                TokenParse::Illegal { text } => ListParse::Failed {
                    bad: TokenParse::Illegal { text },
                },
                TokenParse::Inverted { first, second } => ListParse::Failed {
                    bad: TokenParse::Inverted { first, second },
                },
            },
        }
    }
}

/// A failed prefix decides the whole list.
pub proof fn lemma_parse_list_fail_extends(tokens: Seq<Seq<char>>, p: int, j: int)
    requires
        0 <= p <= j <= tokens.len(),
        parse_list_spec(tokens.take(p)) matches ListParse::Failed { .. },
    ensures
        parse_list_spec(tokens.take(j)) == parse_list_spec(tokens.take(p)),
    decreases j - p,
{
    if p < j {
        lemma_parse_list_fail_extends(tokens, p, j - 1);
        assert(tokens.take(j).drop_last() =~= tokens.take(j - 1));
    }
}

/// An executable result against the meaning of one token.
pub open spec fn token_matches(r: Result<Range<usize>, ParseError>, m: TokenParse) -> bool {
    match (r, m) {
        (Ok(rg), TokenParse::Single { val }) => rg.start == val - 1 && rg.end == val,
        (Ok(rg), TokenParse::Pair { lo, hi }) => rg.start == lo && rg.end == hi,
        (Err(ParseError::IllegalListValue(s)), TokenParse::Illegal { text }) => s@ == text,
        (Err(ParseError::RangeOrder(a, b)), TokenParse::Inverted { first, second }) => a == first
            && b == second,
        _ => false,
    }
}

/// An executable range list against the spec-level one.
pub open spec fn ranges_match(v: Seq<Range<usize>>, m: Seq<(nat, nat)>) -> bool {
    v.len() == m.len() && forall|i: int|
        0 <= i < v.len() ==> (#[trigger] v[i]).start == m[i].0 && v[i].end == m[i].1
}

/// An executable parse result against the meaning of the whole list.
pub open spec fn list_matches(r: Result<Vec<Range<usize>>, ParseError>, m: ListParse) -> bool {
    match (r, m) {
        (Ok(v), ListParse::Parsed { ranges }) => ranges_match(v@, ranges),
        (Err(e), ListParse::Failed { bad }) => err_matches(e, bad),
        _ => false,
    }
}

/// An executable error against the meaning of the failing token.
pub open spec fn err_matches(e: ParseError, m: TokenParse) -> bool {
    match (e, m) {
        (ParseError::IllegalListValue(s), TokenParse::Illegal { text }) => s@ == text,
        (ParseError::RangeOrder(a, b), TokenParse::Inverted { first, second }) => a == first && b
            == second,
        _ => false,
    }
}

/// In a digit string there is no dash.
proof fn lemma_digits_no_dash(t: Seq<char>)
    requires
        all_digits(t),
    ensures
        first_at(t, '-') == t.len(),
{
    assert forall|j: int| 0 <= j < t.len() implies t[j] != '-' by {
        assert(is_digit(t[j]));
    }
    lemma_first_at_is(t, '-', t.len() as int);
}

/// Parses one 1-based position token as the original tool's single-index
/// rule does: digits only, no sign, at least one; the result is the
/// zero-based index `N - 1`. A rejected token yields the full message.
pub fn parse_index(input: &str) -> (r: Result<usize, String>)
    ensures
        match r {
            Ok(v) => single_ok(input@) && v == digits_val(input@) - 1,
            Err(e) => !single_ok(input@) && e@ == illegal_msg(input@),
        },
{
    match parse_all_digits(input) {
        Some(v) => {
            if v >= 1 {
                Ok(v - 1)
            } else {
                Err(illegal_message(input))
            }
        },
        None => Err(illegal_message(input)),
    }
}

/// Parses one token of the position list: a plain position, or a
/// `low-high` pair, or an error naming the offending text.
fn parse_pos_token(t: &str) -> (r: Result<Range<usize>, ParseError>)
    ensures
        token_matches(r, parse_token_spec(t@)),
{
    let n = t.unicode_len();
    match parse_all_digits(t) {
        Some(v) => {
            if v >= 1 {
                return Ok(Range { start: v - 1, end: v });
            }
            // All digits but zero: no dash, so not a pair either.
            proof {
                lemma_digits_no_dash(t@);
            }
            return Err(ParseError::IllegalListValue(t.to_owned()));
        },
        None => {},
    }
    let i = find_char(t, '-');
    proof {
        lemma_first_at_bounds(t@, '-');
    }
    if i == n || i < 1 || n - i < 2 {
        return Err(ParseError::IllegalListValue(t.to_owned()));
    }
    let left = t.substring_char(0, i);
    let right = t.substring_char(i + 1, n);
    proof {
        assert(left@ =~= t@.take(i as int));
        assert(right@ =~= t@.skip(i + 1));
    }
    if !str_all_digits(left) || !str_all_digits(right) {
        return Err(ParseError::IllegalListValue(t.to_owned()));
    }
    assert(pair_shape(t@));
    let va = match parse_all_digits(left) {
        Some(v) => v,
        None => {
            return Err(ParseError::IllegalListValue(left.to_owned()));
        },
    };
    if va == 0 {
        return Err(ParseError::IllegalListValue(left.to_owned()));
    }
    let vb = match parse_all_digits(right) {
        Some(v) => v,
        None => {
            return Err(ParseError::IllegalListValue(right.to_owned()));
        },
    };
    if vb == 0 {
        return Err(ParseError::IllegalListValue(right.to_owned()));
    }
    if va >= vb {
        Err(ParseError::RangeOrder(va, vb))
    } else {
        Ok(Range { start: va - 1, end: vb })
    }
}

/// Parses a whole position list such as `"1,3,5-7"` into ranges in the
/// order written, duplicates and overlaps kept. The first bad token aborts
/// the parse with its error.
pub fn get_positions(input: &str) -> (r: Result<Vec<Range<usize>>, ParseError>)
    ensures
        list_matches(r, parse_list_spec(split_on(input@, ','))),
{
    let parts = split_str(input, ',');
    let ghost toks = split_on(input@, ',');
    let mut out: Vec<Range<usize>> = Vec::new();
    let mut k: usize = 0;
    proof {
        assert(toks.take(0) =~= Seq::<Seq<char>>::empty());
    }
    while k < parts.len()
        invariant
            0 <= k <= parts@.len(),
            parts@.map_values(|p: String| p@) == toks,
            toks == split_on(input@, ','),
            parse_list_spec(toks.take(k as int)) matches ListParse::Parsed { ranges }
                && ranges_match(out@, ranges),
        decreases parts@.len() - k,
    {
        let tr = parse_pos_token(parts[k].as_str());
        proof {
            assert(parts@.map_values(|p: String| p@)[k as int] == parts@[k as int]@);
            assert(toks.take(k + 1).drop_last() =~= toks.take(k as int));
            assert(toks.take(k + 1).last() == toks[k as int]);
        }
        match tr {
            Ok(rg) => {
                out.push(rg);
            },
            Err(e) => {
                proof {
                    lemma_parse_list_fail_extends(toks, k + 1, toks.len() as int);
                    assert(toks.take(toks.len() as int) =~= toks);
                }
                return Err(e);
            },
        }
        k = k + 1;
    }
    proof {
        assert(toks.take(toks.len() as int) =~= toks);
    }
    Ok(out)
}

/// A lone all-digit token `N` (with `1 <= N` and `N` within the machine
/// word) always parses, and to exactly the one range `[N-1, N)`.
pub proof fn lemma_single_token_parses(t: Seq<char>)
    requires
        t.len() > 0,
        all_digits(t),
        1 <= digits_val(t) && digits_val(t) <= usize::MAX,
    ensures
        parse_list_spec(split_on(t, ',')) == (ListParse::Parsed {
            ranges: seq![((digits_val(t) - 1) as nat, digits_val(t))],
        }),
{
    assert forall|j: int| 0 <= j < t.len() implies t[j] != ',' by {
        assert(is_digit(t[j]));
    }
    lemma_first_at_is(t, ',', t.len() as int);
    assert(split_on(t, ',') == seq![t]);
    assert(seq![t].drop_last() =~= Seq::<Seq<char>>::empty());
    assert(parse_list_spec(Seq::<Seq<char>>::empty()) == (ListParse::Parsed {
        ranges: Seq::<(nat, nat)>::empty(),
    }));
    assert(single_ok(t));
    assert(parse_token_spec(t) == (TokenParse::Single { val: digits_val(t) }));
    assert(seq![t].last() == t);
    assert(parse_list_spec(seq![t]) == (ListParse::Parsed {
        ranges: Seq::<(nat, nat)>::empty().push(((digits_val(t) - 1) as nat, digits_val(t))),
    }));
    assert(Seq::<(nat, nat)>::empty().push(((digits_val(t) - 1) as nat, digits_val(t))) =~= seq![
        ((digits_val(t) - 1) as nat, digits_val(t)),
    ]);
}

/// Every range a successful parse yields is non-empty: its zero-based
/// start lies strictly below its end. No empty or inverted range ever
/// reaches the extraction engine.
pub proof fn lemma_parsed_ranges_nonempty(tokens: Seq<Seq<char>>)
    ensures
        match parse_list_spec(tokens) {
            ListParse::Parsed { ranges } => forall|i: int|
                0 <= i < ranges.len() ==> (#[trigger] ranges[i]).0 < ranges[i].1,
            ListParse::Failed { .. } => true,
        },
    decreases tokens.len(),
{
    if tokens.len() > 0 {
        lemma_parsed_ranges_nonempty(tokens.drop_last());
        if parse_list_spec(tokens.drop_last()) matches ListParse::Parsed { ranges } {
            let t = tokens.last();
            match parse_token_spec(t) {
                TokenParse::Single { val } => {
                    assert(single_ok(t));
                    assert(val >= 1);
                },
                TokenParse::Pair { lo, hi } => {
                    assert(digits_val(t.take(first_at(t, '-'))) < digits_val(
                        t.skip(first_at(t, '-') + 1),
                    ));
                },
                _ => {},
            }
        }
    }
}

/// Whether two parse errors say the same thing.
pub open spec fn same_error(e1: ParseError, e2: ParseError) -> bool {
    match (e1, e2) {
        (ParseError::IllegalListValue(s1), ParseError::IllegalListValue(s2)) => s1@ == s2@,
        (ParseError::RangeOrder(a1, b1), ParseError::RangeOrder(a2, b2)) => a1 == a2 && b1 == b2,
        _ => false,
    }
}

/// Parsing is a pure function of the list string: any two results that
/// meet the parser's contract on the same input agree range for range, or
/// carry the same error.
pub proof fn lemma_get_positions_deterministic(
    input: Seq<char>,
    r1: Result<Vec<Range<usize>>, ParseError>,
    r2: Result<Vec<Range<usize>>, ParseError>,
)
    requires
        list_matches(r1, parse_list_spec(split_on(input, ','))),
        list_matches(r2, parse_list_spec(split_on(input, ','))),
    ensures
        r1 is Ok <==> r2 is Ok,
        match (r1, r2) {
            (Ok(v1), Ok(v2)) => v1@ =~= v2@,
            (Err(e1), Err(e2)) => same_error(e1, e2),
            _ => true,
        },
{
    match parse_list_spec(split_on(input, ',')) {
        ListParse::Parsed { ranges } => {
            if let (Ok(v1), Ok(v2)) = (r1, r2) {
                assert forall|i: int| 0 <= i < v1@.len() implies v1@[i] == v2@[i] by {
                    assert(v1@[i].start == ranges[i].0 && v1@[i].end == ranges[i].1);
                    assert(v2@[i].start == ranges[i].0 && v2@[i].end == ranges[i].1);
                }
            }
        },
        ListParse::Failed { .. } => {},
    }
}

} // verus!
