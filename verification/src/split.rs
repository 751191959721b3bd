//! Splitting a sequence on a separator element and joining pieces back
//! together. One spec serves the position-list grammar (commas), field
//! extraction (the delimiter byte) and word joining.

use vstd::prelude::*;

verus! {

/// Index of the first occurrence of `sep` in `s`; `s.len()` when absent.
pub open spec fn first_at<T>(s: Seq<T>, sep: T) -> int
    decreases s.len(),
{
    if s.len() == 0 {
        0
    } else if s[0] == sep {
        0
    } else {
        1 + first_at(s.drop_first(), sep)
    }
}

/// `first_at` stays within the sequence, lands on the separator when one
/// exists, and nothing before it is the separator.
pub proof fn lemma_first_at_bounds<T>(s: Seq<T>, sep: T)
    ensures
        0 <= first_at(s, sep) <= s.len(),
        first_at(s, sep) < s.len() ==> s[first_at(s, sep)] == sep,
        forall|j: int| 0 <= j < first_at(s, sep) ==> s[j] != sep,
    decreases s.len(),
{
    if s.len() > 0 && s[0] != sep {
        lemma_first_at_bounds(s.drop_first(), sep);
        let i = first_at(s, sep);
        assert(i == 1 + first_at(s.drop_first(), sep));
        assert forall|j: int| 0 <= j < i implies s[j] != sep by {
            if j >= 1 {
                assert(s.drop_first()[j - 1] == s[j]);
            }
        }
        if i < s.len() {
            assert(s[i] == s.drop_first()[i - 1]);
        }
    }
}

/// `first_at` is pinned down by what the prefix holds.
pub proof fn lemma_first_at_is<T>(s: Seq<T>, sep: T, k: int)
    requires
        0 <= k <= s.len(),
        forall|j: int| 0 <= j < k ==> s[j] != sep,
        k < s.len() ==> s[k] == sep,
    ensures
        first_at(s, sep) == k,
    decreases k,
{
    if s.len() == 0 {
    } else if k == 0 {
    } else {
        assert(s[0] != sep);
        lemma_first_at_is(s.drop_first(), sep, k - 1);
    }
}

/// `s` cut at every occurrence of `sep`, separators dropped, empty pieces
/// kept: an empty sequence yields one empty piece.
pub open spec fn split_on<T>(s: Seq<T>, sep: T) -> Seq<Seq<T>>
    decreases s.len(),
{
    let i = first_at(s, sep);
    if 0 <= i < s.len() {
        seq![s.take(i)] + split_on(s.skip(i + 1), sep)
    } else {
        seq![s]
    }
}

/// The pieces interleaved with `sep`: empty for no pieces, the lone piece
/// for one, and one separator between neighbouring pieces otherwise.
pub open spec fn join_on<T>(parts: Seq<Seq<T>>, sep: Seq<T>) -> Seq<T>
    decreases parts.len(),
{
    if parts.len() == 0 {
        Seq::empty()
    } else if parts.len() == 1 {
        parts[0]
    } else {
        join_on(parts.drop_last(), sep) + sep + parts.last()
    }
}

/// Position of the first occurrence of `c` in `s`, or the length of `s`.
pub fn find_char(s: &str, c: char) -> (idx: usize)
    ensures
        idx == first_at(s@, c),
{
    let n = s.unicode_len();
    let mut i: usize = 0;
    while i < n
        invariant_except_break
            0 <= i <= n,
            n == s@.len(),
            forall|j: int| 0 <= j < i ==> s@[j] != c,
        ensures
            0 <= i <= n,
            n == s@.len(),
            forall|j: int| 0 <= j < i ==> s@[j] != c,
            i < n ==> s@[i as int] == c,
        decreases n - i,
    {
        if s.get_char(i) == c {
            break;
        }
        i = i + 1;
    }
    proof {
        lemma_first_at_is(s@, c, i as int);
    }
    i
}

/// Splits a string at every occurrence of the character `sep`.
pub fn split_str(s: &str, sep: char) -> (parts: Vec<String>)
    ensures
        parts@.map_values(|p: String| p@) == split_on(s@, sep),
{
    let n = s.unicode_len();
    let mut parts: Vec<String> = Vec::new();
    proof {
        assert(s@.skip(0) =~= s@);
        assert(parts@.map_values(|p: String| p@) =~= Seq::<Seq<char>>::empty());
        assert(Seq::<Seq<char>>::empty() + split_on(s@, sep) =~= split_on(s@, sep));
    }
    let mut start: usize = 0;
    let mut i: usize = 0;
    while i < n
        invariant
            0 <= start <= i <= n,
            n == s@.len(),
            forall|j: int| start <= j < i ==> s@[j] != sep,
            split_on(s@, sep) == parts@.map_values(|p: String| p@) + split_on(
                s@.skip(start as int),
                sep,
            ),
        decreases n - i,
    {
        let c = s.get_char(i);
        if c == sep {
            let piece = s.substring_char(start, i).to_owned();
            proof {
                let tail = s@.skip(start as int);
                lemma_first_at_is(tail, sep, i - start);
                assert(tail.take(i - start) =~= s@.subrange(start as int, i as int));
                assert(tail.skip(i - start + 1) =~= s@.skip(i + 1));
                assert(split_on(tail, sep) == seq![piece@] + split_on(s@.skip(i + 1), sep));
                assert(parts@.push(piece).map_values(|p: String| p@) =~= parts@.map_values(
                    |p: String| p@,
                ).push(piece@));
                assert(parts@.map_values(|p: String| p@).push(piece@) + split_on(s@.skip(i + 1), sep)
                    =~= parts@.map_values(|p: String| p@) + (seq![piece@] + split_on(
                    s@.skip(i + 1),
                    sep,
                )));
            }
            parts.push(piece);
            start = i + 1;
        }
        i = i + 1;
    }
    let piece = s.substring_char(start, n).to_owned();
    proof {
        let tail = s@.skip(start as int);
        lemma_first_at_is(tail, sep, n - start);
        assert(split_on(tail, sep) == seq![tail]);
        assert(tail =~= s@.subrange(start as int, n as int));
        assert(parts@.push(piece).map_values(|p: String| p@) =~= parts@.map_values(
            |p: String| p@,
        ).push(piece@));
        assert(parts@.map_values(|p: String| p@).push(piece@) =~= parts@.map_values(|p: String| p@)
            + seq![tail]);
    }
    parts.push(piece);
    parts
}

/// Splits a byte sequence at every occurrence of the byte `sep`.
pub fn split_bytes(s: &[u8], sep: u8) -> (parts: Vec<Vec<u8>>)
    ensures
        parts@.map_values(|p: Vec<u8>| p@) == split_on(s@, sep),
{
    let n = s.len();
    let mut parts: Vec<Vec<u8>> = Vec::new();
    proof {
        assert(s@.skip(0) =~= s@);
        assert(parts@.map_values(|p: Vec<u8>| p@) =~= Seq::<Seq<u8>>::empty());
        assert(Seq::<Seq<u8>>::empty() + split_on(s@, sep) =~= split_on(s@, sep));
    }
    let mut start: usize = 0;
    let mut i: usize = 0;
    while i < n
        invariant
            0 <= start <= i <= n,
            n == s@.len(),
            forall|j: int| start <= j < i ==> s@[j] != sep,
            split_on(s@, sep) == parts@.map_values(|p: Vec<u8>| p@) + split_on(
                s@.skip(start as int),
                sep,
            ),
        decreases n - i,
    {
        let c = *vstd::slice::slice_index_get(s, i);
        if c == sep {
            let piece = vstd::slice::slice_to_vec(vstd::slice::slice_subrange(s, start, i));
            proof {
                let tail = s@.skip(start as int);
                lemma_first_at_is(tail, sep, i - start);
                assert(tail.take(i - start) =~= s@.subrange(start as int, i as int));
                assert(tail.skip(i - start + 1) =~= s@.skip(i + 1));
                assert(split_on(tail, sep) == seq![piece@] + split_on(s@.skip(i + 1), sep));
                assert(parts@.push(piece).map_values(|p: Vec<u8>| p@) =~= parts@.map_values(
                    |p: Vec<u8>| p@,
                ).push(piece@));
                assert(parts@.map_values(|p: Vec<u8>| p@).push(piece@) + split_on(
                    s@.skip(i + 1),
                    sep,
                ) =~= parts@.map_values(|p: Vec<u8>| p@) + (seq![piece@] + split_on(
                    s@.skip(i + 1),
                    sep,
                )));
            }
            parts.push(piece);
            start = i + 1;
        }
        i = i + 1;
    }
    let piece = vstd::slice::slice_to_vec(vstd::slice::slice_subrange(s, start, n));
    proof {
        let tail = s@.skip(start as int);
        lemma_first_at_is(tail, sep, n - start);
        assert(split_on(tail, sep) == seq![tail]);
        assert(tail =~= s@.subrange(start as int, n as int));
        assert(parts@.push(piece).map_values(|p: Vec<u8>| p@) =~= parts@.map_values(
            |p: Vec<u8>| p@,
        ).push(piece@));
        assert(parts@.map_values(|p: Vec<u8>| p@).push(piece@) =~= parts@.map_values(
            |p: Vec<u8>| p@,
        ) + seq![tail]);
    }
    parts.push(piece);
    parts
}

} // verus!
