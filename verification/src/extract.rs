//! The extraction engine: applies a parsed range list to one line, in
//! byte, character or field units. Ranges apply in stored order; a range
//! is clipped to the line and contributes nothing once it starts past the
//! end. Nothing here ever fails: out-of-range selection selects nothing.

use vstd::prelude::*;
use vstd::string::StringSliceAdditionalSpecFns;
use std::ops::Range;
use crate::split::{split_on, join_on, split_bytes};

verus! {

/// The part of `line` a single range selects: the overlap of `[start, end)`
/// with the line, empty when the range starts at or past the line's end.
pub open spec fn clip<T>(line: Seq<T>, r: Range<usize>) -> Seq<T> {
    let len = line.len() as int;
    let lo = if r.start <= len { r.start as int } else { len };
    let hi = if r.end <= len { r.end as int } else { len };
    if lo <= hi {
        line.subrange(lo, hi)
    } else {
        Seq::empty()
    }
}

/// What a range list selects from a line: each range's clip, in list
/// order, concatenated.
pub open spec fn extract_seq<T>(line: Seq<T>, ranges: Seq<Range<usize>>) -> Seq<T>
    decreases ranges.len(),
{
    if ranges.len() == 0 {
        Seq::empty()
    } else {
        extract_seq(line, ranges.drop_last()) + clip(line, ranges.last())
    }
}

/// The selection unit, each carrying the parsed range list.
#[derive(Debug, PartialEq, Eq)]
pub enum ExtractCount {
    Byte(Vec<Range<usize>>),
    Char(Vec<Range<usize>>),
    Fields(Vec<Range<usize>>),
}

/// One line's extracted output: text for character selection, raw bytes
/// otherwise (byte selection may cut a character in half on purpose).
#[derive(Debug, PartialEq, Eq)]
pub enum LineOut {
    Text(String),
    Raw(Vec<u8>),
}

/// Selects characters (Unicode scalar values) from a line.
pub fn extract_chars(line: &str, ranges: &[Range<usize>]) -> (r: String)
    ensures
        r@ == extract_seq(line@, ranges@),
{
    let n = line.unicode_len();
    let mut out = String::new();
    let mut k: usize = 0;
    proof {
        assert(ranges@.take(0) =~= Seq::<Range<usize>>::empty());
    }
    while k < ranges.len()
        invariant
            0 <= k <= ranges@.len(),
            n == line@.len(),
            out@ == extract_seq(line@, ranges@.take(k as int)),
        decreases ranges@.len() - k,
    {
        let rg = vstd::slice::slice_index_get(ranges, k);
        let lo = if rg.start <= n {
            rg.start
        } else {
            n
        };
        let mut hi = if rg.end <= n {
            rg.end
        } else {
            n
        };
        if hi < lo {
            hi = lo;
        }
        let piece = line.substring_char(lo, hi);
        proof {
            assert(piece@ =~= clip(line@, ranges@[k as int]));
            assert(ranges@.take(k + 1).drop_last() =~= ranges@.take(k as int));
            assert(ranges@.take(k + 1).last() == ranges@[k as int]);
        }
        out.append(piece);
        k = k + 1;
    }
    proof {
        assert(ranges@.take(ranges@.len() as int) =~= ranges@);
    }
    out
}

/// Selects raw bytes from a line. A range may split a multi-byte
/// character; the result is then not valid text, by design.
pub fn extract_bytes(line: &[u8], ranges: &[Range<usize>]) -> (r: Vec<u8>)
    ensures
        r@ == extract_seq(line@, ranges@),
{
    let n = line.len();
    let mut out: Vec<u8> = Vec::new();
    let mut k: usize = 0;
    proof {
        assert(ranges@.take(0) =~= Seq::<Range<usize>>::empty());
    }
    while k < ranges.len()
        invariant
            0 <= k <= ranges@.len(),
            n == line@.len(),
            out@ == extract_seq(line@, ranges@.take(k as int)),
        decreases ranges@.len() - k,
    {
        let rg = vstd::slice::slice_index_get(ranges, k);
        let lo = if rg.start <= n {
            rg.start
        } else {
            n
        };
        let mut hi = if rg.end <= n {
            rg.end
        } else {
            n
        };
        if hi < lo {
            hi = lo;
        }
        let ghost out0 = out@;
        let mut j: usize = lo;
        while j < hi
            invariant
                lo <= j <= hi <= n,
                n == line@.len(),
                out@ == out0 + line@.subrange(lo as int, j as int),
            decreases hi - j,
        {
            out.push(*vstd::slice::slice_index_get(line, j));
            proof {
                assert(out@ =~= out0 + line@.subrange(lo as int, j + 1));
            }
            j = j + 1;
        }
        proof {
            assert(line@.subrange(lo as int, hi as int) =~= clip(line@, ranges@[k as int]));
            assert(ranges@.take(k + 1).drop_last() =~= ranges@.take(k as int));
            assert(ranges@.take(k + 1).last() == ranges@[k as int]);
        }
        k = k + 1;
    }
    proof {
        assert(ranges@.take(ranges@.len() as int) =~= ranges@);
    }
    out
}

/// The fields of a line under a one-byte delimiter: split at every
/// delimiter, empty fields kept. An empty line has no fields at all, so
/// selecting from it yields nothing.
pub open spec fn line_fields(line: Seq<u8>, delim: u8) -> Seq<Seq<u8>> {
    if line.len() == 0 {
        Seq::empty()
    } else {
        split_on(line, delim)
    }
}

/// What field selection writes for one line: the selected fields, in
/// range-list order, joined by the delimiter, across range boundaries too.
pub open spec fn extract_fields_spec(line: Seq<u8>, delim: u8, ranges: Seq<Range<usize>>) -> Seq<
    u8,
> {
    join_on(extract_seq(line_fields(line, delim), ranges), seq![delim])
}

/// Selects delimiter-separated fields from a line and joins them again
/// with the same delimiter.
pub fn extract_fields(line: &[u8], delim: u8, ranges: &[Range<usize>]) -> (r: Vec<u8>)
    ensures
        r@ == extract_fields_spec(line@, delim, ranges@),
{
    let mut out: Vec<u8> = Vec::new();
    if line.len() == 0 {
        proof {
            lemma_extract_seq_of_empty::<Seq<u8>>(ranges@);
        }
        return out;
    }
    let fields = split_bytes(line, delim);
    let ghost fmodel = fields@.map_values(|f: Vec<u8>| f@);
    let nf = fields.len();
    let mut got: bool = false;
    let ghost mut sel = Seq::<Seq<u8>>::empty();
    let mut k: usize = 0;
    proof {
        assert(ranges@.take(0) =~= Seq::<Range<usize>>::empty());
    }
    while k < ranges.len()
        invariant
            0 <= k <= ranges@.len(),
            nf == fmodel.len(),
            nf == fields@.len(),
            fmodel == fields@.map_values(|f: Vec<u8>| f@),
            sel == extract_seq(fmodel, ranges@.take(k as int)),
            out@ == join_on(sel, seq![delim]),
            got == (sel.len() > 0),
        decreases ranges@.len() - k,
    {
        let rg = vstd::slice::slice_index_get(ranges, k);
        let lo = if rg.start <= nf {
            rg.start
        } else {
            nf
        };
        let mut hi = if rg.end <= nf {
            rg.end
        } else {
            nf
        };
        if hi < lo {
            hi = lo;
        }
        let ghost sel0 = sel;
        let mut j: usize = lo;
        proof {
            assert(sel0 + fmodel.subrange(lo as int, lo as int) =~= sel0);
        }
        while j < hi
            invariant
                lo <= j <= hi <= nf,
                nf == fmodel.len(),
                nf == fields@.len(),
                fmodel == fields@.map_values(|f: Vec<u8>| f@),
                sel == sel0 + fmodel.subrange(lo as int, j as int),
                out@ == join_on(sel, seq![delim]),
                got == (sel.len() > 0),
            decreases hi - j,
        {
            if got {
                out.push(delim);
            }
            let ghost out_base = out@;
            let f = &fields[j];
            let fl = f.len();
            let mut b: usize = 0;
            while b < fl
                invariant
                    0 <= b <= fl,
                    fl == f@.len(),
                    out@ == out_base + f@.subrange(0, b as int),
                decreases fl - b,
            {
                out.push(f[b]);
                proof {
                    assert(out@ =~= out_base + f@.subrange(0, b + 1));
                }
                b = b + 1;
            }
            proof {
                assert(f@.subrange(0, fl as int) =~= f@);
                assert(fmodel[j as int] == f@);
                let nsel = sel.push(f@);
                assert(nsel.drop_last() =~= sel);
                if sel.len() == 0 {
                    assert(join_on(nsel, seq![delim]) == f@);
                    assert(out@ =~= f@);
                } else {
                    assert(join_on(nsel, seq![delim]) == join_on(sel, seq![delim]) + seq![delim]
                        + f@);
                    assert(out@ =~= join_on(sel, seq![delim]) + seq![delim] + f@);
                }
                sel = nsel;
                assert(sel =~= sel0 + fmodel.subrange(lo as int, j + 1));
            }
            got = true;
            j = j + 1;
        }
        proof {
            assert(fmodel.subrange(lo as int, hi as int) =~= clip(fmodel, ranges@[k as int]));
            assert(ranges@.take(k + 1).drop_last() =~= ranges@.take(k as int));
            assert(ranges@.take(k + 1).last() == ranges@[k as int]);
            assert(sel =~= extract_seq(fmodel, ranges@.take(k + 1)));
        }
        k = k + 1;
    }
    proof {
        assert(ranges@.take(ranges@.len() as int) =~= ranges@);
    }
    out
}

/// Selecting anything from an empty line yields nothing: every clip of an
/// empty sequence is empty.
pub proof fn lemma_extract_seq_of_empty<T>(ranges: Seq<Range<usize>>)
    ensures
        extract_seq(Seq::<T>::empty(), ranges) == Seq::<T>::empty(),
    decreases ranges.len(),
{
    if ranges.len() > 0 {
        lemma_extract_seq_of_empty::<T>(ranges.drop_last());
        assert(extract_seq(Seq::<T>::empty(), ranges) =~= Seq::<T>::empty());
    }
}

/// An empty line yields empty output in every mode, whatever the range
/// list holds: character and byte selection select nothing, and the line
/// has no fields to join.
pub proof fn lemma_empty_line_empty_output(delim: u8, ranges: Seq<Range<usize>>)
    ensures
        extract_seq(Seq::<char>::empty(), ranges) == Seq::<char>::empty(),
        extract_seq(Seq::<u8>::empty(), ranges) == Seq::<u8>::empty(),
        extract_fields_spec(Seq::<u8>::empty(), delim, ranges) == Seq::<u8>::empty(),
{
    lemma_extract_seq_of_empty::<char>(ranges);
    lemma_extract_seq_of_empty::<u8>(ranges);
    lemma_extract_seq_of_empty::<Seq<u8>>(ranges);
}

/// Applies the mode's own selection to one line: characters for `Char`,
/// raw bytes for `Byte`, delimiter-separated fields for `Fields`.
pub fn extract_line(line: &str, mode: &ExtractCount, delim: u8) -> (r: LineOut)
    ensures
        match mode {
            ExtractCount::Char(rs) => r matches LineOut::Text(s) && s@ == extract_seq(line@, rs@),
            ExtractCount::Byte(rs) => r matches LineOut::Raw(v) && v@ == extract_seq(
                line.spec_bytes(),
                rs@,
            ),
            ExtractCount::Fields(rs) => r matches LineOut::Raw(v) && v@ == extract_fields_spec(
                line.spec_bytes(),
                delim,
                rs@,
            ),
        },
{
    match mode {
        ExtractCount::Char(rs) => LineOut::Text(extract_chars(line, rs.as_slice())),
        ExtractCount::Byte(rs) => LineOut::Raw(extract_bytes(line.as_bytes(), rs.as_slice())),
        ExtractCount::Fields(rs) => LineOut::Raw(
            extract_fields(line.as_bytes(), delim, rs.as_slice()),
        ),
    }
}

} // verus!
