//! The duplicate-grouping tool's core: consecutive lines that agree after
//! trailing white space is removed collapse into one entry that counts
//! them; the entry keeps the first line of its group verbatim.

use vstd::prelude::*;
use crate::numerals::{spec_decimal, padded, padded_decimal};
use crate::text::{trimmed, trim_end, str_eq};

verus! {

/// One group of equal consecutive lines: how many there were and the
/// first of them, unchanged.
#[derive(Debug)]
pub struct CountLines {
    pub count: usize,
    pub line: String,
}

/// The groups of a line sequence. A line joins the latest group when it
/// equals the previous line once both are trimmed of trailing white
/// space; otherwise it opens a new group. Before any line the point of
/// comparison is the empty string.
pub open spec fn uniq_spec(lines: Seq<Seq<char>>) -> Seq<(nat, Seq<char>)>
    decreases lines.len(),
{
    if lines.len() == 0 {
        Seq::empty()
    } else {
        let rest = uniq_spec(lines.drop_last());
        let cur = lines.last();
        let prev = if lines.len() >= 2 {
            trimmed(lines[lines.len() - 2])
        } else {
            Seq::<char>::empty()
        };
        if trimmed(cur) == prev {
            rest.update(rest.len() - 1, ((rest.last().0 + 1) as nat, rest.last().1))
        } else {
            rest.push((1nat, cur))
        }
    }
}

/// Executable groups against the spec-level ones.
pub open spec fn groups_match(v: Seq<CountLines>, m: Seq<(nat, Seq<char>)>) -> bool {
    v.len() == m.len() && forall|i: int|
        0 <= i < v.len() ==> (#[trigger] v[i]).count == m[i].0 && v[i].line@ == m[i].1
}

/// Groups the lines of one input, in order. A line whose trimmed text
/// equals the trimmed previous line raises the latest group's count; any
/// other line starts a new group carrying that line. The first line must
/// not be blank once trimmed: the original tool had no group yet to count
/// such a line into and gave up on it.
pub fn read_file(lines: Vec<String>) -> (r: Vec<CountLines>)
    requires
        lines@.len() > 0 ==> trimmed(lines@[0]@) != Seq::<char>::empty(),
    ensures
        groups_match(r@, uniq_spec(lines@.map_values(|l: String| l@))),
{
    let ghost lmodel = lines@.map_values(|l: String| l@);
    let mut out: Vec<CountLines> = Vec::new();
    let mut prev: String = String::new();
    let mut k: usize = 0;
    proof {
        assert(lmodel.take(0) =~= Seq::<Seq<char>>::empty());
    }
    while k < lines.len()
        invariant
            0 <= k <= lines@.len(),
            lmodel == lines@.map_values(|l: String| l@),
            lines@.len() > 0 ==> trimmed(lines@[0]@) != Seq::<char>::empty(),
            prev@ == (if k == 0 {
                Seq::<char>::empty()
            } else {
                trimmed(lmodel[k - 1])
            }),
            groups_match(out@, uniq_spec(lmodel.take(k as int))),
            k > 0 ==> out@.len() > 0,
            forall|i: int| 0 <= i < out@.len() ==> (#[trigger] out@[i]).count <= k,
        decreases lines@.len() - k,
    {
        let cur_trim = trim_end(lines[k].as_str());
        proof {
            assert(lmodel[k as int] == lines@[k as int]@);
            assert(lmodel.take(k + 1).drop_last() =~= lmodel.take(k as int));
            assert(lmodel.take(k + 1).last() == lmodel[k as int]);
            if k >= 1 {
                assert(lmodel.take(k + 1)[k - 1] == lmodel[k - 1]);
            }
        }
        if k > 0 && str_eq(prev.as_str(), cur_trim) {
            let li = out.len() - 1;
            let newcount = out[li].count + 1;
            let newline = out[li].line.clone();
            out[li] = CountLines { count: newcount, line: newline };
            proof {
                let m = uniq_spec(lmodel.take(k + 1));
                assert(m == uniq_spec(lmodel.take(k as int)).update(
                    li as int,
                    ((uniq_spec(lmodel.take(k as int)).last().0 + 1) as nat,
                    uniq_spec(lmodel.take(k as int)).last().1),
                ));
                assert(groups_match(out@, m));
            }
        } else {
            proof {
                if k == 0 {
                    assert(trimmed(lmodel[0]) != Seq::<char>::empty());
                    assert(prev@ == Seq::<char>::empty());
                }
                assert(trimmed(lmodel[k as int]) != (if k == 0 {
                    Seq::<char>::empty()
                } else {
                    trimmed(lmodel[k - 1])
                }));
            }
            out.push(CountLines { count: 1, line: lines[k].clone() });
            proof {
                let m = uniq_spec(lmodel.take(k + 1));
                assert(m == uniq_spec(lmodel.take(k as int)).push((1nat, lmodel[k as int])));
                assert(groups_match(out@, m));
            }
        }
        prev = cur_trim.to_owned();
        k = k + 1;
    }
    proof {
        assert(lmodel.take(lines@.len() as int) =~= lmodel);
    }
    out
}

/// One output line of the tool: with counting on, the count right-aligned
/// in seven places, a space, then the stored line; otherwise the stored
/// line alone.
pub fn format_count_line(count: usize, line: &str, with_count: bool) -> (r: String)
    ensures
        with_count ==> r@ == padded(spec_decimal(count as nat), 7) + " "@ + line@,
        !with_count ==> r@ == line@,
{
    if with_count {
        let mut r = padded_decimal(count, 7);
        r.append(" ");
        r.append(line);
        proof {
            assert(r@ =~= padded(spec_decimal(count as nat), 7) + " "@ + line@);
        }
        r
    } else {
        line.to_owned()
    }
}

} // verus!
