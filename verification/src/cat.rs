//! The concatenating tool's line numbering: a line is printed as it is,
//! or behind its number right-aligned in eight places and two spaces.
//! Numbering non-blank lines only holds the counter still across blank
//! lines, which get an eight-space gutter instead of a number.

use vstd::prelude::*;
use crate::numerals::{spec_decimal, spaces, padded, padded_decimal, n_spaces};

verus! {

/// What one numbered output line holds and what the counter becomes.
pub open spec fn numbered_spec(line: Seq<char>, number_lines: bool, number_nonblank: bool, count: u32) -> (Seq<char>, int) {
    if number_nonblank {
        if line.len() == 0 && count != 0 {
            (spaces(8) + "  "@ + line, count as int)
        } else {
            (padded(spec_decimal(count as nat), 8) + "  "@ + line, count + 1)
        }
    } else if number_lines {
        (padded(spec_decimal(count as nat), 8) + "  "@ + line, count + 1)
    } else {
        (line, count + 1)
    }
}

/// Renders one line under the numbering flags and advances the counter as
/// the original tool did (each printed line steps it; a blank line under
/// non-blank numbering gives the step back).
pub fn number_line(line: &str, number_lines: bool, number_nonblank: bool, count: u32) -> (r: (
    String,
    u32,
))
    requires
        count < u32::MAX,
    ensures
        r.0@ == numbered_spec(line@, number_lines, number_nonblank, count).0,
        r.1 as int == numbered_spec(line@, number_lines, number_nonblank, count).1,
{
    if number_nonblank {
        if line.is_empty() && count != 0 {
            let mut s = n_spaces(8);
            s.append("  ");
            s.append(line);
            proof {
                assert(s@ =~= spaces(8) + "  "@ + line@);
            }
            (s, count)
        } else {
            let mut s = padded_decimal(count as usize, 8);
            s.append("  ");
            s.append(line);
            proof {
                assert(s@ =~= padded(spec_decimal(count as nat), 8) + "  "@ + line@);
            }
            (s, count + 1)
        }
    } else if number_lines {
        let mut s = padded_decimal(count as usize, 8);
        s.append("  ");
        s.append(line);
        proof {
            assert(s@ =~= padded(spec_decimal(count as nat), 8) + "  "@ + line@);
        }
        (s, count + 1)
    } else {
        (line.to_owned(), count + 1)
    }
}

} // verus!
