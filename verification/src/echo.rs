//! The echoing tool's one computation: its arguments joined by single
//! spaces.

use vstd::prelude::*;
use crate::split::join_on;

verus! {

/// Joins the words with one space between neighbours.
pub fn join_words(words: &Vec<String>) -> (r: String)
    ensures
        r@ == join_on(words@.map_values(|w: String| w@), " "@),
{
    let ghost model = words@.map_values(|w: String| w@);
    let mut out = String::new();
    let mut k: usize = 0;
    proof {
        assert(model.take(0) =~= Seq::<Seq<char>>::empty());
    }
    while k < words.len()
        invariant
            0 <= k <= words@.len(),
            model == words@.map_values(|w: String| w@),
            out@ == join_on(model.take(k as int), " "@),
        decreases words@.len() - k,
    {
        proof {
            assert(model.take(k + 1).drop_last() =~= model.take(k as int));
            assert(model.take(k + 1).last() == model[k as int]);
            assert(model[k as int] == words@[k as int]@);
        }
        if k > 0 {
            out.append(" ");
        }
        out.append(words[k].as_str());
        proof {
            if k == 0 {
                assert(out@ =~= join_on(model.take(1), " "@));
            }
        }
        k = k + 1;
    }
    proof {
        assert(model.take(words@.len() as int) =~= model);
    }
    out
}

} // verus!
