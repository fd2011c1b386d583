//! Counting what is told.

use vstd::prelude::*;

verus! {

/// One if something holds, else none.
pub open spec fn once_if(holds: bool) -> nat {
    if holds {
        1
    } else {
        0
    }
}

/// Filtering one element keeps it or not.
pub proof fn lemma_filter_at_most_one<A>(items: Seq<A>, keep: spec_fn(A) -> bool)
    requires
        items.len() <= 1,
    ensures
        items.filter(keep).len() == once_if(items.len() == 1 && keep(items[0])),
{
    reveal(Seq::filter);
    if items.len() == 1 {
        assert(items.drop_last().filter(keep).len() == 0);
    }
}

} // verus!
