//! The best of a population, over the generations of a run.

use crate::order::{
    below, best_in, best_index, costs_of, lemma_best_index_in_range, lemma_none_below_best,
    ordered, strict_order, Candidate, Number,
};
use vstd::prelude::*;

verus! {

/// The best candidate after the generations `added` were made one by one: the
/// best of each generation takes the place of the best so far only where its
/// cost is strictly below.
pub open spec fn best_after<S: Number>(
    before: Option<Candidate<S>>,
    added: Seq<Seq<Candidate<S>>>,
) -> Option<Candidate<S>>
    decreases added.len(),
{
    if added.len() == 0 {
        before
    } else {
        let newest = best_in(added.last());
        match best_after(before, added.drop_last()) {
            Some(held) => if below(newest.cost, held.cost) {
                Some(newest)
            } else {
                Some(held)
            },
            None => Some(newest),
        }
    }
}

/// The best after one more generation is the best of that generation or the
/// best that was held before it.
pub proof fn lemma_best_after_push<S: Number>(
    before: Option<Candidate<S>>,
    added: Seq<Seq<Candidate<S>>>,
    newest: Seq<Candidate<S>>,
)
    ensures
        best_after(before, added.push(newest)) == best_after(
            best_after(before, added),
            seq![newest],
        ),
{
    let one = seq![newest];
    assert(added.push(newest).drop_last() =~= added);
    assert(one.drop_last() =~= Seq::<Seq<Candidate<S>>>::empty());
    assert(best_after(best_after(before, added), one.drop_last()) == best_after(before, added));
}

/// No generation is empty, and any two costs of their members are ordered.
pub open spec fn all_ordered<S: Number>(added: Seq<Seq<Candidate<S>>>) -> bool {
    &&& forall|g: int| 0 <= g < added.len() ==> (#[trigger] added[g]).len() > 0
    &&& forall|g: int, j: int, h: int, k: int|
        0 <= g < added.len() && 0 <= j < added[g].len() && 0 <= h < added.len() && 0 <= k
            < added[h].len() ==> ordered(
            (#[trigger] added[g][j]).cost,
            (#[trigger] added[h][k]).cost,
        )
}

/// The best after some generations, none of them empty, is the best that was
/// held before them or a member of one of them.
pub proof fn lemma_best_after_is_held<S: Number>(
    before: Option<Candidate<S>>,
    added: Seq<Seq<Candidate<S>>>,
)
    requires
        forall|g: int| 0 <= g < added.len() ==> (#[trigger] added[g]).len() > 0,
    ensures
        best_after(before, added) == before || exists|g: int, j: int|
            0 <= g < added.len() && 0 <= j < added[g].len() && best_after(before, added) == Some(
                #[trigger] added[g][j],
            ),
    decreases added.len(),
{
    if added.len() > 0 {
        let front = added.drop_last();
        let last = added.len() - 1;
        assert forall|g: int| 0 <= g < front.len() implies (#[trigger] front[g]).len() > 0 by {
            assert(front[g] == added[g]);
        }
        lemma_best_after_is_held(before, front);
        lemma_best_index_in_range(costs_of(added[last]));
        let place = best_index(costs_of(added[last]));
        if best_after(before, added) == Some(added[last][place]) {
        } else if best_after(before, front) != before {
            let (g, j) = choose|g: int, j: int|
                0 <= g < front.len() && 0 <= j < front[g].len() && best_after(before, front)
                    == Some(#[trigger] front[g][j]);
            assert(front[g] == added[g]);
            assert(best_after(before, added) == Some(added[g][j]));
        }
    }
}

/// Minimisation: where `below` is a strict order and any two costs of the
/// members are ordered, no member of any generation that was added has a
/// cost strictly below the cost of the best.
pub proof fn lemma_none_below_best_after<S: Number>(
    before: Option<Candidate<S>>,
    added: Seq<Seq<Candidate<S>>>,
    g: int,
    j: int,
)
    requires
        strict_order::<S>(),
        all_ordered(added),
        0 <= g < added.len(),
        0 <= j < added[g].len(),
    ensures
        best_after(before, added) is Some,
        !below(added[g][j].cost, best_after(before, added)->0.cost),
    decreases added.len(),
{
    let front = added.drop_last();
    let last = added.len() - 1;
    if g < last {
        assert forall|a: int| 0 <= a < front.len() implies (#[trigger] front[a]).len() > 0 by {
            assert(front[a] == added[a]);
        }
        assert forall|a: int, b: int, c: int, d: int|
            0 <= a < front.len() && 0 <= b < front[a].len() && 0 <= c < front.len() && 0 <= d
                < front[c].len() implies ordered(
            (#[trigger] front[a][b]).cost,
            (#[trigger] front[c][d]).cost,
        ) by {
            assert(front[a] == added[a]);
            assert(front[c] == added[c]);
            assert(ordered(added[a][b].cost, added[c][d].cost));
        }
        lemma_none_below_best_after(before, front, g, j);
        assert(front[g] == added[g]);
    } else {
        let all = costs_of(added[last]);
        lemma_best_index_in_range(all);
        lemma_none_below_best(all, j);
        assert(all[j] == added[g][j].cost);
        let place = best_index(all);
        assert(ordered(added[last][place].cost, added[last][j].cost));
    }
}

/// Minimisation: where `below` is a strict order, the best after some
/// generations is not above the best that was held before them.
pub proof fn lemma_best_after_not_above<S: Number>(
    before: Candidate<S>,
    added: Seq<Seq<Candidate<S>>>,
)
    requires
        strict_order::<S>(),
    ensures
        best_after(Some(before), added) is Some,
        !below(before.cost, best_after(Some(before), added)->0.cost),
    decreases added.len(),
{
    if added.len() > 0 {
        lemma_best_after_not_above(before, added.drop_last());
    }
}

} // verus!
