//! The order on costs, and the best of a sequence of costs.
//!
//! Costs are compared with the strict `<` of their own type. The best of a
//! sequence is defined without assuming that this order is total: a cost may
//! be incomparable with every other, as a not-a-number is. What is proved of
//! the best says which laws of the order it rests on.

use std::ops::{Add, Div, Mul, Sub};
use vstd::prelude::*;
use vstd::std_specs::cmp::{PartialOrdIs, PartialOrdSpec};
use vstd::std_specs::ops::{AddSpec, DivSpec, MulSpec, SubSpec};

verus! {

/// The numbers a problem may be stated over: copied freely, compared with `<`,
/// and closed under the four operators.
pub trait Number: Copy + PartialOrd + Add<Output = Self> + Sub<Output = Self> + Mul<
    Output = Self,
> + Div<Output = Self> {

}

impl<S> Number for S where
    S: Copy + PartialOrd + Add<Output = S> + Sub<Output = S> + Mul<Output = S> + Div<Output = S>,
 {

}

/// `a` is strictly below `b`.
pub open spec fn below<S: Number>(a: S, b: S) -> bool {
    a.is_lt(&b)
}

/// `a + b` as the type defines it.
pub open spec fn plus<S: Number>(a: S, b: S) -> S {
    a.add_spec(b)
}

/// `a - b` as the type defines it.
pub open spec fn minus<S: Number>(a: S, b: S) -> S {
    a.sub_spec(b)
}

/// `a * b` as the type defines it.
pub open spec fn times<S: Number>(a: S, b: S) -> S {
    a.mul_spec(b)
}

/// `a / b` as the type defines it.
pub open spec fn over<S: Number>(a: S, b: S) -> S {
    a.div_spec(b)
}

/// The comparisons of `S` are a function of their operands: `<` and `>=` give
/// what `below` and `at_least` say.
pub open spec fn comparable<S: Number>() -> bool {
    S::obeys_partial_cmp_spec()
}

/// `+` is defined on every pair of numbers of `S` and gives what `plus` says.
pub open spec fn adds<S: Number>() -> bool {
    &&& S::obeys_add_spec()
    &&& forall|a: S, b: S| #[trigger] a.add_req(b)
}

/// `-` is defined on every pair of numbers of `S` and gives what `minus` says.
pub open spec fn subtracts<S: Number>() -> bool {
    &&& S::obeys_sub_spec()
    &&& forall|a: S, b: S| #[trigger] a.sub_req(b)
}

/// `*` is defined on every pair of numbers of `S` and gives what `times` says.
pub open spec fn multiplies<S: Number>() -> bool {
    &&& S::obeys_mul_spec()
    &&& forall|a: S, b: S| #[trigger] a.mul_req(b)
}

/// `/` is defined on every pair of numbers of `S` and gives what `over` says.
pub open spec fn divides<S: Number>() -> bool {
    &&& S::obeys_div_spec()
    &&& forall|a: S, b: S| #[trigger] a.div_req(b)
}

/// The comparisons and the four operators of `S` are functions of their
/// operands and are defined on every pair of them: none ever fails, and each
/// gives what `below`, `at_least`, `plus`, `minus`, `times` and `over` say.
pub open spec fn lawful<S: Number>() -> bool {
    &&& comparable::<S>()
    &&& adds::<S>()
    &&& subtracts::<S>()
    &&& multiplies::<S>()
    &&& divides::<S>()
}

/// `below` is a strict order on `S`: no number is below itself, and what is
/// below a number is below all that this number is below.
pub open spec fn strict_order<S: Number>() -> bool {
    &&& forall|a: S| !#[trigger] below(a, a)
    &&& forall|a: S, b: S, c: S| #[trigger] below(a, b) && #[trigger] below(b, c) ==> below(a, c)
}

/// `a` and `b` are ordered: they are equal, or one is below the other. A
/// cost that is no number is ordered with no other.
pub open spec fn ordered<S: Number>(a: S, b: S) -> bool {
    a == b || below(a, b) || below(b, a)
}

/// Any two of `costs` are ordered.
pub open spec fn chain<S: Number>(costs: Seq<S>) -> bool {
    forall|i: int, j: int|
        0 <= i < costs.len() && 0 <= j < costs.len() ==> ordered(
            #[trigger] costs[i],
            #[trigger] costs[j],
        )
}

/// Where the best of `costs` stands: the position that a search holds after it
/// has seen the costs one by one and moved only to a cost strictly below the
/// one it held. For an empty sequence this is 0.
pub open spec fn best_index<S: Number>(costs: Seq<S>) -> int
    decreases costs.len(),
{
    if costs.len() <= 1 {
        0
    } else {
        let held = best_index(costs.drop_last());
        if below(costs.last(), costs[held]) {
            costs.len() - 1
        } else {
            held
        }
    }
}

/// The best of a sequence of costs that is not empty.
pub open spec fn best_of<S: Number>(costs: Seq<S>) -> S
    recommends
        costs.len() > 0,
{
    costs[best_index(costs)]
}

/// A point together with the cost that it was given.
pub ghost struct Candidate<S> {
    pub cost: S,
    pub coordinates: Seq<S>,
}

/// The costs of some candidates, in their order.
pub open spec fn costs_of<S>(generation: Seq<Candidate<S>>) -> Seq<S> {
    Seq::new(generation.len(), |j: int| generation[j].cost)
}

/// The best of some candidates: the one at the best index of their costs.
pub open spec fn best_in<S: Number>(generation: Seq<Candidate<S>>) -> Candidate<S> {
    generation[best_index(costs_of(generation))]
}

/// `a` is at least `b`.
pub open spec fn at_least<S: Number>(a: S, b: S) -> bool {
    a.is_ge(&b)
}

/// Is `a` at least `b`?
pub fn is_at_least<S: Number>(a: S, b: S) -> (r: bool)
    requires
        comparable::<S>(),
    ensures
        r == at_least(a, b),
{
    a >= b
}

/// Is `a` strictly below `b`?
pub fn is_below<S: Number>(a: S, b: S) -> (r: bool)
    requires
        comparable::<S>(),
    ensures
        r == below(a, b),
{
    a < b
}

/// The best index is an index.
pub proof fn lemma_best_index_in_range<S: Number>(costs: Seq<S>)
    requires
        costs.len() > 0,
    ensures
        0 <= best_index(costs) < costs.len(),
    decreases costs.len(),
{
    if costs.len() > 1 {
        lemma_best_index_in_range(costs.drop_last());
    }
}

/// Minimisation: where `below` is a strict order, no cost of the sequence is
/// strictly below its best.
pub proof fn lemma_none_below_best<S: Number>(costs: Seq<S>, i: int)
    requires
        strict_order::<S>(),
        0 <= i < costs.len(),
    ensures
        !below(costs[i], best_of(costs)),
    decreases costs.len(),
{
    lemma_best_index_in_range(costs);
    if costs.len() > 1 {
        let front = costs.drop_last();
        lemma_best_index_in_range(front);
        if i < costs.len() - 1 {
            lemma_none_below_best(front, i);
            assert(front[i] == costs[i]);
        }
        lemma_none_below_best(front, best_index(front));
    }
}

/// Minimisation: where `below` is a strict order and any two of the costs
/// are ordered, the best of the sequence is at most each of its costs.
pub proof fn lemma_best_is_least<S: Number>(costs: Seq<S>, i: int)
    requires
        strict_order::<S>(),
        chain(costs),
        0 <= i < costs.len(),
    ensures
        best_of(costs) == costs[i] || below(best_of(costs), costs[i]),
{
    lemma_none_below_best(costs, i);
    lemma_best_index_in_range(costs);
    assert(ordered(costs[best_index(costs)], costs[i]));
}

/// Ties go to the earliest: where `below` is a strict order and any two of
/// the costs are ordered, every cost before the best index is strictly above
/// the best.
pub proof fn lemma_best_is_earliest<S: Number>(costs: Seq<S>, i: int)
    requires
        strict_order::<S>(),
        chain(costs),
        0 <= i < best_index(costs),
    ensures
        below(best_of(costs), costs[i]),
    decreases costs.len(),
{
    if costs.len() > 1 {
        let front = costs.drop_last();
        let held = best_index(front);
        lemma_best_index_in_range(front);
        assert forall|a: int, b: int| 0 <= a < front.len() && 0 <= b < front.len() implies ordered(
            #[trigger] front[a],
            #[trigger] front[b],
        ) by {
            assert(ordered(costs[a], costs[b]));
        }
        assert(front[i] == costs[i]);
        if below(costs.last(), costs[held]) {
            lemma_none_below_best(front, i);
            assert(ordered(costs[held], costs[i]));
        } else {
            lemma_best_is_earliest(front, i);
        }
    }
}

} // verus!
