//! What a solver asks of a problem.
//!
//! A problem is a box `[minimum, maximum]^dimensions` with a cost function on
//! it. Sampling, local perturbation, chance and the few constants a solver
//! needs are capabilities of their own: a problem implements those that the
//! solver it is handed to requires.
//!
//! No method here promises anything of its result. What the solvers state of
//! a run is stated of every result that a problem's methods can give.

use crate::order::Number;
use vstd::prelude::*;

verus! {

/// A bounded minimisation problem of fixed dimension.
pub trait ProblemDomain {
    /// The numbers that coordinates and costs are made of.
    type Item: Number;

    /// The lower bound, the same along every dimension.
    fn get_minimum(&self) -> Self::Item;

    /// The upper bound, the same along every dimension.
    fn get_maximum(&self) -> Self::Item;

    /// The number of coordinates of a point.
    fn get_dimensions(&self) -> usize;

    /// The cost of a point; lower is better.
    fn cost_function(&self, input: &[Self::Item]) -> Self::Item;
}

/// A problem that can draw a point of its domain uniformly at random.
pub trait HasRandom: ProblemDomain {
    fn get_random(&self) -> Vec<Self::Item>;
}

/// A problem that can perturb a point into a nearby point of its domain.
pub trait HasLocal: ProblemDomain {
    fn get_local_next(&self, input: &[Self::Item]) -> Vec<Self::Item>;
}

/// A problem that can draw a number uniformly from `[0, 1)`.
pub trait HasChance: ProblemDomain {
    fn get_chance(&self) -> Self::Item;
}

/// A problem that can name the constants of its number type.
pub trait HasNumbers: ProblemDomain {
    /// The number `numerator / denominator`.
    fn get_ratio(&self, numerator: usize, denominator: usize) -> Self::Item;

    /// Euler's number raised to `exponent`.
    fn get_exp(&self, exponent: Self::Item) -> Self::Item;
}

/// `point` is a point that `problem.get_random()` can return.
pub open spec fn sampled<T: HasRandom>(problem: &T, point: Seq<T::Item>) -> bool {
    exists|v: Vec<T::Item>| v@ == point && #[trigger] call_ensures(T::get_random, (problem,), v)
}

/// `to` is a point that `problem.get_local_next(from)` can return.
pub open spec fn stepped<T: HasLocal>(problem: &T, from: Seq<T::Item>, to: Seq<T::Item>) -> bool {
    exists|input: &[T::Item], v: Vec<T::Item>|
        input@ == from && v@ == to && #[trigger] call_ensures(
            T::get_local_next,
            (problem, input),
            v,
        )
}

/// `cost` is a cost that `problem.cost_function(point)` can return.
pub open spec fn costs<T: ProblemDomain>(problem: &T, point: Seq<T::Item>, cost: T::Item) -> bool {
    exists|input: &[T::Item]|
        input@ == point && #[trigger] call_ensures(T::cost_function, (problem, input), cost)
}

/// `dimensions` is what `problem.get_dimensions()` can return.
pub open spec fn dimensioned<T: ProblemDomain>(problem: &T, dimensions: usize) -> bool {
    call_ensures(T::get_dimensions, (problem,), dimensions)
}

/// `draw` is a number that `problem.get_chance()` can return.
pub open spec fn chanced<T: HasChance>(problem: &T, draw: T::Item) -> bool {
    call_ensures(T::get_chance, (problem,), draw)
}

/// `value` is what `problem.get_ratio(numerator, denominator)` can return.
pub open spec fn ratio<T: HasNumbers>(
    problem: &T,
    numerator: usize,
    denominator: usize,
    value: T::Item,
) -> bool {
    call_ensures(T::get_ratio, (problem, numerator, denominator), value)
}

/// `value` is what `problem.get_exp(exponent)` can return.
pub open spec fn raised<T: HasNumbers>(problem: &T, exponent: T::Item, value: T::Item) -> bool {
    call_ensures(T::get_exp, (problem, exponent), value)
}

/// A copy of `source`.
pub fn copy_of<S: Copy>(source: &[S]) -> (r: Vec<S>)
    ensures
        r@ == source@,
{
    let mut r: Vec<S> = Vec::new();
    let mut k: usize = 0;
    while k < source.len()
        invariant
            k <= source@.len(),
            r@ == source@.take(k as int),
        decreases source@.len() - k,
    {
        r.push(source[k]);
        assert(source@.take(k + 1) =~= source@.take(k as int).push(source@[k as int]));
        k += 1;
    }
    assert(source@.take(k as int) =~= source@);
    r
}

/// Draws a point of the domain.
pub fn sample<T: HasRandom>(problem: &T) -> (point: Vec<T::Item>)
    ensures
        sampled(problem, point@),
{
    problem.get_random()
}

/// Perturbs `from` into a nearby point.
pub fn step<T: HasLocal>(problem: &T, from: &Vec<T::Item>) -> (to: Vec<T::Item>)
    ensures
        stepped(problem, from@, to@),
{
    let input = from.as_slice();
    let to = problem.get_local_next(input);
    assert(call_ensures(T::get_local_next, (problem, input), to));
    to
}

/// Evaluates the cost of `point`.
pub fn evaluate<T: ProblemDomain>(problem: &T, point: &Vec<T::Item>) -> (cost: T::Item)
    ensures
        costs(problem, point@, cost),
{
    let input = point.as_slice();
    let cost = problem.cost_function(input);
    assert(call_ensures(T::cost_function, (problem, input), cost));
    cost
}

} // verus!
