//! Differential evolution.
//!
//! A generation is a fixed number of members. Each member of the next
//! generation descends from the member at the same place in the last one: a
//! trial point is mixed from that member and from donors chosen among the
//! others, and it takes the member's place only where its cost is strictly
//! lower.

use crate::evol_arg::leader::{
    all_ordered, best_after, lemma_best_after_is_held, lemma_best_after_push,
    lemma_none_below_best_after,
};
use crate::order::{
    adds, below, best_in, best_index, comparable, costs_of, is_below, lawful, minus, multiplies,
    over, plus, strict_order, subtracts, times, Candidate, Number,
};
use crate::problem_definitions::{
    chanced, copy_of, costs, dimensioned, evaluate, ratio, sample, sampled, HasChance, HasNumbers,
    HasRandom, ProblemDomain,
};
use rand::seq::SliceRandom;
use vstd::prelude::*;

verus! {

/// Where the base of a mutation comes from.
pub enum Variant {
    /// A third donor, chosen at random.
    Rnd,
    /// The best member of the generation.
    Best,
}

/// How a mutant and its parent are mixed.
pub enum Strategy {
    /// Component by component, each decided by a draw of its own.
    Bin,
}

/// One member of a generation.
pub struct Member<T> where T: ProblemDomain + HasRandom {
    cost: T::Item,
    coordinates: Vec<T::Item>,
}

impl<T> View for Member<T> where T: ProblemDomain + HasRandom {
    type V = Candidate<T::Item>;

    closed spec fn view(&self) -> Candidate<T::Item> {
        Candidate { cost: self.cost, coordinates: self.coordinates@ }
    }
}

impl<T> Clone for Member<T> where T: ProblemDomain + HasRandom {
    fn clone(&self) -> (r: Self)
        ensures
            r@ == self@,
    {
        Self { cost: self.cost, coordinates: copy_of(self.coordinates.as_slice()) }
    }
}

impl<T> Member<T> where T: ProblemDomain + HasRandom {
    pub fn new(cost: T::Item, coordinates: Vec<T::Item>) -> (r: Self)
        ensures
            r@ == (Candidate { cost, coordinates: coordinates@ }),
    {
        Self { cost, coordinates }
    }

    pub fn get_coordinates(&self) -> (r: &[T::Item])
        ensures
            r@ == self@.coordinates,
    {
        self.coordinates.as_slice()
    }

    pub fn get_cost(&self) -> (r: T::Item)
        ensures
            r == self@.cost,
    {
        self.cost
    }
}

/// The candidates that the members of a generation stand for.
pub open spec fn candidates<T: ProblemDomain + HasRandom>(members: Seq<Member<T>>) -> Seq<
    Candidate<T::Item>,
> {
    Seq::new(members.len(), |j: int| members[j]@)
}

/// The shortest of three lengths.
pub open spec fn shortest(a: nat, b: nat, c: nat) -> nat {
    if a <= b && a <= c {
        a
    } else if b <= c {
        b
    } else {
        c
    }
}

/// The places `0..size` without `index`, in ascending order.
pub open spec fn pool_of(size: nat, index: nat) -> Seq<usize> {
    if index < size {
        Seq::new(
            (size - 1) as nat,
            |k: int|
                if k < index {
                    k as usize
                } else {
                    (k + 1) as usize
                },
        )
    } else {
        Seq::new(size, |k: int| k as usize)
    }
}

/// The mutant of two donors and a base: `(first - second) * factor + base`,
/// component by component, as long as all three have components.
pub open spec fn mutant_of<S: Number>(
    first: Seq<S>,
    second: Seq<S>,
    base: Seq<S>,
    factor: S,
) -> Seq<S> {
    Seq::new(
        shortest(first.len(), second.len(), base.len()),
        |k: int| plus(times(minus(first[k], second[k]), factor), base[k]),
    )
}

/// A component stays the parent's where its draw, raised by the bias, exceeds
/// the crossover rate.
pub open spec fn keeps_parent<S: Number>(draw: S, bias: S, rate: S) -> bool {
    below(rate, plus(draw, bias))
}

/// The bias that component `k` is decided with. It starts at `zero`, grows by
/// `ramp` with each component taken from the mutant and falls back to `zero`
/// with each component left to the parent.
pub open spec fn bias_before<S: Number>(draws: Seq<S>, rate: S, zero: S, ramp: S, k: int) -> S
    decreases k,
{
    if k <= 0 {
        zero
    } else {
        let bias = bias_before(draws, rate, zero, ramp, k - 1);
        if keeps_parent(draws[k - 1], bias, rate) {
            zero
        } else {
            plus(bias, ramp)
        }
    }
}

/// The trial point that binomial crossover mixes from a parent and a mutant,
/// given one draw for each component.
pub open spec fn crossed<S: Number>(
    parent: Seq<S>,
    mutant: Seq<S>,
    draws: Seq<S>,
    rate: S,
    zero: S,
    ramp: S,
) -> Seq<S> {
    Seq::new(
        shortest(parent.len(), mutant.len(), draws.len()),
        |k: int|
            if keeps_parent(draws[k], bias_before(draws, rate, zero, ramp, k), rate) {
                parent[k]
            } else {
                mutant[k]
            },
    )
}

/// The places from which the donors of the member at `index` may come.
pub fn donor_pool(size: usize, index: usize) -> (pool: Vec<usize>)
    ensures
        pool@ == pool_of(size as nat, index as nat),
{
    let mut pool: Vec<usize> = Vec::new();
    let mut place: usize = 0;
    while place < size
        invariant
            place <= size,
            pool@.len() == if index < place {
                place - 1
            } else {
                place as int
            },
            forall|k: int|
                0 <= k < pool@.len() ==> pool@[k] == pool_of(size as nat, index as nat)[k],
        decreases size - place,
    {
        if place != index {
            pool.push(place);
        }
        place += 1;
    }
    assert(pool@ =~= pool_of(size as nat, index as nat));
    pool
}

/// Builds the mutant of two donors and a base.
pub fn mutant<S: Number>(first: &[S], second: &[S], base: &[S], factor: S) -> (r: Vec<S>)
    requires
        adds::<S>(),
        subtracts::<S>(),
        multiplies::<S>(),
    ensures
        r@ == mutant_of(first@, second@, base@, factor),
{
    let mut length = first.len();
    if second.len() < length {
        length = second.len();
    }
    if base.len() < length {
        length = base.len();
    }
    let mut r: Vec<S> = Vec::new();
    let mut k: usize = 0;
    while k < length
        invariant
            adds::<S>(),
            subtracts::<S>(),
            multiplies::<S>(),
            k <= length,
            length == shortest(first@.len(), second@.len(), base@.len()),
            r@.len() == k,
            forall|j: int| 0 <= j < k ==> r@[j] == mutant_of(first@, second@, base@, factor)[j],
        decreases length - k,
    {
        r.push((first[k] - second[k]) * factor + base[k]);
        k += 1;
    }
    assert(r@ =~= mutant_of(first@, second@, base@, factor));
    r
}

/// Mixes a parent and a mutant by binomial crossover, with one draw for each
/// component.
pub fn crossover<S: Number>(
    parent: &[S],
    mutant: &[S],
    draws: &[S],
    rate: S,
    zero: S,
    ramp: S,
) -> (r: Vec<S>)
    requires
        comparable::<S>(),
        adds::<S>(),
    ensures
        r@ == crossed(parent@, mutant@, draws@, rate, zero, ramp),
{
    let mut length = parent.len();
    if mutant.len() < length {
        length = mutant.len();
    }
    if draws.len() < length {
        length = draws.len();
    }
    let mut bias = zero;
    let mut r: Vec<S> = Vec::new();
    let mut k: usize = 0;
    while k < length
        invariant
            comparable::<S>(),
            adds::<S>(),
            k <= length,
            length == shortest(parent@.len(), mutant@.len(), draws@.len()),
            r@.len() == k,
            bias == bias_before(draws@, rate, zero, ramp, k as int),
            forall|j: int|
                0 <= j < k ==> r@[j] == crossed(parent@, mutant@, draws@, rate, zero, ramp)[j],
        decreases length - k,
    {
        if is_below(rate, draws[k] + bias) {
            bias = zero;
            r.push(parent[k]);
        } else {
            bias = bias + ramp;
            r.push(mutant[k]);
        }
        k += 1;
    }
    assert(r@ =~= crossed(parent@, mutant@, draws@, rate, zero, ramp));
    r
}

/// `chosen` holds items of `pool`, each from a place of its own: `places[k]`
/// is the place that `chosen[k]` was taken from.
pub open spec fn picked_at(pool: Seq<usize>, places: Seq<int>, chosen: Seq<usize>) -> bool {
    &&& places.len() == chosen.len()
    &&& forall|k: int|
        0 <= k < places.len() ==> 0 <= #[trigger] places[k] < pool.len() && chosen[k]
            == pool[places[k]]
    &&& forall|j: int, k: int| 0 <= j < k < places.len() ==> places[j] != places[k]
}

/// `chosen` holds items of `pool`, none of them taken twice.
pub open spec fn picked(pool: Seq<usize>, chosen: Seq<usize>) -> bool {
    exists|places: Seq<int>| #[trigger] picked_at(pool, places, chosen)
}

/// Chooses `amount` items of `pool` at random, or all of them where it holds
/// fewer. This is `rand::seq::SliceRandom::choose_multiple` on the thread's
/// generator: it samples that many distinct places of the slice and hands
/// out the items at those places.
#[verifier::external_body]
fn choose_some(pool: &Vec<usize>, amount: usize) -> (chosen: Vec<usize>)
    ensures
        chosen@.len() == if pool@.len() < amount {
            pool@.len()
        } else {
            amount as nat
        },
        picked(pool@, chosen@),
{
    pool.choose_multiple(&mut rand::thread_rng(), amount).cloned().collect()
}

/// What chance and the problem's constants gave to one trial point: the
/// places of the donors, one draw for each component, and the numbers that the
/// bias is made of.
pub ghost struct Mixing<S> {
    pub first: int,
    pub second: int,
    pub third: int,
    pub draws: Seq<S>,
    pub zero: S,
    pub milli: S,
    pub dimensions: usize,
    pub size: S,
}

/// The base that a mutant is built on.
pub open spec fn base_of<S: Number>(
    variant: Variant,
    generation: Seq<Candidate<S>>,
    third: int,
) -> Seq<S> {
    match variant {
        Variant::Rnd => generation[third].coordinates,
        Variant::Best => best_in(generation).coordinates,
    }
}

/// `trial` is the trial point of the member at `index`, mixed as `mixing` says:
/// the donors are members of the generation other than that one and differ
/// from each other, every draw and constant is one that the problem can give,
/// and the trial is the parent crossed with the mutant
/// `(first - second) * factor + base`, the bias growing by
/// `(rate + 1/1000) / dimensions`.
pub open spec fn mixes<T: ProblemDomain + HasRandom + HasChance + HasNumbers>(
    problem: &T,
    variant: Variant,
    factor: T::Item,
    rate: T::Item,
    generation: Seq<Candidate<T::Item>>,
    parent: Seq<T::Item>,
    index: int,
    mixing: Mixing<T::Item>,
    trial: Seq<T::Item>,
) -> bool {
    let mutant = mutant_of(
        generation[mixing.first].coordinates,
        generation[mixing.second].coordinates,
        base_of(variant, generation, mixing.third),
        factor,
    );
    &&& 0 <= mixing.first < generation.len()
    &&& 0 <= mixing.second < generation.len()
    &&& mixing.first != index
    &&& mixing.second != index
    &&& mixing.first != mixing.second
    &&& variant is Rnd ==> {
        &&& 0 <= mixing.third < generation.len()
        &&& mixing.third != index
        &&& mixing.third != mixing.first
        &&& mixing.third != mixing.second
    }
    &&& mixing.draws.len() >= mutant.len() || mixing.draws.len() >= parent.len()
    &&& forall|k: int| 0 <= k < mixing.draws.len() ==> chanced(problem, #[trigger] mixing.draws[k])
    &&& ratio(problem, 0, 1, mixing.zero)
    &&& ratio(problem, 1, 1000, mixing.milli)
    &&& dimensioned(problem, mixing.dimensions)
    &&& ratio(problem, mixing.dimensions, 1, mixing.size)
    &&& trial == crossed(
        parent,
        mutant,
        mixing.draws,
        rate,
        mixing.zero,
        over(plus(rate, mixing.milli), mixing.size),
    )
}

/// `child` is what greedy selection keeps for the place `index`, given how the
/// trial was mixed and what it cost: the trial where its cost is strictly
/// below the parent's, the parent otherwise.
pub open spec fn selects<T: ProblemDomain + HasRandom + HasChance + HasNumbers>(
    problem: &T,
    variant: Variant,
    factor: T::Item,
    rate: T::Item,
    generation: Seq<Candidate<T::Item>>,
    parent: Candidate<T::Item>,
    index: int,
    mixing: Mixing<T::Item>,
    trial: Candidate<T::Item>,
    child: Candidate<T::Item>,
) -> bool {
    &&& mixes(
        problem,
        variant,
        factor,
        rate,
        generation,
        parent.coordinates,
        index,
        mixing,
        trial.coordinates,
    )
    &&& costs(problem, trial.coordinates, trial.cost)
    &&& child == if below(trial.cost, parent.cost) {
        trial
    } else {
        parent
    }
}

/// `child` can descend from `parent`, the member at `index` of `generation`.
pub open spec fn descends<T: ProblemDomain + HasRandom + HasChance + HasNumbers>(
    problem: &T,
    variant: Variant,
    factor: T::Item,
    rate: T::Item,
    generation: Seq<Candidate<T::Item>>,
    parent: Candidate<T::Item>,
    index: int,
    child: Candidate<T::Item>,
) -> bool {
    exists|mixing: Mixing<T::Item>, trial: Candidate<T::Item>| #[trigger]
        selects(problem, variant, factor, rate, generation, parent, index, mixing, trial, child)
}

/// The number of donors that one mutation takes from the pool.
pub open spec fn donors_needed(variant: Variant) -> int {
    match variant {
        Variant::Rnd => 3,
        Variant::Best => 2,
    }
}

/// The number of members that may be donors of the member at `index`.
pub open spec fn pool_size(size: int, index: int) -> int {
    if index < size {
        size - 1
    } else {
        size
    }
}

/// The number of generations that one run of `max_generations` adds: the
/// first generation is always made.
pub open spec fn generations_of(max_generations: i32) -> int {
    if max_generations < 1 {
        1
    } else {
        max_generations as int
    }
}

pub struct De<T> where T: ProblemDomain + HasRandom + HasChance + HasNumbers {
    max_generations: i32,
    population_size: usize,
    scaling_factor: T::Item,
    crossover_probability: T::Item,
    difference_vectors: i32,
    variant: Variant,
    strategy: Strategy,
    current_best: Option<Member<T>>,
    generations_history: Vec<Vec<Member<T>>>,
    current_generation: usize,
    cost_function_evaluations: i32,
    problem: T,
}

impl<T> De<T> where T: ProblemDomain + HasRandom + HasChance + HasNumbers {
    pub closed spec fn max_generations(&self) -> i32 {
        self.max_generations
    }

    pub closed spec fn population_size(&self) -> usize {
        self.population_size
    }

    pub closed spec fn scaling_factor(&self) -> T::Item {
        self.scaling_factor
    }

    pub closed spec fn crossover_probability(&self) -> T::Item {
        self.crossover_probability
    }

    pub closed spec fn difference_vectors(&self) -> i32 {
        self.difference_vectors
    }

    pub closed spec fn variant(&self) -> Variant {
        self.variant
    }

    pub closed spec fn problem(&self) -> &T {
        &self.problem
    }

    /// The best member found so far, if a generation was made.
    pub closed spec fn best(&self) -> Option<Candidate<T::Item>> {
        match self.current_best {
            Some(member) => Some(member@),
            None => None,
        }
    }

    /// Every generation made so far, oldest first.
    pub closed spec fn generations(&self) -> Seq<Seq<Candidate<T::Item>>> {
        Seq::new(
            self.generations_history@.len(),
            |g: int| candidates(self.generations_history@[g]@),
        )
    }

    /// The number of cost evaluations made so far.
    pub closed spec fn evaluations(&self) -> i32 {
        self.cost_function_evaluations
    }

    /// The solver's bookkeeping is sound: the current generation is the newest
    /// one, and every generation has `population_size` members.
    pub closed spec fn wf(&self) -> bool {
        &&& self.current_generation == if self.generations_history@.len() == 0 {
            0
        } else {
            self.generations_history@.len() - 1
        }
        &&& forall|g: int|
            0 <= g < self.generations_history@.len() ==> (
            #[trigger] self.generations_history@[g])@.len() == self.population_size
    }

    pub fn new(
        variant: Variant,
        difference_vectors: i32,
        strategy: Strategy,
        max_generations: i32,
        population_size: usize,
        scaling_factor: T::Item,
        crossover_probability: T::Item,
        problem: T,
    ) -> (r: Self)
        ensures
            r.wf(),
            r.variant() == variant,
            r.difference_vectors() == difference_vectors,
            r.max_generations() == max_generations,
            r.population_size() == population_size,
            r.scaling_factor() == scaling_factor,
            r.crossover_probability() == crossover_probability,
            r.problem() == problem,
            r.best() is None,
            r.generations() == Seq::<Seq<Candidate<T::Item>>>::empty(),
            r.evaluations() == 0,
    {
        let r = Self {
            max_generations,
            population_size,
            scaling_factor,
            crossover_probability,
            difference_vectors,
            variant,
            strategy,
            current_best: None,
            generations_history: Vec::new(),
            current_generation: 0usize,
            cost_function_evaluations: 0,
            problem,
        };
        assert(r.generations() =~= Seq::<Seq<Candidate<T::Item>>>::empty());
        r
    }

    pub fn get_best(&self) -> (r: Option<Member<T>>)
        ensures
            r is Some == self.best() is Some,
            r is Some ==> r->0@ == self.best()->0,
    {
        match &self.current_best {
            Some(member) => Some(member.clone()),
            None => None,
        }
    }

    pub fn get_cost_function_evaluations(&self) -> (r: i32)
        ensures
            r == self.evaluations(),
    {
        self.cost_function_evaluations
    }

    /// Every generation made so far, oldest first.
    pub fn get_generations(&self) -> (r: &[Vec<Member<T>>])
        ensures
            r@.len() == self.generations().len(),
            forall|g: int|
                0 <= g < r@.len() ==> candidates((#[trigger] r@[g])@) == self.generations()[g],
    {
        self.generations_history.as_slice()
    }

    /// Evaluates the cost of `input` and counts the evaluation.
    fn run_cost_fn(&mut self, input: &Vec<T::Item>) -> (cost: T::Item)
        requires
            old(self).cost_function_evaluations < i32::MAX,
        ensures
            *final(self) == (De {
                cost_function_evaluations: (old(self).cost_function_evaluations + 1) as i32,
                ..*old(self)
            }),
            costs(&final(self).problem, input@, cost),
    {
        self.cost_function_evaluations += 1;
        evaluate(&self.problem, input)
    }

    fn get_current_generation(&self) -> (r: &Vec<Member<T>>)
        requires
            self.current_generation < self.generations_history@.len(),
        ensures
            *r == self.generations_history@[self.current_generation as int],
    {
        &self.generations_history[self.current_generation]
    }

    /// The place of the best member of the current generation.
    fn get_current_gen_best_index(&self) -> (r: usize)
        requires
            lawful::<T::Item>(),
            self.current_generation < self.generations_history@.len(),
            self.generations_history@[self.current_generation as int]@.len() > 0,
        ensures
            r == best_index(
                costs_of(candidates(self.generations_history@[self.current_generation as int]@)),
            ),
            r < self.generations_history@[self.current_generation as int]@.len(),
    {
        let generation = self.get_current_generation();
        let ghost all = costs_of(candidates(generation@));
        let mut held: usize = 0;
        let mut j: usize = 1;
        assert(all.take(1).len() == 1);
        while j < generation.len()
            invariant
                lawful::<T::Item>(),
                all == costs_of(candidates(generation@)),
                1 <= j <= generation@.len(),
                held < j,
                held == best_index(all.take(j as int)),
            decreases generation@.len() - j,
        {
            proof {
                assert(all.take(j + 1).drop_last() =~= all.take(j as int));
            }
            if is_below(generation[j].cost, generation[held].cost) {
                held = j;
            }
            j += 1;
        }
        assert(all.take(j as int) =~= all);
        held
    }

    /// The best member of the current generation.
    fn get_current_gen_best(&self) -> (r: Member<T>)
        requires
            lawful::<T::Item>(),
            self.current_generation < self.generations_history@.len(),
            self.generations_history@[self.current_generation as int]@.len() > 0,
        ensures
            r@ == best_in(candidates(self.generations_history@[self.current_generation as int]@)),
    {
        let place = self.get_current_gen_best_index();
        self.get_current_generation()[place].clone()
    }

    /// Lets the best of the current generation take the place of the best so
    /// far where its cost is strictly below.
    fn update_best(&mut self)
        requires
            lawful::<T::Item>(),
            old(self).current_generation < old(self).generations_history@.len(),
            old(self).generations_history@[old(self).current_generation as int]@.len() > 0,
        ensures
            final(self).current_best is Some,
            final(self).best() == best_after(
                old(self).best(),
                seq![
                    candidates(
                        old(self).generations_history@[old(self).current_generation as int]@,
                    ),
                ],
            ),
            final(self).max_generations == old(self).max_generations,
            final(self).population_size == old(self).population_size,
            final(self).scaling_factor == old(self).scaling_factor,
            final(self).crossover_probability == old(self).crossover_probability,
            final(self).difference_vectors == old(self).difference_vectors,
            final(self).variant == old(self).variant,
            final(self).generations_history == old(self).generations_history,
            final(self).current_generation == old(self).current_generation,
            final(self).cost_function_evaluations == old(self).cost_function_evaluations,
            final(self).problem == old(self).problem,
    {
        let current_gen_best = self.get_current_gen_best();
        let ghost newest = candidates(
            self.generations_history@[self.current_generation as int]@,
        );
        proof {
            let added = seq![newest];
            assert(added.drop_last() =~= Seq::<Seq<Candidate<T::Item>>>::empty());
            assert(added.last() == newest);
            assert(best_after(self.best(), added.drop_last()) == self.best());
        }
        let replace = match &self.current_best {
            Some(member) => is_below(current_gen_best.cost, member.cost),
            None => true,
        };
        if replace {
            self.current_best = Some(current_gen_best);
        }
    }

    /// Makes a generation of `population_size` members at random points.
    fn get_random_generation(&mut self) -> (r: Vec<Member<T>>)
        requires
            old(self).cost_function_evaluations + old(self).population_size <= i32::MAX,
        ensures
            *final(self) == (De {
                cost_function_evaluations: (old(self).cost_function_evaluations + old(
                    self,
                ).population_size) as i32,
                ..*old(self)
            }),
            first_generation(&final(self).problem, final(self).population_size, candidates(r@)),
    {
        let mut r: Vec<Member<T>> = Vec::new();
        let mut j: usize = 0;
        while j < self.population_size
            invariant
                j <= self.population_size,
                old(self).cost_function_evaluations + old(self).population_size <= i32::MAX,
                *self == (De {
                    cost_function_evaluations: (old(self).cost_function_evaluations + j) as i32,
                    ..*old(self)
                }),
                r@.len() == j,
                forall|k: int|
                    0 <= k < j ==> sampled(&self.problem, (#[trigger] r@[k])@.coordinates) && costs(
                        &self.problem,
                        r@[k]@.coordinates,
                        r@[k]@.cost,
                    ),
            decreases self.population_size - j,
        {
            let coords = sample(&self.problem);
            let cost = self.run_cost_fn(&coords);
            r.push(Member { cost, coordinates: coords });
            j += 1;
        }
        r
    }

    /// Makes `new_generation` the current generation.
    fn add_new_generation(&mut self, new_generation: Vec<Member<T>>)
        requires
            old(self).wf(),
            new_generation@.len() == old(self).population_size,
        ensures
            final(self).wf(),
            final(self).generations_history@ == old(self).generations_history@.push(new_generation),
            final(self).current_generation == old(self).generations_history@.len(),
            final(self).generations() == old(self).generations().push(candidates(new_generation@)),
            final(self).max_generations == old(self).max_generations,
            final(self).population_size == old(self).population_size,
            final(self).scaling_factor == old(self).scaling_factor,
            final(self).crossover_probability == old(self).crossover_probability,
            final(self).difference_vectors == old(self).difference_vectors,
            final(self).variant == old(self).variant,
            final(self).current_best == old(self).current_best,
            final(self).cost_function_evaluations == old(self).cost_function_evaluations,
            final(self).problem == old(self).problem,
    {
        if self.generations_history.len() != 0 {
            self.current_generation += 1;
        }
        self.generations_history.push(new_generation);
        assert(self.generations() =~= old(self).generations().push(candidates(new_generation@)));
    }

    /// Mixes a trial point for the member at `index` of the current generation
    /// and returns what greedy selection keeps: the trial, where its cost is
    /// strictly below the member's, or the member.
    fn mutate(&mut self, member: &Member<T>, index: usize) -> (r: Member<T>)
        requires
            lawful::<T::Item>(),
            old(self).difference_vectors == 1,
            old(self).current_generation < old(self).generations_history@.len(),
            pool_size(
                old(self).generations_history@[old(self).current_generation as int]@.len() as int,
                index as int,
            ) >= donors_needed(old(self).variant),
            old(self).cost_function_evaluations < i32::MAX,
        ensures
            *final(self) == (De {
                cost_function_evaluations: (old(self).cost_function_evaluations + 1) as i32,
                ..*old(self)
            }),
            descends(
                &final(self).problem,
                final(self).variant,
                final(self).scaling_factor,
                final(self).crossover_probability,
                candidates(old(self).generations_history@[old(self).current_generation as int]@),
                member@,
                index as int,
                r@,
            ),
    {
        let dimensions = self.problem.get_dimensions();
        let zero = self.problem.get_ratio(0, 1);
        let milli = self.problem.get_ratio(1, 1000);
        let size = self.problem.get_ratio(dimensions, 1);
        let bias_increment = (self.crossover_probability + milli) / size;
        let generation = self.get_current_generation();
        let ghost members = candidates(generation@);
        let pool = donor_pool(generation.len(), index);
        let selected = choose_some(&pool, 3);
        let ghost places = choose|places: Seq<int>| picked_at(pool@, places, selected@);
        let first = selected[0];
        let second = selected[1];
        assert(first == pool@[places[0]] && second == pool@[places[1]]);
        let ghost third: int = 0;
        let mutant_vector = match self.variant {
            Variant::Rnd => {
                let base = selected[2];
                proof {
                    third = base as int;
                    assert(base == pool@[places[2]]);
                }
                mutant(
                    generation[first].coordinates.as_slice(),
                    generation[second].coordinates.as_slice(),
                    generation[base].coordinates.as_slice(),
                    self.scaling_factor,
                )
            },
            Variant::Best => {
                let best = self.get_current_gen_best_index();
                mutant(
                    generation[first].coordinates.as_slice(),
                    generation[second].coordinates.as_slice(),
                    generation[best].coordinates.as_slice(),
                    self.scaling_factor,
                )
            },
        };
        let mut length = mutant_vector.len();
        if member.coordinates.len() < length {
            length = member.coordinates.len();
        }
        let mut draws: Vec<T::Item> = Vec::new();
        let mut k: usize = 0;
        while k < length
            invariant
                k <= length,
                draws@.len() == k,
                forall|j: int| 0 <= j < k ==> chanced(&self.problem, #[trigger] draws@[j]),
            decreases length - k,
        {
            draws.push(self.problem.get_chance());
            k += 1;
        }
        let trial_vector = crossover(
            member.coordinates.as_slice(),
            mutant_vector.as_slice(),
            draws.as_slice(),
            self.crossover_probability,
            zero,
            bias_increment,
        );
        let ghost mixing = Mixing {
            first: first as int,
            second: second as int,
            third,
            draws: draws@,
            zero,
            milli,
            dimensions,
            size,
        };
        let cost = self.run_cost_fn(&trial_vector);
        let ghost trial = Candidate { cost, coordinates: trial_vector@ };
        let r = if is_below(cost, member.cost) {
            Member { cost, coordinates: trial_vector }
        } else {
            member.clone()
        };
        proof {
            assert(mixes(
                &self.problem,
                self.variant,
                self.scaling_factor,
                self.crossover_probability,
                members,
                member@.coordinates,
                index as int,
                mixing,
                trial.coordinates,
            ));
            assert(selects(
                &self.problem,
                self.variant,
                self.scaling_factor,
                self.crossover_probability,
                members,
                member@,
                index as int,
                mixing,
                trial,
                r@,
            ));
        }
        r
    }

    /// Lets every member of the current generation have its descendant.
    fn descend_generation(&mut self) -> (r: Vec<Member<T>>)
        requires
            lawful::<T::Item>(),
            old(self).wf(),
            old(self).difference_vectors == 1,
            old(self).generations_history@.len() > 0,
            old(self).population_size - 1 >= donors_needed(old(self).variant),
            old(self).cost_function_evaluations + old(self).population_size <= i32::MAX,
        ensures
            *final(self) == (De {
                cost_function_evaluations: (old(self).cost_function_evaluations + old(
                    self,
                ).population_size) as i32,
                ..*old(self)
            }),
            next_generation(
                &final(self).problem,
                final(self).variant,
                final(self).scaling_factor,
                final(self).crossover_probability,
                old(self).generations().last(),
                candidates(r@),
            ),
    {
        let size = self.get_current_generation().len();
        let ghost parents = candidates(
            self.generations_history@[self.current_generation as int]@,
        );
        assert(parents == self.generations().last());
        let mut r: Vec<Member<T>> = Vec::new();
        let mut index: usize = 0;
        while index < size
            invariant
                lawful::<T::Item>(),
                index <= size,
                size == old(self).population_size,
                old(self).wf(),
                old(self).difference_vectors == 1,
                old(self).generations_history@.len() > 0,
                old(self).population_size - 1 >= donors_needed(old(self).variant),
                old(self).cost_function_evaluations + old(self).population_size <= i32::MAX,
                *self == (De {
                    cost_function_evaluations: (old(self).cost_function_evaluations + index) as i32,
                    ..*old(self)
                }),
                parents == candidates(
                    old(self).generations_history@[old(self).current_generation as int]@,
                ),
                r@.len() == index,
                forall|j: int|
                    0 <= j < index ==> descends(
                        &self.problem,
                        self.variant,
                        self.scaling_factor,
                        self.crossover_probability,
                        parents,
                        parents[j],
                        j,
                        #[trigger] candidates(r@)[j],
                    ),
            decreases size - index,
        {
            let member = self.generations_history[self.current_generation][index].clone();
            let child = self.mutate(&member, index);
            let ghost earlier = candidates(r@);
            proof {
                assert(member@ == parents[index as int]);
            }
            r.push(child);
            proof {
                assert(candidates(r@) =~= earlier.push(child@));
            }
            index += 1;
        }
        r
    }

    /// Makes a first generation at random and then, up to `max_generations`
    /// generations in all, lets each generation descend from the last. The
    /// best member is the best of all generations made, the earliest among
    /// equal ones, unless a best that the solver held before is not above it.
    ///
    /// A run needs one difference vector: no other number is implemented. It
    /// needs a population that is not empty and, where generations descend,
    /// large enough for the donors of one member: three others for `Rnd`, two
    /// for `Best`. The count of evaluations must stay within `i32`.
    pub fn run(&mut self)
        requires
            old(self).difference_vectors() == 1,
            lawful::<T::Item>(),
            old(self).wf(),
            old(self).population_size() >= 1,
            old(self).max_generations() > 1 ==> old(self).population_size() - 1 >= donors_needed(
                old(self).variant(),
            ),
            old(self).evaluations() + old(self).population_size() * generations_of(
                old(self).max_generations(),
            ) <= i32::MAX,
        ensures
            final(self).wf(),
            final(self).variant() == old(self).variant(),
            final(self).difference_vectors() == old(self).difference_vectors(),
            final(self).max_generations() == old(self).max_generations(),
            final(self).population_size() == old(self).population_size(),
            final(self).scaling_factor() == old(self).scaling_factor(),
            final(self).crossover_probability() == old(self).crossover_probability(),
            final(self).problem() == old(self).problem(),
            final(self).generations().len() == old(self).generations().len()
                + generations_of(old(self).max_generations()),
            final(self).generations().subrange(
                0,
                old(self).generations().len() as int,
            ) == old(self).generations(),
            evolution(
                final(self).problem(),
                final(self).variant(),
                final(self).scaling_factor(),
                final(self).crossover_probability(),
                final(self).population_size(),
                final(self).added_since(old(self).generations().len() as int),
            ),
            final(self).evaluations() == old(self).evaluations() + old(
                self,
            ).population_size() * generations_of(old(self).max_generations()),
            final(self).best() == best_after(
                old(self).best(),
                final(self).added_since(old(self).generations().len() as int),
            ),
            final(self).best() is Some,
            forall|g: int|
                old(self).generations().len() <= g < final(self).generations().len() ==> (
                #[trigger] final(self).generations()[g]).len() == old(self).population_size(),
            final(self).best() == old(self).best() || exists|g: int, j: int|
                old(self).generations().len() <= g < final(self).generations().len() && 0 <= j
                    < final(self).generations()[g].len() && final(self).best() == Some(
                    #[trigger] final(self).generations()[g][j],
                ),
            strict_order::<T::Item>() && all_ordered(
                final(self).added_since(old(self).generations().len() as int),
            ) ==> forall|g: int, j: int|
                old(self).generations().len() <= g < final(self).generations().len() && 0 <= j
                    < final(self).generations()[g].len() ==> !below(
                    (#[trigger] final(self).generations()[g][j]).cost,
                    final(self).best()->0.cost,
                ),
    {
        let ghost before = self.generations();
        let ghost size = self.population_size as int;
        let ghost rounds = generations_of(self.max_generations);
        assert(size <= size * rounds) by (nonlinear_arith)
            requires
                size >= 0,
                rounds >= 1,
        ;
        let new_gen = self.get_random_generation();
        let ghost mut added = seq![candidates(new_gen@)];
        self.add_new_generation(new_gen);
        self.update_best();
        proof {
            assert(self.generations() =~= before + added);
            assert(size * 1 == size) by (nonlinear_arith);
        }
        let mut g: i32 = 1;
        while g < self.max_generations
            invariant
                lawful::<T::Item>(),
                self.wf(),
                size == self.population_size,
                size >= 1,
                rounds == generations_of(self.max_generations),
                1 <= g <= rounds,
                self.variant == old(self).variant,
                self.difference_vectors == old(self).difference_vectors,
                self.max_generations == old(self).max_generations,
                self.population_size == old(self).population_size,
                self.scaling_factor == old(self).scaling_factor,
                self.crossover_probability == old(self).crossover_probability,
                self.problem == old(self).problem,
                self.difference_vectors == 1,
                self.max_generations > 1 ==> size - 1 >= donors_needed(self.variant),
                old(self).cost_function_evaluations + size * rounds <= i32::MAX,
                self.cost_function_evaluations == old(self).cost_function_evaluations + size * g,
                before == old(self).generations(),
                added.len() == g,
                forall|k: int| 0 <= k < added.len() ==> (#[trigger] added[k]).len() == size,
                self.generations() == before + added,
                evolution(
                    &self.problem,
                    self.variant,
                    self.scaling_factor,
                    self.crossover_probability,
                    self.population_size,
                    added,
                ),
                self.best() == best_after(old(self).best(), added),
            decreases self.max_generations - g,
        {
            proof {
                assert(size * (g + 1) == size * g + size) by (nonlinear_arith);
                assert(size * (g + 1) <= size * rounds) by (nonlinear_arith)
                    requires
                        size >= 0,
                        g + 1 <= rounds,
                ;
                assert(self.generations().last() == added.last());
            }
            let ghost held = self.best();
            let new_generation = self.descend_generation();
            let ghost newest = candidates(new_generation@);
            self.add_new_generation(new_generation);
            self.update_best();
            proof {
                let longer = added.push(newest);
                assert(longer.drop_last() =~= added);
                assert(self.generations() =~= before + longer);
                lemma_best_after_push(old(self).best(), added, newest);
                assert(self.best() == best_after(old(self).best(), longer));
                assert forall|k: int| 1 <= k < longer.len() implies next_generation(
                    &self.problem,
                    self.variant,
                    self.scaling_factor,
                    self.crossover_probability,
                    #[trigger] longer[k - 1],
                    longer[k],
                ) by {
                    if k < added.len() {
                        assert(longer[k - 1] == added[k - 1]);
                        assert(longer[k] == added[k]);
                    }
                }
                added = longer;
            }
            g += 1;
        }
        proof {
            assert(self.generations().subrange(0, before.len() as int) =~= before);
            assert(self.added_since(before.len() as int) =~= added);
            assert forall|g: int| before.len() <= g < self.generations().len() implies (
            #[trigger] self.generations()[g]).len() == size by {
                assert(self.generations()[g] == added[g - before.len()]);
            }
            lemma_best_after_is_held(old(self).best(), added);
            if self.best() != old(self).best() {
                let (g, j) = choose|g: int, j: int|
                    0 <= g < added.len() && 0 <= j < added[g].len() && best_after(
                        old(self).best(),
                        added,
                    ) == Some(#[trigger] added[g][j]);
                assert(self.generations()[g + before.len()] == added[g]);
                assert(self.best() == Some(self.generations()[g + before.len()][j]));
            }
            if strict_order::<T::Item>() && all_ordered(added) {
                assert forall|g: int, j: int|
                    before.len() <= g < self.generations().len() && 0 <= j
                        < self.generations()[g].len() implies !below(
                    (#[trigger] self.generations()[g][j]).cost,
                    self.best()->0.cost,
                ) by {
                    assert(self.generations()[g] == added[g - before.len()]);
                    lemma_none_below_best_after(old(self).best(), added, g - before.len(), j);
                }
            }
        }
    }

    /// The generations that were made after the first `from` ones.
    pub open spec fn added_since(&self, from: int) -> Seq<Seq<Candidate<T::Item>>> {
        self.generations().subrange(from, self.generations().len() as int)
    }
}

/// Greedy selection: a descendant is its parent, or costs strictly less.
pub proof fn lemma_descendant_is_no_worse<T: ProblemDomain + HasRandom + HasChance + HasNumbers>(
    problem: &T,
    variant: Variant,
    factor: T::Item,
    rate: T::Item,
    generation: Seq<Candidate<T::Item>>,
    parent: Candidate<T::Item>,
    index: int,
    child: Candidate<T::Item>,
)
    requires
        descends(problem, variant, factor, rate, generation, parent, index, child),
    ensures
        child == parent || below(child.cost, parent.cost),
{
}

/// The evaluations of a run of at least one generation: one for each member
/// of the first generation, and one for each member of each later one.
pub proof fn lemma_evaluations_of_run(population_size: usize, max_generations: i32)
    requires
        max_generations >= 1,
    ensures
        population_size * generations_of(max_generations) == population_size + population_size * (
        max_generations - 1),
{
    assert(population_size * max_generations == population_size + population_size * (
    max_generations - 1)) by (nonlinear_arith);
}

/// `next` can be the generation that descends from `last`: it has as many
/// members, and each descends from the member at its place.
pub open spec fn next_generation<T: ProblemDomain + HasRandom + HasChance + HasNumbers>(
    problem: &T,
    variant: Variant,
    factor: T::Item,
    rate: T::Item,
    last: Seq<Candidate<T::Item>>,
    next: Seq<Candidate<T::Item>>,
) -> bool {
    &&& next.len() == last.len()
    &&& forall|j: int|
        0 <= j < next.len() ==> descends(
            problem,
            variant,
            factor,
            rate,
            last,
            last[j],
            j,
            #[trigger] next[j],
        )
}

/// `added` can be the generations of one run: a first generation of `size`
/// members, and after it each generation descending from the one before.
pub open spec fn evolution<T: ProblemDomain + HasRandom + HasChance + HasNumbers>(
    problem: &T,
    variant: Variant,
    factor: T::Item,
    rate: T::Item,
    size: usize,
    added: Seq<Seq<Candidate<T::Item>>>,
) -> bool {
    &&& added.len() >= 1
    &&& first_generation(problem, size, added[0])
    &&& forall|g: int|
        1 <= g < added.len() ==> next_generation(
            problem,
            variant,
            factor,
            rate,
            #[trigger] added[g - 1],
            added[g],
        )
}

/// `generation` can be a first generation of `size` members: each member is a
/// sample of the problem with a cost that the problem gave it.
pub open spec fn first_generation<T: ProblemDomain + HasRandom>(
    problem: &T,
    size: usize,
    generation: Seq<Candidate<T::Item>>,
) -> bool {
    &&& generation.len() == size
    &&& forall|j: int|
        0 <= j < generation.len() ==> sampled(problem, (#[trigger] generation[j]).coordinates)
            && costs(problem, generation[j].coordinates, generation[j].cost)
}

} // verus!
