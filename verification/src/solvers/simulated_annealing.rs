//! Simulated annealing: a walk that always goes downhill and, the hotter it
//! is, the more readily uphill.
//!
//! The temperature falls geometrically, level by level. On each level the
//! walk tries a fixed number of neighbours of the place where it stands; a
//! neighbour with a lower cost is always accepted, any other with the
//! probability `1 / e^(rise / temperature)`.

use crate::order::{
    at_least, below, comparable, costs_of, divides, is_at_least, is_below, minus, multiplies, over,
    strict_order, subtracts, times, Candidate, Number,
};
use crate::problem_definitions::{
    chanced, costs, evaluate, raised, ratio, sample, sampled, step, stepped, HasChance, HasLocal,
    HasNumbers, HasRandom, ProblemDomain,
};
use vstd::arithmetic::div_mod::lemma_div_multiples_vanish_fancy;
use vstd::prelude::*;

verus! {

pub struct SimulatedAnnealing<T> where
    T: ProblemDomain + HasLocal + HasRandom + HasChance + HasNumbers,
 {
    max_local_iter: i32,
    min_temp: T::Item,
    step: T::Item,
    current_temp: T::Item,
    current_best: Option<T::Item>,
    current_best_coords: Option<Vec<T::Item>>,
    cost_history: Vec<T::Item>,
    problem: T,
}

/// The temperature after `levels` coolings by the factor `step`.
pub open spec fn cooled<S: Number>(temperature: S, step: S, levels: nat) -> S
    decreases levels,
{
    if levels == 0 {
        temperature
    } else {
        times(cooled(temperature, step, (levels - 1) as nat), step)
    }
}

/// The schedule ends: after some number of coolings the temperature is no
/// longer at least `min`.
pub open spec fn cools<S: Number>(temperature: S, min: S, step: S) -> bool {
    exists|levels: nat| !at_least(#[trigger] cooled(temperature, step, levels), min)
}

/// `levels` is the number of levels of the schedule: the temperature is at
/// least `min` on each of them, and after the last it no longer is.
pub open spec fn first_cold<S: Number>(temperature: S, min: S, step: S, levels: nat) -> bool {
    &&& !at_least(cooled(temperature, step, levels), min)
    &&& forall|k: nat| k < levels ==> at_least(#[trigger] cooled(temperature, step, k), min)
}

/// The number of neighbours that are tried on one level.
pub open spec fn tries_of(max_local_iter: i32) -> int {
    if max_local_iter < 0 {
        0
    } else {
        max_local_iter as int
    }
}

/// The verdict `1` accepts a neighbour, the verdict `-1` rejects it.
pub open spec fn gamble_of<S: Number>(roll: S, probability: S) -> i32 {
    if below(roll, probability) {
        1i32
    } else {
        -1i32
    }
}

/// `verdict` is the outcome of the gamble on a neighbour that costs
/// `new_cost` where the walk stands at `held`, with the constant `one`, the
/// power `e^((new_cost - held) / temperature)` and the draw `roll` as the
/// problem gave them.
pub open spec fn gambled<T: ProblemDomain + HasChance + HasNumbers>(
    problem: &T,
    temperature: T::Item,
    held: T::Item,
    new_cost: T::Item,
    one: T::Item,
    power: T::Item,
    roll: T::Item,
    verdict: i32,
) -> bool {
    &&& ratio(problem, 1, 1, one)
    &&& raised(problem, over(minus(new_cost, held), temperature), power)
    &&& chanced(problem, roll)
    &&& verdict == gamble_of(roll, over(one, power))
}

/// `verdict` can be the Metropolis verdict on a neighbour that costs
/// `new_cost`: it is accepted where the walk holds no cost yet or holds one
/// that `new_cost` is strictly below, and gambled on otherwise.
pub open spec fn judged<T: ProblemDomain + HasChance + HasNumbers>(
    problem: &T,
    temperature: T::Item,
    held: Option<T::Item>,
    new_cost: T::Item,
    verdict: i32,
) -> bool {
    match held {
        None => verdict == 1,
        Some(cost) => if below(new_cost, cost) {
            verdict == 1
        } else {
            exists|one: T::Item, power: T::Item, roll: T::Item| #[trigger]
                gambled(problem, temperature, cost, new_cost, one, power, roll, verdict)
        },
    }
}

/// The walk goes from `from` to `to` by trying the neighbour `tried` and
/// getting `verdict` on it.
pub open spec fn tries<T: ProblemDomain + HasLocal + HasChance + HasNumbers>(
    problem: &T,
    temperature: T::Item,
    from: Candidate<T::Item>,
    tried: Candidate<T::Item>,
    verdict: i32,
    to: Candidate<T::Item>,
) -> bool {
    &&& stepped(problem, from.coordinates, tried.coordinates)
    &&& costs(problem, tried.coordinates, tried.cost)
    &&& judged(problem, temperature, Some(from.cost), tried.cost, verdict)
    &&& to == if verdict == 1 {
        tried
    } else {
        from
    }
}

/// `to` can be where the walk stands after one try at `temperature` from
/// `from`: at an accepted neighbour of `from`, or still at `from`.
pub open spec fn anneal_step<T: ProblemDomain + HasLocal + HasChance + HasNumbers>(
    problem: &T,
    temperature: T::Item,
    from: Candidate<T::Item>,
    to: Candidate<T::Item>,
) -> bool {
    exists|tried: Candidate<T::Item>, verdict: i32| #[trigger]
        tries(problem, temperature, from, tried, verdict, to)
}

/// Try `i` of `states` is a try at the temperature of its level: the first
/// `per_level` tries are made at `temperature`, the next at
/// `temperature * step`, and so on.
pub open spec fn try_annealed<T: ProblemDomain + HasLocal + HasChance + HasNumbers>(
    problem: &T,
    temperature: T::Item,
    step: T::Item,
    per_level: int,
    states: Seq<Candidate<T::Item>>,
    i: int,
) -> bool {
    anneal_step(
        problem,
        cooled(temperature, step, ((i - 1) / per_level) as nat),
        states[i - 1],
        states[i],
    )
}

/// `states` can be where the walk stands at the start and after each try of
/// one run.
pub open spec fn annealed<T: ProblemDomain + HasLocal + HasRandom + HasChance + HasNumbers>(
    problem: &T,
    temperature: T::Item,
    step: T::Item,
    per_level: int,
    states: Seq<Candidate<T::Item>>,
) -> bool {
    &&& states.len() >= 1
    &&& sampled(problem, states[0].coordinates)
    &&& costs(problem, states[0].coordinates, states[0].cost)
    &&& forall|i: int|
        1 <= i < states.len() ==> #[trigger] try_annealed(
            problem,
            temperature,
            step,
            per_level,
            states,
            i,
        )
}

/// `trail` never rises: each cost is the one before it or strictly below it.
pub open spec fn descends<S: Number>(trail: Seq<S>) -> bool {
    forall|k: int|
        1 <= k < trail.len() ==> trail[k] == trail[k - 1] || below(
            #[trigger] trail[k],
            trail[k - 1],
        )
}

/// Minimisation, as far as annealing has it: where `below` is a strict order
/// and no rise was accepted, no cost of the trail is strictly below the cost
/// at which it ends. (A walk that has accepted a rise may end above a cost
/// that it has recorded.)
pub proof fn lemma_descent_ends_lowest<S: Number>(trail: Seq<S>, i: int)
    requires
        strict_order::<S>(),
        descends(trail),
        0 <= i < trail.len(),
    ensures
        !below(trail[i], trail.last()),
    decreases trail.len(),
{
    if i < trail.len() - 1 {
        let front = trail.drop_last();
        assert forall|k: int| 1 <= k < front.len() implies front[k] == front[k - 1] || below(
            #[trigger] front[k],
            front[k - 1],
        ) by {
            assert(trail[k] == trail[k - 1] || below(trail[k], trail[k - 1]));
        }
        lemma_descent_ends_lowest(front, i);
        let k = trail.len() - 1;
        assert(trail[k] == trail[k - 1] || below(trail[k], trail[k - 1]));
    }
}

/// The verdict of a gamble with the draw `roll` on the probability
/// `probability`.
pub fn gamble<S: Number>(roll: S, probability: S) -> (verdict: i32)
    requires
        comparable::<S>(),
    ensures
        verdict == gamble_of(roll, probability),
{
    if is_below(roll, probability) {
        1
    } else {
        -1
    }
}

impl<T> SimulatedAnnealing<T> where
    T: ProblemDomain + HasRandom + HasLocal + HasChance + HasNumbers,
 {
    /// The number of neighbours tried on one level.
    pub closed spec fn max_local_iter(&self) -> i32 {
        self.max_local_iter
    }

    /// The temperature below which the walk ends.
    pub closed spec fn min_temp(&self) -> T::Item {
        self.min_temp
    }

    /// The factor by which the temperature falls from level to level.
    pub closed spec fn step(&self) -> T::Item {
        self.step
    }

    /// The temperature as it stands.
    pub closed spec fn temperature(&self) -> T::Item {
        self.current_temp
    }

    /// The problem that is searched.
    pub closed spec fn problem(&self) -> &T {
        &self.problem
    }

    /// The cost at which the walk stood at its start and after each try so
    /// far, oldest first.
    pub closed spec fn history(&self) -> Seq<T::Item> {
        self.cost_history@
    }

    /// The cost at which the walk stands, if it has started.
    pub closed spec fn best(&self) -> Option<T::Item> {
        self.current_best
    }

    /// The place at which the walk stands.
    pub closed spec fn best_coords(&self) -> Option<Seq<T::Item>> {
        match self.current_best_coords {
            Some(coords) => Some(coords@),
            None => None,
        }
    }

    pub fn new(
        max_local_iter: i32,
        max_temp: T::Item,
        min_temp: T::Item,
        step: T::Item,
        problem: T,
    ) -> (r: Self)
        ensures
            r.max_local_iter() == max_local_iter,
            r.temperature() == max_temp,
            r.min_temp() == min_temp,
            r.step() == step,
            r.problem() == problem,
            r.history() == Seq::<T::Item>::empty(),
            r.best() is None,
            r.best_coords() is None,
    {
        SimulatedAnnealing {
            max_local_iter,
            min_temp,
            step,
            current_temp: max_temp,
            current_best: None,
            current_best_coords: None,
            cost_history: Vec::new(),
            problem,
        }
    }

    /// Starts at a sample of the problem and, level by level until the
    /// temperature is no longer at least the minimum, tries
    /// `tries_of(max_local_iter)` neighbours of the place where the walk
    /// stands. The history takes the cost of the start and, after each try,
    /// the cost at which the walk then stands. The best cost and the best
    /// coordinates are where the walk stands at the end.
    ///
    /// A run needs a schedule that ends: a temperature that cooling brings
    /// below the minimum, as a factor between 0 and 1 does with a minimum
    /// above 0.
    pub fn run(&mut self)
        requires
            comparable::<T::Item>(),
            subtracts::<T::Item>(),
            multiplies::<T::Item>(),
            divides::<T::Item>(),
            cools(old(self).temperature(), old(self).min_temp(), old(self).step()),
        ensures
            final(self).max_local_iter() == old(self).max_local_iter(),
            final(self).min_temp() == old(self).min_temp(),
            final(self).step() == old(self).step(),
            final(self).problem() == old(self).problem(),
            exists|levels: nat, states: Seq<Candidate<T::Item>>|
                {
                    &&& first_cold(
                        old(self).temperature(),
                        old(self).min_temp(),
                        old(self).step(),
                        levels,
                    )
                    &&& #[trigger] annealed(
                        final(self).problem(),
                        old(self).temperature(),
                        final(self).step(),
                        tries_of(final(self).max_local_iter()),
                        states,
                    )
                    &&& final(self).temperature() == #[trigger] cooled(
                        old(self).temperature(),
                        old(self).step(),
                        levels,
                    )
                    &&& states.len() == 1 + levels * tries_of(old(self).max_local_iter())
                    &&& final(self).history() == old(self).history() + costs_of(states)
                    &&& final(self).best() == Some(states.last().cost)
                    &&& final(self).best_coords() == Some(states.last().coordinates)
                },
    {
        let ghost hot = self.current_temp;
        let ghost limit = choose|levels: nat|
            !at_least(#[trigger] cooled(hot, self.step, levels), self.min_temp);
        let ghost per_level = tries_of(self.max_local_iter);
        let start_input = sample(&self.problem);
        let start_cost = evaluate(&self.problem, &start_input);
        let mut current_best = start_cost;
        let mut current_best_coords = start_input;
        self.current_best = Some(current_best);
        self.cost_history.push(start_cost);
        let ghost mut states = seq![
            Candidate { cost: start_cost, coordinates: current_best_coords@ },
        ];
        let ghost mut done: nat = 0;
        proof {
            assert(self.cost_history@ =~= old(self).cost_history@ + costs_of(states));
        }
        while is_at_least(self.current_temp, self.min_temp)
            invariant
                comparable::<T::Item>(),
                subtracts::<T::Item>(),
                multiplies::<T::Item>(),
                divides::<T::Item>(),
                self.max_local_iter == old(self).max_local_iter,
                self.min_temp == old(self).min_temp,
                self.step == old(self).step,
                self.problem == old(self).problem,
                hot == old(self).current_temp,
                per_level == tries_of(self.max_local_iter),
                !at_least(cooled(hot, self.step, limit), self.min_temp),
                done <= limit,
                self.current_temp == cooled(hot, self.step, done),
                forall|k: nat|
                    k < done ==> at_least(#[trigger] cooled(hot, self.step, k), self.min_temp),
                annealed(&self.problem, hot, self.step, per_level, states),
                states.len() == 1 + done * per_level,
                self.cost_history@ == old(self).cost_history@ + costs_of(states),
                self.current_best == Some(current_best),
                current_best == states.last().cost,
                current_best_coords@ == states.last().coordinates,
            decreases limit - done,
        {
            let mut j: i32 = 0;
            while j < self.max_local_iter
                invariant
                    comparable::<T::Item>(),
                    subtracts::<T::Item>(),
                    multiplies::<T::Item>(),
                    divides::<T::Item>(),
                    0 <= j <= per_level,
                    self.max_local_iter == old(self).max_local_iter,
                    self.min_temp == old(self).min_temp,
                    self.step == old(self).step,
                    self.problem == old(self).problem,
                    hot == old(self).current_temp,
                    per_level == tries_of(self.max_local_iter),
                    self.current_temp == cooled(hot, self.step, done),
                    annealed(&self.problem, hot, self.step, per_level, states),
                    states.len() == 1 + done * per_level + j,
                    self.cost_history@ == old(self).cost_history@ + costs_of(states),
                    self.current_best == Some(current_best),
                    current_best == states.last().cost,
                    current_best_coords@ == states.last().coordinates,
                decreases self.max_local_iter - j,
            {
                let ghost from = states.last();
                let local_coords = step(&self.problem, &current_best_coords);
                let local_cost = evaluate(&self.problem, &local_coords);
                let ghost tried = Candidate { cost: local_cost, coordinates: local_coords@ };
                let metro_result = self.metropolis(local_cost);
                if metro_result == 1 {
                    current_best = local_cost;
                    current_best_coords = local_coords;
                    self.current_best = Some(current_best);
                }
                let ghost to = if metro_result == 1 {
                    tried
                } else {
                    from
                };
                self.cost_history.push(current_best);
                proof {
                    let longer = states.push(to);
                    let i = states.len() as int;
                    assert(costs_of(longer) =~= costs_of(states).push(to.cost));
                    assert(tries(&self.problem, self.current_temp, from, tried, metro_result, to));
                    lemma_div_multiples_vanish_fancy(done as int, j as int, per_level);
                    assert(per_level * done == done * per_level) by (nonlinear_arith);
                    assert((i - 1) / per_level == done);
                    assert(try_annealed(&self.problem, hot, self.step, per_level, longer, i));
                    assert forall|k: int| 1 <= k < longer.len() implies #[trigger] try_annealed(
                        &self.problem,
                        hot,
                        self.step,
                        per_level,
                        longer,
                        k,
                    ) by {
                        if k < states.len() {
                            assert(try_annealed(
                                &self.problem,
                                hot,
                                self.step,
                                per_level,
                                states,
                                k,
                            ));
                            assert(longer[k - 1] == states[k - 1]);
                            assert(longer[k] == states[k]);
                        }
                    }
                    states = longer;
                }
                j += 1;
            }
            proof {
                assert(j == per_level);
                assert((done + 1) * per_level == done * per_level + per_level) by (nonlinear_arith);
                done = done + 1;
            }
            self.current_temp = self.current_temp * self.step;
        }
        self.current_best_coords = Some(current_best_coords);
        proof {
            assert(first_cold(hot, self.min_temp, self.step, done));
        }
    }

    /// The Metropolis verdict on a neighbour that costs `new_cost`: `1` to
    /// accept it, `-1` to reject it.
    fn metropolis(&self, new_cost: T::Item) -> (verdict: i32)
        requires
            comparable::<T::Item>(),
            subtracts::<T::Item>(),
            multiplies::<T::Item>(),
            divides::<T::Item>(),
        ensures
            judged(&self.problem, self.current_temp, self.current_best, new_cost, verdict),
            verdict == 1 || verdict == -1,
    {
        match self.current_best {
            Some(current_best) => {
                if is_below(new_cost, current_best) {
                    1
                } else {
                    let difference = new_cost - current_best;
                    let one = self.problem.get_ratio(1, 1);
                    let power = self.problem.get_exp(difference / self.current_temp);
                    let probability = one / power;
                    let roll = self.problem.get_chance();
                    let verdict = gamble(roll, probability);
                    assert(gambled(
                        &self.problem,
                        self.current_temp,
                        current_best,
                        new_cost,
                        one,
                        power,
                        roll,
                        verdict,
                    ));
                    verdict
                }
            },
            None => 1,
        }
    }

    pub fn get_history(&self) -> (r: &[T::Item])
        ensures
            r@ == self.history(),
    {
        self.cost_history.as_slice()
    }

    pub fn get_best_cost(&self) -> (r: Option<T::Item>)
        ensures
            r == self.best(),
    {
        self.current_best
    }

    pub fn get_best_coords(&self) -> (r: Option<&Vec<T::Item>>)
        ensures
            r is Some == self.best_coords() is Some,
            r is Some ==> r->0@ == self.best_coords()->0,
    {
        self.current_best_coords.as_ref()
    }
}

} // verus!
