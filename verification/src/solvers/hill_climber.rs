//! Hill climbing: walk from neighbourhood to neighbourhood, remember the
//! best place visited.
//!
//! Each step samples the neighbourhood of the place where the walk stands and
//! moves to the best neighbour found, whether or not it improves on the best
//! place so far.

use crate::order::{
    below, best_in, comparable, costs_of, is_below, lemma_best_index_in_range,
    lemma_none_below_best, strict_order, Candidate,
};
use crate::problem_definitions::{
    copy_of, costs, evaluate, sample, sampled, step, stepped, HasLocal, HasRandom, ProblemDomain,
};
use vstd::prelude::*;

verus! {

pub struct HillClimber<T> where T: ProblemDomain + HasLocal + HasRandom {
    max_iter: i32,
    max_local_iter: i32,
    curren_best: Option<T::Item>,
    curren_best_coords: Option<Vec<T::Item>>,
    cost_history: Vec<T::Item>,
    problem: T,
}

/// The number of neighbours that one step of `max_local_iter` local
/// iterations tries: the first neighbour is always tried.
pub open spec fn tries_of(max_local_iter: i32) -> int {
    if max_local_iter < 1 {
        1
    } else {
        max_local_iter as int
    }
}

/// The number of steps that one run of `max_iter` iterations walks.
pub open spec fn steps_of(max_iter: i32) -> int {
    if max_iter < 0 {
        0
    } else {
        max_iter as int
    }
}

/// `tries` can be the neighbours that one step tries around `base`: each is a
/// perturbation of `base` with a cost that the problem gave it.
pub open spec fn neighbours<T: ProblemDomain + HasLocal>(
    problem: &T,
    base: Seq<T::Item>,
    tries: Seq<Candidate<T::Item>>,
) -> bool {
    forall|k: int|
        0 <= k < tries.len() ==> stepped(problem, base, (#[trigger] tries[k]).coordinates) && costs(
            problem,
            tries[k].coordinates,
            tries[k].cost,
        )
}

/// `found` can be the best of the `tries_of(max_local_iter)` neighbours that
/// one step tries around `base`.
pub open spec fn local_best<T: ProblemDomain + HasLocal>(
    problem: &T,
    max_local_iter: i32,
    base: Seq<T::Item>,
    found: Candidate<T::Item>,
) -> bool {
    exists|tries: Seq<Candidate<T::Item>>|
        #[trigger] neighbours(problem, base, tries) && tries.len() == tries_of(max_local_iter)
            && found == best_in(tries)
}

/// Step `s` of `walk` goes to the best neighbour of the place before it.
pub open spec fn step_climbed<T: ProblemDomain + HasLocal>(
    problem: &T,
    max_local_iter: i32,
    walk: Seq<Candidate<T::Item>>,
    s: int,
) -> bool {
    local_best(problem, max_local_iter, walk[s - 1].coordinates, walk[s])
}

/// `walk` can be the places of one run: a sample of the problem first, and
/// then step after step the best neighbour of the place before.
pub open spec fn climbed<T: ProblemDomain + HasLocal + HasRandom>(
    problem: &T,
    max_local_iter: i32,
    walk: Seq<Candidate<T::Item>>,
) -> bool {
    &&& walk.len() >= 1
    &&& sampled(problem, walk[0].coordinates)
    &&& costs(problem, walk[0].coordinates, walk[0].cost)
    &&& forall|s: int|
        1 <= s < walk.len() ==> #[trigger] step_climbed(problem, max_local_iter, walk, s)
}

impl<T> HillClimber<T> where T: ProblemDomain + HasRandom + HasLocal {
    /// The number of steps of one run.
    pub closed spec fn max_iter(&self) -> i32 {
        self.max_iter
    }

    /// The number of neighbours tried in one step.
    pub closed spec fn max_local_iter(&self) -> i32 {
        self.max_local_iter
    }

    /// The problem that is searched.
    pub closed spec fn problem(&self) -> &T {
        &self.problem
    }

    /// The cost of every place of every walk so far, oldest first.
    pub closed spec fn history(&self) -> Seq<T::Item> {
        self.cost_history@
    }

    /// The best cost of the last run, if there was a run.
    pub closed spec fn best(&self) -> Option<T::Item> {
        self.curren_best
    }

    /// The place at which the best cost was found.
    pub closed spec fn best_coords(&self) -> Option<Seq<T::Item>> {
        match self.curren_best_coords {
            Some(coords) => Some(coords@),
            None => None,
        }
    }

    pub fn new(max_iter: i32, max_local_iter: i32, problem: T) -> (r: Self)
        ensures
            r.max_iter() == max_iter,
            r.max_local_iter() == max_local_iter,
            r.problem() == problem,
            r.history() == Seq::<T::Item>::empty(),
            r.best() is None,
            r.best_coords() is None,
    {
        HillClimber {
            max_iter,
            max_local_iter,
            curren_best: None,
            curren_best_coords: None,
            cost_history: Vec::new(),
            problem,
        }
    }

    /// Walks `steps_of(max_iter)` steps from a sample of the problem and
    /// records the cost of every place of the walk. The best cost is the best
    /// of these costs, the earliest among equal ones, and the best
    /// coordinates are the place that had it.
    pub fn run(&mut self)
        requires
            comparable::<T::Item>(),
        ensures
            final(self).max_iter() == old(self).max_iter(),
            final(self).max_local_iter() == old(self).max_local_iter(),
            final(self).problem() == old(self).problem(),
            exists|walk: Seq<Candidate<T::Item>>|
                {
                    &&& #[trigger] climbed(
                        final(self).problem(),
                        final(self).max_local_iter(),
                        walk,
                    )
                    &&& walk.len() == 1 + steps_of(old(self).max_iter())
                    &&& final(self).history() == old(self).history() + costs_of(walk)
                    &&& final(self).best() == Some(best_in(walk).cost)
                    &&& final(self).best_coords() == Some(best_in(walk).coordinates)
                },
            final(self).history().len() == old(self).history().len() + 1 + steps_of(
                old(self).max_iter(),
            ),
            final(self).best() is Some,
            strict_order::<T::Item>() ==> forall|i: int|
                old(self).history().len() <= i < final(self).history().len() ==> !below(
                    #[trigger] final(self).history()[i],
                    final(self).best()->0,
                ),
    {
        let start_input = sample(&self.problem);
        let start_cost = evaluate(&self.problem, &start_input);
        let mut current_best = start_cost;
        let mut current_best_coords = copy_of(start_input.as_slice());
        let mut current_coords = start_input;
        self.cost_history.push(start_cost);
        let ghost mut walk = seq![Candidate { cost: start_cost, coordinates: current_coords@ }];
        proof {
            assert(self.cost_history@ =~= old(self).cost_history@ + costs_of(walk));
            assert(costs_of(walk).len() == 1);
        }
        let mut i: i32 = 0;
        while i < self.max_iter
            invariant
                comparable::<T::Item>(),
                0 <= i <= steps_of(self.max_iter),
                self.max_iter == old(self).max_iter,
                self.max_local_iter == old(self).max_local_iter,
                self.problem == old(self).problem,
                climbed(&self.problem, self.max_local_iter, walk),
                walk.len() == 1 + i,
                walk.last().coordinates == current_coords@,
                self.cost_history@ == old(self).cost_history@ + costs_of(walk),
                current_best == best_in(walk).cost,
                current_best_coords@ == best_in(walk).coordinates,
            decreases self.max_iter - i,
        {
            let (local_best, local_best_coords) = self.evaluate_local(&current_coords);
            let ghost place = Candidate { cost: local_best, coordinates: local_best_coords@ };
            let ghost longer = walk.push(place);
            proof {
                assert(costs_of(longer).drop_last() =~= costs_of(walk));
                assert(costs_of(longer) =~= costs_of(walk).push(local_best));
                lemma_best_index_in_range(costs_of(walk));
                assert(step_climbed(&self.problem, self.max_local_iter, longer, walk.len() as int));
                assert forall|s: int| 1 <= s < longer.len() implies #[trigger] step_climbed(
                    &self.problem,
                    self.max_local_iter,
                    longer,
                    s,
                ) by {
                    if s < walk.len() {
                        assert(step_climbed(&self.problem, self.max_local_iter, walk, s));
                        assert(longer[s - 1] == walk[s - 1]);
                        assert(longer[s] == walk[s]);
                    }
                }
            }
            if is_below(local_best, current_best) {
                current_best = local_best;
                current_best_coords = copy_of(local_best_coords.as_slice());
            }
            current_coords = local_best_coords;
            self.cost_history.push(local_best);
            proof {
                walk = longer;
            }
            i += 1;
        }
        self.curren_best = Some(current_best);
        self.curren_best_coords = Some(current_best_coords);
        proof {
            let before = old(self).history().len() as int;
            if strict_order::<T::Item>() {
                assert forall|k: int| before <= k < self.history().len() implies !below(
                    #[trigger] self.history()[k],
                    self.best()->0,
                ) by {
                    lemma_best_index_in_range(costs_of(walk));
                    lemma_none_below_best(costs_of(walk), k - before);
                    assert(costs_of(walk)[k - before] == self.history()[k]);
                }
            }
        }
    }

    /// Tries `tries_of(max_local_iter)` neighbours of `input` and returns the
    /// best of them with its cost.
    fn evaluate_local(&mut self, input: &Vec<T::Item>) -> (r: (T::Item, Vec<T::Item>))
        requires
            comparable::<T::Item>(),
        ensures
            *final(self) == *old(self),
            local_best(
                &final(self).problem,
                final(self).max_local_iter,
                input@,
                (Candidate { cost: r.0, coordinates: r.1@ }),
            ),
    {
        let mut local_best_coords = step(&self.problem, input);
        let mut local_best = evaluate(&self.problem, &local_best_coords);
        let ghost mut tries = seq![Candidate { cost: local_best, coordinates: local_best_coords@ }];
        proof {
            assert(costs_of(tries).len() == 1);
        }
        let mut k: i32 = 1;
        while k < self.max_local_iter
            invariant
                comparable::<T::Item>(),
                *self == *old(self),
                1 <= k <= tries_of(self.max_local_iter),
                tries.len() == k,
                neighbours(&self.problem, input@, tries),
                (Candidate { cost: local_best, coordinates: local_best_coords@ }) == best_in(tries),
            decreases self.max_local_iter - k,
        {
            let new_local_coords = step(&self.problem, input);
            let new_local = evaluate(&self.problem, &new_local_coords);
            let ghost longer = tries.push(
                Candidate { cost: new_local, coordinates: new_local_coords@ },
            );
            proof {
                assert(costs_of(longer).drop_last() =~= costs_of(tries));
                lemma_best_index_in_range(costs_of(tries));
            }
            if is_below(new_local, local_best) {
                local_best = new_local;
                local_best_coords = new_local_coords;
            }
            proof {
                tries = longer;
            }
            k += 1;
        }
        (local_best, local_best_coords)
    }

    pub fn get_history(&self) -> (r: &[T::Item])
        ensures
            r@ == self.history(),
    {
        self.cost_history.as_slice()
    }

    pub fn get_best_cost(&self) -> (r: Option<T::Item>)
        ensures
            r == self.best(),
    {
        self.curren_best
    }

    pub fn get_best_coords(&self) -> (r: Option<&Vec<T::Item>>)
        ensures
            r is Some == self.best_coords() is Some,
            r is Some ==> r->0@ == self.best_coords()->0,
    {
        self.curren_best_coords.as_ref()
    }
}

} // verus!
