//! Random search: sample the domain again and again, keep the best sample.

use crate::order::{
    below, best_in, comparable, costs_of, is_below, lemma_best_index_in_range,
    lemma_none_below_best, strict_order, Candidate,
};
use crate::problem_definitions::{costs, evaluate, sample, sampled, HasRandom, ProblemDomain};
use vstd::prelude::*;

verus! {

pub struct RandomSearch<T> where T: ProblemDomain + HasRandom {
    max_iter: i32,
    current_best: Option<T::Item>,
    current_best_coords: Option<Vec<T::Item>>,
    cost_history: Vec<T::Item>,
    problem: T,
}

/// The number of samples that one run of `max_iter` iterations takes: the
/// first sample is always taken.
pub open spec fn samples_of(max_iter: i32) -> int {
    if max_iter < 1 {
        1
    } else {
        max_iter as int
    }
}

/// `samples` can be the samples of one run: each is a sample of the problem
/// with a cost that the problem gave it.
pub open spec fn drawn<T: ProblemDomain + HasRandom>(
    problem: &T,
    samples: Seq<Candidate<T::Item>>,
) -> bool {
    forall|k: int|
        0 <= k < samples.len() ==> sampled(problem, (#[trigger] samples[k]).coordinates) && costs(
            problem,
            samples[k].coordinates,
            samples[k].cost,
        )
}

impl<T> RandomSearch<T> where T: ProblemDomain + HasRandom {
    /// The iteration budget of one run.
    pub closed spec fn max_iter(&self) -> i32 {
        self.max_iter
    }

    /// The problem that is searched.
    pub closed spec fn problem(&self) -> &T {
        &self.problem
    }

    /// The cost of every sample taken so far, oldest first.
    pub closed spec fn history(&self) -> Seq<T::Item> {
        self.cost_history@
    }

    /// The best cost of the last run, if there was a run.
    pub closed spec fn best(&self) -> Option<T::Item> {
        self.current_best
    }

    /// The point at which the best cost was found.
    pub closed spec fn best_coords(&self) -> Option<Seq<T::Item>> {
        match self.current_best_coords {
            Some(coords) => Some(coords@),
            None => None,
        }
    }

    pub fn new(max_iter: i32, problem: T) -> (r: Self)
        ensures
            r.max_iter() == max_iter,
            r.problem() == problem,
            r.history() == Seq::<T::Item>::empty(),
            r.best() is None,
            r.best_coords() is None,
    {
        RandomSearch {
            max_iter,
            current_best: None,
            current_best_coords: None,
            cost_history: Vec::new(),
            problem,
        }
    }

    /// Takes `samples_of(max_iter)` samples and records the cost of each. The
    /// best cost is the best of this run's costs, the earliest one among equal
    /// ones, and the best coordinates are the sample that had it.
    pub fn run(&mut self)
        requires
            comparable::<T::Item>(),
        ensures
            final(self).max_iter() == old(self).max_iter(),
            final(self).problem() == old(self).problem(),
            exists|samples: Seq<Candidate<T::Item>>|
                {
                    &&& #[trigger] drawn(final(self).problem(), samples)
                    &&& samples.len() == samples_of(old(self).max_iter())
                    &&& final(self).history() == old(self).history() + costs_of(samples)
                    &&& final(self).best() == Some(best_in(samples).cost)
                    &&& final(self).best_coords() == Some(best_in(samples).coordinates)
                },
            final(self).history().len() == old(self).history().len() + samples_of(
                old(self).max_iter(),
            ),
            final(self).best() is Some,
            strict_order::<T::Item>() ==> forall|i: int|
                old(self).history().len() <= i < final(self).history().len() ==> !below(
                    #[trigger] final(self).history()[i],
                    final(self).best()->0,
                ),
    {
        let start_input = sample(&self.problem);
        let start_cost = evaluate(&self.problem, &start_input);
        self.current_best = Some(start_cost);
        self.current_best_coords = Some(start_input);
        self.cost_history.push(start_cost);
        let ghost mut samples = seq![
            Candidate { cost: start_cost, coordinates: self.current_best_coords->0@ },
        ];
        proof {
            assert(self.cost_history@ =~= old(self).cost_history@ + costs_of(samples));
            assert(costs_of(samples).len() == 1);
        }
        let mut i: i32 = 1;
        while i < self.max_iter
            invariant
                comparable::<T::Item>(),
                1 <= i <= samples_of(self.max_iter),
                self.max_iter == old(self).max_iter,
                self.problem == old(self).problem,
                drawn(&self.problem, samples),
                samples.len() == i,
                self.cost_history@ == old(self).cost_history@ + costs_of(samples),
                self.current_best == Some(best_in(samples).cost),
                self.current_best_coords is Some,
                self.current_best_coords->0@ == best_in(samples).coordinates,
            decreases self.max_iter - i,
        {
            let local_input = sample(&self.problem);
            let local_cost = evaluate(&self.problem, &local_input);
            let ghost longer = samples.push(
                Candidate { cost: local_cost, coordinates: local_input@ },
            );
            proof {
                assert(costs_of(longer).drop_last() =~= costs_of(samples));
                assert(costs_of(longer) =~= costs_of(samples).push(local_cost));
                lemma_best_index_in_range(costs_of(samples));
            }
            let improves = match self.current_best {
                None => true,
                Some(best) => is_below(local_cost, best),
            };
            if improves {
                self.current_best = Some(local_cost);
                self.current_best_coords = Some(local_input);
            }
            self.cost_history.push(local_cost);
            proof {
                samples = longer;
            }
            i += 1;
        }
        proof {
            let before = old(self).history().len() as int;
            if strict_order::<T::Item>() {
                assert forall|k: int| before <= k < self.history().len() implies !below(
                    #[trigger] self.history()[k],
                    self.best()->0,
                ) by {
                    lemma_best_index_in_range(costs_of(samples));
                    lemma_none_below_best(costs_of(samples), k - before);
                    assert(costs_of(samples)[k - before] == self.history()[k]);
                }
            }
        }
    }

    pub fn get_history(&self) -> (r: &[T::Item])
        ensures
            r@ == self.history(),
    {
        self.cost_history.as_slice()
    }

    pub fn get_best_cost(&self) -> (r: Option<T::Item>)
        ensures
            r == self.best(),
    {
        self.current_best
    }

    pub fn get_best_coords(&self) -> (r: Option<&Vec<T::Item>>)
        ensures
            r is Some == self.best_coords() is Some,
            r is Some ==> r->0@ == self.best_coords()->0,
    {
        self.current_best_coords.as_ref()
    }
}

} // verus!
