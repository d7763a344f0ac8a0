//! Particle swarm optimisation.
//!
//! Every particle keeps each position it has visited, and the places of its
//! current and of its best position among them. In one step every particle
//! moves once, drawn towards its own best position, with the personal
//! priority, and towards the position of the swarm's leader as it stood before
//! the step, with the social priority. Positions are not clamped: a particle
//! may leave the box.
//!
//! A run ends with exactly as many cost evaluations as its budget allows. The
//! launch evaluates every particle once, whatever the budget; after it the
//! budget is tested before each move, and the particles that it does not
//! reach in the last step stay where they are.

use crate::evol_arg::leader::{
    all_ordered, best_after, lemma_best_after_is_held, lemma_best_after_push,
    lemma_none_below_best_after,
};
use crate::order::{
    adds, below, best_in, best_index, comparable, costs_of, is_below, minus, multiplies, plus,
    strict_order, subtracts, times, Candidate, Number,
};
use crate::problem_definitions::{
    chanced, copy_of, costs, dimensioned, evaluate, sample, sampled, HasChance, HasRandom,
    ProblemDomain,
};
use vstd::prelude::*;

verus! {

/// What a particle holds.
pub ghost struct Flight<S> {
    pub current_cost: S,
    pub best_cost: S,
    pub best_coords: int,
    pub current_coordinates: int,
    pub coordinates_history: Seq<Seq<S>>,
    pub velocity: Seq<S>,
}

impl<S: Number> Flight<S> {
    /// The current position is the newest of the history, and the best
    /// position is one of the history.
    pub open spec fn wf(self) -> bool {
        &&& self.current_coordinates + 1 == self.coordinates_history.len()
        &&& 0 <= self.best_coords < self.coordinates_history.len()
    }

    /// The position that the particle is at.
    pub open spec fn position(self) -> Seq<S> {
        self.coordinates_history[self.current_coordinates]
    }

    /// The position at which the particle had its best cost.
    pub open spec fn personal_best(self) -> Seq<S> {
        self.coordinates_history[self.best_coords]
    }

    /// The particle's current position with the cost it has there.
    pub open spec fn standing(self) -> Candidate<S> {
        Candidate { cost: self.current_cost, coordinates: self.position() }
    }

    /// The particle after a move to `coordinates` with `velocity`, where it
    /// costs `cost`: the position joins the history and is the best one where
    /// its cost is strictly below the best so far.
    pub open spec fn advanced(self, coordinates: Seq<S>, velocity: Seq<S>, cost: S) -> Flight<S> {
        Flight {
            current_cost: cost,
            best_cost: if below(cost, self.best_cost) {
                cost
            } else {
                self.best_cost
            },
            best_coords: if below(cost, self.best_cost) {
                self.current_coordinates + 1
            } else {
                self.best_coords
            },
            current_coordinates: self.current_coordinates + 1,
            coordinates_history: self.coordinates_history.push(coordinates),
            velocity,
        }
    }
}

/// The views of the positions of a history.
pub open spec fn positions<S>(history: Seq<Vec<S>>) -> Seq<Seq<S>> {
    Seq::new(history.len(), |k: int| history[k]@)
}

pub struct Particle<T> where T: ProblemDomain + HasRandom {
    pub current_cost: T::Item,
    pub best_coords: usize,
    best_cost: T::Item,
    pub current_coordinates: usize,
    pub coordinates_history: Vec<Vec<T::Item>>,
    pub velocity: Vec<T::Item>,
}

impl<T> View for Particle<T> where T: ProblemDomain + HasRandom {
    type V = Flight<T::Item>;

    closed spec fn view(&self) -> Flight<T::Item> {
        Flight {
            current_cost: self.current_cost,
            best_cost: self.best_cost,
            best_coords: self.best_coords as int,
            current_coordinates: self.current_coordinates as int,
            coordinates_history: positions(self.coordinates_history@),
            velocity: self.velocity@,
        }
    }
}

impl<T> Clone for Particle<T> where T: ProblemDomain + HasRandom {
    fn clone(&self) -> (r: Self)
        ensures
            r@ == self@,
    {
        let mut history: Vec<Vec<T::Item>> = Vec::new();
        let mut k: usize = 0;
        while k < self.coordinates_history.len()
            invariant
                k <= self.coordinates_history@.len(),
                history@.len() == k,
                forall|j: int|
                    0 <= j < k ==> (#[trigger] history@[j])@ == self.coordinates_history@[j]@,
            decreases self.coordinates_history@.len() - k,
        {
            history.push(copy_of(self.coordinates_history[k].as_slice()));
            k += 1;
        }
        assert(positions(history@) =~= positions(self.coordinates_history@));
        Self {
            current_cost: self.current_cost,
            best_cost: self.best_cost,
            best_coords: self.best_coords,
            current_coordinates: self.current_coordinates,
            coordinates_history: history,
            velocity: copy_of(self.velocity.as_slice()),
        }
    }
}

impl<T> Particle<T> where T: ProblemDomain + HasRandom {
    /// A particle at its first position.
    pub fn new(cost: T::Item, coordinates: Vec<T::Item>, velocity: Vec<T::Item>) -> (r: Self)
        ensures
            r@ == (Flight {
                current_cost: cost,
                best_cost: cost,
                best_coords: 0,
                current_coordinates: 0,
                coordinates_history: seq![coordinates@],
                velocity: velocity@,
            }),
            r@.wf(),
    {
        let mut history: Vec<Vec<T::Item>> = Vec::new();
        history.push(coordinates);
        assert(positions(history@) =~= seq![coordinates@]);
        Self {
            current_cost: cost,
            best_cost: cost,
            best_coords: 0usize,
            coordinates_history: history,
            current_coordinates: 0usize,
            velocity,
        }
    }

    fn update_particle(&mut self, coordinates: Vec<T::Item>, velocity: Vec<T::Item>, cost: T::Item)
        requires
            comparable::<T::Item>(),
            old(self)@.wf(),
        ensures
            final(self)@ == old(self)@.advanced(coordinates@, velocity@, cost),
            final(self)@.wf(),
    {
        self.coordinates_history.push(coordinates);
        self.velocity = velocity;
        let visited = self.coordinates_history.len();
        assert(self.current_coordinates + 2 == visited);
        self.current_coordinates += 1;
        self.update_cost(cost);
        assert(self@.coordinates_history =~= old(self)@.coordinates_history.push(coordinates@));
    }

    fn update_cost(&mut self, cost: T::Item)
        requires
            comparable::<T::Item>(),
        ensures
            final(self).current_cost == cost,
            final(self).best_cost == if below(cost, old(self).best_cost) {
                cost
            } else {
                old(self).best_cost
            },
            final(self).best_coords == if below(cost, old(self).best_cost) {
                old(self).current_coordinates
            } else {
                old(self).best_coords
            },
            final(self).current_coordinates == old(self).current_coordinates,
            final(self).coordinates_history == old(self).coordinates_history,
            final(self).velocity == old(self).velocity,
    {
        self.current_cost = cost;
        if is_below(cost, self.best_cost) {
            self.best_cost = cost;
            self.best_coords = self.current_coordinates;
        }
    }
}

/// The lower of two lengths.
pub open spec fn lower(a: nat, b: nat) -> nat {
    if a <= b {
        a
    } else {
        b
    }
}

/// The velocity of a particle after one step:
/// `velocity * inertia + (leader - current) * social_draw * social
/// + (personal_best - current) * personal_draw * personal`,
/// component by component, as long as all of them have components.
pub open spec fn velocity_of<S: Number>(
    velocity: Seq<S>,
    current: Seq<S>,
    personal_best: Seq<S>,
    leader: Seq<S>,
    social_draws: Seq<S>,
    personal_draws: Seq<S>,
    inertia: S,
    personal: S,
    social: S,
) -> Seq<S> {
    Seq::new(
        lower(
            lower(lower(velocity.len(), current.len()), lower(personal_best.len(), leader.len())),
            lower(social_draws.len(), personal_draws.len()),
        ),
        |k: int|
            plus(
                plus(
                    times(velocity[k], inertia),
                    times(times(minus(leader[k], current[k]), social_draws[k]), social),
                ),
                times(times(minus(personal_best[k], current[k]), personal_draws[k]), personal),
            ),
    )
}

/// The position of a particle after one step: `current + velocity`.
pub open spec fn position_of<S: Number>(current: Seq<S>, velocity: Seq<S>) -> Seq<S> {
    Seq::new(lower(current.len(), velocity.len()), |k: int| plus(current[k], velocity[k]))
}

/// Computes the velocity of a particle after one step, with one social and
/// one personal draw for each component.
pub fn next_velocity<S: Number>(
    velocity: &[S],
    current: &[S],
    personal_best: &[S],
    leader: &[S],
    social_draws: &[S],
    personal_draws: &[S],
    inertia: S,
    personal: S,
    social: S,
) -> (r: Vec<S>)
    requires
        adds::<S>(),
        subtracts::<S>(),
        multiplies::<S>(),
    ensures
        r@ == velocity_of(
            velocity@,
            current@,
            personal_best@,
            leader@,
            social_draws@,
            personal_draws@,
            inertia,
            personal,
            social,
        ),
{
    let mut length = velocity.len();
    if current.len() < length {
        length = current.len();
    }
    if personal_best.len() < length {
        length = personal_best.len();
    }
    if leader.len() < length {
        length = leader.len();
    }
    if social_draws.len() < length {
        length = social_draws.len();
    }
    if personal_draws.len() < length {
        length = personal_draws.len();
    }
    let ghost wanted = velocity_of(
        velocity@,
        current@,
        personal_best@,
        leader@,
        social_draws@,
        personal_draws@,
        inertia,
        personal,
        social,
    );
    let mut r: Vec<S> = Vec::new();
    let mut k: usize = 0;
    while k < length
        invariant
            adds::<S>(),
            subtracts::<S>(),
            multiplies::<S>(),
            k <= length,
            length == wanted.len(),
            length <= velocity@.len(),
            length <= current@.len(),
            length <= personal_best@.len(),
            length <= leader@.len(),
            length <= social_draws@.len(),
            length <= personal_draws@.len(),
            wanted == velocity_of(
                velocity@,
                current@,
                personal_best@,
                leader@,
                social_draws@,
                personal_draws@,
                inertia,
                personal,
                social,
            ),
            r@.len() == k,
            forall|j: int| 0 <= j < k ==> r@[j] == wanted[j],
        decreases length - k,
    {
        let weighted = velocity[k] * inertia;
        let social_pull = (leader[k] - current[k]) * social_draws[k] * social;
        let personal_pull = (personal_best[k] - current[k]) * personal_draws[k] * personal;
        r.push(weighted + social_pull + personal_pull);
        k += 1;
    }
    assert(r@ =~= wanted);
    r
}

/// Computes the position of a particle after one step.
pub fn next_position<S: Number>(current: &[S], velocity: &[S]) -> (r: Vec<S>)
    requires
        adds::<S>(),
    ensures
        r@ == position_of(current@, velocity@),
{
    let mut length = current.len();
    if velocity.len() < length {
        length = velocity.len();
    }
    let mut r: Vec<S> = Vec::new();
    let mut k: usize = 0;
    while k < length
        invariant
            adds::<S>(),
            k <= length,
            length == lower(current@.len(), velocity@.len()),
            r@.len() == k,
            forall|j: int| 0 <= j < k ==> r@[j] == position_of(current@, velocity@)[j],
        decreases length - k,
    {
        r.push(current[k] + velocity[k]);
        k += 1;
    }
    assert(r@ =~= position_of(current@, velocity@));
    r
}

/// The particles that the items of a swarm stand for.
pub open spec fn flights<T: ProblemDomain + HasRandom>(particles: Seq<Particle<T>>) -> Seq<
    Flight<T::Item>,
> {
    Seq::new(particles.len(), |i: int| particles[i]@)
}

/// Where each particle of a swarm stands, and at what cost.
pub open spec fn standings_of<S: Number>(swarm: Seq<Flight<S>>) -> Seq<Candidate<S>> {
    Seq::new(swarm.len(), |i: int| swarm[i].standing())
}

/// The standings of a swarm after each of its steps.
pub open spec fn standings_over<S: Number>(swarms: Seq<Seq<Flight<S>>>) -> Seq<Seq<Candidate<S>>> {
    Seq::new(swarms.len(), |s: int| standings_of(swarms[s]))
}

/// `flight` can be a particle at its first position: position and velocity
/// are samples of the problem, and the cost is one that the problem gave to
/// the position.
pub open spec fn launched<T: ProblemDomain + HasRandom>(
    problem: &T,
    flight: Flight<T::Item>,
) -> bool {
    &&& flight.coordinates_history.len() == 1
    &&& flight.current_coordinates == 0
    &&& flight.best_coords == 0
    &&& flight.best_cost == flight.current_cost
    &&& sampled(problem, flight.coordinates_history[0])
    &&& sampled(problem, flight.velocity)
    &&& costs(problem, flight.coordinates_history[0], flight.current_cost)
}

/// What chance and the problem gave to one move of a particle.
pub ghost struct Gust<S> {
    pub dimensions: usize,
    pub social_draws: Seq<S>,
    pub personal_draws: Seq<S>,
    pub cost: S,
}

/// The number of components that a move changes: as many as the velocity, the
/// position, the personal best, the leader and the problem's dimension allow.
pub open spec fn reach<S: Number>(from: Flight<S>, leader: Seq<S>, dimensions: usize) -> nat {
    lower(
        lower(
            lower(from.velocity.len(), from.position().len()),
            lower(from.personal_best().len(), leader.len()),
        ),
        dimensions as nat,
    )
}

/// `to` is the particle `from` after one move towards `leader`, with what
/// `gust` holds: one social and one personal draw for each component that
/// moves, and the cost of the new position.
pub open spec fn moves<T: ProblemDomain + HasRandom + HasChance>(
    problem: &T,
    inertia: T::Item,
    personal: T::Item,
    social: T::Item,
    leader: Seq<T::Item>,
    from: Flight<T::Item>,
    gust: Gust<T::Item>,
    to: Flight<T::Item>,
) -> bool {
    let velocity = velocity_of(
        from.velocity,
        from.position(),
        from.personal_best(),
        leader,
        gust.social_draws,
        gust.personal_draws,
        inertia,
        personal,
        social,
    );
    let position = position_of(from.position(), velocity);
    &&& dimensioned(problem, gust.dimensions)
    &&& gust.social_draws.len() == reach(from, leader, gust.dimensions)
    &&& gust.personal_draws.len() == reach(from, leader, gust.dimensions)
    &&& forall|k: int|
        0 <= k < gust.social_draws.len() ==> chanced(problem, #[trigger] gust.social_draws[k])
    &&& forall|k: int|
        0 <= k < gust.personal_draws.len() ==> chanced(problem, #[trigger] gust.personal_draws[k])
    &&& costs(problem, position, gust.cost)
    &&& to == from.advanced(position, velocity, gust.cost)
}

/// `to` can be the particle `from` after one move towards `leader`.
pub open spec fn moved<T: ProblemDomain + HasRandom + HasChance>(
    problem: &T,
    inertia: T::Item,
    personal: T::Item,
    social: T::Item,
    leader: Seq<T::Item>,
    from: Flight<T::Item>,
    to: Flight<T::Item>,
) -> bool {
    exists|gust: Gust<T::Item>| #[trigger]
        moves(problem, inertia, personal, social, leader, from, gust, to)
}

/// `swarm` can be a swarm of `size` particles at their first positions.
pub open spec fn swarm_launched<T: ProblemDomain + HasRandom>(
    problem: &T,
    size: usize,
    swarm: Seq<Flight<T::Item>>,
) -> bool {
    &&& swarm.len() == size
    &&& forall|i: int| 0 <= i < swarm.len() ==> launched(problem, #[trigger] swarm[i])
}

/// The number of particles that move in a step which begins at `count`
/// evaluations: all `size` of them, or as many as the budget still leaves.
pub open spec fn movers_of(count: int, budget: int, size: int) -> int {
    if budget - count >= size {
        size
    } else if budget - count >= 0 {
        budget - count
    } else {
        0
    }
}

/// `next` can be the swarm `last` after one step towards `leader` in which
/// the first `movers` particles have moved once and the others have stayed as
/// they were.
pub open spec fn swarm_moved<T: ProblemDomain + HasRandom + HasChance>(
    problem: &T,
    inertia: T::Item,
    personal: T::Item,
    social: T::Item,
    leader: Seq<T::Item>,
    last: Seq<Flight<T::Item>>,
    next: Seq<Flight<T::Item>>,
    movers: int,
) -> bool {
    &&& next.len() == last.len()
    &&& forall|i: int|
        0 <= i < next.len() && i < movers ==> moved(
            problem,
            inertia,
            personal,
            social,
            leader,
            last[i],
            #[trigger] next[i],
        )
    &&& forall|i: int| 0 <= i < next.len() && i >= movers ==> #[trigger] next[i] == last[i]
}

/// The position of the swarm's leader when step `s` begins: of the best
/// standing over the steps before it.
pub open spec fn leader_at<S: Number>(
    before: Option<Candidate<S>>,
    swarms: Seq<Seq<Flight<S>>>,
    s: int,
) -> Seq<S> {
    best_after(before, standings_over(swarms.take(s)))->0.coordinates
}

/// The count of evaluations when step `s` of a swarm of `size` begins, after
/// a launch that ended at `launch` evaluations: every step before it was a
/// whole one.
pub open spec fn count_before(launch: int, size: int, s: int) -> int {
    launch + size * (s - 1)
}

/// Step `s` of `swarms` is a step of the swarm towards the leader of the steps
/// before it, in which as many particles move as the budget leaves.
pub open spec fn step_flown<T: ProblemDomain + HasRandom + HasChance>(
    problem: &T,
    inertia: T::Item,
    personal: T::Item,
    social: T::Item,
    size: usize,
    before: Option<Candidate<T::Item>>,
    launch: int,
    budget: int,
    swarms: Seq<Seq<Flight<T::Item>>>,
    s: int,
) -> bool {
    swarm_moved(
        problem,
        inertia,
        personal,
        social,
        leader_at(before, swarms, s),
        swarms[s - 1],
        swarms[s],
        movers_of(count_before(launch, size as int, s), budget, size as int),
    )
}

/// `swarms` can be the states of a swarm over one run with the budget
/// `budget`: launched at random, which ended at `launch` evaluations, then
/// step after step towards the leader as it stood before each step.
pub open spec fn flown<T: ProblemDomain + HasRandom + HasChance>(
    problem: &T,
    inertia: T::Item,
    personal: T::Item,
    social: T::Item,
    size: usize,
    before: Option<Candidate<T::Item>>,
    launch: int,
    budget: int,
    swarms: Seq<Seq<Flight<T::Item>>>,
) -> bool {
    &&& swarms.len() >= 1
    &&& swarm_launched(problem, size, swarms[0])
    &&& forall|s: int|
        1 <= s < swarms.len() ==> #[trigger] step_flown(
            problem,
            inertia,
            personal,
            social,
            size,
            before,
            launch,
            budget,
            swarms,
            s,
        )
}

/// The number of evaluations that are left of `budget` after `count`.
pub open spec fn evaluations_left(count: int, budget: int) -> nat {
    if count < budget {
        (budget - count) as nat
    } else {
        0
    }
}

/// The number of steps that a swarm of `size` particles takes from `count`
/// evaluations until the count has reached `budget`; the last of them may
/// move fewer particles than `size`.
pub open spec fn steps_left(count: int, budget: int, size: int) -> int
    decreases evaluations_left(count, budget),
{
    if count >= budget || size <= 0 {
        0
    } else {
        1 + steps_left(count + size, budget, size)
    }
}

/// The number of states that a swarm of `size` goes through in a run that
/// starts at `count` evaluations: the launch, and each step that the budget
/// then leaves.
pub open spec fn rounds_of(count: int, budget: int, size: int) -> int {
    1 + steps_left(count + size, budget, size)
}

/// The count of evaluations after a run of a swarm of `size` that starts at
/// `count` evaluations: the budget exactly, unless the launch alone, which is
/// always whole, exceeds it.
pub open spec fn spent(count: int, budget: int, size: int) -> int {
    if count + size <= budget {
        budget
    } else {
        count + size
    }
}

pub struct Pso<T> where T: ProblemDomain + HasRandom + HasChance {
    max_cf: i32,
    population_size: usize,
    inertia_weight: T::Item,
    personal_priority: T::Item,
    social_priority: T::Item,
    current_best: Option<T::Item>,
    current_best_coordinates: Option<Vec<T::Item>>,
    particles: Vec<Particle<T>>,
    cost_function_evaluations: i32,
    problem: T,
}

impl<T> Pso<T> where T: ProblemDomain + HasRandom + HasChance {
    /// The budget of cost evaluations.
    pub closed spec fn max_cf(&self) -> i32 {
        self.max_cf
    }

    pub closed spec fn population_size(&self) -> usize {
        self.population_size
    }

    pub closed spec fn inertia_weight(&self) -> T::Item {
        self.inertia_weight
    }

    pub closed spec fn personal_priority(&self) -> T::Item {
        self.personal_priority
    }

    pub closed spec fn social_priority(&self) -> T::Item {
        self.social_priority
    }

    pub closed spec fn problem(&self) -> &T {
        &self.problem
    }

    /// The best cost found so far, if the swarm was launched.
    pub closed spec fn best(&self) -> Option<T::Item> {
        self.current_best
    }

    /// The best standing found so far: the swarm's leader.
    pub closed spec fn leader(&self) -> Option<Candidate<T::Item>> {
        match (self.current_best, self.current_best_coordinates) {
            (Some(cost), Some(coordinates)) => Some(Candidate { cost, coordinates: coordinates@ }),
            _ => None,
        }
    }

    /// The swarm as it stands.
    pub closed spec fn particles(&self) -> Seq<Flight<T::Item>> {
        flights(self.particles@)
    }

    /// The number of cost evaluations made so far.
    pub closed spec fn evaluations(&self) -> i32 {
        self.cost_function_evaluations
    }

    /// The solver's bookkeeping is sound: the best cost and the best
    /// coordinates are there together or not at all.
    pub closed spec fn wf(&self) -> bool {
        self.current_best is Some <==> self.current_best_coordinates is Some
    }

    pub fn new(
        max_cf: i32,
        population_size: usize,
        inertia_weight: T::Item,
        personal_priority: T::Item,
        social_priority: T::Item,
        problem: T,
    ) -> (r: Self)
        ensures
            r.wf(),
            r.max_cf() == max_cf,
            r.population_size() == population_size,
            r.inertia_weight() == inertia_weight,
            r.personal_priority() == personal_priority,
            r.social_priority() == social_priority,
            r.problem() == problem,
            r.best() is None,
            r.leader() is None,
            r.particles() == Seq::<Flight<T::Item>>::empty(),
            r.evaluations() == 0,
    {
        let r = Self {
            max_cf,
            population_size,
            inertia_weight,
            personal_priority,
            social_priority,
            current_best: None,
            current_best_coordinates: None,
            particles: Vec::new(),
            cost_function_evaluations: 0,
            problem,
        };
        assert(r.particles() =~= Seq::<Flight<T::Item>>::empty());
        r
    }

    pub fn get_best(&self) -> (r: Option<T::Item>)
        ensures
            r == self.best(),
    {
        self.current_best
    }

    pub fn get_cost_function_evaluations(&self) -> (r: i32)
        ensures
            r == self.evaluations(),
    {
        self.cost_function_evaluations
    }

    /// The position of the swarm's leader, if the swarm was launched.
    pub fn get_best_coordinates(&self) -> (r: Option<&Vec<T::Item>>)
        requires
            self.wf(),
        ensures
            r is Some == self.leader() is Some,
            r is Some ==> r->0@ == self.leader()->0.coordinates,
    {
        self.current_best_coordinates.as_ref()
    }

    /// The swarm as it stands.
    pub fn get_swarm(&self) -> (r: &[Particle<T>])
        ensures
            flights(r@) == self.particles(),
    {
        self.particles.as_slice()
    }

    /// Evaluates the cost of `input` and counts the evaluation.
    fn run_cost_fn(&mut self, input: &Vec<T::Item>) -> (cost: T::Item)
        requires
            old(self).cost_function_evaluations < i32::MAX,
        ensures
            *final(self) == (Pso {
                cost_function_evaluations: (old(self).cost_function_evaluations + 1) as i32,
                ..*old(self)
            }),
            costs(&final(self).problem, input@, cost),
    {
        self.cost_function_evaluations += 1;
        evaluate(&self.problem, input)
    }

    fn get_particles(&self) -> (r: &[Particle<T>])
        ensures
            r@ == self.particles@,
    {
        self.particles.as_slice()
    }

    /// The cost and the position of the particle that stands best.
    fn get_current_gen_best(&self) -> (r: (T::Item, Vec<T::Item>))
        requires
            comparable::<T::Item>(),
            self.particles@.len() > 0,
            forall|i: int| 0 <= i < self.particles@.len() ==> (#[trigger] self.particles@[i])@.wf(),
        ensures
            (Candidate { cost: r.0, coordinates: r.1@ }) == best_in(
                standings_of(flights(self.particles@)),
            ),
    {
        let particles = self.get_particles();
        let ghost all = costs_of(standings_of(flights(particles@)));
        let mut held: usize = 0;
        let mut i: usize = 1;
        assert(all.take(1).len() == 1);
        while i < particles.len()
            invariant
                comparable::<T::Item>(),
                all == costs_of(standings_of(flights(particles@))),
                1 <= i <= particles@.len(),
                held < i,
                held == best_index(all.take(i as int)),
            decreases particles@.len() - i,
        {
            proof {
                assert(all.take(i + 1).drop_last() =~= all.take(i as int));
            }
            if is_below(particles[i].current_cost, particles[held].current_cost) {
                held = i;
            }
            i += 1;
        }
        assert(all.take(i as int) =~= all);
        let best = &particles[held];
        assert(best@.wf());
        (best.current_cost, copy_of(best.coordinates_history[best.current_coordinates].as_slice()))
    }

    /// Lets the particle that stands best lead the swarm where its cost is
    /// strictly below the leader's.
    fn update_best(&mut self)
        requires
            comparable::<T::Item>(),
            old(self).wf(),
            old(self).particles@.len() > 0,
            forall|i: int|
                0 <= i < old(self).particles@.len() ==> (#[trigger] old(self).particles@[i])@.wf(),
        ensures
            final(self).wf(),
            final(self).current_best is Some,
            final(self).leader() == best_after(
                old(self).leader(),
                seq![standings_of(flights(old(self).particles@))],
            ),
            final(self).max_cf == old(self).max_cf,
            final(self).population_size == old(self).population_size,
            final(self).inertia_weight == old(self).inertia_weight,
            final(self).personal_priority == old(self).personal_priority,
            final(self).social_priority == old(self).social_priority,
            final(self).particles == old(self).particles,
            final(self).cost_function_evaluations == old(self).cost_function_evaluations,
            final(self).problem == old(self).problem,
    {
        let (current_gen_best, current_gen_best_coords) = self.get_current_gen_best();
        proof {
            let added = seq![standings_of(flights(self.particles@))];
            assert(added.drop_last() =~= Seq::<Seq<Candidate<T::Item>>>::empty());
            assert(best_after(self.leader(), added.drop_last()) == self.leader());
        }
        let replace = match self.current_best {
            Some(current_best) => is_below(current_gen_best, current_best),
            None => true,
        };
        if replace {
            self.current_best = Some(current_gen_best);
            self.current_best_coordinates = Some(current_gen_best_coords);
        }
    }

    /// Moves one particle once: its velocity turns towards its own best
    /// position and towards the leader's, it goes where the velocity takes
    /// it, and its cost there is evaluated.
    fn move_particle(&mut self, particle: &Particle<T>) -> (r: Particle<T>)
        requires
            comparable::<T::Item>(),
            adds::<T::Item>(),
            subtracts::<T::Item>(),
            multiplies::<T::Item>(),
            particle@.wf(),
            old(self).current_best_coordinates is Some,
            old(self).cost_function_evaluations < i32::MAX,
        ensures
            *final(self) == (Pso {
                cost_function_evaluations: (old(self).cost_function_evaluations + 1) as i32,
                ..*old(self)
            }),
            r@.wf(),
            moved(
                &final(self).problem,
                final(self).inertia_weight,
                final(self).personal_priority,
                final(self).social_priority,
                old(self).current_best_coordinates->0@,
                particle@,
                r@,
            ),
    {
        let mut particle = particle.clone();
        let dimensions = self.problem.get_dimensions();
        let mut social_draws: Vec<T::Item> = Vec::new();
        let mut personal_draws: Vec<T::Item> = Vec::new();
        let new_velocity = {
            let leader = match &self.current_best_coordinates {
                Some(coordinates) => coordinates.as_slice(),
                None => particle.velocity.as_slice(),
            };
            let current = particle.coordinates_history[particle.current_coordinates].as_slice();
            let personal_best = particle.coordinates_history[particle.best_coords].as_slice();
            let mut length = particle.velocity.len();
            if current.len() < length {
                length = current.len();
            }
            if personal_best.len() < length {
                length = personal_best.len();
            }
            if leader.len() < length {
                length = leader.len();
            }
            if dimensions < length {
                length = dimensions;
            }
            let mut k: usize = 0;
            while k < length
                invariant
                    k <= length,
                    social_draws@.len() == k,
                    personal_draws@.len() == k,
                    forall|j: int|
                        0 <= j < k ==> chanced(&self.problem, #[trigger] social_draws@[j]),
                    forall|j: int|
                        0 <= j < k ==> chanced(&self.problem, #[trigger] personal_draws@[j]),
                decreases length - k,
            {
                social_draws.push(self.problem.get_chance());
                personal_draws.push(self.problem.get_chance());
                k += 1;
            }
            let velocity = next_velocity(
                particle.velocity.as_slice(),
                current,
                personal_best,
                leader,
                social_draws.as_slice(),
                personal_draws.as_slice(),
                self.inertia_weight,
                self.personal_priority,
                self.social_priority,
            );
            velocity
        };
        let new_coords = next_position(
            particle.coordinates_history[particle.current_coordinates].as_slice(),
            new_velocity.as_slice(),
        );
        let new_cost = self.run_cost_fn(&new_coords);
        let ghost gust = Gust {
            dimensions,
            social_draws: social_draws@,
            personal_draws: personal_draws@,
            cost: new_cost,
        };
        let ghost from = particle@;
        particle.update_particle(new_coords, new_velocity, new_cost);
        proof {
            assert(moves(
                &self.problem,
                self.inertia_weight,
                self.personal_priority,
                self.social_priority,
                old(self).current_best_coordinates->0@,
                from,
                gust,
                particle@,
            ));
        }
        particle
    }

    /// Launches a swarm of `population_size` particles at random positions
    /// with random velocities.
    fn launch_swarm(&mut self) -> (r: Vec<Particle<T>>)
        requires
            old(self).cost_function_evaluations + old(self).population_size <= i32::MAX,
        ensures
            *final(self) == (Pso {
                cost_function_evaluations: (old(self).cost_function_evaluations + old(
                    self,
                ).population_size) as i32,
                ..*old(self)
            }),
            swarm_launched(&final(self).problem, final(self).population_size, flights(r@)),
            forall|i: int| 0 <= i < r@.len() ==> (#[trigger] r@[i])@.wf(),
    {
        let mut r: Vec<Particle<T>> = Vec::new();
        let mut j: usize = 0;
        while j < self.population_size
            invariant
                j <= self.population_size,
                old(self).cost_function_evaluations + old(self).population_size <= i32::MAX,
                *self == (Pso {
                    cost_function_evaluations: (old(self).cost_function_evaluations + j) as i32,
                    ..*old(self)
                }),
                r@.len() == j,
                forall|i: int| 0 <= i < j ==> launched(&self.problem, (#[trigger] r@[i])@),
                forall|i: int| 0 <= i < j ==> (#[trigger] r@[i])@.wf(),
            decreases self.population_size - j,
        {
            let coords = sample(&self.problem);
            let velocity = sample(&self.problem);
            let cost = self.run_cost_fn(&coords);
            r.push(Particle::new(cost, coords, velocity));
            j += 1;
        }
        r
    }

    /// Moves the particles of the swarm once each, towards the leader as it
    /// stands, one after another for as long as the budget is not spent. The
    /// particles that are left when it is spent stay as they are.
    fn move_swarm(&mut self)
        requires
            comparable::<T::Item>(),
            adds::<T::Item>(),
            subtracts::<T::Item>(),
            multiplies::<T::Item>(),
            old(self).wf(),
            old(self).current_best_coordinates is Some,
            forall|i: int|
                0 <= i < old(self).particles@.len() ==> (#[trigger] old(self).particles@[i])@.wf(),
        ensures
            final(self).wf(),
            final(self).max_cf == old(self).max_cf,
            final(self).population_size == old(self).population_size,
            final(self).inertia_weight == old(self).inertia_weight,
            final(self).personal_priority == old(self).personal_priority,
            final(self).social_priority == old(self).social_priority,
            final(self).current_best == old(self).current_best,
            final(self).current_best_coordinates == old(self).current_best_coordinates,
            final(self).problem == old(self).problem,
            final(self).cost_function_evaluations == old(self).cost_function_evaluations
                + movers_of(
                old(self).cost_function_evaluations as int,
                old(self).max_cf as int,
                old(self).particles@.len() as int,
            ),
            forall|i: int|
                0 <= i < final(self).particles@.len()
                    ==> (#[trigger] final(self).particles@[i])@.wf(),
            swarm_moved(
                &final(self).problem,
                final(self).inertia_weight,
                final(self).personal_priority,
                final(self).social_priority,
                old(self).current_best_coordinates->0@,
                flights(old(self).particles@),
                flights(final(self).particles@),
                movers_of(
                    old(self).cost_function_evaluations as int,
                    old(self).max_cf as int,
                    old(self).particles@.len() as int,
                ),
            ),
    {
        let mut previous: Vec<Particle<T>> = Vec::new();
        std::mem::swap(&mut self.particles, &mut previous);
        let ghost movers = movers_of(
            self.cost_function_evaluations as int,
            self.max_cf as int,
            previous@.len() as int,
        );
        let mut next: Vec<Particle<T>> = Vec::new();
        let mut i: usize = 0;
        while i < previous.len()
            invariant
                comparable::<T::Item>(),
                adds::<T::Item>(),
                subtracts::<T::Item>(),
                multiplies::<T::Item>(),
                i <= previous@.len(),
                previous == old(self).particles,
                forall|j: int| 0 <= j < previous@.len() ==> (#[trigger] previous@[j])@.wf(),
                old(self).wf(),
                old(self).current_best_coordinates is Some,
                movers == movers_of(
                    old(self).cost_function_evaluations as int,
                    old(self).max_cf as int,
                    previous@.len() as int,
                ),
                self.max_cf == old(self).max_cf,
                self.population_size == old(self).population_size,
                self.inertia_weight == old(self).inertia_weight,
                self.personal_priority == old(self).personal_priority,
                self.social_priority == old(self).social_priority,
                self.current_best == old(self).current_best,
                self.current_best_coordinates == old(self).current_best_coordinates,
                self.problem == old(self).problem,
                self.cost_function_evaluations == old(self).cost_function_evaluations + if i
                    < movers {
                    i as int
                } else {
                    movers
                },
                next@.len() == i,
                forall|j: int| 0 <= j < i ==> (#[trigger] next@[j])@.wf(),
                forall|j: int|
                    0 <= j < i && j < movers ==> moved(
                        &self.problem,
                        self.inertia_weight,
                        self.personal_priority,
                        self.social_priority,
                        old(self).current_best_coordinates->0@,
                        previous@[j]@,
                        (#[trigger] next@[j])@,
                    ),
                forall|j: int|
                    0 <= j < i && j >= movers ==> (#[trigger] next@[j])@ == previous@[j]@,
            decreases previous@.len() - i,
        {
            let particle = if self.cost_function_evaluations < self.max_cf {
                self.move_particle(&previous[i])
            } else {
                previous[i].clone()
            };
            next.push(particle);
            i += 1;
        }
        self.particles = next;
    }

    /// Launches the swarm and then moves it, step after step, until the count
    /// of cost evaluations has reached the budget. The launch is whole: every
    /// particle is evaluated once. After it the budget is tested before each
    /// move, so that the run ends with exactly as many evaluations as the
    /// budget allows; in the last step the particles that the budget does
    /// not reach stay where they are.
    ///
    /// A run needs a swarm that is not empty, and a launch that keeps the
    /// count of evaluations within `i32`.
    pub fn run(&mut self)
        requires
            comparable::<T::Item>(),
            adds::<T::Item>(),
            subtracts::<T::Item>(),
            multiplies::<T::Item>(),
            old(self).wf(),
            old(self).population_size() >= 1,
            old(self).evaluations() + old(self).population_size() <= i32::MAX,
        ensures
            final(self).wf(),
            final(self).max_cf() == old(self).max_cf(),
            final(self).population_size() == old(self).population_size(),
            final(self).inertia_weight() == old(self).inertia_weight(),
            final(self).personal_priority() == old(self).personal_priority(),
            final(self).social_priority() == old(self).social_priority(),
            final(self).problem() == old(self).problem(),
            final(self).evaluations() == spent(
                old(self).evaluations() as int,
                old(self).max_cf() as int,
                old(self).population_size() as int,
            ),
            final(self).best() is Some,
            final(self).leader() is Some,
            final(self).best() == Some(final(self).leader()->0.cost),
            exists|swarms: Seq<Seq<Flight<T::Item>>>|
                {
                    &&& #[trigger] flown(
                        final(self).problem(),
                        final(self).inertia_weight(),
                        final(self).personal_priority(),
                        final(self).social_priority(),
                        final(self).population_size(),
                        old(self).leader(),
                        old(self).evaluations() + old(self).population_size(),
                        old(self).max_cf() as int,
                        swarms,
                    )
                    &&& swarms.len() == rounds_of(
                        old(self).evaluations() as int,
                        old(self).max_cf() as int,
                        old(self).population_size() as int,
                    )
                    &&& final(self).particles() == swarms.last()
                    &&& final(self).leader() == best_after(
                        old(self).leader(),
                        standings_over(swarms),
                    )
                    &&& forall|s: int|
                        0 <= s < swarms.len() ==> (#[trigger] swarms[s]).len() == old(
                            self,
                        ).population_size()
                    &&& (final(self).leader() == old(self).leader() || exists|s: int, i: int|
                        0 <= s < swarms.len() && 0 <= i < swarms[s].len() && final(self).leader()
                            == Some((#[trigger] swarms[s][i]).standing()))
                    &&& strict_order::<T::Item>() && all_ordered(standings_over(swarms))
                        ==> forall|s: int, i: int|
                        0 <= s < swarms.len() && 0 <= i < swarms[s].len() ==> !below(
                            (#[trigger] swarms[s][i]).current_cost,
                            final(self).best()->0,
                        )
                },
    {
        let ghost before = self.leader();
        let ghost size = self.population_size as int;
        let ghost budget = self.max_cf as int;
        let ghost launch = self.cost_function_evaluations + size;
        let ghost rounds = rounds_of(self.cost_function_evaluations as int, budget, size);
        let new_pop = self.launch_swarm();
        self.particles = new_pop;
        let ghost mut swarms = seq![flights(self.particles@)];
        self.update_best();
        proof {
            assert(standings_over(swarms) =~= seq![standings_of(flights(self.particles@))]);
            assert(size * 0 == 0) by (nonlinear_arith);
        }
        while self.cost_function_evaluations < self.max_cf
            invariant
                comparable::<T::Item>(),
                adds::<T::Item>(),
                subtracts::<T::Item>(),
                multiplies::<T::Item>(),
                self.wf(),
                size == self.population_size,
                size >= 1,
                budget == self.max_cf,
                self.max_cf == old(self).max_cf,
                self.population_size == old(self).population_size,
                self.inertia_weight == old(self).inertia_weight,
                self.personal_priority == old(self).personal_priority,
                self.social_priority == old(self).social_priority,
                self.problem == old(self).problem,
                before == old(self).leader(),
                launch == old(self).cost_function_evaluations + size,
                rounds == rounds_of(old(self).cost_function_evaluations as int, budget, size),
                self.cost_function_evaluations < budget ==> self.cost_function_evaluations
                    == count_before(launch, size, swarms.len() as int),
                launch >= budget ==> self.cost_function_evaluations == launch,
                launch < budget ==> self.cost_function_evaluations <= budget,
                swarms.len() + steps_left(self.cost_function_evaluations as int, budget, size)
                    == rounds,
                self.particles@.len() == size,
                forall|i: int|
                    0 <= i < self.particles@.len() ==> (#[trigger] self.particles@[i])@.wf(),
                self.current_best is Some,
                flown(
                    &self.problem,
                    self.inertia_weight,
                    self.personal_priority,
                    self.social_priority,
                    self.population_size,
                    before,
                    launch,
                    budget,
                    swarms,
                ),
                forall|s: int| 0 <= s < swarms.len() ==> (#[trigger] swarms[s]).len() == size,
                flights(self.particles@) == swarms.last(),
                self.leader() == best_after(before, standings_over(swarms)),
            decreases evaluations_left(self.cost_function_evaluations as int, budget),
        {
            let ghost count = self.cost_function_evaluations as int;
            let ghost last = flights(self.particles@);
            proof {
                let steps = swarms.len() as int;
                assert(size * steps == size * (steps - 1) + size) by (nonlinear_arith);
                assert(steps_left(count + size, budget, size) >= 0) by {
                    lemma_steps_left_bounds(count + size, budget, size);
                }
            }
            self.move_swarm();
            let ghost next = flights(self.particles@);
            let ghost longer = swarms.push(next);
            proof {
                assert(longer.take(swarms.len() as int) =~= swarms);
                assert(longer[swarms.len() - 1] == last);
                assert(longer[0] == swarms[0]);
                assert(step_flown(
                    &self.problem,
                    self.inertia_weight,
                    self.personal_priority,
                    self.social_priority,
                    self.population_size,
                    before,
                    launch,
                    budget,
                    longer,
                    swarms.len() as int,
                ));
                assert forall|s: int| 1 <= s < longer.len() implies #[trigger] step_flown(
                    &self.problem,
                    self.inertia_weight,
                    self.personal_priority,
                    self.social_priority,
                    self.population_size,
                    before,
                    launch,
                    budget,
                    longer,
                    s,
                ) by {
                    if s < swarms.len() {
                        assert(step_flown(
                            &self.problem,
                            self.inertia_weight,
                            self.personal_priority,
                            self.social_priority,
                            self.population_size,
                            before,
                            launch,
                            budget,
                            swarms,
                            s,
                        ));
                        assert(longer.take(s) =~= swarms.take(s));
                        assert(longer[s - 1] == swarms[s - 1]);
                        assert(longer[s] == swarms[s]);
                    }
                }
                lemma_best_after_push(before, standings_over(swarms), standings_of(next));
                assert(standings_over(longer) =~= standings_over(swarms).push(standings_of(next)));
            }
            self.update_best();
            proof {
                swarms = longer;
            }
        }
        proof {
            assert(steps_left(self.cost_function_evaluations as int, budget, size) == 0);
            assert(self.particles() == swarms.last());
            let standings = standings_over(swarms);
            assert forall|s: int| 0 <= s < standings.len() implies (#[trigger] standings[s]).len()
                > 0 by {
                assert(swarms[s].len() == size);
            }
            lemma_best_after_is_held(before, standings);
            if self.leader() != before {
                let (s, i) = choose|s: int, i: int|
                    0 <= s < standings.len() && 0 <= i < standings[s].len() && best_after(
                        before,
                        standings,
                    ) == Some(#[trigger] standings[s][i]);
                assert(swarms[s].len() == size);
                assert(self.leader() == Some(swarms[s][i].standing()));
            }
            assert(forall|s: int|
                0 <= s < swarms.len() ==> (#[trigger] swarms[s]).len() == old(
                    self,
                ).population_size());
            assert(swarms.len() == rounds_of(
                old(self).evaluations() as int,
                old(self).max_cf() as int,
                old(self).population_size() as int,
            ));
            assert(self.leader() == old(self).leader() || exists|s: int, i: int|
                0 <= s < swarms.len() && 0 <= i < swarms[s].len() && self.leader() == Some(
                    (#[trigger] swarms[s][i]).standing(),
                ));

            if strict_order::<T::Item>() && all_ordered(standings_over(swarms)) {
                assert forall|s: int, i: int|
                    0 <= s < swarms.len() && 0 <= i < swarms[s].len() implies !below(
                    (#[trigger] swarms[s][i]).current_cost,
                    self.best()->0,
                ) by {
                    lemma_none_below_best_after(before, standings_over(swarms), s, i);
                }
            }
        }
    }
}

/// The steps that are left are never fewer than none.
pub proof fn lemma_steps_left_bounds(count: int, budget: int, size: int)
    ensures
        steps_left(count, budget, size) >= 0,
    decreases evaluations_left(count, budget),
{
    if count < budget && size > 0 {
        lemma_steps_left_bounds(count + size, budget, size);
    }
}

/// The budget is met exactly: a run whose launch the budget allows ends with
/// as many evaluations as the budget, whether or not the size of the swarm
/// divides it.
pub proof fn lemma_budget_is_exact(count: int, budget: int, size: int)
    requires
        count + size <= budget,
    ensures
        spent(count, budget, size) == budget,
{
}

/// Every step before the last is whole: where the budget leaves a whole step
/// after the one that begins at `count`, every particle moves in that one.
pub proof fn lemma_step_is_whole(count: int, budget: int, size: int)
    requires
        size > 0,
        count + size <= budget,
    ensures
        movers_of(count, budget, size) == size,
{
}

/// The last step spends what is left: the particles that move in a step
/// never take the count of evaluations beyond the budget.
pub proof fn lemma_step_keeps_budget(count: int, budget: int, size: int)
    requires
        size > 0,
        count <= budget,
    ensures
        count + movers_of(count, budget, size) <= budget,
        count + size >= budget ==> count + movers_of(count, budget, size) == budget,
{
}

} // verus!
