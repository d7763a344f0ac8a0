use heuristics::benchmarks::traits::{displace, is_within, local_attempt};
use heuristics::evol_arg::de::{crossover, donor_pool, mutant, De, Member, Strategy, Variant};
use heuristics::evol_arg::pso::{next_position, next_velocity, Particle, Pso};
use heuristics::order::{is_at_least, is_below};
use heuristics::problem_definitions::{
    copy_of, evaluate, sample, step, HasChance, HasLocal, HasNumbers, HasRandom, ProblemDomain,
};
use heuristics::solvers::simulated_annealing::gamble;
use std::cell::Cell;

/// A line on which every evaluation costs less than the one before, every
/// sample lies one further to the right and no draw exceeds any rate.
struct Line {
    next_cost: Cell<f32>,
    next_point: Cell<f32>,
    dimensions: usize,
    chance: f32,
}

impl Line {
    fn new(dimensions: usize) -> Self {
        Line { next_cost: Cell::new(0f32), next_point: Cell::new(0f32), dimensions, chance: 0f32 }
    }
}

impl ProblemDomain for Line {
    type Item = f32;

    fn get_minimum(&self) -> f32 {
        0f32
    }

    fn get_maximum(&self) -> f32 {
        100f32
    }

    fn get_dimensions(&self) -> usize {
        self.dimensions
    }

    fn cost_function(&self, _input: &[f32]) -> f32 {
        let cost = self.next_cost.get();
        self.next_cost.set(cost - 1f32);
        cost
    }
}

impl HasRandom for Line {
    fn get_random(&self) -> Vec<f32> {
        let point = self.next_point.get();
        self.next_point.set(point + 1f32);
        vec![point; self.dimensions]
    }
}

impl HasLocal for Line {
    fn get_local_next(&self, input: &[f32]) -> Vec<f32> {
        input.iter().map(|x| x + 0.5f32).collect()
    }
}

impl HasChance for Line {
    fn get_chance(&self) -> f32 {
        self.chance
    }
}

impl HasNumbers for Line {
    fn get_ratio(&self, numerator: usize, denominator: usize) -> f32 {
        numerator as f32 / denominator as f32
    }

    fn get_exp(&self, exponent: f32) -> f32 {
        exponent.exp()
    }
}

#[test]
fn order_on_numbers() {
    assert!(is_below(1f32, 2f32));
    assert!(!is_below(2f32, 2f32));
    assert!(!is_below(3f32, 2f32));
    assert!(!is_below(f32::NAN, 2f32));
    assert!(!is_below(2f32, f32::NAN));
    assert!(is_at_least(2f32, 2f32));
    assert!(is_at_least(3f32, 2f32));
    assert!(!is_at_least(1f32, 2f32));
    assert!(!is_at_least(f32::NAN, 2f32));
}

#[test]
fn copy_of_a_slice() {
    assert_eq!(copy_of(&[1f32, 2f32, 3f32]), vec![1f32, 2f32, 3f32]);
    assert_eq!(copy_of::<f32>(&[]), Vec::<f32>::new());
}

#[test]
fn problem_helpers_call_the_problem() {
    let line = Line::new(2);
    assert_eq!(sample(&line), vec![0f32, 0f32]);
    assert_eq!(sample(&line), vec![1f32, 1f32]);
    assert_eq!(step(&line, &vec![1f32, 2f32]), vec![1.5f32, 2.5f32]);
    assert_eq!(evaluate(&line, &vec![1f32, 2f32]), 0f32);
    assert_eq!(evaluate(&line, &vec![1f32, 2f32]), -1f32);
}

#[test]
fn donor_pool_leaves_the_member_out() {
    assert_eq!(donor_pool(4, 1), vec![0, 2, 3]);
    assert_eq!(donor_pool(4, 0), vec![1, 2, 3]);
    assert_eq!(donor_pool(4, 3), vec![0, 1, 2]);
    assert_eq!(donor_pool(3, 7), vec![0, 1, 2]);
    assert_eq!(donor_pool(1, 0), Vec::<usize>::new());
    assert_eq!(donor_pool(0, 0), Vec::<usize>::new());
}

#[test]
fn mutant_is_scaled_difference_on_base() {
    let first = [4f32, 1f32, 0f32];
    let second = [1f32, 3f32, 0f32];
    let base = [10f32, 20f32, 30f32];
    assert_eq!(mutant(&first, &second, &base, 0.5), vec![11.5f32, 19f32, 30f32]);
}

#[test]
fn mutant_is_as_long_as_the_shortest() {
    let long = [1f32, 2f32, 3f32];
    let short = [1f32, 2f32];
    assert_eq!(mutant(&long, &short, &long, 1f32).len(), 2);
    assert_eq!(mutant(&short, &long, &long, 1f32).len(), 2);
    assert_eq!(mutant(&long, &long, &short, 1f32), vec![1f32, 2f32]);
    assert_eq!(mutant(&long, &long, &[], 1f32), Vec::<f32>::new());
}

#[test]
fn crossover_follows_the_draws() {
    let parent = [1f32, 2f32, 3f32, 4f32];
    let other = [10f32, 20f32, 30f32, 40f32];
    // rate 0.5, no ramp: a draw above 0.5 keeps the parent's component.
    let draws = [0.9f32, 0.1f32, 0.5f32, 0.6f32];
    assert_eq!(
        crossover(&parent, &other, &draws, 0.5, 0f32, 0f32),
        vec![1f32, 20f32, 30f32, 4f32]
    );
}

#[test]
fn crossover_bias_grows_and_falls_back() {
    let parent = [1f32, 2f32, 3f32, 4f32, 5f32];
    let other = [10f32, 20f32, 30f32, 40f32, 50f32];
    // Each component taken from the mutant raises the bias by 0.25; 0.4 + 0.25
    // exceeds 0.5, which leaves the third to the parent and clears the bias.
    let draws = [0.4f32, 0.2f32, 0.2f32, 0.4f32, 0.4f32];
    assert_eq!(
        crossover(&parent, &other, &draws, 0.5, 0f32, 0.25),
        vec![10f32, 20f32, 3f32, 40f32, 5f32]
    );
}

#[test]
fn crossover_is_as_long_as_the_shortest() {
    let parent = [1f32, 2f32, 3f32];
    let other = [10f32, 20f32];
    let draws = [0f32, 0f32, 0f32, 0f32];
    assert_eq!(crossover(&parent, &other, &draws, 0.5, 0f32, 0f32), vec![10f32, 20f32]);
    assert_eq!(crossover(&parent, &other, &draws[..1], 0.5, 0f32, 0f32), vec![10f32]);
    assert_eq!(crossover(&[], &other, &draws, 0.5, 0f32, 0f32), Vec::<f32>::new());
}

#[test]
fn member_holds_what_it_was_given() {
    let member = Member::<Line>::new(3f32, vec![1f32, 2f32]);
    assert_eq!(member.get_cost(), 3f32);
    assert_eq!(member.get_coordinates(), &[1f32, 2f32]);
    let copy = member.clone();
    assert_eq!(copy.get_cost(), 3f32);
    assert_eq!(copy.get_coordinates(), &[1f32, 2f32]);
}

/// The places of generation 0 that the members of generation 1 took their
/// coordinate from, on a line where every trial wins and is its base.
fn bases_of_first_descent(variant: Variant) -> Vec<usize> {
    let mut de = De::new(variant, 1, Strategy::Bin, 2, 10, 0f32, 1f32, Line::new(1));
    de.run();
    assert_eq!(de.get_cost_function_evaluations(), 20);
    let generations = de.get_generations();
    assert_eq!(generations.len(), 2);
    for (place, member) in generations[0].iter().enumerate() {
        assert_eq!(member.get_coordinates(), &[place as f32]);
        assert_eq!(member.get_cost(), -(place as f32));
    }
    generations[1]
        .iter()
        .enumerate()
        .map(|(place, member)| {
            assert_eq!(member.get_cost(), -10f32 - place as f32);
            assert_eq!(member.get_coordinates().len(), 1);
            member.get_coordinates()[0] as usize
        })
        .collect()
}

#[test]
fn de_donors_are_other_members_chosen_at_random() {
    let mut seen = Vec::new();
    for _ in 0..20 {
        let bases = bases_of_first_descent(Variant::Rnd);
        assert_eq!(bases.len(), 10);
        for (place, base) in bases.iter().enumerate() {
            assert!(*base < 10);
            assert_ne!(*base, place);
        }
        if !seen.contains(&bases) {
            seen.push(bases);
        }
    }
    assert!(seen.len() > 1);
}

#[test]
fn de_best_variant_builds_on_the_best_member() {
    // The costs of generation 0 fall from place to place: the last is best.
    let bases = bases_of_first_descent(Variant::Best);
    assert_eq!(bases, vec![9; 10]);
}

/// Generation 1 of eleven members on a plane where every trial wins, the
/// mutant is the best member of generation 0 and every draw is `chance`.
fn first_descent_with_draws(chance: f32) -> Vec<Vec<f32>> {
    let mut plane = Line::new(2);
    plane.chance = chance;
    let mut de = De::new(Variant::Best, 1, Strategy::Bin, 2, 11, 0f32, 0.5, plane);
    de.run();
    de.get_generations()[1].iter().map(|member| member.get_coordinates().to_vec()).collect()
}

#[test]
fn de_bias_grows_by_rate_and_a_thousandth_over_dimensions() {
    // The first component is the mutant's (0.2498 does not exceed 0.5) and
    // raises the bias to (0.5 + 0.001) / 2 = 0.2505, with which the second
    // draw exceeds the rate: the second component stays the parent's.
    let mixed = first_descent_with_draws(0.2498);
    for (place, coordinates) in mixed.iter().enumerate() {
        assert_eq!(coordinates, &vec![10f32, place as f32]);
    }
    // A lower draw stays below the rate with the bias as well.
    let taken = first_descent_with_draws(0.2494);
    for coordinates in taken.iter() {
        assert_eq!(coordinates, &vec![10f32, 10f32]);
    }
    // A draw above the rate leaves every component to the parent.
    let kept = first_descent_with_draws(0.6);
    for (place, coordinates) in kept.iter().enumerate() {
        assert_eq!(coordinates, &vec![place as f32, place as f32]);
    }
}

#[test]
fn de_best_is_first_of_equal_costs() {
    struct Flat {
        next_point: Cell<f32>,
    }
    impl ProblemDomain for Flat {
        type Item = f32;
        fn get_minimum(&self) -> f32 {
            0f32
        }
        fn get_maximum(&self) -> f32 {
            1f32
        }
        fn get_dimensions(&self) -> usize {
            1
        }
        fn cost_function(&self, _input: &[f32]) -> f32 {
            7f32
        }
    }
    impl HasRandom for Flat {
        fn get_random(&self) -> Vec<f32> {
            let point = self.next_point.get();
            self.next_point.set(point + 1f32);
            vec![point]
        }
    }
    impl HasChance for Flat {
        fn get_chance(&self) -> f32 {
            0f32
        }
    }
    impl HasNumbers for Flat {
        fn get_ratio(&self, numerator: usize, denominator: usize) -> f32 {
            numerator as f32 / denominator as f32
        }
        fn get_exp(&self, exponent: f32) -> f32 {
            exponent.exp()
        }
    }
    let mut de = De::new(
        Variant::Rnd,
        1,
        Strategy::Bin,
        5,
        4,
        0.8,
        0.5,
        Flat { next_point: Cell::new(0f32) },
    );
    de.run();
    // No trial is strictly below its parent: nothing ever changes.
    let best = de.get_best().unwrap();
    assert_eq!(best.get_cost(), 7f32);
    assert_eq!(best.get_coordinates(), &[0f32]);
    for generation in de.get_generations() {
        for (place, member) in generation.iter().enumerate() {
            assert_eq!(member.get_coordinates(), &[place as f32]);
        }
    }
}

#[test]
fn velocity_formula() {
    let velocity = [1f32, 2f32];
    let current = [0f32, 10f32];
    let personal_best = [4f32, 10f32];
    let leader = [2f32, 6f32];
    let social_draws = [0.5f32, 0.25f32];
    let personal_draws = [0.25f32, 1f32];
    // 1*0.5 + (2-0)*0.5*3 + (4-0)*0.25*2 = 0.5 + 3 + 2
    // 2*0.5 + (6-10)*0.25*3 + 0 = 1 - 3
    assert_eq!(
        next_velocity(
            &velocity,
            &current,
            &personal_best,
            &leader,
            &social_draws,
            &personal_draws,
            0.5,
            2f32,
            3f32,
        ),
        vec![5.5f32, -2f32]
    );
}

#[test]
fn velocity_is_as_long_as_the_shortest() {
    let two = [1f32, 2f32];
    let three = [1f32, 2f32, 3f32];
    let length = |lists: [&[f32]; 6]| {
        let [velocity, current, personal_best, leader, social_draws, personal_draws] = lists;
        next_velocity(
            velocity,
            current,
            personal_best,
            leader,
            social_draws,
            personal_draws,
            1f32,
            1f32,
            1f32,
        )
        .len()
    };
    assert_eq!(length([&three, &three, &three, &three, &three, &three]), 3);
    for short in 0..6 {
        let mut lists: [&[f32]; 6] = [&three; 6];
        lists[short] = &two;
        assert_eq!(length(lists), 2);
    }
}

#[test]
fn position_is_current_plus_velocity() {
    assert_eq!(next_position(&[1f32, 2f32], &[0.5f32, -3f32]), vec![1.5f32, -1f32]);
    assert_eq!(next_position(&[1f32, 2f32], &[0.5f32]), vec![1.5f32]);
    assert_eq!(next_position(&[1f32], &[0.5f32, 7f32]), vec![1.5f32]);
}

#[test]
fn positions_are_not_clamped() {
    assert_eq!(next_position(&[99f32], &[5f32]), vec![104f32]);
}

#[test]
fn particle_starts_at_its_first_position() {
    let particle = Particle::<Line>::new(3f32, vec![1f32, 2f32], vec![0.5f32, 0.5f32]);
    assert_eq!(particle.current_cost, 3f32);
    assert_eq!(particle.best_coords, 0);
    assert_eq!(particle.current_coordinates, 0);
    assert_eq!(particle.coordinates_history, vec![vec![1f32, 2f32]]);
    assert_eq!(particle.velocity, vec![0.5f32, 0.5f32]);
    let copy = particle.clone();
    assert_eq!(copy.coordinates_history, particle.coordinates_history);
    assert_eq!(copy.velocity, particle.velocity);
    assert_eq!(copy.current_cost, 3f32);
}

#[test]
fn pso_moves_by_its_formula() {
    // With every draw 0 only inertia moves a particle: each sample is
    // position and velocity in turn, so particle i starts at 2i with
    // velocity 2i + 1, halved at every step.
    let mut pso = Pso::new(6, 2, 0.5, 0.8, 0.9, Line::new(1));
    pso.run();
    assert_eq!(pso.get_cost_function_evaluations(), 6);
    let swarm = pso.get_swarm();
    assert_eq!(swarm[0].coordinates_history, vec![vec![0f32], vec![0.5f32], vec![0.75f32]]);
    assert_eq!(swarm[1].coordinates_history, vec![vec![2f32], vec![3.5f32], vec![4.25f32]]);
    assert_eq!(swarm[0].velocity, vec![0.25f32]);
    assert_eq!(swarm[1].velocity, vec![0.75f32]);
    // Costs fall with every evaluation: the last one is the best.
    assert_eq!(swarm[0].current_cost, -4f32);
    assert_eq!(swarm[1].current_cost, -5f32);
    assert_eq!(swarm[0].best_coords, 2);
    assert_eq!(swarm[1].best_coords, 2);
    assert_eq!(pso.get_best(), Some(-5f32));
    assert_eq!(pso.get_best_coordinates(), Some(&vec![4.25f32]));
}

#[test]
fn pso_is_drawn_to_leader_and_personal_best() {
    // Every draw is 1, inertia 0: the pull is social * (leader - position)
    // + personal * (personal best - position). A particle at its own best
    // feels the leader only.
    let mut line = Line::new(1);
    line.chance = 1f32;
    let mut pso = Pso::new(4, 2, 0f32, 0.5, 0.25, line);
    pso.run();
    let swarm = pso.get_swarm();
    // After the launch the leader is particle 1 at 2 (cost -1 against 0).
    // Particle 0: 0 + 0.25 * (2 - 0) + 0.5 * (0 - 0) = 0.5.
    assert_eq!(swarm[0].coordinates_history, vec![vec![0f32], vec![0.5f32]]);
    assert_eq!(swarm[0].velocity, vec![0.5f32]);
    // Particle 1 is the leader and at its own best: it stays.
    assert_eq!(swarm[1].coordinates_history, vec![vec![2f32], vec![2f32]]);
    assert_eq!(swarm[1].velocity, vec![0f32]);
}

#[test]
fn gamble_accepts_below_the_probability() {
    assert_eq!(gamble(0.2f32, 0.3f32), 1);
    assert_eq!(gamble(0.3f32, 0.3f32), -1);
    assert_eq!(gamble(0.4f32, 0.3f32), -1);
    assert_eq!(gamble(0.4f32, f32::NAN), -1);
}

#[test]
fn within_is_a_closed_interval() {
    assert!(is_within(-5f32, 5f32, -5f32));
    assert!(is_within(-5f32, 5f32, 5f32));
    assert!(is_within(-5f32, 5f32, 0f32));
    assert!(!is_within(-5f32, 5f32, 5.0001f32));
    assert!(!is_within(-5f32, 5f32, -5.0001f32));
}

#[test]
fn displace_refuses_what_leaves_the_bounds() {
    assert_eq!(displace(4f32, 0.5f32, -5f32, 5f32), Some(4.5f32));
    assert_eq!(displace(4f32, 1f32, -5f32, 5f32), Some(5f32));
    assert_eq!(displace(4f32, 1.5f32, -5f32, 5f32), None);
    assert_eq!(displace(-5f32, -0.001f32, -5f32, 5f32), None);
    assert_eq!(displace(-5f32, 0.001f32, -5f32, 5f32), Some(-4.999f32));
    assert_eq!(displace(5f32, 0.001f32, -5f32, 5f32), None);
}

#[test]
fn local_attempt_accepts_place_by_place() {
    let input = [4f32, -5f32, 0f32];
    let mut accepted = Vec::new();
    // 4 + 1.5 leaves the box: nothing is accepted, the same place is tried again.
    assert!(!local_attempt(&input, &mut accepted, 1.5f32, -5f32, 5f32));
    assert_eq!(accepted, Vec::<f32>::new());
    assert!(!local_attempt(&input, &mut accepted, 0.5f32, -5f32, 5f32));
    assert_eq!(accepted, vec![4.5f32]);
    // The same noise is refused at the lower bound and accepted upwards.
    assert!(!local_attempt(&input, &mut accepted, -0.25f32, -5f32, 5f32));
    assert_eq!(accepted, vec![4.5f32]);
    assert!(!local_attempt(&input, &mut accepted, 0.25f32, -5f32, 5f32));
    assert_eq!(accepted, vec![4.5f32, -4.75f32]);
    assert!(local_attempt(&input, &mut accepted, 5f32, -5f32, 5f32));
    assert_eq!(accepted, vec![4.5f32, -4.75f32, 5f32]);
    // A whole step takes no more.
    assert!(local_attempt(&input, &mut accepted, 0.1f32, -5f32, 5f32));
    assert_eq!(accepted, vec![4.5f32, -4.75f32, 5f32]);
}

#[test]
fn local_attempt_on_no_coordinates() {
    let mut accepted: Vec<f32> = Vec::new();
    assert!(local_attempt(&[], &mut accepted, 0.1f32, -5f32, 5f32));
    assert!(accepted.is_empty());
}
