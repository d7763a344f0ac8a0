use heuristics::evol_arg::de::{De, Strategy, Variant};
use heuristics::evol_arg::pso::Pso;
use heuristics::problem_definitions::{HasChance, HasLocal, HasNumbers, HasRandom, ProblemDomain};
use heuristics::solvers::hill_climber::HillClimber;
use heuristics::solvers::random_search::RandomSearch;
use heuristics::solvers::simulated_annealing::SimulatedAnnealing;
use rand::distributions::{Distribution, Uniform};
use std::cell::Cell;
use std::rc::Rc;

/// How often each method of a problem was called.
#[derive(Default)]
struct Calls {
    random: Cell<usize>,
    local: Cell<usize>,
    cost: Cell<usize>,
}

/// A problem that answers at random, counts its calls and, at one call of
/// its choice, answers with the origin and the cost zero.
struct Scripted {
    calls: Rc<Calls>,
    dimensions: usize,
    fixed_point: Option<Vec<f32>>,
    zero_at: Option<usize>,
}

impl Scripted {
    fn new(calls: &Rc<Calls>) -> Self {
        Scripted { calls: calls.clone(), dimensions: 5, fixed_point: None, zero_at: None }
    }

    fn point(&self) -> Vec<f32> {
        let range = Uniform::new_inclusive(-500f32, 500f32);
        let mut rng = rand::thread_rng();
        range.sample_iter(&mut rng).take(5).collect()
    }
}

impl ProblemDomain for Scripted {
    type Item = f32;

    fn get_minimum(&self) -> f32 {
        -500f32
    }

    fn get_maximum(&self) -> f32 {
        500f32
    }

    fn get_dimensions(&self) -> usize {
        self.dimensions
    }

    fn cost_function(&self, _input: &[f32]) -> f32 {
        let call = self.calls.cost.get();
        self.calls.cost.set(call + 1);
        if self.zero_at == Some(call) {
            return 0f32;
        }
        // Strictly above the scripted zero, so that the zero is the only best.
        let range = Uniform::new_inclusive(0f32, 15000f32);
        let mut rng = rand::thread_rng();
        loop {
            let cost = range.sample(&mut rng);
            if cost > 0f32 {
                return cost;
            }
        }
    }
}

impl HasRandom for Scripted {
    fn get_random(&self) -> Vec<f32> {
        let call = self.calls.random.get();
        self.calls.random.set(call + 1);
        if self.zero_at == Some(call) {
            return vec![0f32, 0f32, 0f32, 0f32, 0f32];
        }
        match &self.fixed_point {
            Some(point) => point.clone(),
            None => self.point(),
        }
    }
}

impl HasLocal for Scripted {
    fn get_local_next(&self, _input: &[f32]) -> Vec<f32> {
        self.calls.local.set(self.calls.local.get() + 1);
        self.point()
    }
}

impl HasChance for Scripted {
    fn get_chance(&self) -> f32 {
        rand::random::<f32>()
    }
}

impl HasNumbers for Scripted {
    fn get_ratio(&self, numerator: usize, denominator: usize) -> f32 {
        numerator as f32 / denominator as f32
    }

    fn get_exp(&self, exponent: f32) -> f32 {
        std::f32::consts::E.powf(exponent)
    }
}

#[test]
fn expected_iters() {
    let calls = Rc::new(Calls::default());
    let mocked_problem = Scripted::new(&calls);
    let mut random_search = RandomSearch::new(1000, mocked_problem);
    random_search.run();
    assert_eq!(random_search.get_history().len(), 1000);
    assert_eq!(calls.random.get(), 1000);
    assert_eq!(calls.cost.get(), 1000);
}

#[test]
fn get_0() {
    let range = Uniform::new(1usize, 1000usize);
    let fst_part = range.sample(&mut (rand::thread_rng()));
    let calls = Rc::new(Calls::default());
    let mut mocked_problem = Scripted::new(&calls);
    mocked_problem.zero_at = Some(fst_part);
    let mut random_search = RandomSearch::new(1000, mocked_problem);
    random_search.run();
    assert_eq!(calls.random.get(), 1000);
    assert_eq!(calls.cost.get(), 1000);
    assert_eq!(random_search.get_best_cost(), Some(0f32));
    assert_eq!(
        random_search.get_best_coords(),
        Some(&vec![0f32, 0f32, 0f32, 0f32, 0f32])
    );
}

#[test]
fn hill_climber_run() {
    let calls = Rc::new(Calls::default());
    let mocked_problem = Scripted::new(&calls);
    let mut hill_climber = HillClimber::new(1000, 10, mocked_problem);
    hill_climber.run();
    assert_ne!(hill_climber.get_history().len(), 0);
    assert!(calls.local.get() >= 10);
}

#[test]
fn simulated_annealing_run() {
    let calls = Rc::new(Calls::default());
    let mocked_problem = Scripted::new(&calls);
    let mut sa = SimulatedAnnealing::new(10, 1000f32, 0.1, 0.98, mocked_problem);
    sa.run();
    assert_ne!(sa.get_history().len(), 0);
    assert!(calls.local.get() >= 10);
}

#[test]
fn de_expected_cost_calls() {
    let expected_calls = 5000;
    let calls = Rc::new(Calls::default());
    let mut mocked_problem = Scripted::new(&calls);
    mocked_problem.dimensions = 3;
    mocked_problem.fixed_point = Some(vec![1.0, 2.0, 3.0]);

    let mut de_rng_1_bin = De::new(
        Variant::Rnd,
        1,
        Strategy::Bin,
        500,
        10,
        0.8,
        0.5,
        mocked_problem,
    );
    de_rng_1_bin.run();
    assert_eq!(calls.random.get(), 10);
    assert_eq!(calls.cost.get(), expected_calls);
    assert!(de_rng_1_bin.get_best().is_some());
    assert_eq!(de_rng_1_bin.get_cost_function_evaluations(), 5000);
    assert_eq!(de_rng_1_bin.get_generations().len(), 500);
    assert_eq!(de_rng_1_bin.get_generations()[0].len(), 10);
}

#[test]
fn pso_expected_cost_calls() {
    let expected_calls = 500;
    let calls = Rc::new(Calls::default());
    let mut mocked_problem = Scripted::new(&calls);
    mocked_problem.dimensions = 3;
    mocked_problem.fixed_point = Some(vec![1.0, 2.0, 3.0]);

    let mut pso = Pso::new(500, 10, 0.7, 0.8, 0.9, mocked_problem);
    pso.run();
    // twice per particle at the launch
    assert_eq!(calls.random.get(), 20);
    assert_eq!(calls.cost.get(), expected_calls);
    assert!(pso.get_best_coordinates().is_some());
    assert_eq!(pso.get_cost_function_evaluations(), expected_calls as i32);
}

/// Every cost of the history is at least the best cost.
fn none_below(history: &[f32], best: f32) -> bool {
    history.iter().all(|cost| !(*cost < best))
}

#[test]
fn random_search_best_is_lowest_of_history() {
    let calls = Rc::new(Calls::default());
    let mut search = RandomSearch::new(200, Scripted::new(&calls));
    search.run();
    let best = search.get_best_cost().unwrap();
    assert!(none_below(search.get_history(), best));
    assert!(search.get_history().contains(&best));
}

#[test]
fn random_search_takes_one_sample_without_budget() {
    let calls = Rc::new(Calls::default());
    let mut search = RandomSearch::new(0, Scripted::new(&calls));
    search.run();
    assert_eq!(search.get_history().len(), 1);
    assert_eq!(search.get_best_cost(), Some(search.get_history()[0]));
    let mut negative = RandomSearch::new(-3, Scripted::new(&calls));
    negative.run();
    assert_eq!(negative.get_history().len(), 1);
}

#[test]
fn random_search_keeps_first_of_equal_costs() {
    struct Flat {
        next: Cell<f32>,
    }
    impl ProblemDomain for Flat {
        type Item = f32;
        fn get_minimum(&self) -> f32 {
            0f32
        }
        fn get_maximum(&self) -> f32 {
            1f32
        }
        fn get_dimensions(&self) -> usize {
            1
        }
        fn cost_function(&self, _input: &[f32]) -> f32 {
            7f32
        }
    }
    impl HasRandom for Flat {
        fn get_random(&self) -> Vec<f32> {
            let value = self.next.get();
            self.next.set(value + 1f32);
            vec![value]
        }
    }
    let mut search = RandomSearch::new(5, Flat { next: Cell::new(0f32) });
    search.run();
    assert_eq!(search.get_history(), &[7f32, 7f32, 7f32, 7f32, 7f32]);
    assert_eq!(search.get_best_cost(), Some(7f32));
    assert_eq!(search.get_best_coords(), Some(&vec![0f32]));
}

#[test]
fn hill_climber_history_and_best() {
    let calls = Rc::new(Calls::default());
    let mut climber = HillClimber::new(50, 4, Scripted::new(&calls));
    climber.run();
    assert_eq!(climber.get_history().len(), 51);
    assert_eq!(calls.random.get(), 1);
    assert_eq!(calls.local.get(), 200);
    assert_eq!(calls.cost.get(), 201);
    let best = climber.get_best_cost().unwrap();
    assert!(none_below(climber.get_history(), best));
    assert!(climber.get_history().contains(&best));
    assert!(climber.get_best_coords().is_some());
}

#[test]
fn hill_climber_tries_one_neighbour_at_least() {
    let calls = Rc::new(Calls::default());
    let mut climber = HillClimber::new(3, 0, Scripted::new(&calls));
    climber.run();
    assert_eq!(climber.get_history().len(), 4);
    assert_eq!(calls.local.get(), 3);
}

#[test]
fn simulated_annealing_levels_and_history() {
    let calls = Rc::new(Calls::default());
    // 8, 4, 2, 1 are at least 1; 0.5 is not: four levels of three tries.
    let mut sa = SimulatedAnnealing::new(3, 8f32, 1f32, 0.5, Scripted::new(&calls));
    sa.run();
    assert_eq!(sa.get_history().len(), 13);
    assert_eq!(calls.local.get(), 12);
    assert_eq!(calls.cost.get(), 13);
    assert_eq!(sa.get_best_cost(), Some(*sa.get_history().last().unwrap()));
    assert!(sa.get_best_coords().is_some());
}

#[test]
fn simulated_annealing_cold_start_only_samples() {
    let calls = Rc::new(Calls::default());
    let mut sa = SimulatedAnnealing::new(3, 0.5f32, 1f32, 0.5, Scripted::new(&calls));
    sa.run();
    assert_eq!(sa.get_history().len(), 1);
    assert_eq!(calls.local.get(), 0);
}

#[test]
fn simulated_annealing_accepts_every_descent() {
    struct Slope {
        height: Cell<f32>,
    }
    impl ProblemDomain for Slope {
        type Item = f32;
        fn get_minimum(&self) -> f32 {
            0f32
        }
        fn get_maximum(&self) -> f32 {
            1f32
        }
        fn get_dimensions(&self) -> usize {
            1
        }
        fn cost_function(&self, _input: &[f32]) -> f32 {
            let height = self.height.get();
            self.height.set(height - 1f32);
            height
        }
    }
    impl HasRandom for Slope {
        fn get_random(&self) -> Vec<f32> {
            vec![0f32]
        }
    }
    impl HasLocal for Slope {
        fn get_local_next(&self, input: &[f32]) -> Vec<f32> {
            vec![input[0] + 1f32]
        }
    }
    impl HasChance for Slope {
        fn get_chance(&self) -> f32 {
            panic!("a descent is not gambled on")
        }
    }
    impl HasNumbers for Slope {
        fn get_ratio(&self, numerator: usize, denominator: usize) -> f32 {
            numerator as f32 / denominator as f32
        }
        fn get_exp(&self, exponent: f32) -> f32 {
            exponent.exp()
        }
    }
    let mut sa = SimulatedAnnealing::new(2, 4f32, 1f32, 0.5, Slope { height: Cell::new(100f32) });
    sa.run();
    assert_eq!(sa.get_history(), &[100f32, 99f32, 98f32, 97f32, 96f32, 95f32, 94f32]);
    assert_eq!(sa.get_best_cost(), Some(94f32));
    assert_eq!(sa.get_best_coords(), Some(&vec![6f32]));
}

#[test]
fn simulated_annealing_gambles_on_a_rise() {
    struct Rise {
        height: Cell<f32>,
        roll: f32,
    }
    impl ProblemDomain for Rise {
        type Item = f32;
        fn get_minimum(&self) -> f32 {
            0f32
        }
        fn get_maximum(&self) -> f32 {
            1f32
        }
        fn get_dimensions(&self) -> usize {
            1
        }
        fn cost_function(&self, _input: &[f32]) -> f32 {
            let height = self.height.get();
            self.height.set(height + 1f32);
            height
        }
    }
    impl HasRandom for Rise {
        fn get_random(&self) -> Vec<f32> {
            vec![0f32]
        }
    }
    impl HasLocal for Rise {
        fn get_local_next(&self, input: &[f32]) -> Vec<f32> {
            vec![input[0] + 1f32]
        }
    }
    impl HasChance for Rise {
        fn get_chance(&self) -> f32 {
            self.roll
        }
    }
    impl HasNumbers for Rise {
        fn get_ratio(&self, numerator: usize, denominator: usize) -> f32 {
            numerator as f32 / denominator as f32
        }
        fn get_exp(&self, exponent: f32) -> f32 {
            exponent.exp()
        }
    }
    // A rise of 1 at temperature 1 is accepted with probability 1/e = 0.3678...
    let mut lucky =
        SimulatedAnnealing::new(2, 1f32, 1f32, 0.5, Rise { height: Cell::new(0f32), roll: 0.36 });
    lucky.run();
    assert_eq!(lucky.get_history(), &[0f32, 1f32, 2f32]);
    assert_eq!(lucky.get_best_cost(), Some(2f32));
    let mut unlucky =
        SimulatedAnnealing::new(2, 1f32, 1f32, 0.5, Rise { height: Cell::new(0f32), roll: 0.37 });
    unlucky.run();
    assert_eq!(unlucky.get_history(), &[0f32, 0f32, 0f32]);
    assert_eq!(unlucky.get_best_cost(), Some(0f32));
    assert_eq!(unlucky.get_best_coords(), Some(&vec![0f32]));
}

/// A problem whose evaluations give the costs of a list, one after another.
struct Listed {
    costs: Vec<f32>,
    next: Cell<usize>,
}

impl ProblemDomain for Listed {
    type Item = f32;

    fn get_minimum(&self) -> f32 {
        0f32
    }

    fn get_maximum(&self) -> f32 {
        1f32
    }

    fn get_dimensions(&self) -> usize {
        1
    }

    fn cost_function(&self, _input: &[f32]) -> f32 {
        let call = self.next.get();
        self.next.set(call + 1);
        self.costs[call]
    }
}

impl HasRandom for Listed {
    fn get_random(&self) -> Vec<f32> {
        vec![self.next.get() as f32]
    }
}

impl HasLocal for Listed {
    fn get_local_next(&self, _input: &[f32]) -> Vec<f32> {
        vec![self.next.get() as f32]
    }
}

#[test]
fn random_search_on_listed_costs() {
    let problem = Listed { costs: vec![5f32, 3f32, 4f32, 3f32, 6f32], next: Cell::new(0) };
    let mut search = RandomSearch::new(5, problem);
    search.run();
    assert_eq!(search.get_history(), &[5f32, 3f32, 4f32, 3f32, 6f32]);
    assert_eq!(search.get_best_cost(), Some(3f32));
    assert_eq!(search.get_best_coords(), Some(&vec![1f32]));
}

#[test]
fn random_search_appends_to_an_earlier_history() {
    let problem = Listed { costs: vec![1f32, 2f32, 9f32, 8f32], next: Cell::new(0) };
    let mut search = RandomSearch::new(2, problem);
    search.run();
    assert_eq!(search.get_best_cost(), Some(1f32));
    search.run();
    assert_eq!(search.get_history(), &[1f32, 2f32, 9f32, 8f32]);
    // The best is the best of the last run.
    assert_eq!(search.get_best_cost(), Some(8f32));
    assert_eq!(search.get_best_coords(), Some(&vec![3f32]));
}

#[test]
fn a_cost_that_is_no_number_is_never_improved_on() {
    let problem = Listed { costs: vec![f32::NAN, 1f32, 2f32], next: Cell::new(0) };
    let mut search = RandomSearch::new(3, problem);
    search.run();
    assert!(search.get_best_cost().unwrap().is_nan());
    assert_eq!(search.get_best_coords(), Some(&vec![0f32]));
    let later = Listed { costs: vec![2f32, f32::NAN, 1f32], next: Cell::new(0) };
    let mut search = RandomSearch::new(3, later);
    search.run();
    assert_eq!(search.get_best_cost(), Some(1f32));
}

#[test]
fn hill_climber_on_listed_costs() {
    // The start costs 5; the steps try (7, 6), (4, 9) and (8, 8).
    let problem =
        Listed { costs: vec![5f32, 7f32, 6f32, 4f32, 9f32, 8f32, 8f32], next: Cell::new(0) };
    let mut climber = HillClimber::new(3, 2, problem);
    climber.run();
    assert_eq!(climber.get_history(), &[5f32, 6f32, 4f32, 8f32]);
    assert_eq!(climber.get_best_cost(), Some(4f32));
    assert_eq!(climber.get_best_coords(), Some(&vec![3f32]));
}

#[test]
fn pso_budget_that_the_swarm_does_not_divide() {
    let calls = Rc::new(Calls::default());
    let mut mocked_problem = Scripted::new(&calls);
    mocked_problem.dimensions = 3;
    mocked_problem.fixed_point = Some(vec![1.0, 2.0, 3.0]);

    let mut pso = Pso::new(25, 10, 0.7, 0.8, 0.9, mocked_problem);
    pso.run();
    assert_eq!(calls.random.get(), 20);
    assert_eq!(calls.cost.get(), 25);
    assert_eq!(pso.get_cost_function_evaluations(), 25);
    assert!(pso.get_best().is_some());
}

#[test]
fn pso_budget_of_one_more_than_the_launch() {
    let calls = Rc::new(Calls::default());
    let mut mocked_problem = Scripted::new(&calls);
    mocked_problem.dimensions = 3;
    let mut pso = Pso::new(11, 10, 0.7, 0.8, 0.9, mocked_problem);
    pso.run();
    assert_eq!(calls.cost.get(), 11);
    assert_eq!(pso.get_cost_function_evaluations(), 11);
}
