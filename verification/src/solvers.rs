//! Solvers that follow a single candidate through the domain.

pub mod hill_climber;
pub mod random_search;
pub mod simulated_annealing;
