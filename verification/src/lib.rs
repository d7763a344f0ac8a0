//! Gradient-free minimisation of a cost function over a box in `n` dimensions.
//!
//! A problem states its bounds, its dimension and its cost function; a solver
//! asks it for points and costs and keeps the bookkeeping of the search:
//! random search, hill climbing and simulated annealing follow one candidate,
//! differential evolution and particle swarm optimisation evolve a population.
//!
//! The library never names a machine number type. A problem chooses the
//! numbers it is stated over, and chance, the constants and the exponential
//! come from the problem as well. Every contract is stated over the operators
//! of that number type and holds for what they return, whatever it is; it
//! asks of the type only that its operators are functions that never fail
//! (`order::lawful`). What a run has drawn and evaluated is stated as what the
//! problem's methods can return.

pub mod benchmarks;
pub mod evol_arg;
pub mod order;
pub mod problem_definitions;
pub mod solvers;
