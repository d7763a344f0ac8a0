//! Solvers that evolve a whole population of candidates.

pub mod de;
pub mod leader;
pub mod pso;
