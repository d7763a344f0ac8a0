//! Problems with adjustable bounds, and the builder that validates them.

pub mod traits;
