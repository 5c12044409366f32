//! Diagnostics collected while the simulation runs.

pub mod bins;
pub mod convergence;
pub mod diagnostics_tracking;
pub mod geometry_diagnostics;
pub mod halt_causes;
