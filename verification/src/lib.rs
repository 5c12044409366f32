//! Bookkeeping for a Monte Carlo neutron transport simulation: per-bin
//! neutron and fission counters, the tracking switches that decide which
//! events are recorded, the convergence measure between two generations of
//! the spatial neutron distribution, and the discrete part-selection rules of
//! the constructive solid geometry.

pub mod diagnostics;
pub mod geometry;
