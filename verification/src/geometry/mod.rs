//! Discrete rules of the constructive solid geometry.

pub mod components;
