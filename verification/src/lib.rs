//! Optimal periodic-review replenishment policies for a single-product
//! inventory system under stochastic demand.
//!
//! The solver models the problem as a finite-state Markov decision process
//! and runs value iteration (in-place, Gauss-Seidel style sweeps) until the
//! per-sweep change drops below a tolerance.  All economic quantities,
//! densities and value estimates are held as fixed-point integers with a
//! scaling factor of one million, so that every computation has an exact,
//! machine-checked meaning.

pub mod config;
pub mod fixed;
pub mod models;
pub mod engine;
pub mod policy;
pub mod simulate;
