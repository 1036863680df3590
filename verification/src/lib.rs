//! Modified nodal analysis for linear electrical networks.
//!
//! A network is a list of nodes and two-terminal components. Every component
//! contributes a small coefficient block, its stamp, to a dense system matrix
//! and a right-hand-side vector; solving the system gives the node voltages.
//!
//! Numbers are carried by their IEEE 754 bit patterns (see [`scalar`]). What
//! needs rounding arithmetic, a sum, a reciprocal, the factorisation of the
//! matrix, is supplied by the caller as a function; everything else, node
//! numbering, stamp layout, ground elimination and the order of accumulation,
//! is decided and proved here.

pub mod components;
pub mod error;
pub mod math;
pub mod models;
pub mod scalar;
pub mod simulation;
pub mod stamp;
pub mod superposition;
