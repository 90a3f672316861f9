//! A procedural animation engine: a dataflow graph of per-pixel operations,
//! re-evaluated every frame to produce a one-dimensional strip of colors.
//!
//! All scalar signals are carried as Q.16 fixed-point values: an `i64` holds
//! the signal scaled by 65536, so `FX_ONE` stands for 1.0. The arithmetic on
//! this representation is saturating and fully specified, which is what lets
//! every numeric kernel in the engine carry an exact contract.

pub mod fixed;
pub mod waves;
pub mod lerp;
pub mod pixel;
pub mod rng;
pub mod param;
pub mod pulser;
pub mod op;
pub mod script;
pub mod context;
pub mod layout;
