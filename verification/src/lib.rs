//! A three-band dynamics processor: crossover filters, per-band envelope
//! followers and gain computers, and the engine that drives them.
//!
//! All samples, coefficients and levels are IEEE 754 binary32 values held as
//! their bit patterns (`binary32`). Their arithmetic is integer code that is
//! proved to round the exact result to nearest (`rounding`, `arith`), so
//! each step of the signal path has a contract that says bit for bit what
//! it returns. The elementary functions that the path needs in between
//! (logarithm, powers, cosine and sine) are evaluated by the caller; the
//! module `engine` says in which order. The module `stability` shows where
//! the designed filters have their poles.
pub mod arith;
pub mod binary32;
pub mod biquad;
pub mod compression;
pub mod crossover;
pub mod engine;
pub mod identities;
pub mod meter;
pub mod params;
pub mod rounding;
pub mod stability;
