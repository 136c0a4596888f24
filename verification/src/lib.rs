//! Iterated-function-system (chaos game) sampling and normalization.
//!
//! Coordinates, transform coefficients and colors are fixed-point numbers:
//! an `i64` holding the real value times [`fixed::SCALE`]. All arithmetic on
//! them is exact integer arithmetic, so every step of the sampler and of the
//! normalizer is specified and verified down to the rounding.

pub mod args;
pub mod error;
pub mod fibo;
pub mod fixed;
pub mod forest;
pub mod ifs;
pub mod mapset;
pub mod random;
pub mod transform;

pub use fixed::SCALE;
