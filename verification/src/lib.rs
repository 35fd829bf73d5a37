//! A battery charge/discharge engine over unit-safe physical quantities.
//!
//! Every quantity is an exact fixed-point number: an integer count of
//! `10^-12` of its unit. Products and quotients round away from zero to the next
//! representable value, so a limit obtained by a division is never
//! below the true limit and the clamps of the engine land exactly on the
//! bounds they protect.

pub mod fixed;
pub mod scalar;
pub mod types;
pub mod battery;
pub mod control;
pub mod data;
pub mod simulation;
pub mod text;
