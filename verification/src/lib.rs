//! A verified two-attractor orbital gravity simulation.
//!
//! Two point-mass attractors orbit the origin exactly half a turn apart.
//! Balls fall toward them under an inverse-square law, are destroyed when
//! they come within a fixed collision radius of either attractor, and each
//! destroyed ball is replaced by two newly spawned balls at random positions
//! on a fixed spawn circle, one tick later.
//!
//! All quantities are signed 64-bit fixed-point numbers with a scale of
//! 2^16, so that every arithmetic step has an exact, machine-checked
//! meaning.

pub mod fixed;
pub mod trig;
pub mod vec2;
pub mod gravity;
pub mod rng;
pub mod sim;
