//! A wrapping angle stored as a uniformly distributed 32-bit fraction of a full turn.
//!
//! An [`Angle`] holds an unsigned 32-bit integer `v` and stands for `v / 2^32` of one
//! revolution. Sums and differences wrap modulo a full turn, which is what a compass
//! bearing or a rotation state needs.
//!
//! - [`angle`] holds the type, the model of its encoding and the conversions between the
//!   unsigned, the signed and the widened encoding.
//! - [`ops`] holds the operators `+`, `-`, unary `-`, `%`, `* u32` and `/ i32` and the
//!   in-place forms of `+` and `-`. Each states its result as an integer reduced modulo
//!   `2^32`.
//! - [`rounding`] rounds an angle to the nearest multiple of a unit angle.
//! - [`consts`] names the zero angle and the common fractions of a turn.
//! - [`laws`] proves the algebra that callers rely on: identity, inverse, cancellation,
//!   and what scalar division gives back after scalar multiplication.
//!
//! All of it is integer arithmetic. Measures in radians, degrees or fractions of a turn
//! are floating-point values and are converted outside this crate, through
//! [`Angle::from_u64`], [`Angle::as_u32`] and [`Angle::as_i32`].

pub mod angle;
pub mod consts;
pub mod laws;
pub mod ops;
pub mod rounding;

pub use angle::Angle;
