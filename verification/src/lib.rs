//! Transform pipeline for timestamped motion scripts.
//!
//! A script is a list of actions (timestamp, position, optional type tag).
//! The library derives a rate-of-change signal from the actions, applies a
//! caller-chosen chain of numeric operations to it (normalize, linear scale,
//! square-root scale, shorten), and materializes the result back into an
//! action list.
//!
//! Position values are IEEE 754 binary64 numbers. The library stores and
//! reasons about them as their 64-bit patterns (`u64`); the arithmetic itself
//! is performed by software implementations of the IEEE operations and is
//! taken on trust, named by uninterpreted spec functions in [`fbits`].

pub mod actions;
pub mod args;
pub mod fbits;
pub mod types;
