//! Fixed-width two's-complement arithmetic on integer literals.
//!
//! A literal such as `-5`, `0x80` or `0b1011` is parsed into a 128-bit
//! pattern, fitted to a width of `n` bits by sign extension, and negated
//! modulo `2^n`. Every function states its result over the integers, so the
//! bit manipulation is proved against ordinary arithmetic.

pub mod bits;
pub mod congruence;
pub mod error;
pub mod laws;
pub mod literal;
pub mod model;
pub mod pattern;
pub mod report;
pub mod width;
