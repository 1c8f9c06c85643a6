//! Pseudorandom generation for function-secret-sharing evaluators.
//!
//! The crate wraps keyed block ciphers behind one-way compression functions
//! (Matyas-Meyer-Oseas with one output block, Hirose with two), composes them
//! into multi-key pseudorandom generators that expand a seed chunk by chunk,
//! and offers the fixed-width XOR combinator used to fold equal-length byte
//! buffers together.

use vstd::prelude::*;

pub mod prg;
pub mod utils;

verus! {

/// The single recoverable failure of this crate: a buffer, key or chunk-count
/// length precondition was violated by the caller.
#[derive(Clone, Copy, Debug, PartialEq, Eq, Structural)]
pub enum Error {
    LengthMismatch,
}

} // verus!
