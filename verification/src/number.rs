//! Numbers with a fraction, carried but never computed with.

use vstd::prelude::*;

verus! {

/// A double-precision number held as its IEEE-754 bit pattern. The core
/// stores and hands on such numbers; arithmetic on them is left to callers.
#[derive(Clone, Copy, Debug, PartialEq, Eq, Structural)]
pub struct Float64 {
    pub bits: u64,
}

} // verus!
