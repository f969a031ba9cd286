//! The two fatal error kinds of save decoding.
//!
//! Both abort the decode of the current document entirely; there are no
//! partial results.

use vstd::prelude::*;

verus! {

/// Why a save document failed to decode.
///
/// `Structure` means an expected element or attribute is missing, or occurs a
/// wrong number of times. `Format` means a value that is present fails to
/// parse as its expected type or is out of range (an unknown area ID, an
/// impossible collectible count, a sum too large to represent).
#[derive(Clone, Copy, Debug, PartialEq, Eq, Structural)]
pub enum DecodeError {
    Structure,
    Format,
}

} // verus!
