//! Decode errors.

use vstd::prelude::*;

verus! {

/// Why a decode attempt was rejected.
///
/// Both conditions are detected synchronously and terminate the decode
/// attempt with no partial result; encoding has no failure path.
#[derive(Copy, Clone, Debug, PartialEq, Eq, Structural)]
pub enum Error {
    /// The buffer is shorter than the field being read.
    InsufficientData,
    /// The kind byte is not one of the registered packet kinds.
    UnknownKind,
}

} // verus!
