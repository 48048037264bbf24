//! The error kinds of the conversion contract.

use vstd::prelude::*;

verus! {

/// Returned by `CReprOf::c_repr_of` when a native value cannot be
/// represented in the boundary layout.
#[derive(Clone, Copy, Debug, PartialEq, Eq, Structural)]
pub enum ConstructionError {
    /// A text value contains an embedded terminator byte.
    InvalidText,
    /// An element count does not fit the boundary count field.
    CountOverflow,
}

/// Returned by `AsRust::as_rust` when boundary memory does not decode to a
/// valid native value.
#[derive(Clone, Copy, Debug, PartialEq, Eq, Structural)]
pub enum RestorationError {
    /// A byte sequence is not representable as text, or the value's
    /// ownership record is inconsistent.
    InvalidEncoding,
}

/// Returned by `CDrop::do_drop` when some owned resource could not be
/// reclaimed cleanly.  Release is best-effort: the rest of the value is
/// still torn down.
#[derive(Clone, Copy, Debug, PartialEq, Eq, Structural)]
pub enum ReleaseError {
    /// The value's ownership record was malformed.
    Malformed,
}

} // verus!
