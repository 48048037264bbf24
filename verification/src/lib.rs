//! A marshaling layer for moving values across an in-process boundary
//! between ordinary Rust data and flat, C-style representations.
//!
//! Three capabilities make up the conversion contract: `CReprOf` builds an
//! owning boundary value out of a native value, `AsRust` reads a boundary
//! value back into an independent native value, and `CDrop` releases
//! whatever the boundary value owns.  The adapters [`CStringArray`],
//! [`CArray`] and [`CRange`] implement the contract for arrays of text,
//! arrays of arbitrary boundary-compatible items, and half-open ranges.

mod conversions;
mod errors;
mod nulstr;
mod types;

pub use conversions::{AsRust, CDrop, CReprOf, NativeValue};
pub use errors::{ConstructionError, ReleaseError, RestorationError};
pub use nulstr::CNulString;
pub use types::{CArray, CRange, CStringArray};
pub use types::{first_unconstructible, lemma_array_count_matches_elements,
    lemma_array_empty_is_sentinel, lemma_string_array_empty_is_sentinel};
