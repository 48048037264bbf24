//! The conversion contract: construct, restore and release.
//!
//! A boundary type implements [`CReprOf<V>`] to be built from a native
//! value of type `V`, [`AsRust<V>`] to be read back into one, and
//! [`CDrop`] to give up whatever it owns.  Contracts are stated over the
//! mathematical model of the native type, given by [`NativeValue`].

use vstd::prelude::*;

use crate::errors::{ConstructionError, ReleaseError, RestorationError};

verus! {

/// A native value together with its mathematical model: text is a sequence
/// of characters, a vector is the sequence of its elements' models, a
/// range is the pair of its endpoints' models.
pub trait NativeValue {
    /// The mathematical model of a value of this type.
    type Model;

    /// The model of this value.
    spec fn native_model(&self) -> Self::Model;
}

impl NativeValue for i32 {
    type Model = i32;

    open spec fn native_model(&self) -> i32 {
        *self
    }
}

impl NativeValue for String {
    type Model = Seq<char>;

    open spec fn native_model(&self) -> Seq<char> {
        self.view()
    }
}

impl<V: NativeValue> NativeValue for Vec<V> {
    type Model = Seq<V::Model>;

    open spec fn native_model(&self) -> Seq<V::Model> {
        self.view().map_values(|v: V| v.native_model())
    }
}

impl<V: NativeValue> NativeValue for core::ops::Range<V> {
    type Model = (V::Model, V::Model);

    open spec fn native_model(&self) -> (V::Model, V::Model) {
        (self.start.native_model(), self.end.native_model())
    }
}

/// Explicit teardown of whatever a boundary value owns.
///
/// Release is best-effort: it must be callable in any state, must leave
/// the value owning nothing, and reports — rather than escalates — any
/// inconsistency it runs into on the way.
pub trait CDrop {
    /// True when the value owns nothing any more.
    spec fn released(&self) -> bool;

    /// True when releasing this value runs into no inconsistency.
    spec fn release_clean(&self) -> bool;

    /// Releases everything the value owns.  After the call the value owns
    /// nothing, whatever state it was in; an error only reports that part
    /// of the ownership record was malformed.
    fn do_drop(&mut self) -> (r: Result<(), ReleaseError>)
        ensures
            final(self).released(),
            r is Ok <==> old(self).release_clean(),
    ;
}

/// Reading a boundary value back into an independent native value,
/// without taking ownership of the boundary value's memory.
pub trait AsRust<V: NativeValue> {
    /// True when the boundary value decodes to a native value: its
    /// ownership record is consistent and every element decodes.
    spec fn restorable(&self) -> bool;

    /// The model of the native value this boundary value represents.
    spec fn restored_model(&self) -> V::Model;

    /// Reconstructs the native value this boundary value represents.
    /// Succeeds exactly on restorable values.
    fn as_rust(&self) -> (r: Result<V, RestorationError>)
        ensures
            r is Ok <==> self.restorable(),
            r matches Ok(v) ==> v.native_model() == self.restored_model(),
    ;
}

/// Constructing an owning boundary value out of a native value.
///
/// A constructed value is a consistent ownership record, so releasing it
/// runs cleanly; the contract says so, which lets a caller release what
/// it built whatever the item type.
pub trait CReprOf<V: NativeValue>: Sized + AsRust<V> + CDrop {
    /// True when the native value with this model can be represented in
    /// the boundary layout.
    spec fn constructible(m: V::Model) -> bool;

    /// The error construction reports when the model is not
    /// constructible.
    open spec fn construct_err(m: V::Model) -> ConstructionError {
        ConstructionError::InvalidText
    }

    /// Builds a boundary value representing `input`.  Succeeds exactly on
    /// constructible inputs, and the result restores to a value with the
    /// model of `input`.
    fn c_repr_of(input: V) -> (r: Result<Self, ConstructionError>)
        ensures
            r is Ok <==> Self::constructible(input.native_model()),
            r matches Ok(b) ==> b.restorable() && b.restored_model() == input.native_model(),
            r matches Ok(b) ==> b.release_clean(),
            r matches Err(e) ==> e == Self::construct_err(input.native_model()),
    ;
}

impl CDrop for i32 {
    open spec fn released(&self) -> bool {
        true
    }

    open spec fn release_clean(&self) -> bool {
        true
    }

    /// Release of a scalar is a no-op: it frees nothing and mutates
    /// nothing.
    fn do_drop(&mut self) -> (r: Result<(), ReleaseError>)
        ensures
            *final(self) == *old(self),
    {
        Ok(())
    }
}

impl AsRust<i32> for i32 {
    open spec fn restorable(&self) -> bool {
        true
    }

    open spec fn restored_model(&self) -> i32 {
        *self
    }

    fn as_rust(&self) -> (r: Result<i32, RestorationError>) {
        Ok(*self)
    }
}

impl CReprOf<i32> for i32 {
    open spec fn constructible(m: i32) -> bool {
        true
    }

    fn c_repr_of(input: i32) -> (r: Result<i32, ConstructionError>) {
        Ok(input)
    }
}

} // verus!
