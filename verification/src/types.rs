//! The container adapters: arrays of text, arrays of arbitrary
//! boundary-compatible items, and half-open ranges.

use vstd::prelude::*;

use crate::conversions::{AsRust, CDrop, CReprOf, NativeValue};
use crate::errors::{ConstructionError, ReleaseError, RestorationError};
use crate::nulstr::CNulString;

verus! {

/// A boundary representation of an ordered sequence of text values: an
/// owned block of terminated strings together with a signed element
/// count, as the far side of the boundary expects it.
///
/// The ownership record is a pair of fields: `data` is the block of
/// elements, where `None` stands for the sentinel "no elements" pointer,
/// and `size` is the element count.  The count is signed and narrower
/// than the native length type, so construction rejects sequences whose
/// length does not fit it.
#[derive(Debug)]
pub struct CStringArray {
    /// The owned block of terminated strings; `None` is the sentinel.
    pub data: Option<Vec<CNulString>>,
    /// Number of elements in the block.
    pub size: i32,
}

impl CStringArray {
    /// The ownership record is consistent: the sentinel exactly when the
    /// count is zero, and otherwise a count that matches the allocation.
    pub open spec fn wf(&self) -> bool {
        match self.data {
            Option::None => self.size == 0,
            Option::Some(v) => self.size != 0 && v@.len() == self.size as int,
        }
    }

    /// The elements of the ownership record.
    pub open spec fn elements(&self) -> Seq<CNulString> {
        match self.data {
            Option::None => Seq::empty(),
            Option::Some(v) => v@,
        }
    }
}

impl CDrop for CStringArray {
    /// Released: the block is gone and the count is back to zero.
    open spec fn released(&self) -> bool {
        self.data is None && self.size == 0
    }

    /// Release runs cleanly exactly when the ownership record is
    /// consistent; it frees everything either way.
    open spec fn release_clean(&self) -> bool {
        self.wf()
    }

    fn do_drop(&mut self) -> (r: Result<(), ReleaseError>) {
        let data = self.data.take();
        let clean: bool = match &data {
            Option::None => self.size == 0,
            Option::Some(v) => self.size > 0 && v.len() == self.size as usize,
        };
        if let Some(mut v) = data {
            while v.len() > 0
                decreases v@.len(),
            {
                if let Some(mut e) = v.pop() {
                    let _ = e.do_drop();
                }
            }
        }
        self.size = 0;
        if clean {
            Ok(())
        } else {
            Err(ReleaseError::Malformed)
        }
    }
}

impl AsRust<Vec<String>> for CStringArray {
    open spec fn restorable(&self) -> bool {
        &&& self.wf()
        &&& forall|i: int|
            0 <= i < self.elements().len() ==> (#[trigger] self.elements()[i]).restorable()
    }

    open spec fn restored_model(&self) -> Seq<Seq<char>> {
        self.elements().map_values(|e: CNulString| e.restored_model())
    }

    fn as_rust(&self) -> (r: Result<Vec<String>, RestorationError>) {
        match &self.data {
            None => {
                if self.size == 0 {
                    let out: Vec<String> = Vec::new();
                    proof {
                        assert(out.native_model() =~= self.restored_model());
                    }
                    Ok(out)
                } else {
                    Err(RestorationError::InvalidEncoding)
                }
            },
            Some(v) => {
                if self.size <= 0 {
                    return Err(RestorationError::InvalidEncoding);
                }
                if v.len() != self.size as usize {
                    return Err(RestorationError::InvalidEncoding);
                }
                let mut out: Vec<String> = Vec::new();
                let mut i: usize = 0;
                while i < v.len()
                    invariant
                        self.data matches Some(w) && w@ == v@,
                        out@.len() == i,
                        0 <= i <= v@.len(),
                        forall|j: int| 0 <= j < i ==> (#[trigger] v@[j]).restorable(),
                        forall|j: int|
                            0 <= j < i ==> (#[trigger] out@[j])@ == v@[j].restored_model(),
                    decreases v@.len() - i,
                {
                    match v[i].as_rust() {
                        Ok(s) => out.push(s),
                        Err(e) => {
                            proof {
                                assert(self.elements()[i as int] == v@[i as int]);
                            }
                            return Err(e);
                        },
                    }
                    i += 1;
                }
                proof {
                    assert(out.native_model() =~= self.restored_model());
                }
                Ok(out)
            },
        }
    }
}

impl CReprOf<Vec<String>> for CStringArray {
    /// A sequence of texts is representable when each text is and the
    /// length fits the signed count field.
    open spec fn constructible(m: Seq<Seq<char>>) -> bool {
        &&& m.len() <= i32::MAX as int
        &&& forall|i: int|
            0 <= i < m.len() ==> <CNulString as CReprOf<String>>::constructible(#[trigger] m[i])
    }

    open spec fn construct_err(m: Seq<Seq<char>>) -> ConstructionError {
        if m.len() > i32::MAX as int {
            ConstructionError::CountOverflow
        } else {
            ConstructionError::InvalidText
        }
    }

    fn c_repr_of(input: Vec<String>) -> (r: Result<Self, ConstructionError>) {
        if input.len() > i32::MAX as usize {
            return Err(ConstructionError::CountOverflow);
        }
        if input.len() == 0 {
            let out = CStringArray { data: None, size: 0 };
            proof {
                assert(out.restored_model() =~= input.native_model());
            }
            return Ok(out);
        }
        let mut block: Vec<CNulString> = Vec::new();
        let mut i: usize = 0;
        while i < input.len()
            invariant
                block@.len() == i,
                0 <= i <= input@.len(),
                0 < input@.len() <= i32::MAX as int,
                forall|j: int|
                    0 <= j < i ==> <CNulString as CReprOf<String>>::constructible(
                        #[trigger] input@[j]@,
                    ),
                forall|j: int| 0 <= j < i ==> (#[trigger] block@[j]).restorable(),
                forall|j: int|
                    0 <= j < i ==> (#[trigger] block@[j]).restored_model() == input@[j]@,
            decreases input@.len() - i,
        {
            let s = input[i].clone();
            match CNulString::c_repr_of(s) {
                Ok(c) => block.push(c),
                Err(e) => {
                    proof {
                        assert(input.native_model()[i as int] == input@[i as int]@);
                    }
                    return Err(e);
                },
            }
            i += 1;
        }
        let size = block.len() as i32;
        let out = CStringArray { data: Some(block), size };
        proof {
            assert(out.restored_model() =~= input.native_model());
        }
        Ok(out)
    }
}

/// A boundary representation of a sequence of arbitrary items whose own
/// boundary representation already satisfies the conversion contract: an
/// owned block of `T` values together with an unsigned element count.
#[derive(Debug)]
pub struct CArray<T> {
    data: Option<Vec<T>>,
    size: usize,
}

impl<T> CArray<T> {
    /// True when the value holds the sentinel "no elements" pointer.
    pub closed spec fn sentinel(&self) -> bool {
        self.data is None
    }

    /// The stored element count.
    pub closed spec fn count(&self) -> usize {
        self.size
    }

    /// The ownership record is consistent: the sentinel exactly when the
    /// count is zero, and otherwise a count that matches the allocation.
    pub closed spec fn wf(&self) -> bool {
        match self.data {
            Option::None => self.size == 0,
            Option::Some(v) => self.size != 0 && v@.len() == self.size as int,
        }
    }

    /// The elements of the ownership record.
    pub closed spec fn elements(&self) -> Seq<T> {
        match self.data {
            Option::None => Seq::empty(),
            Option::Some(v) => v@,
        }
    }

    /// True when the value holds the sentinel "no elements" pointer.
    pub fn is_sentinel(&self) -> (b: bool)
        ensures
            b == self.sentinel(),
    {
        match &self.data {
            None => true,
            Some(_) => false,
        }
    }

    /// The stored element count.
    pub fn size(&self) -> (n: usize)
        ensures
            n == self.count(),
    {
        self.size
    }
}

/// The position of the first element of `m` that `U` cannot represent;
/// `m.len()` when every element is representable.
pub open spec fn first_unconstructible<U: CReprOf<V>, V: NativeValue>(m: Seq<V::Model>) -> int
    decreases m.len(),
{
    if m.len() == 0 {
        0
    } else if !U::constructible(m[0]) {
        0
    } else {
        1 + first_unconstructible::<U, V>(m.drop_first())
    }
}

/// When the elements of `m` before `k` are representable and the one at
/// `k` is not, `k` is the first unrepresentable position.
proof fn lemma_first_unconstructible<U: CReprOf<V>, V: NativeValue>(m: Seq<V::Model>, k: int)
    requires
        0 <= k < m.len(),
        forall|j: int| 0 <= j < k ==> U::constructible(#[trigger] m[j]),
        !U::constructible(m[k]),
    ensures
        first_unconstructible::<U, V>(m) == k,
    decreases k,
{
    if k > 0 {
        assert(forall|j: int|
            0 <= j < k - 1 ==> #[trigger] m.drop_first()[j] == m[j + 1]);
        lemma_first_unconstructible::<U, V>(m.drop_first(), k - 1);
    }
}

impl<T: CDrop> CDrop for CArray<T> {
    /// Released: the block is gone and the count is back to zero.
    open spec fn released(&self) -> bool {
        self.sentinel() && self.count() == 0
    }

    /// Release runs cleanly when the ownership record is consistent and
    /// every nested element releases cleanly; it frees everything either
    /// way, going on past any element that does not.
    open spec fn release_clean(&self) -> bool {
        &&& self.wf()
        &&& forall|i: int|
            0 <= i < self.elements().len() ==> (#[trigger] self.elements()[i]).release_clean()
    }

    fn do_drop(&mut self) -> (r: Result<(), ReleaseError>) {
        let data = self.data.take();
        let mut clean: bool = match &data {
            Option::None => self.size == 0,
            Option::Some(v) => self.size != 0 && v.len() == self.size,
        };
        proof {
            assert(clean <==> old(self).wf());
        }
        if let Some(mut v) = data {
            let ghost orig = v@;
            let ghost structural = clean;
            while v.len() > 0
                invariant
                    v@.len() <= orig.len(),
                    v@ == orig.take(v@.len() as int),
                    clean <==> structural && forall|j: int|
                        v@.len() <= j < orig.len() ==> (#[trigger] orig[j]).release_clean(),
                decreases v@.len(),
            {
                if let Some(mut e) = v.pop() {
                    proof {
                        assert(e == orig[v@.len() as int]);
                        assert(v@ =~= orig.take(v@.len() as int));
                    }
                    if e.do_drop().is_err() {
                        clean = false;
                    }
                }
            }
            proof {
                assert(old(self).elements() == orig);
                assert(clean <==> old(self).release_clean());
            }
        }
        self.size = 0;
        if clean {
            Ok(())
        } else {
            Err(ReleaseError::Malformed)
        }
    }
}

impl<U: AsRust<V>, V: NativeValue> AsRust<Vec<V>> for CArray<U> {
    open spec fn restorable(&self) -> bool {
        &&& self.wf()
        &&& forall|i: int|
            0 <= i < self.elements().len() ==> (#[trigger] self.elements()[i]).restorable()
    }

    open spec fn restored_model(&self) -> Seq<V::Model> {
        self.elements().map_values(|e: U| e.restored_model())
    }

    fn as_rust(&self) -> (r: Result<Vec<V>, RestorationError>) {
        match &self.data {
            None => {
                if self.size == 0 {
                    let out: Vec<V> = Vec::new();
                    proof {
                        assert(out.native_model() =~= self.restored_model());
                    }
                    Ok(out)
                } else {
                    Err(RestorationError::InvalidEncoding)
                }
            },
            Some(v) => {
                if self.size == 0 {
                    return Err(RestorationError::InvalidEncoding);
                }
                if v.len() != self.size {
                    return Err(RestorationError::InvalidEncoding);
                }
                let mut out: Vec<V> = Vec::new();
                let mut i: usize = 0;
                while i < v.len()
                    invariant
                        self.data matches Some(w) && w@ == v@,
                        out@.len() == i,
                        0 <= i <= v@.len(),
                        forall|j: int| 0 <= j < i ==> (#[trigger] v@[j]).restorable(),
                        forall|j: int|
                            0 <= j < i ==> (#[trigger] out@[j]).native_model()
                                == v@[j].restored_model(),
                    decreases v@.len() - i,
                {
                    match v[i].as_rust() {
                        Ok(x) => out.push(x),
                        Err(e) => {
                            proof {
                                assert(self.elements()[i as int] == v@[i as int]);
                            }
                            return Err(e);
                        },
                    }
                    i += 1;
                }
                proof {
                    assert(out.native_model() =~= self.restored_model());
                }
                Ok(out)
            },
        }
    }
}

impl<U: CReprOf<V>, V: NativeValue> CReprOf<Vec<V>> for CArray<U> {
    /// A sequence is representable when each of its elements is.
    open spec fn constructible(m: Seq<V::Model>) -> bool {
        forall|i: int| 0 <= i < m.len() ==> U::constructible(#[trigger] m[i])
    }

    /// The error reported for the first element that is not
    /// representable.
    open spec fn construct_err(m: Seq<V::Model>) -> ConstructionError {
        U::construct_err(m[first_unconstructible::<U, V>(m)])
    }

    #[verifier::loop_isolation(false)]
    fn c_repr_of(input: Vec<V>) -> (r: Result<Self, ConstructionError>) {
        let ghost m = input.native_model();
        if input.len() == 0 {
            let out = CArray::<U> { data: None, size: 0 };
            proof {
                assert(out.restored_model() =~= m);
            }
            return Ok(out);
        }
        let mut input = input;
        let mut block: Vec<U> = Vec::new();
        while input.len() > 0
            invariant
                block@.len() + input@.len() == m.len(),
                forall|j: int|
                    0 <= j < input@.len() ==> (#[trigger] input@[j]).native_model()
                        == m[block@.len() + j],
                forall|j: int|
                    0 <= j < block@.len() ==> U::constructible(#[trigger] m[j]),
                forall|j: int| 0 <= j < block@.len() ==> (#[trigger] block@[j]).restorable(),
                forall|j: int| 0 <= j < block@.len() ==> (#[trigger] block@[j]).release_clean(),
                forall|j: int|
                    0 <= j < block@.len() ==> (#[trigger] block@[j]).restored_model() == m[j],
            decreases input@.len(),
        {
            let v0 = input.remove(0);
            proof {
                assert(v0.native_model() == m[block@.len() as int]);
                assert(forall|j: int|
                    0 <= j < input@.len() ==> #[trigger] input@[j].native_model()
                        == m[block@.len() + 1 + j]);
            }
            match U::c_repr_of(v0) {
                Ok(c) => block.push(c),
                Err(e) => {
                    let ghost k = block@.len() as int;
                    proof {
                        assert(!U::constructible(m[k]));
                        lemma_first_unconstructible::<U, V>(m, k);
                    }
                    // unwind the elements already converted for this call
                    while block.len() > 0
                        decreases block@.len(),
                    {
                        if let Some(mut c) = block.pop() {
                            let _ = c.do_drop();
                        }
                    }
                    return Err(e);
                },
            }
        }
        let size = block.len();
        let out = CArray::<U> { data: Some(block), size };
        proof {
            assert(out.restored_model() =~= m);
        }
        Ok(out)
    }
}

/// A boundary representation of a half-open interval: the two endpoint
/// values inline, with no separate allocation and no ownership record.
///
/// The adapter is a pass-through container: it does not enforce any
/// ordering of `start` and `end` in either direction; a caller that
/// needs `start <= end` must check it itself.
#[derive(Clone, Debug, PartialEq)]
pub struct CRange<T> {
    /// The inclusive lower endpoint.
    pub start: T,
    /// The exclusive upper endpoint.
    pub end: T,
}

impl<T> CDrop for CRange<T> {
    /// A range has no ownership record of its own, so it always counts
    /// as released.  With an endpoint type that owns memory, that memory
    /// belongs to the endpoints and stays owned by them across release.
    open spec fn released(&self) -> bool {
        true
    }

    open spec fn release_clean(&self) -> bool {
        true
    }

    /// Release is a no-op, exposed for uniform handling alongside the
    /// array adapters: it frees nothing and mutates nothing.
    fn do_drop(&mut self) -> (r: Result<(), ReleaseError>)
        ensures
            *final(self) == *old(self),
    {
        Ok(())
    }
}

impl<U: AsRust<V>, V: NativeValue> AsRust<core::ops::Range<V>> for CRange<U> {
    open spec fn restorable(&self) -> bool {
        self.start.restorable() && self.end.restorable()
    }

    open spec fn restored_model(&self) -> (V::Model, V::Model) {
        (self.start.restored_model(), self.end.restored_model())
    }

    fn as_rust(&self) -> (r: Result<core::ops::Range<V>, RestorationError>) {
        let s = match self.start.as_rust() {
            Ok(x) => x,
            Err(e) => return Err(e),
        };
        let e = match self.end.as_rust() {
            Ok(x) => x,
            Err(e) => return Err(e),
        };
        Ok(core::ops::Range { start: s, end: e })
    }
}

impl<U: CReprOf<V>, V: NativeValue> CReprOf<core::ops::Range<V>> for CRange<U> {
    /// A range is representable when both endpoints are; their order
    /// does not matter.
    open spec fn constructible(m: (V::Model, V::Model)) -> bool {
        U::constructible(m.0) && U::constructible(m.1)
    }

    /// The error reported for the first endpoint that is not
    /// representable.
    open spec fn construct_err(m: (V::Model, V::Model)) -> ConstructionError {
        if !U::constructible(m.0) {
            U::construct_err(m.0)
        } else {
            U::construct_err(m.1)
        }
    }

    fn c_repr_of(input: core::ops::Range<V>) -> (r: Result<Self, ConstructionError>) {
        let core::ops::Range { start, end } = input;
        let mut cs = match U::c_repr_of(start) {
            Ok(x) => x,
            Err(e) => return Err(e),
        };
        let ce = match U::c_repr_of(end) {
            Ok(x) => x,
            Err(e) => {
                // unwind the endpoint already constructed for this call
                let _ = cs.do_drop();
                return Err(e);
            },
        };
        Ok(CRange { start: cs, end: ce })
    }
}

/// Empty-sequence identity: a restorable item array whose model is the
/// empty sequence is exactly the sentinel with a zero count, so an empty
/// construction allocates nothing and restoring it reads no element.
pub proof fn lemma_array_empty_is_sentinel<U: AsRust<V>, V: NativeValue>(b: &CArray<U>)
    requires
        b.restorable(),
        b.restored_model().len() == 0,
    ensures
        b.sentinel(),
        b.count() == 0,
{
}

/// For a consistent ownership record the stored count matches the
/// elements: the pointer is the sentinel exactly when the count is zero,
/// and otherwise the block holds as many elements as the count says.
pub proof fn lemma_array_count_matches_elements<T>(b: &CArray<T>)
    requires
        b.wf(),
    ensures
        b.elements().len() == b.count() as int,
        b.sentinel() <==> b.count() == 0,
{
}

/// Empty-sequence identity: a restorable text array whose model is the
/// empty sequence is exactly the sentinel with a zero count, so an empty
/// construction allocates nothing and restoring it reads no element.
pub proof fn lemma_string_array_empty_is_sentinel(b: &CStringArray)
    requires
        b.restorable(),
        b.restored_model().len() == 0,
    ensures
        b.data is None,
        b.size == 0,
{
}

} // verus!
