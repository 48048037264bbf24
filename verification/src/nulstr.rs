//! The text element of boundary values: a terminated byte string.

use vstd::prelude::*;
use vstd::string::StrSliceExecFns;
use vstd::utf8::{decode_utf8, encode_utf8, valid_utf8};

use crate::conversions::{AsRust, CDrop, CReprOf};
use crate::errors::{ConstructionError, ReleaseError, RestorationError};

verus! {

/// One text element of a boundary value: the bytes of a UTF-8 text
/// followed by a single terminator byte, with no terminator inside.
///
/// The field is public because the far side of the boundary may hand back
/// arbitrary bytes; reading such a value goes through `as_rust`, which
/// checks them.
#[derive(Debug)]
pub struct CNulString {
    /// The owned allocation: content bytes plus the trailing terminator.
    pub bytes: Vec<u8>,
}

impl CNulString {
    /// A well-formed terminated string: nonempty, ends with the
    /// terminator, and has no terminator among the content bytes.
    pub open spec fn wf(&self) -> bool {
        &&& self.bytes@.len() >= 1
        &&& self.bytes@.last() == 0u8
        &&& forall|i: int| 0 <= i < self.bytes@.len() - 1 ==> self.bytes@[i] != 0u8
    }

    /// The content bytes, without the trailing terminator.
    pub open spec fn content(&self) -> Seq<u8> {
        self.bytes@.take(self.bytes@.len() - 1)
    }
}

/// Relies on `String::from_utf8`: it succeeds exactly on valid UTF-8
/// input and returns the text those bytes encode.
#[verifier::external_body]
fn string_from_utf8(bytes: Vec<u8>) -> (r: Option<String>)
    ensures
        r is Some <==> valid_utf8(bytes@),
        r matches Some(s) ==> s@ == decode_utf8(bytes@),
{
    String::from_utf8(bytes).ok()
}

impl CDrop for CNulString {
    /// The string owns nothing once its allocation is empty.
    open spec fn released(&self) -> bool {
        self.bytes@.len() == 0
    }

    open spec fn release_clean(&self) -> bool {
        true
    }

    fn do_drop(&mut self) -> (r: Result<(), ReleaseError>) {
        self.bytes = Vec::new();
        Ok(())
    }
}

impl AsRust<String> for CNulString {
    open spec fn restorable(&self) -> bool {
        self.wf() && valid_utf8(self.content())
    }

    open spec fn restored_model(&self) -> Seq<char> {
        decode_utf8(self.content())
    }

    fn as_rust(&self) -> (r: Result<String, RestorationError>) {
        let n = self.bytes.len();
        if n == 0 {
            return Err(RestorationError::InvalidEncoding);
        }
        if self.bytes[n - 1] != 0 {
            return Err(RestorationError::InvalidEncoding);
        }
        let mut content: Vec<u8> = Vec::new();
        let mut i: usize = 0;
        while i < n - 1
            invariant
                n == self.bytes@.len(),
                n >= 1,
                self.bytes@.last() == 0u8,
                0 <= i <= n - 1,
                content@ == self.bytes@.take(i as int),
                forall|j: int| 0 <= j < i ==> self.bytes@[j] != 0u8,
            decreases n - 1 - i,
        {
            let b = self.bytes[i];
            if b == 0 {
                return Err(RestorationError::InvalidEncoding);
            }
            content.push(b);
            proof {
                assert(content@ =~= self.bytes@.take(i + 1));
            }
            i += 1;
        }
        proof {
            assert(content@ =~= self.content());
        }
        match string_from_utf8(content) {
            Some(s) => Ok(s),
            None => Err(RestorationError::InvalidEncoding),
        }
    }
}

impl CReprOf<String> for CNulString {
    /// A text is representable when its encoding has no terminator byte.
    open spec fn constructible(m: Seq<char>) -> bool {
        !encode_utf8(m).contains(0u8)
    }

    fn c_repr_of(input: String) -> (r: Result<Self, ConstructionError>) {
        broadcast use vstd::utf8::encode_utf8_valid_utf8, vstd::utf8::encode_utf8_decode_utf8;

        let mut bytes = input.as_str().as_bytes_vec();
        let n = bytes.len();
        let mut i: usize = 0;
        while i < n
            invariant
                n == bytes@.len(),
                bytes@ == encode_utf8(input@),
                0 <= i <= n,
                forall|j: int| 0 <= j < i ==> bytes@[j] != 0u8,
            decreases n - i,
        {
            if bytes[i] == 0 {
                proof {
                    assert(encode_utf8(input@).contains(0u8)) by {
                        assert(encode_utf8(input@)[i as int] == 0u8);
                    }
                }
                return Err(ConstructionError::InvalidText);
            }
            i += 1;
        }
        bytes.push(0);
        let out = CNulString { bytes };
        proof {
            assert(out.content() =~= encode_utf8(input@));
        }
        Ok(out)
    }
}

} // verus!
