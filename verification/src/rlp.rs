//! Recursive Length Prefix serialization.
//!
//! An [`types::RLP`] value is either a byte string (`RLPItem`) or a list of
//! values (`RLPList`).  [`encoder::Encoder`] turns it into bytes and
//! [`decoder::Decoder`] turns bytes back into it; [`RLPSerialize`] lets a
//! struct say how it is written as an `RLP` value.

pub mod defines;
pub mod types;
pub mod model;
pub mod laws;
pub mod decoder;
pub mod encoder;

use vstd::prelude::*;
use vstd::utf8::{encode_utf8, valid_utf8};
use crate::rlp::types::{item_bytes, RLPError, RlpTree, RLP};
use vstd::std_specs::convert::{FromSpec, IntoSpec};

verus! {

/// This trait allows a struct to be serialized to [`RLP`] form and read
/// back from it.
pub trait RLPSerialize: Sized {
    fn serialize(&self) -> Result<RLP, RLPError>;

    fn deserialize(rlp: &RLP) -> Result<Self, RLPError>;
}

/// `x` is the conversion of `c`, a copy of `rlp`.
pub open spec fn converted_from<T: From<RLP>>(x: T, c: RLP, rlp: RLP) -> bool {
    &&& c@ == rlp@
    &&& <T as FromSpec<RLP>>::obeys_from_spec() ==> x == <T as FromSpec<RLP>>::from_spec(c)
}

impl<T> RLPSerialize for T where T: Into<RLP> + From<RLP> + Clone {
    /// Serialize an object to [`RLP`] through its conversion: the
    /// conversion of a clone of the object.
    fn serialize(&self) -> (r: Result<RLP, RLPError>)
        ensures
            r matches Ok(x) && exists|c: T| #[trigger] cloned::<T>(*self, c)
                && (<T as IntoSpec<RLP>>::obeys_into_spec() ==> x == <T as IntoSpec<RLP>>::into_spec(c)),
    {
        let c = self.clone();
        let ghost cg = c;
        let x: RLP = c.into();
        assert(cloned::<T>(*self, cg));
        Ok(x)
    }

    /// Deserialize [`RLP`] to an object through its conversion: the
    /// conversion of a copy of the value.
    fn deserialize(rlp: &RLP) -> (r: Result<Self, RLPError>)
        ensures
            r matches Ok(x) && exists|c: RLP| #[trigger] converted_from(x, c, *rlp),
    {
        let c = rlp.clone();
        let ghost cg = c;
        let x = T::from(c);
        assert(converted_from(x, cg, *rlp));
        let r: Result<Self, RLPError> = Ok(x);
        assert(r matches Ok(y) && converted_from(y, cg, *rlp));
        r
    }
}

impl RLPSerialize for String {
    /// The UTF-8 bytes of the string, as a byte string.
    fn serialize(&self) -> (r: Result<RLP, RLPError>)
        ensures
            r matches Ok(x) && x@ == RlpTree::Item(encode_utf8(self@)),
    {
        Ok(RLP::from_string(self.clone()))
    }

    /// The text of a byte string; `RLPErrorType` for a list or `RLPEmpty`,
    /// `RLPErrorUTF8` for bytes that are not UTF-8.
    fn deserialize(rlp: &RLP) -> (r: Result<Self, RLPError>)
        ensures
            match item_bytes(rlp@) {
                Some(b) => if valid_utf8(b) {
                    r matches Ok(s) && encode_utf8(s@) == b
                } else {
                    r matches Err(RLPError::RLPErrorUTF8)
                },
                None => r matches Err(RLPError::RLPErrorType),
            },
    {
        if let RLP::RLPItem(_) = rlp {
            match rlp.to_text() {
                Some(s) => Ok(s),
                None => Err(RLPError::RLPErrorUTF8),
            }
        } else {
            Err(RLPError::RLPErrorType)
        }
    }
}

} // verus!
