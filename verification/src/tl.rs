//! The Type Language binary codec and the handful of schema types the
//! protocol layers need.

use vstd::prelude::*;

pub mod wire;
pub mod deserialize;
pub mod enums;
pub mod functions;
pub mod serialize;
pub mod types;
pub mod roundtrip;

pub use deserialize::{Cursor, Deserializable};
pub use serialize::Serializable;

verus! {

/// Bare vector: a count followed by the items, without the boxed vector's
/// leading constructor ID.
#[derive(Clone, Debug, PartialEq)]
pub struct RawVec<T>(pub Vec<T>);

impl<T: DeepView> DeepView for RawVec<T> {
    type V = Seq<T::V>;

    open spec fn deep_view(&self) -> Seq<T::V> {
        self.0.deep_view()
    }
}

/// Opaque bytes passed through without interpretation.
#[derive(Clone, Debug, PartialEq)]
pub struct Blob(pub Vec<u8>);

impl View for Blob {
    type V = Seq<u8>;

    open spec fn view(&self) -> Seq<u8> {
        self.0@
    }
}

impl Blob {
    /// Wraps a byte vector.
    pub fn from(v: Vec<u8>) -> (b: Blob)
        ensures
            b@ == v@,
    {
        Blob(v)
    }
}

/// A type with a 32-bit constructor ID.
pub trait Identifiable {
    /// The constructor ID.
    spec fn spec_constructor_id() -> u32;

    /// Returns the constructor ID.
    fn constructor_id() -> (id: u32)
        ensures
            id == Self::spec_constructor_id(),
    ;
}

/// A request that can be sent as a remote procedure call; `Return` is the
/// type of the answer.
pub trait RemoteCall: Serializable {
    type Return: Deserializable;
}

} // verus!
