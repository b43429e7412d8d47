//! FlexBuffers serialization of values, as the `Data` helper performs it.

use vstd::prelude::*;
use crate::error::Error;

verus! {

/// The FlexBuffer that `flexbuffers::to_vec` produces for a byte vector.
pub uninterp spec fn flexbuffers_bytes(data: Seq<u8>) -> Seq<u8>;

/// What `flexbuffers::from_slice::<Vec<u8>>` returns for a buffer: `None`
/// where it reports an error.
pub uninterp spec fn flexbuffers_read_bytes(buffer: Seq<u8>) -> Option<Seq<u8>>;

/// `flexbuffers::to_vec` on a byte vector. The output is a function of the
/// input, and serde's deserializer reads back what the serializer wrote.
#[verifier::external_body]
fn flexbuffers_to_vec(data: &Vec<u8>) -> (r: Vec<u8>)
    ensures
        r@ == flexbuffers_bytes(data@),
        flexbuffers_read_bytes(r@) == Some(data@),
{
    flexbuffers::to_vec(data).unwrap()
}

/// `flexbuffers::from_slice::<Vec<u8>>`, its error mapped to `None`.
#[verifier::external_body]
fn flexbuffers_from_slice(buffer: &[u8]) -> (r: Option<Vec<u8>>)
    ensures
        r is Some <==> flexbuffers_read_bytes(buffer@) is Some,
        r is Some ==> flexbuffers_read_bytes(buffer@) == Some(r.unwrap()@),
{
    flexbuffers::from_slice::<Vec<u8>>(buffer).ok()
}

/// A value that `Data` can turn into a FlexBuffer and back.
pub trait Serial: View + Sized {
    /// The FlexBuffer of a value with the given view.
    spec fn spec_serialize(v: Self::V) -> Seq<u8>;

    /// The value that a buffer deserializes to, if any.
    spec fn spec_deserialize(buffer: Seq<u8>) -> Option<Self::V>;

    /// Serializes the value; the result deserializes back to it.
    fn to_flexbuffer(&self) -> (r: Vec<u8>)
        ensures
            r@ == Self::spec_serialize(self@),
            Self::spec_deserialize(r@) == Some(self@),
    ;

    /// Deserializes a value from a buffer.
    fn from_flexbuffer(buffer: &[u8]) -> (r: Option<Self>)
        ensures
            r is Some <==> Self::spec_deserialize(buffer@) is Some,
            r is Some ==> Self::spec_deserialize(buffer@) == Some(r.unwrap()@),
    ;
}

impl Serial for Vec<u8> {
    open spec fn spec_serialize(v: Seq<u8>) -> Seq<u8> {
        flexbuffers_bytes(v)
    }

    open spec fn spec_deserialize(buffer: Seq<u8>) -> Option<Seq<u8>> {
        flexbuffers_read_bytes(buffer)
    }

    fn to_flexbuffer(&self) -> (r: Vec<u8>) {
        flexbuffers_to_vec(self)
    }

    fn from_flexbuffer(buffer: &[u8]) -> (r: Option<Self>) {
        flexbuffers_from_slice(buffer)
    }
}

/// Serialization helpers.
pub struct Data();

impl Data {
    /// Serializes a value into a FlexBuffer.
    pub fn serialize<T: Serial>(data: &T) -> (r: Result<Vec<u8>, Error>)
        ensures
            r matches Ok(b) && b@ == T::spec_serialize(data@),
            r matches Ok(b) && T::spec_deserialize(b@) == Some(data@),
    {
        Ok(data.to_flexbuffer())
    }

    /// Deserializes a value from a FlexBuffer ("Unable to deserialize payload").
    pub fn deserialize<T: Serial>(data: &Vec<u8>) -> (r: Result<T, Error>)
        ensures
            T::spec_deserialize(data@) is None ==> r == Err::<T, Error>(Error::Malformed),
            T::spec_deserialize(data@) is Some ==> (r matches Ok(w) && Some(w@) == T::spec_deserialize(data@)),
    {
        match T::from_flexbuffer(data.as_slice()) {
            Some(v) => Ok(v),
            None => Err(Error::Malformed),
        }
    }
}

} // verus!
