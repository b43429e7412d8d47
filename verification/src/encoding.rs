//! Postcard wire encoding of the values the library frames: length-prefixed
//! byte strings, byte strings followed by a fixed nonce, and enum tags.

use vstd::prelude::*;

verus! {

/// Postcard's unsigned LEB128 varint: seven bits per byte, least significant
/// group first, the high bit set on every byte but the last.
pub open spec fn varint(n: nat) -> Seq<u8>
    decreases n,
{
    if n < 128 {
        seq![n as u8]
    } else {
        seq![((n % 128) + 128) as u8] + varint(n / 128)
    }
}

/// Postcard's encoding of a byte sequence: its length as a varint, then the bytes.
pub open spec fn postcard_bytes(data: Seq<u8>) -> Seq<u8> {
    varint(data.len()) + data
}

/// Errors of the wire codec.
#[derive(Debug, Clone, Copy, PartialEq, Eq)]
pub enum CodecError {
    /// The bytes are not an encoding of a value of the expected type.
    Malformed,
}

/// Writes a byte sequence as postcard does: its length as a varint, then the
/// bytes.
pub(crate) fn postcard_encode_bytes(data: &[u8]) -> (r: Vec<u8>)
    ensures
        r@ == postcard_bytes(data@),
{
    let length = postcard_encode_u128(data.len() as u128);
    concat(length.as_slice(), data)
}

/// `postcard::from_bytes::<Vec<u8>>`. The contract claims only that the exact
/// encoding of a byte sequence decodes back to that sequence; what postcard
/// returns on other inputs (non-canonical varints, trailing bytes, short
/// input) is left unsaid.
#[verifier::external_body]
pub(crate) fn postcard_decode_bytes(data: &[u8]) -> (r: Option<Vec<u8>>)
    ensures
        forall|v: Seq<u8>| #[trigger] postcard_bytes(v) == data@ ==> r.is_some() && r.unwrap()@ == v,
{
    postcard::from_bytes::<Vec<u8>>(data).ok()
}

/// Writes a `u32` as postcard does: as its varint (also the form of an enum
/// variant's index).
pub(crate) fn postcard_encode_u32(value: u32) -> (r: Vec<u8>)
    ensures
        r@ == varint(value as nat),
{
    postcard_encode_u128(value as u128)
}

/// `postcard::take_from_bytes::<u32>`: the decoded value and the length of
/// the bytes it left. The contract claims only that a buffer starting with the
/// varint of a `u32` yields that value and leaves the rest; other outcomes are
/// left unsaid beyond the rest being part of the buffer.
#[verifier::external_body]
fn postcard_take_u32_rest(data: &[u8]) -> (r: Option<(u32, usize)>)
    ensures
        r matches Some(p) ==> p.1 <= data@.len(),
        forall|n: u32, rest: Seq<u8>| #[trigger] (varint(n as nat) + rest) == data@
            ==> r == Some((n, rest.len() as usize)),
{
    match postcard::take_from_bytes::<u32>(data) {
        Ok((value, rest)) => Some((value, rest.len())),
        Err(_) => None,
    }
}

/// Reads a `u32` varint from the front of a buffer: the value and how many
/// bytes it took.
pub(crate) fn postcard_take_u32(data: &[u8]) -> (r: Option<(u32, usize)>)
    ensures
        r matches Some(p) ==> p.1 <= data@.len(),
        forall|n: u32, rest: Seq<u8>| #[trigger] (varint(n as nat) + rest) == data@
            ==> r == Some((n, varint(n as nat).len() as usize)),
{
    match postcard_take_u32_rest(data) {
        Some((value, rest)) => Some((value, data.len() - rest)),
        None => None,
    }
}

/// Writes a `u128` as postcard does: as its varint, seven bits per byte.
pub(crate) fn postcard_encode_u128(value: u128) -> (r: Vec<u8>)
    ensures
        r@ == varint(value as nat),
    decreases value,
{
    if value < 128 {
        let mut out: Vec<u8> = Vec::new();
        out.push(value as u8);
        assert(out@ =~= varint(value as nat));
        out
    } else {
        let rest = postcard_encode_u128(value / 128);
        let low: u8 = ((value % 128) + 128) as u8;
        let mut out: Vec<u8> = Vec::new();
        out.push(low);
        assert(out@ =~= seq![((value as nat % 128) + 128) as u8]);
        concat(out.as_slice(), rest.as_slice())
    }
}

/// `postcard::take_from_bytes::<u128>`: the decoded value and the length of
/// the bytes it left. The contract claims only that a buffer starting with the
/// varint of a `u128` yields that value and leaves the rest; other outcomes
/// are left unsaid beyond the rest being part of the buffer.
#[verifier::external_body]
fn postcard_take_u128_rest(data: &[u8]) -> (r: Option<(u128, usize)>)
    ensures
        r is Some ==> r.unwrap().1 <= data@.len(),
        forall|n: u128, rest: Seq<u8>| #[trigger] (varint(n as nat) + rest) == data@
            ==> r == Some((n, rest.len() as usize)),
{
    match postcard::take_from_bytes::<u128>(data) {
        Ok((value, rest)) => Some((value, rest.len())),
        Err(_) => None,
    }
}

/// Reads a `u128` varint from the front of a buffer: the value and how many
/// bytes it took.
pub(crate) fn postcard_take_u128(data: &[u8]) -> (r: Option<(u128, usize)>)
    ensures
        r is Some ==> r.unwrap().1 <= data@.len(),
        forall|n: u128, rest: Seq<u8>| #[trigger] (varint(n as nat) + rest) == data@
            ==> r == Some((n, varint(n as nat).len() as usize)),
{
    match postcard_take_u128_rest(data) {
        Some((value, rest)) => Some((value, data.len() - rest)),
        None => None,
    }
}

/// `postcard::take_from_bytes::<Vec<u8>>`: a length-prefixed byte string and
/// the length of the bytes it left. The contract claims only that a buffer
/// starting with the encoding of a byte string yields it and leaves the rest;
/// other outcomes are left unsaid beyond the rest being part of the buffer.
#[verifier::external_body]
fn postcard_take_bytes_rest(data: &[u8]) -> (r: Option<(Vec<u8>, usize)>)
    ensures
        r is Some ==> r.unwrap().1 <= data@.len(),
        forall|v: Seq<u8>, rest: Seq<u8>| #[trigger] (postcard_bytes(v) + rest) == data@
            ==> r is Some && r.unwrap().0@ == v && r.unwrap().1 == rest.len(),
{
    match postcard::take_from_bytes::<Vec<u8>>(data) {
        Ok((value, rest)) => Some((value, rest.len())),
        Err(_) => None,
    }
}

/// Reads a length-prefixed byte string from the front of a buffer: the bytes
/// and how many bytes the encoding took.
pub(crate) fn postcard_take_bytes(data: &[u8]) -> (r: Option<(Vec<u8>, usize)>)
    ensures
        r is Some ==> r.unwrap().1 <= data@.len(),
        forall|v: Seq<u8>, rest: Seq<u8>| #[trigger] (postcard_bytes(v) + rest) == data@
            ==> r is Some && r.unwrap().0@ == v && r.unwrap().1 == postcard_bytes(v).len(),
{
    match postcard_take_bytes_rest(data) {
        Some((value, rest)) => Some((value, data.len() - rest)),
        None => None,
    }
}

/// A value that can be read from the front of a buffer.
pub trait Prefixed: Encode + Sized {
    /// The views that values of the type can have.
    spec fn valid(v: Self::V) -> bool;

    /// Reads a value from the front of `data`, with the number of bytes it
    /// took. A buffer that starts with the encoding of a valid view yields it.
    fn take_from(data: &[u8]) -> (r: Option<(Self, usize)>)
        ensures
            r matches Some(p) ==> p.1 <= data@.len(),
            forall|v: Self::V, rest: Seq<u8>| Self::valid(v) && #[trigger] (Self::spec_encode(v) + rest) == data@
                ==> (r matches Some(p) && p.0@ == v && p.1 == Self::spec_encode(v).len()),
    ;
}

/// The concatenation of two byte strings.
pub fn concat(a: &[u8], b: &[u8]) -> (r: Vec<u8>)
    ensures
        r@ == a@ + b@,
{
    let mut out: Vec<u8> = Vec::new();
    let mut i: usize = 0;
    while i < a.len()
        invariant
            i <= a@.len(),
            out@ == a@.subrange(0, i as int),
        decreases a@.len() - i,
    {
        out.push(a[i]);
        i = i + 1;
    }
    let mut j: usize = 0;
    while j < b.len()
        invariant
            i == a@.len(),
            j <= b@.len(),
            out@ == a@ + b@.subrange(0, j as int),
        decreases b@.len() - j,
    {
        out.push(b[j]);
        j = j + 1;
    }
    assert(a@.subrange(0, a@.len() as int) =~= a@);
    assert(b@.subrange(0, b@.len() as int) =~= b@);
    out
}

/// A varint is at most one byte longer than the number it writes.
pub proof fn lemma_varint_len_bound(n: nat)
    ensures
        varint(n).len() <= n + 1,
    decreases n,
{
    if n >= 128 {
        lemma_varint_len_bound(n / 128);
    }
}

/// A varint is never empty.
pub proof fn lemma_varint_nonempty(n: nat)
    ensures
        varint(n).len() >= 1,
    decreases n,
{
    if n >= 128 {
        lemma_varint_nonempty(n / 128);
    }
}

/// A value with a fixed wire encoding.
pub trait Encode: View {
    /// The bytes that encode a value with the given view.
    spec fn spec_encode(v: Self::V) -> Seq<u8>;

    /// Encodes the value.
    fn encode(&self) -> (r: Vec<u8>)
        ensures
            r@ == Self::spec_encode(self@),
    ;
}

/// A value that can be read back from its wire encoding.
pub trait Decode: Encode + Sized {
    /// Decodes a value: the exact encoding of a value decodes to it, and
    /// nothing else decodes.
    fn decode(data: &[u8]) -> (r: Result<Self, CodecError>)
        ensures
            forall|v: Self::V| #[trigger] Self::spec_encode(v) == data@ ==> (r matches Ok(w) && w@ == v),
            r matches Ok(w) ==> Self::spec_encode(w@) == data@,
    ;
}

/// Keeps a value read from `data` only when `data` is exactly its encoding:
/// bytes that postcard reads leniently (non-canonical varints, trailing
/// bytes, nonzero padding) are refused.
pub fn canonical<T: Encode>(value: T, data: &[u8]) -> (r: Result<T, CodecError>)
    ensures
        T::spec_encode(value@) == data@ ==> (r matches Ok(w) && w == value),
        r matches Ok(w) ==> w == value && T::spec_encode(value@) == data@,
{
    let encoded = value.encode();
    if crate::hash::bytes_equal(encoded.as_slice(), data) {
        Ok(value)
    } else {
        Err(CodecError::Malformed)
    }
}

/// A pair is written as its first element followed by its second.
impl<A: Encode, B: Encode> Encode for (A, B) {
    open spec fn spec_encode(v: (A::V, B::V)) -> Seq<u8> {
        A::spec_encode(v.0) + B::spec_encode(v.1)
    }

    fn encode(&self) -> (r: Vec<u8>) {
        let a = self.0.encode();
        let b = self.1.encode();
        concat(a.as_slice(), b.as_slice())
    }
}

/// A copy of a byte vector.
pub fn copy_bytes(v: &Vec<u8>) -> (r: Vec<u8>)
    ensures
        r@ == v@,
{
    let r = v.clone();
    assert(r@ =~= v@);
    r
}

impl Encode for Vec<u8> {
    open spec fn spec_encode(v: Seq<u8>) -> Seq<u8> {
        postcard_bytes(v)
    }

    fn encode(&self) -> (r: Vec<u8>) {
        postcard_encode_bytes(self.as_slice())
    }
}

impl Decode for Vec<u8> {
    fn decode(data: &[u8]) -> (r: Result<Self, CodecError>) {
        match postcard_decode_bytes(data) {
            Some(v) => canonical(v, data),
            None => Err(CodecError::Malformed),
        }
    }
}

/// The number that little-endian base-128 digits spell, ignoring each
/// byte's continuation bit.
pub open spec fn base128_value(s: Seq<u8>) -> nat
    decreases s.len(),
{
    if s.len() == 0 {
        0
    } else {
        (s[0] % 128) as nat + 128 * base128_value(s.drop_first())
    }
}

/// A varint is unsigned LEB128: its bytes are the base-128 digits of the
/// number, least significant first, and every byte but the last has its high
/// bit set.
pub proof fn lemma_varint_is_leb128(n: nat)
    ensures
        varint(n).len() >= 1,
        base128_value(varint(n)) == n,
        forall|i: int| 0 <= i < varint(n).len() - 1 ==> #[trigger] varint(n)[i] >= 128,
        varint(n)[varint(n).len() - 1] < 128,
    decreases n,
{
    if n < 128 {
        assert(varint(n) =~= seq![n as u8]);
        assert(seq![n as u8].drop_first() =~= Seq::<u8>::empty());
        assert(base128_value(seq![n as u8]) == (n as u8 % 128) as nat + 128 * base128_value(Seq::<u8>::empty()));
    } else {
        lemma_varint_is_leb128(n / 128);
        let first: u8 = ((n % 128) + 128) as u8;
        let v = varint(n);
        assert(v == seq![first] + varint(n / 128));
        assert(v.drop_first() =~= varint(n / 128));
        assert(v[0] == first);
        assert((first % 128) as nat == n % 128);
        assert(n == n % 128 + 128 * (n / 128)) by (nonlinear_arith);
        assert forall|i: int| 0 <= i < v.len() - 1 implies #[trigger] v[i] >= 128 by {
            if i > 0 {
                assert(v[i] == varint(n / 128)[i - 1]);
            }
        }
        assert(v[v.len() - 1] == varint(n / 128)[varint(n / 128).len() - 1]);
    }
}

} // verus!
