//! Protocol signals and subsignals.

use vstd::prelude::*;
use crate::checksum::Checksumed;
use crate::compress::Compressed;
use crate::crypt::{chacha20_keystream, Crypt, KEYSTREAM_LIMIT, lemma_crypt_roundtrip};
use crate::encoding::{
    canonical, concat, lemma_varint_nonempty, postcard_bytes, postcard_decode_bytes, postcard_encode_bytes,
    postcard_encode_u32, postcard_take_u32, varint, CodecError, Decode, Encode,
};
use crate::error::Error;
use crate::hash::{blake3_derive_key, derive_key, u128_be_bytes};

verus! {

/// The height of a subsignal: its position in one direction of a connection.
pub type SubsignalHeight = u128;

/// Protocol's signal's error.
#[derive(Debug, Clone, Copy, PartialEq, Eq, Structural)]
pub enum SignalError {
    /// When the handshake fails ("Handshake failed").
    HandshakeFailed,
    /// When sending malformed signals ("Malformed signal").
    Malformed,
}

/// Protocol's subsignal's error.
#[derive(Debug, Clone, Copy, PartialEq, Eq, Structural)]
pub enum SubsignalError {
    /// When the peer is trying to handshake multiple times ("Already handshaked").
    AlreadyHandshaked,
    /// When sending subsignals that cannot be fulfilled ("Invalid subsignal").
    Invalid,
    /// When the checksum isn't valid ("Bad checksum").
    BadChecksum,
}

impl SubsignalError {
    /// The index of the variant on the wire.
    pub open spec fn index(self) -> u32 {
        match self {
            SubsignalError::AlreadyHandshaked => 0,
            SubsignalError::Invalid => 1,
            SubsignalError::BadChecksum => 2,
        }
    }

    fn wire_index(&self) -> (r: u32)
        ensures
            r == self.index(),
    {
        match self {
            SubsignalError::AlreadyHandshaked => 0,
            SubsignalError::Invalid => 1,
            SubsignalError::BadChecksum => 2,
        }
    }

    fn from_index(i: u32) -> (r: Option<SubsignalError>)
        ensures
            r matches Some(e) ==> e.index() == i,
            i < 3 ==> r is Some,
    {
        if i == 0 {
            Some(SubsignalError::AlreadyHandshaked)
        } else if i == 1 {
            Some(SubsignalError::Invalid)
        } else if i == 2 {
            Some(SubsignalError::BadChecksum)
        } else {
            None
        }
    }
}

/// The model of a subsignal.
pub enum SubsignalModel {
    Content(Seq<u8>),
    Error(SubsignalError),
    Disconnect,
}

/// Protocol's encrypted signals.
pub enum Subsignal {
    /// For sending data (compressed).
    Content(Compressed),
    /// For reporting errors.
    Error(SubsignalError),
    /// For reporting that the peer will disconnect.
    Disconnect,
}

impl View for Subsignal {
    type V = SubsignalModel;

    open spec fn view(&self) -> SubsignalModel {
        match self {
            Subsignal::Content(c) => SubsignalModel::Content(c@),
            Subsignal::Error(e) => SubsignalModel::Error(*e),
            Subsignal::Disconnect => SubsignalModel::Disconnect,
        }
    }
}

impl Subsignal {
    /// The index of the subsignal's variant on the wire.
    pub open spec fn tag_of(v: SubsignalModel) -> u32 {
        match v {
            SubsignalModel::Content(_) => 0,
            SubsignalModel::Error(_) => 1,
            SubsignalModel::Disconnect => 2,
        }
    }

    /// The bytes that follow the variant index.
    pub open spec fn body_of(v: SubsignalModel) -> Seq<u8> {
        match v {
            SubsignalModel::Content(c) => postcard_bytes(c),
            SubsignalModel::Error(e) => varint(e.index() as nat),
            SubsignalModel::Disconnect => Seq::empty(),
        }
    }
}

impl Encode for Subsignal {
    /// The variant index as a varint, then the variant's content.
    open spec fn spec_encode(v: SubsignalModel) -> Seq<u8> {
        varint(Self::tag_of(v) as nat) + Self::body_of(v)
    }

    fn encode(&self) -> (r: Vec<u8>) {
        match self {
            Subsignal::Content(c) => {
                let tag = postcard_encode_u32(0);
                let body = postcard_encode_bytes(c.0.as_slice());
                concat(tag.as_slice(), body.as_slice())
            },
            Subsignal::Error(e) => {
                let tag = postcard_encode_u32(1);
                let body = postcard_encode_u32(e.wire_index());
                concat(tag.as_slice(), body.as_slice())
            },
            Subsignal::Disconnect => {
                let r = postcard_encode_u32(2);
                assert(r@ =~= varint(2nat) + Seq::<u8>::empty());
                r
            },
        }
    }
}

impl Decode for Subsignal {
    fn decode(data: &[u8]) -> (r: Result<Self, CodecError>) {
        match Self::read(data) {
            Ok(s) => canonical(s, data),
            Err(e) => Err(e),
        }
    }
}

impl Subsignal {
    /// Reads a subsignal as postcard does; the exact encoding of a subsignal
    /// reads back as it.
    fn read(data: &[u8]) -> (r: Result<Self, CodecError>)
        ensures
            forall|v: SubsignalModel| #[trigger] Self::spec_encode(v) == data@ ==> (r matches Ok(w) && w@ == v),
    {
        let taken = postcard_take_u32(data);
        if taken.is_none() {
            proof {
                assert forall|v: SubsignalModel| #[trigger] Self::spec_encode(v) == data@ implies false by {
                    assert((varint(Self::tag_of(v) as nat) + Self::body_of(v)) == data@);
                }
            }
            return Err(CodecError::Malformed);
        }
        let (tag, used) = taken.unwrap();
        let rest = vstd::slice::slice_subrange(data, used, data.len());
        proof {
            assert forall|v: SubsignalModel| #[trigger] Self::spec_encode(v) == data@
                implies Self::tag_of(v) == tag && rest@ == Self::body_of(v) by {
                let t = Self::tag_of(v);
                assert((varint(t as nat) + Self::body_of(v)) == data@);
                assert(rest@ =~= Self::body_of(v));
            }
        }
        if tag == 0 {
            match postcard_decode_bytes(rest) {
                Some(bytes) => Ok(Subsignal::Content(Compressed(bytes))),
                None => Err(CodecError::Malformed),
            }
        } else if tag == 1 {
            let inner = postcard_take_u32(rest);
            if inner.is_none() {
                proof {
                    assert forall|v: SubsignalModel| #[trigger] Self::spec_encode(v) == data@ implies false by {
                        if let SubsignalModel::Error(e) = v {
                            assert((varint(e.index() as nat) + Seq::<u8>::empty()) == rest@);
                        }
                    }
                }
                return Err(CodecError::Malformed);
            }
            let (index, _) = inner.unwrap();
            proof {
                assert forall|v: SubsignalModel| #[trigger] Self::spec_encode(v) == data@
                    implies v == SubsignalModel::Error(SubsignalModel::error_of(v)) && SubsignalModel::error_of(v).index() == index by {
                    if let SubsignalModel::Error(e) = v {
                        assert((varint(e.index() as nat) + Seq::<u8>::empty()) == rest@);
                    }
                }
            }
            match SubsignalError::from_index(index) {
                Some(e) => {
                    proof {
                        assert forall|v: SubsignalModel| #[trigger] Self::spec_encode(v) == data@
                            implies v == SubsignalModel::Error(e) by {
                            SubsignalError::lemma_index_injective(SubsignalModel::error_of(v), e);
                        }
                    }
                    Ok(Subsignal::Error(e))
                },
                None => {
                    proof {
                        assert forall|v: SubsignalModel| #[trigger] Self::spec_encode(v) == data@ implies false by {
                            SubsignalError::lemma_index_small(SubsignalModel::error_of(v));
                        }
                    }
                    Err(CodecError::Malformed)
                },
            }
        } else if tag == 2 {
            Ok(Subsignal::Disconnect)
        } else {
            Err(CodecError::Malformed)
        }
    }
}

impl SubsignalModel {
    /// The error a model carries, if it is an error.
    pub open spec fn error_of(v: SubsignalModel) -> SubsignalError {
        match v {
            SubsignalModel::Error(e) => e,
            _ => SubsignalError::Invalid,
        }
    }
}

impl SubsignalError {
    proof fn lemma_index_injective(a: SubsignalError, b: SubsignalError)
        requires
            a.index() == b.index(),
        ensures
            a == b,
    {
    }

    proof fn lemma_index_small(a: SubsignalError)
        ensures
            a.index() < 3,
    {
    }
}

/// The context string of the key derivation that protects subsignals.
pub const SUBSIGNAL_CRYPT_CTX: &'static str = "nearssage_protocol Subsignal Crypt Key";

/// The sixteen big-endian bytes of a height.
pub open spec fn be_bytes(h: u128) -> Seq<u8> {
    Seq::new(16, |i: int| ((h >> ((8 * (15 - i)) as u128)) & 0xff) as u8)
}

/// The key that encrypts the subsignal of height `h` under a shared secret:
/// BLAKE3's key derivation over the secret followed by the height's bytes.
pub open spec fn subsignal_key(secret: Seq<u8>, h: u128) -> Seq<u8> {
    blake3_derive_key(SUBSIGNAL_CRYPT_CTX@, secret + be_bytes(h))
}

/// Derives the key of the subsignal of height `h`.
pub fn derive_subsignal_key(secret: &[u8], h: u128) -> (r: [u8; 32])
    ensures
        r@ == subsignal_key(secret@, h),
{
    let be = u128_be_bytes(h);
    assert(be@ =~= be_bytes(h));
    let material = concat(secret, &be);
    derive_key(SUBSIGNAL_CRYPT_CTX, material.as_slice())
}

/// Protocol's signals. `T` is what a handshake carries.
pub enum Signal<T: Encode> {
    /// For agreeing on a shared secret between the client and the server.
    Handshake(Checksumed<T>),
    /// For sending encrypted data.
    Subsignal(SubsignalHeight, Checksumed<Crypt<Subsignal>>),
    /// For reporting signal related errors.
    Error(SignalError),
}

impl<T: Encode> Signal<T> {
    /// Whether the signal carries a subsignal.
    pub open spec fn is_subsignal(&self) -> bool {
        self is Subsignal
    }

    /// The height a subsignal signal carries.
    pub open spec fn height(&self) -> SubsignalHeight {
        match self {
            Signal::Subsignal(h, _) => *h,
            _ => 0,
        }
    }

    /// Whether the checksum of a subsignal signal matches its ciphertext.
    pub open spec fn subsignal_intact(&self) -> bool {
        match self {
            Signal::Subsignal(_, c) => c.is_intact(),
            _ => false,
        }
    }

    /// The plaintext that a subsignal signal opens to under a shared secret.
    pub open spec fn opened(&self, secret: Seq<u8>) -> Seq<u8> {
        match self {
            Signal::Subsignal(h, c) => Crypt::<Subsignal>::plaintext(c.data@, subsignal_key(secret, *h)),
            _ => Seq::empty(),
        }
    }

    /// The length of the ciphertext of a subsignal signal.
    pub open spec fn ciphertext_len(&self) -> nat {
        match self {
            Signal::Subsignal(_, c) => c.data.data@.len(),
            _ => 0,
        }
    }

    /// Converts from `Signal::Subsignal` to the subsignal: checks the checksum,
    /// decrypts with the key of the signal's height and decodes.
    pub fn desugar(self, shared_secret: &[u8]) -> (r: Result<Subsignal, Error>)
        requires
            self.ciphertext_len() <= KEYSTREAM_LIMIT,
        ensures
            !self.is_subsignal() ==> r == Err::<Subsignal, Error>(Error::NotASubsignal),
            self.is_subsignal() && !self.subsignal_intact() ==> r == Err::<Subsignal, Error>(Error::Corrupted),
            self.is_subsignal() && self.subsignal_intact() ==> forall|v: SubsignalModel|
                #[trigger] Subsignal::spec_encode(v) == self.opened(shared_secret@) ==> (r matches Ok(w) && w@ == v),
            r is Err ==> (r == Err::<Subsignal, Error>(Error::NotASubsignal) || r == Err::<Subsignal, Error>(Error::Corrupted)
                || r == Err::<Subsignal, Error>(Error::Malformed)),
            self.is_subsignal() && self.subsignal_intact() && r is Err ==> r == Err::<Subsignal, Error>(Error::Malformed),
            self.is_subsignal() && self.subsignal_intact() ==> (r matches Ok(w) ==> Subsignal::spec_encode(w@) == self.opened(shared_secret@)),
    {
        match self {
            Signal::Subsignal(height, checksumed) => {
                let key = derive_subsignal_key(shared_secret, height);
                let mut crypt = match checksumed.take() {
                    Ok(c) => c,
                    Err(e) => return Err(e),
                };
                crypt.take(&key)
            },
            _ => Err(Error::NotASubsignal),
        }
    }
}

impl Subsignal {
    /// Converts the subsignal into a signal: encrypts its encoding under the
    /// key of `sending_height` and checksums the ciphertext.
    pub fn sugar<T: Encode>(self, shared_secret: &[u8], sending_height: SubsignalHeight) -> (r: Result<Signal<T>, Error>)
        requires
            Subsignal::spec_encode(self@).len() <= KEYSTREAM_LIMIT,
        ensures
            r matches Ok(s) && s.is_subsignal() && s.height() == sending_height && s.subsignal_intact()
                && s.opened(shared_secret@) == Subsignal::spec_encode(self@)
                && s.ciphertext_len() == Subsignal::spec_encode(self@).len(),
    {
        let key = derive_subsignal_key(shared_secret, sending_height);
        let crypt = match Crypt::new(self, &key) {
            Ok(c) => c,
            Err(e) => return Err(e),
        };
        match Checksumed::new(crypt) {
            Ok(c) => Ok(Signal::Subsignal(sending_height, c)),
            Err(e) => Err(e),
        }
    }
}

/// The heights of the subsignals of one connection: the next one expected
/// from the peer and the next one to send.
pub struct Height {
    pub receiving: SubsignalHeight,
    pub sending: SubsignalHeight,
}

impl Height {
    /// Whether the subsignal of height `h` is the one expected next.
    pub open spec fn accepts(&self, h: SubsignalHeight) -> bool {
        h == self.receiving
    }

    /// Both directions start at height zero.
    pub fn new() -> (r: Self)
        ensures
            r.receiving == 0 && r.sending == 0,
    {
        Height { receiving: 0, sending: 0 }
    }

    /// Accepts the subsignal of height `expected` only when it is the next one
    /// ("Invalid height!" otherwise); accepting it moves to the following height.
    pub fn receiving(&mut self, expected: SubsignalHeight) -> (r: Result<(), Error>)
        requires
            old(self).receiving < u128::MAX,
        ensures
            r is Ok <==> old(self).accepts(expected),
            r is Ok ==> final(self).receiving == old(self).receiving + 1,
            r is Err ==> r == Err::<(), Error>(Error::InvalidHeight) && final(self).receiving == old(self).receiving,
            final(self).sending == old(self).sending,
    {
        if self.receiving == expected {
            self.receiving = self.receiving + 1;
            Ok(())
        } else {
            Err(Error::InvalidHeight)
        }
    }

    /// Returns the height of the next subsignal to send and moves past it.
    pub fn sending(&mut self) -> (r: SubsignalHeight)
        requires
            old(self).sending < u128::MAX,
        ensures
            r == old(self).sending,
            final(self).sending == old(self).sending + 1,
            final(self).receiving == old(self).receiving,
    {
        self.sending = self.sending + 1;
        self.sending - 1
    }
}

/// An error subsignal is two bytes long: its tag and the error's index.
pub proof fn lemma_error_encoding_small(e: SubsignalError)
    ensures
        Subsignal::spec_encode(SubsignalModel::Error(e)).len() == 2,
{
    assert(varint(1) =~= seq![1u8]);
    assert(varint(e.index() as nat) =~= seq![e.index() as u8]);
}

/// A subsignal that was sugared under a shared secret and a height opens,
/// under the same secret, to the encoding of the subsignal it came from.
pub proof fn lemma_sugar_desugar(v: SubsignalModel, secret: Seq<u8>, h: u128, iv: Seq<u8>)
    ensures
        Crypt::<Subsignal>::plaintext(
            (Crypt::<Subsignal>::ciphertext(v, subsignal_key(secret, h), iv), iv),
            subsignal_key(secret, h),
        ) == Subsignal::spec_encode(v),
{
    lemma_crypt_roundtrip::<Subsignal>(v, subsignal_key(secret, h), iv);
}

/// Heights are never accepted twice: once a connection has accepted height
/// `h` (moving from `before` to `after`), no later state of its heights (one
/// whose receiving counter did not go back, as neither `receiving` nor
/// `sending` moves it back) accepts `h` again.
pub proof fn lemma_no_replay(before: Height, after: Height, later: Height, h: SubsignalHeight)
    requires
        before.accepts(h),
        after.receiving == before.receiving + 1,
        later.receiving >= after.receiving,
    ensures
        !later.accepts(h),
{
}

/// On the wire a subsignal starts with the index of its variant in
/// declaration order: content with the byte 0 followed by the compressed
/// bytes as a length-prefixed string, an error with 1 followed by the error's
/// index (0 already handshaked, 1 invalid, 2 bad checksum), a disconnection
/// with the single byte 2.
pub proof fn lemma_subsignal_wire_tags(v: SubsignalModel)
    ensures
        v matches SubsignalModel::Content(c) ==> Subsignal::spec_encode(v) == seq![0u8] + postcard_bytes(c),
        v == SubsignalModel::Error(SubsignalError::AlreadyHandshaked) ==> Subsignal::spec_encode(v) == seq![1u8, 0u8],
        v == SubsignalModel::Error(SubsignalError::Invalid) ==> Subsignal::spec_encode(v) == seq![1u8, 1u8],
        v == SubsignalModel::Error(SubsignalError::BadChecksum) ==> Subsignal::spec_encode(v) == seq![1u8, 2u8],
        v == SubsignalModel::Disconnect ==> Subsignal::spec_encode(v) == seq![2u8],
{
    assert(varint(0) =~= seq![0u8]);
    assert(varint(1) =~= seq![1u8]);
    assert(varint(2) =~= seq![2u8]);
    assert(seq![1u8] + seq![0u8] =~= seq![1u8, 0u8]);
    assert(seq![1u8] + seq![1u8] =~= seq![1u8, 1u8]);
    assert(seq![1u8] + seq![2u8] =~= seq![1u8, 2u8]);
    assert(seq![2u8] + Seq::<u8>::empty() =~= seq![2u8]);
}

/// The key of the subsignal of height `h` under a shared secret is BLAKE3's
/// key derivation, in the subsignal context, over the secret followed by the
/// sixteen bytes of `h`, most significant first.
pub proof fn lemma_subsignal_key_material(secret: Seq<u8>, h: u128)
    ensures
        subsignal_key(secret, h) == blake3_derive_key("nearssage_protocol Subsignal Crypt Key"@,
            secret + Seq::new(16, |i: int| ((h >> ((8 * (15 - i)) as u128)) & 0xff) as u8)),
{
    assert(be_bytes(h) =~= Seq::new(16, |i: int| ((h >> ((8 * (15 - i)) as u128)) & 0xff) as u8));
}

/// Sixteen equal big-endian bytes come from equal heights.
proof fn lemma_be_bytes_injective(h1: u128, h2: u128)
    by (bit_vector)
    requires
        ((h1 >> 120u128) & 0xff) as u8 == ((h2 >> 120u128) & 0xff) as u8,
        ((h1 >> 112u128) & 0xff) as u8 == ((h2 >> 112u128) & 0xff) as u8,
        ((h1 >> 104u128) & 0xff) as u8 == ((h2 >> 104u128) & 0xff) as u8,
        ((h1 >> 96u128) & 0xff) as u8 == ((h2 >> 96u128) & 0xff) as u8,
        ((h1 >> 88u128) & 0xff) as u8 == ((h2 >> 88u128) & 0xff) as u8,
        ((h1 >> 80u128) & 0xff) as u8 == ((h2 >> 80u128) & 0xff) as u8,
        ((h1 >> 72u128) & 0xff) as u8 == ((h2 >> 72u128) & 0xff) as u8,
        ((h1 >> 64u128) & 0xff) as u8 == ((h2 >> 64u128) & 0xff) as u8,
        ((h1 >> 56u128) & 0xff) as u8 == ((h2 >> 56u128) & 0xff) as u8,
        ((h1 >> 48u128) & 0xff) as u8 == ((h2 >> 48u128) & 0xff) as u8,
        ((h1 >> 40u128) & 0xff) as u8 == ((h2 >> 40u128) & 0xff) as u8,
        ((h1 >> 32u128) & 0xff) as u8 == ((h2 >> 32u128) & 0xff) as u8,
        ((h1 >> 24u128) & 0xff) as u8 == ((h2 >> 24u128) & 0xff) as u8,
        ((h1 >> 16u128) & 0xff) as u8 == ((h2 >> 16u128) & 0xff) as u8,
        ((h1 >> 8u128) & 0xff) as u8 == ((h2 >> 8u128) & 0xff) as u8,
        ((h1 >> 0u128) & 0xff) as u8 == ((h2 >> 0u128) & 0xff) as u8,
    ensures
        h1 == h2,
{
}

/// Two heights under one shared secret give keys derived from different
/// material: the height is part of what the key is derived from.
pub proof fn lemma_subsignal_key_heights(secret: Seq<u8>, h1: u128, h2: u128)
    requires
        h1 != h2,
    ensures
        secret + Seq::new(16, |i: int| ((h1 >> ((8 * (15 - i)) as u128)) & 0xff) as u8)
            != secret + Seq::new(16, |i: int| ((h2 >> ((8 * (15 - i)) as u128)) & 0xff) as u8),
{
    let m1 = secret + Seq::new(16, |i: int| ((h1 >> ((8 * (15 - i)) as u128)) & 0xff) as u8);
    let m2 = secret + Seq::new(16, |i: int| ((h2 >> ((8 * (15 - i)) as u128)) & 0xff) as u8);
    if m1 == m2 {
        assert(m1[secret.len() + 0int] == m2[secret.len() + 0int]);
        assert(m1[secret.len() + 1int] == m2[secret.len() + 1int]);
        assert(m1[secret.len() + 2int] == m2[secret.len() + 2int]);
        assert(m1[secret.len() + 3int] == m2[secret.len() + 3int]);
        assert(m1[secret.len() + 4int] == m2[secret.len() + 4int]);
        assert(m1[secret.len() + 5int] == m2[secret.len() + 5int]);
        assert(m1[secret.len() + 6int] == m2[secret.len() + 6int]);
        assert(m1[secret.len() + 7int] == m2[secret.len() + 7int]);
        assert(m1[secret.len() + 8int] == m2[secret.len() + 8int]);
        assert(m1[secret.len() + 9int] == m2[secret.len() + 9int]);
        assert(m1[secret.len() + 10int] == m2[secret.len() + 10int]);
        assert(m1[secret.len() + 11int] == m2[secret.len() + 11int]);
        assert(m1[secret.len() + 12int] == m2[secret.len() + 12int]);
        assert(m1[secret.len() + 13int] == m2[secret.len() + 13int]);
        assert(m1[secret.len() + 14int] == m2[secret.len() + 14int]);
        assert(m1[secret.len() + 15int] == m2[secret.len() + 15int]);
        lemma_be_bytes_injective(h1, h2);
    }
}

/// A subsignal signal of height `h` opens, under a shared secret, to its
/// ciphertext xored byte by byte with the ChaCha20 keystream of its nonce and
/// of the key derived, in the subsignal context, from the secret followed by
/// the sixteen big-endian bytes of `h`.
pub proof fn lemma_opened_under_height_key<T: Encode>(s: Signal<T>, secret: Seq<u8>)
    ensures
        s matches Signal::Subsignal(h, c) ==> ({
            let key = blake3_derive_key("nearssage_protocol Subsignal Crypt Key"@,
                secret + Seq::new(16, |i: int| ((h >> ((8 * (15 - i)) as u128)) & 0xff) as u8));
            let ks = chacha20_keystream(key, c.data.iv@, c.data.data@.len());
            &&& s.opened(secret).len() == c.data.data@.len()
            &&& forall|i: int| 0 <= i < c.data.data@.len() ==> #[trigger] s.opened(secret)[i] == c.data.data@[i] ^ ks[i]
        }),
{
    if let Signal::Subsignal(h, c) = s {
        lemma_subsignal_key_material(secret, h);
    }
}

/// The subsignal of height `h` is the one expected exactly when `h` is the
/// receiving height.
pub proof fn lemma_accepts_next_height(height: Height, h: SubsignalHeight)
    ensures
        height.accepts(h) <==> h == height.receiving,
{
}

} // verus!
