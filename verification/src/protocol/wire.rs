//! The wire form of signals: what goes into one datagram, and reading it
//! back.

use vstd::prelude::*;
use core::marker::PhantomData;
use crate::checksum::Checksumed;
use crate::crypt::Crypt;
use crate::encoding::{
    canonical, concat, postcard_bytes, postcard_encode_u128, postcard_encode_u32, postcard_take_bytes, postcard_take_u128,
    postcard_take_u32, varint, CodecError, Encode, Prefixed,
};
use super::connection::{classify_received, ReadOutcome, ReceivedStatus};
use super::signal::{Signal, SignalError};

verus! {

/// The values a signal holds: a handshake's value and checksum; a
/// subsignal's height, ciphertext, nonce and checksum; a signal error.
pub enum SignalModel<V> {
    Handshake(V, u32),
    Subsignal(u128, Seq<u8>, Seq<u8>, u32),
    Error(SignalError),
}

impl SignalError {
    /// The index of the variant on the wire.
    pub open spec fn index(self) -> u32 {
        match self {
            SignalError::HandshakeFailed => 0,
            SignalError::Malformed => 1,
        }
    }

    fn wire_index(&self) -> (r: u32)
        ensures
            r == self.index(),
    {
        match self {
            SignalError::HandshakeFailed => 0,
            SignalError::Malformed => 1,
        }
    }

    fn from_index(i: u32) -> (r: Option<SignalError>)
        ensures
            r matches Some(e) ==> e.index() == i,
            forall|e: SignalError| e.index() == i ==> r == Some(e),
    {
        if i == 0 {
            Some(SignalError::HandshakeFailed)
        } else if i == 1 {
            Some(SignalError::Malformed)
        } else {
            None
        }
    }
}

impl<T: Encode> View for Signal<T> {
    type V = SignalModel<T::V>;

    open spec fn view(&self) -> SignalModel<T::V> {
        match self {
            Signal::Handshake(c) => SignalModel::Handshake(c.data@, c.checksum),
            Signal::Subsignal(h, c) => SignalModel::Subsignal(*h, c.data.data@, c.data.iv@, c.checksum),
            Signal::Error(e) => SignalModel::Error(*e),
        }
    }
}

/// A signal is written as its variant's index (a varint), then the variant's
/// fields: a handshake's value and checksum; a subsignal's height, ciphertext
/// (length-prefixed), nonce (12 raw bytes) and checksum; an error's index.
impl<T: Encode> Encode for Signal<T> {
    open spec fn spec_encode(v: SignalModel<T::V>) -> Seq<u8> {
        match v {
            SignalModel::Handshake(t, cs) => varint(0) + (T::spec_encode(t) + varint(cs as nat)),
            SignalModel::Subsignal(h, ct, iv, cs) => varint(1) + (varint(h as nat) + (postcard_bytes(ct) + (iv + varint(cs as nat)))),
            SignalModel::Error(e) => varint(2) + varint(e.index() as nat),
        }
    }

    fn encode(&self) -> (r: Vec<u8>) {
        match self {
            Signal::Handshake(c) => {
                let tag = postcard_encode_u32(0);
                let value = c.data.encode();
                let checksum = postcard_encode_u32(c.checksum);
                let body = concat(value.as_slice(), checksum.as_slice());
                concat(tag.as_slice(), body.as_slice())
            },
            Signal::Subsignal(h, c) => {
                let tag = postcard_encode_u32(1);
                let height = postcard_encode_u128(*h);
                let crypt = c.data.encode();
                let checksum = postcard_encode_u32(c.checksum);
                let tail = concat(crypt.as_slice(), checksum.as_slice());
                let body = concat(height.as_slice(), tail.as_slice());
                let r = concat(tag.as_slice(), body.as_slice());
                assert(r@ =~= varint(1) + (varint(*h as nat) + (postcard_bytes(c.data.data@) + (c.data.iv@ + varint(c.checksum as nat)))));
                r
            },
            Signal::Error(e) => {
                let tag = postcard_encode_u32(2);
                let index = postcard_encode_u32(e.wire_index());
                concat(tag.as_slice(), index.as_slice())
            },
        }
    }
}

impl<T: Prefixed> Signal<T> {
    /// The views that signals can have: a handshake holds a valid value, a
    /// subsignal a 12-byte nonce.
    pub open spec fn valid_model(v: SignalModel<T::V>) -> bool {
        match v {
            SignalModel::Handshake(t, _) => T::valid(t),
            SignalModel::Subsignal(_, _, iv, _) => iv.len() == 12,
            SignalModel::Error(_) => true,
        }
    }

    /// Reads a signal from a datagram. The exact encoding of a signal reads
    /// back as that signal, and only the exact encoding of the signal read
    /// is accepted.
    pub fn decode(data: &[u8]) -> (r: Result<Signal<T>, CodecError>)
        ensures
            forall|v: SignalModel<T::V>| Self::valid_model(v) && #[trigger] Self::spec_encode(v) == data@
                ==> (r matches Ok(w) && w@ == v),
            r matches Ok(w) ==> Self::spec_encode(w@) == data@,
    {
        match Self::read(data) {
            Ok(s) => canonical(s, data),
            Err(e) => Err(e),
        }
    }

    /// Reads a signal as postcard does; the exact encoding of a signal reads
    /// back as that signal.
    fn read(data: &[u8]) -> (r: Result<Signal<T>, CodecError>)
        ensures
            forall|v: SignalModel<T::V>| Self::valid_model(v) && #[trigger] Self::spec_encode(v) == data@
                ==> (r matches Ok(w) && w@ == v),
    {
        let (tag, used) = match postcard_take_u32(data) {
            Some(p) => p,
            None => {
                proof {
                    assert forall|v: SignalModel<T::V>| Self::valid_model(v) && #[trigger] Self::spec_encode(v) == data@
                        implies false by {
                        Self::lemma_tagged(v);
                    }
                }
                return Err(CodecError::Malformed);
            },
        };
        let rest = vstd::slice::slice_subrange(data, used, data.len());
        proof {
            assert forall|v: SignalModel<T::V>| Self::valid_model(v) && #[trigger] Self::spec_encode(v) == data@
                implies Self::tag_of(v) == tag && rest@ == Self::body_of(v) by {
                Self::lemma_tagged(v);
                assert(varint(Self::tag_of(v) as nat) + Self::body_of(v) == data@);
                assert(rest@ =~= Self::body_of(v));
            }
        }
        if tag == 0 {
            let (value, n) = match T::take_from(rest) {
                Some(p) => p,
                None => {
                    proof {
                        assert forall|v: SignalModel<T::V>| Self::valid_model(v) && #[trigger] Self::spec_encode(v) == data@
                            implies false by {
                            if let SignalModel::Handshake(t, cs) = v {
                                assert(T::spec_encode(t) + varint(cs as nat) == rest@);
                            }
                        }
                    }
                    return Err(CodecError::Malformed);
                },
            };
            let rest2 = vstd::slice::slice_subrange(rest, n, rest.len());
            proof {
                assert forall|v: SignalModel<T::V>| Self::valid_model(v) && #[trigger] Self::spec_encode(v) == data@
                    implies (v matches SignalModel::Handshake(t, cs) && value@ == t && rest2@ == varint(cs as nat) + Seq::<u8>::empty()) by {
                    if let SignalModel::Handshake(t, cs) = v {
                        assert(T::spec_encode(t) + varint(cs as nat) == rest@);
                        assert(rest2@ =~= varint(cs as nat) + Seq::<u8>::empty());
                    }
                }
            }
            match postcard_take_u32(rest2) {
                Some((checksum, _)) => Ok(Signal::Handshake(Checksumed { data: value, checksum })),
                None => Err(CodecError::Malformed),
            }
        } else if tag == 1 {
            let (height, n1) = match postcard_take_u128(rest) {
                Some(p) => p,
                None => {
                    proof {
                        assert forall|v: SignalModel<T::V>| Self::valid_model(v) && #[trigger] Self::spec_encode(v) == data@
                            implies false by {
                            if let SignalModel::Subsignal(h, ct, iv, cs) = v {
                                assert(varint(h as nat) + (postcard_bytes(ct) + (iv + varint(cs as nat))) == rest@);
                            }
                        }
                    }
                    return Err(CodecError::Malformed);
                },
            };
            let rest2 = vstd::slice::slice_subrange(rest, n1, rest.len());
            proof {
                assert forall|v: SignalModel<T::V>| Self::valid_model(v) && #[trigger] Self::spec_encode(v) == data@
                    implies (v matches SignalModel::Subsignal(h, ct, iv, cs) && height == h
                        && rest2@ == postcard_bytes(ct) + (iv + varint(cs as nat))) by {
                    if let SignalModel::Subsignal(h, ct, iv, cs) = v {
                        assert(varint(h as nat) + (postcard_bytes(ct) + (iv + varint(cs as nat))) == rest@);
                        assert(rest2@ =~= postcard_bytes(ct) + (iv + varint(cs as nat)));
                    }
                }
            }
            let (ciphertext, n2) = match postcard_take_bytes(rest2) {
                Some(p) => p,
                None => {
                    proof {
                        assert forall|v: SignalModel<T::V>| Self::valid_model(v) && #[trigger] Self::spec_encode(v) == data@
                            implies false by {
                            if let SignalModel::Subsignal(h, ct, iv, cs) = v {
                                assert(postcard_bytes(ct) + (iv + varint(cs as nat)) == rest2@);
                            }
                        }
                    }
                    return Err(CodecError::Malformed);
                },
            };
            let rest3 = vstd::slice::slice_subrange(rest2, n2, rest2.len());
            proof {
                assert forall|v: SignalModel<T::V>| Self::valid_model(v) && #[trigger] Self::spec_encode(v) == data@
                    implies (v matches SignalModel::Subsignal(h, ct, iv, cs) && ciphertext@ == ct
                        && rest3@ == iv + varint(cs as nat)) by {
                    if let SignalModel::Subsignal(h, ct, iv, cs) = v {
                        assert(postcard_bytes(ct) + (iv + varint(cs as nat)) == rest2@);
                        assert(rest3@ =~= iv + varint(cs as nat));
                    }
                }
            }
            if rest3.len() < 12 {
                proof {
                    assert forall|v: SignalModel<T::V>| Self::valid_model(v) && #[trigger] Self::spec_encode(v) == data@
                        implies false by {
                        if let SignalModel::Subsignal(h, ct, iv, cs) = v {
                            assert(rest3@ == iv + varint(cs as nat));
                        }
                    }
                }
                return Err(CodecError::Malformed);
            }
            let mut iv: [u8; 12] = [0u8; 12];
            let mut i: usize = 0;
            while i < 12
                invariant
                    i <= 12,
                    rest3@.len() >= 12,
                    forall|j: int| 0 <= j < i ==> #[trigger] iv@[j] == rest3@[j],
                decreases 12 - i,
            {
                iv[i] = rest3[i];
                i = i + 1;
            }
            let rest4 = vstd::slice::slice_subrange(rest3, 12, rest3.len());
            proof {
                assert forall|v: SignalModel<T::V>| Self::valid_model(v) && #[trigger] Self::spec_encode(v) == data@
                    implies (v matches SignalModel::Subsignal(h, ct, viv, cs) && iv@ == viv
                        && rest4@ == varint(cs as nat) + Seq::<u8>::empty()) by {
                    if let SignalModel::Subsignal(h, ct, viv, cs) = v {
                        assert(rest3@ == viv + varint(cs as nat));
                        assert forall|j: int| 0 <= j < 12 implies iv@[j] == viv[j] by {
                            assert((viv + varint(cs as nat))[j] == viv[j]);
                        }
                        assert(iv@ =~= viv);
                        assert(rest4@ =~= varint(cs as nat) + Seq::<u8>::empty());
                    }
                }
            }
            match postcard_take_u32(rest4) {
                Some((checksum, _)) => Ok(Signal::Subsignal(
                    height,
                    Checksumed { data: Crypt { marker: PhantomData, data: ciphertext, iv }, checksum },
                )),
                None => Err(CodecError::Malformed),
            }
        } else if tag == 2 {
            let (index, _) = match postcard_take_u32(rest) {
                Some(p) => p,
                None => {
                    proof {
                        assert forall|v: SignalModel<T::V>| Self::valid_model(v) && #[trigger] Self::spec_encode(v) == data@
                            implies false by {
                            if let SignalModel::Error(e) = v {
                                assert(varint(e.index() as nat) + Seq::<u8>::empty() == rest@);
                            }
                        }
                    }
                    return Err(CodecError::Malformed);
                },
            };
            proof {
                assert forall|v: SignalModel<T::V>| Self::valid_model(v) && #[trigger] Self::spec_encode(v) == data@
                    implies (v matches SignalModel::Error(e) && e.index() == index) by {
                    if let SignalModel::Error(e) = v {
                        assert(varint(e.index() as nat) + Seq::<u8>::empty() == rest@);
                    }
                }
            }
            match SignalError::from_index(index) {
                Some(e) => Ok(Signal::Error(e)),
                None => Err(CodecError::Malformed),
            }
        } else {
            Err(CodecError::Malformed)
        }
    }

    /// Receives a signal: what a read of the peer's stream gave, decoded.
    /// A datagram that holds no signal is a malformed request.
    pub fn receive(read: ReadOutcome<Vec<u8>>) -> (r: Result<Signal<T>, ReceivedStatus>)
        ensures
            read is TimedOut ==> r == Err::<Signal<T>, ReceivedStatus>(ReceivedStatus::Timeout),
            read is Failed ==> r == Err::<Signal<T>, ReceivedStatus>(ReceivedStatus::IOError),
            read == ReadOutcome::<Vec<u8>>::Received(None) ==> r == Err::<Signal<T>, ReceivedStatus>(ReceivedStatus::MalformedRequest),
            read matches ReadOutcome::Received(Some(bytes)) ==> forall|v: SignalModel<T::V>|
                Self::valid_model(v) && #[trigger] Self::spec_encode(v) == bytes@ ==> (r matches Ok(w) && w@ == v),
            read matches ReadOutcome::Received(Some(_)) ==> (r is Err ==> r == Err::<Signal<T>, ReceivedStatus>(ReceivedStatus::MalformedRequest)),
            read matches ReadOutcome::Received(Some(bytes)) ==> (r matches Ok(w) ==> Self::spec_encode(w@) == bytes@),
            read matches ReadOutcome::Received(Some(bytes)) ==> ((forall|v: SignalModel<T::V>| #[trigger] Self::spec_encode(v) != bytes@)
                ==> r == Err::<Signal<T>, ReceivedStatus>(ReceivedStatus::MalformedRequest)),
            r is Ok ==> read matches ReadOutcome::Received(Some(_)),
            r is Err ==> (r == Err::<Signal<T>, ReceivedStatus>(ReceivedStatus::Timeout)
                || r == Err::<Signal<T>, ReceivedStatus>(ReceivedStatus::IOError)
                || r == Err::<Signal<T>, ReceivedStatus>(ReceivedStatus::MalformedRequest)),
    {
        let decoded = match read {
            ReadOutcome::TimedOut => ReadOutcome::TimedOut,
            ReadOutcome::Failed => ReadOutcome::Failed,
            ReadOutcome::Received(None) => ReadOutcome::Received(None),
            ReadOutcome::Received(Some(bytes)) => ReadOutcome::Received(
                match Self::decode(bytes.as_slice()) {
                    Ok(s) => Some(s),
                    Err(_) => None,
                },
            ),
        };
        classify_received(decoded)
    }

    /// The index of a signal's variant.
    pub open spec fn tag_of(v: SignalModel<T::V>) -> u32 {
        match v {
            SignalModel::Handshake(_, _) => 0,
            SignalModel::Subsignal(_, _, _, _) => 1,
            SignalModel::Error(_) => 2,
        }
    }

    /// The bytes after a signal's variant index.
    pub open spec fn body_of(v: SignalModel<T::V>) -> Seq<u8> {
        match v {
            SignalModel::Handshake(t, cs) => T::spec_encode(t) + varint(cs as nat),
            SignalModel::Subsignal(h, ct, iv, cs) => varint(h as nat) + (postcard_bytes(ct) + (iv + varint(cs as nat))),
            SignalModel::Error(e) => varint(e.index() as nat),
        }
    }

    /// A signal's encoding is its index's varint followed by its body.
    proof fn lemma_tagged(v: SignalModel<T::V>)
        ensures
            Self::spec_encode(v) == varint(Self::tag_of(v) as nat) + Self::body_of(v),
    {
    }
}

/// On the wire a signal starts with the index of its variant in declaration
/// order, as postcard writes it: a handshake with the byte 0, a subsignal with
/// 1, a signal error with 2. A signal error is exactly two bytes, the second
/// being 0 for a failed handshake and 1 for a malformed signal.
pub proof fn lemma_signal_wire_tags<T: Encode>(v: SignalModel<T::V>)
    ensures
        Signal::<T>::spec_encode(v).len() >= 1,
        v is Handshake ==> Signal::<T>::spec_encode(v)[0] == 0u8,
        v is Subsignal ==> Signal::<T>::spec_encode(v)[0] == 1u8,
        v == SignalModel::<T::V>::Error(SignalError::HandshakeFailed) ==> Signal::<T>::spec_encode(v) == seq![2u8, 0u8],
        v == SignalModel::<T::V>::Error(SignalError::Malformed) ==> Signal::<T>::spec_encode(v) == seq![2u8, 1u8],
{
    assert(varint(0) =~= seq![0u8]);
    assert(varint(1) =~= seq![1u8]);
    assert(varint(2) =~= seq![2u8]);
}

/// The layout of a handshake and of a subsignal on the wire: after the
/// variant's byte, a handshake holds the value and its checksum as a varint;
/// a subsignal holds its height as a varint, the ciphertext's length as a
/// varint, the ciphertext, the 12 nonce bytes and the checksum as a varint.
pub proof fn lemma_signal_wire_layout<T: Encode>(v: SignalModel<T::V>)
    ensures
        v matches SignalModel::Handshake(t, cs) ==> Signal::<T>::spec_encode(v)
            == seq![0u8] + T::spec_encode(t) + varint(cs as nat),
        v matches SignalModel::Subsignal(h, ct, iv, cs) ==> Signal::<T>::spec_encode(v)
            == seq![1u8] + varint(h as nat) + varint(ct.len()) + ct + iv + varint(cs as nat),
{
    assert(varint(0) =~= seq![0u8]);
    assert(varint(1) =~= seq![1u8]);
    match v {
        SignalModel::Handshake(t, cs) => {
            assert(Signal::<T>::spec_encode(v) =~= seq![0u8] + T::spec_encode(t) + varint(cs as nat));
        },
        SignalModel::Subsignal(h, ct, iv, cs) => {
            assert(Signal::<T>::spec_encode(v) =~= seq![1u8] + varint(h as nat) + varint(ct.len()) + ct + iv + varint(cs as nat));
        },
        _ => {},
    }
}

} // verus!
