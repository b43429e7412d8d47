//! Session keys: the X3DH exchange extended with CSIDH, and the key chain
//! that derives message keys.

pub mod bundle;
pub mod initial;

use vstd::prelude::*;
use crate::csidh::{csidh_shared_repr, montgomery_words, words_bytes, PKCsidh, SKCsidh};
use crate::encoding::concat;
use crate::error::Error;
use crate::exchange::{x25519_shared, Exchange, Exchangeable, PKEcdh, SKEcdh};
use crate::hash::{blake3_derive_key, derive_key};
use crate::keychain::{PKExchangePair, SKExchangePair};

verus! {

/// A session's key.
pub type SessionKey = [u8; 32];

/// A key of the chain from which message keys are derived.
pub type ChainKey = [u8; 32];

/// The key of one message.
pub type MessageKey = [u8; 32];

/// The context of the session key's derivation.
pub const SESSION_SECRET_CTX: &'static str = "nearssage_commons Session's Secret Exchange";

/// The context of a chain key's derivation.
pub const CHAIN_KEY_CTX: &'static str = "nearssage_commons Chain Key";

/// The context of a message key's derivation.
pub const MESSAGE_KEY_CTX: &'static str = "nearssage_commons Message Key";

/// The session key derived from the exchanged secrets.
pub open spec fn session_secret(exchange: Seq<u8>) -> Seq<u8> {
    blake3_derive_key(SESSION_SECRET_CTX@, exchange)
}

/// Derives a session key from the concatenated exchanged secrets.
pub fn key_exchange_derivation(exchange: &[u8]) -> (r: SessionKey)
    ensures
        r@ == session_secret(exchange@),
{
    derive_key(SESSION_SECRET_CTX, exchange)
}

/// The next chain key: derived from the current one.
pub open spec fn next_chain_key(chain: Seq<u8>) -> Seq<u8> {
    blake3_derive_key(CHAIN_KEY_CTX@, chain)
}

/// The message key that goes with a chain key.
pub open spec fn message_key(chain: Seq<u8>) -> Seq<u8> {
    blake3_derive_key(MESSAGE_KEY_CTX@, chain)
}

/// Advances the chain: the next chain key, and the message key derived from it.
pub fn chain_key_derivation(sk_chain: ChainKey) -> (r: (ChainKey, MessageKey))
    ensures
        r.0@ == next_chain_key(sk_chain@),
        r.1@ == message_key(r.0@),
{
    let chain = derive_key(CHAIN_KEY_CTX, &sk_chain);
    let message = derive_key(MESSAGE_KEY_CTX, &chain);
    (chain, message)
}

/// Which side of the exchange computes the key, with the one-time key of the
/// responder if one is used: its public half for the initiator, the pair for
/// the responder.
pub enum Mode {
    Initiator(Option<PKEcdh>),
    Responder(Option<SKEcdh>),
}

/// The X25519 secret of a secret and a public key.
pub open spec fn ecdh(secret: Seq<u8>, public: Seq<u8>) -> Seq<u8> {
    x25519_shared(secret, public)
}

/// The CSIDH secret of exponents and a public key, as bytes.
pub open spec fn csidh_secret(sk: Seq<u32>, peer: Seq<u64>) -> Seq<u8> {
    words_bytes(montgomery_words(csidh_shared_repr(sk, peer)).unwrap())
}

/// The secrets of the exchange, concatenated in the order both sides use: the
/// CSIDH secret of the long-term keys, then the X25519 secrets of identity and
/// pre-exchange key, ephemeral and identity, ephemeral and pre-exchange key,
/// and ephemeral and one-time key (empty without one). The initiator's second
/// key is its ephemeral key, the responder's its pre-exchange key.
pub open spec fn session_material(
    mode: Mode,
    sk_exchange: SKExchangePair,
    sk_two: SKEcdh,
    pk_exchange: PKExchangePair,
    pk_two: PKEcdh,
) -> Seq<u8> {
    let csidh = csidh_secret(sk_exchange.1.1@, pk_exchange.1.0@);
    match mode {
        Mode::Initiator(one_time) => csidh
            + ecdh(sk_exchange.0.1@, pk_two.0@)
            + ecdh(sk_two.1@, pk_exchange.0.0@)
            + ecdh(sk_two.1@, pk_two.0@)
            + match one_time {
                Some(o) => ecdh(sk_two.1@, o.0@),
                None => Seq::empty(),
            },
        Mode::Responder(one_time) => csidh
            + ecdh(sk_two.1@, pk_exchange.0.0@)
            + ecdh(sk_exchange.0.1@, pk_two.0@)
            + ecdh(sk_two.1@, pk_two.0@)
            + match one_time {
                Some(o) => ecdh(o.1@, pk_two.0@),
                None => Seq::empty(),
            },
    }
}

/// The public halves of an exchange pair.
pub open spec fn public_pair(sk: SKExchangePair) -> PKExchangePair {
    (Exchange(sk.0.0, ()), Exchange(sk.1.0, ()))
}

/// Whether the responder's keys are the ones the initiator used: its long-term
/// pair has the public keys `pk_exchange`, its pre-exchange pair the public key
/// `pk_two`, and it holds the one-time pair exactly when the initiator used a
/// one-time public key, with that public key.
pub open spec fn responder_keys(
    b: SKExchangePair,
    b_pre: SKEcdh,
    b_one: Option<SKEcdh>,
    pk_exchange: PKExchangePair,
    pk_two: PKEcdh,
    one_time: Option<PKEcdh>,
) -> bool {
    &&& b.0.well_formed()
    &&& b.1.well_formed()
    &&& b_pre.well_formed()
    &&& b.0.0@ == pk_exchange.0.0@
    &&& b.1.0@ == pk_exchange.1.0@
    &&& b_pre.0@ == pk_two.0@
    &&& match (one_time, b_one) {
        (Some(p), Some(s)) => s.well_formed() && s.0@ == p.0@,
        (None, None) => true,
        _ => false,
    }
}

/// The X25519 secret of `secret` with `public`.
fn dh(secret: &SKEcdh, public: &PKEcdh) -> (r: Vec<u8>)
    ensures
        r@ == ecdh(secret.1@, public.0@),
        secret.well_formed() ==> forall|other: SKEcdh|
            other.well_formed() && #[trigger] other.0@ == public.0@
                ==> r@ == ecdh(other.1@, secret.0@),
{
    secret.get_secret(public)
}

/// The five concatenated secrets.
fn join5(a: &Vec<u8>, b: &Vec<u8>, c: &Vec<u8>, d: &Vec<u8>, e: &Vec<u8>) -> (r: Vec<u8>)
    ensures
        r@ == a@ + b@ + c@ + d@ + e@,
{
    let ab = concat(a.as_slice(), b.as_slice());
    let abc = concat(ab.as_slice(), c.as_slice());
    let abcd = concat(abc.as_slice(), d.as_slice());
    concat(abcd.as_slice(), e.as_slice())
}

/// Computes a session key. `sk_exchange` and `sk_two` are this side's
/// long-term pair and second key (the initiator's ephemeral key, the
/// responder's pre-exchange key), `pk_exchange` and `pk_two` the other side's.
/// Refused when the peer's CSIDH key is no CSIDH-512 public key. Both sides
/// agree: the initiator's key equals the key of any responder that holds the
/// secret halves of the keys the initiator used, computed from the
/// initiator's public keys.
pub fn session_key(
    mode: Mode,
    sk_exchange: SKExchangePair,
    sk_two: SKEcdh,
    pk_exchange: PKExchangePair,
    pk_two: PKEcdh,
) -> (r: Result<SessionKey, Error>)
    ensures
        r is Ok ==> r.unwrap()@ == session_secret(session_material(mode, sk_exchange, sk_two, pk_exchange, pk_two)),
        r is Err ==> r == Err::<SessionKey, Error>(Error::InvalidPublicKey),
        sk_exchange.1.well_formed() && (exists|o: SKCsidh| o.well_formed() && #[trigger] o.0@ == pk_exchange.1.0@)
            ==> r is Ok,
        (mode matches Mode::Initiator(one_time) && sk_exchange.0.well_formed() && sk_exchange.1.well_formed()
            && sk_two.well_formed()) ==> forall|b: SKExchangePair, b_pre: SKEcdh, b_one: Option<SKEcdh>|
                #[trigger] responder_keys(b, b_pre, b_one, pk_exchange, pk_two, mode->Initiator_0)
                    ==> r is Ok && r.unwrap()@ == session_secret(session_material(
                        Mode::Responder(b_one), b, b_pre, public_pair(sk_exchange), Exchange(sk_two.0, ()))),
{
    let csidh = match sk_exchange.1.get_secret(&pk_exchange.1) {
        Some(s) => s,
        None => {
            return Err(Error::InvalidPublicKey);
        },
    };
    let ghost csidh_view = csidh@;
    let (dh1, dh2, dh3, dh4) = match &mode {
        Mode::Initiator(one_time) => (
            dh(&sk_exchange.0, &pk_two),
            dh(&sk_two, &pk_exchange.0),
            dh(&sk_two, &pk_two),
            match one_time {
                Some(o) => dh(&sk_two, o),
                None => Vec::new(),
            },
        ),
        Mode::Responder(one_time) => (
            dh(&sk_two, &pk_exchange.0),
            dh(&sk_exchange.0, &pk_two),
            dh(&sk_two, &pk_two),
            match one_time {
                Some(o) => dh(o, &pk_two),
                None => Vec::new(),
            },
        ),
    };
    let material = join5(&csidh, &dh1, &dh2, &dh3, &dh4);
    proof {
        if let Mode::Initiator(one_time) = mode {
            if sk_exchange.0.well_formed() && sk_exchange.1.well_formed() && sk_two.well_formed() {
                assert forall|b: SKExchangePair, b_pre: SKEcdh, b_one: Option<SKEcdh>|
                    #[trigger] responder_keys(b, b_pre, b_one, pk_exchange, pk_two, one_time)
                        implies material@ == session_material(
                            Mode::Responder(b_one), b, b_pre, public_pair(sk_exchange), Exchange(sk_two.0, ())) by {
                    assert(b.1.0@ == pk_exchange.1.0@);
                    assert(b.0.0@ == pk_exchange.0.0@);
                    assert(b_pre.0@ == pk_two.0@);
                    if let Some(s) = b_one {
                        assert(s.0@ == one_time.unwrap().0@);
                    }
                }
            }
        }
    }
    Ok(key_exchange_derivation(material.as_slice()))
}

/// Both sides of a session agree on its key: the key the initiator got from a
/// bundle (which equals, for any responder holding the secret halves of the
/// bundle's keys, the key computed as responder from the initiator's public
/// keys and ephemeral key) is the key such a responder computes from the
/// initial message that carries those public keys.
pub proof fn lemma_session_agreement(
    initiator_key: Seq<u8>,
    responder_key: Seq<u8>,
    initiator: SKExchangePair,
    ephemeral: PKEcdh,
    bundle_exchange: PKExchangePair,
    bundle_pre: PKEcdh,
    one_time: Option<PKEcdh>,
    b: SKExchangePair,
    b_pre: SKEcdh,
    b_one: Option<SKEcdh>,
)
    requires
        forall|x: SKExchangePair, x_pre: SKEcdh, x_one: Option<SKEcdh>|
            #[trigger] responder_keys(x, x_pre, x_one, bundle_exchange, bundle_pre, one_time)
                ==> initiator_key == session_secret(session_material(
                    Mode::Responder(x_one), x, x_pre, public_pair(initiator), ephemeral)),
        responder_keys(b, b_pre, b_one, bundle_exchange, bundle_pre, one_time),
        responder_key == session_secret(session_material(Mode::Responder(b_one), b, b_pre, public_pair(initiator), ephemeral)),
    ensures
        initiator_key == responder_key,
{
}

/// The session key is BLAKE3's key derivation, in the session context, over
/// the CSIDH-512 secret of the two long-term CSIDH keys (the 64 bytes of the
/// agreed coefficient, as the CSIDH key pair's `get_secret` returns them)
/// followed by four X25519 secrets. The initiator uses its identity key with
/// the responder's pre-exchange key, its ephemeral key with the responder's
/// identity key, its ephemeral key with the pre-exchange key, and its
/// ephemeral key with the one-time key (nothing without one); the responder
/// uses the mirror images, in the same order.
pub proof fn lemma_session_key_material(
    mode: Mode,
    sk_exchange: SKExchangePair,
    sk_two: SKEcdh,
    pk_exchange: PKExchangePair,
    pk_two: PKEcdh,
)
    ensures
        words_bytes(montgomery_words(csidh_shared_repr(sk_exchange.1.1@, pk_exchange.1.0@)).unwrap()).len() == 64,
        mode matches Mode::Initiator(o) ==> session_secret(session_material(mode, sk_exchange, sk_two, pk_exchange, pk_two))
            == blake3_derive_key("nearssage_commons Session's Secret Exchange"@,
                words_bytes(montgomery_words(csidh_shared_repr(sk_exchange.1.1@, pk_exchange.1.0@)).unwrap())
                + x25519_shared(sk_exchange.0.1@, pk_two.0@)
                + x25519_shared(sk_two.1@, pk_exchange.0.0@)
                + x25519_shared(sk_two.1@, pk_two.0@)
                + match o {
                    Some(p) => x25519_shared(sk_two.1@, p.0@),
                    None => Seq::<u8>::empty(),
                }),
        mode matches Mode::Responder(o) ==> session_secret(session_material(mode, sk_exchange, sk_two, pk_exchange, pk_two))
            == blake3_derive_key("nearssage_commons Session's Secret Exchange"@,
                words_bytes(montgomery_words(csidh_shared_repr(sk_exchange.1.1@, pk_exchange.1.0@)).unwrap())
                + x25519_shared(sk_two.1@, pk_exchange.0.0@)
                + x25519_shared(sk_exchange.0.1@, pk_two.0@)
                + x25519_shared(sk_two.1@, pk_two.0@)
                + match o {
                    Some(s) => x25519_shared(s.1@, pk_two.0@),
                    None => Seq::<u8>::empty(),
                }),
{
}

/// The keys of a session's chain: the session key is derived in the session
/// context, each chain key from the previous one in the chain-key context, and
/// each message key from its chain key in the message-key context.
pub proof fn lemma_key_contexts(material: Seq<u8>, chain: Seq<u8>)
    ensures
        session_secret(material) == blake3_derive_key("nearssage_commons Session's Secret Exchange"@, material),
        next_chain_key(chain) == blake3_derive_key("nearssage_commons Chain Key"@, chain),
        message_key(chain) == blake3_derive_key("nearssage_commons Message Key"@, chain),
{
}

} // verus!
