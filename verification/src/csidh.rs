//! The CSIDH-512 key exchange.
//!
//! A private key is a vector of 74 exponents, each at most 10. A public key
//! (and a shared secret) is a curve coefficient, held as the eight 64-bit
//! words of its Montgomery form, least significant first. The outside
//! implementation only shows these values through their `Debug` text, whose
//! shape (`... Uint(0x` and 128 upper-case hex digits) this module parses.

use vstd::prelude::*;
use crate::encoding::{concat, postcard_encode_u128, postcard_encode_u32, varint, Encode};
use crate::exchange::{Exchange, Exchangeable};

verus! {

/// A CSIDH-512 private key: one exponent per small prime.
pub type CsidhPrivate = [u32; 74];

/// A CSIDH-512 public key: the Montgomery-form words of the curve coefficient.
pub type CsidhPublic = [u64; 8];

/// The CSIDH public key container.
pub type PKCsidh = Exchange<CsidhPublic, ()>;

/// The CSIDH key pair: public key and private exponents.
pub type SKCsidh = Exchange<CsidhPublic, CsidhPrivate>;

/// The CSIDH shared secret: the 64 little-endian bytes of the agreed
/// coefficient's Montgomery form, or `None` when the peer's key is no
/// CSIDH-512 public key.
pub type SSCsidh = Option<Vec<u8>>;

/// 74 exponents, each at most 10: what `PrivateKey::new` accepts.
pub open spec fn valid_exponents(sk: Seq<u32>) -> bool {
    sk.len() == 74 && forall|i: int| 0 <= i < 74 ==> #[trigger] sk[i] <= 10
}

/// The `Debug` text (as bytes) of the public key that CSIDH-512 derives from
/// the exponents `sk`.
pub uninterp spec fn csidh_public_repr(sk: Seq<u32>) -> Seq<u8>;

/// The `Debug` text (as bytes) of the secret that CSIDH-512 derives from the
/// exponents `sk` and the public key whose Montgomery-form words are `peer`.
pub uninterp spec fn csidh_shared_repr(sk: Seq<u32>, peer: Seq<u64>) -> Seq<u8>;

/// The value of an upper-case hexadecimal digit.
pub open spec fn hex_digit(c: u8) -> Option<u64> {
    if 48 <= c <= 57 {
        Some((c - 48) as u64)
    } else if 65 <= c <= 70 {
        Some((c - 55) as u64)
    } else {
        None
    }
}

/// Sixteen to the power `n`.
pub open spec fn pow16(n: nat) -> nat
    decreases n,
{
    if n == 0 {
        1
    } else {
        16 * pow16((n - 1) as nat)
    }
}

/// Whether the `n` bytes from `start` are all hexadecimal digits.
pub open spec fn all_hex(text: Seq<u8>, start: int, n: nat) -> bool {
    forall|k: int| 0 <= k < n ==> #[trigger] hex_digit(text[start + k]) is Some
}

/// The number written by the `n` hexadecimal digits from `start`.
pub open spec fn hex_number(text: Seq<u8>, start: int, n: nat) -> nat
    decreases n,
{
    if n == 0 {
        0
    } else {
        hex_number(text, start, (n - 1) as nat) * 16 + hex_digit(text[start + n - 1]).unwrap_or(0) as nat
    }
}

/// The position of the first `x` at or after `from`, or -1.
pub open spec fn first_x(text: Seq<u8>, from: int) -> int
    decreases text.len() - from,
{
    if from < 0 || from >= text.len() {
        -1
    } else if text[from] == 120 {
        from
    } else {
        first_x(text, from + 1)
    }
}

/// The Montgomery-form words that a `Debug` text shows: the 128 hex digits
/// after its first `x`, most significant first, read as eight words, least
/// significant first.
pub open spec fn montgomery_words(text: Seq<u8>) -> Option<Seq<u64>> {
    let i = first_x(text, 0);
    if 0 <= i && i + 129 <= text.len() && all_hex(text, i + 1, 128) {
        Some(Seq::new(8, |k: int| hex_number(text, i + 1 + 16 * (7 - k), 16) as u64))
    } else {
        None
    }
}

/// The 64 little-endian bytes of eight words, least significant word first.
pub open spec fn words_bytes(words: Seq<u64>) -> Seq<u8> {
    Seq::new(64, |j: int| ((words[j / 8] >> (8 * (j % 8)) as u64) & 0xff) as u8)
}

/// Postcard's encoding of a `u64` array: each word as a varint, in order.
pub open spec fn varints(words: Seq<u64>) -> Seq<u8>
    decreases words.len(),
{
    if words.len() == 0 {
        Seq::empty()
    } else {
        varint(words[0] as nat) + varints(words.drop_first())
    }
}

/// Appending a word appends its varint.
proof fn lemma_varints_push(s: Seq<u64>, x: u64)
    ensures
        varints(s.push(x)) == varints(s) + varint(x as nat),
    decreases s.len(),
{
    if s.len() > 0 {
        lemma_varints_push(s.drop_first(), x);
        assert(s.push(x).drop_first() =~= s.drop_first().push(x));
        assert(s.push(x)[0] == s[0]);
        assert(varints(s.push(x)) =~= varint(s[0] as nat) + (varints(s.drop_first()) + varint(x as nat)));
        assert(varints(s.push(x)) =~= varints(s) + varint(x as nat));
    } else {
        assert(s.push(x).drop_first() =~= Seq::<u64>::empty());
        assert(varints(s.push(x)) =~= varint(x as nat) + varints(Seq::<u64>::empty()));
        assert(varints(s.push(x)) =~= varints(s) + varint(x as nat));
    }
}

/// Writes eight `u64` words as postcard writes the array: each word as a
/// varint, in order.
fn postcard_encode_words(words: &[u64; 8]) -> (r: Vec<u8>)
    ensures
        r@ == varints(words@),
{
    let mut out: Vec<u8> = Vec::new();
    let mut i: usize = 0;
    while i < 8
        invariant
            i <= 8,
            out@ == varints(words@.subrange(0, i as int)),
        decreases 8 - i,
    {
        let word = postcard_encode_u128(words[i] as u128);
        proof {
            lemma_varints_push(words@.subrange(0, i as int), words@[i as int]);
            assert(words@.subrange(0, i as int).push(words@[i as int]) =~= words@.subrange(0, i + 1));
        }
        out = concat(out.as_slice(), word.as_slice());
        i = i + 1;
    }
    assert(words@.subrange(0, 8) =~= words@);
    out
}

/// Postcard's encoding of a `u32` array: each element as a varint, in order.
pub open spec fn varints32(values: Seq<u32>) -> Seq<u8>
    decreases values.len(),
{
    if values.len() == 0 {
        Seq::empty()
    } else {
        varint(values[0] as nat) + varints32(values.drop_first())
    }
}

/// Appending a value appends its varint.
proof fn lemma_varints32_push(s: Seq<u32>, x: u32)
    ensures
        varints32(s.push(x)) == varints32(s) + varint(x as nat),
    decreases s.len(),
{
    if s.len() > 0 {
        lemma_varints32_push(s.drop_first(), x);
        assert(s.push(x).drop_first() =~= s.drop_first().push(x));
        assert(s.push(x)[0] == s[0]);
        assert(varints32(s.push(x)) =~= varint(s[0] as nat) + (varints32(s.drop_first()) + varint(x as nat)));
        assert(varints32(s.push(x)) =~= varints32(s) + varint(x as nat));
    } else {
        assert(s.push(x).drop_first() =~= Seq::<u32>::empty());
        assert(varints32(s.push(x)) =~= varint(x as nat) + varints32(Seq::<u32>::empty()));
        assert(varints32(s.push(x)) =~= varints32(s) + varint(x as nat));
    }
}

/// Writes the 74 exponents as postcard writes them as a slice: the length
/// (a varint), then each element as a varint, in order.
fn postcard_encode_exponents(values: &[u32; 74]) -> (r: Vec<u8>)
    ensures
        r@ == varint(74) + varints32(values@),
{
    let mut out: Vec<u8> = postcard_encode_u32(74);
    let mut i: usize = 0;
    while i < 74
        invariant
            i <= 74,
            out@ == varint(74) + varints32(values@.subrange(0, i as int)),
        decreases 74 - i,
    {
        let value = postcard_encode_u32(values[i]);
        proof {
            lemma_varints32_push(values@.subrange(0, i as int), values@[i as int]);
            assert(values@.subrange(0, i as int).push(values@[i as int]) =~= values@.subrange(0, i + 1));
        }
        out = concat(out.as_slice(), value.as_slice());
        i = i + 1;
    }
    assert(values@.subrange(0, 74) =~= values@);
    out
}

/// `rand::Rng::gen_range(&mut OsRng, 0..=10)`: a random exponent.
#[verifier::external_body]
fn random_exponent() -> (r: u32)
    ensures
        r <= 10,
{
    rand::Rng::gen_range(&mut rand::rngs::OsRng, 0..=10u32)
}

/// `csidh::PublicKey::from(PrivateKey::new(CSIDH_512, sk), &mut OsRng)`,
/// rendered by its derived `Debug`. The key depends on `sk` alone (the
/// generator only picks the points the walk starts from), and its text has
/// the shape `montgomery_words` reads.
#[verifier::external_body]
fn csidh_public_text(sk: &[u32; 74]) -> (r: Vec<u8>)
    requires
        valid_exponents(sk@),
    ensures
        r@ == csidh_public_repr(sk@),
        montgomery_words(r@) is Some,
{
    let key = csidh::PrivateKey::new(csidh::CsidhParams::CSIDH_512, *sk);
    format!("{:?}", csidh::PublicKey::from(key, &mut rand::rngs::OsRng)).into_bytes()
}

/// `csidh::PublicKey::new(CSIDH_512, ..)` on the coefficient whose Montgomery
/// form is `peer`, then `csidh::SharedSecret::from` with `sk`, rendered by its
/// derived `Debug`. The public key type cannot be named outside its crate, so
/// both calls stand here; the array only makes the compiler pick the
/// CSIDH-512 modulus for the Montgomery value. `PublicKey::new` refuses a
/// coefficient whose curve is not supersingular; the curve of a public key that
/// CSIDH-512 derived always is. The secret is the commutative agreement of
/// CSIDH: the holder of any exponents whose public key is `peer` derives the
/// same secret from the public key of `sk`. When this call gives `None` is
/// left unsaid for coefficients that are not derived public keys: it rests on
/// a randomised test.
#[verifier::external_body]
fn csidh_shared_text(sk: &[u32; 74], peer: &[u64; 8]) -> (r: Option<Vec<u8>>)
    requires
        valid_exponents(sk@),
    ensures
        r is Some ==> r.unwrap()@ == csidh_shared_repr(sk@, peer@),
        r is Some ==> montgomery_words(r.unwrap()@) is Some,
        forall|other: Seq<u32>| valid_exponents(other) && montgomery_words(#[trigger] csidh_public_repr(other)) == Some(peer@)
            ==> r is Some && csidh_shared_repr(other, montgomery_words(csidh_public_repr(sk@)).unwrap()) == r.unwrap()@,
{
    let value = csidh::ConstMontyForm::from_montgomery(csidh::Uint::from_words(*peer));
    let _modulus = [csidh::CsidhParams::CSIDH_512, csidh::CsidhParams::new([0; 74], csidh::Uint::ZERO, value, csidh::Uint::ZERO)];
    let key = csidh::PublicKey::new(csidh::CsidhParams::CSIDH_512, value.retrieve(), &mut rand::rngs::OsRng)?;
    let secret = csidh::SharedSecret::from(key, csidh::PrivateKey::new(csidh::CsidhParams::CSIDH_512, *sk), &mut rand::rngs::OsRng);
    Some(format!("{:?}", secret).into_bytes())
}

/// The position of the first `x` in `text`, if any.
fn find_x(text: &Vec<u8>) -> (r: Option<usize>)
    ensures
        match r {
            Some(i) => first_x(text@, 0) == i as int,
            None => first_x(text@, 0) == -1,
        },
{
    let mut i: usize = 0;
    while i < text.len()
        invariant
            i <= text@.len(),
            first_x(text@, 0) == first_x(text@, i as int),
        decreases text@.len() - i,
    {
        if text[i] == 120 {
            return Some(i);
        }
        i = i + 1;
    }
    None
}

/// Reads the number written by 16 hexadecimal digits from `start`.
fn read_hex_word(text: &Vec<u8>, start: usize) -> (r: Option<u64>)
    requires
        start + 16 <= text@.len(),
    ensures
        match r {
            Some(w) => all_hex(text@, start as int, 16) && w as nat == hex_number(text@, start as int, 16),
            None => !all_hex(text@, start as int, 16),
        },
{
    let mut w: u64 = 0;
    let mut k: usize = 0;
    while k < 16
        invariant
            k <= 16,
            start + 16 <= text.len(),
            all_hex(text@, start as int, k as nat),
            w as nat == hex_number(text@, start as int, k as nat),
            (w as nat) < pow16(k as nat),
        decreases 16 - k,
    {
        let c = text[start + k];
        let d: u64 = if 48 <= c && c <= 57 {
            (c - 48) as u64
        } else if 65 <= c && c <= 70 {
            (c - 55) as u64
        } else {
            return None;
        };
        proof {
            lemma_pow16_sixteen();
            lemma_pow16_monotonic((k + 1) as nat, 16);
            assert(w * 16 + d < pow16((k + 1) as nat));
            assert(hex_digit(text@[start + k]) == Some(d));
            assert(all_hex(text@, start as int, (k + 1) as nat)) by {
                assert forall|j: int| 0 <= j < k + 1 implies #[trigger] hex_digit(text@[start + j]) is Some by {
                    if j < k {
                        assert(hex_digit(text@[start + j]) is Some);
                    }
                }
            }
        }
        w = w * 16 + d;
        k = k + 1;
    }
    Some(w)
}

/// Reads the Montgomery-form words that a `Debug` text shows.
fn parse_montgomery_words(text: &Vec<u8>) -> (r: Option<[u64; 8]>)
    ensures
        match r {
            Some(w) => montgomery_words(text@) == Some(w@),
            None => montgomery_words(text@) is None,
        },
{
    let i = match find_x(text) {
        Some(i) => i,
        None => return None,
    };
    if text.len() < 129 || i > text.len() - 129 {
        return None;
    }
    let mut words: [u64; 8] = [0u64; 8];
    let mut k: usize = 0;
    while k < 8
        invariant
            k <= 8,
            first_x(text@, 0) == i as int,
            i + 129 <= text.len(),
            forall|m: int| 7 - k < m < 8 ==> #[trigger] all_hex(text@, i + 1 + 16 * m, 16),
            forall|m: int| 7 - k < m < 8 ==> #[trigger] words@[7 - m] as nat == hex_number(text@, i + 1 + 16 * m, 16),
        decreases 8 - k,
    {
        let m: usize = 7 - k;
        match read_hex_word(text, i + 1 + 16 * m) {
            Some(w) => {
                words[k] = w;
            },
            None => {
                proof {
                    if all_hex(text@, i + 1, 128) {
                        lemma_all_hex_split(text@, i + 1, m as int);
                    }
                }
                return None;
            },
        }
        k = k + 1;
    }
    proof {
        lemma_all_hex_join(text@, i + 1);
        assert forall|k: int| 0 <= k < 8 implies #[trigger] words@[k] == hex_number(text@, i + 1 + 16 * (7 - k), 16) as u64 by {
            assert(words@[7 - (7 - k)] as nat == hex_number(text@, i + 1 + 16 * (7 - k), 16));
        }
        assert(words@ =~= Seq::new(8, |k: int| hex_number(text@, i + 1 + 16 * (7 - k), 16) as u64));
    }
    Some(words)
}

/// A run of 128 digits contains each of its 16-digit words.
proof fn lemma_all_hex_split(text: Seq<u8>, start: int, m: int)
    requires
        0 <= m < 8,
        all_hex(text, start, 128),
    ensures
        all_hex(text, start + 16 * m, 16),
{
    assert forall|k: int| 0 <= k < 16 implies #[trigger] hex_digit(text[start + 16 * m + k]) is Some by {
        assert(hex_digit(text[start + (16 * m + k)]) is Some);
    }
}

/// Eight 16-digit words make a run of 128 digits.
proof fn lemma_all_hex_join(text: Seq<u8>, start: int)
    requires
        forall|m: int| 0 <= m < 8 ==> #[trigger] all_hex(text, start + 16 * m, 16),
    ensures
        all_hex(text, start, 128),
{
    assert forall|k: int| 0 <= k < 128 implies #[trigger] hex_digit(text[start + k]) is Some by {
        let m = k / 16;
        assert(all_hex(text, start + 16 * m, 16));
        assert(hex_digit(text[start + 16 * m + (k - 16 * m)]) is Some);
    }
}

/// Sixteen hexadecimal digits span the 64-bit words.
proof fn lemma_pow16_sixteen()
    ensures
        pow16(16) == 18446744073709551616nat,
{
    reveal_with_fuel(pow16, 17);
}

/// The 64 little-endian bytes of eight words.
fn words_to_bytes(words: &[u64; 8]) -> (r: Vec<u8>)
    ensures
        r@ == words_bytes(words@),
{
    let mut out: Vec<u8> = Vec::new();
    let mut j: usize = 0;
    while j < 64
        invariant
            j <= 64,
            out@.len() == j,
            forall|n: int| 0 <= n < j ==> #[trigger] out@[n] == words_bytes(words@)[n],
        decreases 64 - j,
    {
        let w = words[j / 8];
        out.push(((w >> ((8 * (j % 8)) as u64)) & 0xff) as u8);
        j = j + 1;
    }
    assert(out@ =~= words_bytes(words@));
    out
}

/// Whether every exponent is at most 10.
fn check_exponents(sk: &[u32; 74]) -> (r: bool)
    ensures
        r == valid_exponents(sk@),
{
    let mut i: usize = 0;
    while i < 74
        invariant
            i <= 74,
            sk@.len() == 74,
            forall|k: int| 0 <= k < i ==> #[trigger] sk@[k] <= 10,
        decreases 74 - i,
    {
        if sk[i] > 10 {
            return false;
        }
        i = i + 1;
    }
    true
}

impl View for Exchange<CsidhPublic, ()> {
    type V = Seq<u64>;

    open spec fn view(&self) -> Seq<u64> {
        self.0@
    }
}

impl Encode for Exchange<CsidhPublic, ()> {
    open spec fn spec_encode(v: Seq<u64>) -> Seq<u8> {
        varints(v)
    }

    fn encode(&self) -> (r: Vec<u8>) {
        postcard_encode_words(&self.0)
    }
}

impl View for Exchange<CsidhPublic, CsidhPrivate> {
    type V = (Seq<u64>, Seq<u32>);

    open spec fn view(&self) -> (Seq<u64>, Seq<u32>) {
        (self.0@, self.1@)
    }
}

impl Encode for Exchange<CsidhPublic, CsidhPrivate> {
    open spec fn spec_encode(v: (Seq<u64>, Seq<u32>)) -> Seq<u8> {
        varints(v.0) + (varint(74) + varints32(v.1))
    }

    fn encode(&self) -> (r: Vec<u8>) {
        let public = postcard_encode_words(&self.0);
        let secret = postcard_encode_exponents(&self.1);
        crate::encoding::concat(public.as_slice(), secret.as_slice())
    }
}

impl Exchange<CsidhPublic, CsidhPrivate> {
    /// The exponents are valid and the public key is the one they derive.
    pub open spec fn well_formed(&self) -> bool {
        &&& valid_exponents(self.1@)
        &&& montgomery_words(csidh_public_repr(self.1@)) == Some(self.0@)
    }

    /// Generates a fresh CSIDH-512 key pair from random exponents.
    pub fn generate() -> (r: Self)
        ensures
            r.well_formed(),
    {
        let mut sk: [u32; 74] = [0u32; 74];
        let mut i: usize = 0;
        while i < 74
            invariant
                i <= 74,
                sk@.len() == 74,
                forall|k: int| 0 <= k < 74 ==> #[trigger] sk@[k] <= 10,
            decreases 74 - i,
        {
            sk[i] = random_exponent();
            i = i + 1;
        }
        let text = csidh_public_text(&sk);
        match parse_montgomery_words(&text) {
            Some(public) => Exchange(public, sk),
            None => {
                proof {
                    assert(false);
                }
                Exchange([0u64; 8], sk)
            },
        }
    }

    /// The secret shared with the owner of `pub_key`: `None` when this pair's
    /// exponents are not valid, or when `pub_key` is no CSIDH-512 public key.
    /// Both sides of an exchange agree: for any well-formed pair `other` whose
    /// public key is `pub_key`, `other` gets these bytes from this pair's
    /// public key.
    pub fn shared_secret(&self, pub_key: &Exchange<CsidhPublic, ()>) -> (r: SSCsidh)
        ensures
            r is Some ==> valid_exponents(self.1@)
                && montgomery_words(csidh_shared_repr(self.1@, pub_key.0@)) is Some
                && r.unwrap()@ == words_bytes(montgomery_words(csidh_shared_repr(self.1@, pub_key.0@)).unwrap()),
            !valid_exponents(self.1@) ==> r is None,
            self.well_formed() ==> forall|other: Exchange<CsidhPublic, CsidhPrivate>|
                other.well_formed() && #[trigger] other.0@ == pub_key.0@
                    ==> r is Some && r.unwrap()@ == words_bytes(montgomery_words(csidh_shared_repr(other.1@, self.0@)).unwrap()),
    {
        if !check_exponents(&self.1) {
            return None;
        }
        match csidh_shared_text(&self.1, &pub_key.0) {
            None => None,
            Some(text) => match parse_montgomery_words(&text) {
                Some(words) => Some(words_to_bytes(&words)),
                None => None,
            },
        }
    }
}

impl Exchangeable for Exchange<CsidhPublic, CsidhPrivate> {
    type Pub = Exchange<CsidhPublic, ()>;
    type SharedSecret = SSCsidh;

    fn new() -> (r: Self)
        ensures
            r.well_formed(),
    {
        Self::generate()
    }

    fn get_secret(&self, pub_key: &Exchange<CsidhPublic, ()>) -> (r: SSCsidh)
        ensures
            r is Some ==> r.unwrap()@ == words_bytes(montgomery_words(csidh_shared_repr(self.1@, pub_key.0@)).unwrap()),
            self.well_formed() ==> forall|other: Exchange<CsidhPublic, CsidhPrivate>|
                other.well_formed() && #[trigger] other.0@ == pub_key.0@
                    ==> r is Some && r.unwrap()@ == words_bytes(montgomery_words(csidh_shared_repr(other.1@, self.0@)).unwrap()),
    {
        self.shared_secret(pub_key)
    }
}

/// Powers of sixteen grow with the exponent.
proof fn lemma_pow16_monotonic(a: nat, b: nat)
    requires
        a <= b,
    ensures
        pow16(a) <= pow16(b),
    decreases b - a,
{
    if a < b {
        lemma_pow16_monotonic(a, (b - 1) as nat);
    }
}

} // verus!
