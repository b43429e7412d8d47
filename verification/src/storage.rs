//! Storage of records by key: the keys, and the search over a table's
//! entries. Reading and writing the database file, and decoding the stored
//! values, is left to the caller, which hands over each entry's key bytes and
//! what its value came to.

use vstd::prelude::*;
use crate::encoding::{Decode, Encode};
use crate::error::Error;

verus! {

/// A key of a table: fixed-size bytes.
pub trait Key: Sized {
    /// The key's bytes.
    spec fn key_bytes(&self) -> Seq<u8>;

    /// The number of bytes of a key.
    spec fn key_len() -> nat;

    /// The key's bytes.
    fn as_slice(&self) -> (r: &[u8])
        ensures
            r@ == self.key_bytes(),
    ;

    /// The key with these bytes ("Invalid size!" when the length is not the key's).
    fn into_key(value: &[u8]) -> (r: Result<Self, Error>)
        ensures
            r is Ok <==> value@.len() == Self::key_len(),
            r matches Ok(k) ==> k.key_bytes() == value@,
            r is Err ==> r == Err::<Self, Error>(Error::InvalidSize),
    ;
}

/// A value of a table: written and read back with the library's encoding.
pub trait Value: Encode + Decode {}

impl<T: Encode + Decode> Value for T {}

/// Copies 16 bytes into an array.
fn array16(value: &[u8]) -> (r: [u8; 16])
    requires
        value@.len() == 16,
    ensures
        r@ == value@,
{
    let mut a: [u8; 16] = [0u8; 16];
    let mut i: usize = 0;
    while i < 16
        invariant
            i <= 16,
            value@.len() == 16,
            forall|j: int| 0 <= j < i ==> #[trigger] a@[j] == value@[j],
        decreases 16 - i,
    {
        a[i] = value[i];
        i = i + 1;
    }
    assert(a@ =~= value@);
    a
}

/// Copies 32 bytes into an array.
fn array32(value: &[u8]) -> (r: [u8; 32])
    requires
        value@.len() == 32,
    ensures
        r@ == value@,
{
    let mut a: [u8; 32] = [0u8; 32];
    let mut i: usize = 0;
    while i < 32
        invariant
            i <= 32,
            value@.len() == 32,
            forall|j: int| 0 <= j < i ==> #[trigger] a@[j] == value@[j],
        decreases 32 - i,
    {
        a[i] = value[i];
        i = i + 1;
    }
    assert(a@ =~= value@);
    a
}

/// User ids.
impl Key for [u8; 16] {
    open spec fn key_bytes(&self) -> Seq<u8> {
        self@
    }

    open spec fn key_len() -> nat {
        16
    }

    fn as_slice(&self) -> (r: &[u8]) {
        self.as_slice()
    }

    fn into_key(value: &[u8]) -> (r: Result<Self, Error>) {
        if value.len() != 16 {
            return Err(Error::InvalidSize);
        }
        Ok(array16(value))
    }
}

/// Device ids.
impl Key for [u8; 32] {
    open spec fn key_bytes(&self) -> Seq<u8> {
        self@
    }

    open spec fn key_len() -> nat {
        32
    }

    fn as_slice(&self) -> (r: &[u8]) {
        self.as_slice()
    }

    fn into_key(value: &[u8]) -> (r: Result<Self, Error>) {
        if value.len() != 32 {
            return Err(Error::InvalidSize);
        }
        Ok(array32(value))
    }
}

/// What a search found: the first match (a unique search), or all matches.
pub enum Found<K> {
    Unique(Option<K>),
    All(Vec<K>),
}

/// The positions of the entries whose stored value matched, in order.
pub open spec fn matching(entries: Seq<(Seq<u8>, Option<bool>)>) -> Seq<int>
    decreases entries.len(),
{
    if entries.len() == 0 {
        Seq::empty()
    } else if entries.last().1 == Some(true) {
        matching(entries.drop_last()).push(entries.len() - 1)
    } else {
        matching(entries.drop_last())
    }
}

/// The entries with their keys as byte strings.
pub open spec fn entries_view(entries: Seq<(Vec<u8>, Option<bool>)>) -> Seq<(Seq<u8>, Option<bool>)> {
    Seq::new(entries.len(), |i: int| (entries[i].0@, entries[i].1))
}

/// Every stored value before position `n` decoded and differs from the predicate.
pub open spec fn passed_before(entries: Seq<(Seq<u8>, Option<bool>)>, n: int) -> bool {
    forall|j: int| 0 <= j < n ==> #[trigger] entries[j].1 == Some(false)
}

/// Every stored value decoded.
pub open spec fn all_decoded(entries: Seq<(Seq<u8>, Option<bool>)>) -> bool {
    forall|j: int| 0 <= j < entries.len() ==> #[trigger] entries[j].1 is Some
}

/// Searches a table for the keys whose value is the predicate. Each entry is
/// the key's bytes and the outcome of decoding the stored value and comparing
/// it with the predicate: `Some(true)` when it decoded to the predicate,
/// `Some(false)` when it decoded to another value, `None` when it did not
/// decode. A unique search takes the entries in order and stops at the first
/// that matched or did not decode; the other collects every match in order.
/// Refused: a stored value that does not decode ("Malformed"), and a matching
/// entry whose key has the wrong length ("Invalid size!").
pub fn search<K: Key>(entries: &Vec<(Vec<u8>, Option<bool>)>, unique: bool) -> (r: Result<Found<K>, Error>)
    ensures
        unique ==> match r {
            Ok(Found::Unique(Some(k))) => exists|s: int| 0 <= s < entries@.len() && passed_before(entries_view(entries@), s)
                && #[trigger] entries@[s].1 == Some(true) && k.key_bytes() == entries@[s].0@,
            Ok(Found::Unique(None)) => passed_before(entries_view(entries@), entries@.len() as int),
            Ok(Found::All(_)) => false,
            Err(e) => exists|s: int| 0 <= s < entries@.len() && passed_before(entries_view(entries@), s)
                && ((#[trigger] entries@[s].1 is None && e == Error::Malformed)
                    || (entries@[s].1 == Some(true) && entries@[s].0@.len() != K::key_len() && e == Error::InvalidSize)),
        },
        !unique ==> match r {
            Ok(Found::All(keys)) => all_decoded(entries_view(entries@))
                && keys@.len() == matching(entries_view(entries@)).len()
                && forall|i: int| 0 <= i < keys@.len() ==> #[trigger] keys@[i].key_bytes()
                    == entries@[matching(entries_view(entries@))[i]].0@
                    && entries@[matching(entries_view(entries@))[i]].0@.len() == K::key_len(),
            Ok(Found::Unique(_)) => false,
            Err(e) => (e == Error::Malformed && !all_decoded(entries_view(entries@)))
                || (e == Error::InvalidSize && exists|i: int| 0 <= i < matching(entries_view(entries@)).len()
                    && #[trigger] entries@[matching(entries_view(entries@))[i]].0@.len() != K::key_len()),
        },
{
    let ghost view = entries_view(entries@);
    let mut found: Vec<K> = Vec::new();
    let mut i: usize = 0;
    while i < entries.len()
        invariant
            i <= entries@.len(),
            view == entries_view(entries@),
            found@.len() == matching(view.subrange(0, i as int)).len(),
            forall|j: int| 0 <= j < found@.len() ==> #[trigger] found@[j].key_bytes()
                == entries@[matching(view.subrange(0, i as int))[j]].0@
                && entries@[matching(view.subrange(0, i as int))[j]].0@.len() == K::key_len(),
            unique ==> found@.len() == 0 && passed_before(view, i as int),
            forall|j: int| 0 <= j < i ==> #[trigger] view[j].1 is Some,
            forall|j: int| 0 <= j < matching(view.subrange(0, i as int)).len()
                ==> 0 <= #[trigger] matching(view.subrange(0, i as int))[j] < i,
        decreases entries@.len() - i,
    {
        let ghost before = view.subrange(0, i as int);
        let ghost after = view.subrange(0, i + 1);
        proof {
            assert(after.drop_last() =~= before);
            assert(after.last() == view[i as int]);
        }
        match entries[i].1 {
            None => {
                proof {
                    assert(view[i as int].1 is None);
                    assert(!all_decoded(view));
                }
                return Err(Error::Malformed);
            },
            Some(false) => {
                proof {
                    assert(matching(after) == matching(before));
                }
            },
            Some(true) => {
                proof {
                    assert(matching(after) == matching(before).push(i as int));
                }
                let key = match K::into_key(entries[i].0.as_slice()) {
                    Ok(k) => k,
                    Err(e) => {
                        proof {
                            if !unique {
                                let m = matching(after);
                                lemma_matching_prefix(view, i + 1, entries@.len() as int);
                                assert(view =~= view.subrange(0, entries@.len() as int));
                                assert(m[found@.len() as int] == i);
                                assert(matching(view)[found@.len() as int] == i);
                            }
                        }
                        return Err(e);
                    },
                };
                if unique {
                    return Ok(Found::Unique(Some(key)));
                }
                let ghost old_found = found@;
                found.push(key);
                proof {
                    assert forall|j: int| 0 <= j < found@.len() implies #[trigger] found@[j].key_bytes()
                        == entries@[matching(after)[j]].0@
                        && entries@[matching(after)[j]].0@.len() == K::key_len() by {
                        if j < old_found.len() {
                            assert(found@[j] == old_found[j]);
                        } else {
                            assert(matching(after)[j] == i);
                        }
                    }
                }
            },
        }
        i = i + 1;
    }
    proof {
        assert(view.subrange(0, entries@.len() as int) =~= view);
    }
    if unique {
        Ok(Found::Unique(None))
    } else {
        Ok(Found::All(found))
    }
}

/// The matches of a prefix are the first matches of a longer prefix.
proof fn lemma_matching_prefix(s: Seq<(Seq<u8>, Option<bool>)>, n: int, m: int)
    requires
        0 <= n <= m <= s.len(),
    ensures
        matching(s.subrange(0, n)).len() <= matching(s.subrange(0, m)).len(),
        forall|j: int| 0 <= j < matching(s.subrange(0, n)).len()
            ==> #[trigger] matching(s.subrange(0, m))[j] == matching(s.subrange(0, n))[j],
    decreases m - n,
{
    if n < m {
        lemma_matching_prefix(s, n, m - 1);
        assert(s.subrange(0, m).drop_last() =~= s.subrange(0, m - 1));
    }
}

/// An update needs the key to be present ("Key doesn't exist!").
pub fn check_update(exists: bool) -> (r: Result<(), Error>)
    ensures
        exists <==> r is Ok,
        r is Err ==> r == Err::<(), Error>(Error::MissingKey),
{
    if exists {
        Ok(())
    } else {
        Err(Error::MissingKey)
    }
}

/// The matches of a search are exactly the positions of the entries whose
/// value matched, each once and in increasing order.
pub proof fn lemma_matching_positions(entries: Seq<(Seq<u8>, Option<bool>)>)
    ensures
        forall|j: int| 0 <= j < matching(entries).len() ==> 0 <= #[trigger] matching(entries)[j] < entries.len()
            && entries[matching(entries)[j]].1 == Some(true),
        forall|j: int, k: int| 0 <= j < k < matching(entries).len()
            ==> #[trigger] matching(entries)[j] < #[trigger] matching(entries)[k],
        forall|p: int| 0 <= p < entries.len() && #[trigger] entries[p].1 == Some(true)
            ==> exists|j: int| 0 <= j < matching(entries).len() && matching(entries)[j] == p,
    decreases entries.len(),
{
    if entries.len() > 0 {
        let rest = entries.drop_last();
        lemma_matching_positions(rest);
        let m = matching(entries);
        let mr = matching(rest);
        assert forall|j: int| 0 <= j < m.len() implies 0 <= #[trigger] m[j] < entries.len()
            && entries[m[j]].1 == Some(true) by {
            if j < mr.len() {
                assert(m[j] == mr[j]);
                assert(entries[mr[j]] == rest[mr[j]]);
            }
        }
        assert forall|p: int| 0 <= p < entries.len() && #[trigger] entries[p].1 == Some(true)
            implies exists|j: int| 0 <= j < m.len() && m[j] == p by {
            if p < entries.len() - 1 {
                assert(rest[p] == entries[p]);
                let j = choose|j: int| 0 <= j < mr.len() && mr[j] == p;
                assert(m[j] == p);
            } else {
                assert(m[mr.len() as int] == p);
            }
        }
    }
}

} // verus!
