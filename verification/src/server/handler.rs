//! The pool of connected clients, and what the server does with each signal
//! a connection receives.

use vstd::prelude::*;
use crate::checksum::Checksumed;
use crate::crypt::KEYSTREAM_LIMIT;
use crate::encoding::{copy_bytes, Encode};
use crate::error::Error;
use crate::exchange::{x25519_shared, Exchange, PKEcdh, SKEcdh};
use crate::identity::{SKIdentity, Signed};
use crate::protocol::connection::ReceivedStatus;
use crate::compress::lz4_decompress;
use crate::protocol::signal::{Height, Signal, Subsignal, SubsignalModel};
use super::client::{Client, ClientSignal, Opened, ServerSignal, UserID, UserState};

verus! {

/// A peer's socket address: the IPv6 address (IPv4 addresses mapped into it)
/// and the port.
#[derive(Debug, Clone, Copy, PartialEq, Eq, Structural)]
pub struct PeerAddr {
    pub ip: u128,
    pub port: u16,
}

/// The connected clients, by socket address.
pub struct Handler {
    pub clients: Vec<(PeerAddr, Client)>,
}

/// The pool that a list of entries describes: later entries win.
pub open spec fn entries_map(s: Seq<(PeerAddr, Client)>) -> Map<PeerAddr, Client>
    decreases s.len(),
{
    if s.len() == 0 {
        Map::empty()
    } else {
        entries_map(s.drop_last()).insert(s.last().0, s.last().1)
    }
}

/// No address occurs twice.
pub open spec fn unique_addrs(s: Seq<(PeerAddr, Client)>) -> bool {
    forall|i: int, j: int| 0 <= i < s.len() && 0 <= j < s.len() && i != j ==> #[trigger] s[i].0 != #[trigger] s[j].0
}

/// An address is in the pool exactly when an entry has it.
proof fn lemma_entries_dom(s: Seq<(PeerAddr, Client)>, a: PeerAddr)
    ensures
        entries_map(s).dom().contains(a) <==> exists|i: int| 0 <= i < s.len() && #[trigger] s[i].0 == a,
    decreases s.len(),
{
    if s.len() > 0 {
        lemma_entries_dom(s.drop_last(), a);
        if entries_map(s.drop_last()).dom().contains(a) {
            let i = choose|i: int| 0 <= i < s.drop_last().len() && #[trigger] s.drop_last()[i].0 == a;
            assert(s[i].0 == a);
        }
        if exists|i: int| 0 <= i < s.len() && #[trigger] s[i].0 == a {
            let i = choose|i: int| 0 <= i < s.len() && #[trigger] s[i].0 == a;
            if i < s.len() - 1 {
                assert(s.drop_last()[i].0 == a);
            }
        }
    }
}

/// With unique addresses, the pool maps each entry's address to its client.
proof fn lemma_entries_value(s: Seq<(PeerAddr, Client)>, i: int)
    requires
        unique_addrs(s),
        0 <= i < s.len(),
    ensures
        entries_map(s).dom().contains(s[i].0),
        entries_map(s)[s[i].0] == s[i].1,
    decreases s.len(),
{
    lemma_entries_dom(s, s[i].0);
    if i < s.len() - 1 {
        assert(s[i].0 != s[s.len() - 1].0);
        assert(unique_addrs(s.drop_last()));
        assert(s.drop_last()[i] == s[i]);
        lemma_entries_value(s.drop_last(), i);
    }
}

/// What the connection does with a received signal.
pub enum Action {
    /// Send this signal back.
    Send(ServerSignal),
    /// Route this request (serialized) and hand the outcome to `Client::resolve`.
    Route(Vec<u8>),
    /// The client is gone from the pool; close the connection.
    Close,
}

impl View for Handler {
    type V = Map<PeerAddr, Client>;

    open spec fn view(&self) -> Map<PeerAddr, Client> {
        entries_map(self.clients@)
    }
}

impl Client {
    /// Two states hold the same values.
    pub open spec fn same_state(&self, other: &Client) -> bool {
        &&& self.user_id == other.user_id
        &&& self.height == other.height
        &&& self.shared_secret@ == other.shared_secret@
    }

    /// A copy of the client's state.
    pub fn snapshot(&self) -> (r: Client)
        ensures
            r.same_state(self),
    {
        let user_id = match &self.user_id {
            UserState::Pending(p) => UserState::Pending(*p),
            UserState::Known(id) => UserState::Known(*id),
        };
        let shared_secret = copy_bytes(&self.shared_secret);
        Client {
            user_id,
            height: Height { receiving: self.height.receiving, sending: self.height.sending },
            shared_secret,
        }
    }
}

impl Handler {
    /// No address occurs twice in the pool.
    pub open spec fn well_formed(&self) -> bool {
        unique_addrs(self.clients@)
    }

    /// An empty pool.
    pub fn new() -> (r: Self)
        ensures
            r.well_formed(),
            r@ == Map::<PeerAddr, Client>::empty(),
    {
        Handler { clients: Vec::new() }
    }

    /// The number of clients.
    pub fn len(&self) -> (r: usize)
        requires
            self.well_formed(),
        ensures
            r == self@.dom().len(),
    {
        proof {
            self.lemma_len();
        }
        self.clients.len()
    }

    /// The pool has as many clients as entries.
    proof fn lemma_len(&self)
        requires
            self.well_formed(),
        ensures
            self@.dom().finite(),
            self@.dom().len() == self.clients@.len(),
    {
        lemma_unique_len(self.clients@);
    }

    /// The entry holding `addr`, if any.
    fn position(&self, addr: PeerAddr) -> (r: Option<usize>)
        requires
            self.well_formed(),
        ensures
            r matches Some(i) ==> i < self.clients@.len() && self.clients@[i as int].0 == addr,
            r is None ==> !self@.dom().contains(addr),
    {
        let mut i: usize = 0;
        while i < self.clients.len()
            invariant
                i <= self.clients@.len(),
                forall|j: int| 0 <= j < i ==> #[trigger] self.clients@[j].0 != addr,
            decreases self.clients@.len() - i,
        {
            if self.clients[i].0 == addr {
                return Some(i);
            }
            i = i + 1;
        }
        proof {
            lemma_entries_dom(self.clients@, addr);
        }
        None
    }

    /// Adds a client under its address, replacing the one there was.
    pub fn new_client(&mut self, addr: PeerAddr, client: Client)
        requires
            old(self).well_formed(),
        ensures
            final(self).well_formed(),
            final(self)@ == old(self)@.insert(addr, client),
    {
        let ghost before = self.clients@;
        match self.position(addr) {
            Some(i) => {
                self.clients.set(i, (addr, client));
                proof {
                    let after = self.clients@;
                    assert(after == before.update(i as int, (addr, client)));
                    assert(unique_addrs(after)) by {
                        assert forall|j: int, k: int| 0 <= j < after.len() && 0 <= k < after.len() && j != k
                            implies #[trigger] after[j].0 != #[trigger] after[k].0 by {
                            assert(before[j].0 != before[k].0 || j == k);
                        }
                    }
                    assert(entries_map(after) =~= entries_map(before).insert(addr, client)) by {
                        assert forall|a: PeerAddr| #[trigger] entries_map(after).dom().contains(a)
                            <==> entries_map(before).insert(addr, client).dom().contains(a) by {
                            lemma_entries_dom(after, a);
                            lemma_entries_dom(before, a);
                            if a == addr {
                                assert(after[i as int].0 == addr);
                            }
                            if a != addr && entries_map(before).dom().contains(a) {
                                let j = choose|j: int| 0 <= j < before.len() && #[trigger] before[j].0 == a;
                                assert(after[j].0 == a);
                            }
                            if entries_map(after).dom().contains(a) {
                                let j = choose|j: int| 0 <= j < after.len() && #[trigger] after[j].0 == a;
                                if j != i {
                                    assert(before[j].0 == a);
                                }
                            }
                        }
                        assert forall|a: PeerAddr| #[trigger] entries_map(after).dom().contains(a)
                            implies entries_map(after)[a] == entries_map(before).insert(addr, client)[a] by {
                            lemma_entries_dom(after, a);
                            let j = choose|j: int| 0 <= j < after.len() && #[trigger] after[j].0 == a;
                            lemma_entries_value(after, j);
                            if j != i {
                                lemma_entries_value(before, j);
                            }
                        }
                    }
                }
            },
            None => {
                self.clients.push((addr, client));
                proof {
                    let after = self.clients@;
                    assert(after.drop_last() =~= before);
                    assert(unique_addrs(after)) by {
                        assert forall|j: int, k: int| 0 <= j < after.len() && 0 <= k < after.len() && j != k
                            implies #[trigger] after[j].0 != #[trigger] after[k].0 by {
                            if j < before.len() && k < before.len() {
                                assert(before[j].0 != before[k].0);
                            } else if j < before.len() {
                                lemma_entries_dom(before, addr);
                                assert(before[j].0 != addr);
                            } else {
                                lemma_entries_dom(before, addr);
                                assert(before[k].0 != addr);
                            }
                        }
                    }
                }
            },
        }
    }

    /// The client at `addr`.
    pub fn get_client(&self, addr: PeerAddr) -> (r: Option<&Client>)
        requires
            self.well_formed(),
        ensures
            r is Some <==> self@.dom().contains(addr),
            r matches Some(c) ==> *c == self@[addr],
    {
        match self.position(addr) {
            Some(i) => {
                proof {
                    lemma_entries_value(self.clients@, i as int);
                }
                Some(&self.clients[i].1)
            },
            None => None,
        }
    }

    /// A client authenticated as `user_id`, if any. Which one, when several
    /// are, is left open.
    pub fn get_client_by_user(&self, user_id: UserID) -> (r: Option<&Client>)
        requires
            self.well_formed(),
        ensures
            r matches Some(c) ==> c.user_id == UserState::Known(user_id)
                && exists|a: PeerAddr| #[trigger] self@.dom().contains(a) && self@[a] == *c,
            r is None ==> forall|a: PeerAddr| #[trigger] self@.dom().contains(a)
                ==> self@[a].user_id != UserState::Known(user_id),
    {
        let mut i: usize = 0;
        while i < self.clients.len()
            invariant
                i <= self.clients@.len(),
                unique_addrs(self.clients@),
                forall|j: int| 0 <= j < i ==> #[trigger] self.clients@[j].1.user_id != UserState::Known(user_id),
            decreases self.clients@.len() - i,
        {
            let known = match &self.clients[i].1.user_id {
                UserState::Known(id) => {
                    let e = crate::hash::bytes_equal(id, &user_id);
                    if e {
                        assert(id@ =~= user_id@);
                        assert(*id =~= user_id);
                    }
                    e
                },
                UserState::Pending(_) => false,
            };
            if known {
                proof {
                    lemma_entries_value(self.clients@, i as int);
                    assert(self.clients@[i as int].1.user_id == UserState::Known(user_id));
                }
                return Some(&self.clients[i].1);
            }
            i = i + 1;
        }
        proof {
            assert forall|a: PeerAddr| #[trigger] self@.dom().contains(a)
                implies self@[a].user_id != UserState::Known(user_id) by {
                lemma_entries_dom(self.clients@, a);
                let j = choose|j: int| 0 <= j < self.clients@.len() && #[trigger] self.clients@[j].0 == a;
                lemma_entries_value(self.clients@, j);
            }
        }
        None
    }

    /// Removes the client at `addr`.
    pub fn remove_client(&mut self, addr: PeerAddr)
        requires
            old(self).well_formed(),
        ensures
            final(self).well_formed(),
            final(self)@ == old(self)@.remove(addr),
    {
        let ghost before = self.clients@;
        match self.position(addr) {
            Some(i) => {
                self.clients.remove(i);
                proof {
                    let after = self.clients@;
                    assert(after == before.remove(i as int));
                    assert(unique_addrs(after)) by {
                        assert forall|j: int, k: int| 0 <= j < after.len() && 0 <= k < after.len() && j != k
                            implies #[trigger] after[j].0 != #[trigger] after[k].0 by {
                            let jj = if j < i { j } else { j + 1 };
                            let kk = if k < i { k } else { k + 1 };
                            assert(after[j] == before[jj]);
                            assert(after[k] == before[kk]);
                        }
                    }
                    assert(entries_map(after) =~= entries_map(before).remove(addr)) by {
                        assert forall|a: PeerAddr| #[trigger] entries_map(after).dom().contains(a)
                            <==> entries_map(before).remove(addr).dom().contains(a) by {
                            lemma_entries_dom(after, a);
                            lemma_entries_dom(before, a);
                            if entries_map(after).dom().contains(a) {
                                let j = choose|j: int| 0 <= j < after.len() && #[trigger] after[j].0 == a;
                                let jj = if j < i { j } else { j + 1 };
                                assert(before[jj].0 == a);
                                assert(jj != i);
                                assert(a != addr);
                            }
                            if a != addr && entries_map(before).dom().contains(a) {
                                let j = choose|j: int| 0 <= j < before.len() && #[trigger] before[j].0 == a;
                                assert(j != i);
                                let jj = if j < i { j } else { j - 1 };
                                assert(after[jj].0 == a);
                            }
                        }
                        assert forall|a: PeerAddr| #[trigger] entries_map(after).dom().contains(a)
                            implies entries_map(after)[a] == entries_map(before).remove(addr)[a] by {
                            lemma_entries_dom(after, a);
                            let j = choose|j: int| 0 <= j < after.len() && #[trigger] after[j].0 == a;
                            let jj = if j < i { j } else { j + 1 };
                            lemma_entries_value(after, j);
                            lemma_entries_value(before, jj);
                        }
                    }
                }
            },
            None => {
                assert(entries_map(before) =~= entries_map(before).remove(addr));
            },
        }
    }

    /// Closes a connection: a client that shook hands leaves the pool.
    pub fn close_connection(&mut self, addr: PeerAddr, client: bool)
        requires
            old(self).well_formed(),
        ensures
            final(self).well_formed(),
            client ==> final(self)@ == old(self)@.remove(addr),
            !client ==> final(self)@ == old(self)@,
    {
        if client {
            self.remove_client(addr);
        }
    }

    /// Handles what a connection received. A handshake creates the client's
    /// state, adds it to the pool under `addr` and answers with the server's
    /// public key for this client, signed by `identity`. A subsignal is opened
    /// by the connection's client: a request goes to routing, a disconnection
    /// removes the client from the pool. Refused: a failed receive, a
    /// corrupted handshake, a subsignal before the handshake ("Non-handshaked
    /// connection attempted to send subsignal"), a signal error from the
    /// client ("Stream invalidated by client!") and what opening refuses.
    pub fn handle_signal(
        &mut self,
        identity: &SKIdentity,
        addr: PeerAddr,
        client: &mut Option<Client>,
        received: Result<ClientSignal, ReceivedStatus>,
    ) -> (r: Result<Action, Error>)
        requires
            old(self).well_formed(),
            (*old(client)) matches Some(c) ==> c.height.receiving < u128::MAX,
            received matches Ok(s) ==> s.ciphertext_len() <= KEYSTREAM_LIMIT,
        ensures
            final(self).well_formed(),
            received matches Err(status) ==> r == Err::<Action, Error>(Error::Received(status))
                && *final(self) == *old(self) && *final(client) == *old(client),
            received matches Ok(Signal::Error(_)) ==> r == Err::<Action, Error>(Error::Invalidated)
                && *final(self) == *old(self) && *final(client) == *old(client),
            received matches Ok(Signal::Handshake(c)) && !c.is_intact() ==> r == Err::<Action, Error>(Error::Corrupted)
                && *final(self) == *old(self) && *final(client) == *old(client),
            received matches Ok(Signal::Handshake(c)) ==> (c.is_intact() ==> (r matches Ok(Action::Send(Signal::Handshake(h)))
                && h.is_intact()
                && (identity.paired() ==> h.data.signed_by(identity.0@))
                && (*final(client) matches Some(n) && exists|e: SKEcdh| #[trigger] e.well_formed() && h.data.0 == Exchange(e.0, ())
                    && n.shared_secret@ == x25519_shared(e.1@, c.data.0@)))),
            received matches Ok(Signal::Handshake(c)) && c.is_intact() ==> (*final(client) matches Some(n)
                && final(self)@.dom() == old(self)@.dom().insert(addr)
                && final(self)@.remove(addr) == old(self)@.remove(addr)
                && final(self)@[addr].same_state(&n)
                && n.user_id == UserState::Pending(None)
                && n.height.receiving == 0 && n.height.sending == 0),
            received matches Ok(Signal::Subsignal(_, _)) && (*old(client)) is None
                ==> r == Err::<Action, Error>(Error::NotHandshaked) && *final(self) == *old(self) && *final(client) == *old(client),
            received matches Ok(Signal::Subsignal(_, _)) && (*old(client)) is Some ==> (*final(client)) is Some,
            r matches Ok(Action::Route(_)) ==> final(self)@ == old(self)@,
            r is Err ==> final(self)@ == old(self)@,
            received matches Ok(s) ==> (s is Subsignal ==> ((*old(client)) matches Some(c) ==> (
                (s.height() != c.height.receiving ==> r == Err::<Action, Error>(Error::InvalidHeight))
                && (s.height() == c.height.receiving ==> final(client).unwrap().height.receiving == c.height.receiving + 1)))),
            r matches Ok(Action::Close) ==> final(self)@ == old(self)@.remove(addr),
            received matches Ok(s) ==> (s is Subsignal ==> ((*old(client)) matches Some(c) ==> (
                final(client).unwrap().height.sending == c.height.sending
                && final(client).unwrap().user_id == c.user_id
                && final(client).unwrap().shared_secret == c.shared_secret
                && (s.height() != c.height.receiving ==> final(client).unwrap().height == c.height)
                && (s.height() == c.height.receiving && !s.subsignal_intact() ==> r == Err::<Action, Error>(Error::Corrupted))
                && (s.height() == c.height.receiving && s.subsignal_intact()
                    && (forall|v: SubsignalModel| #[trigger] Subsignal::spec_encode(v) != s.opened(c.shared_secret@))
                    ==> r == Err::<Action, Error>(Error::Malformed))
                && (s.height() == c.height.receiving && s.subsignal_intact() ==> forall|v: SubsignalModel|
                    #[trigger] Subsignal::spec_encode(v) == s.opened(c.shared_secret@) ==> match v {
                        SubsignalModel::Content(z) => match lz4_decompress(z) {
                            Some(b) => (r matches Ok(Action::Route(q)) && q@ == b),
                            None => r == Err::<Action, Error>(Error::DecompressionFailed),
                        },
                        SubsignalModel::Error(e) => r == Err::<Action, Error>(Error::Peer(e)),
                        SubsignalModel::Disconnect => (r matches Ok(Action::Close)),
                    })))),
    {
        let signal = match received {
            Err(status) => return Err(Error::Received(status)),
            Ok(s) => s,
        };
        match signal {
            Signal::Handshake(checksumed) => {
                let pk_exchange: PKEcdh = match checksumed.take() {
                    Ok(pk) => pk,
                    Err(e) => return Err(e),
                };
                let (new_client, gen_pk_exchange) = Client::new(&pk_exchange);
                let pooled = new_client.snapshot();
                *client = Some(new_client);
                self.new_client(addr, pooled);
                let signed = Signed::new(identity, gen_pk_exchange);
                match Checksumed::new(signed) {
                    Ok(c) => Ok(Action::Send(Signal::Handshake(c))),
                    Err(e) => Err(e),
                }
            },
            Signal::Subsignal(height, body) => {
                match client {
                    None => Err(Error::NotHandshaked),
                    Some(c) => match c.handle_subsignal(height, Signal::Subsignal(height, body)) {
                        Ok(Opened::Request(bytes)) => Ok(Action::Route(bytes)),
                        Ok(Opened::Disconnect) => {
                            self.close_connection(addr, true);
                            Ok(Action::Close)
                        },
                        Err(e) => Err(e),
                    },
                }
            },
            Signal::Error(_) => Err(Error::Invalidated),
        }
    }
}

/// A list of entries with unique addresses describes a pool of as many clients.
proof fn lemma_unique_len(s: Seq<(PeerAddr, Client)>)
    requires
        unique_addrs(s),
    ensures
        entries_map(s).dom().finite(),
        entries_map(s).dom().len() == s.len(),
    decreases s.len(),
{
    if s.len() > 0 {
        let t = s.drop_last();
        assert(unique_addrs(t));
        lemma_unique_len(t);
        lemma_entries_dom(t, s.last().0);
        if entries_map(t).dom().contains(s.last().0) {
            let i = choose|i: int| 0 <= i < t.len() && #[trigger] t[i].0 == s.last().0;
            assert(s[i].0 == s[s.len() - 1].0);
        }
    }
}

} // verus!
