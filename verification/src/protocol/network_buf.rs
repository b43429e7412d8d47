//! The buffer that network requests are read into.

use vstd::prelude::*;

verus! {

/// The buffer size for authenticated peers.
pub const BUF_SIZE: usize = 33554432;

/// The buffer size for peers that are not authenticated.
pub const REDUCED_BUF_SIZE: usize = 4096;

/// A request buffer, small until the peer is authenticated.
pub struct NetworkBuf(pub Vec<u8>);

/// `len` zero bytes.
pub open spec fn zeros(len: nat) -> Seq<u8> {
    Seq::new(len, |i: int| 0u8)
}

impl NetworkBuf {
    /// Creates a reduced buffer, zeroed.
    pub fn new() -> (r: Self)
        ensures
            r.0@ == zeros(REDUCED_BUF_SIZE as nat),
    {
        NetworkBuf(Self::zeroed(REDUCED_BUF_SIZE))
    }

    fn zeroed(len: usize) -> (r: Vec<u8>)
        ensures
            r@ == zeros(len as nat),
    {
        let mut v: Vec<u8> = Vec::new();
        let mut i: usize = 0;
        while i < len
            invariant
                i <= len,
                v@ == zeros(i as nat),
            decreases len - i,
        {
            v.push(0u8);
            i = i + 1;
            assert(v@ =~= zeros(i as nat));
        }
        v
    }

    /// Resets the buffer, reduced or full size depending on whether the peer
    /// is authenticated, and lends it out for reading into.
    pub fn buffer(&mut self, reduced: bool) -> (r: &mut [u8])
        ensures
            r@ == zeros(if reduced { REDUCED_BUF_SIZE as nat } else { BUF_SIZE as nat }),
            final(self).0@ == final(r)@,
    {
        self.0 = if reduced { Self::zeroed(REDUCED_BUF_SIZE) } else { Self::zeroed(BUF_SIZE) };
        self.0.as_mut_slice()
    }

    /// The buffer's contents.
    pub fn contents(&self) -> (r: &[u8])
        ensures
            r@ == self.0@,
    {
        self.0.as_slice()
    }
}

} // verus!
