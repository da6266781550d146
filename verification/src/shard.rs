//! The legacy-compatible name hash and the ring that it selects from.

use crate::statsd::StatsdPDU;
use vstd::prelude::*;

verus! {

/// The seed of the name hash, the same as in the legacy relay.
pub const HASHLIB_SEED: u32 = 0xaccd3d34;

/// What `murmur3::murmur3_32` returns for a reader over `data` and `seed`:
/// the 32-bit digest, or nothing where the crate reported a read error.
pub uninterp spec fn murmur3_32_digest(data: Seq<u8>, seed: u32) -> Option<u32>;

/// Calls `murmur3::murmur3_32` on an in-memory reader over `data`. The result
/// is assumed to depend on the bytes and the seed alone. The crate counts the
/// bytes it has read in a `u32`, so longer inputs are excluded.
#[verifier::external_body]
fn murmur3_32(data: &[u8], seed: u32) -> (r: Option<u32>)
    requires
        data@.len() <= u32::MAX,
    ensures
        r == murmur3_32_digest(data@, seed),
{
    match murmur3::murmur3_32(&mut std::io::Cursor::new(data), seed) {
        Ok(digest) => Some(digest),
        Err(_) => None,
    }
}

/// The hash code of a metric name: its seeded digest, and `0` where there is
/// no digest to be had (the name is too long to count, or the read failed).
pub open spec fn compat_hash(name: Seq<u8>) -> u32 {
    if name.len() <= u32::MAX {
        match murmur3_32_digest(name, HASHLIB_SEED) {
            Some(digest) => digest,
            None => 0,
        }
    } else {
        0
    }
}

/// The hash code by which a line is sharded: [`compat_hash`] of its name.
pub fn statsrelay_compat_hash(pdu: &StatsdPDU) -> (r: u32)
    ensures
        r == compat_hash(pdu@.name),
{
    let name = pdu.name();
    if name.len() > u32::MAX as usize {
        return 0;
    }
    match murmur3_32(name, HASHLIB_SEED) {
        Some(digest) => digest,
        None => 0,
    }
}

/// The slot that `code` selects in a ring of `len` members.
pub open spec fn slot_of(code: u32, len: nat) -> int
    recommends
        len > 0,
{
    (code as int) % (len as int)
}

/// Members in insertion order, selected by a hash code modulo the length.
pub struct Ring<C: Send + Sync + 'static> {
    members: Vec<C>,
}

impl<C: Send + Sync + 'static> View for Ring<C> {
    type V = Seq<C>;

    closed spec fn view(&self) -> Seq<C> {
        self.members@
    }
}

impl<C: Send + Sync + 'static> Ring<C> {
    /// An empty ring.
    pub fn new() -> (r: Self)
        ensures
            r@ == Seq::<C>::empty(),
    {
        Ring { members: Vec::new() }
    }

    /// Adds a member after the ones already there.
    pub fn push(&mut self, c: C)
        ensures
            final(self)@ == old(self)@.push(c),
    {
        self.members.push(c);
    }

    /// The number of members.
    pub fn len(&self) -> (r: usize)
        ensures
            r == self@.len(),
    {
        self.members.len()
    }

    /// The member in slot `i`.
    pub fn member_at(&self, i: usize) -> (r: &C)
        requires
            i < self@.len(),
        ensures
            *r == self@[i as int],
    {
        &self.members[i]
    }

    /// The member that `code` selects. The ring must not be empty.
    pub fn pick_from(&self, code: u32) -> (r: &C)
        requires
            self@.len() > 0,
        ensures
            *r == self@[slot_of(code, self@.len())],
    {
        let l = self.members.len();
        &self.members[code as usize % l]
    }

    /// Applies `f` to the member that `code` selects, in place; the other
    /// members stay as they are. The ring must not be empty, and `f` must
    /// accept that member.
    pub fn act_on<F>(&mut self, code: u32, mut f: F) where F: FnMut(&mut C)
        requires
            old(self)@.len() > 0,
            forall|c: &mut C|
                *c == old(self)@[slot_of(code, old(self)@.len())] ==> call_requires(f, (c,)),
        ensures
            final(self)@.len() == old(self)@.len(),
            forall|i: int|
                0 <= i < old(self)@.len() && i != slot_of(code, old(self)@.len())
                    ==> final(self)@[i] == old(self)@[i],
            exists|c: &mut C|
                {
                    &&& *c == old(self)@[slot_of(code, old(self)@.len())]
                    &&& *final(c) == final(self)@[slot_of(code, old(self)@.len())]
                    &&& call_ensures(f, (c,), ())
                },
    {
        let len = self.members.len();
        let c = &mut self.members[code as usize % len];
        f(c);
    }

    /// Replaces the members by those of `other`.
    pub fn swap(&mut self, other: Ring<C>)
        ensures
            final(self)@ == other@,
    {
        self.members = other.members;
    }
}


} // verus!
