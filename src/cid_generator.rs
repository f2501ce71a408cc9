//! Producers of fresh connection identifiers.
use rand::RngCore;
use vstd::prelude::*;

use crate::shared::{ConnectionId, MAX_CID_SIZE};

verus! {

/// Generates connection identifiers for incoming connections.
pub trait ConnectionIdGenerator: Send {
    /// The length of the identifiers this generator produces.
    spec fn spec_cid_len(&self) -> usize;

    /// Generates a new identifier of `cid_len()` bytes.
    ///
    /// The identifier must not hold anything that lets an observer who does
    /// not cooperate with the issuer correlate it with other identifiers of
    /// the same connection.
    fn generate_cid(&mut self) -> (r: ConnectionId)
        ensures
            r@.len() == old(self).spec_cid_len(),
            r.wf(),
            final(self).spec_cid_len() == old(self).spec_cid_len(),
    ;

    /// Checks an identifier that may still sit in a lookup table but that
    /// the application no longer considers valid (for instance, one older
    /// than the validity window of a keyed tag). Accepts every identifier
    /// unless overridden.
    fn validate_cid(&mut self, cid: &ConnectionId) -> (r: bool)
        ensures
            final(self).spec_cid_len() == old(self).spec_cid_len(),
        default_ensures
            r,
    {
        true
    }

    /// The length of the identifiers of connections made by this generator.
    fn cid_len(&self) -> (r: usize)
        ensures
            r == self.spec_cid_len(),
    ;
}

/// Generates purely random connection identifiers of a fixed length.
#[derive(Debug, Clone, Copy)]
pub struct RandomConnectionIdGenerator {
    cid_len: usize,
}

impl RandomConnectionIdGenerator {
    #[verifier::type_invariant]
    spec fn fits(&self) -> bool {
        self.cid_len <= MAX_CID_SIZE
    }

    /// A generator of identifiers of `cid_len` bytes, at most `MAX_CID_SIZE`.
    pub fn new(cid_len: usize) -> (r: Self)
        requires
            cid_len <= MAX_CID_SIZE,
        ensures
            r.spec_cid_len() == cid_len,
    {
        RandomConnectionIdGenerator { cid_len }
    }
}

impl Default for RandomConnectionIdGenerator {
    /// A generator of 8-byte identifiers.
    fn default() -> (r: Self)
        ensures
            r.spec_cid_len() == 8,
    {
        RandomConnectionIdGenerator { cid_len: 8 }
    }
}

/// Relies on rand's `thread_rng().fill_bytes`: it overwrites the slice with
/// random bytes and leaves its length as it was. (It panics only if the
/// operating system's random source cannot seed the generator.)
#[verifier::external_body]
fn fill_random(buf: &mut Vec<u8>)
    ensures
        final(buf)@.len() == old(buf)@.len(),
{
    rand::thread_rng().fill_bytes(buf.as_mut_slice())
}

impl ConnectionIdGenerator for RandomConnectionIdGenerator {
    closed spec fn spec_cid_len(&self) -> usize {
        self.cid_len
    }

    fn generate_cid(&mut self) -> (r: ConnectionId) {
        proof {
            use_type_invariant(&*self);
        }
        let mut bytes: Vec<u8> = Vec::new();
        let mut i: usize = 0;
        while i < self.cid_len
            invariant
                i <= self.cid_len,
                bytes@.len() == i,
            decreases self.cid_len - i,
        {
            bytes.push(0);
            i += 1;
        }
        fill_random(&mut bytes);
        ConnectionId::new(bytes.as_slice())
    }

    fn cid_len(&self) -> (r: usize) {
        self.cid_len
    }
}

} // verus!
