//! Typed identifiers of the wire protocol.
//!
//! Every identifier is a newtype, so that one cannot stand where another is
//! expected. On the wire each is a fixed-size value without a length prefix.

use vstd::prelude::*;

verus! {

/// Server-assigned identifier of a registered tunnel.
#[derive(Copy, Clone, Debug, PartialEq, Eq, Hash, Structural)]
pub struct TunnelId(pub u64);

impl TunnelId {
    /// The raw identifier.
    pub fn get(self) -> (id: u64)
        ensures
            id == self.0,
    {
        self.0
    }
}

impl From<u64> for TunnelId {
    fn from(v: u64) -> (r: TunnelId) {
        TunnelId(v)
    }
}

impl vstd::std_specs::convert::FromSpecImpl<u64> for TunnelId {
    open spec fn obeys_from_spec() -> bool {
        true
    }

    open spec fn from_spec(v: u64) -> TunnelId {
        TunnelId(v)
    }
}

/// Server-issued session identifier, used to resume a lease.
#[derive(Copy, Clone, Debug, PartialEq, Eq, Hash)]
pub struct SessionId(pub [u8; 16]);

/// Random challenge that the server sends during authentication.
#[derive(Copy, Clone, Debug, PartialEq, Eq)]
pub struct Nonce(pub [u8; 32]);

/// Ed25519 public key.
#[derive(Copy, Clone, Debug, PartialEq, Eq, Hash)]
pub struct PubKey(pub [u8; 32]);

/// Ed25519 signature over the domain-separated challenge: 64 raw bytes.
#[derive(Copy, Clone, Debug, PartialEq, Eq)]
pub struct Signature(pub [u8; 64]);

/// Two byte arrays are equal when their bytes are.
pub(crate) fn same_bytes(a: &[u8], b: &[u8]) -> (r: bool)
    ensures
        r == (a@ == b@),
{
    if a.len() != b.len() {
        return false;
    }
    let mut i: usize = 0;
    while i < a.len()
        invariant
            i <= a@.len(),
            a@.len() == b@.len(),
            forall|j: int| 0 <= j < i ==> a@[j] == b@[j],
        decreases a@.len() - i,
    {
        if a[i] != b[i] {
            return false;
        }
        i += 1;
    }
    assert(a@ =~= b@);
    true
}

/// Whether two public keys are the same key.
pub fn same_key(a: &PubKey, b: &PubKey) -> (r: bool)
    ensures
        r == (*a == *b),
{
    let r = same_bytes(a.0.as_slice(), b.0.as_slice());
    assert(a.0@ == b.0@ ==> a.0 == b.0);
    r
}

} // verus!
