//! Identities of validators and peers.

use vstd::prelude::*;

verus! {

/// A validator's public signing key.
#[derive(Clone, Copy, Debug, PartialEq, Eq, Hash)]
pub struct PublicKey(pub [u8; 32]);

/// A node's secret signing key.
#[derive(Clone, Copy, Debug, PartialEq, Eq)]
pub struct SecretKey(pub [u8; 32]);

/// The identity of a network peer.
#[derive(Clone, Copy, Debug, PartialEq, Eq, Hash)]
pub struct NodeId(pub u64);

} // verus!
