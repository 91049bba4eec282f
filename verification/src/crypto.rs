//! The values that the cryptographic primitives work on, as plain bytes.
//!
//! The primitives themselves are collaborators of this library: public-key
//! authenticated encryption with precomputed keys, detached-style signatures
//! that put the signature in front of the message, symmetric sealing and a
//! digest. The library never computes them; it takes their outcomes and
//! decides what follows.

use vstd::prelude::*;
use crate::bytes::{array32, bytes_eq};

verus! {

/// Number of bytes of a public key.
pub const PUBLICKEYBYTES: usize = 32;

/// Number of bytes of a nonce.
pub const NONCEBYTES: usize = 24;

/// Number of bytes of a digest.
pub const DIGESTBYTES: usize = 32;

/// Number of bytes that a signature puts in front of the signed message.
pub const SIGNATUREBYTES: usize = 64;

/// A public key for authenticated encryption.
#[derive(Debug, Clone, Copy, PartialEq, Eq, Hash)]
pub struct PublicKey(pub [u8; 32]);

/// A public key against which signatures are verified.
#[derive(Debug, Clone, Copy, PartialEq, Eq, Hash)]
pub struct SignPublicKey(pub [u8; 32]);

/// A number that is used once: each sealing takes a fresh one.
#[derive(Debug, Clone, Copy, PartialEq, Eq, Hash)]
pub struct Nonce(pub [u8; 24]);

/// A digest of fixed width.
#[derive(Debug, Clone, Copy, PartialEq, Eq, Hash)]
pub struct Digest(pub [u8; 32]);

impl PublicKey {
    /// Whether the two keys hold the same bytes.
    pub fn same(&self, other: &PublicKey) -> (equal: bool)
        ensures
            equal == (self.0@ == other.0@),
    {
        bytes_eq(self.0.as_slice(), other.0.as_slice())
    }
}

impl SignPublicKey {
    /// Whether the two keys hold the same bytes.
    pub fn same(&self, other: &SignPublicKey) -> (equal: bool)
        ensures
            equal == (self.0@ == other.0@),
    {
        bytes_eq(self.0.as_slice(), other.0.as_slice())
    }
}

impl Nonce {
    /// Whether the two nonces hold the same bytes.
    pub fn same(&self, other: &Nonce) -> (equal: bool)
        ensures
            equal == (self.0@ == other.0@),
    {
        bytes_eq(self.0.as_slice(), other.0.as_slice())
    }
}

impl Digest {
    /// Whether the two digests hold the same bytes.
    pub fn same(&self, other: &Digest) -> (equal: bool)
        ensures
            equal == (self.0@ == other.0@),
    {
        bytes_eq(self.0.as_slice(), other.0.as_slice())
    }

    /// The digest that `bytes` holds, if these are as many bytes as a digest
    /// has.
    pub fn from_slice(bytes: &[u8]) -> (digest: Option<Digest>)
        ensures
            digest is Some <==> bytes@.len() == DIGESTBYTES,
            digest matches Some(d) ==> d.0@ == bytes@,
    {
        if bytes.len() != DIGESTBYTES {
            return None;
        }
        let out = array32(bytes, 0);
        assert(bytes@.subrange(0, 32) =~= bytes@);
        Some(Digest(out))
    }
}

} // verus!
