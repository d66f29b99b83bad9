//! Vanity address mining library: a BIP32-style hierarchical-deterministic
//! key derivation engine built on a from-scratch RIPEMD-160 hasher, a
//! deterministic Ed25519 keypair converter, a vanity-address classification
//! heuristic, and the buffered match sink at the core of the mining loop.
use vstd::prelude::*;

verus! {

/// Errors raised by key decoding, derivation and path parsing.
#[derive(Clone, Copy, Debug, PartialEq, Eq, Structural)]
pub enum HdError {
    /// Malformed hex / Base58 text or wrong-length key material.
    KeyDecode,
    /// Corrupted serialized HD key: the trailing checksum does not match.
    ChecksumMismatch,
    /// A derived scalar fell out of the valid range for the curve.
    InvalidChildKey,
    /// A malformed derivation path string.
    PathSyntax,
    /// An invalid scalar or point in an elliptic-curve operation.
    CurveOperation,
}

} // verus!

pub mod addr_checker;
pub mod bytesutil;
pub mod extcrypto;
pub mod hdkey;
pub mod miner;
pub mod path;
pub mod ripemd160;
pub mod sink;

