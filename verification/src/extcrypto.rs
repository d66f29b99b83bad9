//! Trusted boundary to the outside cryptography crates. Each wrapper makes
//! exactly one outside call; its contract states only what that crate's
//! source shows. Digest results are given names (`sha256_of`, ...) since
//! their values are functions of the arguments alone but cannot reasonably
//! be restated here.
use vstd::prelude::*;

use crate::HdError;
use hmac::Mac;
use sha2::Digest;
use base58::FromBase58;
use base58::ToBase58;

verus! {

/// The SHA-256 digest of a byte string.
pub uninterp spec fn sha256_of(b: Seq<u8>) -> Seq<u8>;

/// The SHA-512 digest of a byte string.
pub uninterp spec fn sha512_of(b: Seq<u8>) -> Seq<u8>;

/// The HMAC-SHA512 of a message under a key.
pub uninterp spec fn hmac_sha512_of(key: Seq<u8>, msg: Seq<u8>) -> Seq<u8>;

/// The 64-byte PBKDF2-HMAC-SHA512 output for a password and salt.
pub uninterp spec fn pbkdf2_sha512_of(password: Seq<u8>, salt: Seq<u8>, rounds: u32) -> Seq<u8>;

/// The compressed secp256k1 public key of a valid secret scalar.
pub uninterp spec fn secp_pubkey_of(scalar: Seq<u8>) -> Seq<u8>;

/// The Ed25519 public key derived from a 32-byte seed.
pub uninterp spec fn ed25519_public_of(seed: Seq<u8>) -> Seq<u8>;

/// The Base58 text encoding of a byte string of at most 128 bytes.
pub uninterp spec fn base58_of(b: Seq<u8>) -> Seq<char>;

/// The Ed25519 public key ed25519-dalek derives from 32 secret bytes.
pub uninterp spec fn dalek_public_of(sk: Seq<u8>) -> Seq<u8>;

/// The order of the secp256k1 group.
pub open spec fn secp_order() -> int {
    0xFFFFFFFFFFFFFFFFFFFFFFFFFFFFFFFEBAAEDCE6AF48A03BBFD25E8CD0364141int
}

/// Whether 32 bytes hold a valid secp256k1 secret scalar: non-zero and, as a
/// big-endian integer, below the group order.
pub open spec fn scalar_ok(b: Seq<u8>) -> bool {
    b.len() == 32 && 0 < crate::bytesutil::be_val(b) < secp_order()
}

/// Relies on sha2's Sha256: a 32-byte digest that depends on the input alone.
#[verifier::external_body]
pub fn sha256(bytes: &Vec<u8>) -> (r: Vec<u8>)
    ensures
        r@ == sha256_of(bytes@),
        r@.len() == 32,
{
    let mut hasher = sha2::Sha256::new();
    hasher.update(bytes.as_slice());
    hasher.finalize().to_vec()
}

/// Relies on sha2's Sha512: a 64-byte digest that depends on the input alone.
#[verifier::external_body]
pub fn sha512(bytes: &Vec<u8>) -> (r: Vec<u8>)
    ensures
        r@ == sha512_of(bytes@),
        r@.len() == 64,
{
    let mut hasher = sha2::Sha512::new();
    hasher.update(bytes.as_slice());
    hasher.finalize().to_vec()
}

/// Relies on hmac's Hmac<Sha512>: a 64-byte code that depends on the key and
/// message alone; any key length is accepted.
#[verifier::external_body]
pub(crate) fn hmac_sha512(key: &Vec<u8>, msg: &Vec<u8>) -> (r: Vec<u8>)
    ensures
        r@ == hmac_sha512_of(key@, msg@),
        r@.len() == 64,
{
    let mut mac = <hmac::Hmac<sha2::Sha512> as Mac>::new_from_slice(key.as_slice()).unwrap();
    mac.update(msg.as_slice());
    mac.finalize().into_bytes().to_vec()
}

/// Relies on pbkdf2's pbkdf2_hmac with Sha512: the 64-byte output depends on
/// the password, salt and round count alone.
#[verifier::external_body]
pub(crate) fn pbkdf2_sha512(password: &Vec<u8>, salt: &Vec<u8>, rounds: u32) -> (r: Vec<u8>)
    ensures
        r@ == pbkdf2_sha512_of(password@, salt@, rounds),
        r@.len() == 64,
{
    let mut out = vec![0u8; 64];
    pbkdf2::pbkdf2_hmac::<sha2::Sha512>(password.as_slice(), salt.as_slice(), rounds, &mut out);
    out
}

/// Relies on libsecp256k1's SecretKey::parse_slice, PublicKey::from_secret_key
/// and serialize_compressed: parsing succeeds exactly on 32 bytes holding a
/// non-zero big-endian value below the group order, and the 33-byte compressed
/// public key depends on the scalar alone.
#[verifier::external_body]
pub(crate) fn secp_compressed_pubkey(scalar: &Vec<u8>) -> (r: Result<Vec<u8>, HdError>)
    ensures
        match r {
            Ok(v) => scalar_ok(scalar@) && v@ == secp_pubkey_of(scalar@) && v@.len() == 33,
            Err(e) => !scalar_ok(scalar@) && e == HdError::CurveOperation,
        },
{
    match libsecp256k1::SecretKey::parse_slice(scalar.as_slice()) {
        Ok(sk) => Ok(libsecp256k1::PublicKey::from_secret_key(&sk).serialize_compressed().to_vec()),
        Err(_) => Err(HdError::CurveOperation),
    }
}

/// Relies on libsecp256k1's SecretKey::parse_slice, tweak_add_assign and
/// serialize: the sum is taken modulo the group order, fails only when the
/// sum is zero, and serialize returns the scalar as 32 big-endian bytes.
#[verifier::external_body]
pub(crate) fn secp_scalar_add(a: &Vec<u8>, b: &Vec<u8>) -> (r: Result<Vec<u8>, HdError>)
    ensures
        match r {
            Ok(v) => scalar_ok(a@) && scalar_ok(b@) && (crate::bytesutil::be_val(a@)
                + crate::bytesutil::be_val(b@)) % secp_order() != 0 && v@.len() == 32
                && crate::bytesutil::be_val(v@) == (crate::bytesutil::be_val(a@)
                + crate::bytesutil::be_val(b@)) % secp_order(),
            Err(e) => {
                ||| (!scalar_ok(a@) && e == HdError::InvalidChildKey)
                ||| (scalar_ok(a@) && !scalar_ok(b@) && e == HdError::CurveOperation)
                ||| (scalar_ok(a@) && scalar_ok(b@) && (crate::bytesutil::be_val(a@)
                    + crate::bytesutil::be_val(b@)) % secp_order() == 0 && e
                    == HdError::InvalidChildKey)
            },
        },
{
    let Ok(ta) = libsecp256k1::SecretKey::parse_slice(a.as_slice()) else {
        return Err(HdError::InvalidChildKey);
    };
    let Ok(mut kb) = libsecp256k1::SecretKey::parse_slice(b.as_slice()) else {
        return Err(HdError::CurveOperation);
    };
    match kb.tweak_add_assign(&ta) {
        Ok(()) => Ok(kb.serialize().to_vec()),
        Err(_) => Err(HdError::InvalidChildKey),
    }
}

/// Relies on sodalite's sign_keypair_seed: the public key depends on the seed
/// alone, and the secret half it writes is the seed followed by that public
/// key, so callers keep the seed itself.
#[verifier::external_body]
pub(crate) fn ed25519_public_from_seed(seed: &Vec<u8>) -> (r: Vec<u8>)
    requires
        seed@.len() == 32,
    ensures
        r@ == ed25519_public_of(seed@),
        r@.len() == 32,
{
    let mut s = [0u8; 32];
    s.copy_from_slice(seed.as_slice());
    let mut pk = [0u8; 32];
    let mut sk = [0u8; 64];
    sodalite::sign_keypair_seed(&mut pk, &mut sk, &s);
    pk.to_vec()
}

/// Relies on base58's ToBase58 (the trezor big-number conversion): the text
/// depends on the bytes alone, is ASCII, and grows by at most the usual
/// Base58 expansion; the crate is written for inputs of at most 128 bytes.
#[verifier::external_body]
pub(crate) fn to_base58(b: &Vec<u8>) -> (r: String)
    requires
        b@.len() <= 128,
    ensures
        r@ == base58_of(b@),
        vstd::utf8::is_ascii_chars(r@),
        r@.len() <= (b@.len() * 138) / 100 + 1,
{
    b.as_slice().to_base58()
}

/// Relies on base58's FromBase58, the inverse of the encoding above: a string
/// that is the encoding of some payload of at most 128 bytes decodes to
/// exactly that payload, an accepted string is the encoding of what came
/// back, and anything else is rejected. The decoder reads at most 132 bytes,
/// so the caller keeps the input short.
#[verifier::external_body]
pub(crate) fn from_base58(s: &str) -> (r: Result<Vec<u8>, HdError>)
    requires
        s@.len() <= 132,
    ensures
        match r {
            Ok(v) => v@.len() <= 132 && (v@.len() <= 128 ==> s@ == base58_of(v@)) && (forall|
                b: Seq<u8>,
            |
                b.len() <= 128 && s@ == #[trigger] base58_of(b) ==> v@ == b),
            Err(e) => e == HdError::KeyDecode && (forall|b: Seq<u8>|
                b.len() <= 128 ==> s@ != #[trigger] base58_of(b)),
        },
{
    match s.from_base58() {
        Ok(v) => Ok(v),
        Err(_) => Err(HdError::KeyDecode),
    }
}

/// Relies on ed25519-dalek's SigningKey::generate with the thread-local rand
/// generator: the secret bytes are random, and the verifying key is derived
/// from them alone, so nothing is promised beyond the shape and the pairing.
#[verifier::external_body]
pub fn random_signing_keypair() -> (r: (Vec<u8>, Vec<u8>))
    ensures
        r.0@.len() == 32,
        r.1@.len() == 32,
        r.0@ == dalek_public_of(r.1@),
{
    let signing = ed25519_dalek::SigningKey::generate(&mut rand::thread_rng());
    (signing.verifying_key().to_bytes().to_vec(), signing.to_bytes().to_vec())
}

/// Relies on bip39's Mnemonic::generate: a fresh random twelve-word English
/// phrase; nothing is promised of a random phrase.
#[verifier::external_body]
pub fn random_mnemonic_phrase() -> (r: String)
    ensures
        r@.len() > 0,
{
    bip39::Mnemonic::generate(12).unwrap().to_string()
}

} // verus!
