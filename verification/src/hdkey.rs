//! BIP32-style hierarchical deterministic private keys: master-key
//! construction from a mnemonic seed, hardened and non-hardened child
//! derivation over secp256k1, path-based iterated derivation, and the
//! 82-byte checksummed serialization with its Base58 text form.
use vstd::prelude::*;

use crate::HdError;
use crate::bytesutil::be_bytes;
use crate::bytesutil::be_val;
use crate::bytesutil::be32_of;
use crate::bytesutil::hex_of;
use crate::bytesutil::key256;
use crate::bytesutil::lemma_be_bytes_val;
use crate::bytesutil::lemma_be_val_inj;
use crate::bytesutil::padded_copy_spec;
use crate::bytesutil::pow256;
use crate::bytesutil::subvec;
use crate::bytesutil::to_hex;
use crate::bytesutil::u32_to_be;
use crate::bytesutil::vec_extend;
use crate::extcrypto::base58_of;
use crate::extcrypto::ed25519_public_of;
use crate::extcrypto::ed25519_public_from_seed;
use crate::extcrypto::from_base58;
use crate::extcrypto::hmac_sha512;
use crate::extcrypto::hmac_sha512_of;
use crate::extcrypto::pbkdf2_sha512;
use crate::extcrypto::pbkdf2_sha512_of;
use crate::extcrypto::scalar_ok;
use crate::extcrypto::secp_compressed_pubkey;
use crate::extcrypto::secp_order;
use crate::extcrypto::secp_pubkey_of;
use crate::extcrypto::secp_scalar_add;
use crate::extcrypto::sha256;
use crate::extcrypto::sha256_of;
use crate::extcrypto::to_base58;
use crate::ripemd160::Ripemd160;
use crate::ripemd160::rmd160_spec;

verus! {

/// A signing keypair of the chain's native scheme, both halves as lowercase
/// hex text. `secret` is the 32-byte seed the expanded key is regenerated
/// from, never the expanded key itself.
pub struct KeyPair {
    pub public: String,
    pub secret: String,
}

impl KeyPair {
    pub fn new(public: String, secret: String) -> (r: KeyPair)
        ensures
            r.public == public,
            r.secret == secret,
    {
        KeyPair { public, secret }
    }
}

/// Deterministically expand a 32-byte scalar, reused as pure entropy, into
/// the native signing keypair: the public half is the Ed25519 public key of
/// the seed, the secret half is the seed itself.
pub fn sign_keypair_from_secret_key(secret: &Vec<u8>) -> (r: KeyPair)
    ensures
        r.public@ == hex_of(ed25519_public_of(padded_copy_spec(secret@, 32))),
        r.secret@ == hex_of(padded_copy_spec(secret@, 32)),
        r.public@.len() == 64,
        r.secret@.len() == 64,
{
    let seed = key256(secret);
    let pk = ed25519_public_from_seed(&seed);
    KeyPair { public: to_hex(&pk), secret: to_hex(&seed) }
}

/// The mathematical content of an HD node.
pub struct HDNodeView {
    pub depth: u8,
    pub parent_fingerprint: Seq<u8>,
    pub child_number: Seq<u8>,
    pub child_chain: Seq<u8>,
    pub key: Seq<u8>,
}

/// The fixed field widths of a well-formed node.
pub open spec fn node_wf(v: HDNodeView) -> bool {
    &&& v.parent_fingerprint.len() == 4
    &&& v.child_number.len() == 4
    &&& v.child_chain.len() == 32
    &&& v.key.len() == 32
}

/// The HMAC key for master-node construction: the bytes of "Bitcoin seed".
pub open spec fn bitcoin_seed_key() -> Seq<u8> {
    seq![0x42u8, 0x69u8, 0x74u8, 0x63u8, 0x6fu8, 0x69u8, 0x6eu8, 0x20u8, 0x73u8, 0x65u8, 0x65u8,
        0x64u8]
}

/// The PBKDF2 salt for mnemonic-to-seed conversion: the bytes of "mnemonic".
pub open spec fn mnemonic_salt() -> Seq<u8> {
    seq![0x6du8, 0x6eu8, 0x65u8, 0x6du8, 0x6fu8, 0x6eu8, 0x69u8, 0x63u8]
}

/// The master node of a seed: the left half of HMAC-SHA512 keyed with
/// "Bitcoin seed" becomes the private scalar, the right half the chain code.
pub open spec fn master_of_seed(seed: Seq<u8>) -> HDNodeView {
    let h = hmac_sha512_of(bitcoin_seed_key(), seed);
    HDNodeView {
        depth: 0,
        parent_fingerprint: seq![0u8, 0u8, 0u8, 0u8],
        child_number: seq![0u8, 0u8, 0u8, 0u8],
        child_chain: h.skip(32),
        key: h.take(32),
    }
}

/// The 64-byte seed of a mnemonic phrase: PBKDF2-HMAC-SHA512 over the
/// phrase's UTF-8 bytes with salt "mnemonic" and 2048 iterations.
pub open spec fn seed_of_phrase(phrase: Seq<char>) -> Seq<u8> {
    pbkdf2_sha512_of(vstd::utf8::encode_utf8(phrase), mnemonic_salt(), 2048)
}

/// The child index with the hardened bit applied.
pub open spec fn effective_index(child_index: u32, hardened: bool) -> u32 {
    if hardened {
        0x80000000u32 | child_index
    } else {
        child_index
    }
}

/// The HMAC message of one derivation step: for hardened steps a zero byte
/// and the parent scalar, otherwise the parent's compressed public key; then
/// the effective child index big-endian.
pub open spec fn derive_hmac_input(v: HDNodeView, child_index: u32, hardened: bool) -> Seq<u8> {
    (if hardened {
        seq![0u8] + v.key
    } else {
        secp_pubkey_of(v.key)
    }) + be32_of(effective_index(child_index, hardened))
}

/// The left half of the derivation HMAC: the scalar increment.
pub open spec fn derive_il(v: HDNodeView, child_index: u32, hardened: bool) -> Seq<u8> {
    hmac_sha512_of(v.child_chain, derive_hmac_input(v, child_index, hardened)).take(32)
}

/// The right half of the derivation HMAC: the child chain code.
pub open spec fn derive_ir(v: HDNodeView, child_index: u32, hardened: bool) -> Seq<u8> {
    hmac_sha512_of(v.child_chain, derive_hmac_input(v, child_index, hardened)).skip(32)
}

/// Whether a derivation step yields a valid child scalar: the increment must
/// be a valid scalar and the sum must not vanish modulo the group order.
pub open spec fn derive_ok(v: HDNodeView, child_index: u32, hardened: bool) -> bool {
    let il = derive_il(v, child_index, hardened);
    scalar_ok(il) && (be_val(il) + be_val(v.key)) % secp_order() != 0
}

/// The parent's fingerprint: the first four bytes of RIPEMD160(SHA256(
/// compressed public key)).
pub open spec fn fingerprint_of(v: HDNodeView) -> Seq<u8> {
    rmd160_spec(sha256_of(secp_pubkey_of(v.key))).take(4)
}

/// The child node of one derivation step.
#[verifier::opaque]
pub open spec fn derived_node(v: HDNodeView, child_index: u32, hardened: bool) -> HDNodeView {
    HDNodeView {
        depth: (v.depth + 1) as u8,
        parent_fingerprint: fingerprint_of(v),
        child_number: be32_of(effective_index(child_index, hardened)),
        child_chain: derive_ir(v, child_index, hardened),
        key: be_bytes(
            (be_val(derive_il(v, child_index, hardened)) + be_val(v.key)) % secp_order(),
            32,
        ),
    }
}

/// A private node of the hierarchical deterministic key tree.
pub struct HDPrivateKey {
    depth: u8,
    parent_fingerprint: Vec<u8>,
    child_number: Vec<u8>,
    child_chain: Vec<u8>,
    key: Vec<u8>,
}

impl View for HDPrivateKey {
    type V = HDNodeView;

    closed spec fn view(&self) -> HDNodeView {
        HDNodeView {
            depth: self.depth,
            parent_fingerprint: self.parent_fingerprint@,
            child_number: self.child_number@,
            child_chain: self.child_chain@,
            key: self.key@,
        }
    }
}

impl HDPrivateKey {
    /// A master node from an already-split chain code and scalar.
    fn master(child_chain: &Vec<u8>, key: &Vec<u8>) -> (r: HDPrivateKey)
        requires
            child_chain@.len() == 32,
            key@.len() == 32,
        ensures
            r@.depth == 0,
            r@.parent_fingerprint == seq![0u8, 0u8, 0u8, 0u8],
            r@.child_number == seq![0u8, 0u8, 0u8, 0u8],
            r@.child_chain == child_chain@,
            r@.key == key@,
            node_wf(r@),
    {
        let r = HDPrivateKey {
            depth: 0,
            parent_fingerprint: vec![0u8, 0u8, 0u8, 0u8],
            child_number: vec![0u8, 0u8, 0u8, 0u8],
            child_chain: child_chain.clone(),
            key: key.clone(),
        };
        proof {
            assert(r.parent_fingerprint@ =~= seq![0u8, 0u8, 0u8, 0u8]);
            assert(r.child_number@ =~= seq![0u8, 0u8, 0u8, 0u8]);
            assert(r.child_chain@ =~= child_chain@);
            assert(r.key@ =~= key@);
        }
        r
    }

    /// The master node of a seed, per `master_of_seed`.
    pub fn master_from_seed(seed: &Vec<u8>) -> (r: HDPrivateKey)
        ensures
            r@ == master_of_seed(seed@),
            node_wf(r@),
    {
        let hmac_key: Vec<u8> = vec![0x42u8, 0x69u8, 0x74u8, 0x63u8, 0x6fu8, 0x69u8, 0x6eu8,
            0x20u8, 0x73u8, 0x65u8, 0x65u8, 0x64u8];
        proof {
            assert(hmac_key@ =~= bitcoin_seed_key());
        }
        let h = hmac_sha512(&hmac_key, seed);
        let chain = subvec(&h, 32, 64);
        let key = subvec(&h, 0, 32);
        proof {
            assert(chain@ =~= h@.skip(32));
            assert(key@ =~= h@.take(32));
        }
        Self::master(&chain, &key)
    }

    /// The 64-byte seed of a mnemonic phrase, per `seed_of_phrase`.
    pub fn seed_from_mnemonic(phrase: &str) -> (r: Vec<u8>)
        ensures
            r@ == seed_of_phrase(phrase@),
            r@.len() == 64,
    {
        let password = phrase.as_bytes_vec();
        let salt: Vec<u8> = vec![0x6du8, 0x6eu8, 0x65u8, 0x6du8, 0x6fu8, 0x6eu8, 0x69u8, 0x63u8];
        proof {
            assert(salt@ =~= mnemonic_salt());
        }
        pbkdf2_sha512(&password, &salt, 2048)
    }

    /// The master node of a mnemonic phrase.
    pub fn from_mnemonic(phrase: &str) -> (r: HDPrivateKey)
        ensures
            r@ == master_of_seed(seed_of_phrase(phrase@)),
            node_wf(r@),
    {
        let seed = Self::seed_from_mnemonic(phrase);
        Self::master_from_seed(&seed)
    }

    /// The node's private scalar.
    pub fn secret(&self) -> (r: Vec<u8>)
        ensures
            r@ == self@.key,
    {
        let r = self.key.clone();
        proof {
            assert(r@ =~= self@.key);
        }
        r
    }

    /// The node's depth in the tree; zero at the master.
    pub fn depth(&self) -> (r: u8)
        ensures
            r == self@.depth,
    {
        self.depth
    }

    /// The node's parent fingerprint.
    pub fn parent_fingerprint(&self) -> (r: Vec<u8>)
        ensures
            r@ == self@.parent_fingerprint,
    {
        let r = self.parent_fingerprint.clone();
        proof {
            assert(r@ =~= self@.parent_fingerprint);
        }
        r
    }

    /// The node's child number, big-endian with the hardened bit.
    pub fn child_number(&self) -> (r: Vec<u8>)
        ensures
            r@ == self@.child_number,
    {
        let r = self.child_number.clone();
        proof {
            assert(r@ =~= self@.child_number);
        }
        r
    }

    /// The node's chain code.
    pub fn child_chain(&self) -> (r: Vec<u8>)
        ensures
            r@ == self@.child_chain,
    {
        let r = self.child_chain.clone();
        proof {
            assert(r@ =~= self@.child_chain);
        }
        r
    }

    /// An owned copy of the node.
    pub fn duplicate(&self) -> (r: HDPrivateKey)
        ensures
            r@ == self@,
    {
        let r = HDPrivateKey {
            depth: self.depth,
            parent_fingerprint: self.parent_fingerprint.clone(),
            child_number: self.child_number.clone(),
            child_chain: self.child_chain.clone(),
            key: self.key.clone(),
        };
        proof {
            assert(r.parent_fingerprint@ =~= self.parent_fingerprint@);
            assert(r.child_number@ =~= self.child_number@);
            assert(r.child_chain@ =~= self.child_chain@);
            assert(r.key@ =~= self.key@);
        }
        r
    }

    /// The node's compressed secp256k1 public key; fails on a node whose
    /// scalar is not a valid secret key.
    pub fn public(&self) -> (r: Result<Vec<u8>, HdError>)
        ensures
            match r {
                Ok(v) => scalar_ok(self@.key) && v@ == secp_pubkey_of(self@.key) && v@.len() == 33,
                Err(e) => !scalar_ok(self@.key) && e == HdError::CurveOperation,
            },
    {
        secp_compressed_pubkey(&self.key)
    }

    /// One derivation step. `compliant` is kept for interface parity: both
    /// hardened forms feed a zero byte and the fixed-width 32-byte scalar to
    /// the HMAC, so they coincide here.
    pub fn derive(&self, child_index: u32, hardened: bool, compliant: bool) -> (r: Result<
        HDPrivateKey,
        HdError,
    >)
        requires
            node_wf(self@),
            self@.depth < 255,
        ensures
            match r {
                Ok(n) => scalar_ok(self@.key) && derive_ok(self@, child_index, hardened) && n@
                    == derived_node(self@, child_index, hardened) && node_wf(n@),
                Err(e) => {
                    ||| (!scalar_ok(self@.key) && e == HdError::CurveOperation)
                    ||| (scalar_ok(self@.key) && !derive_ok(self@, child_index, hardened) && e
                        == HdError::InvalidChildKey)
                },
            },
    {
        // Both hardened forms feed identical bytes here, so the flag does
        // not change the result.
        let _ = compliant;
        let public = match self.public() {
            Ok(p) => p,
            Err(e) => {
                return Err(e);
            },
        };
        let sha = sha256(&public);
        let mut hasher = Ripemd160::new();
        hasher.update(&sha);
        proof {
            assert(hasher@ =~= sha@);
        }
        let mut fingerprint = hasher.digest();
        fingerprint.truncate(4);
        proof {
            assert(fingerprint@ =~= fingerprint_of(self@));
        }
        let eff = if hardened {
            0x80000000u32 | child_index
        } else {
            child_index
        };
        let child_number = u32_to_be(eff);
        let mut data: Vec<u8> = Vec::new();
        if hardened {
            data.push(0);
            vec_extend(&mut data, &self.key);
        } else {
            vec_extend(&mut data, &public);
        }
        vec_extend(&mut data, &child_number);
        proof {
            assert(data@ =~= derive_hmac_input(self@, child_index, hardened));
        }
        let hres = hmac_sha512(&self.child_chain, &data);
        let il = subvec(&hres, 0, 32);
        let chain = subvec(&hres, 32, 64);
        proof {
            assert(il@ =~= derive_il(self@, child_index, hardened));
            assert(chain@ =~= derive_ir(self@, child_index, hardened));
        }
        let child_key = match secp_scalar_add(&il, &self.key) {
            Ok(k) => k,
            Err(e) => {
                return Err(e);
            },
        };
        proof {
            let sum = (be_val(il@) + be_val(self@.key)) % secp_order();
            assert(secp_order() < pow256(32)) by {
                reveal_with_fuel(pow256, 33);
            }
            assert(0 <= sum < pow256(32));
            lemma_be_bytes_val(sum, 32);
            lemma_be_val_inj(child_key@, be_bytes(sum, 32));
        }
        let child = HDPrivateKey {
            depth: self.depth + 1,
            parent_fingerprint: fingerprint,
            child_number,
            child_chain: chain,
            key: child_key,
        };
        proof {
            reveal(derived_node);
            let d = derived_node(self@, child_index, hardened);
            assert(child@.depth == d.depth);
            assert(child@.parent_fingerprint == d.parent_fingerprint);
            assert(child@.child_number == d.child_number);
            assert(child@.child_chain == d.child_chain);
            assert(child@.key == d.key);
        }
        Ok(child)
    }

    /// Fold `derive` over a parsed path, per `derive_path_node`; fails with
    /// `PathSyntax` on a malformed path and with the failing step's error
    /// otherwise.
    #[verifier::rlimit(100)]
    pub fn derive_path(&self, path: &str, compliant: bool) -> (r: Result<HDPrivateKey, HdError>)
        requires
            node_wf(self@),
        ensures
            match r {
                Ok(n) => {
                    &&& crate::path::path_steps(path@) is Some
                    &&& derive_path_node(self@, crate::path::path_steps(path@)->Some_0) == Some(
                        n@,
                    )
                    &&& node_wf(n@)
                },
                Err(e) => {
                    ||| (crate::path::path_steps(path@) is None && e == HdError::PathSyntax)
                    ||| (crate::path::path_steps(path@) is Some && derive_path_node(
                        self@,
                        crate::path::path_steps(path@)->Some_0,
                    ) is None && e == path_fail_err(
                        self@,
                        crate::path::path_steps(path@)->Some_0,
                    ))
                },
            },
    {
        let steps = match crate::path::parse_path(path) {
            Ok(v) => v,
            Err(e) => {
                return Err(e);
            },
        };
        let mut node = self.duplicate();
        let mut i: usize = 0;
        proof {
            assert(steps@.skip(0) =~= steps@);
        }
        while i < steps.len()
            invariant
                i <= steps@.len(),
                crate::path::path_steps(path@) == Some(steps@),
                node_wf(node@),
                derive_path_node(self@, steps@) == derive_path_node(
                    node@,
                    steps@.skip(i as int),
                ),
                derive_path_node(self@, steps@) is None ==> path_fail_err(self@, steps@)
                    == path_fail_err(node@, steps@.skip(i as int)),
            decreases steps@.len() - i,
        {
            let st = steps[i];
            if node.depth() == 255 {
                proof {
                    lemma_path_step_fail(node@, steps@, i as int);
                }
                return Err(HdError::InvalidChildKey);
            }
            let ghost parent = node@;
            node = match node.derive(st.index, st.hardened, compliant) {
                Ok(n) => n,
                Err(e) => {
                    proof {
                        lemma_path_step_fail(parent, steps@, i as int);
                    }
                    return Err(e);
                },
            };
            proof {
                lemma_path_step_ok(parent, node@, steps@, i as int);
            }
            i = i + 1;
        }
        proof {
            reveal(derive_path_node);
            assert(steps@.skip(steps@.len() as int) =~= Seq::<crate::path::PathStep>::empty());
        }
        Ok(node)
    }

    /// The node's 82-byte serialization, per `ser_spec`.
    pub fn serialize(&self) -> (r: Vec<u8>)
        requires
            node_wf(self@),
        ensures
            r@ == ser_spec(self@),
            r@.len() == 82,
    {
        let mut b: Vec<u8> = Vec::new();
        b.push(0x04);
        b.push(0x88);
        b.push(0xAD);
        b.push(0xE4);
        b.push(self.depth);
        vec_extend(&mut b, &self.parent_fingerprint);
        vec_extend(&mut b, &self.child_number);
        vec_extend(&mut b, &self.child_chain);
        b.push(0);
        vec_extend(&mut b, &self.key);
        proof {
            assert(b@ =~= ser_core(self@));
        }
        let h1 = sha256(&b);
        let h2 = sha256(&h1);
        b.push(h2[0]);
        b.push(h2[1]);
        b.push(h2[2]);
        b.push(h2[3]);
        proof {
            assert(b@ =~= ser_spec(self@));
        }
        b
    }

    /// Parse an 82-byte serialization, verifying the trailing checksum.
    pub fn from_serialized(bytes: &Vec<u8>) -> (r: Result<HDPrivateKey, HdError>)
        ensures
            match r {
                Ok(n) => checksum_okp(bytes@) && n@ == parsed_node(bytes@) && node_wf(n@),
                Err(e) => {
                    ||| (bytes@.len() != 82 && e == HdError::KeyDecode)
                    ||| (bytes@.len() == 82 && !checksum_okp(bytes@) && e
                        == HdError::ChecksumMismatch)
                },
            },
    {
        if bytes.len() != 82 {
            return Err(HdError::KeyDecode);
        }
        let core = subvec(bytes, 0, 78);
        let h1 = sha256(&core);
        let h2 = sha256(&h1);
        proof {
            assert(core@ =~= bytes@.take(78));
        }
        if bytes[78] != h2[0] || bytes[79] != h2[1] || bytes[80] != h2[2] || bytes[81] != h2[3] {
            proof {
                assert(bytes@.skip(78)[0] == bytes@[78]);
                assert(bytes@.skip(78)[1] == bytes@[79]);
                assert(bytes@.skip(78)[2] == bytes@[80]);
                assert(bytes@.skip(78)[3] == bytes@[81]);
                assert(!checksum_okp(bytes@));
            }
            return Err(HdError::ChecksumMismatch);
        }
        let node = HDPrivateKey {
            depth: bytes[4],
            parent_fingerprint: subvec(bytes, 5, 9),
            child_number: subvec(bytes, 9, 13),
            child_chain: subvec(bytes, 13, 45),
            key: subvec(bytes, 46, 78),
        };
        proof {
            assert(bytes@.skip(78) =~= checksum4(bytes@.take(78)));
        }
        Ok(node)
    }

    /// The node's Base58 text serialization.
    pub fn serialize_to_string(&self) -> (r: String)
        requires
            node_wf(self@),
        ensures
            r@ == base58_of(ser_spec(self@)),
            r@.len() <= 132,
            vstd::utf8::is_ascii_chars(r@),
    {
        let b = self.serialize();
        to_base58(&b)
    }

    /// Parse a Base58 text serialization: the exact inverse of
    /// `serialize_to_string` on well-formed nodes, and a deterministic
    /// failure on everything else — `KeyDecode` when the text encodes no
    /// 82-byte payload at all, `ChecksumMismatch` when it does but the
    /// trailing checksum is wrong.
    pub fn from_serialized_string(s: &str) -> (r: Result<HDPrivateKey, HdError>)
        ensures
            match r {
                Ok(n) => exists|b: Seq<u8>|
                    checksum_okp(b) && s@ == #[trigger] base58_of(b) && n@ == parsed_node(b)
                        && node_wf(n@),
                Err(e) => e == HdError::KeyDecode || e == HdError::ChecksumMismatch,
            },
            forall|b: Seq<u8>|
                checksum_okp(b) && s@.len() <= 132 && s@ == #[trigger] base58_of(b) ==> r is Ok
                    && r->Ok_0@ == parsed_node(b),
            r == Err::<HDPrivateKey, HdError>(HdError::KeyDecode) ==> (forall|b: Seq<u8>|
                b.len() == 82 && s@.len() <= 132 ==> s@ != #[trigger] base58_of(b)),
            r == Err::<HDPrivateKey, HdError>(HdError::ChecksumMismatch) ==> (exists|b: Seq<u8>|
                b.len() == 82 && !checksum_okp(b) && s@ == #[trigger] base58_of(b)),
            forall|b: Seq<u8>|
                b.len() == 82 && !checksum_okp(b) && s@.len() <= 132 && s@ == #[trigger] base58_of(
                    b,
                ) ==> r == Err::<HDPrivateKey, HdError>(HdError::ChecksumMismatch),
    {
        if s.unicode_len() > 132 {
            return Err(HdError::KeyDecode);
        }
        let bytes = match from_base58(s) {
            Ok(v) => v,
            Err(e) => {
                return Err(e);
            },
        };
        match Self::from_serialized(&bytes) {
            Ok(n) => {
                proof {
                    let bb = bytes@;
                    assert(checksum_okp(bb) && s@ == base58_of(bb) && n@ == parsed_node(bb));
                }
                Ok(n)
            },
            Err(e) => Err(e),
        }
    }
}

/// The fixed version prefix of a serialized private key.
pub open spec fn xprv_version() -> Seq<u8> {
    seq![0x04u8, 0x88u8, 0xADu8, 0xE4u8]
}

/// The first 78 serialized bytes: version, depth, fingerprint, child number,
/// chain code, a zero byte, and the private scalar.
pub open spec fn ser_core(v: HDNodeView) -> Seq<u8> {
    xprv_version() + seq![v.depth] + v.parent_fingerprint + v.child_number + v.child_chain
        + seq![0u8] + v.key
}

/// The first four bytes of the double SHA-256 of a byte string.
pub open spec fn checksum4(b: Seq<u8>) -> Seq<u8> {
    let h = sha256_of(sha256_of(b));
    seq![h[0], h[1], h[2], h[3]]
}

/// The full 82-byte serialization: the core followed by its checksum.
pub open spec fn ser_spec(v: HDNodeView) -> Seq<u8> {
    ser_core(v) + checksum4(ser_core(v))
}

/// Whether 82 bytes carry a valid checksum.
pub open spec fn checksum_okp(b: Seq<u8>) -> bool {
    b.len() == 82 && b.skip(78) == checksum4(b.take(78))
}

/// The node stored in 82 serialized bytes; the version and the padding byte
/// are not inspected.
pub open spec fn parsed_node(b: Seq<u8>) -> HDNodeView {
    HDNodeView {
        depth: b[4],
        parent_fingerprint: b.subrange(5, 9),
        child_number: b.subrange(9, 13),
        child_chain: b.subrange(13, 45),
        key: b.subrange(46, 78),
    }
}

/// The node after deriving each step of a path in order; `None` when a step
/// fails or the tree depth is exhausted.
#[verifier::opaque]
pub open spec fn derive_path_node(v: HDNodeView, steps: Seq<crate::path::PathStep>) -> Option<
    HDNodeView,
>
    decreases steps.len(),
{
    if steps.len() == 0 {
        Some(v)
    } else {
        let st = steps[0];
        if v.depth < 255 && scalar_ok(v.key) && derive_ok(v, st.index, st.hardened) {
            derive_path_node(derived_node(v, st.index, st.hardened), steps.drop_first())
        } else {
            None
        }
    }
}

/// The error of the first failing step of a path derivation.
#[verifier::opaque]
pub open spec fn path_fail_err(v: HDNodeView, steps: Seq<crate::path::PathStep>) -> HdError
    decreases steps.len(),
{
    if steps.len() == 0 {
        HdError::PathSyntax
    } else {
        let st = steps[0];
        if v.depth >= 255 {
            HdError::InvalidChildKey
        } else if !scalar_ok(v.key) {
            HdError::CurveOperation
        } else if !derive_ok(v, st.index, st.hardened) {
            HdError::InvalidChildKey
        } else {
            path_fail_err(derived_node(v, st.index, st.hardened), steps.drop_first())
        }
    }
}

/// Unfolding one successful step of a path derivation.
proof fn lemma_path_step_ok(
    parent: HDNodeView,
    child: HDNodeView,
    steps: Seq<crate::path::PathStep>,
    i: int,
)
    requires
        0 <= i < steps.len(),
        parent.depth < 255,
        scalar_ok(parent.key),
        derive_ok(parent, steps[i].index, steps[i].hardened),
        child == derived_node(parent, steps[i].index, steps[i].hardened),
    ensures
        derive_path_node(parent, steps.skip(i)) == derive_path_node(child, steps.skip(i + 1)),
        derive_path_node(parent, steps.skip(i)) is None ==> path_fail_err(parent, steps.skip(i))
            == path_fail_err(child, steps.skip(i + 1)),
{
    reveal(derive_path_node);
    reveal(path_fail_err);
    assert(steps.skip(i)[0] == steps[i]);
    assert(steps.skip(i).drop_first() =~= steps.skip(i + 1));
}

/// Unfolding one failing step of a path derivation.
proof fn lemma_path_step_fail(parent: HDNodeView, steps: Seq<crate::path::PathStep>, i: int)
    requires
        0 <= i < steps.len(),
        parent.depth >= 255 || !scalar_ok(parent.key) || !derive_ok(
            parent,
            steps[i].index,
            steps[i].hardened,
        ),
    ensures
        derive_path_node(parent, steps.skip(i)) is None,
        parent.depth >= 255 ==> path_fail_err(parent, steps.skip(i)) == HdError::InvalidChildKey,
        parent.depth < 255 && !scalar_ok(parent.key) ==> path_fail_err(parent, steps.skip(i))
            == HdError::CurveOperation,
        parent.depth < 255 && scalar_ok(parent.key) && !derive_ok(
            parent,
            steps[i].index,
            steps[i].hardened,
        ) ==> path_fail_err(parent, steps.skip(i)) == HdError::InvalidChildKey,
{
    reveal(derive_path_node);
    reveal(path_fail_err);
    assert(steps.skip(i)[0] == steps[i]);
    assert(steps.skip(i).len() > 0);
}

/// Serialization round trip: parsing the serialization of any well-formed
/// node recovers the node, field for field, and the checksum it carries is
/// valid.
pub proof fn lemma_serialize_round_trip(v: HDNodeView)
    requires
        node_wf(v),
    ensures
        ser_spec(v).len() == 82,
        checksum_okp(ser_spec(v)),
        parsed_node(ser_spec(v)) == v,
{
    let c = ser_core(v);
    let s = ser_spec(v);
    assert(c.len() == 78);
    assert(s.take(78) =~= c);
    assert(s.skip(78) =~= checksum4(c));
    assert(parsed_node(s).parent_fingerprint =~= v.parent_fingerprint);
    assert(parsed_node(s).child_number =~= v.child_number);
    assert(parsed_node(s).child_chain =~= v.child_chain);
    assert(parsed_node(s).key =~= v.key);
}

/// Hierarchical derivation is deterministic: one seed and one path always
/// lead to one node, however often they are rerun.
pub proof fn lemma_derivation_deterministic(
    seed1: Seq<u8>,
    seed2: Seq<u8>,
    steps1: Seq<crate::path::PathStep>,
    steps2: Seq<crate::path::PathStep>,
)
    requires
        seed1 == seed2,
        steps1 == steps2,
    ensures
        derive_path_node(master_of_seed(seed1), steps1) == derive_path_node(
            master_of_seed(seed2),
            steps2,
        ),
{
}

/// The Base58 serialization of the master node of a mnemonic phrase.
pub fn hdkey_xprv_from_mnemonic(phrase: &String) -> (r: String)
    ensures
        r@ == base58_of(ser_spec(master_of_seed(seed_of_phrase(phrase@)))),
{
    HDPrivateKey::from_mnemonic(phrase.as_str()).serialize_to_string()
}

/// The private scalar stored in a serialized key, as hex text: `KeyDecode`
/// when the text encodes no 82-byte payload, `ChecksumMismatch` when it does
/// but the checksum is wrong.
pub fn hdkey_secret_from_xprv(serialized: &String) -> (r: Result<String, HdError>)
    ensures
        match r {
            Ok(t) => exists|b: Seq<u8>|
                checksum_okp(b) && serialized@ == #[trigger] base58_of(b) && t@ == hex_of(
                    parsed_node(b).key,
                ),
            Err(e) => e == HdError::KeyDecode || e == HdError::ChecksumMismatch,
        },
        forall|b: Seq<u8>|
            checksum_okp(b) && serialized@.len() <= 132 && serialized@ == #[trigger] base58_of(b)
                ==> r is Ok && r->Ok_0@ == hex_of(parsed_node(b).key),
        r == Err::<String, HdError>(HdError::KeyDecode) ==> (forall|b: Seq<u8>|
            b.len() == 82 && serialized@.len() <= 132 ==> serialized@ != #[trigger] base58_of(b)),
        r == Err::<String, HdError>(HdError::ChecksumMismatch) ==> (exists|b: Seq<u8>|
            b.len() == 82 && !checksum_okp(b) && serialized@ == #[trigger] base58_of(b)),
        forall|b: Seq<u8>|
            b.len() == 82 && !checksum_okp(b) && serialized@.len() <= 132 && serialized@
                == #[trigger] base58_of(b) ==> r == Err::<String, HdError>(
                HdError::ChecksumMismatch,
            ),
{
    let node = match HDPrivateKey::from_serialized_string(serialized.as_str()) {
        Ok(n) => n,
        Err(e) => {
            return Err(e);
        },
    };
    let secret = node.secret();
    Ok(to_hex(&secret))
}

/// The compressed public key of a serialized key, as hex text.
pub fn hdkey_public_from_xprv(serialized: &String) -> (r: Result<String, HdError>)
    ensures
        match r {
            Ok(t) => exists|b: Seq<u8>|
                checksum_okp(b) && serialized@ == #[trigger] base58_of(b) && scalar_ok(
                    parsed_node(b).key,
                ) && t@ == hex_of(secp_pubkey_of(parsed_node(b).key)),
            Err(e) => e == HdError::KeyDecode || e == HdError::ChecksumMismatch || e
                == HdError::CurveOperation,
        },
        forall|b: Seq<u8>|
            checksum_okp(b) && serialized@.len() <= 132 && serialized@ == #[trigger] base58_of(b)
                && scalar_ok(parsed_node(b).key) ==> r is Ok && r->Ok_0@ == hex_of(
                secp_pubkey_of(parsed_node(b).key),
            ),
{
    let node = match HDPrivateKey::from_serialized_string(serialized.as_str()) {
        Ok(n) => n,
        Err(e) => {
            return Err(e);
        },
    };
    let public = match node.public() {
        Ok(p) => p,
        Err(e) => {
            return Err(e);
        },
    };
    Ok(to_hex(&public))
}

/// One derivation step from a serialized key, the child serialized again.
pub fn hdkey_derive_from_xprv(
    serialized: &String,
    child_index: u32,
    hardened: bool,
    compliant: bool,
) -> (r: Result<String, HdError>)
    ensures
        match r {
            Ok(t) => exists|b: Seq<u8>|
                {
                    &&& checksum_okp(b)
                    &&& serialized@ == #[trigger] base58_of(b)
                    &&& parsed_node(b).depth < 255
                    &&& scalar_ok(parsed_node(b).key)
                    &&& derive_ok(parsed_node(b), child_index, hardened)
                    &&& t@ == base58_of(
                        ser_spec(derived_node(parsed_node(b), child_index, hardened)),
                    )
                },
            Err(e) => e == HdError::KeyDecode || e == HdError::ChecksumMismatch || e
                == HdError::InvalidChildKey || e == HdError::CurveOperation,
        },
        forall|b: Seq<u8>|
            checksum_okp(b) && serialized@.len() <= 132 && serialized@ == #[trigger] base58_of(b)
                && parsed_node(b).depth < 255 && scalar_ok(parsed_node(b).key) && derive_ok(
                parsed_node(b),
                child_index,
                hardened,
            ) ==> r is Ok && r->Ok_0@ == base58_of(
                ser_spec(derived_node(parsed_node(b), child_index, hardened)),
            ),
{
    let node = match HDPrivateKey::from_serialized_string(serialized.as_str()) {
        Ok(n) => n,
        Err(e) => {
            return Err(e);
        },
    };
    if node.depth() == 255 {
        return Err(HdError::InvalidChildKey);
    }
    let child = match node.derive(child_index, hardened, compliant) {
        Ok(n) => n,
        Err(e) => {
            return Err(e);
        },
    };
    Ok(child.serialize_to_string())
}

/// Iterated derivation along a path from a serialized key, the final child
/// serialized again.
pub fn hdkey_derive_from_xprv_path(serialized: &String, path: &String, compliant: bool) -> (r:
    Result<String, HdError>)
    ensures
        match r {
            Ok(t) => exists|b: Seq<u8>|
                {
                    &&& checksum_okp(b)
                    &&& serialized@ == #[trigger] base58_of(b)
                    &&& crate::path::path_steps(path@) is Some
                    &&& derive_path_node(
                        parsed_node(b),
                        crate::path::path_steps(path@)->Some_0,
                    ) is Some
                    &&& t@ == base58_of(
                        ser_spec(
                            derive_path_node(
                                parsed_node(b),
                                crate::path::path_steps(path@)->Some_0,
                            )->Some_0,
                        ),
                    )
                },
            Err(e) => e == HdError::KeyDecode || e == HdError::ChecksumMismatch || e
                == HdError::PathSyntax || e == HdError::InvalidChildKey || e
                == HdError::CurveOperation,
        },
        forall|b: Seq<u8>|
            checksum_okp(b) && serialized@.len() <= 132 && serialized@ == #[trigger] base58_of(b)
                && crate::path::path_steps(path@) is Some && derive_path_node(
                parsed_node(b),
                crate::path::path_steps(path@)->Some_0,
            ) is Some ==> r is Ok && r->Ok_0@ == base58_of(
                ser_spec(
                    derive_path_node(
                        parsed_node(b),
                        crate::path::path_steps(path@)->Some_0,
                    )->Some_0,
                ),
            ),
{
    let node = match HDPrivateKey::from_serialized_string(serialized.as_str()) {
        Ok(n) => n,
        Err(e) => {
            return Err(e);
        },
    };
    let child = match node.derive_path(path.as_str(), compliant) {
        Ok(n) => n,
        Err(e) => {
            return Err(e);
        },
    };
    Ok(child.serialize_to_string())
}

/// Keypair conversion is deterministic: one 32-byte seed always yields one
/// public/secret pair.
pub proof fn lemma_keypair_deterministic(s1: Seq<u8>, s2: Seq<u8>)
    requires
        s1 == s2,
    ensures
        hex_of(ed25519_public_of(padded_copy_spec(s1, 32))) == hex_of(
            ed25519_public_of(padded_copy_spec(s2, 32)),
        ),
        hex_of(padded_copy_spec(s1, 32)) == hex_of(padded_copy_spec(s2, 32)),
{
}

} // verus!
