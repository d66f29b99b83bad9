//! The decision core of the mining loop: producing a candidate keypair in
//! either generation mode, classifying its address, and deciding whether the
//! candidate is recorded. The loop around it — threads, the address oracle
//! and persistence I/O — lives outside the library and only hands values in
//! and out.
use vstd::prelude::*;

use crate::HdError;
use crate::addr_checker::BeautyAddressCheck;
use crate::addr_checker::classify;
use crate::bytesutil::hex_of;
use crate::bytesutil::padded_copy_spec;
use crate::extcrypto::ed25519_public_of;
use crate::extcrypto::random_signing_keypair;
use crate::hdkey::HDPrivateKey;
use crate::hdkey::KeyPair;
use crate::hdkey::derive_path_node;
use crate::hdkey::master_of_seed;
use crate::hdkey::path_fail_err;
use crate::hdkey::seed_of_phrase;
use crate::hdkey::sign_keypair_from_secret_key;
use crate::path::path_steps;
use crate::sink::MatchRow;

verus! {

/// A candidate account: its address, the native keypair as hex text, the
/// mnemonic phrase it was recovered from (empty in fast mode), and the
/// contract tag.
pub struct Account {
    pub account_id: String,
    pub keypair: KeyPair,
    pub seed: String,
    pub tvc: u8,
}

impl Account {
    /// The public half of the keypair, as hex text.
    pub fn public_as_string(&self) -> (r: String)
        ensures
            r@ == self.keypair.public@,
    {
        self.keypair.public.clone()
    }

    /// The secret half of the keypair, as hex text.
    pub fn secret_as_string(&self) -> (r: String)
        ensures
            r@ == self.keypair.secret@,
    {
        self.keypair.secret.clone()
    }
}

/// Classify a candidate address and decide whether it is recorded: the
/// matching rule's code when one matches, nothing otherwise.
pub fn evaluate_address(checker: &BeautyAddressCheck, account_id: &str) -> (r: Option<u8>)
    requires
        checker.wf(),
        account_id@.len() >= 7,
    ensures
        match r {
            Some(c) => c == classify(account_id@) && c != 0,
            None => classify(account_id@) == 0,
        },
{
    let code = checker.rule_beauty_address(account_id);
    if code > 0 {
        Some(code)
    } else {
        None
    }
}

/// The row the sink persists for a matched candidate.
pub fn match_row_of(account: Account, rule: u8) -> (r: MatchRow)
    ensures
        r.account_id == account.account_id,
        r.public == account.keypair.public,
        r.secret == account.keypair.secret,
        r.seed == account.seed,
        r.tvc == account.tvc,
        r.rule == rule,
{
    MatchRow {
        public: account.keypair.public,
        secret: account.keypair.secret,
        account_id: account.account_id,
        seed: account.seed,
        tvc: account.tvc,
        rule,
    }
}

/// Fast-mode candidate generation: a fresh random native keypair, hex
/// encoded. Nothing is promised of the random secret beyond its shape, but
/// the two halves always belong together: the public half encodes the key
/// the signing backend derives from the secret bytes.
pub fn random_candidate_keypair() -> (r: KeyPair)
    ensures
        r.public@.len() == 64,
        r.secret@.len() == 64,
        exists|sk: Seq<u8>|
            sk.len() == 32 && r.secret@ == hex_of(sk) && r.public@ == hex_of(
                #[trigger] crate::extcrypto::dalek_public_of(sk),
            ),
{
    let (pk, sk) = random_signing_keypair();
    let r = KeyPair { public: crate::bytesutil::to_hex(&pk), secret: crate::bytesutil::to_hex(&sk) };
    proof {
        assert(sk@.len() == 32 && r.secret@ == hex_of(sk@) && r.public@ == hex_of(
            crate::extcrypto::dalek_public_of(sk@),
        ));
    }
    r
}

/// The HD node a phrase and a path lead to: the master node of the
/// phrase's seed, derived along the parsed path; `None` when the path is
/// malformed or a derivation step fails.
pub open spec fn candidate_node(phrase: Seq<char>, hd_path: Seq<char>) -> Option<
    crate::hdkey::HDNodeView,
> {
    if path_steps(hd_path) is Some {
        derive_path_node(master_of_seed(seed_of_phrase(phrase)), path_steps(hd_path)->Some_0)
    } else {
        None
    }
}

/// Mnemonic-mode candidate generation: phrase to seed, seed to master node,
/// master node along the configured path, and the resulting scalar into the
/// native signing keypair. The result is a pure function of the phrase and
/// the path.
pub fn mnemonic_candidate_keypair(phrase: &str, hd_path: &str, compliant: bool) -> (r: Result<
    KeyPair,
    HdError,
>)
    ensures
        match r {
            Ok(kp) => {
                &&& kp.public@.len() == 64
                &&& kp.secret@.len() == 64
                &&& candidate_node(phrase@, hd_path@) is Some
                &&& kp.public@ == hex_of(
                    ed25519_public_of(
                        padded_copy_spec(candidate_node(phrase@, hd_path@)->Some_0.key, 32),
                    ),
                )
                &&& kp.secret@ == hex_of(
                    padded_copy_spec(candidate_node(phrase@, hd_path@)->Some_0.key, 32),
                )
            },
            Err(e) => {
                &&& candidate_node(phrase@, hd_path@) is None
                &&& if path_steps(hd_path@) is None {
                    e == HdError::PathSyntax
                } else {
                    e == path_fail_err(
                        master_of_seed(seed_of_phrase(phrase@)),
                        path_steps(hd_path@)->Some_0,
                    )
                }
            },
        },
{
    let master = HDPrivateKey::from_mnemonic(phrase);
    let child = match master.derive_path(hd_path, compliant) {
        Ok(n) => n,
        Err(e) => {
            return Err(e);
        },
    };
    let scalar = child.secret();
    Ok(sign_keypair_from_secret_key(&scalar))
}

} // verus!
