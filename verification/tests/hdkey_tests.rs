use vanity_miner::HdError;
use vanity_miner::bytesutil::from_hex;
use vanity_miner::bytesutil::to_hex;
use vanity_miner::hdkey::HDPrivateKey;
use vanity_miner::hdkey::KeyPair;
use vanity_miner::hdkey::hdkey_derive_from_xprv;
use vanity_miner::hdkey::hdkey_public_from_xprv;
use vanity_miner::hdkey::hdkey_secret_from_xprv;
use vanity_miner::hdkey::hdkey_xprv_from_mnemonic;
use vanity_miner::hdkey::sign_keypair_from_secret_key;
use vanity_miner::path::parse_path;

const TEST_PHRASE: &str =
    "abandon abandon abandon abandon abandon abandon abandon abandon abandon abandon abandon about";

const TV1_MASTER_XPRV: &str = "xprv9s21ZrQH143K3QTDL4LXw2F7HEK3wJUD2nW2nRk4stbPy6cq3jPPqjiChkVvvNKmPGJxWUtg6LnF5kejMRNNU3TGtRBeJgk33yuGBxrMPHi";

#[test]
fn mnemonic_standard_seed() {
    let seed = HDPrivateKey::seed_from_mnemonic(TEST_PHRASE);
    assert_eq!(
        hex::encode(&seed),
        "5eb00bbddcf069084889a8ab9155568165f5c453ccb85e70811aaed6f6da5fc1\
         9a5ac40b389cd370d086206dec8aa6c43daea6690f20ad3d8d48b2d2ce9e38e4"
    );
}

#[test]
fn master_key_known_vector() {
    let seed = hex::decode("000102030405060708090a0b0c0d0e0f").unwrap();
    let master = HDPrivateKey::master_from_seed(&seed);
    assert_eq!(
        hex::encode(master.secret()),
        "e8f32e723decf4051aefac8e2c93c9c5b214313817cdb01a1494b917c8436b35"
    );
    assert_eq!(
        hex::encode(master.child_chain()),
        "873dff81c02f525623fd1fe5167eac3a55a049de3d314bb42ee227ffed37d508"
    );
    assert_eq!(master.depth(), 0);
    assert_eq!(master.parent_fingerprint(), vec![0u8; 4]);
    assert_eq!(master.serialize_to_string(), TV1_MASTER_XPRV);
}

#[test]
fn derive_hardened_known_vector() {
    let seed = hex::decode("000102030405060708090a0b0c0d0e0f").unwrap();
    let master = HDPrivateKey::master_from_seed(&seed);
    let child = master.derive(0, true, false).unwrap();
    assert_eq!(
        hex::encode(child.secret()),
        "edb2e14f9ee77d26dd93b4ecede8d16ed408ce149b6cd80b0715a2d911a0afea"
    );
    assert_eq!(
        hex::encode(child.child_chain()),
        "47fdacbd0f1097043b78c63c20c34ef4ed9a111d980047ad16282c7ae6236141"
    );
    assert_eq!(child.depth(), 1);
    assert_eq!(hex::encode(child.parent_fingerprint()), "3442193e");
    assert_eq!(child.child_number(), vec![0x80, 0, 0, 0]);
}

#[test]
fn derive_path_known_vector() {
    let seed = hex::decode("000102030405060708090a0b0c0d0e0f").unwrap();
    let master = HDPrivateKey::master_from_seed(&seed);
    let child = master.derive_path("m/0'/1", false).unwrap();
    assert_eq!(
        hex::encode(child.secret()),
        "3c6cb8d0f6a264c91ea8b5030fadaa8e538b020f0a387421a12de9319dc93368"
    );
    assert_eq!(child.depth(), 2);
}

#[test]
fn derivation_is_deterministic() {
    let master = HDPrivateKey::from_mnemonic(TEST_PHRASE);
    let a = master.derive_path("m/44'/396'/0'/0/0", false).unwrap();
    let b = HDPrivateKey::from_mnemonic(TEST_PHRASE)
        .derive_path("m/44'/396'/0'/0/0", false)
        .unwrap();
    assert_eq!(a.secret(), b.secret());
    assert_eq!(a.child_chain(), b.child_chain());
    assert_eq!(a.serialize_to_string(), b.serialize_to_string());
    assert_eq!(a.depth(), 5);
}

#[test]
fn serialization_round_trip() {
    let master = HDPrivateKey::from_mnemonic(TEST_PHRASE);
    let node = master.derive_path("m/44'/396'/0'/0/0", false).unwrap();
    let bytes = node.serialize();
    assert_eq!(bytes.len(), 82);
    let back = HDPrivateKey::from_serialized(&bytes).unwrap();
    assert_eq!(back.secret(), node.secret());
    assert_eq!(back.child_chain(), node.child_chain());
    assert_eq!(back.depth(), node.depth());
    assert_eq!(back.parent_fingerprint(), node.parent_fingerprint());
    assert_eq!(back.child_number(), node.child_number());

    let text = node.serialize_to_string();
    let back2 = HDPrivateKey::from_serialized_string(&text).unwrap();
    assert_eq!(back2.secret(), node.secret());
    assert_eq!(back2.child_chain(), node.child_chain());
    assert_eq!(back2.serialize_to_string(), text);
}

#[test]
fn deserialize_rejects_wrong_length() {
    assert!(matches!(
        HDPrivateKey::from_serialized(&vec![0u8; 10]),
        Err(HdError::KeyDecode)
    ));
}

#[test]
fn deserialize_rejects_bad_checksum() {
    let master = HDPrivateKey::from_mnemonic(TEST_PHRASE);
    let mut bytes = master.serialize();
    bytes[20] ^= 0xff;
    assert!(matches!(
        HDPrivateKey::from_serialized(&bytes),
        Err(HdError::ChecksumMismatch)
    ));
}

#[test]
fn deserialize_string_rejects_garbage() {
    assert!(matches!(
        HDPrivateKey::from_serialized_string("not base58 0OIl"),
        Err(HdError::KeyDecode)
    ));
    let mut tampered = String::from(TV1_MASTER_XPRV);
    tampered.replace_range(40..41, if &tampered[40..41] == "a" { "b" } else { "a" });
    let r = HDPrivateKey::from_serialized_string(&tampered);
    assert!(matches!(
        r,
        Err(HdError::ChecksumMismatch) | Err(HdError::KeyDecode)
    ));
}

#[test]
fn path_parsing_accepts_and_rejects() {
    let steps = parse_path("m/44'/396'/0'/0/0").unwrap();
    assert_eq!(steps.len(), 5);
    assert_eq!(steps[0].index, 44);
    assert!(steps[0].hardened);
    assert_eq!(steps[3].index, 0);
    assert!(!steps[3].hardened);

    assert_eq!(parse_path("44'/0").unwrap().len(), 2);
    assert_eq!(parse_path("0/m/1").unwrap().len(), 2);
    assert_eq!(parse_path("m/xyz"), Err(HdError::PathSyntax));
    assert_eq!(parse_path(""), Err(HdError::PathSyntax));
    assert_eq!(parse_path("m/2147483648"), Err(HdError::PathSyntax));
    assert_eq!(parse_path("m/2147483647").unwrap()[0].index, 0x7fffffff);
    assert_eq!(parse_path("m/5''"), Err(HdError::PathSyntax));
}

#[test]
fn xprv_helpers_expose_master() {
    let phrase = String::from(TEST_PHRASE);
    let xprv = hdkey_xprv_from_mnemonic(&phrase);
    let master = HDPrivateKey::from_mnemonic(TEST_PHRASE);
    assert_eq!(
        hdkey_secret_from_xprv(&xprv).unwrap(),
        hex::encode(master.secret())
    );
    let public_hex = hdkey_public_from_xprv(&xprv).unwrap();
    assert_eq!(public_hex.len(), 66);
    assert_eq!(public_hex, hex::encode(master.public().unwrap()));

    let derived = hdkey_derive_from_xprv(&xprv, 7, true, false).unwrap();
    let direct = master.derive(7, true, false).unwrap().serialize_to_string();
    assert_eq!(derived, direct);
}

#[test]
fn signing_keypair_known_vector() {
    // The standard Ed25519 seed-expansion test vector.
    let seed =
        hex::decode("9d61b19deffd5a60ba844af492ec2cc44449c5697b326919703bac031cae7f60").unwrap();
    let kp = sign_keypair_from_secret_key(&seed);
    assert_eq!(
        kp.public,
        "d75a980182b10ab7d54bfed3c964073a0ee172f3daa62325af021a68f707511a"
    );
    assert_eq!(kp.secret, hex::encode(&seed));
}

#[test]
fn signing_keypair_same_seed_same_pair() {
    let seed = vec![7u8; 32];
    let a = sign_keypair_from_secret_key(&seed);
    let b = sign_keypair_from_secret_key(&seed);
    assert_eq!(a.public, b.public);
    assert_eq!(a.secret, b.secret);
    let other = sign_keypair_from_secret_key(&vec![8u8; 32]);
    assert_ne!(a.public, other.public);
}

#[test]
fn keypair_new_keeps_halves() {
    let kp = KeyPair::new(String::from("aa"), String::from("bb"));
    assert_eq!(kp.public, "aa");
    assert_eq!(kp.secret, "bb");
}

#[test]
fn hex_codec_round_trip() {
    let bytes = vec![0u8, 1, 0x7f, 0x80, 0xff, 0x42];
    let text = to_hex(&bytes);
    assert_eq!(text, hex::encode(&bytes));
    assert_eq!(from_hex(&text).unwrap(), bytes);
    assert_eq!(from_hex("abc"), Err(HdError::KeyDecode));
    assert_eq!(from_hex("zz"), Err(HdError::KeyDecode));
    assert_eq!(from_hex("AB"), Err(HdError::KeyDecode));
    assert_eq!(from_hex("").unwrap(), Vec::<u8>::new());
}

#[test]
fn invalid_scalar_node_fails_curve_operations() {
    // An 82-byte serialization with a zero private scalar and a valid
    // checksum loads, but every curve operation on it must fail.
    let mut core: Vec<u8> = Vec::new();
    core.extend_from_slice(&[0x04, 0x88, 0xAD, 0xE4]);
    core.push(0);
    core.extend_from_slice(&[0u8; 4]);
    core.extend_from_slice(&[0u8; 4]);
    core.extend_from_slice(&[0x11u8; 32]);
    core.push(0);
    core.extend_from_slice(&[0u8; 32]);
    assert_eq!(core.len(), 78);
    let checksum = vanity_miner::extcrypto::sha256(&vanity_miner::extcrypto::sha256(&core));
    let mut bytes = core;
    bytes.extend_from_slice(&checksum[0..4]);
    let node = HDPrivateKey::from_serialized(&bytes).unwrap();
    assert!(matches!(node.public(), Err(HdError::CurveOperation)));
    assert!(matches!(
        node.derive(0, false, false),
        Err(HdError::CurveOperation)
    ));
}

#[test]
fn derivation_depth_is_bounded() {
    // After 255 steps the tree depth is exhausted and the next step must be
    // rejected rather than wrap around.
    let seed = hex::decode("000102030405060708090a0b0c0d0e0f").unwrap();
    let mut node = HDPrivateKey::master_from_seed(&seed);
    for _ in 0..255 {
        node = node.derive(0, false, false).unwrap();
    }
    assert_eq!(node.depth(), 255);
    let mut deep_path = String::from("m");
    for _ in 0..=255 {
        deep_path.push_str("/0");
    }
    let r = HDPrivateKey::master_from_seed(&seed).derive_path(&deep_path, false);
    assert!(matches!(r, Err(HdError::InvalidChildKey)));
}
