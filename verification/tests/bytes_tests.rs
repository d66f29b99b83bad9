use vanity_miner::bytesutil::key192;
use vanity_miner::bytesutil::key256;
use vanity_miner::bytesutil::key512;
use vanity_miner::bytesutil::u32_to_be;
use vanity_miner::extcrypto::sha256;
use vanity_miner::extcrypto::sha512;
use vanity_miner::hdkey::HDPrivateKey;
use vanity_miner::hdkey::hdkey_derive_from_xprv_path;
use vanity_miner::hdkey::hdkey_xprv_from_mnemonic;

#[test]
fn sha256_known_vector() {
    assert_eq!(
        hex::encode(sha256(&b"abc".to_vec())),
        "ba7816bf8f01cfea414140de5dae2223b00361a396177a9cb410ff61f20015ad"
    );
}

#[test]
fn sha512_known_vector() {
    assert_eq!(
        hex::encode(sha512(&b"abc".to_vec())),
        "ddaf35a193617abacc417349ae20413112e6fa4e89a97ea20a9eeee64b55d39a\
         2192992a274fc1a836ba3c23a3feebbd454d4423643ce80e2a9ac94fa54ca49f"
    );
}

#[test]
fn key_copies_pad_and_truncate() {
    let short = vec![1u8, 2, 3];
    let k = key256(&short);
    assert_eq!(k.len(), 32);
    assert_eq!(&k[0..3], &[1, 2, 3]);
    assert!(k[3..].iter().all(|b| *b == 0));

    let long = (0u8..100).collect::<Vec<u8>>();
    assert_eq!(key192(&long), long[0..24].to_vec());
    assert_eq!(key512(&long)[0..64], long[0..64]);
}

#[test]
fn u32_big_endian_bytes() {
    assert_eq!(u32_to_be(0x01020304), vec![1, 2, 3, 4]);
    assert_eq!(u32_to_be(0x80000007), vec![0x80, 0, 0, 7]);
    assert_eq!(u32_to_be(0), vec![0, 0, 0, 0]);
}

#[test]
fn derive_from_xprv_path_matches_direct() {
    let phrase = String::from(
        "abandon abandon abandon abandon abandon abandon abandon abandon abandon abandon abandon about",
    );
    let xprv = hdkey_xprv_from_mnemonic(&phrase);
    let path = String::from("m/44'/396'/0'/0/0");
    let derived = hdkey_derive_from_xprv_path(&xprv, &path, false).unwrap();
    let direct = HDPrivateKey::from_mnemonic(&phrase)
        .derive_path(&path, false)
        .unwrap()
        .serialize_to_string();
    assert_eq!(derived, direct);
}
