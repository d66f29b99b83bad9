use vanity_miner::ripemd160::Ripemd160;

fn digest_hex(msg: &[u8]) -> String {
    let mut h = Ripemd160::new();
    h.update(&msg.to_vec());
    hex::encode(h.digest())
}

#[test]
fn rmd160_empty_vector() {
    assert_eq!(digest_hex(b""), "9c1185a5c5e9fc54612808977ee8f548b2258d31");
}

#[test]
fn rmd160_abc_vector() {
    assert_eq!(digest_hex(b"abc"), "8eb208f7e05d987a9b044a8e98c6b087f15a0bfc");
}

#[test]
fn rmd160_message_digest_vector() {
    assert_eq!(
        digest_hex(b"message digest"),
        "5d0689ef49d2fae572b881b123a85ffa21595f36"
    );
}

#[test]
fn rmd160_million_a_vector() {
    let mut h = Ripemd160::new();
    let chunk = vec![b'a'; 1000];
    for _ in 0..1000 {
        h.update(&chunk);
    }
    assert_eq!(
        hex::encode(h.digest()),
        "52783243c1697bdbe16d37f97f68f08325dc1528"
    );
}

#[test]
fn rmd160_streaming_matches_one_shot() {
    // Feeding the same bytes in misaligned pieces gives the same digest.
    let msg: Vec<u8> = (0u8..=255).cycle().take(200).collect();
    let mut one = Ripemd160::new();
    one.update(&msg);
    let mut parts = Ripemd160::new();
    parts.update(&msg[0..3].to_vec());
    parts.update(&msg[3..64].to_vec());
    parts.update(&msg[64..150].to_vec());
    parts.update(&msg[150..200].to_vec());
    assert_eq!(one.digest(), parts.digest());
}

#[test]
fn rmd160_digest_leaves_hasher_usable() {
    let mut h = Ripemd160::new();
    h.update(&b"ab".to_vec());
    let first = h.digest();
    assert_eq!(hex::encode(&first), digest_hex(b"ab"));
    h.update(&b"c".to_vec());
    assert_eq!(hex::encode(h.digest()), digest_hex(b"abc"));
}
