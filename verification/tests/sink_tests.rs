use vanity_miner::miner::Account;
use vanity_miner::miner::match_row_of;
use vanity_miner::miner::mnemonic_candidate_keypair;
use vanity_miner::miner::random_candidate_keypair;
use vanity_miner::hdkey::HDPrivateKey;
use vanity_miner::hdkey::KeyPair;
use vanity_miner::hdkey::sign_keypair_from_secret_key;
use vanity_miner::sink::MatchBuffer;
use vanity_miner::sink::MatchRow;

fn row(worker: usize, n: usize) -> MatchRow {
    MatchRow {
        account_id: format!("{worker:02}-{n:04}"),
        public: String::from("pub"),
        secret: String::from("sec"),
        seed: String::new(),
        tvc: 1,
        rule: 2,
    }
}

#[test]
fn sink_persists_every_match_exactly_once() {
    // Four producers, each pushing twenty-five matches, interleaved through
    // one buffer: the persisted total is exactly one hundred, with no
    // duplicate and no dropped entry.
    let workers = 4;
    let per_worker = 25;
    let mut buffer = MatchBuffer::new(10);
    let mut persisted: Vec<MatchRow> = Vec::new();
    for n in 0..per_worker {
        for w in 0..workers {
            if let Some(batch) = buffer.push(row(w, n)) {
                persisted.extend(batch);
            }
        }
    }
    persisted.extend(buffer.save());
    assert_eq!(persisted.len(), workers * per_worker);
    let mut ids: Vec<String> = persisted.iter().map(|r| r.account_id.clone()).collect();
    ids.sort();
    ids.dedup();
    assert_eq!(ids.len(), workers * per_worker);
    assert_eq!(buffer.buffered(), 0);
}

#[test]
fn buffer_drains_only_past_capacity() {
    let mut buffer = MatchBuffer::new(2);
    assert!(buffer.push(row(0, 0)).is_none());
    assert!(buffer.push(row(0, 1)).is_none());
    assert!(buffer.push(row(0, 2)).is_none());
    let drained = buffer.push(row(0, 3)).unwrap();
    assert_eq!(drained.len(), 3);
    assert_eq!(drained[0].account_id, "00-0000");
    assert_eq!(buffer.buffered(), 1);
    let rest = buffer.save();
    assert_eq!(rest.len(), 1);
    assert_eq!(rest[0].account_id, "00-0003");
    assert_eq!(buffer.buffered(), 0);
}

#[test]
fn match_row_carries_candidate_fields() {
    let account = Account {
        account_id: String::from("00aabb"),
        keypair: KeyPair::new(String::from("pk"), String::from("sk")),
        seed: String::from("phrase words"),
        tvc: 1,
    };
    assert_eq!(account.public_as_string(), "pk");
    assert_eq!(account.secret_as_string(), "sk");
    let r = match_row_of(account, 3);
    assert_eq!(r.account_id, "00aabb");
    assert_eq!(r.public, "pk");
    assert_eq!(r.secret, "sk");
    assert_eq!(r.seed, "phrase words");
    assert_eq!(r.tvc, 1);
    assert_eq!(r.rule, 3);
}

#[test]
fn fast_mode_keypair_shape() {
    let a = random_candidate_keypair();
    assert_eq!(a.public.len(), 64);
    assert_eq!(a.secret.len(), 64);
    assert!(a.public.chars().all(|c| c.is_ascii_hexdigit()));
    let b = random_candidate_keypair();
    assert_ne!(a.public, b.public);
}

#[test]
fn mnemonic_mode_pipeline_is_deterministic() {
    let phrase = "abandon abandon abandon abandon abandon abandon abandon abandon abandon abandon abandon about";
    let path = "m/44'/396'/0'/0/0";
    let a = mnemonic_candidate_keypair(phrase, path, false).unwrap();
    let b = mnemonic_candidate_keypair(phrase, path, false).unwrap();
    assert_eq!(a.public, b.public);
    assert_eq!(a.secret, b.secret);

    // The pipeline composes exactly from its stages.
    let node = HDPrivateKey::from_mnemonic(phrase)
        .derive_path(path, false)
        .unwrap();
    let direct = sign_keypair_from_secret_key(&node.secret());
    assert_eq!(a.public, direct.public);
    assert_eq!(a.secret, direct.secret);
    assert_eq!(a.secret, hex::encode(node.secret()));
}
