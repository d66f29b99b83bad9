use vanity_miner::addr_checker::BeautyAddressCheck;
use vanity_miner::miner::evaluate_address;
use vanity_miner::sink::FileBackend;

fn checker() -> BeautyAddressCheck {
    BeautyAddressCheck::new()
}

#[test]
fn keyword_prefix_wins_over_later_rules() {
    // The prefix matches a keyword, and no chunk is low-entropy, so the
    // keyword rule is the first to fire.
    let addr = "0123456789abcdef0123456789abcdef0123456789abcdef0123456789abcd";
    assert_eq!(checker().rule_beauty_address(addr), 2);
    // The same prefix on a full 64-character address.
    let full = "0123456789abcdef0123456789abcdef0123456789abcdef0123456789abcdef";
    assert_eq!(full.len(), 64);
    assert_eq!(checker().rule_beauty_address(full), 2);
}

#[test]
fn clustered_chunk_reported_first() {
    // The first eight characters repeat one letter: fewer than three
    // distinct characters in a chunk.
    let addr = "aaaaaaaa0123456789abcdef0123456789abcdef0123456789abcdef01234567";
    assert_eq!(addr.len(), 64);
    assert_eq!(checker().rule_beauty_address(addr), 1);
}

#[test]
fn low_entropy_prefix_beats_single_class() {
    // All-digit address whose prefix has two distinct characters: the prefix
    // rule fires before the single-character-class rule.
    let addr = "1212121345678901234567890123456789012345678901234567890123456789";
    assert_eq!(addr.len(), 64);
    assert_eq!(checker().rule_beauty_address(addr), 3);
}

#[test]
fn low_entropy_whole_address() {
    // Five distinct characters overall, but every chunk and the prefix stay
    // above their own thresholds.
    let addr = "abcdeabcdeabcdeabcdeabcdeabcdeabcdeabcdeabcdeabcdeabcdeabcdeabcd";
    assert_eq!(addr.len(), 64);
    assert_eq!(checker().rule_beauty_address(addr), 4);
}

#[test]
fn single_character_class_digits() {
    let addr = "9876543210987654321098765432109876543210987654321098765432109876";
    assert_eq!(addr.len(), 64);
    assert_eq!(checker().rule_beauty_address(addr), 5);
}

#[test]
fn single_character_class_letters() {
    let addr = "fedcbafedcbafedcbafedcbafedcbafedcbafedcbafedcbafedcbafedcbafedc";
    assert_eq!(addr.len(), 64);
    assert_eq!(checker().rule_beauty_address(addr), 5);
}

#[test]
fn plain_address_matches_nothing() {
    // Distinct-enough everywhere and mixed digits and letters.
    let addr = "0a1b2c3d4e5f67890a1b2c3d4e5f67890a1b2c3d4e5f67890a1b2c3d4e5f6789";
    assert_eq!(addr.len(), 64);
    assert_eq!(checker().rule_beauty_address(addr), 0);
}

#[test]
fn all_keywords_recognised() {
    let c = checker();
    for kw in [
        "abcabca", "1234321", "0123456", "1234567", "2345678", "3456789", "4567890",
    ] {
        // Follow each keyword with distinct-enough mixed content.
        let addr = format!("{kw}90a1b2c3d4e5f67890a1b2c3d4e5f67890a1b2c3d4e5f67890a1b2c3d");
        assert_eq!(addr.len(), 64);
        assert_eq!(c.rule_beauty_address(&addr), 2, "keyword {kw}");
    }
}

#[test]
fn evaluate_address_filters_matches() {
    let c = checker();
    let plain = "0a1b2c3d4e5f67890a1b2c3d4e5f67890a1b2c3d4e5f67890a1b2c3d4e5f6789";
    assert_eq!(evaluate_address(&c, plain), None);
    let pretty = "0123456789abcdef0123456789abcdef0123456789abcdef0123456789abcd";
    assert_eq!(evaluate_address(&c, pretty), Some(2));
}

#[test]
fn checker_tables_hold_alphabets() {
    let c = checker();
    assert_eq!(c.hex_letters, "abcdef".chars().collect::<Vec<char>>());
    assert_eq!(c.hex_numbers, "0123456789".chars().collect::<Vec<char>>());
    assert_eq!(
        c.hex_all_chars,
        "0123456789abcdef".chars().collect::<Vec<char>>()
    );
    assert_eq!(c.keywords.len(), 7);
}

#[test]
fn backend_selection_by_path() {
    let rd = FileBackend::from_path("redis://localhost:6379");
    assert_eq!(rd.backend_type, "redis");
    assert_eq!(rd.path, "redis://localhost:6379");
    let csv = FileBackend::from_path("addresses.csv");
    assert_eq!(csv.backend_type, "csv");
    let short = FileBackend::from_path("red");
    assert_eq!(short.backend_type, "csv");
}
