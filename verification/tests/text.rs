use pow_ledger::digest::digest_fields;
use pow_ledger::hex::{starts_with_zeros, to_hex, HEX_WIDTH};
use pow_ledger::pool::join_transactions;
use std::collections::hash_map::DefaultHasher;
use std::hash::{Hash, Hasher};

#[test]
fn hex_of_zero_is_sixteen_zeros() {
    assert_eq!(to_hex(0), "0000000000000000");
}

#[test]
fn hex_pads_small_values_on_the_left() {
    assert_eq!(to_hex(1), "0000000000000001");
    assert_eq!(to_hex(0x1f), "000000000000001f");
    assert_eq!(to_hex(0xdead_beef), "00000000deadbeef");
    assert_eq!(to_hex(4096), "0000000000001000");
}

#[test]
fn hex_of_full_width_values() {
    assert_eq!(to_hex(u64::MAX), "ffffffffffffffff");
    assert_eq!(to_hex(0x0123_4567_89ab_cdef), "0123456789abcdef");
    assert_eq!(to_hex(0xfedc_ba98_7654_3210), "fedcba9876543210");
    assert_eq!(to_hex(0x8000_0000_0000_0000), "8000000000000000");
}

#[test]
fn hex_is_lowercase_and_of_fixed_width() {
    for value in [0u64, 9, 10, 15, 16, 255, 0xABCDEF, u64::MAX / 3, u64::MAX] {
        let text = to_hex(value);
        assert_eq!(text.len(), HEX_WIDTH);
        assert!(text.chars().all(|c| matches!(c, '0'..='9' | 'a'..='f')));
        assert_eq!(u64::from_str_radix(&text, 16), Ok(value));
        assert_eq!(text, format!("{:016x}", value));
    }
}

#[test]
fn leading_zeros_are_counted_exactly() {
    assert!(starts_with_zeros("0000abc", 4));
    assert!(starts_with_zeros("0000abc", 3));
    assert!(!starts_with_zeros("0000abc", 5));
    assert!(!starts_with_zeros("000abc", 4));
    assert!(!starts_with_zeros("a000", 1));
    assert!(!starts_with_zeros("0a00", 2));
}

#[test]
fn leading_zeros_at_the_edges() {
    assert!(starts_with_zeros("", 0));
    assert!(!starts_with_zeros("", 1));
    assert!(starts_with_zeros("abc", 0));
    assert!(starts_with_zeros("0", 1));
    assert!(!starts_with_zeros("0", 2));
    assert!(starts_with_zeros("00", 2));
    assert!(!starts_with_zeros("00", 3));
    assert!(!starts_with_zeros("0000000000000000", usize::MAX));
}

#[test]
fn leading_zeros_count_characters_not_bytes() {
    assert!(starts_with_zeros("0\u{e9}0", 1));
    assert!(!starts_with_zeros("0\u{e9}0", 2));
    assert!(!starts_with_zeros("\u{e9}", 2));
    assert!(!starts_with_zeros("\u{1F600}", 4));
}

#[test]
fn joining_nothing_gives_the_empty_payload() {
    assert_eq!(join_transactions(&Vec::new()), "");
}

#[test]
fn joining_one_transaction_adds_no_delimiter() {
    assert_eq!(join_transactions(&vec!["Transaction 1".to_string()]), "Transaction 1");
}

#[test]
fn joining_keeps_order_and_separates_with_semicolons() {
    let pool = vec!["Transaction 1".to_string(), "Transaction 2".to_string()];
    assert_eq!(join_transactions(&pool), "Transaction 1;Transaction 2");
    let pool = vec!["c".to_string(), "a".to_string(), "b".to_string()];
    assert_eq!(join_transactions(&pool), "c;a;b");
}

#[test]
fn joining_keeps_empty_transactions() {
    let pool = vec!["a".to_string(), String::new(), "b".to_string()];
    assert_eq!(join_transactions(&pool), "a;;b");
    let pool = vec![String::new(), String::new()];
    assert_eq!(join_transactions(&pool), ";");
}

#[test]
fn joining_matches_the_standard_join() {
    let pool = vec!["x;y".to_string(), "\u{e9}t\u{e9}".to_string(), "z".to_string()];
    assert_eq!(join_transactions(&pool), pool.join(";"));
}

#[test]
fn digest_is_the_same_on_every_call() {
    let first = digest_fields("0", 1_700_000_000, "Transaction 1;Transaction 2", 42);
    for _ in 0..10 {
        assert_eq!(digest_fields("0", 1_700_000_000, "Transaction 1;Transaction 2", 42), first);
    }
}

#[test]
fn digest_is_the_hasher_fed_the_framed_fields() {
    let cases = [
        ("0", 0u64, "", 0u64),
        ("0", 1_700_000_000, "Transaction 1;Transaction 2", 42),
        ("00a1", u64::MAX, "\u{e9}", u64::MAX),
    ];
    for (previous_hash, timestamp, data, nonce) in cases {
        let mut hasher = DefaultHasher::new();
        hasher.write(previous_hash.as_bytes());
        hasher.write(&[0xff]);
        hasher.write(&timestamp.to_le_bytes());
        hasher.write(data.as_bytes());
        hasher.write(&[0xff]);
        hasher.write(&nonce.to_le_bytes());
        assert_eq!(digest_fields(previous_hash, timestamp, data, nonce), hasher.finish());
    }
}

#[test]
fn digest_agrees_with_hashing_the_fields_one_by_one() {
    let cases = [
        ("0", 0u64, "", 0u64),
        ("0", 1_700_000_000, "Transaction 1;Transaction 2", 42),
        ("00a1", u64::MAX, "\u{e9}", u64::MAX),
    ];
    for (previous_hash, timestamp, data, nonce) in cases {
        let mut hasher = DefaultHasher::new();
        previous_hash.hash(&mut hasher);
        timestamp.hash(&mut hasher);
        data.hash(&mut hasher);
        nonce.hash(&mut hasher);
        assert_eq!(digest_fields(previous_hash, timestamp, data, nonce), hasher.finish());
    }
}

#[test]
fn digest_depends_on_each_field() {
    let base = digest_fields("0", 7, "payload", 3);
    assert_ne!(digest_fields("1", 7, "payload", 3), base);
    assert_ne!(digest_fields("0", 8, "payload", 3), base);
    assert_ne!(digest_fields("0", 7, "payloae", 3), base);
    assert_ne!(digest_fields("0", 7, "payload", 4), base);
}

#[test]
fn digest_depends_on_the_order_of_the_fields() {
    assert_ne!(digest_fields("ab", 1, "cd", 2), digest_fields("cd", 1, "ab", 2));
    assert_ne!(digest_fields("ab", 1, "cd", 2), digest_fields("ab", 2, "cd", 1));
}

#[test]
fn digest_keeps_text_fields_apart() {
    assert_ne!(digest_fields("ab", 0, "", 0), digest_fields("a", 0, "b", 0));
    assert_ne!(digest_fields("", 0, "ab", 0), digest_fields("a", 0, "b", 0));
}
