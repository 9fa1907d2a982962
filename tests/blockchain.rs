use rust_blockchain::adder;
use rust_blockchain::block::{Block, SealError};
use rust_blockchain::blockchain::Blockchain;
use rust_blockchain::digest::{compute_digest, encode_fields, leading_zeros, DIGEST_HEX_LEN};
use rust_blockchain::fibonacci;

const STAMP: &str = "2024-01-01T00:00:00+00:00";

fn chain_with(difficulty: usize, payloads: &[&str]) -> Blockchain {
    let mut chain = Blockchain::new(difficulty);
    for p in payloads {
        assert_eq!(chain.add_block(p.to_string()), Ok(()));
    }
    chain
}

#[test]
fn test_add() {
    assert_eq!(adder::add(2, 3), 5);
}

#[test]
fn add_handles_negative_numbers() {
    assert_eq!(adder::add(-7, 3), -4);
    assert_eq!(adder::add(i32::MAX, 0), i32::MAX);
}

#[test]
fn fibonacci_first_values() {
    let expected: [u64; 10] = [1, 1, 2, 3, 5, 8, 13, 21, 34, 55];
    for (n, want) in expected.iter().enumerate() {
        assert_eq!(fibonacci(n as u64), *want);
    }
    assert_eq!(fibonacci(20), 10946);
    assert_eq!(fibonacci(30), 1346269);
}

#[test]
fn encoding_is_fixed_width_and_length_prefixed() {
    let bytes = encode_fields(1, STAMP, "hello", "0", 7);
    let mut want: Vec<u8> = vec![0, 0, 0, 0, 0, 0, 0, 1, 0, 0, 0, 0, 0, 0, 0, 25];
    want.extend_from_slice(STAMP.as_bytes());
    want.extend_from_slice(&[0, 0, 0, 0, 0, 0, 0, 5]);
    want.extend_from_slice(b"hello");
    want.extend_from_slice(&[0, 0, 0, 0, 0, 0, 0, 1]);
    want.extend_from_slice(b"0");
    want.extend_from_slice(&[0, 0, 0, 0, 0, 0, 0, 7]);
    assert_eq!(bytes, want);
}

#[test]
fn encoding_separates_shifted_fields() {
    assert_ne!(encode_fields(1, "ab", "c", "", 0), encode_fields(1, "a", "bc", "", 0));
    assert_ne!(
        compute_digest(1, "ab", "c", "", 0),
        compute_digest(1, "a", "bc", "", 0)
    );
}

#[test]
fn digest_known_values() {
    assert_eq!(
        compute_digest(1, STAMP, "hello", "0", 7),
        "c4751e5bf657c46d598ca8b1d2c0198b887c201b39235aa3bf9cf09007eea6dd"
    );
    assert_eq!(
        compute_digest(0, "", "", "", 0),
        "2c34ce1df23b838c5abf2a7f6437cca3d3067ed509ff25f11df6b11b582b51eb"
    );
}

#[test]
fn digest_is_lowercase_hex_of_fixed_length() {
    let h = compute_digest(3, STAMP, "payload", "abc", 99);
    assert_eq!(h.len(), DIGEST_HEX_LEN);
    assert!(h.chars().all(|c| c.is_ascii_digit() || ('a'..='f').contains(&c)));
}

#[test]
fn digest_is_deterministic() {
    let a = Block::with_timestamp(4, STAMP.to_string(), "x".to_string(), "y".to_string());
    let b = Block::with_timestamp(4, STAMP.to_string(), "x".to_string(), "y".to_string());
    assert_eq!(a.calculate_hash(), a.calculate_hash());
    assert_eq!(a.calculate_hash(), b.calculate_hash());
    assert_eq!(a.hash, b.hash);
}

#[test]
fn leading_zeros_cases() {
    assert!(leading_zeros("00ab", 2));
    assert!(leading_zeros("00ab", 0));
    assert!(!leading_zeros("0a0b", 2));
    assert!(!leading_zeros("00", 3));
    assert!(leading_zeros("", 0));
}

#[test]
fn with_timestamp_sets_fields_and_digest() {
    let b = Block::with_timestamp(1, STAMP.to_string(), "hello".to_string(), "0".to_string());
    assert_eq!(b.index, 1);
    assert_eq!(b.timestamp, STAMP);
    assert_eq!(b.data, "hello");
    assert_eq!(b.previous_hash, "0");
    assert_eq!(b.nonce, 0);
    assert_eq!(
        b.hash,
        "702798c22d67a077d484196431c2aff382caf71138dbe236f9e7af076fbdbd3c"
    );
}

#[test]
fn new_block_is_consistent() {
    let b = Block::new(5, "data".to_string(), "prev".to_string());
    assert_eq!(b.index, 5);
    assert_eq!(b.nonce, 0);
    assert!(!b.timestamp.is_empty());
    assert_eq!(b.hash, b.calculate_hash());
}

#[test]
fn mining_finds_the_first_qualifying_nonce() {
    let mut b = Block::with_timestamp(1, STAMP.to_string(), "hello".to_string(), "0".to_string());
    assert_eq!(b.mine_block(2), Ok(()));
    assert_eq!(b.nonce, 411);
    assert_eq!(
        b.hash,
        "00deb59492bdf20fb427b7bae327de39d9d37acc575197f99217b7dd4d2c54a3"
    );
    assert_eq!(b.hash, b.calculate_hash());
    for n in 0..411u64 {
        assert!(!compute_digest(1, STAMP, "hello", "0", n).starts_with("00"));
    }
}

#[test]
fn mining_with_difficulty_zero_keeps_the_nonce() {
    let mut b = Block::with_timestamp(2, STAMP.to_string(), "z".to_string(), "p".to_string());
    let before = b.hash.clone();
    assert_eq!(b.mine_block(0), Ok(()));
    assert_eq!(b.nonce, 0);
    assert_eq!(b.hash, before);
}

#[test]
fn sealing_rejects_unreachable_difficulty() {
    let mut b = Block::with_timestamp(1, STAMP.to_string(), "hello".to_string(), "0".to_string());
    assert_eq!(b.mine_block(DIGEST_HEX_LEN + 1), Err(SealError::DifficultyUnreachable));
    assert_eq!(b.nonce, 0);
    assert_eq!(b.hash, b.calculate_hash());
}

#[test]
fn sealing_within_a_budget_fails_without_change() {
    let mut b = Block::with_timestamp(1, STAMP.to_string(), "hello".to_string(), "0".to_string());
    let before = b.hash.clone();
    assert_eq!(b.seal_within(2, 410), Err(SealError::BudgetExhausted));
    assert_eq!(b.nonce, 0);
    assert_eq!(b.hash, before);
    assert_eq!(b.seal_within(2, 411), Ok(()));
    assert_eq!(b.nonce, 411);
}

#[test]
fn sealing_starts_from_the_block_nonce() {
    let mut b = Block::with_timestamp(1, STAMP.to_string(), "hello".to_string(), "0".to_string());
    b.nonce = 500;
    assert_eq!(b.seal_within(1, 499), Err(SealError::BudgetExhausted));
    assert_eq!(b.nonce, 500);
    assert_eq!(b.seal_within(2, u64::MAX), Ok(()));
    assert!(b.nonce >= 500);
    assert!(b.hash.starts_with("00"));
}

#[test]
fn genesis_invariant() {
    let chain = Blockchain::new(3);
    assert_eq!(chain.chain.len(), 1);
    assert_eq!(chain.difficulty, 3);
    let g = &chain.chain[0];
    assert_eq!(g.index, 0);
    assert_eq!(g.previous_hash, "0");
    assert_eq!(g.data, "Genesis Block");
    assert_eq!(g.nonce, 0);
    assert_eq!(g.hash, g.calculate_hash());
    assert!(chain.is_valid());
}

#[test]
fn scenario_new_chain_is_valid() {
    let chain = Blockchain::new(2);
    assert_eq!(chain.chain.len(), 1);
    assert!(chain.is_valid());
}

#[test]
fn scenario_append_hello() {
    let chain = chain_with(2, &["hello"]);
    assert_eq!(chain.chain.len(), 2);
    let b = &chain.chain[1];
    assert!(b.hash.starts_with("00"));
    assert_eq!(b.data, "hello");
    assert_eq!(b.index, 1);
    assert_eq!(b.previous_hash, chain.chain[0].hash);
    assert!(chain.is_valid());
}

#[test]
fn scenario_corrupt_payload() {
    let mut chain = chain_with(2, &["a", "b", "c"]);
    assert!(chain.is_valid());
    chain.chain[2].data = "x".to_string();
    assert!(!chain.is_valid());
}

#[test]
fn scenario_replayed_digest() {
    let mut chain = chain_with(2, &["a", "b", "c"]);
    let forged = if chain.chain[2].hash == format!("00{}", "f".repeat(62)) {
        format!("00{}", "e".repeat(62))
    } else {
        format!("00{}", "f".repeat(62))
    };
    chain.chain[2].hash = forged;
    assert!(chain.chain[2].hash.starts_with("00"));
    assert!(!chain.is_valid());
}

#[test]
fn scenario_swapped_blocks() {
    let mut chain = chain_with(2, &["a", "b", "c"]);
    chain.chain.swap(1, 3);
    assert!(!chain.is_valid());
}

#[test]
fn linkage_after_appends() {
    let chain = chain_with(1, &["one", "two", "three", "four"]);
    assert_eq!(chain.chain.len(), 5);
    for i in 1..chain.chain.len() {
        assert_eq!(chain.chain[i].previous_hash, chain.chain[i - 1].hash);
        assert_eq!(chain.chain[i].index, i as u64);
    }
}

#[test]
fn work_factor_after_appends() {
    let chain = chain_with(3, &["p", "q"]);
    for b in &chain.chain[1..] {
        assert!(b.hash.starts_with("000"));
        assert_eq!(b.hash, b.calculate_hash());
    }
}

#[test]
fn tampering_any_field_is_detected() {
    let base = chain_with(1, &["a", "b", "c"]);
    let edits: Vec<fn(&mut Block)> = vec![
        |b| b.index += 1,
        |b| b.timestamp.push('Z'),
        |b| b.data.push('!'),
        |b| b.previous_hash.push('0'),
        |b| b.nonce += 1,
        |b| b.hash.push('0'),
    ];
    for i in 0..base.chain.len() - 1 {
        for edit in &edits {
            let mut chain = Blockchain { chain: base.chain.clone(), difficulty: base.difficulty };
            edit(&mut chain.chain[i]);
            assert!(!chain.is_valid(), "block {} edited", i);
        }
    }
}

#[test]
fn tampering_with_resealing_breaks_the_next_link() {
    let mut chain = chain_with(1, &["a", "b", "c"]);
    chain.chain[1].data = "forged".to_string();
    chain.chain[1].hash = chain.chain[1].calculate_hash();
    assert!(!chain.is_valid());
}

#[test]
fn validation_is_repeatable() {
    let mut chain = chain_with(1, &["a", "b"]);
    assert_eq!(chain.is_valid(), chain.is_valid());
    assert!(chain.is_valid());
    chain.chain[1].data = "x".to_string();
    assert_eq!(chain.is_valid(), chain.is_valid());
    assert!(!chain.is_valid());
}

#[test]
fn append_with_fixed_timestamp() {
    let mut chain = Blockchain::new(2);
    let tail = chain.chain[0].hash.clone();
    assert_eq!(chain.add_block_at("hello".to_string(), STAMP.to_string()), Ok(()));
    let b = &chain.chain[1];
    assert_eq!(b.timestamp, STAMP);
    assert_eq!(b.previous_hash, tail);
    assert!(b.hash.starts_with("00"));
    for n in 0..b.nonce {
        assert!(!compute_digest(1, STAMP, "hello", &tail, n).starts_with("00"));
    }
}

#[test]
fn append_rejects_unreachable_difficulty() {
    let mut chain = Blockchain::new(DIGEST_HEX_LEN + 1);
    assert_eq!(chain.add_block("a".to_string()), Err(SealError::DifficultyUnreachable));
    assert_eq!(chain.chain.len(), 1);
    assert!(chain.is_valid());
}

#[test]
fn empty_payload_is_accepted() {
    let chain = chain_with(1, &[""]);
    assert_eq!(chain.chain[1].data, "");
    assert!(chain.is_valid());
}
