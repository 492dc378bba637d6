//! What is hashed, signed and stored, and how it is written.

use parity_scale_codec::Encode;
use plasm_lockdrop::bytes::{comes_before, same_bytes, same_text};
use plasm_lockdrop::config::Config;
use plasm_lockdrop::crypto::verify;
use plasm_lockdrop::hashing::{claim_id, storage_key};
use plasm_lockdrop::lock::lock_uri;
use plasm_lockdrop::scale::{encode_lockdrop, encode_rate, encode_vote};
use plasm_lockdrop::types::{ClaimVote, Lockdrop, Scheme, TickerRate};
use sp_core::Pair;

fn bitcoin() -> Lockdrop {
    Lockdrop::Bitcoin { public: [2; 33], value: 0x0102, duration: 3, transaction_hash: [0xab; 32] }
}

fn ethereum() -> Lockdrop {
    Lockdrop::Ethereum { public: [2; 33], value: 0x0102, duration: 3, transaction_hash: [0xab; 32] }
}

fn config() -> Config {
    Config {
        vote_threshold: 1,
        positive_votes: 1,
        bitcoin_ticker_uri: String::from("http://btc"),
        ethereum_ticker_uri: String::from("http://eth"),
        bitcoin_api_uri: String::from("http://api/btc"),
        ethereum_api_uri: String::from("http://api/eth"),
        ethereum_contract_address: String::from("contract"),
        median_filter_expire: 60,
        median_filter_width: 3,
        authority_scheme: Scheme::Sr25519,
    }
}

#[test]
fn parameters_are_encoded_field_by_field() {
    let expected: Vec<u8> = (0u8, [2u8; 33], 0x0102u64, 3u64, [0xabu8; 32]).encode();
    assert_eq!(encode_lockdrop(&bitcoin()), expected);
    assert_eq!(encode_lockdrop(&bitcoin())[34..42], [2, 1, 0, 0, 0, 0, 0, 0]);
    let expected: Vec<u8> = (1u8, [2u8; 33], 0x0102u64, 3u64, [0xabu8; 32]).encode();
    assert_eq!(encode_lockdrop(&ethereum()), expected);
}

#[test]
fn votes_are_encoded_field_by_field() {
    let vote = ClaimVote { claim_id: [9; 32], approve: true, authority: 0x0304 };
    assert_eq!(encode_vote(&vote), ([9u8; 32], true, 0x0304u16).encode());
    assert_eq!(encode_vote(&vote)[32..], [1, 4, 3]);
    let vote = ClaimVote { claim_id: [9; 32], approve: false, authority: 0x0304 };
    assert_eq!(encode_vote(&vote)[32..], [0, 4, 3]);
}

#[test]
fn rates_are_encoded_field_by_field() {
    let rate = TickerRate { authority: 7, btc: 9_000u128, eth: u128::MAX };
    assert_eq!(encode_rate(&rate), (7u16, 9_000u128, u128::MAX).encode());
    assert_eq!(encode_rate(&rate).len(), 34);
}

#[test]
fn encodings_tell_values_apart() {
    assert_ne!(encode_lockdrop(&bitcoin()), encode_lockdrop(&ethereum()));
    let a = ClaimVote { claim_id: [9; 32], approve: true, authority: 1 };
    let b = ClaimVote { claim_id: [9; 32], approve: true, authority: 256 };
    assert_ne!(encode_vote(&a), encode_vote(&b));
    let a = TickerRate { authority: 0, btc: 1u128, eth: 2u128 };
    let b = TickerRate { authority: 0, btc: 2u128, eth: 1u128 };
    assert_ne!(encode_rate(&a), encode_rate(&b));
}

#[test]
fn claim_id_is_the_hash_of_the_encoding() {
    let id = claim_id(&bitcoin());
    assert_eq!(id, sp_core::hashing::blake2_256(&encode_lockdrop(&bitcoin())));
    assert_ne!(id, claim_id(&ethereum()));
}

#[test]
fn storage_key_is_a_hash_and_the_authority() {
    let key: Vec<u8> = storage_key(&[5; 32]);
    assert_eq!(key.len(), 48);
    assert_eq!(key[..16], sp_core::hashing::blake2_128(&[5u8; 32]));
    assert_eq!(key[16..], [5u8; 32]);
}

#[test]
fn byte_strings_are_ordered_lexicographically() {
    assert!(comes_before(&[], &[0]));
    assert!(!comes_before(&[0], &[]));
    assert!(!comes_before(&[1, 2], &[1, 2]));
    assert!(comes_before(&[1, 2], &[1, 2, 0]));
    assert!(comes_before(&[1, 255], &[2]));
    assert!(!comes_before(&[2], &[1, 255]));
    assert!(same_bytes(&[1, 2], &[1, 2]) && !same_bytes(&[1, 2], &[2, 1]));
    assert!(same_text("usd", "usd") && !same_text("usd", "usdt") && !same_text("usd", "eur"));
}

#[test]
fn sr25519_signatures_are_checked() {
    let pair = sp_core::sr25519::Pair::from_seed(&[1; 32]);
    let other = sp_core::sr25519::Pair::from_seed(&[2; 32]);
    let signature: [u8; 64] = pair.sign(b"message").0;
    assert!(verify(Scheme::Sr25519, &pair.public().0, b"message", &signature));
    assert!(!verify(Scheme::Sr25519, &pair.public().0, b"massage", &signature));
    assert!(!verify(Scheme::Sr25519, &other.public().0, b"message", &signature));
    assert!(!verify(Scheme::Ed25519, &pair.public().0, b"message", &signature));
    assert!(!verify(Scheme::Sr25519, &pair.public().0, b"message", &[0; 64]));
}

#[test]
fn ed25519_signatures_are_checked() {
    let pair = sp_core::ed25519::Pair::from_seed(&[1; 32]);
    let other = sp_core::ed25519::Pair::from_seed(&[2; 32]);
    let signature: [u8; 64] = pair.sign(b"message").0;
    assert!(verify(Scheme::Ed25519, &pair.public().0, b"message", &signature));
    assert!(!verify(Scheme::Ed25519, &pair.public().0, b"massage", &signature));
    assert!(!verify(Scheme::Ed25519, &other.public().0, b"message", &signature));
    assert!(!verify(Scheme::Sr25519, &pair.public().0, b"message", &signature));
}

#[test]
fn transactions_are_fetched_by_their_hash_in_hexadecimal() {
    let hash: String = "ab".repeat(32);
    assert_eq!(lock_uri(&config(), &bitcoin()), format!("http://api/btc/{}", hash));
    assert_eq!(lock_uri(&config(), &ethereum()), format!("http://api/eth/{}", hash));
    let mut mixed: [u8; 32] = [0; 32];
    mixed[0] = 0x0f;
    mixed[31] = 0xf9;
    let params = Lockdrop::Bitcoin { public: [2; 33], value: 1, duration: 1, transaction_hash: mixed };
    assert_eq!(lock_uri(&config(), &params), format!("http://api/btc/{}", hex::encode(mixed)));
    assert!(lock_uri(&config(), &params).ends_with("f9"));
}
