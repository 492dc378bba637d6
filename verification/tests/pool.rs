//! What the transaction pool lets in.

use plasm_lockdrop::config::Config;
use plasm_lockdrop::hashing::claim_id;
use plasm_lockdrop::issue::BILLION;
use plasm_lockdrop::module::Module;
use plasm_lockdrop::scale::{encode_rate, encode_vote};
use plasm_lockdrop::types::{Call, ClaimVote, InvalidTransaction, Lockdrop, Origin, Scheme};
use plasm_lockdrop::types::{TickerRate, ValidTransaction};
use sp_core::Pair;

fn config(scheme: Scheme) -> Config {
    Config {
        vote_threshold: 1,
        positive_votes: 1,
        bitcoin_ticker_uri: String::from("http://btc"),
        ethereum_ticker_uri: String::from("http://eth"),
        bitcoin_api_uri: String::from("http://api/btc"),
        ethereum_api_uri: String::from("http://api/eth"),
        ethereum_contract_address: String::from("contract"),
        median_filter_expire: 60,
        median_filter_width: 5,
        authority_scheme: scheme,
    }
}

fn pair(n: u8) -> sp_core::sr25519::Pair {
    sp_core::sr25519::Pair::from_seed(&[n; 32])
}

fn params() -> Lockdrop {
    Lockdrop::Bitcoin { public: [2; 33], value: 1, duration: 10_000, transaction_hash: [7; 32] }
}

fn module() -> Module {
    let mut module = Module::genesis(BILLION, (9_000, 200));
    module.load_keys(vec![pair(1).public().0, pair(2).public().0]);
    module.request(Origin::Signed([42; 32]), params()).unwrap();
    module
}

fn ballot(approve: bool, authority: u16) -> ClaimVote {
    ClaimVote { claim_id: claim_id(&params()), approve, authority }
}

fn let_in(tag: Vec<u8>) -> Result<ValidTransaction, InvalidTransaction> {
    Ok(ValidTransaction {
        priority: u64::MAX,
        requires_tags: vec![],
        provides: vec![tag],
        longevity: 64,
        propagate: true,
    })
}

#[test]
fn a_signed_vote_is_let_in() {
    let vote = ballot(true, 1);
    let signature: [u8; 64] = pair(2).sign(&encode_vote(&vote)).0;
    let verdict = module().validate_unsigned(&config(Scheme::Sr25519), &Call::Vote(vote, signature));
    assert_eq!(verdict, let_in(encode_vote(&vote)));
}

#[test]
fn a_vote_signed_by_another_is_refused() {
    let vote = ballot(true, 1);
    let signature: [u8; 64] = pair(1).sign(&encode_vote(&vote)).0;
    let verdict = module().validate_unsigned(&config(Scheme::Sr25519), &Call::Vote(vote, signature));
    assert_eq!(verdict, Err(InvalidTransaction::BadProof));
    // A signature of the opposite vote does not help.
    let signature: [u8; 64] = pair(2).sign(&encode_vote(&ballot(false, 1))).0;
    let verdict = module().validate_unsigned(&config(Scheme::Sr25519), &Call::Vote(vote, signature));
    assert_eq!(verdict, Err(InvalidTransaction::BadProof));
}

#[test]
fn a_vote_for_an_unknown_claim_is_refused() {
    let vote = ClaimVote { claim_id: [1; 32], approve: true, authority: 0 };
    let signature: [u8; 64] = pair(1).sign(&encode_vote(&vote)).0;
    let verdict = module().validate_unsigned(&config(Scheme::Sr25519), &Call::Vote(vote, signature));
    assert_eq!(verdict, Err(InvalidTransaction::Call));
}

#[test]
fn a_vote_without_authority_is_refused() {
    let vote = ballot(true, 2);
    let signature: [u8; 64] = pair(1).sign(&encode_vote(&vote)).0;
    let verdict = module().validate_unsigned(&config(Scheme::Sr25519), &Call::Vote(vote, signature));
    assert_eq!(verdict, Err(InvalidTransaction::BadProof));
}

#[test]
fn nobody_votes_twice() {
    let mut module = module();
    let vote = ballot(true, 0);
    module.vote(Origin::Unsigned, vote).unwrap();
    for approve in [true, false] {
        let again = ballot(approve, 0);
        let signature: [u8; 64] = pair(1).sign(&encode_vote(&again)).0;
        let verdict = module.validate_unsigned(&config(Scheme::Sr25519), &Call::Vote(again, signature));
        assert_eq!(verdict, Err(InvalidTransaction::Call));
    }
    // The authority is known by its key, wherever it stands in the list.
    module.load_keys(vec![pair(2).public().0, pair(1).public().0]);
    let again = ballot(true, 1);
    let signature: [u8; 64] = pair(1).sign(&encode_vote(&again)).0;
    let verdict = module.validate_unsigned(&config(Scheme::Sr25519), &Call::Vote(again, signature));
    assert_eq!(verdict, Err(InvalidTransaction::Call));
}

#[test]
fn verdicts_follow_from_the_signature() {
    let mut module = module();
    assert_eq!(module.judge_vote(&ballot(true, 0), true), let_in(encode_vote(&ballot(true, 0))));
    assert_eq!(module.judge_vote(&ballot(true, 0), false), Err(InvalidTransaction::BadProof));
    assert_eq!(module.judge_vote(&ballot(true, 9), true), Err(InvalidTransaction::BadProof));
    module.vote(Origin::Unsigned, ballot(true, 0)).unwrap();
    assert_eq!(module.judge_vote(&ballot(true, 0), true), Err(InvalidTransaction::Call));
    assert_eq!(module.judge_vote(&ballot(true, 0), false), Err(InvalidTransaction::BadProof));
    let rate = TickerRate { authority: 1, btc: 1u128, eth: 2u128 };
    assert_eq!(module.judge_rate(&rate, true), let_in(encode_rate(&rate)));
    assert_eq!(module.judge_rate(&rate, false), Err(InvalidTransaction::BadProof));
    let rate = TickerRate { authority: 2, btc: 1u128, eth: 2u128 };
    assert_eq!(module.judge_rate(&rate, true), Err(InvalidTransaction::BadProof));
}

#[test]
fn a_signed_rate_is_let_in() {
    let rate = TickerRate { authority: 0, btc: 9_000u128, eth: 200u128 };
    let signature: [u8; 64] = pair(1).sign(&encode_rate(&rate)).0;
    let verdict = module().validate_unsigned(&config(Scheme::Sr25519), &Call::SetDollarRate(rate, signature));
    assert_eq!(verdict, let_in(encode_rate(&rate)));
    let verdict = module().validate_unsigned(&config(Scheme::Ed25519), &Call::SetDollarRate(rate, signature));
    assert_eq!(verdict, Err(InvalidTransaction::BadProof));
    let other = TickerRate { authority: 0, btc: 9_001u128, eth: 200u128 };
    let verdict = module().validate_unsigned(&config(Scheme::Sr25519), &Call::SetDollarRate(other, signature));
    assert_eq!(verdict, Err(InvalidTransaction::BadProof));
    let other = TickerRate { authority: 2, btc: 9_000u128, eth: 200u128 };
    let verdict = module().validate_unsigned(&config(Scheme::Sr25519), &Call::SetDollarRate(other, signature));
    assert_eq!(verdict, Err(InvalidTransaction::BadProof));
}

#[test]
fn authorities_can_use_ed25519() {
    let pair = sp_core::ed25519::Pair::from_seed(&[1; 32]);
    let mut module = module();
    module.load_keys(vec![pair.public().0]);
    let vote = ballot(false, 0);
    let signature: [u8; 64] = pair.sign(&encode_vote(&vote)).0;
    let verdict = module.validate_unsigned(&config(Scheme::Ed25519), &Call::Vote(vote, signature));
    assert_eq!(verdict, let_in(encode_vote(&vote)));
    let verdict = module.validate_unsigned(&config(Scheme::Sr25519), &Call::Vote(vote, signature));
    assert_eq!(verdict, Err(InvalidTransaction::BadProof));
}

#[test]
fn users_calls_are_refused_unsigned() {
    let module = module();
    let verdict = module.validate_unsigned(&config(Scheme::Sr25519), &Call::Request(params()));
    assert_eq!(verdict, Err(InvalidTransaction::Call));
    let verdict = module.validate_unsigned(&config(Scheme::Sr25519), &Call::Claim(claim_id(&params())));
    assert_eq!(verdict, Err(InvalidTransaction::Call));
}
