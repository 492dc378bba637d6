//! The calls of the lockdrop, from a request to its payout, and the dollar rates.

use frame_support::StorageHasher;
use plasm_lockdrop::config::Config;
use plasm_lockdrop::hashing::claim_id;
use plasm_lockdrop::issue::{BILLION, DAY};
use plasm_lockdrop::module::Module;
use plasm_lockdrop::rates::RateEntry;
use plasm_lockdrop::types::{Claim, ClaimVote, DispatchError, Event, Lockdrop, Origin, Scheme};
use plasm_lockdrop::types::TickerRate;

const USER: Origin = Origin::Signed([42; 32]);

fn config() -> Config {
    Config {
        vote_threshold: 3,
        positive_votes: 2,
        bitcoin_ticker_uri: String::from("http://btc"),
        ethereum_ticker_uri: String::from("http://eth"),
        bitcoin_api_uri: String::from("http://api/btc"),
        ethereum_api_uri: String::from("http://api/eth"),
        ethereum_contract_address: String::from("contract"),
        median_filter_expire: 60,
        median_filter_width: 5,
        authority_scheme: Scheme::Sr25519,
    }
}

fn authority(n: u8) -> [u8; 32] {
    [n; 32]
}

fn module(authorities: u8) -> Module {
    let mut module = Module::genesis(BILLION, (9_000, 200));
    let validators: Vec<([u8; 32], [u8; 32])> =
        (0..authorities).map(|n| ([100 + n; 32], authority(n))).collect();
    module.on_genesis_session(validators);
    module
}

fn params() -> Lockdrop {
    Lockdrop::Ethereum {
        public: [3; 33],
        value: 5_000,
        duration: 1000 * DAY,
        transaction_hash: [8; 32],
    }
}

fn vote(module: &mut Module, n: u16, approve: bool) -> Result<Event, DispatchError> {
    module.vote(Origin::Unsigned, ClaimVote { claim_id: claim_id(&params()), approve, authority: n })
}

fn report(module: &mut Module, config: &Config, now: u64, n: u16, btc: u128, eth: u128) -> Event {
    module
        .set_dollar_rate(config, Origin::Unsigned, now, TickerRate { authority: n, btc, eth })
        .unwrap()
}

#[test]
fn a_request_enters_a_claim() {
    let mut module = module(3);
    let id = claim_id(&params());
    assert!(!module.contains_claim(&id));
    assert_eq!(module.claims(&id), Claim::default());
    assert_eq!(module.request(USER, params()), Ok(Event::ClaimRequest(id)));
    let claim = Claim { params: params(), approve: 0, decline: 0, amount: 16_000_000, complete: false };
    assert_eq!(module.claims(&id), claim);
    assert_eq!(module.requests(), &vec![id]);
}

#[test]
fn a_repeated_request_keeps_the_amount() {
    let mut module = module(3);
    let id = claim_id(&params());
    module.request(USER, params()).unwrap();
    report(&mut module, &config(), 1_000, 0, 1, 1);
    assert_eq!(module.dollar_rate(), (1, 1));
    assert_eq!(module.request(USER, params()), Ok(Event::ClaimRequest(id)));
    assert_eq!(module.claims(&id).amount, 16_000_000);
    assert_eq!(module.requests(), &vec![id, id]);
}

#[test]
fn a_request_takes_a_signature() {
    let mut module = module(3);
    assert_eq!(module.request(Origin::Unsigned, params()), Err(DispatchError::BadOrigin));
    assert_eq!(module.request(Origin::Root, params()), Err(DispatchError::BadOrigin));
    assert!(module.requests().is_empty());
    assert!(!module.contains_claim(&claim_id(&params())));
}

#[test]
fn a_request_that_is_too_large_does_nothing() {
    let mut module = Module::genesis(BILLION, (u128::MAX, u128::MAX));
    assert_eq!(module.checked_request(USER, params()), None);
    assert!(module.requests().is_empty());
    assert_eq!(
        module.checked_request(Origin::Root, params()),
        Some(Err(DispatchError::BadOrigin))
    );
    // A claim that is known already needs no amount.
    let id = claim_id(&params());
    module.load_claim(id, Claim::default());
    assert_eq!(module.checked_request(USER, params()), Some(Ok(Event::ClaimRequest(id))));
}

#[test]
fn a_request_can_name_its_id() {
    let mut module = module(3);
    assert_eq!(module.request_with_id(USER, [1; 32], params()), Ok(Event::ClaimRequest([1; 32])));
    assert_eq!(module.claims(&[1; 32]).params, params());
    assert_eq!(module.checked_request(USER, params()), Some(Ok(Event::ClaimRequest(claim_id(&params())))));
}

#[test]
fn a_new_block_forgets_requests_only() {
    let mut module = module(3);
    module.request(USER, params()).unwrap();
    module.on_initialize();
    assert!(module.requests().is_empty());
    assert!(module.contains_claim(&claim_id(&params())));
    assert_eq!(module.keys().len(), 3);
}

#[test]
fn an_approved_claim_is_paid_once() {
    let mut module = module(3);
    let id = claim_id(&params());
    module.request(USER, params()).unwrap();
    vote(&mut module, 0, true).unwrap();
    vote(&mut module, 1, true).unwrap();
    assert_eq!(module.claim(&config(), USER, id), Err(DispatchError::NotEnoughVotes));
    vote(&mut module, 2, true).unwrap();
    assert_eq!(module.claim(&config(), Origin::Unsigned, id), Err(DispatchError::BadOrigin));
    assert_eq!(module.claim(&config(), USER, id), Ok(Event::ClaimComplete(id, [3; 33], 16_000_000)));
    assert!(module.claims(&id).complete);
    assert_eq!(module.claim(&config(), USER, id), Err(DispatchError::ClaimAlreadyPaid));
    assert_eq!(module.request(USER, params()), Err(DispatchError::RequestAlreadyPaid));
}

#[test]
fn a_declined_claim_is_not_paid() {
    let mut module = module(4);
    let id = claim_id(&params());
    module.request(USER, params()).unwrap();
    vote(&mut module, 0, true).unwrap();
    vote(&mut module, 1, true).unwrap();
    vote(&mut module, 2, false).unwrap();
    assert_eq!(module.claim(&config(), USER, id), Err(DispatchError::NotApproved));
    assert!(!module.claims(&id).complete);
    vote(&mut module, 3, true).unwrap();
    assert!(module.claim(&config(), USER, id).is_ok());
}

#[test]
fn more_decline_than_approve_votes_count_as_no_positive_votes() {
    let mut module = module(3);
    let id = claim_id(&params());
    module.request(USER, params()).unwrap();
    for n in 0u16..3 {
        vote(&mut module, n, false).unwrap();
    }
    assert_eq!(module.claim(&config(), USER, id), Err(DispatchError::NotApproved));
    let lenient = Config { positive_votes: 0, ..config() };
    assert!(module.claim(&lenient, USER, id).is_ok());
}

#[test]
fn an_unknown_claim_is_not_paid() {
    let mut module = module(3);
    assert_eq!(module.claim(&config(), USER, [1; 32]), Err(DispatchError::NotEnoughVotes));
    assert!(!module.contains_claim(&[1; 32]));
}

#[test]
fn votes_are_counted_and_noted() {
    let mut module = module(3);
    let id = claim_id(&params());
    module.request(USER, params()).unwrap();
    assert_eq!(vote(&mut module, 0, true), Ok(Event::ClaimResponse(id, authority(0), true)));
    assert_eq!(vote(&mut module, 2, false), Ok(Event::ClaimResponse(id, authority(2), false)));
    assert_eq!((module.claims(&id).approve, module.claims(&id).decline), (1, 1));
    assert!(module.has_vote(&authority(0), &id));
    assert!(!module.has_vote(&authority(1), &id));
    assert!(module.has_vote(&authority(2), &id));
    assert!(!module.has_vote(&authority(0), &[1; 32]));
}

#[test]
fn a_vote_without_authority_is_counted_and_refused() {
    let mut module = module(3);
    let id = claim_id(&params());
    module.request(USER, params()).unwrap();
    assert_eq!(vote(&mut module, 3, true), Err(DispatchError::UnknownVoter));
    assert_eq!(module.claims(&id).approve, 1);
}

#[test]
fn votes_and_rates_come_unsigned() {
    let mut module = module(3);
    let id = claim_id(&params());
    module.request(USER, params()).unwrap();
    let ballot = ClaimVote { claim_id: id, approve: true, authority: 0 };
    assert_eq!(module.vote(USER, ballot), Err(DispatchError::BadOrigin));
    assert_eq!(module.vote(Origin::Root, ballot), Err(DispatchError::BadOrigin));
    assert_eq!(module.claims(&id).approve, 0);
    let rate = TickerRate { authority: 0, btc: 1u128, eth: 1u128 };
    assert_eq!(module.set_dollar_rate(&config(), USER, 0, rate), Err(DispatchError::BadOrigin));
    let rate = TickerRate { authority: 3, btc: 1u128, eth: 1u128 };
    assert_eq!(
        module.set_dollar_rate(&config(), Origin::Unsigned, 0, rate),
        Err(DispatchError::UnknownOracle)
    );
    assert_eq!(module.dollar_rate(), (9_000, 200));
}

#[test]
fn errors_have_their_texts() {
    assert_eq!(DispatchError::BadOrigin.message(), "Bad origin");
    assert_eq!(DispatchError::RequestAlreadyPaid.message(), "claim should not be already paid");
    assert_eq!(DispatchError::ClaimAlreadyPaid.message(), "claim should be already paid");
    assert_eq!(DispatchError::NotEnoughVotes.message(), "this request don't get enough authority votes");
    assert_eq!(DispatchError::NotApproved.message(), "this request don't approved by authorities");
    assert_eq!(DispatchError::UnknownVoter.message(), "unable get authority by index");
    assert_eq!(DispatchError::UnknownOracle.message(), "unable to get authority by index");
}

#[test]
fn rates_are_lower_medians_of_reports() {
    let mut module = module(5);
    assert_eq!(report(&mut module, &config(), 100, 0, 10, 7), Event::NewDollarRate(10, 7));
    assert_eq!(report(&mut module, &config(), 101, 1, 20, 5), Event::NewDollarRate(10, 5));
    assert_eq!(report(&mut module, &config(), 102, 2, 30, 6), Event::NewDollarRate(20, 6));
    assert_eq!(report(&mut module, &config(), 103, 3, 40, 1), Event::NewDollarRate(20, 5));
    assert_eq!(report(&mut module, &config(), 104, 4, 50, 9), Event::NewDollarRate(30, 6));
    assert_eq!(module.dollar_rate(), (30, 6));
    assert_eq!(module.dollar_rate_f(&authority(1)), (101, 20, 5));
}

#[test]
fn a_newer_report_takes_the_place_of_an_older_one() {
    let mut module = module(3);
    report(&mut module, &config(), 100, 0, 10, 10);
    report(&mut module, &config(), 100, 1, 20, 20);
    assert_eq!(report(&mut module, &config(), 110, 0, 90, 90), Event::NewDollarRate(20, 20));
    assert_eq!(module.reports().len(), 2);
    assert_eq!(module.dollar_rate_f(&authority(0)), (110, 90, 90));
    assert_eq!(module.dollar_rate_f(&authority(2)), (0, 0, 0));
}

#[test]
fn expired_reports_leave_the_table() {
    let mut module = module(3);
    report(&mut module, &config(), 100, 0, 10, 10);
    report(&mut module, &config(), 130, 1, 20, 20);
    assert_eq!(report(&mut module, &config(), 159, 2, 30, 30), Event::NewDollarRate(20, 20));
    // At 160 the first report is sixty seconds old, which is no longer fresh.
    assert_eq!(report(&mut module, &config(), 160, 2, 30, 30), Event::NewDollarRate(20, 20));
    assert_eq!(module.reports().len(), 2);
    assert_eq!(module.dollar_rate_f(&authority(0)), (0, 0, 0));
    // Reports from the future are as fresh as reports of now.
    assert_eq!(report(&mut module, &config(), 0, 1, 5, 5), Event::NewDollarRate(5, 5));
    assert_eq!(module.reports().len(), 2);
}

#[test]
fn rates_stay_where_reports_expire_at_once() {
    let mut module = module(3);
    let strict = Config { median_filter_expire: 0, median_filter_width: 0, ..config() };
    assert_eq!(report(&mut module, &strict, 100, 0, 10, 10), Event::NewDollarRate(9_000, 200));
    assert!(module.reports().is_empty());
}

#[test]
fn a_minority_does_not_move_the_rates() {
    let mut module = module(5);
    for n in 0u16..3 {
        report(&mut module, &config(), 100, n, 9_000 + n as u128, 200 + n as u128);
    }
    report(&mut module, &config(), 100, 3, u128::MAX, 0);
    report(&mut module, &config(), 100, 4, u128::MAX, 0);
    let (btc, eth) = module.dollar_rate();
    assert!(9_000 <= btc && btc <= 9_002);
    assert!(200 <= eth && eth <= 202);
}

fn walk(n: u8) -> Vec<u8> {
    frame_support::Blake2_128Concat::hash(&authority(n))
}

#[test]
fn the_table_is_walked_in_storage_order() {
    let mut module = module(6);
    for n in 0u16..6 {
        report(&mut module, &config(), 100, n, n as u128, n as u128);
    }
    let mut expected: Vec<u8> = (0u8..6).collect();
    expected.sort_by_key(|n| walk(*n));
    let order: Vec<u8> = module.reports().iter().map(|e: &RateEntry| e.authority[0]).collect();
    assert_eq!(order, expected);
    assert_ne!(order, vec![0, 1, 2, 3, 4, 5]);
}

#[test]
fn a_narrow_filter_looks_back_on_the_end_of_the_walk() {
    let mut module = module(6);
    let narrow = Config { median_filter_width: 3, ..config() };
    for n in 0u16..6 {
        report(&mut module, &narrow, 100, n, n as u128 * 10, 1);
    }
    let mut order: Vec<u8> = (0u8..6).collect();
    order.sort_by_key(|n| walk(*n));
    let mut last: Vec<u128> = order[3..].iter().map(|n| *n as u128 * 10).collect();
    last.sort();
    assert_eq!(module.dollar_rate().0, last[1]);
    let mut filter = median::Filter::new(3);
    let filtered: Vec<u128> = order.iter().map(|n| filter.consume(*n as u128 * 10)).collect();
    assert_eq!(module.dollar_rate().0, filtered[5]);
}

#[test]
fn loaded_storage_is_read_back() {
    let mut module = Module::genesis(5, (1, 2));
    assert_eq!((module.alpha(), module.dollar_rate()), (5, (1, 2)));
    module.load_requests(vec![[1; 32], [2; 32]]);
    module.load_keys(vec![authority(9), authority(8)]);
    module.load_claim([1; 32], Claim { approve: 4, ..Claim::default() });
    module.load_vote(authority(9), [1; 32]);
    module.load_report(RateEntry { authority: authority(8), time: 3, btc: 4, eth: 5 });
    assert_eq!(module.requests(), &vec![[1; 32], [2; 32]]);
    assert_eq!(module.keys(), &vec![authority(9), authority(8)]);
    assert_eq!(module.claims(&[1; 32]).approve, 4);
    assert!(module.has_vote(&authority(9), &[1; 32]));
    assert_eq!(module.dollar_rate_f(&authority(8)), (3, 4, 5));
}

#[test]
fn sessions_replace_the_authorities() {
    let mut module = module(2);
    assert_eq!(module.keys(), &vec![authority(0), authority(1)]);
    let event = module.on_new_session(
        true,
        vec![([1; 32], authority(7)), ([2; 32], authority(1))],
        vec![([3; 32], authority(9))],
    );
    assert_eq!(event, Event::NewAuthorities(vec![authority(7), authority(1)]));
    module.on_before_session_ending();
    module.on_disabled(0);
    assert_eq!(module.keys(), &vec![authority(7), authority(1)]);
    assert_eq!(module.on_genesis_session(vec![]), Event::NewAuthorities(vec![]));
}

#[test]
fn authorities_are_found_by_their_key() {
    let mut module = module(3);
    assert_eq!(module.authority_index_of(&authority(0)), Some(0));
    assert_eq!(module.authority_index_of(&authority(2)), Some(2));
    assert_eq!(module.authority_index_of(&authority(3)), None);
    module.load_keys(vec![authority(4), authority(5), authority(5)]);
    assert_eq!(module.authority_index_of(&authority(5)), Some(1));
    // Indices do not reach beyond 16 bits.
    let mut keys: Vec<[u8; 32]> = vec![authority(1); 0x1_0002];
    keys[0x1_0001] = authority(6);
    module.load_keys(keys);
    assert_eq!(module.authority_index_of(&authority(6)), Some(1));
}
