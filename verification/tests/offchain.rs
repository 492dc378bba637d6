//! Runs of the offchain worker.

use plasm_lockdrop::config::Config;
use plasm_lockdrop::hashing::claim_id;
use plasm_lockdrop::issue::BILLION;
use plasm_lockdrop::json::{Json, Response};
use plasm_lockdrop::lock::{lock_uri, ExpectedLock};
use plasm_lockdrop::module::Module;
use plasm_lockdrop::scale::{encode_rate, encode_vote};
use plasm_lockdrop::ticker::ParseIntError;
use plasm_lockdrop::types::{Call, ClaimVote, Lockdrop, Origin, Scheme, TickerRate};
use plasm_lockdrop::worker::{btc_ticker, eth_ticker, rate_ballots, vote_ballots, Action, Ballot};
use plasm_lockdrop::worker::{Input, Message, Phase, Worker, WorkerError};
use sp_core::Pair;

fn config() -> Config {
    Config {
        vote_threshold: 2,
        positive_votes: 2,
        bitcoin_ticker_uri: String::from("http://ticker/btc"),
        ethereum_ticker_uri: String::from("http://ticker/eth"),
        bitcoin_api_uri: String::from("http://api/btc"),
        ethereum_api_uri: String::from("http://api/eth"),
        ethereum_contract_address: String::from("contract"),
        median_filter_expire: 60,
        median_filter_width: 5,
        authority_scheme: Scheme::Sr25519,
    }
}

fn pair(n: u8) -> sp_core::sr25519::Pair {
    sp_core::sr25519::Pair::from_seed(&[n; 32])
}

fn key(n: u8) -> [u8; 32] {
    pair(n).public().0
}

fn bitcoin(value: u64) -> Lockdrop {
    Lockdrop::Bitcoin { public: [2; 33], value, duration: 10_000, transaction_hash: [7; 32] }
}

fn module(requests: &[Lockdrop]) -> Module {
    let mut module = Module::genesis(BILLION, (9_000, 200));
    module.load_keys(vec![key(1), key(2), key(3)]);
    for params in requests {
        module.request(Origin::Signed([42; 32]), *params).unwrap();
    }
    module
}

fn price(usd: &str) -> Input {
    let text = format!("{{\"market_data\": {{\"current_price\": {{\"usd\": {}}}}}}}", usd);
    Input::Fetched(Response::Body(text.into_bytes()))
}

fn transaction(value: u64) -> Input {
    let text = format!(
        "{{\"configurations\": 20, \"outputs\": [{{\"script\": \"a9\", \"value\": {}}}]}}",
        value
    );
    Input::LockFetched(
        Response::Body(text.into_bytes()),
        ExpectedLock { script: vec![0xa9], sender: Json::Null },
    )
}

/// Drives a worker, with the local keys of the pairs and with the same transaction for each claim;
/// gives the calls that it submits, and how it ends.
fn run(module: &Module, local: &[u8], locked: u64) -> (Vec<Call>, Result<(), WorkerError>) {
    run_until(module, local, locked, usize::MAX, usize::MAX)
}

/// Drives a worker as [`run`] does, where only so many signatures and transactions are to be had.
fn run_until(
    module: &Module,
    local: &[u8],
    locked: u64,
    mut signatures: usize,
    mut transactions: usize,
) -> (Vec<Call>, Result<(), WorkerError>) {
    let config = config();
    let mut calls: Vec<Call> = vec![];
    let (mut worker, mut action) = Worker::start(&config);
    loop {
        let input = match action {
            Action::Fetch(uri) => {
                if uri == "http://ticker/btc" {
                    price("9012.57")
                } else {
                    price("207.1")
                }
            }
            Action::FetchLock(uri, params) => {
                assert_eq!(uri, lock_uri(&config, &params));
                if transactions == 0 {
                    let expected = ExpectedLock { script: vec![0xa9], sender: Json::Null };
                    Input::LockFetched(silent(), expected)
                } else {
                    transactions -= 1;
                    transaction(locked)
                }
            }
            Action::ListKeys => Input::Keys(local.iter().map(|n| key(*n)).collect()),
            Action::Sign(own, message) => {
                let n = *local.iter().find(|n| key(**n) == own).unwrap();
                if signatures == 0 {
                    Input::Signed(None)
                } else {
                    signatures -= 1;
                    Input::Signed(Some(pair(n).sign(&message).0))
                }
            }
            Action::Submit(call) => {
                calls.push(call);
                Input::Submitted
            }
            Action::Done(result) => {
                assert_eq!(worker.phase(), Phase::Finished);
                return (calls, result);
            }
        };
        let (next, after) = worker.step(module, &config, input);
        worker = next;
        action = after;
    }
}

#[test]
fn a_run_reports_rates_and_votes_in_order() {
    let module = module(&[bitcoin(5), bitcoin(6)]);
    let (calls, result) = run(&module, &[3, 9, 1], 6);
    assert_eq!(result, Ok(()));
    let told: Vec<Message> = calls
        .iter()
        .map(|call| match call {
            Call::SetDollarRate(rate, _) => Message::Rate(*rate),
            Call::Vote(vote, _) => Message::Vote(*vote),
            _ => unreachable!(),
        })
        .collect();
    let rate = |authority: u16| Message::Rate(TickerRate { authority, btc: 9_012u128, eth: 207u128 });
    let vote = |value: u64, approve: bool, authority: u16| {
        Message::Vote(ClaimVote { claim_id: claim_id(&bitcoin(value)), approve, authority })
    };
    assert_eq!(
        told,
        vec![rate(2), rate(0), vote(5, false, 2), vote(5, false, 0), vote(6, true, 2), vote(6, true, 0)]
    );
}

fn told(calls: &[Call]) -> Vec<Vec<u8>> {
    calls
        .iter()
        .map(|call| match call {
            Call::SetDollarRate(rate, _) => encode_rate(rate),
            Call::Vote(vote, _) => encode_vote(vote),
            _ => unreachable!(),
        })
        .collect()
}

#[test]
fn a_run_without_a_signature_submits_what_came_before() {
    let module = module(&[bitcoin(5), bitcoin(6)]);
    let (all, _) = run(&module, &[3, 1], 6);
    assert_eq!(all.len(), 6);
    for signatures in 0usize..6 {
        let (calls, result) = run_until(&module, &[3, 1], 6, signatures, 2);
        assert_eq!(told(&calls), told(&all[..signatures]));
        assert_eq!(result, Err(WorkerError::Signing));
    }
}

#[test]
fn a_run_without_a_transaction_submits_what_came_before() {
    let module = module(&[bitcoin(5), bitcoin(6)]);
    let (all, _) = run(&module, &[3, 1], 6);
    for transactions in 0usize..2 {
        let (calls, result) = run_until(&module, &[3, 1], 6, 6, transactions);
        assert_eq!(told(&calls), told(&all[..2 + 2 * transactions]));
        let error = String::from("HTTP response: DeadlineReached");
        assert_eq!(result, Err(WorkerError::LockFetch(error)));
    }
}

#[test]
fn what_a_run_submits_passes_the_pool() {
    let module = module(&[bitcoin(5), bitcoin(6)]);
    let (calls, _) = run(&module, &[1, 2, 3], 6);
    assert_eq!(calls.len(), 9);
    for call in calls.iter() {
        assert!(module.validate_unsigned(&config(), call).is_ok());
    }
}

#[test]
fn a_run_without_local_authorities_submits_nothing() {
    let module = module(&[bitcoin(5)]);
    assert_eq!(run(&module, &[8, 9], 5), (vec![], Ok(())));
    assert_eq!(run(&module, &[], 5), (vec![], Ok(())));
}

#[test]
fn a_run_without_requests_reports_rates_only() {
    let (calls, result) = run(&module(&[]), &[1], 5);
    assert_eq!(result, Ok(()));
    assert_eq!(calls.len(), 1);
}

#[test]
fn the_first_thing_is_the_btc_price() {
    let (worker, action) = Worker::start(&config());
    assert_eq!(action, Action::Fetch(String::from("http://ticker/btc")));
    assert_eq!(worker.phase(), Phase::BtcTicker);
    let (worker, action) = worker.step(&module(&[]), &config(), price("9012.57"));
    assert_eq!(action, Action::Fetch(String::from("http://ticker/eth")));
    assert_eq!(worker.phase(), Phase::EthTicker { btc: 9_012 });
}

fn silent() -> Response {
    Response::ResponseFailed(String::from("DeadlineReached"))
}

fn unreachable_service() -> Input {
    Input::Fetched(Response::RequestFailed(String::from("IoError")))
}

#[test]
fn tickers_tell_their_fetch_errors_in_quotes() {
    let text = WorkerError::EthFetch(String::from("boom")).message();
    assert_eq!(text, "ETH ticker fetch error: \"boom\"");
    let text = WorkerError::BtcFetch(String::from("boom")).message();
    assert_eq!(text, "BTC ticker fetch error: \"boom\"");
    let text = eth_ticker(&silent()).unwrap_err().message();
    assert_eq!(text, "ETH ticker fetch error: \"HTTP response: DeadlineReached\"");
    let text = btc_ticker(&silent()).unwrap_err().message();
    assert_eq!(text, "BTC ticker fetch error: \"HTTP response: DeadlineReached\"");
}

#[test]
fn plain_texts_are_quoted_as_they_are() {
    let plain: String = (' '..='~').filter(|c| !"\"'\\".contains(*c)).collect();
    assert_eq!(
        WorkerError::EthFetch(plain.clone()).message(),
        format!("ETH ticker fetch error: \"{}\"", plain)
    );
    let other: &str = "a \"quote\"\n\u{7f}";
    assert_eq!(
        WorkerError::BtcFetch(String::from(other)).message(),
        format!("BTC ticker fetch error: {:?}", other)
    );
}

#[test]
fn worker_errors_have_their_texts() {
    assert_eq!(
        WorkerError::BtcParse(ParseIntError::InvalidDigit).message(),
        "BTC ticker JSON parsing error: invalid digit found in string"
    );
    assert_eq!(
        WorkerError::EthParse(ParseIntError::PosOverflow).message(),
        "ETH ticker JSON parsing error: number too large to fit in target type"
    );
    assert_eq!(
        WorkerError::BtcParse(ParseIntError::Empty).message(),
        "BTC ticker JSON parsing error: cannot parse integer from empty string"
    );
    assert_eq!(WorkerError::LockFetch(String::from("HTTP request: \"")).message(), "HTTP request: \"");
    assert_eq!(WorkerError::UnreadableTransaction.message(), "unreadable transaction");
    assert_eq!(WorkerError::Signing.message(), "signing error");
}

#[test]
fn tickers_read_whole_dollars() {
    let document = b"{\"market_data\": {\"current_price\": {\"usd\": 207.9}}}".to_vec();
    assert_eq!(btc_ticker(&Response::Body(document.clone())), Ok(207));
    assert_eq!(eth_ticker(&Response::Body(document)), Ok(207));
}

#[test]
fn a_failing_btc_ticker_ends_the_run() {
    let module = module(&[bitcoin(5)]);
    let step = |input: Input| Worker::start(&config()).0.step(&module, &config(), input).1;
    assert_eq!(
        step(unreachable_service()),
        Action::Done(Err(WorkerError::BtcFetch(String::from("HTTP request: IoError"))))
    );
    assert_eq!(
        step(Input::Fetched(Response::Body(b"?".to_vec()))),
        Action::Done(Err(WorkerError::BtcFetch(String::from(
            "JSON decode: expected value at line 1 column 1"
        ))))
    );
    assert_eq!(step(price("null")), Action::Done(Err(WorkerError::BtcParse(ParseIntError::InvalidDigit))));
}

#[test]
fn a_failing_eth_ticker_ends_the_run() {
    let module = module(&[bitcoin(5)]);
    let step = |input: Input| {
        let (worker, _) = Worker::start(&config()).0.step(&module, &config(), price("1"));
        worker.step(&module, &config(), input).1
    };
    assert_eq!(
        step(unreachable_service()),
        Action::Done(Err(WorkerError::EthFetch(String::from("HTTP request: IoError"))))
    );
    assert_eq!(
        step(price("99999999999999999999")),
        Action::Done(Err(WorkerError::EthParse(ParseIntError::PosOverflow)))
    );
}

/// A worker that waits for the first transaction.
fn waiting(module: &Module) -> (Worker, Action) {
    let (worker, _) = Worker::start(&config());
    let (worker, _) = worker.step(module, &config(), price("1"));
    let (worker, action) = worker.step(module, &config(), price("1"));
    assert_eq!(action, Action::ListKeys);
    worker.step(module, &config(), Input::Keys(vec![]))
}

#[test]
fn a_failing_transaction_ends_the_run() {
    let module = module(&[bitcoin(5), bitcoin(6)]);
    let (worker, action) = waiting(&module);
    assert_eq!(action, Action::FetchLock(lock_uri(&config(), &bitcoin(5)), bitcoin(5)));
    assert_eq!(worker.phase(), Phase::Lock { id: claim_id(&bitcoin(5)) });
    let expected = ExpectedLock { script: vec![0xa9], sender: Json::Null };
    let (worker, action) = worker.step(&module, &config(), Input::LockFetched(silent(), expected));
    assert_eq!(action, Action::Done(Err(WorkerError::LockFetch(String::from("HTTP response: DeadlineReached")))));
    assert_eq!(worker.phase(), Phase::Finished);
    let expected = ExpectedLock { script: vec![0xa9], sender: Json::Null };
    let (worker, _) = waiting(&module);
    let (_, action) = worker.step(&module, &config(), Input::LockFetched(Response::Body(b"{}".to_vec()), expected));
    assert_eq!(action, Action::Done(Err(WorkerError::UnreadableTransaction)));
}

#[test]
fn a_key_that_does_not_sign_ends_the_run() {
    let module = module(&[bitcoin(5)]);
    let (worker, _) = waiting(&module);
    let (worker, _) = worker.step(&module, &config(), transaction(5));
    assert_eq!(worker.phase(), Phase::VoteKeys { id: claim_id(&bitcoin(5)), approve: true });
    let (worker, action) = worker.step(&module, &config(), Input::Keys(vec![key(2)]));
    let vote = ClaimVote { claim_id: claim_id(&bitcoin(5)), approve: true, authority: 1 };
    assert_eq!(action, Action::Sign(key(2), encode_vote(&vote)));
    let (_, action) = worker.step(&module, &config(), Input::Signed(None));
    assert_eq!(action, Action::Done(Err(WorkerError::Signing)));
}

#[test]
fn ballots_are_written_for_local_authorities() {
    let module = module(&[]);
    let local = vec![key(2), key(7), key(1), key(2)];
    let rate = |n: u8, authority: u16| Ballot {
        key: key(n),
        message: Message::Rate(TickerRate { authority, btc: 1u128, eth: 2u128 }),
    };
    assert_eq!(rate_ballots(&module, &local, 1, 2), vec![rate(2, 1), rate(1, 0), rate(2, 1)]);
    let vote = |n: u8, authority: u16| Ballot {
        key: key(n),
        message: Message::Vote(ClaimVote { claim_id: [4; 32], approve: false, authority }),
    };
    assert_eq!(vote_ballots(&module, &local, [4; 32], false), vec![vote(2, 1), vote(1, 0), vote(2, 1)]);
}

#[test]
fn rates_are_signed_as_encoded() {
    let module = module(&[]);
    let (worker, _) = Worker::start(&config());
    let (worker, _) = worker.step(&module, &config(), price("3"));
    let (worker, _) = worker.step(&module, &config(), price("4"));
    let (_, action) = worker.step(&module, &config(), Input::Keys(vec![key(3)]));
    let rate = TickerRate { authority: 2, btc: 3u128, eth: 4u128 };
    assert_eq!(action, Action::Sign(key(3), encode_rate(&rate)));
}
