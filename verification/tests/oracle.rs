//! What the oracles read in the documents of price and blockchain services.

use plasm_lockdrop::config::Config;
use plasm_lockdrop::json::{as_u64, fetch_json, is_text, item, member, same_json, Json, Response};
use plasm_lockdrop::lock::{check_lock, checked_lock, ExpectedLock};
use plasm_lockdrop::ticker::{parse_whole_part, ticker_rate, ParseIntError};
use plasm_lockdrop::types::{Lockdrop, Scheme};

fn config() -> Config {
    Config {
        vote_threshold: 1,
        positive_votes: 1,
        bitcoin_ticker_uri: String::from("http://btc"),
        ethereum_ticker_uri: String::from("http://eth"),
        bitcoin_api_uri: String::from("http://api/btc"),
        ethereum_api_uri: String::from("http://api/eth"),
        ethereum_contract_address: String::from("contract"),
        median_filter_expire: 60,
        median_filter_width: 3,
        authority_scheme: Scheme::Sr25519,
    }
}

fn json(text: &str) -> Json {
    fetch_json(&Response::Body(text.as_bytes().to_vec())).unwrap()
}

fn rate(text: &str) -> Result<u64, ParseIntError> {
    ticker_rate(&json(text))
}

fn price(usd: &str) -> Result<u64, ParseIntError> {
    rate(&format!("{{\"market_data\": {{\"current_price\": {{\"eur\": 1, \"usd\": {}}}}}}}", usd))
}

fn whole(text: &str) -> Result<u64, ParseIntError> {
    parse_whole_part(&text.chars().collect::<Vec<char>>())
}

#[test]
fn documents_are_read() {
    let document = json("{\"a\": [null, true, 12, \"text\", -3, 2.5], \"b\": {}}");
    let items = member(Some(&document), "a");
    assert_eq!(item(items, 0), Some(&Json::Null));
    assert_eq!(item(items, 1), Some(&Json::Bool(true)));
    assert_eq!(as_u64(item(items, 2)), Some(12));
    assert!(is_text(item(items, 3), "text"));
    assert_eq!(as_u64(item(items, 4)), None);
    assert_eq!(as_u64(item(items, 5)), None);
    assert!(item(items, 6).is_none());
    assert!(member(Some(&document), "c").is_none());
    assert!(item(Some(&document), 0).is_none());
    assert!(member(items, "a").is_none());
    assert_eq!(member(Some(&document), "b"), Some(&Json::Object(vec![])));
}

#[test]
fn values_are_compared_part_by_part() {
    let a = json("{\"x\": [1, {\"y\": \"z\"}], \"w\": null}");
    assert!(same_json(&a, &json("{\"w\": null, \"x\": [1, {\"y\": \"z\"}]}")));
    assert!(!same_json(&a, &json("{\"w\": null, \"x\": [2, {\"y\": \"z\"}]}")));
    assert!(!same_json(&a, &json("{\"w\": null, \"x\": [1]}")));
    assert!(!same_json(&a, &json("{\"v\": null, \"x\": [1, {\"y\": \"z\"}]}")));
    assert!(!same_json(&json("1"), &json("\"1\"")));
    assert!(!same_json(&json("true"), &json("false")));
}

fn failure(response: Response) -> String {
    fetch_json(&response).unwrap_err()
}

#[test]
fn failed_requests_and_responses_are_told_apart() {
    assert_eq!(failure(Response::RequestFailed(String::from("IoError"))), "HTTP request: IoError");
    assert_eq!(failure(Response::ResponseFailed(String::from("Unknown"))), "HTTP response: Unknown");
    assert_eq!(failure(Response::ResponseFailed(String::new())), "HTTP response: ");
}

#[test]
fn broken_bodies_are_told_with_the_message_of_the_decoder() {
    assert_eq!(
        failure(Response::Body(vec![])),
        "JSON decode: EOF while parsing a value at line 1 column 0"
    );
    for body in ["{\"a\": 1", "?", "nul", "[1,]", "\u{0}"] {
        let message = serde_json::from_slice::<serde_json::Value>(body.as_bytes()).unwrap_err();
        assert_eq!(
            failure(Response::Body(body.as_bytes().to_vec())),
            format!("JSON decode: {}", message)
        );
    }
    assert_eq!(fetch_json(&Response::Body(b"null".to_vec())), Ok(Json::Null));
}

#[test]
fn numbers_that_are_not_read_are_told_as_the_standard_library_does() {
    for text in ["", "12a", "18446744073709551616"] {
        assert_eq!(whole(text).unwrap_err().message(), text.parse::<u64>().unwrap_err().to_string());
    }
}

#[test]
fn whole_dollars_are_read_from_a_price_document() {
    assert_eq!(price("9012.57"), Ok(9012));
    assert_eq!(price("207"), Ok(207));
    assert_eq!(price("0.5"), Ok(0));
    assert_eq!(price("18446744073709551615"), Ok(u64::MAX));
}

#[test]
fn prices_that_are_no_numbers_are_refused() {
    assert_eq!(price("\"9012\""), Err(ParseIntError::InvalidDigit));
    assert_eq!(price("null"), Err(ParseIntError::InvalidDigit));
    assert_eq!(price("[9012]"), Err(ParseIntError::InvalidDigit));
    assert_eq!(price("-9012"), Err(ParseIntError::InvalidDigit));
    assert_eq!(rate("{}"), Err(ParseIntError::InvalidDigit));
    assert_eq!(rate("{\"market_data\": {\"current_price\": 9012}}"), Err(ParseIntError::InvalidDigit));
}

#[test]
fn whole_parts_are_read_as_numbers_of_64_bits() {
    assert_eq!(whole("00123.9.9"), Ok(123));
    assert_eq!(whole("+5"), Ok(5));
    assert_eq!(whole("18446744073709551615"), Ok(u64::MAX));
    assert_eq!(whole("18446744073709551616"), Err(ParseIntError::PosOverflow));
    assert_eq!(whole("99999999999999999999"), Err(ParseIntError::PosOverflow));
    assert_eq!(whole(""), Err(ParseIntError::Empty));
    assert_eq!(whole(".5"), Err(ParseIntError::Empty));
    assert_eq!(whole("+"), Err(ParseIntError::InvalidDigit));
    assert_eq!(whole("1e3"), Err(ParseIntError::InvalidDigit));
    assert_eq!(whole("12a"), Err(ParseIntError::InvalidDigit));
}

#[test]
fn whole_parts_are_read_as_the_standard_library_reads_them() {
    for text in ["7", "+7", "-7", "007", "", "+", "-", "7a", "18446744073709551616", "18446744073709551615"] {
        assert_eq!(whole(text).ok(), text.parse::<u64>().ok());
    }
}

fn bitcoin(value: u64) -> Lockdrop {
    Lockdrop::Bitcoin { public: [2; 33], value, duration: 10, transaction_hash: [7; 32] }
}

fn ethereum(value: u64) -> Lockdrop {
    Lockdrop::Ethereum { public: [3; 33], value, duration: 10, transaction_hash: [8; 32] }
}

fn expected() -> ExpectedLock {
    ExpectedLock { script: vec![0xa9, 0x14, 0x0f], sender: Json::Array(vec![Json::Text(String::from("owner"))]) }
}

fn check(params: &Lockdrop, tx: &str) -> Option<bool> {
    checked_lock(&config(), params, &json(tx), &expected())
}

#[test]
fn bitcoin_locks_are_checked() {
    let good = "{\"configurations\": 11, \"outputs\": [{\"script\": \"a9140f\", \"value\": 500}]}";
    assert_eq!(check(&bitcoin(500), good), Some(true));
    assert!(check_lock(&config(), &bitcoin(500), &json(good), &expected()));
    assert_eq!(check(&bitcoin(501), good), Some(false));
    let shallow = "{\"configurations\": 10, \"outputs\": [{\"script\": \"a9140f\", \"value\": 500}]}";
    assert_eq!(check(&bitcoin(500), shallow), Some(false));
    let other = "{\"configurations\": 11, \"outputs\": [{\"script\": \"a9140e\", \"value\": 500}]}";
    assert_eq!(check(&bitcoin(500), other), Some(false));
    let upper = "{\"configurations\": 11, \"outputs\": [{\"script\": \"A9140F\", \"value\": 500}]}";
    assert_eq!(check(&bitcoin(500), upper), Some(false));
}

#[test]
fn only_the_first_output_counts() {
    let second = "{\"configurations\": 11, \"outputs\": [{\"script\": \"\", \"value\": 1}, \
                  {\"script\": \"a9140f\", \"value\": 500}]}";
    assert_eq!(check(&bitcoin(500), second), Some(false));
}

#[test]
fn unreadable_transactions_are_told() {
    assert_eq!(check(&bitcoin(500), "{}"), None);
    assert_eq!(check(&bitcoin(500), "{\"configurations\": \"11\"}"), None);
    // The value is read only where the rest is as expected.
    assert_eq!(check(&bitcoin(500), "{\"configurations\": 11}"), Some(false));
    assert_eq!(check(&bitcoin(500), "{\"configurations\": 11, \"outputs\": [{\"script\": \"a9140f\"}]}"), None);
    assert_eq!(check(&bitcoin(500), "{\"configurations\": 3, \"outputs\": [{\"script\": \"a9140f\"}]}"), Some(false));
}

#[test]
fn ethereum_locks_are_checked() {
    let tx = |sender: &str, script: &str, value: &str, address: &str| {
        format!(
            "{{\"configurations\": 12, \"inputs\": [{{\"addresses\": {}}}], \
             \"outputs\": [{{\"script\": \"{}\", \"value\": {}, \"addresses\": [\"{}\"]}}]}}",
            sender, script, value, address
        )
    };
    assert_eq!(check(&ethereum(500), &tx("[\"owner\"]", "a9140f", "500", "contract")), Some(true));
    assert_eq!(check(&ethereum(500), &tx("[\"thief\"]", "a9140f", "500", "contract")), Some(false));
    assert_eq!(check(&ethereum(500), &tx("\"owner\"", "a9140f", "500", "contract")), Some(false));
    assert_eq!(check(&ethereum(500), &tx("[\"owner\"]", "a914", "500", "contract")), Some(false));
    assert_eq!(check(&ethereum(500), &tx("[\"owner\"]", "a9140f", "499", "contract")), Some(false));
    assert_eq!(check(&ethereum(500), &tx("[\"owner\"]", "a9140f", "500", "elsewhere")), Some(false));
    assert_eq!(check(&ethereum(500), &tx("[\"owner\"]", "a9140f", "\"500\"", "contract")), None);
    assert_eq!(check(&ethereum(500), &tx("[\"thief\"]", "a9140f", "\"500\"", "contract")), Some(false));
}
