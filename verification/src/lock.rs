//! Checking locking transactions against what a claim says of them.

use vstd::prelude::*;
use vstd::string::StringExecFns;
use crate::config::Config;
use crate::json::{as_u64, is_text, item, member, part_view, same_json, Json, JsonView};
use crate::types::Lockdrop;

verus! {

/// The lower case hexadecimal digit for a number below sixteen.
pub open spec fn hex_digit(n: nat) -> char {
    if n < 10 {
        (48 + n) as char
    } else {
        (87 + n) as char
    }
}

/// Bytes in lower case hexadecimal, two digits a byte, the higher one first.
pub open spec fn hex_text(data: Seq<u8>) -> Seq<char> {
    Seq::new(
        2 * data.len(),
        |i: int|
            hex_digit(
                if i % 2 == 0 {
                    data[i / 2] as nat / 16
                } else {
                    data[i / 2] as nat % 16
                },
            ),
    )
}

/// Calls `hex::encode`, which writes bytes in lower case hexadecimal.
#[verifier::external_body]
fn hex_encode(data: &[u8]) -> (text: String)
    ensures
        text@ == hex_text(data@),
{
    hex::encode(data)
}

/// Where the transaction of a claim can be fetched.
pub open spec fn lock_uri_of(config: Config, params: Lockdrop) -> Seq<char> {
    let api = match params {
        Lockdrop::Bitcoin { .. } => config.bitcoin_api_uri@,
        Lockdrop::Ethereum { .. } => config.ethereum_api_uri@,
    };
    api + "/"@ + hex_text(params.hash_of_transaction()@)
}

/// Writes down where the transaction of a claim can be fetched.
pub fn lock_uri(config: &Config, params: &Lockdrop) -> (uri: String)
    ensures
        uri@ == lock_uri_of(*config, *params),
{
    match params {
        Lockdrop::Bitcoin { transaction_hash, .. } => {
            let mut uri: String = String::from_str(config.bitcoin_api_uri.as_str());
            uri.append("/");
            uri.append(hex_encode(transaction_hash.as_slice()).as_str());
            uri
        },
        Lockdrop::Ethereum { transaction_hash, .. } => {
            let mut uri: String = String::from_str(config.ethereum_api_uri.as_str());
            uri.append("/");
            uri.append(hex_encode(transaction_hash.as_slice()).as_str());
            uri
        },
    }
}

/// What a locking transaction has to show.
#[derive(Debug, PartialEq, Eq)]
pub struct ExpectedLock {
    /// Bitcoin: the P2SH script of the time lock on the claim's public key and duration.
    /// Ethereum: the call of the lock method with the claim's duration.
    pub script: Vec<u8>,
    /// Ethereum: the sender's address, of the claim's public key.
    pub sender: Json,
}

/// How many confirmations a service tells of a transaction.
pub open spec fn confirmations(tx: JsonView) -> Option<u64> {
    tx.member("configurations"@).as_u64()
}

/// The first output of a transaction.
pub open spec fn first_output(tx: JsonView) -> JsonView {
    tx.member("outputs"@).item(0)
}

/// The value of the first output of a transaction.
pub open spec fn output_value(tx: JsonView) -> Option<u64> {
    first_output(tx).member("value"@).as_u64()
}

/// Whether the first output of a transaction has the script.
pub open spec fn has_script(tx: JsonView, script: Seq<u8>) -> bool {
    first_output(tx).member("script"@) == JsonView::Text(hex_text(script))
}

/// Whether the first input of a transaction comes from the sender.
pub open spec fn has_sender(tx: JsonView, sender: JsonView) -> bool {
    tx.member("inputs"@).item(0).member("addresses"@) == sender
}

/// Whether the first output of a transaction goes to the address.
pub open spec fn goes_to(tx: JsonView, address: Seq<char>) -> bool {
    first_output(tx).member("addresses"@).item(0) == JsonView::Text(address)
}

/// What is checked of a transaction before its value is: that it is deep enough in the chain, for
/// Ethereum that it comes from the owner of the claim's key, and that it locks as the claim says.
pub open spec fn locks_as_expected(
    tx: JsonView,
    params: Lockdrop,
    script: Seq<u8>,
    sender: JsonView,
) -> bool {
    &&& confirmations(tx) matches Some(n) && n > 10
    &&& params is Ethereum ==> has_sender(tx, sender)
    &&& has_script(tx, script)
}

/// Whether what has to be read of a transaction can be read: the confirmations, and the value
/// where it comes to that.
pub open spec fn is_readable(
    tx: JsonView,
    params: Lockdrop,
    script: Seq<u8>,
    sender: JsonView,
) -> bool {
    &&& confirmations(tx) is Some
    &&& locks_as_expected(tx, params, script, sender) ==> output_value(tx) is Some
}

/// Whether a transaction is the lock that a claim tells of.
pub open spec fn is_locked(
    tx: JsonView,
    params: Lockdrop,
    script: Seq<u8>,
    sender: JsonView,
    contract: Seq<char>,
) -> bool {
    &&& locks_as_expected(tx, params, script, sender)
    &&& match params {
        Lockdrop::Bitcoin { value, .. } => output_value(tx) == Some(value),
        Lockdrop::Ethereum { value, .. } => output_value(tx) == Some(value) && goes_to(
            tx,
            contract,
        ),
    }
}

/// Check locking parameters of given claim, where the transaction can be read; nothing is said
/// where it cannot.
pub fn checked_lock(
    config: &Config,
    params: &Lockdrop,
    tx: &Json,
    expected: &ExpectedLock,
) -> (approve: Option<bool>)
    ensures
        approve == (if is_readable(tx@, *params, expected.script@, expected.sender@) {
            Some(
                is_locked(
                    tx@,
                    *params,
                    expected.script@,
                    expected.sender@,
                    config.ethereum_contract_address@,
                ),
            )
        } else {
            None::<bool>
        }),
{
    let output = item(member(Some(tx), "outputs"), 0);
    let deep = match as_u64(member(Some(tx), "configurations")) {
        Some(confirmations) => confirmations > 10,
        None => {
            return None;
        },
    };
    let script = hex_encode(expected.script.as_slice());
    match params {
        Lockdrop::Bitcoin { value, .. } => {
            if !(deep && is_text(member(output, "script"), script.as_str())) {
                return Some(false);
            }
            match as_u64(member(output, "value")) {
                Some(locked) => Some(locked == *value),
                None => None,
            }
        },
        Lockdrop::Ethereum { value, .. } => {
            let from = member(item(member(Some(tx), "inputs"), 0), "addresses");
            let sent = match from {
                Some(addresses) => same_json(addresses, &expected.sender),
                None => same_json(&Json::Null, &expected.sender),
            };
            if !(deep && sent && is_text(member(output, "script"), script.as_str())) {
                return Some(false);
            }
            match as_u64(member(output, "value")) {
                Some(locked) => Some(
                    locked == *value && is_text(
                        item(member(output, "addresses"), 0),
                        config.ethereum_contract_address.as_str(),
                    ),
                ),
                None => None,
            }
        },
    }
}

/// Check locking parameters of given claim.
pub fn check_lock(
    config: &Config,
    params: &Lockdrop,
    tx: &Json,
    expected: &ExpectedLock,
) -> (approve: bool)
    requires
        is_readable(tx@, *params, expected.script@, expected.sender@),
    ensures
        approve == is_locked(
            tx@,
            *params,
            expected.script@,
            expected.sender@,
            config.ethereum_contract_address@,
        ),
{
    match checked_lock(config, params, tx, expected) {
        Some(approve) => approve,
        None => false,
    }
}

/// A transaction with ten confirmations or fewer is no lock.
pub proof fn law_shallow_transactions_are_no_locks(
    tx: JsonView,
    params: Lockdrop,
    script: Seq<u8>,
    sender: JsonView,
    contract: Seq<char>,
)
    requires
        confirmations(tx) matches Some(n) && n <= 10,
    ensures
        is_readable(tx, params, script, sender),
        !is_locked(tx, params, script, sender, contract),
{
}

/// A transaction locks one value only: it approves no claim of another value.
pub proof fn law_lock_has_one_value(
    tx: JsonView,
    a: Lockdrop,
    b: Lockdrop,
    script: Seq<u8>,
    sender: JsonView,
    contract: Seq<char>,
)
    requires
        is_locked(tx, a, script, sender, contract),
        is_locked(tx, b, script, sender, contract),
    ensures
        locked_value(a) == locked_value(b),
{
}

/// The value that a claim says is locked.
pub open spec fn locked_value(params: Lockdrop) -> u64 {
    match params {
        Lockdrop::Bitcoin { value, .. } => value,
        Lockdrop::Ethereum { value, .. } => value,
    }
}

/// Different bytes are written differently in hexadecimal, so that a script is compared by its
/// bytes.
pub proof fn law_hex_is_injective(a: Seq<u8>, b: Seq<u8>)
    requires
        hex_text(a) == hex_text(b),
    ensures
        a == b,
{
    assert(hex_text(a).len() == 2 * a.len());
    assert(hex_text(b).len() == 2 * b.len());
    assert forall|i: int| 0 <= i < a.len() implies a[i] == b[i] by {
        let (x, y) = (hex_text(a), hex_text(b));
        assert(x[2 * i] == hex_digit(a[i] as nat / 16));
        assert(y[2 * i] == hex_digit(b[i] as nat / 16));
        assert(x[2 * i + 1] == hex_digit(a[i] as nat % 16));
        assert(y[2 * i + 1] == hex_digit(b[i] as nat % 16));
        assert(a[i] as nat / 16 < 16 && b[i] as nat / 16 < 16);
        lemma_hex_digit_injective(a[i] as nat / 16, b[i] as nat / 16);
        lemma_hex_digit_injective(a[i] as nat % 16, b[i] as nat % 16);
    }
    assert(a =~= b);
}

proof fn lemma_hex_digit_injective(m: nat, n: nat)
    requires
        m < 16,
        n < 16,
        hex_digit(m) == hex_digit(n),
    ensures
        m == n,
{
}

/// A Bitcoin transaction is a lock exactly when it has more than ten confirmations, and its first
/// output has the script and the value; it can be read exactly when its confirmations can, and its
/// value where the rest is as expected.
pub proof fn law_exactly_expected_bitcoin_transactions_are_locks(
    tx: JsonView,
    public: [u8; 33],
    value: u64,
    duration: u64,
    transaction_hash: [u8; 32],
    script: Seq<u8>,
    sender: JsonView,
    contract: Seq<char>,
)
    ensures
        ({
            let params = Lockdrop::Bitcoin { public, value, duration, transaction_hash };
            let output = tx.member("outputs"@).item(0);
            let depth = tx.member("configurations"@).as_u64();
            let deep = depth matches Some(n) && n > 10;
            let as_expected = output.member("script"@) == JsonView::Text(hex_text(script));
            let locked = output.member("value"@).as_u64();
            &&& is_locked(tx, params, script, sender, contract) <==> deep && as_expected && locked
                == Some(value)
            &&& is_readable(tx, params, script, sender) <==> depth is Some && (deep && as_expected
                ==> locked is Some)
        }),
{
}

/// An Ethereum transaction is a lock exactly when it has more than ten confirmations, its first
/// input comes from the sender, and its first output has the script and the value and goes to the
/// contract; it can be read exactly when its confirmations can, and its value where the sender and
/// the script are as expected.
pub proof fn law_exactly_expected_ethereum_transactions_are_locks(
    tx: JsonView,
    public: [u8; 33],
    value: u64,
    duration: u64,
    transaction_hash: [u8; 32],
    script: Seq<u8>,
    sender: JsonView,
    contract: Seq<char>,
)
    ensures
        ({
            let params = Lockdrop::Ethereum { public, value, duration, transaction_hash };
            let output = tx.member("outputs"@).item(0);
            let depth = tx.member("configurations"@).as_u64();
            let deep = depth matches Some(n) && n > 10;
            let as_expected = tx.member("inputs"@).item(0).member("addresses"@) == sender
                && output.member("script"@) == JsonView::Text(hex_text(script));
            let locked = output.member("value"@).as_u64();
            &&& is_locked(tx, params, script, sender, contract) <==> deep && as_expected && locked
                == Some(value) && output.member("addresses"@).item(0) == JsonView::Text(contract)
            &&& is_readable(tx, params, script, sender) <==> depth is Some && (deep && as_expected
                ==> locked is Some)
        }),
{
}

/// A lock stays one: the same transaction with more confirmations is a lock too.
pub proof fn law_deeper_transactions_stay_locks(
    tx: JsonView,
    deeper: JsonView,
    n: u64,
    more: u64,
    params: Lockdrop,
    script: Seq<u8>,
    sender: JsonView,
    contract: Seq<char>,
)
    requires
        is_locked(tx, params, script, sender, contract),
        tx.member("configurations"@).as_u64() == Some(n),
        deeper.member("configurations"@).as_u64() == Some(more),
        n <= more,
        deeper.member("inputs"@) == tx.member("inputs"@),
        deeper.member("outputs"@) == tx.member("outputs"@),
    ensures
        is_locked(deeper, params, script, sender, contract),
        is_readable(deeper, params, script, sender),
{
}

/// Hexadecimal digits can be read back: two of them, the higher first, make a byte.
pub proof fn law_hex_is_read_back(data: Seq<u8>, i: int)
    requires
        0 <= i < data.len(),
    ensures
        hex_text(data).len() == 2 * data.len(),
        ({
            let (high, low) = (hex_text(data)[2 * i] as int, hex_text(data)[2 * i + 1] as int);
            let value = |c: int|
                if c <= 57 {
                    c - 48
                } else {
                    c - 87
                };
            &&& 48 <= high <= 57 || 97 <= high <= 102
            &&& 48 <= low <= 57 || 97 <= low <= 102
            &&& data[i] == 16 * value(high) + value(low)
        }),
{
    let b = data[i] as nat;
    assert(hex_text(data)[2 * i] == hex_digit(b / 16));
    assert(hex_text(data)[2 * i + 1] == hex_digit(b % 16));
    assert(b / 16 < 16 && b % 16 < 16 && b == 16 * (b / 16) + b % 16);
}

/// A transaction is fetched from the service of its chain: the service's address, a slash, and the
/// hash of the transaction in hexadecimal.
pub proof fn law_transactions_are_fetched_by_hash(
    config: Config,
    public: [u8; 33],
    value: u64,
    duration: u64,
    transaction_hash: [u8; 32],
)
    ensures
        ({
            let api = config.bitcoin_api_uri@;
            let uri = lock_uri_of(
                config,
                Lockdrop::Bitcoin { public, value, duration, transaction_hash },
            );
            &&& uri.take(api.len() as int) == api
            &&& uri[api.len() as int] == '/'
            &&& uri.skip(api.len() as int + 1) == hex_text(transaction_hash@)
        }),
        ({
            let api = config.ethereum_api_uri@;
            let uri = lock_uri_of(
                config,
                Lockdrop::Ethereum { public, value, duration, transaction_hash },
            );
            &&& uri.take(api.len() as int) == api
            &&& uri[api.len() as int] == '/'
            &&& uri.skip(api.len() as int + 1) == hex_text(transaction_hash@)
        }),
{
    reveal_strlit("/");
    let hash = hex_text(transaction_hash@);
    let (btc, eth) = (config.bitcoin_api_uri@, config.ethereum_api_uri@);
    assert((btc + "/"@ + hash).take(btc.len() as int) =~= btc);
    assert((btc + "/"@ + hash).skip(btc.len() as int + 1) =~= hash);
    assert((eth + "/"@ + hash).take(eth.len() as int) =~= eth);
    assert((eth + "/"@ + hash).skip(eth.len() as int + 1) =~= hash);
}

} // verus!
