//! The offchain worker of an authority: it reports dollar rates and votes on the claims of a block.
//!
//! The worker decides; fetching, signing and sending are done outside. Each step takes what came
//! of the last action and says what to do next.

use vstd::prelude::*;
use vstd::string::StringExecFns;
use crate::config::Config;
use crate::crypto::accepts;
use crate::json::{fetch_json, fetched, JsonView, Response, ResponseView};
use crate::lock::{checked_lock, is_locked, is_readable, lock_uri, lock_uri_of, ExpectedLock};
use crate::module::Module;
use crate::scale::{encode_rate, encode_vote, rate_bytes, vote_bytes};
use crate::state::{rate_is_signed, rate_refusal, vote_is_signed, vote_refusal, State};
use crate::text::{debug_text, debug_text_of, in_quotes, is_plain, joined};
use crate::ticker::{rate_in, ticker_rate, ParseIntError};
use crate::types::{AuthorityId, AuthorityIndex, AuthoritySignature, Call, ClaimId, ClaimVote};
use crate::types::{Dollars, Lockdrop, TickerRate};

verus! {

/// What an authority tells the chain.
#[derive(Clone, Copy, Debug, PartialEq, Eq)]
pub enum Message {
    Rate(TickerRate<Dollars>),
    Vote(ClaimVote),
}

/// A message, and the local key to sign it with.
#[derive(Clone, Copy, Debug, PartialEq, Eq)]
pub struct Ballot {
    pub key: AuthorityId,
    pub message: Message,
}

/// The bytes of a message that are signed.
pub open spec fn message_bytes(message: Message) -> Seq<u8> {
    match message {
        Message::Rate(rate) => rate_bytes(rate),
        Message::Vote(vote) => vote_bytes(vote),
    }
}

/// The call that brings a signed message to the chain.
pub open spec fn call_of(message: Message, signature: AuthoritySignature) -> Call {
    match message {
        Message::Rate(rate) => Call::SetDollarRate(rate, signature),
        Message::Vote(vote) => Call::Vote(vote, signature),
    }
}

/// Why the worker gives up.
#[derive(Clone, Debug, PartialEq, Eq)]
pub enum WorkerError {
    /// BTC ticker fetch error.
    BtcFetch(String),
    /// BTC ticker JSON parsing error.
    BtcParse(ParseIntError),
    /// ETH ticker fetch error.
    EthFetch(String),
    /// ETH ticker JSON parsing error.
    EthParse(ParseIntError),
    /// A locking transaction cannot be fetched.
    LockFetch(String),
    /// A locking transaction lacks a number that has to be read.
    UnreadableTransaction,
    /// A local key does not sign.
    Signing,
}

/// What a [`WorkerError`] says.
pub enum WorkerErrorView {
    BtcFetch(Seq<char>),
    BtcParse(ParseIntError),
    EthFetch(Seq<char>),
    EthParse(ParseIntError),
    LockFetch(Seq<char>),
    UnreadableTransaction,
    Signing,
}

impl View for WorkerError {
    type V = WorkerErrorView;

    open spec fn view(&self) -> WorkerErrorView {
        match *self {
            WorkerError::BtcFetch(error) => WorkerErrorView::BtcFetch(error@),
            WorkerError::BtcParse(error) => WorkerErrorView::BtcParse(error),
            WorkerError::EthFetch(error) => WorkerErrorView::EthFetch(error@),
            WorkerError::EthParse(error) => WorkerErrorView::EthParse(error),
            WorkerError::LockFetch(error) => WorkerErrorView::LockFetch(error@),
            WorkerError::UnreadableTransaction => WorkerErrorView::UnreadableTransaction,
            WorkerError::Signing => WorkerErrorView::Signing,
        }
    }
}

impl WorkerErrorView {
    /// The text of the error. Of a ticker, the fetch error is quoted; of a locking transaction, it
    /// is the whole text.
    pub open spec fn text(self) -> Seq<char> {
        match self {
            WorkerErrorView::BtcFetch(error) => "BTC ticker fetch error: "@ + debug_text_of(error),
            WorkerErrorView::BtcParse(error) => "BTC ticker JSON parsing error: "@ + error.text(),
            WorkerErrorView::EthFetch(error) => "ETH ticker fetch error: "@ + debug_text_of(error),
            WorkerErrorView::EthParse(error) => "ETH ticker JSON parsing error: "@ + error.text(),
            WorkerErrorView::LockFetch(error) => error,
            WorkerErrorView::UnreadableTransaction => "unreadable transaction"@,
            WorkerErrorView::Signing => "signing error"@,
        }
    }
}

impl WorkerError {
    /// Tells the error in words. The quoted form of a plain fetch error is that error between
    /// double quotes.
    pub fn message(&self) -> (message: String)
        ensures
            message@ == self@.text(),
            match self@ {
                WorkerErrorView::BtcFetch(error) => is_plain(error) ==> message@
                    == "BTC ticker fetch error: "@ + in_quotes(error),
                WorkerErrorView::EthFetch(error) => is_plain(error) ==> message@
                    == "ETH ticker fetch error: "@ + in_quotes(error),
                _ => true,
            },
    {
        match self {
            WorkerError::BtcFetch(error) => joined(
                "BTC ticker fetch error: ",
                debug_text(error.as_str()).as_str(),
            ),
            WorkerError::BtcParse(error) => joined(
                "BTC ticker JSON parsing error: ",
                error.message(),
            ),
            WorkerError::EthFetch(error) => joined(
                "ETH ticker fetch error: ",
                debug_text(error.as_str()).as_str(),
            ),
            WorkerError::EthParse(error) => joined(
                "ETH ticker JSON parsing error: ",
                error.message(),
            ),
            WorkerError::LockFetch(error) => String::from_str(error.as_str()),
            WorkerError::UnreadableTransaction => String::from_str("unreadable transaction"),
            WorkerError::Signing => String::from_str("signing error"),
        }
    }
}

/// How a run ends: well, or with an error.
pub open spec fn ending(result: Result<(), WorkerError>) -> Result<(), WorkerErrorView> {
    match result {
        Ok(()) => Ok(()),
        Err(error) => Err(error@),
    }
}

/// What the worker waits for.
#[derive(Clone, Copy, Debug, PartialEq, Eq)]
pub enum Phase {
    /// The BTC price document.
    BtcTicker,
    /// The ETH price document.
    EthTicker { btc: u64 },
    /// The local keys, to report the rates.
    RateKeys { btc: u64, eth: u64 },
    /// The locking transaction of a claim.
    Lock { id: ClaimId },
    /// The local keys, to vote on a claim.
    VoteKeys { id: ClaimId, approve: bool },
    /// The signature of the first ballot in the outbox.
    Signing,
    /// That a call is handed to the transaction pool.
    Submitting,
    /// Nothing more.
    Finished,
}

/// What came of an action.
#[derive(Debug, PartialEq, Eq)]
pub enum Input {
    /// What came of a request to a price service.
    Fetched(Response),
    /// What came of a request to a blockchain service, and what the transaction has to show.
    LockFetched(Response, ExpectedLock),
    /// The local authority keys.
    Keys(Vec<AuthorityId>),
    /// A signature, if the key could sign.
    Signed(Option<AuthoritySignature>),
    /// The transaction pool has taken or refused a call.
    Submitted,
}

/// What to do next.
#[derive(Debug, PartialEq, Eq)]
pub enum Action {
    /// Fetch a price document.
    Fetch(String),
    /// Fetch the locking transaction of a claim with these parameters.
    FetchLock(String, Lockdrop),
    /// List the local authority keys.
    ListKeys,
    /// Sign some bytes with a local key.
    Sign(AuthorityId, Vec<u8>),
    /// Submit an unsigned transaction.
    Submit(Call),
    /// Stop.
    Done(Result<(), WorkerError>),
}

/// What an [`Input`] says.
pub enum InputView {
    Fetched(ResponseView),
    LockFetched(ResponseView, Seq<u8>, JsonView),
    Keys(Seq<AuthorityId>),
    Signed(Option<AuthoritySignature>),
    Submitted,
}

impl View for Input {
    type V = InputView;

    open spec fn view(&self) -> InputView {
        match *self {
            Input::Fetched(response) => InputView::Fetched(response@),
            Input::LockFetched(response, expected) => InputView::LockFetched(
                response@,
                expected.script@,
                expected.sender@,
            ),
            Input::Keys(keys) => InputView::Keys(keys@),
            Input::Signed(signature) => InputView::Signed(signature),
            Input::Submitted => InputView::Submitted,
        }
    }
}

/// What an [`Action`] says.
pub enum ActionView {
    Fetch(Seq<char>),
    FetchLock(Seq<char>, Lockdrop),
    ListKeys,
    Sign(AuthorityId, Seq<u8>),
    Submit(Call),
    Done(Result<(), WorkerErrorView>),
}

impl View for Action {
    type V = ActionView;

    open spec fn view(&self) -> ActionView {
        match *self {
            Action::Fetch(uri) => ActionView::Fetch(uri@),
            Action::FetchLock(uri, params) => ActionView::FetchLock(uri@, params),
            Action::ListKeys => ActionView::ListKeys,
            Action::Sign(key, bytes) => ActionView::Sign(key, bytes@),
            Action::Submit(call) => ActionView::Submit(call),
            Action::Done(result) => ActionView::Done(ending(result)),
        }
    }
}

/// What a [`Worker`] stands for.
#[verifier::ext_equal]
pub struct WorkerView {
    /// What it waits for.
    pub phase: Phase,
    /// The claims that it has still to check.
    pub requests: Seq<ClaimId>,
    /// The ballots that it has still to sign.
    pub outbox: Seq<Ballot>,
}

/// The index under which an authority is found in the list.
pub open spec fn index_of(keys: Seq<AuthorityId>, key: AuthorityId) -> AuthorityIndex {
    (keys.index_of_first(key)->0 % 0x1_0000) as AuthorityIndex
}

/// A report of the rates by an authority.
pub open spec fn rate_ballot(
    keys: Seq<AuthorityId>,
    key: AuthorityId,
    btc: u64,
    eth: u64,
) -> Ballot {
    Ballot {
        key,
        message: Message::Rate(
            TickerRate { authority: index_of(keys, key), btc: btc as u128, eth: eth as u128 },
        ),
    }
}

/// A vote on a claim by an authority.
pub open spec fn vote_ballot(
    keys: Seq<AuthorityId>,
    key: AuthorityId,
    id: ClaimId,
    approve: bool,
) -> Ballot {
    Ballot {
        key,
        message: Message::Vote(ClaimVote { claim_id: id, approve, authority: index_of(keys, key) }),
    }
}

/// The local keys that are keys of authorities.
pub open spec fn authorities_among(
    keys: Seq<AuthorityId>,
    local: Seq<AuthorityId>,
) -> Seq<AuthorityId> {
    local.filter(|key: AuthorityId| keys.contains(key))
}

/// The reports of the rates by every local authority.
pub open spec fn rate_ballots_of(
    keys: Seq<AuthorityId>,
    local: Seq<AuthorityId>,
    btc: u64,
    eth: u64,
) -> Seq<Ballot> {
    authorities_among(keys, local).map_values(
        |key: AuthorityId| rate_ballot(keys, key, btc, eth),
    )
}

/// The votes on a claim by every local authority.
pub open spec fn vote_ballots_of(
    keys: Seq<AuthorityId>,
    local: Seq<AuthorityId>,
    id: ClaimId,
    approve: bool,
) -> Seq<Ballot> {
    authorities_among(keys, local).map_values(
        |key: AuthorityId| vote_ballot(keys, key, id, approve),
    )
}

/// The dollar rate in the response of the BTC price service.
pub open spec fn btc_ticker_of(response: ResponseView) -> Result<nat, WorkerErrorView> {
    match fetched(response) {
        Err(error) => Err(WorkerErrorView::BtcFetch(error)),
        Ok(document) => match rate_in(document) {
            Err(error) => Err(WorkerErrorView::BtcParse(error)),
            Ok(rate) => Ok(rate),
        },
    }
}

/// The dollar rate in the response of the ETH price service.
pub open spec fn eth_ticker_of(response: ResponseView) -> Result<nat, WorkerErrorView> {
    match fetched(response) {
        Err(error) => Err(WorkerErrorView::EthFetch(error)),
        Ok(document) => match rate_in(document) {
            Err(error) => Err(WorkerErrorView::EthParse(error)),
            Ok(rate) => Ok(rate),
        },
    }
}

/// Reads the response of the BTC price service, and returns the dollar rate.
pub fn btc_ticker(response: &Response) -> (rate: Result<u64, WorkerError>)
    ensures
        match rate {
            Ok(rate) => btc_ticker_of(response@) == Ok::<nat, WorkerErrorView>(rate as nat),
            Err(error) => btc_ticker_of(response@) == Err::<nat, WorkerErrorView>(error@),
        },
{
    match fetch_json(response) {
        Err(error) => Err(WorkerError::BtcFetch(error)),
        Ok(document) => match ticker_rate(&document) {
            Err(error) => Err(WorkerError::BtcParse(error)),
            Ok(rate) => Ok(rate),
        },
    }
}

/// Reads the response of the ETH price service, and returns the dollar rate.
pub fn eth_ticker(response: &Response) -> (rate: Result<u64, WorkerError>)
    ensures
        match rate {
            Ok(rate) => eth_ticker_of(response@) == Ok::<nat, WorkerErrorView>(rate as nat),
            Err(error) => eth_ticker_of(response@) == Err::<nat, WorkerErrorView>(error@),
        },
{
    match fetch_json(response) {
        Err(error) => Err(WorkerError::EthFetch(error)),
        Ok(document) => match ticker_rate(&document) {
            Err(error) => Err(WorkerError::EthParse(error)),
            Ok(rate) => Ok(rate),
        },
    }
}

/// What the response of a blockchain service says of a claim: whether its transaction is the lock
/// that the claim tells of.
pub open spec fn lock_verdict(
    s: State,
    config: Config,
    id: ClaimId,
    response: ResponseView,
    script: Seq<u8>,
    sender: JsonView,
) -> Result<bool, WorkerErrorView> {
    let params = s.claim(id).params;
    match fetched(response) {
        Err(error) => Err(WorkerErrorView::LockFetch(error)),
        Ok(tx) => if is_readable(tx, params, script, sender) {
            Ok(is_locked(tx, params, script, sender, config.ethereum_contract_address@))
        } else {
            Err(WorkerErrorView::UnreadableTransaction)
        },
    }
}

/// A worker that is done.
pub open spec fn stopped(result: Result<(), WorkerErrorView>) -> (WorkerView, ActionView) {
    (
        WorkerView { phase: Phase::Finished, requests: Seq::empty(), outbox: Seq::empty() },
        ActionView::Done(result),
    )
}

/// What follows where ballots may be left to sign, and claims to check: the ballots go first.
pub open spec fn going_on(
    s: State,
    config: Config,
    requests: Seq<ClaimId>,
    outbox: Seq<Ballot>,
) -> (WorkerView, ActionView) {
    if outbox.len() > 0 {
        (
            WorkerView { phase: Phase::Signing, requests, outbox },
            ActionView::Sign(outbox[0].key, message_bytes(outbox[0].message)),
        )
    } else if requests.len() > 0 {
        (
            WorkerView {
                phase: Phase::Lock { id: requests[0] },
                requests: requests.drop_first(),
                outbox,
            },
            ActionView::FetchLock(
                lock_uri_of(config, s.claim(requests[0]).params),
                s.claim(requests[0]).params,
            ),
        )
    } else {
        stopped(Ok(()))
    }
}

/// Whether an input is of the kind that the worker waits for.
pub open spec fn awaits(phase: Phase, input: InputView) -> bool {
    match phase {
        Phase::BtcTicker => input is Fetched,
        Phase::EthTicker { .. } => input is Fetched,
        Phase::RateKeys { .. } => input is Keys,
        Phase::Lock { .. } => input is LockFetched,
        Phase::VoteKeys { .. } => input is Keys,
        Phase::Signing => input is Signed,
        Phase::Submitting => input is Submitted,
        Phase::Finished => false,
    }
}

/// How the worker starts: with the BTC price.
pub open spec fn started(config: Config) -> (WorkerView, ActionView) {
    (
        WorkerView { phase: Phase::BtcTicker, requests: Seq::empty(), outbox: Seq::empty() },
        ActionView::Fetch(config.bitcoin_ticker_uri@),
    )
}

/// What a worker makes of an input that it waits for.
pub open spec fn next(w: WorkerView, s: State, config: Config, input: InputView) -> (
    WorkerView,
    ActionView,
) {
    match (w.phase, input) {
        (Phase::BtcTicker, InputView::Fetched(response)) => match btc_ticker_of(response) {
            Err(error) => stopped(Err(error)),
            Ok(btc) => (
                WorkerView { phase: Phase::EthTicker { btc: btc as u64 }, ..w },
                ActionView::Fetch(config.ethereum_ticker_uri@),
            ),
        },
        (Phase::EthTicker { btc }, InputView::Fetched(response)) => match eth_ticker_of(response) {
            Err(error) => stopped(Err(error)),
            Ok(eth) => (
                WorkerView { phase: Phase::RateKeys { btc, eth: eth as u64 }, ..w },
                ActionView::ListKeys,
            ),
        },
        (Phase::RateKeys { btc, eth }, InputView::Keys(local)) => going_on(
            s,
            config,
            s.requests,
            rate_ballots_of(s.keys, local, btc, eth),
        ),
        (Phase::Lock { id }, InputView::LockFetched(response, script, sender)) => {
            match lock_verdict(s, config, id, response, script, sender) {
                Err(error) => stopped(Err(error)),
                Ok(approve) => (
                    WorkerView { phase: Phase::VoteKeys { id, approve }, ..w },
                    ActionView::ListKeys,
                ),
            }
        },
        (Phase::VoteKeys { id, approve }, InputView::Keys(local)) => going_on(
            s,
            config,
            w.requests,
            vote_ballots_of(s.keys, local, id, approve),
        ),
        (Phase::Signing, InputView::Signed(signature)) => match signature {
            None => stopped(Err(WorkerErrorView::Signing)),
            Some(signature) => (
                WorkerView { phase: Phase::Submitting, outbox: w.outbox.drop_first(), ..w },
                ActionView::Submit(call_of(w.outbox[0].message, signature)),
            ),
        },
        (Phase::Submitting, InputView::Submitted) => going_on(s, config, w.requests, w.outbox),
        _ => (w, ActionView::Done(Ok(()))),
    }
}

/// Writes a report of the rates for each local authority.
pub fn rate_ballots(module: &Module, local: &Vec<AuthorityId>, btc: u64, eth: u64) -> (ballots: Vec<
    Ballot,
>)
    ensures
        ballots@ == rate_ballots_of(module@.keys, local@, btc, eth),
{
    let ghost keys = module@.keys;
    let ghost test = |key: AuthorityId| keys.contains(key);
    let ghost write = |key: AuthorityId| rate_ballot(keys, key, btc, eth);
    let mut ballots: Vec<Ballot> = Vec::new();
    let mut i: usize = 0;
    proof {
        reveal(Seq::filter);
        assert(local@.take(0).filter(test).map_values(write) =~= Seq::empty());
    }
    while i < local.len()
        invariant
            i <= local@.len(),
            keys == module@.keys,
            test == |key: AuthorityId| keys.contains(key),
            write == |key: AuthorityId| rate_ballot(keys, key, btc, eth),
            ballots@ == local@.take(i as int).filter(test).map_values(write),
        decreases local@.len() - i,
    {
        let key = local[i];
        let ghost before = local@.take(i as int).filter(test);
        proof {
            assert(local@.take(i + 1) =~= local@.take(i as int).push(key));
            local@.take(i as int).lemma_filter_push(key, test);
            keys.index_of_first_ensures(key);
        }
        match module.authority_index_of(&key) {
            Some(authority) => {
                let message = Message::Rate(
                    TickerRate { authority, btc: btc as u128, eth: eth as u128 },
                );
                ballots.push(Ballot { key, message });
                assert(before.push(key).map_values(write) =~= before.map_values(write).push(
                    write(key),
                ));
            },
            None => {},
        }
        i += 1;
    }
    assert(local@.take(i as int) =~= local@);
    ballots
}

/// Writes a vote on a claim for each local authority.
pub fn vote_ballots(
    module: &Module,
    local: &Vec<AuthorityId>,
    id: ClaimId,
    approve: bool,
) -> (ballots: Vec<Ballot>)
    ensures
        ballots@ == vote_ballots_of(module@.keys, local@, id, approve),
{
    let ghost keys = module@.keys;
    let ghost test = |key: AuthorityId| keys.contains(key);
    let ghost write = |key: AuthorityId| vote_ballot(keys, key, id, approve);
    let mut ballots: Vec<Ballot> = Vec::new();
    let mut i: usize = 0;
    proof {
        reveal(Seq::filter);
        assert(local@.take(0).filter(test).map_values(write) =~= Seq::empty());
    }
    while i < local.len()
        invariant
            i <= local@.len(),
            keys == module@.keys,
            test == |key: AuthorityId| keys.contains(key),
            write == |key: AuthorityId| vote_ballot(keys, key, id, approve),
            ballots@ == local@.take(i as int).filter(test).map_values(write),
        decreases local@.len() - i,
    {
        let key = local[i];
        let ghost before = local@.take(i as int).filter(test);
        proof {
            assert(local@.take(i + 1) =~= local@.take(i as int).push(key));
            local@.take(i as int).lemma_filter_push(key, test);
            keys.index_of_first_ensures(key);
        }
        match module.authority_index_of(&key) {
            Some(authority) => {
                let message = Message::Vote(ClaimVote { claim_id: id, approve, authority });
                ballots.push(Ballot { key, message });
                assert(before.push(key).map_values(write) =~= before.map_values(write).push(
                    write(key),
                ));
            },
            None => {},
        }
        i += 1;
    }
    assert(local@.take(i as int) =~= local@);
    ballots
}

/// The bytes of a message that are signed.
fn encode_message(message: &Message) -> (bytes: Vec<u8>)
    ensures
        bytes@ == message_bytes(*message),
{
    match message {
        Message::Rate(rate) => encode_rate(rate),
        Message::Vote(vote) => encode_vote(vote),
    }
}

/// The offchain worker.
pub struct Worker {
    phase: Phase,
    requests: Vec<ClaimId>,
    outbox: Vec<Ballot>,
}

impl View for Worker {
    type V = WorkerView;

    closed spec fn view(&self) -> WorkerView {
        WorkerView { phase: self.phase, requests: self.requests@, outbox: self.outbox@ }
    }
}

impl Worker {
    /// While a signature is awaited, there is a ballot that it is for.
    #[verifier::type_invariant]
    spec fn well_formed(self) -> bool {
        self.phase is Signing ==> self.outbox@.len() > 0
    }

    /// Starts the worker.
    pub fn start(config: &Config) -> (started_with: (Worker, Action))
        ensures
            (started_with.0@, started_with.1@) == started(*config),
    {
        let worker = Worker {
            phase: Phase::BtcTicker,
            requests: Vec::new(),
            outbox: Vec::new(),
        };
        (worker, Action::Fetch(String::from_str(config.bitcoin_ticker_uri.as_str())))
    }

    /// What the worker waits for.
    pub fn phase(&self) -> (phase: Phase)
        ensures
            phase == self@.phase,
    {
        self.phase
    }

    /// A worker that is done.
    fn stop(result: Result<(), WorkerError>) -> (stop: (Worker, Action))
        ensures
            (stop.0@, stop.1@) == stopped(ending(result)),
    {
        let worker = Worker { phase: Phase::Finished, requests: Vec::new(), outbox: Vec::new() };
        (worker, Action::Done(result))
    }

    /// What follows where ballots may be left to sign, and claims to check.
    fn go_on(
        module: &Module,
        config: &Config,
        requests: Vec<ClaimId>,
        outbox: Vec<Ballot>,
    ) -> (after: (Worker, Action))
        ensures
            (after.0@, after.1@) == going_on(module@, *config, requests@, outbox@),
    {
        if outbox.len() > 0 {
            let ballot = outbox[0];
            let bytes = encode_message(&ballot.message);
            (Worker { phase: Phase::Signing, requests, outbox }, Action::Sign(ballot.key, bytes))
        } else if requests.len() > 0 {
            let mut rest = requests;
            let id = rest.remove(0);
            assert(rest@ =~= requests@.drop_first());
            let params = module.claims(&id).params;
            let uri = lock_uri(config, &params);
            (
                Worker { phase: Phase::Lock { id }, requests: rest, outbox },
                Action::FetchLock(uri, params),
            )
        } else {
            Self::stop(Ok(()))
        }
    }

    /// Takes what came of the last action, and says what to do next.
    pub fn step(self, module: &Module, config: &Config, input: Input) -> (after: (Worker, Action))
        requires
            awaits(self@.phase, input@),
        ensures
            (after.0@, after.1@) == next(self@, module@, *config, input@),
    {
        proof {
            use_type_invariant(&self);
        }
        let Worker { phase, requests, outbox } = self;
        match (phase, input) {
            (Phase::BtcTicker, Input::Fetched(response)) => match btc_ticker(&response) {
                Err(error) => Self::stop(Err(error)),
                Ok(btc) => (
                    Worker { phase: Phase::EthTicker { btc }, requests, outbox },
                    Action::Fetch(String::from_str(config.ethereum_ticker_uri.as_str())),
                ),
            },
            (Phase::EthTicker { btc }, Input::Fetched(response)) => match eth_ticker(&response) {
                Err(error) => Self::stop(Err(error)),
                Ok(eth) => (
                    Worker { phase: Phase::RateKeys { btc, eth }, requests, outbox },
                    Action::ListKeys,
                ),
            },
            (Phase::RateKeys { btc, eth }, Input::Keys(local)) => {
                let ballots = rate_ballots(module, &local, btc, eth);
                Self::go_on(module, config, copy_of(module.requests()), ballots)
            },
            (Phase::Lock { id }, Input::LockFetched(response, expected)) => match fetch_json(
                &response,
            ) {
                Err(error) => Self::stop(Err(WorkerError::LockFetch(error))),
                Ok(tx) => {
                    let params = module.claims(&id).params;
                    match checked_lock(config, &params, &tx, &expected) {
                        Some(approve) => (
                            Worker { phase: Phase::VoteKeys { id, approve }, requests, outbox },
                            Action::ListKeys,
                        ),
                        None => Self::stop(Err(WorkerError::UnreadableTransaction)),
                    }
                },
            },
            (Phase::VoteKeys { id, approve }, Input::Keys(local)) => {
                let ballots = vote_ballots(module, &local, id, approve);
                Self::go_on(module, config, requests, ballots)
            },
            (Phase::Signing, Input::Signed(signature)) => match signature {
                None => Self::stop(Err(WorkerError::Signing)),
                Some(signature) => {
                    let mut rest = outbox;
                    let ballot = rest.remove(0);
                    assert(rest@ =~= outbox@.drop_first());
                    let call = match ballot.message {
                        Message::Rate(rate) => Call::SetDollarRate(rate, signature),
                        Message::Vote(vote) => Call::Vote(vote, signature),
                    };
                    (
                        Worker { phase: Phase::Submitting, requests, outbox: rest },
                        Action::Submit(call),
                    )
                },
            },
            (Phase::Submitting, Input::Submitted) => Self::go_on(
                module,
                config,
                requests,
                outbox,
            ),
            _ => (Worker { phase, requests, outbox }, Action::Done(Ok(()))),
        }
    }
}

/// A copy of a list of claims.
fn copy_of(ids: &Vec<ClaimId>) -> (copy: Vec<ClaimId>)
    ensures
        copy@ == ids@,
{
    let mut copy: Vec<ClaimId> = Vec::new();
    let mut i: usize = 0;
    while i < ids.len()
        invariant
            i <= ids@.len(),
            copy@ == ids@.take(i as int),
        decreases ids@.len() - i,
    {
        copy.push(ids[i]);
        i += 1;
        assert(copy@ =~= ids@.take(i as int));
    }
    assert(ids@.take(i as int) =~= ids@);
    copy
}

/// An authority is found under its index, where the list is no longer than indices reach.
pub proof fn law_index_leads_to_the_key(s: State, key: AuthorityId)
    requires
        s.keys.contains(key),
        s.keys.len() <= 0x1_0000,
    ensures
        s.authority(index_of(s.keys, key)) == Some(key),
{
    s.keys.index_of_first_ensures(key);
}

/// Ballots are written for the local keys of authorities, for each of them, and for nobody else.
pub proof fn law_every_local_authority_has_a_say(
    keys: Seq<AuthorityId>,
    local: Seq<AuthorityId>,
    key: AuthorityId,
    btc: u64,
    eth: u64,
    id: ClaimId,
    approve: bool,
)
    ensures
        local.contains(key) && keys.contains(key) <==> rate_ballots_of(
            keys,
            local,
            btc,
            eth,
        ).contains(rate_ballot(keys, key, btc, eth)),
        local.contains(key) && keys.contains(key) <==> vote_ballots_of(
            keys,
            local,
            id,
            approve,
        ).contains(vote_ballot(keys, key, id, approve)),
{
    let test = |key: AuthorityId| keys.contains(key);
    let among = authorities_among(keys, local);
    let rates = rate_ballots_of(keys, local, btc, eth);
    let votes = vote_ballots_of(keys, local, id, approve);
    if local.contains(key) && keys.contains(key) {
        let i = choose|i: int| 0 <= i < local.len() && local[i] == key;
        local.lemma_filter_contains(test, i);
        let k = choose|k: int| 0 <= k < among.len() && among[k] == key;
        assert(rates[k] == rate_ballot(keys, key, btc, eth));
        assert(votes[k] == vote_ballot(keys, key, id, approve));
    }
    if among.contains(key) {
        let k = choose|k: int| 0 <= k < among.len() && among[k] == key;
        local.lemma_filter_contains_rev(test, key);
        local.lemma_filter_pred(test, k);
    }
    if rates.contains(rate_ballot(keys, key, btc, eth)) {
        let k = choose|k: int| 0 <= k < rates.len() && rates[k] == rate_ballot(keys, key, btc, eth);
        assert(among[k] == key);
    }
    if votes.contains(vote_ballot(keys, key, id, approve)) {
        let k = choose|k: int|
            0 <= k < votes.len() && votes[k] == vote_ballot(keys, key, id, approve);
        assert(among[k] == key);
    }
}

/// The pool lets in the vote of a local authority on a known claim, signed with its key, unless
/// that authority has voted for the claim before.
pub proof fn law_own_votes_pass_the_pool(
    s: State,
    config: Config,
    key: AuthorityId,
    id: ClaimId,
    approve: bool,
    signature: AuthoritySignature,
)
    requires
        s.keys.contains(key),
        s.keys.len() <= 0x1_0000,
        s.claims.contains_key(id),
        !s.has_vote.contains((key, id)),
        accepts(
            config.authority_scheme,
            key,
            message_bytes(vote_ballot(s.keys, key, id, approve).message),
            signature,
        ),
    ensures
        ({
            let vote = vote_ballot(s.keys, key, id, approve).message->Vote_0;
            vote_refusal(s, vote, vote_is_signed(s, config, vote, signature)) is None
        }),
{
    law_index_leads_to_the_key(s, key);
}

/// The pool lets in the rates that a local authority reports, signed with its key.
pub proof fn law_own_rates_pass_the_pool(
    s: State,
    config: Config,
    key: AuthorityId,
    btc: u64,
    eth: u64,
    signature: AuthoritySignature,
)
    requires
        s.keys.contains(key),
        s.keys.len() <= 0x1_0000,
        accepts(
            config.authority_scheme,
            key,
            message_bytes(rate_ballot(s.keys, key, btc, eth).message),
            signature,
        ),
    ensures
        ({
            let rate = rate_ballot(s.keys, key, btc, eth).message->Rate_0;
            rate_refusal(s, rate, rate_is_signed(s, config, rate, signature)) is None
        }),
{
    law_index_leads_to_the_key(s, key);
}

/// Whether an input is what an action asks for.
pub open spec fn suits(action: ActionView, input: InputView) -> bool {
    match action {
        ActionView::Fetch(_) => input is Fetched,
        ActionView::FetchLock(..) => input is LockFetched,
        ActionView::ListKeys => input is Keys,
        ActionView::Sign(..) => input is Signed,
        ActionView::Submit(_) => input is Submitted,
        ActionView::Done(_) => false,
    }
}

/// The worker always waits for what it asked for: whoever answers each action with what it asks for
/// can go on until the worker is done.
pub proof fn law_the_worker_waits_for_what_it_asked(
    w: WorkerView,
    s: State,
    config: Config,
    input: InputView,
    answer: InputView,
)
    requires
        awaits(w.phase, input),
    ensures
        suits(started(config).1, answer) <==> awaits(started(config).0.phase, answer),
        suits(next(w, s, config, input).1, answer) <==> awaits(
            next(w, s, config, input).0.phase,
            answer,
        ),
{
}

/// The worker is done exactly when it says so.
pub proof fn law_done_means_finished(w: WorkerView, s: State, config: Config, input: InputView)
    requires
        awaits(w.phase, input),
    ensures
        next(w, s, config, input).1 is Done <==> next(w, s, config, input).0.phase is Finished,
{
}

/// How far the worker is from its end: what stands first weighs most.
pub open spec fn way_left(w: WorkerView) -> (nat, nat, nat, nat) {
    let stage = match w.phase {
        Phase::BtcTicker => 3nat,
        Phase::EthTicker { .. } => 2nat,
        Phase::RateKeys { .. } => 1nat,
        _ => 0nat,
    };
    let check = match w.phase {
        Phase::Lock { .. } => 2nat,
        Phase::VoteKeys { .. } => 1nat,
        _ => 0nat,
    };
    let ballots = if w.phase is Submitting {
        2 * w.outbox.len() + 1
    } else {
        2 * w.outbox.len()
    };
    (stage, w.requests.len(), check, ballots)
}

/// Every step brings the worker closer to its end, so that it always comes to one.
pub proof fn law_the_worker_comes_to_an_end(
    w: WorkerView,
    s: State,
    config: Config,
    input: InputView,
)
    requires
        awaits(w.phase, input),
        w.phase is Signing ==> w.outbox.len() > 0,
    ensures
        ({
            let (a, b) = (way_left(w), way_left(next(w, s, config, input).0));
            ||| b.0 < a.0
            ||| b.0 == a.0 && b.1 < a.1
            ||| b.0 == a.0 && b.1 == a.1 && b.2 < a.2
            ||| b.0 == a.0 && b.1 == a.1 && b.2 == a.2 && b.3 < a.3
        }),
        next(w, s, config, input).0.phase is Signing ==> next(
            w,
            s,
            config,
            input,
        ).0.outbox.len() > 0,
{
}

/// An authority's index is the first place in the list where its key stands, counted in 16 bits.
pub proof fn law_an_index_is_the_first_place(keys: Seq<AuthorityId>, i: int)
    requires
        0 <= i < keys.len(),
        forall|j: int| 0 <= j < i ==> keys[j] != keys[i],
    ensures
        index_of(keys, keys[i]) == i % 0x1_0000,
        i < 0x1_0000 ==> index_of(keys, keys[i]) == i,
{
    assert(keys.contains(keys[i]));
    keys.index_of_first_ensures(keys[i]);
}

/// Local keys are looked at one by one, in order: a key of an authority counts, and any other does
/// not.
pub proof fn law_local_keys_count_one_by_one(
    keys: Seq<AuthorityId>,
    local: Seq<AuthorityId>,
    key: AuthorityId,
)
    ensures
        authorities_among(keys, Seq::empty()) == Seq::<AuthorityId>::empty(),
        keys.contains(key) ==> authorities_among(keys, local.push(key)) == authorities_among(
            keys,
            local,
        ).push(key),
        !keys.contains(key) ==> authorities_among(keys, local.push(key)) == authorities_among(
            keys,
            local,
        ),
{
    reveal(Seq::filter);
    let test = |key: AuthorityId| keys.contains(key);
    assert(authorities_among(keys, Seq::empty()) =~= Seq::<AuthorityId>::empty());
    local.lemma_filter_push(key, test);
}

/// Each local authority's vote is on the claim and says what was found, and each report tells the
/// rates; each is to be signed with that authority's key, and carries that authority's index.
pub proof fn law_ballots_say_what_was_found(
    keys: Seq<AuthorityId>,
    local: Seq<AuthorityId>,
    id: ClaimId,
    approve: bool,
    btc: u64,
    eth: u64,
    j: int,
)
    requires
        0 <= j < authorities_among(keys, local).len(),
    ensures
        ({
            let votes = vote_ballots_of(keys, local, id, approve);
            let key = authorities_among(keys, local)[j];
            &&& votes.len() == authorities_among(keys, local).len()
            &&& votes[j].key == key
            &&& votes[j].message matches Message::Vote(vote) && vote.claim_id == id && vote.approve
                == approve && vote.authority == index_of(keys, key)
        }),
        ({
            let rates = rate_ballots_of(keys, local, btc, eth);
            let key = authorities_among(keys, local)[j];
            &&& rates.len() == authorities_among(keys, local).len()
            &&& rates[j].key == key
            &&& rates[j].message matches Message::Rate(rate) && rate.btc == btc && rate.eth == eth
                && rate.authority == index_of(keys, key)
        }),
{
}

/// What an authority is asked to sign is the encoding of what is then submitted, with that
/// signature; where it does not sign, nothing is submitted and the worker stops.
pub proof fn law_what_is_signed_is_what_is_sent(
    s: State,
    config: Config,
    requests: Seq<ClaimId>,
    ballots: Seq<Ballot>,
    signature: AuthoritySignature,
)
    requires
        ballots.len() > 0,
    ensures
        ({
            let (w, asked) = going_on(s, config, requests, ballots);
            let answer = next(w, s, config, InputView::Signed(Some(signature))).1;
            &&& asked matches ActionView::Sign(key, bytes) && key == ballots[0].key && match
                ballots[0].message {
                Message::Vote(vote) => bytes == vote_bytes(vote) && answer == ActionView::Submit(
                    Call::Vote(vote, signature),
                ),
                Message::Rate(rate) => bytes == rate_bytes(rate) && answer == ActionView::Submit(
                    Call::SetDollarRate(rate, signature),
                ),
            }
            &&& next(w, s, config, InputView::Signed(None)).1 == ActionView::Done(
                Err(WorkerErrorView::Signing),
            )
        }),
{
}

/// The prices are fetched from the chain's two services, the BTC price first; then, for each claim,
/// the transaction of its parameters.
pub proof fn law_what_is_fetched(
    s: State,
    config: Config,
    btc: ResponseView,
    requests: Seq<ClaimId>,
)
    requires
        requests.len() > 0,
    ensures
        started(config).1 == ActionView::Fetch(config.bitcoin_ticker_uri@),
        btc_ticker_of(btc) is Ok ==> next(
            started(config).0,
            s,
            config,
            InputView::Fetched(btc),
        ).1 == ActionView::Fetch(config.ethereum_ticker_uri@),
        going_on(s, config, requests, Seq::empty()).1 == ActionView::FetchLock(
            lock_uri_of(config, s.claim(requests[0]).params),
            s.claim(requests[0]).params,
        ),
        going_on(s, config, requests, Seq::empty()).0.phase == (Phase::Lock { id: requests[0] }),
{
}

/// A worker that stops tells how the run ended, and has nothing left to do.
pub proof fn law_stopping_tells_the_result(result: Result<(), WorkerErrorView>)
    ensures
        stopped(result).1 == ActionView::Done(result),
        stopped(result).0.phase is Finished,
        stopped(result).0.requests.len() == 0,
        stopped(result).0.outbox.len() == 0,
{
}

/// A ticker gives the rate of the document that was fetched, the same for both; what keeps it from
/// that is told as an error of that ticker.
pub proof fn law_what_tickers_give(response: ResponseView)
    ensures
        match fetched(response) {
            Err(error) => btc_ticker_of(response) == Err::<nat, WorkerErrorView>(
                WorkerErrorView::BtcFetch(error),
            ) && eth_ticker_of(response) == Err::<nat, WorkerErrorView>(
                WorkerErrorView::EthFetch(error),
            ),
            Ok(document) => match rate_in(document) {
                Err(error) => btc_ticker_of(response) == Err::<nat, WorkerErrorView>(
                    WorkerErrorView::BtcParse(error),
                ) && eth_ticker_of(response) == Err::<nat, WorkerErrorView>(
                    WorkerErrorView::EthParse(error),
                ),
                Ok(rate) => btc_ticker_of(response) == Ok::<nat, WorkerErrorView>(rate)
                    && eth_ticker_of(response) == Ok::<nat, WorkerErrorView>(rate),
            },
        },
{
}

/// A claim is approved exactly when the transaction that was fetched is the lock that its
/// parameters tell of.
pub proof fn law_the_verdict_is_that_of_the_check(
    s: State,
    config: Config,
    id: ClaimId,
    response: ResponseView,
    script: Seq<u8>,
    sender: JsonView,
)
    ensures
        ({
            let (found, params) = (
                lock_verdict(s, config, id, response, script, sender),
                s.claim(id).params,
            );
            match fetched(response) {
                Err(error) => found == Err::<bool, WorkerErrorView>(
                    WorkerErrorView::LockFetch(error),
                ),
                Ok(tx) => {
                    &&& found is Ok <==> is_readable(tx, params, script, sender)
                    &&& found matches Ok(approve) ==> approve == is_locked(
                        tx,
                        params,
                        script,
                        sender,
                        config.ethereum_contract_address@,
                    )
                    &&& found matches Err(error) ==> error
                        == WorkerErrorView::UnreadableTransaction
                },
            }
        }),
{
}

/// An error is told in full: what failed, and then the error of the service or of the reading; of a
/// locking transaction, the error of the service alone.
pub proof fn law_worker_errors_are_told_in_full(error: Seq<char>, parse: ParseIntError)
    ensures
        ({
            let (btc, eth) = (
                WorkerErrorView::BtcFetch(error).text(),
                WorkerErrorView::EthFetch(error).text(),
            );
            &&& btc.take(24) == "BTC ticker fetch error: "@ && btc.skip(24) == debug_text_of(error)
            &&& eth.take(24) == "ETH ticker fetch error: "@ && eth.skip(24) == debug_text_of(error)
            &&& btc.len() == eth.len() == 24 + debug_text_of(error).len()
        }),
        ({
            let (btc, eth) = (
                WorkerErrorView::BtcParse(parse).text(),
                WorkerErrorView::EthParse(parse).text(),
            );
            &&& btc.take(31) == "BTC ticker JSON parsing error: "@ && btc.skip(31) == parse.text()
            &&& eth.take(31) == "ETH ticker JSON parsing error: "@ && eth.skip(31) == parse.text()
            &&& btc.len() == eth.len() == 31 + parse.text().len()
        }),
        WorkerErrorView::LockFetch(error).text() == error,
{
    reveal_strlit("BTC ticker fetch error: ");
    reveal_strlit("ETH ticker fetch error: ");
    reveal_strlit("BTC ticker JSON parsing error: ");
    reveal_strlit("ETH ticker JSON parsing error: ");
    let (quoted, words) = (debug_text_of(error), parse.text());
    assert(("BTC ticker fetch error: "@ + quoted).take(24) =~= "BTC ticker fetch error: "@);
    assert(("BTC ticker fetch error: "@ + quoted).skip(24) =~= quoted);
    assert(("ETH ticker fetch error: "@ + quoted).take(24) =~= "ETH ticker fetch error: "@);
    assert(("ETH ticker fetch error: "@ + quoted).skip(24) =~= quoted);
    assert(("BTC ticker JSON parsing error: "@ + words).take(31)
        =~= "BTC ticker JSON parsing error: "@);
    assert(("BTC ticker JSON parsing error: "@ + words).skip(31) =~= words);
    assert(("ETH ticker JSON parsing error: "@ + words).take(31)
        =~= "ETH ticker JSON parsing error: "@);
    assert(("ETH ticker JSON parsing error: "@ + words).skip(31) =~= words);
}

/// Actions stand for all that they hold: addresses, parameters, keys, bytes, calls and results.
pub proof fn law_actions_stand_for_what_they_hold(action: Action)
    ensures
        action is ListKeys <==> action@ is ListKeys,
        action matches Action::Fetch(uri) ==> action@ == ActionView::Fetch(uri@),
        action matches Action::FetchLock(uri, params) ==> action@ == ActionView::FetchLock(
            uri@,
            params,
        ),
        action matches Action::Sign(key, bytes) ==> action@ == ActionView::Sign(key, bytes@),
        action matches Action::Submit(call) ==> action@ == ActionView::Submit(call),
        action matches Action::Done(result) ==> match result {
            Ok(_) => action@ == ActionView::Done(Ok(())),
            Err(error) => action@ == ActionView::Done(Err(error@)),
        },
{
}

/// Inputs stand for all that they hold: responses, scripts, senders, keys and signatures.
pub proof fn law_inputs_stand_for_what_they_hold(input: Input)
    ensures
        input is Submitted <==> input@ is Submitted,
        input matches Input::Fetched(response) ==> input@ == InputView::Fetched(response@),
        input matches Input::LockFetched(response, expected) ==> input@ == InputView::LockFetched(
            response@,
            expected.script@,
            expected.sender@,
        ),
        input matches Input::Keys(keys) ==> input@ == InputView::Keys(keys@),
        input matches Input::Signed(signature) ==> input@ == InputView::Signed(signature),
{
}

/// Errors stand for all that they hold: what failed, and its text or the way it cannot be read.
pub proof fn law_errors_stand_for_what_they_hold(error: WorkerError)
    ensures
        error is UnreadableTransaction <==> error@ is UnreadableTransaction,
        error is Signing <==> error@ is Signing,
        error matches WorkerError::BtcFetch(text) ==> error@ == WorkerErrorView::BtcFetch(text@),
        error matches WorkerError::EthFetch(text) ==> error@ == WorkerErrorView::EthFetch(text@),
        error matches WorkerError::LockFetch(text) ==> error@ == WorkerErrorView::LockFetch(text@),
        error matches WorkerError::BtcParse(parse) ==> error@ == WorkerErrorView::BtcParse(parse),
        error matches WorkerError::EthParse(parse) ==> error@ == WorkerErrorView::EthParse(parse),
{
}

} // verus!
