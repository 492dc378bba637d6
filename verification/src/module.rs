//! The lockdrop itself: its storage, its calls, and its say in the transaction pool.

use vstd::prelude::*;
use crate::bytes::same_bytes;
use crate::config::Config;
use crate::crypto::verify;
use crate::hashing::{claim_id, claim_id_of};
use crate::issue::{checked_earned, earned_by, earned_fits, issue_amount, issue_fits, issue_of};
use crate::rates::{fresh, in_walk_order, is_fresh, report_of, reported, RateEntry, RateTable};
use crate::scale::{encode_rate, encode_vote, rate_bytes, vote_bytes};
use crate::state;
use crate::state::State;
use crate::store::{ClaimMap, VoteSet};
use crate::types::{AccountId, AuthorityId, AuthorityIndex, AuthoritySignature, Call, Claim};
use crate::types::{ClaimId, ClaimVote, DispatchError, Dollars, Event, InvalidTransaction};
use crate::types::{Lockdrop, Moment, Origin, TickerRate, ValidTransaction};

verus! {

/// The storage of the lockdrop.
pub struct Module {
    requests: Vec<ClaimId>,
    keys: Vec<AuthorityId>,
    claims: ClaimMap,
    has_vote: VoteSet,
    alpha: u32,
    dollar_rate: (Dollars, Dollars),
    dollar_rate_f: RateTable,
}

impl View for Module {
    type V = State;

    closed spec fn view(&self) -> State {
        State {
            requests: self.requests@,
            keys: self.keys@,
            claims: self.claims@,
            has_vote: self.has_vote@,
            alpha: self.alpha,
            dollar_rate: self.dollar_rate,
            dollar_rate_f: self.dollar_rate_f@,
        }
    }
}

/// The account that signed a call.
fn ensure_signed(origin: Origin) -> (account: Result<AccountId, DispatchError>)
    ensures
        account == (match origin {
            Origin::Signed(account) => Ok::<AccountId, DispatchError>(account),
            _ => Err(DispatchError::BadOrigin),
        }),
{
    match origin {
        Origin::Signed(account) => Ok(account),
        _ => Err(DispatchError::BadOrigin),
    }
}

/// Whether nobody signed a call.
fn ensure_none(origin: Origin) -> (nobody: Result<(), DispatchError>)
    ensures
        nobody == (match origin {
            Origin::Unsigned => Ok::<(), DispatchError>(()),
            _ => Err(DispatchError::BadOrigin),
        }),
{
    match origin {
        Origin::Unsigned => Ok(()),
        _ => Err(DispatchError::BadOrigin),
    }
}

/// A transaction that excludes any other with the same tag.
fn valid_transaction(tag: Vec<u8>) -> (valid: ValidTransaction)
    ensures
        state::let_in(valid, tag@),
{
    let mut provides: Vec<Vec<u8>> = Vec::new();
    provides.push(tag);
    ValidTransaction {
        priority: u64::MAX,
        requires_tags: Vec::new(),
        provides,
        longevity: 64,
        propagate: true,
    }
}

/// Storage: setting up, loading and reading.
impl Module {
    /// A lockdrop that is about to start.
    pub fn genesis(alpha: u32, dollar_rate: (Dollars, Dollars)) -> (module: Module)
        ensures
            module@ == state::genesis(alpha, dollar_rate),
    {
        Module {
            requests: Vec::new(),
            keys: Vec::new(),
            claims: ClaimMap::new(),
            has_vote: VoteSet::new(),
            alpha,
            dollar_rate,
            dollar_rate_f: RateTable::new(),
        }
    }

    /// Loads the requests of this block.
    pub fn load_requests(&mut self, requests: Vec<ClaimId>)
        ensures
            final(self)@ == (State { requests: requests@, ..old(self)@ }),
    {
        self.requests = requests;
    }

    /// Loads the list of authorities.
    pub fn load_keys(&mut self, keys: Vec<AuthorityId>)
        ensures
            final(self)@ == (State { keys: keys@, ..old(self)@ }),
    {
        self.keys = keys;
    }

    /// Loads a claim.
    pub fn load_claim(&mut self, id: ClaimId, claim: Claim)
        ensures
            final(self)@ == (State { claims: old(self)@.claims.insert(id, claim), ..old(self)@ }),
    {
        self.claims.insert(id, claim);
    }

    /// Loads a note that an authority has voted for a claim.
    pub fn load_vote(&mut self, authority: AuthorityId, id: ClaimId)
        ensures
            final(self)@ == (State {
                has_vote: old(self)@.has_vote.insert((authority, id)),
                ..old(self)@
            }),
    {
        self.has_vote.insert(authority, id);
    }

    /// Loads an authority's report of the dollar rates.
    pub fn load_report(&mut self, entry: RateEntry)
        ensures
            final(self)@ == (State {
                dollar_rate_f: reported(old(self)@.dollar_rate_f, entry),
                ..old(self)@
            }),
    {
        self.dollar_rate_f.report(entry);
    }

    /// Offchain lock check requests made within this block execution.
    pub fn requests(&self) -> (requests: &Vec<ClaimId>)
        ensures
            requests@ == self@.requests,
    {
        &self.requests
    }

    /// List of lockdrop authority id's.
    pub fn keys(&self) -> (keys: &Vec<AuthorityId>)
        ensures
            keys@ == self@.keys,
    {
        &self.keys
    }

    /// The claim with an id, a blank one where none is known.
    pub fn claims(&self, id: &ClaimId) -> (claim: Claim)
        ensures
            claim == self@.claim(*id),
    {
        match self.claims.get(id) {
            Some(claim) => claim,
            None => Claim::default(),
        }
    }

    /// Whether a claim is known.
    pub fn contains_claim(&self, id: &ClaimId) -> (known: bool)
        ensures
            known == self@.claims.contains_key(*id),
    {
        self.claims.get(id).is_some()
    }

    /// Whether an authority has voted for a claim.
    pub fn has_vote(&self, authority: &AuthorityId, id: &ClaimId) -> (voted: bool)
        ensures
            voted == self@.has_vote.contains((*authority, *id)),
    {
        self.has_vote.contains(authority, id)
    }

    /// Lockdrop alpha parameter (fixed point at 1_000_000_000).
    pub fn alpha(&self) -> (alpha: u32)
        ensures
            alpha == self@.alpha,
    {
        self.alpha
    }

    /// Lockdrop dollar rate parameter: BTC, ETH.
    pub fn dollar_rate(&self) -> (rate: (Dollars, Dollars))
        ensures
            rate == self@.dollar_rate,
    {
        self.dollar_rate
    }

    /// An authority's report in the dollar rate median filter table: Time, BTC, ETH.
    pub fn dollar_rate_f(&self, authority: &AuthorityId) -> (report: (Moment, Dollars, Dollars))
        ensures
            report == report_of(self@.dollar_rate_f, *authority),
    {
        self.dollar_rate_f.report_by(authority)
    }

    /// The dollar rate median filter table, in the order of the walk through it.
    pub fn reports(&self) -> (entries: &Vec<RateEntry>)
        ensures
            entries@ == self@.dollar_rate_f,
            in_walk_order(entries@),
    {
        self.dollar_rate_f.entries()
    }

    /// The authority with an index.
    fn authority(&self, index: AuthorityIndex) -> (authority: Option<AuthorityId>)
        ensures
            authority == self@.authority(index),
    {
        if (index as usize) < self.keys.len() {
            Some(self.keys[index as usize])
        } else {
            None
        }
    }

    /// Check that authority key list contains given account.
    pub fn authority_index_of(&self, public: &AuthorityId) -> (index: Option<AuthorityIndex>)
        ensures
            index == (match self@.keys.index_of_first(*public) {
                Some(i) => Some((i % 0x1_0000) as AuthorityIndex),
                None => None::<AuthorityIndex>,
            }),
    {
        proof {
            self.keys@.index_of_first_ensures(*public);
        }
        // O(n) is ok because of short list
        let mut i: usize = 0;
        while i < self.keys.len()
            invariant
                i <= self.keys@.len(),
                forall|j: int| 0 <= j < i ==> #[trigger] self.keys@[j] != *public,
            decreases self.keys@.len() - i,
        {
            if same_bytes(&self.keys[i], public) {
                proof {
                    assert(self.keys@.contains(self.keys@[i as int]));
                    self.keys@.index_of_first_ensures(*public);
                }
                let low: usize = i % 0x1_0000;
                return Some(low as AuthorityIndex);
            }
            i += 1;
        }
        None
    }
}

/// Calls.
impl Module {
    /// Clean the state on initialisation of a block.
    pub fn on_initialize(&mut self)
        ensures
            final(self)@ == state::after_initialize(old(self)@),
    {
        self.requests = Vec::new();
    }

    /// PLM issue amount for given BTC value and locking duration.
    pub fn btc_issue_amount(&self, value: u128, duration: Moment) -> (amount: u128)
        requires
            issue_fits(
                self@.alpha as nat,
                self@.dollar_rate.0 as nat,
                value as nat,
                duration as nat,
            ),
        ensures
            amount == issue_of(
                self@.alpha as nat,
                self@.dollar_rate.0 as nat,
                value as nat,
                duration as nat,
            ),
    {
        issue_amount(self.alpha, self.dollar_rate.0, value, duration)
    }

    /// PLM issue amount for given ETH value and locking duration.
    pub fn eth_issue_amount(&self, value: u128, duration: Moment) -> (amount: u128)
        requires
            issue_fits(
                self@.alpha as nat,
                self@.dollar_rate.1 as nat,
                value as nat,
                duration as nat,
            ),
        ensures
            amount == issue_of(
                self@.alpha as nat,
                self@.dollar_rate.1 as nat,
                value as nat,
                duration as nat,
            ),
    {
        issue_amount(self.alpha, self.dollar_rate.1, value, duration)
    }

    /// What a request earns at the rates of now.
    pub fn claim_amount(&self, params: &Lockdrop) -> (amount: u128)
        requires
            earned_fits(self@.alpha, self@.dollar_rate, *params),
        ensures
            amount == earned_by(self@.alpha, self@.dollar_rate, *params),
    {
        match params {
            Lockdrop::Bitcoin { value, duration, .. } => {
                // Average block duration in BTC is 10 min = 600 sec
                let duration_sec: u64 = *duration * 600;
                // Cast bitcoin value to PLM order (it also helps to make evaluations more precise)
                let value_btc: u128 = (*value as u128) * 1_000_000;
                self.btc_issue_amount(value_btc, duration_sec)
            },
            Lockdrop::Ethereum { value, duration, .. } => {
                let value_eth: u128 = (*value as u128) / 1_000;
                self.eth_issue_amount(value_eth, *duration)
            },
        }
    }

    /// Request authorities to check locking transaction.
    pub fn request(&mut self, origin: Origin, params: Lockdrop) -> (result: Result<
        Event,
        DispatchError,
    >)
        requires
            state::request_fits(old(self)@, origin, claim_id_of(params), params),
        ensures
            match state::request_error(old(self)@, origin, claim_id_of(params)) {
                Some(error) => result == Err::<Event, DispatchError>(error) && final(self)@
                    == old(self)@,
                None => result == Ok::<Event, DispatchError>(
                    Event::ClaimRequest(claim_id_of(params)),
                ) && final(self)@ == state::after_request(old(self)@, claim_id_of(params), params),
            },
    {
        let id = claim_id(&params);
        self.request_with_id(origin, id, params)
    }

    /// Request authorities to check locking transaction, where the claim's id is known.
    pub fn request_with_id(&mut self, origin: Origin, id: ClaimId, params: Lockdrop) -> (result:
        Result<Event, DispatchError>)
        requires
            state::request_fits(old(self)@, origin, id, params),
        ensures
            match state::request_error(old(self)@, origin, id) {
                Some(error) => result == Err::<Event, DispatchError>(error) && final(self)@
                    == old(self)@,
                None => result == Ok::<Event, DispatchError>(Event::ClaimRequest(id))
                    && final(self)@ == state::after_request(old(self)@, id, params),
            },
    {
        match ensure_signed(origin) {
            Ok(_) => {},
            Err(error) => {
                return Err(error);
            },
        }
        if self.claims(&id).complete {
            return Err(DispatchError::RequestAlreadyPaid);
        }
        if !self.contains_claim(&id) {
            let amount: u128 = self.claim_amount(&params);
            let claim = Claim { params, approve: 0, decline: 0, amount, complete: false };
            self.claims.insert(id, claim);
        }
        self.requests.push(id);
        Ok(Event::ClaimRequest(id))
    }

    /// Request authorities to check locking transaction, where the amount of the claim fits in
    /// 128 bits; nothing happens where it does not.
    pub fn checked_request(&mut self, origin: Origin, params: Lockdrop) -> (result: Option<
        Result<Event, DispatchError>,
    >)
        ensures
            result is None <==> !state::request_fits(
                old(self)@,
                origin,
                claim_id_of(params),
                params,
            ),
            match result {
                None => final(self)@ == old(self)@,
                Some(result) => match state::request_error(
                    old(self)@,
                    origin,
                    claim_id_of(params),
                ) {
                    Some(error) => result == Err::<Event, DispatchError>(error) && final(self)@
                        == old(self)@,
                    None => result == Ok::<Event, DispatchError>(
                        Event::ClaimRequest(claim_id_of(params)),
                    ) && final(self)@ == state::after_request(
                        old(self)@,
                        claim_id_of(params),
                        params,
                    ),
                },
            },
    {
        let id = claim_id(&params);
        if ensure_signed(origin).is_ok() && !self.contains_claim(&id) && checked_earned(
            self.alpha,
            self.dollar_rate,
            &params,
        ).is_none() {
            return None;
        }
        Some(self.request(origin, params))
    }

    /// Claim tokens according to lockdrop procedure.
    pub fn claim(&mut self, config: &Config, origin: Origin, id: ClaimId) -> (result: Result<
        Event,
        DispatchError,
    >)
        requires
            origin is Signed && !old(self)@.claim(id).complete ==> old(self)@.claim(id).approve
                + old(self)@.claim(id).decline <= u32::MAX,
        ensures
            match state::claim_error(old(self)@, *config, origin, id) {
                Some(error) => result == Err::<Event, DispatchError>(error) && final(self)@
                    == old(self)@,
                None => result == Ok::<Event, DispatchError>(state::payout(old(self)@, id))
                    && final(self)@ == state::after_claim(old(self)@, id),
            },
    {
        match ensure_signed(origin) {
            Ok(_) => {},
            Err(error) => {
                return Err(error);
            },
        }
        let claim = self.claims(&id);
        if claim.complete {
            return Err(DispatchError::ClaimAlreadyPaid);
        }
        if claim.approve + claim.decline < config.vote_threshold {
            return Err(DispatchError::NotEnoughVotes);
        }
        if claim.approve.saturating_sub(claim.decline) < config.positive_votes {
            return Err(DispatchError::NotApproved);
        }
        // Deposit lockdrop tokens on locking public key.
        let public = match claim.params {
            Lockdrop::Bitcoin { public, .. } => public,
            Lockdrop::Ethereum { public, .. } => public,
        };
        // Finalize claim request
        self.claims.insert(
            id,
            Claim {
                params: claim.params,
                approve: claim.approve,
                decline: claim.decline,
                amount: claim.amount,
                complete: true,
            },
        );
        Ok(Event::ClaimComplete(id, public, claim.amount))
    }

    /// Vote for claim request according to check results. (for authorities only)
    ///
    /// The signature is verified in [`Module::validate_unsigned`]; the vote of an authority that is
    /// not in the list is counted and then refused.
    pub fn vote(&mut self, origin: Origin, vote: ClaimVote) -> (result: Result<
        Event,
        DispatchError,
    >)
        requires
            origin is Unsigned ==> state::vote_fits(old(self)@.claim(vote.claim_id), vote.approve),
        ensures
            !(origin is Unsigned) ==> result == Err::<Event, DispatchError>(
                DispatchError::BadOrigin,
            ) && final(self)@ == old(self)@,
            origin is Unsigned ==> match old(self)@.authority(vote.authority) {
                None => result == Err::<Event, DispatchError>(DispatchError::UnknownVoter)
                    && final(self)@ == state::after_count(old(self)@, vote),
                Some(authority) => result == Ok::<Event, DispatchError>(
                    Event::ClaimResponse(vote.claim_id, authority, vote.approve),
                ) && final(self)@ == state::after_vote(old(self)@, vote, authority),
            },
    {
        match ensure_none(origin) {
            Ok(_) => {},
            Err(error) => {
                return Err(error);
            },
        }
        let mut claim = self.claims(&vote.claim_id);
        if vote.approve {
            claim.approve += 1;
        } else {
            claim.decline += 1;
        }
        self.claims.insert(vote.claim_id, claim);
        match self.authority(vote.authority) {
            Some(authority) => {
                self.has_vote.insert(authority, vote.claim_id);
                Ok(Event::ClaimResponse(vote.claim_id, authority, vote.approve))
            },
            None => Err(DispatchError::UnknownVoter),
        }
    }

    /// Dollar Rate oracle entrypoint. (for authorities only)
    ///
    /// The signature is verified in [`Module::validate_unsigned`].
    pub fn set_dollar_rate(
        &mut self,
        config: &Config,
        origin: Origin,
        now: Moment,
        rate: TickerRate<Dollars>,
    ) -> (result: Result<Event, DispatchError>)
        requires
            origin is Unsigned && old(self)@.authority(rate.authority) is Some ==> {
                &&& config.median_filter_width * 48 <= isize::MAX
                &&& config.median_filter_expire > 0 ==> config.median_filter_width > 0
            },
        ensures
            !(origin is Unsigned) ==> result == Err::<Event, DispatchError>(
                DispatchError::BadOrigin,
            ) && final(self)@ == old(self)@,
            origin is Unsigned ==> match old(self)@.authority(rate.authority) {
                None => result == Err::<Event, DispatchError>(DispatchError::UnknownOracle)
                    && final(self)@ == old(self)@,
                Some(authority) => {
                    let after = state::after_set_dollar_rate(
                        old(self)@,
                        *config,
                        now,
                        authority,
                        rate,
                    );
                    result == Ok::<Event, DispatchError>(
                        Event::NewDollarRate(after.dollar_rate.0, after.dollar_rate.1),
                    ) && final(self)@ == after
                },
            },
    {
        match ensure_none(origin) {
            Ok(_) => {},
            Err(error) => {
                return Err(error);
            },
        }
        match self.authority(rate.authority) {
            Some(authority) => {
                self.dollar_rate_f.report(
                    RateEntry { authority, time: now, btc: rate.btc, eth: rate.eth },
                );
            },
            None => {
                return Err(DispatchError::UnknownOracle);
            },
        }
        proof {
            lemma_nothing_is_fresh(self.dollar_rate_f@, now, config.median_filter_expire);
        }
        self.dollar_rate = self.dollar_rate_f.sweep(
            now,
            config.median_filter_expire,
            config.median_filter_width,
            self.dollar_rate,
        );
        Ok(Event::NewDollarRate(self.dollar_rate.0, self.dollar_rate.1))
    }
}

/// Where reports expire at once, none is fresh.
proof fn lemma_nothing_is_fresh(entries: Seq<RateEntry>, now: Moment, expire: Moment)
    ensures
        fresh(entries, now, expire).len() > 0 ==> expire > 0,
{
    if fresh(entries, now, expire).len() > 0 {
        entries.lemma_filter_pred(|e: RateEntry| is_fresh(e, now, expire), 0);
    }
}

/// Sessions.
impl Module {
    /// Init authorities on genesis session.
    pub fn on_genesis_session(&mut self, validators: Vec<(AccountId, AuthorityId)>) -> (event:
        Event)
        ensures
            final(self)@ == state::after_session(
                old(self)@,
                validators@.map_values(|v: (AccountId, AuthorityId)| v.1),
            ),
            event matches Event::NewAuthorities(authorities) && authorities@ == final(self)@.keys,
    {
        self.register(validators)
    }

    /// Remember who the authorities are for the new session.
    pub fn on_new_session(
        &mut self,
        _changed: bool,
        validators: Vec<(AccountId, AuthorityId)>,
        _queued_validators: Vec<(AccountId, AuthorityId)>,
    ) -> (event: Event)
        ensures
            final(self)@ == state::after_session(
                old(self)@,
                validators@.map_values(|v: (AccountId, AuthorityId)| v.1),
            ),
            event matches Event::NewAuthorities(authorities) && authorities@ == final(self)@.keys,
    {
        self.register(validators)
    }

    /// Puts the keys of validators in place of the list of authorities.
    fn register(&mut self, validators: Vec<(AccountId, AuthorityId)>) -> (event: Event)
        ensures
            final(self)@ == state::after_session(
                old(self)@,
                validators@.map_values(|v: (AccountId, AuthorityId)| v.1),
            ),
            event matches Event::NewAuthorities(authorities) && authorities@ == final(self)@.keys,
    {
        let mut authorities: Vec<AuthorityId> = Vec::new();
        let mut copy: Vec<AuthorityId> = Vec::new();
        let mut i: usize = 0;
        while i < validators.len()
            invariant
                i <= validators@.len(),
                copy@ == authorities@,
                authorities@ == validators@.take(i as int).map_values(
                    |v: (AccountId, AuthorityId)| v.1,
                ),
            decreases validators@.len() - i,
        {
            authorities.push(validators[i].1);
            copy.push(validators[i].1);
            i += 1;
            assert(authorities@ =~= validators@.take(i as int).map_values(
                |v: (AccountId, AuthorityId)| v.1,
            ));
        }
        assert(validators@.take(i as int) =~= validators@);
        self.keys = copy;
        Event::NewAuthorities(authorities)
    }

    /// Nothing is done before a session ends.
    pub fn on_before_session_ending(&mut self)
        ensures
            final(self)@ == old(self)@,
    {
    }

    /// Nothing is done about a disabled validator.
    pub fn on_disabled(&mut self, _i: usize)
        ensures
            final(self)@ == old(self)@,
    {
    }
}

/// The transaction pool.
impl Module {
    /// Judges a vote, given whether its signature is good.
    pub fn judge_vote(&self, vote: &ClaimVote, good: bool) -> (result: Result<
        ValidTransaction,
        InvalidTransaction,
    >)
        ensures
            state::verdict(
                result,
                state::vote_refusal(self@, *vote, good),
                vote_bytes(*vote),
            ),
    {
        // Verify call params
        if !self.contains_claim(&vote.claim_id) {
            return Err(InvalidTransaction::Call);
        }
        // Verify authority
        match self.authority(vote.authority) {
            Some(authority) => {
                // Check that sender is authority
                if !good {
                    return Err(InvalidTransaction::BadProof);
                }
                // Double voting guard
                if self.has_vote(&authority, &vote.claim_id) {
                    return Err(InvalidTransaction::Call);
                }
            },
            None => {
                return Err(InvalidTransaction::BadProof);
            },
        }
        Ok(valid_transaction(encode_vote(vote)))
    }

    /// Judges a dollar rate, given whether its signature is good.
    pub fn judge_rate(&self, rate: &TickerRate<Dollars>, good: bool) -> (result: Result<
        ValidTransaction,
        InvalidTransaction,
    >)
        ensures
            state::verdict(
                result,
                state::rate_refusal(self@, *rate, good),
                rate_bytes(*rate),
            ),
    {
        match self.authority(rate.authority) {
            Some(_) => {
                // Check that sender is authority
                if !good {
                    return Err(InvalidTransaction::BadProof);
                }
            },
            None => {
                return Err(InvalidTransaction::BadProof);
            },
        }
        Ok(valid_transaction(encode_rate(rate)))
    }

    /// Judges an unsigned transaction: a vote or a dollar rate that an authority signed is let in,
    /// any other call is not.
    pub fn validate_unsigned(&self, config: &Config, call: &Call) -> (result: Result<
        ValidTransaction,
        InvalidTransaction,
    >)
        ensures
            match *call {
                Call::Vote(vote, signature) => state::verdict(
                    result,
                    state::vote_refusal(
                        self@,
                        vote,
                        state::vote_is_signed(self@, *config, vote, signature),
                    ),
                    vote_bytes(vote),
                ),
                Call::SetDollarRate(rate, signature) => state::verdict(
                    result,
                    state::rate_refusal(
                        self@,
                        rate,
                        state::rate_is_signed(self@, *config, rate, signature),
                    ),
                    rate_bytes(rate),
                ),
                _ => result == Err::<ValidTransaction, InvalidTransaction>(
                    InvalidTransaction::Call,
                ),
            },
    {
        match call {
            Call::Vote(vote, signature) => {
                let good = match self.authority(vote.authority) {
                    Some(authority) => verify(
                        config.authority_scheme,
                        &authority,
                        encode_vote(vote).as_slice(),
                        signature,
                    ),
                    None => false,
                };
                self.judge_vote(vote, good)
            },
            Call::SetDollarRate(rate, signature) => {
                let good = match self.authority(rate.authority) {
                    Some(authority) => verify(
                        config.authority_scheme,
                        &authority,
                        encode_rate(rate).as_slice(),
                        signature,
                    ),
                    None => false,
                };
                self.judge_rate(rate, good)
            },
            _ => Err(InvalidTransaction::Call),
        }
    }
}

} // verus!
