//! What the lockdrop remembers, and what each call makes of it.

use vstd::prelude::*;
use crate::config::Config;
use crate::crypto::accepts;
use crate::issue::{earned_by, earned_fits};
use crate::rates::{fresh, median_rates, reported, RateEntry};
use crate::scale::{rate_bytes, vote_bytes};
use crate::types::{AuthorityId, Claim, ClaimId, ClaimVote, DispatchError, Dollars, Event};
use crate::types::{AuthoritySignature, InvalidTransaction, Lockdrop, Moment, Origin, TickerRate};
use crate::types::ValidTransaction;

verus! {

/// The state of the lockdrop.
#[verifier::ext_equal]
pub struct State {
    /// Offchain lock check requests made within this block execution.
    pub requests: Seq<ClaimId>,
    /// List of lockdrop authority id's.
    pub keys: Seq<AuthorityId>,
    /// Token claim requests.
    pub claims: Map<ClaimId, Claim>,
    /// Double vote prevention registry.
    pub has_vote: Set<(AuthorityId, ClaimId)>,
    /// Lockdrop alpha parameter (fixed point at 1_000_000_000).
    pub alpha: u32,
    /// Lockdrop dollar rate parameter: BTC, ETH.
    pub dollar_rate: (Dollars, Dollars),
    /// Lockdrop dollar rate median filter table, in the order of the walk through it.
    pub dollar_rate_f: Seq<RateEntry>,
}

/// The state of a lockdrop that is about to start.
pub open spec fn genesis(alpha: u32, dollar_rate: (Dollars, Dollars)) -> State {
    State {
        requests: Seq::empty(),
        keys: Seq::empty(),
        claims: Map::empty(),
        has_vote: Set::empty(),
        alpha,
        dollar_rate,
        dollar_rate_f: Seq::empty(),
    }
}

impl State {
    /// The claim with an id, a blank one where none is known.
    pub open spec fn claim(self, id: ClaimId) -> Claim {
        if self.claims.contains_key(id) {
            self.claims[id]
        } else {
            Claim::blank()
        }
    }

    /// The authority with an index.
    pub open spec fn authority(self, index: u16) -> Option<AuthorityId> {
        if index < self.keys.len() {
            Some(self.keys[index as int])
        } else {
            None
        }
    }
}

/// Clean the state on initialisation of a block.
pub open spec fn after_initialize(s: State) -> State {
    State { requests: Seq::empty(), ..s }
}

/// Why a request is refused.
pub open spec fn request_error(s: State, origin: Origin, id: ClaimId) -> Option<DispatchError> {
    if !(origin is Signed) {
        Some(DispatchError::BadOrigin)
    } else if s.claim(id).complete {
        Some(DispatchError::RequestAlreadyPaid)
    } else {
        None
    }
}

/// The claim that a first request makes.
pub open spec fn new_claim(s: State, params: Lockdrop) -> Claim {
    Claim {
        params,
        approve: 0,
        decline: 0,
        amount: earned_by(s.alpha, s.dollar_rate, params) as u128,
        complete: false,
    }
}

/// Whether the amount of a request can be computed, where it has to be: an unknown claim.
pub open spec fn request_fits(s: State, origin: Origin, id: ClaimId, params: Lockdrop) -> bool {
    origin is Signed && !s.claims.contains_key(id) ==> earned_fits(s.alpha, s.dollar_rate, params)
}

/// A request: an unknown claim is entered, and the authorities are asked to check it.
pub open spec fn after_request(s: State, id: ClaimId, params: Lockdrop) -> State {
    State {
        requests: s.requests.push(id),
        claims: if s.claims.contains_key(id) {
            s.claims
        } else {
            s.claims.insert(id, new_claim(s, params))
        },
        ..s
    }
}

/// Approve votes minus decline votes, zero where there are more of the latter.
pub open spec fn positive_votes(claim: Claim) -> nat {
    if claim.approve >= claim.decline {
        (claim.approve - claim.decline) as nat
    } else {
        0
    }
}

/// Why a payout is refused.
pub open spec fn claim_error(s: State, config: Config, origin: Origin, id: ClaimId) -> Option<
    DispatchError,
> {
    let claim = s.claim(id);
    if !(origin is Signed) {
        Some(DispatchError::BadOrigin)
    } else if claim.complete {
        Some(DispatchError::ClaimAlreadyPaid)
    } else if claim.approve + claim.decline < config.vote_threshold {
        Some(DispatchError::NotEnoughVotes)
    } else if positive_votes(claim) < config.positive_votes {
        Some(DispatchError::NotApproved)
    } else {
        None
    }
}

/// A payout: the claim is complete.
pub open spec fn after_claim(s: State, id: ClaimId) -> State {
    State { claims: s.claims.insert(id, Claim { complete: true, ..s.claim(id) }), ..s }
}

/// What a payout tells: the claim's amount goes to the account of the locking public key.
pub open spec fn payout(s: State, id: ClaimId) -> Event {
    Event::ClaimComplete(id, s.claim(id).params.public_key(), s.claim(id).amount)
}

/// A claim with one more vote.
pub open spec fn counted(claim: Claim, approve: bool) -> Claim {
    if approve {
        Claim { approve: (claim.approve + 1) as u32, ..claim }
    } else {
        Claim { decline: (claim.decline + 1) as u32, ..claim }
    }
}

/// Whether there is room for one more vote.
pub open spec fn vote_fits(claim: Claim, approve: bool) -> bool {
    if approve {
        claim.approve < u32::MAX
    } else {
        claim.decline < u32::MAX
    }
}

/// A vote is counted, whoever sent it.
pub open spec fn after_count(s: State, vote: ClaimVote) -> State {
    State {
        claims: s.claims.insert(vote.claim_id, counted(s.claim(vote.claim_id), vote.approve)),
        ..s
    }
}

/// A vote by an authority: it is counted and noted.
pub open spec fn after_vote(s: State, vote: ClaimVote, authority: AuthorityId) -> State {
    State { has_vote: s.has_vote.insert((authority, vote.claim_id)), ..after_count(s, vote) }
}

/// The table after an authority's report of now.
pub open spec fn table_after_report(
    s: State,
    now: Moment,
    authority: AuthorityId,
    rate: TickerRate<Dollars>,
) -> Seq<RateEntry> {
    reported(s.dollar_rate_f, RateEntry { authority, time: now, btc: rate.btc, eth: rate.eth })
}

/// A dollar rate: it enters the table, expired reports leave it, and the medians of the others are
/// the new rates.
pub open spec fn after_set_dollar_rate(
    s: State,
    config: Config,
    now: Moment,
    authority: AuthorityId,
    rate: TickerRate<Dollars>,
) -> State {
    let kept = fresh(
        table_after_report(s, now, authority, rate),
        now,
        config.median_filter_expire,
    );
    State {
        dollar_rate: median_rates(s.dollar_rate, kept, config.median_filter_width as nat),
        dollar_rate_f: kept,
        ..s
    }
}

/// Remember who the authorities are for the new session.
pub open spec fn after_session(s: State, authorities: Seq<AuthorityId>) -> State {
    State { keys: authorities, ..s }
}

/// Why the pool refuses a vote, given whether its signature is good.
pub open spec fn vote_refusal(s: State, vote: ClaimVote, good: bool) -> Option<
    InvalidTransaction,
> {
    if !s.claims.contains_key(vote.claim_id) {
        Some(InvalidTransaction::Call)
    } else {
        match s.authority(vote.authority) {
            None => Some(InvalidTransaction::BadProof),
            Some(authority) => if !good {
                Some(InvalidTransaction::BadProof)
            } else if s.has_vote.contains((authority, vote.claim_id)) {
                Some(InvalidTransaction::Call)
            } else {
                None
            },
        }
    }
}

/// Why the pool refuses a dollar rate, given whether its signature is good.
pub open spec fn rate_refusal(s: State, rate: TickerRate<Dollars>, good: bool) -> Option<
    InvalidTransaction,
> {
    if s.authority(rate.authority) is None || !good {
        Some(InvalidTransaction::BadProof)
    } else {
        None
    }
}

/// Whether a vote's signature is that of the authority that it names.
pub open spec fn vote_is_signed(
    s: State,
    config: Config,
    vote: ClaimVote,
    signature: AuthoritySignature,
) -> bool {
    s.authority(vote.authority) matches Some(authority) && accepts(
        config.authority_scheme,
        authority,
        vote_bytes(vote),
        signature,
    )
}

/// Whether a dollar rate's signature is that of the authority that it names.
pub open spec fn rate_is_signed(
    s: State,
    config: Config,
    rate: TickerRate<Dollars>,
    signature: AuthoritySignature,
) -> bool {
    s.authority(rate.authority) matches Some(authority) && accepts(
        config.authority_scheme,
        authority,
        rate_bytes(rate),
        signature,
    )
}

/// Whether a transaction is let in as the pool lets in what authorities send: with the highest
/// priority, for 64 blocks, to be passed on, and excluding any other with the same tag.
pub open spec fn let_in(valid: ValidTransaction, tag: Seq<u8>) -> bool {
    &&& valid.priority == u64::MAX
    &&& valid.requires_tags@.len() == 0
    &&& valid.provides@.len() == 1
    &&& valid.provides@[0]@ == tag
    &&& valid.longevity == 64
    &&& valid.propagate
}

/// The verdict of the pool: refused for a reason, or let in under a tag.
pub open spec fn verdict(
    result: Result<ValidTransaction, InvalidTransaction>,
    refusal: Option<InvalidTransaction>,
    tag: Seq<u8>,
) -> bool {
    match refusal {
        Some(reason) => result == Err::<ValidTransaction, InvalidTransaction>(reason),
        None => result matches Ok(valid) && let_in(valid, tag),
    }
}

} // verus!
