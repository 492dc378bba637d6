//! What holds of the lockdrop through all its life.

use vstd::prelude::*;
use crate::bytes::{lemma_lex_irreflexive, lemma_lex_total};
use crate::config::Config;
use crate::crypto::{ed25519_accepts, sr25519_accepts};
use crate::hashing::{blake2_128_concat_of, blake_two_256_of, claim_id_of, storage_key_of};
use crate::issue::{earned_by, earned_fits};
use crate::rate_filter::{count_between, last_of, law_majority_bounds_the_median};
use crate::rate_filter::{law_median_ignores_order, law_median_is_a_given_value};
use crate::rate_filter::{law_the_median_splits_the_values, lower_median};
use crate::rates::{btc_rates, eth_rates, fresh, is_fresh, median_rates, walks_before, RateEntry};
use crate::state::{after_claim, after_count, after_initialize, after_request, after_session};
use crate::state::{after_set_dollar_rate, after_vote, claim_error, genesis, payout};
use crate::scale::{lockdrop_bytes, rate_bytes, vote_bytes};
use crate::state::{rate_is_signed, rate_refusal, request_error, request_fits, table_after_report};
use crate::state::{verdict, vote_fits, vote_is_signed, vote_refusal, State};
use crate::types::{AuthorityId, Claim, ClaimId, ClaimVote, DispatchError, Dollars, Event};
use crate::types::{InvalidTransaction, Lockdrop, Moment, Origin, Scheme, TickerRate};
use crate::types::ValidTransaction;

verus! {

/// Something that happens to the lockdrop.
pub enum Step {
    Initialize,
    Request(Origin, ClaimId, Lockdrop),
    Claim(Origin, ClaimId),
    Vote(Origin, ClaimVote),
    SetDollarRate(Origin, Moment, TickerRate<Dollars>),
    Session(Seq<AuthorityId>),
}

/// What a step makes of the state, be it refused or not.
pub open spec fn after_step(s: State, config: Config, step: Step) -> State {
    match step {
        Step::Initialize => after_initialize(s),
        Step::Request(origin, id, params) => if request_error(s, origin, id) is None {
            after_request(s, id, params)
        } else {
            s
        },
        Step::Claim(origin, id) => if claim_error(s, config, origin, id) is None {
            after_claim(s, id)
        } else {
            s
        },
        Step::Vote(origin, vote) => if origin is Unsigned {
            match s.authority(vote.authority) {
                Some(authority) => after_vote(s, vote, authority),
                None => after_count(s, vote),
            }
        } else {
            s
        },
        Step::SetDollarRate(origin, now, rate) => if origin is Unsigned {
            match s.authority(rate.authority) {
                Some(authority) => after_set_dollar_rate(s, config, now, authority, rate),
                None => s,
            }
        } else {
            s
        },
        Step::Session(authorities) => after_session(s, authorities),
    }
}

/// What some steps, one after another, make of the state.
pub open spec fn after_steps(s: State, config: Config, steps: Seq<Step>) -> State
    decreases steps.len(),
{
    if steps.len() == 0 {
        s
    } else {
        after_steps(after_step(s, config, steps[0]), config, steps.drop_first())
    }
}

/// Whether a step pays a claim.
pub open spec fn pays(s: State, config: Config, step: Step, id: ClaimId) -> bool {
    step matches Step::Claim(origin, claimed) && claimed == id && claim_error(
        s,
        config,
        origin,
        id,
    ) is None
}

/// How often some steps pay a claim.
pub open spec fn payouts(s: State, config: Config, steps: Seq<Step>, id: ClaimId) -> nat
    decreases steps.len(),
{
    if steps.len() == 0 {
        0
    } else {
        (if pays(s, config, steps[0], id) {
            1nat
        } else {
            0nat
        }) + payouts(after_step(s, config, steps[0]), config, steps.drop_first(), id)
    }
}

/// A known claim stays known, for what it was and for the amount that was fixed when it was first
/// requested; once paid it stays paid.
pub proof fn law_claims_are_fixed(s: State, config: Config, steps: Seq<Step>, id: ClaimId)
    requires
        s.claims.contains_key(id),
    ensures
        after_steps(s, config, steps).claims.contains_key(id),
        after_steps(s, config, steps).claim(id).params == s.claim(id).params,
        after_steps(s, config, steps).claim(id).amount == s.claim(id).amount,
        s.claim(id).complete ==> after_steps(s, config, steps).claim(id).complete,
    decreases steps.len(),
{
    if steps.len() > 0 {
        law_claims_are_fixed(after_step(s, config, steps[0]), config, steps.drop_first(), id);
    }
}

/// A paid claim is not paid again.
proof fn lemma_paid_is_not_paid_again(s: State, config: Config, steps: Seq<Step>, id: ClaimId)
    requires
        s.claim(id).complete,
    ensures
        payouts(s, config, steps, id) == 0,
    decreases steps.len(),
{
    if steps.len() > 0 {
        lemma_paid_is_not_paid_again(
            after_step(s, config, steps[0]),
            config,
            steps.drop_first(),
            id,
        );
    }
}

/// Whatever happens, a claim is paid at most once, and not at all where it was paid before.
pub proof fn law_a_claim_is_paid_at_most_once(
    s: State,
    config: Config,
    steps: Seq<Step>,
    id: ClaimId,
)
    ensures
        payouts(s, config, steps, id) <= 1,
        s.claim(id).complete ==> payouts(s, config, steps, id) == 0,
    decreases steps.len(),
{
    if s.claim(id).complete {
        lemma_paid_is_not_paid_again(s, config, steps, id);
    } else if steps.len() > 0 {
        let next = after_step(s, config, steps[0]);
        law_a_claim_is_paid_at_most_once(next, config, steps.drop_first(), id);
    }
}

/// The first request of a claim fixes what it is worth: whatever happens later to the dollar rates
/// and to the claim, a payout gives the locking public key what the lock earned when it was first
/// requested.
pub proof fn law_the_first_request_fixes_the_amount(
    s: State,
    config: Config,
    id: ClaimId,
    params: Lockdrop,
    steps: Seq<Step>,
)
    requires
        !s.claims.contains_key(id),
        earned_fits(s.alpha, s.dollar_rate, params),
    ensures
        ({
            let later = after_steps(after_request(s, id, params), config, steps);
            &&& later.claim(id).params == params
            &&& later.claim(id).amount == earned_by(s.alpha, s.dollar_rate, params)
            &&& payout(later, id) == Event::ClaimComplete(
                id,
                params.public_key(),
                earned_by(s.alpha, s.dollar_rate, params) as u128,
            )
        }),
{
    law_claims_are_fixed(after_request(s, id, params), config, steps, id);
}

/// Whether each claim stands under the id of its parameters.
pub open spec fn ids_match(s: State) -> bool {
    forall|id: ClaimId| #[trigger]
        s.claims.contains_key(id) ==> claim_id_of(s.claims[id].params) == id
}

/// Whether every request among some steps comes under the id of its parameters, and every vote has
/// passed the pool when its turn comes.
pub open spec fn are_genuine(s: State, config: Config, steps: Seq<Step>) -> bool
    decreases steps.len(),
{
    steps.len() > 0 ==> {
        &&& is_admitted(s, steps[0])
        &&& steps[0] matches Step::Request(_, id, params) ==> id == claim_id_of(params)
        &&& are_genuine(after_step(s, config, steps[0]), config, steps.drop_first())
    }
}

/// From the start, whatever happens, a claim's id is the hash of its parameters, provided that
/// votes pass the pool and that votes are needed for a payout.
pub proof fn law_ids_are_hashes_of_claims(
    alpha: u32,
    dollar_rate: (Dollars, Dollars),
    config: Config,
    steps: Seq<Step>,
)
    requires
        are_genuine(genesis(alpha, dollar_rate), config, steps),
        config.vote_threshold > 0 || config.positive_votes > 0,
    ensures
        ids_match(after_steps(genesis(alpha, dollar_rate), config, steps)),
{
    lemma_ids_keep_matching(genesis(alpha, dollar_rate), config, steps);
}

proof fn lemma_ids_keep_matching(s: State, config: Config, steps: Seq<Step>)
    requires
        ids_match(s),
        are_genuine(s, config, steps),
        config.vote_threshold > 0 || config.positive_votes > 0,
    ensures
        ids_match(after_steps(s, config, steps)),
    decreases steps.len(),
{
    if steps.len() > 0 {
        let after = after_step(s, config, steps[0]);
        assert forall|id: ClaimId| #[trigger] after.claims.contains_key(id) implies claim_id_of(
            after.claims[id].params,
        ) == id by {
            if s.claims.contains_key(id) {
                assert(after.claims[id].params == s.claims[id].params);
            }
        }
        lemma_ids_keep_matching(after, config, steps.drop_first());
    }
}

/// Once a claim is paid, both a payout and a request of it are refused for good.
pub proof fn law_a_paid_claim_is_closed(
    s: State,
    config: Config,
    steps: Seq<Step>,
    id: ClaimId,
    origin: Origin,
)
    ensures
        ({
            let later = after_steps(after_claim(s, id), config, steps);
            claim_error(later, config, origin, id) is Some && request_error(later, origin, id)
                is Some
        }),
{
    law_claims_are_fixed(after_claim(s, id), config, steps, id);
}

/// A claim is paid to a user who asks for it exactly when it is not paid yet and has enough votes,
/// of which enough more approve than decline; the locking public key then gets the claim's amount.
pub proof fn law_exactly_approved_claims_are_paid(
    s: State,
    config: Config,
    origin: Origin,
    id: ClaimId,
)
    ensures
        claim_error(s, config, origin, id) is None <==> {
            &&& origin is Signed
            &&& !s.claim(id).complete
            &&& s.claim(id).approve + s.claim(id).decline >= config.vote_threshold
            &&& config.positive_votes == 0 || s.claim(id).approve >= s.claim(id).decline
                + config.positive_votes
        },
        payout(s, id) == Event::ClaimComplete(
            id,
            s.claim(id).params.public_key(),
            s.claim(id).amount,
        ),
{
}

/// A claim that nobody requested or voted for is not paid, where votes are needed at all.
pub proof fn law_an_unknown_claim_is_not_paid(
    s: State,
    config: Config,
    origin: Origin,
    id: ClaimId,
)
    requires
        !s.claims.contains_key(id),
        config.vote_threshold > 0 || config.positive_votes > 0,
    ensures
        claim_error(s, config, origin, id) is Some,
{
}

/// A repeated request asks the authorities again, and changes nothing else.
pub proof fn law_a_repeated_request_only_asks_again(s: State, id: ClaimId, params: Lockdrop)
    ensures
        ({
            let once = after_request(s, id, params);
            after_request(once, id, params) == (State { requests: once.requests.push(id), ..once })
        }),
{
}

/// A new block forgets the requests, and nothing else.
pub proof fn law_requests_last_for_a_block(s: State, id: ClaimId, params: Lockdrop)
    ensures
        after_initialize(s).requests.len() == 0,
        after_initialize(s) == (State { requests: Seq::empty(), ..s }),
        after_initialize(after_request(s, id, params)).claims == after_request(
            s,
            id,
            params,
        ).claims,
{
}

/// A vote raises one of the two counters of its claim by one, and changes no other claim, no rate
/// and no list.
pub proof fn law_a_vote_counts_once(s: State, vote: ClaimVote, authority: AuthorityId)
    requires
        vote_fits(s.claim(vote.claim_id), vote.approve),
    ensures
        ({
            let (old, new) = (s.claim(vote.claim_id), after_vote(s, vote, authority).claim(
                vote.claim_id,
            ));
            &&& new.approve + new.decline == old.approve + old.decline + 1
            &&& new.approve == old.approve + (if vote.approve {
                1int
            } else {
                0int
            })
            &&& new.params == old.params && new.amount == old.amount && new.complete
                == old.complete
        }),
        forall|id: ClaimId|
            id != vote.claim_id ==> #[trigger] after_vote(s, vote, authority).claim(id) == s.claim(
                id,
            ),
        after_vote(s, vote, authority).requests == s.requests,
        after_vote(s, vote, authority).keys == s.keys,
        after_vote(s, vote, authority).dollar_rate == s.dollar_rate,
        after_vote(s, vote, authority).dollar_rate_f == s.dollar_rate_f,
{
}

/// That an authority has voted is never forgotten.
proof fn lemma_votes_are_not_forgotten(
    s: State,
    config: Config,
    steps: Seq<Step>,
    note: (AuthorityId, ClaimId),
)
    requires
        s.has_vote.contains(note),
    ensures
        after_steps(s, config, steps).has_vote.contains(note),
    decreases steps.len(),
{
    if steps.len() > 0 {
        lemma_votes_are_not_forgotten(
            after_step(s, config, steps[0]),
            config,
            steps.drop_first(),
            note,
        );
    }
}

/// Once an authority has voted for a claim, the pool refuses each further vote of that authority
/// for that claim, whatever happens in between and whatever the signature.
pub proof fn law_nobody_votes_twice(
    s: State,
    config: Config,
    first: ClaimVote,
    authority: AuthorityId,
    steps: Seq<Step>,
    second: ClaimVote,
    good: bool,
)
    requires
        second.claim_id == first.claim_id,
        after_steps(after_vote(s, first, authority), config, steps).authority(second.authority)
            == Some(authority),
    ensures
        vote_refusal(
            after_steps(after_vote(s, first, authority), config, steps),
            second,
            good,
        ) is Some,
{
    lemma_votes_are_not_forgotten(
        after_vote(s, first, authority),
        config,
        steps,
        (authority, first.claim_id),
    );
}

/// The notes of who has voted for a claim.
pub open spec fn voters(s: State, id: ClaimId) -> Set<(AuthorityId, ClaimId)> {
    s.has_vote.filter(|note: (AuthorityId, ClaimId)| note.1 == id)
}

/// Whether each claim has as many votes as authorities have voted for it.
pub open spec fn votes_add_up(s: State) -> bool {
    &&& s.has_vote.finite()
    &&& forall|id: ClaimId|
        (#[trigger] s.claim(id)).approve + s.claim(id).decline == voters(s, id).len()
}

/// Whether a vote has passed the pool, and there is room for it; nothing is asked of other steps.
pub open spec fn is_admitted(s: State, step: Step) -> bool {
    match step {
        Step::Vote(origin, vote) => origin is Unsigned ==> vote_refusal(s, vote, true) is None
            && vote_fits(s.claim(vote.claim_id), vote.approve),
        _ => true,
    }
}

/// Whether every vote among some steps has passed the pool when its turn comes.
pub open spec fn are_admitted(s: State, config: Config, steps: Seq<Step>) -> bool
    decreases steps.len(),
{
    steps.len() > 0 ==> is_admitted(s, steps[0]) && are_admitted(
        after_step(s, config, steps[0]),
        config,
        steps.drop_first(),
    )
}

/// One step keeps votes and voters equal in number.
proof fn lemma_a_step_adds_up(s: State, config: Config, step: Step)
    requires
        votes_add_up(s),
        is_admitted(s, step),
    ensures
        votes_add_up(after_step(s, config, step)),
{
    let after = after_step(s, config, step);
    match step {
        Step::Vote(origin, vote) if origin is Unsigned => {
            let authority = s.authority(vote.authority)->0;
            let note = (authority, vote.claim_id);
            assert forall|id: ClaimId|
                (#[trigger] after.claim(id)).approve + after.claim(id).decline == voters(
                    after,
                    id,
                ).len() by {
                assert(s.claim(id).approve + s.claim(id).decline == voters(s, id).len());
                s.has_vote.lemma_len_filter(|n: (AuthorityId, ClaimId)| n.1 == id);
                if id == vote.claim_id {
                    assert(voters(after, id) =~= voters(s, id).insert(note));
                    assert(!voters(s, id).contains(note));
                } else {
                    assert(voters(after, id) =~= voters(s, id));
                }
            }
        },
        _ => {
            assert(after.has_vote == s.has_vote);
            assert forall|id: ClaimId|
                (#[trigger] after.claim(id)).approve + after.claim(id).decline == voters(
                    after,
                    id,
                ).len() by {
                assert(s.claim(id).approve + s.claim(id).decline == voters(s, id).len());
            }
        },
    }
}

/// From the start, whatever happens, each claim has exactly as many votes as distinct authorities
/// have voted for it, provided that votes pass the pool.
pub proof fn law_votes_add_up(
    alpha: u32,
    dollar_rate: (Dollars, Dollars),
    config: Config,
    steps: Seq<Step>,
)
    requires
        are_admitted(genesis(alpha, dollar_rate), config, steps),
    ensures
        votes_add_up(after_steps(genesis(alpha, dollar_rate), config, steps)),
{
    let s = genesis(alpha, dollar_rate);
    assert forall|id: ClaimId|
        (#[trigger] s.claim(id)).approve + s.claim(id).decline == voters(s, id).len() by {
        assert(voters(s, id) =~= Set::empty());
    }
    lemma_steps_add_up(s, config, steps);
}

proof fn lemma_steps_add_up(s: State, config: Config, steps: Seq<Step>)
    requires
        votes_add_up(s),
        are_admitted(s, config, steps),
    ensures
        votes_add_up(after_steps(s, config, steps)),
    decreases steps.len(),
{
    if steps.len() > 0 {
        lemma_a_step_adds_up(s, config, steps[0]);
        lemma_steps_add_up(after_step(s, config, steps[0]), config, steps.drop_first());
    }
}

/// Where votes add up, a payout takes as many distinct authorities as the threshold says.
pub proof fn law_a_payout_takes_distinct_authorities(
    s: State,
    config: Config,
    origin: Origin,
    id: ClaimId,
)
    requires
        votes_add_up(s),
        claim_error(s, config, origin, id) is None,
    ensures
        voters(s, id).len() >= config.vote_threshold,
{
    assert(s.claim(id).approve + s.claim(id).decline == voters(s, id).len());
}

/// After a report no expired one is left in the table, the report itself is there unless reports
/// expire at once, and so are the fresh ones of others.
pub proof fn law_the_table_holds_fresh_reports(
    s: State,
    config: Config,
    now: Moment,
    authority: AuthorityId,
    rate: TickerRate<Dollars>,
)
    ensures
        ({
            let table = after_set_dollar_rate(s, config, now, authority, rate).dollar_rate_f;
            let own = RateEntry { authority, time: now, btc: rate.btc, eth: rate.eth };
            &&& forall|i: int|
                0 <= i < table.len() ==> is_fresh(
                    #[trigger] table[i],
                    now,
                    config.median_filter_expire,
                )
            &&& config.median_filter_expire > 0 ==> table.contains(own)
            &&& forall|e: RateEntry| #[trigger]
                s.dollar_rate_f.contains(e) && is_fresh(e, now, config.median_filter_expire)
                    && storage_key_of(e.authority) != storage_key_of(authority) ==> table.contains(
                    e,
                )
        }),
{
    let expire = config.median_filter_expire;
    let test = |e: RateEntry| is_fresh(e, now, expire);
    let own = RateEntry { authority, time: now, btc: rate.btc, eth: rate.eth };
    let smaller = |e: RateEntry| walks_before(e, own);
    let larger = |e: RateEntry| walks_before(own, e);
    let all = table_after_report(s, now, authority, rate);
    let (head, tail) = (s.dollar_rate_f.filter(smaller), s.dollar_rate_f.filter(larger));
    let table = fresh(all, now, expire);
    assert(all == head.push(own) + tail);
    assert forall|i: int| 0 <= i < table.len() implies is_fresh(
        #[trigger] table[i],
        now,
        expire,
    ) by {
        all.lemma_filter_pred(test, i);
    }
    if expire > 0 {
        assert(all[head.len() as int] == own);
        assert(test(own));
        all.lemma_filter_contains(test, head.len() as int);
    }
    assert forall|e: RateEntry| #[trigger]
        s.dollar_rate_f.contains(e) && is_fresh(e, now, expire) && storage_key_of(e.authority)
            != storage_key_of(authority) implies table.contains(e) by {
        let i = choose|i: int| 0 <= i < s.dollar_rate_f.len() && s.dollar_rate_f[i] == e;
        lemma_lex_total(storage_key_of(e.authority), storage_key_of(authority));
        let k = if smaller(e) {
            s.dollar_rate_f.lemma_filter_contains(smaller, i);
            choose|k: int| 0 <= k < head.len() && head[k] == e
        } else {
            s.dollar_rate_f.lemma_filter_contains(larger, i);
            head.len() + 1 + choose|k: int| 0 <= k < tail.len() && tail[k] == e
        };
        assert(all[k] == e);
        assert(test(all[k]));
        all.lemma_filter_contains(test, k);
    }
}

/// A report touches nothing but the table and the pair of rates; where reports expire at once, the
/// pair stays as it is.
pub proof fn law_a_report_touches_only_rates(
    s: State,
    config: Config,
    now: Moment,
    authority: AuthorityId,
    rate: TickerRate<Dollars>,
)
    ensures
        ({
            let after = after_set_dollar_rate(s, config, now, authority, rate);
            &&& after == (State {
                dollar_rate: after.dollar_rate,
                dollar_rate_f: after.dollar_rate_f,
                ..s
            })
            &&& config.median_filter_expire == 0 ==> after.dollar_rate == s.dollar_rate
        }),
{
    law_the_table_holds_fresh_reports(s, config, now, authority, rate);
    let table = after_set_dollar_rate(s, config, now, authority, rate).dollar_rate_f;
    if config.median_filter_expire == 0 && table.len() > 0 {
        assert(is_fresh(table[0], now, config.median_filter_expire));
    }
}

/// Each of the new rates is one that some authority reported, and that has not expired.
pub proof fn law_rates_are_reported_rates(
    s: State,
    config: Config,
    now: Moment,
    authority: AuthorityId,
    rate: TickerRate<Dollars>,
)
    requires
        config.median_filter_expire > 0,
        config.median_filter_width > 0,
    ensures
        ({
            let after = after_set_dollar_rate(s, config, now, authority, rate);
            btc_rates(after.dollar_rate_f).contains(after.dollar_rate.0) && eth_rates(
                after.dollar_rate_f,
            ).contains(after.dollar_rate.1)
        }),
{
    law_the_table_holds_fresh_reports(s, config, now, authority, rate);
    let table = after_set_dollar_rate(s, config, now, authority, rate).dollar_rate_f;
    lemma_filtered_is_given(btc_rates(table), config.median_filter_width as nat);
    lemma_filtered_is_given(eth_rates(table), config.median_filter_width as nat);
}

/// What a filter says is one of the values that it was given.
proof fn lemma_filtered_is_given(values: Seq<u128>, width: nat)
    requires
        values.len() > 0,
        width > 0,
    ensures
        values.contains(lower_median(last_of(values, width))),
{
    let window = last_of(values, width);
    law_median_is_a_given_value(window);
    let i = window.index_of(lower_median(window));
    assert(values[values.len() - window.len() + i] == window[i]);
}

/// Where the filter is wide enough for all reports, a majority decides: as long as more than half
/// of the reports lie between two bounds, so does the new rate.
pub proof fn law_a_majority_bounds_the_rates(
    current: (Dollars, Dollars),
    table: Seq<RateEntry>,
    width: nat,
    low: Dollars,
    high: Dollars,
)
    requires
        table.len() <= width,
    ensures
        2 * count_between(btc_rates(table), low, high) > table.len() ==> low <= median_rates(
            current,
            table,
            width,
        ).0 <= high,
        2 * count_between(eth_rates(table), low, high) > table.len() ==> low <= median_rates(
            current,
            table,
            width,
        ).1 <= high,
{
    if 2 * count_between(btc_rates(table), low, high) > table.len() {
        btc_rates(table).lemma_filter_len(|v: u128| low <= v <= high);
        law_majority_bounds_the_median(btc_rates(table), low, high);
    }
    if 2 * count_between(eth_rates(table), low, high) > table.len() {
        eth_rates(table).lemma_filter_len(|v: u128| low <= v <= high);
        law_majority_bounds_the_median(eth_rates(table), low, high);
    }
}

/// Where the filter is wide enough for all reports, the order of the walk does not matter.
pub proof fn law_the_walk_does_not_matter(
    current: (Dollars, Dollars),
    a: Seq<RateEntry>,
    b: Seq<RateEntry>,
    width: nat,
)
    requires
        a.to_multiset() == b.to_multiset(),
        a.len() <= width,
    ensures
        median_rates(current, a, width) == median_rates(current, b, width),
{
    a.to_multiset_ensures();
    b.to_multiset_ensures();
    assert(a.len() == a.to_multiset().len() && b.len() == b.to_multiset().len());
    lemma_map_keeps_multiset(a, b, |e: RateEntry| e.btc);
    lemma_map_keeps_multiset(a, b, |e: RateEntry| e.eth);
    law_median_ignores_order(btc_rates(a), btc_rates(b));
    law_median_ignores_order(eth_rates(a), eth_rates(b));
}

/// Picking a rate out of each report does not depend on the order of the reports.
proof fn lemma_map_keeps_multiset(
    a: Seq<RateEntry>,
    b: Seq<RateEntry>,
    pick: spec_fn(RateEntry) -> u128,
)
    requires
        a.to_multiset() == b.to_multiset(),
    ensures
        a.map_values(pick).to_multiset() == b.map_values(pick).to_multiset(),
    decreases a.len(),
{
    broadcast use vstd::multiset::group_multiset_axioms;

    a.to_multiset_ensures();
    b.to_multiset_ensures();
    assert(a.len() == a.to_multiset().len());
    assert(b.len() == b.to_multiset().len());
    if a.len() > 0 {
        let last = a.len() - 1;
        assert(a.to_multiset().contains(a[last]));
        assert(b.contains(a[last]));
        let i = choose|i: int| 0 <= i < b.len() && b[i] == a[last];
        lemma_map_keeps_multiset(a.remove(last), b.remove(i), pick);
        let (picked_a, picked_b) = (a.map_values(pick), b.map_values(pick));
        assert(a.remove(last).map_values(pick) =~= picked_a.remove(last));
        assert(b.remove(i).map_values(pick) =~= picked_b.remove(i));
        picked_a.to_multiset_ensures();
        picked_b.to_multiset_ensures();
        let value = pick(a[last]);
        assert(picked_a[last] == value && picked_b[i] == value);
        assert(picked_a.to_multiset().count(value) > 0) by {
            assert(picked_a.contains(value));
        }
        assert(picked_b.to_multiset().count(value) > 0) by {
            assert(picked_b.contains(value));
        }
        assert(picked_a.to_multiset() =~= picked_a.to_multiset().remove(value).insert(value));
        assert(picked_b.to_multiset() =~= picked_b.to_multiset().remove(value).insert(value));
    } else {
        assert(a =~= b);
    }
}

/// A report stays in the table exactly as long as the chain's setting says: a report of another
/// authority is there after a report of now if and only if less time has passed since than reports
/// are valid for; no time has passed since a report from the future.
pub proof fn law_reports_stay_while_they_are_valid(
    s: State,
    config: Config,
    now: Moment,
    authority: AuthorityId,
    rate: TickerRate<Dollars>,
    e: RateEntry,
)
    requires
        storage_key_of(e.authority) != storage_key_of(authority),
    ensures
        ({
            let table = after_set_dollar_rate(s, config, now, authority, rate).dollar_rate_f;
            &&& e.time <= now ==> (table.contains(e) <==> s.dollar_rate_f.contains(e) && now
                - e.time < config.median_filter_expire)
            &&& e.time > now ==> (table.contains(e) <==> s.dollar_rate_f.contains(e)
                && config.median_filter_expire > 0)
        }),
{
    law_the_table_holds_fresh_reports(s, config, now, authority, rate);
    let table = after_set_dollar_rate(s, config, now, authority, rate).dollar_rate_f;
    if table.contains(e) {
        lemma_reports_come_from_somewhere(s, config, now, authority, rate, e);
        let i = choose|i: int| 0 <= i < table.len() && table[i] == e;
        assert(is_fresh(table[i], now, config.median_filter_expire));
    }
}

/// What is in the table after a report was there before, or is that report.
proof fn lemma_reports_come_from_somewhere(
    s: State,
    config: Config,
    now: Moment,
    authority: AuthorityId,
    rate: TickerRate<Dollars>,
    e: RateEntry,
)
    requires
        after_set_dollar_rate(s, config, now, authority, rate).dollar_rate_f.contains(e),
    ensures
        s.dollar_rate_f.contains(e) && storage_key_of(e.authority) != storage_key_of(authority)
            || e == (RateEntry { authority, time: now, btc: rate.btc, eth: rate.eth }),
{
    let own = RateEntry { authority, time: now, btc: rate.btc, eth: rate.eth };
    let test = |e: RateEntry| is_fresh(e, now, config.median_filter_expire);
    let smaller = |e: RateEntry| walks_before(e, own);
    let larger = |e: RateEntry| walks_before(own, e);
    let all = table_after_report(s, now, authority, rate);
    let (head, tail) = (s.dollar_rate_f.filter(smaller), s.dollar_rate_f.filter(larger));
    all.lemma_filter_contains_rev(test, e);
    let k = choose|k: int| 0 <= k < all.len() && all[k] == e;
    lemma_lex_irreflexive(storage_key_of(authority));
    if k < head.len() {
        assert(head.contains(head[k]));
        s.dollar_rate_f.lemma_filter_contains_rev(smaller, e);
        s.dollar_rate_f.lemma_filter_pred(smaller, k);
    } else if k > head.len() {
        let t = k - head.len() - 1;
        assert(tail[t] == e);
        assert(tail.contains(tail[t]));
        s.dollar_rate_f.lemma_filter_contains_rev(larger, e);
        s.dollar_rate_f.lemma_filter_pred(larger, t);
    }
}

/// A report takes the place of what the same authority reported before: after it, the authority has
/// that report in the table and no other.
pub proof fn law_a_report_replaces_the_last_one(
    s: State,
    config: Config,
    now: Moment,
    authority: AuthorityId,
    rate: TickerRate<Dollars>,
    e: RateEntry,
)
    requires
        e.authority == authority,
    ensures
        after_set_dollar_rate(s, config, now, authority, rate).dollar_rate_f.contains(e) <==> {
            &&& config.median_filter_expire > 0
            &&& e.time == now && e.btc == rate.btc && e.eth == rate.eth
        },
{
    law_the_table_holds_fresh_reports(s, config, now, authority, rate);
    let table = after_set_dollar_rate(s, config, now, authority, rate).dollar_rate_f;
    if table.contains(e) {
        lemma_reports_come_from_somewhere(s, config, now, authority, rate, e);
        let i = choose|i: int| 0 <= i < table.len() && table[i] == e;
        assert(is_fresh(table[i], now, config.median_filter_expire));
    }
}

/// The new rates are medians of what is in the table after the report, of as many reports from its
/// end as the filter is wide: fewer than half of them are smaller, at least half are no larger, and
/// one of them is just that rate.
pub proof fn law_the_new_rates_are_medians(
    s: State,
    config: Config,
    now: Moment,
    authority: AuthorityId,
    rate: TickerRate<Dollars>,
)
    requires
        config.median_filter_expire > 0,
        config.median_filter_width > 0,
    ensures
        ({
            let after = after_set_dollar_rate(s, config, now, authority, rate);
            let (table, width) = (after.dollar_rate_f, config.median_filter_width);
            let window = if table.len() <= width {
                table
            } else {
                table.skip(table.len() - width)
            };
            let (btc, eth) = after.dollar_rate;
            &&& btc_rates(window).contains(btc)
            &&& 2 * count_between(btc_rates(window), 0, btc) >= window.len()
            &&& btc > 0 ==> 2 * count_between(btc_rates(window), 0, (btc - 1) as u128)
                < window.len()
            &&& eth_rates(window).contains(eth)
            &&& 2 * count_between(eth_rates(window), 0, eth) >= window.len()
            &&& eth > 0 ==> 2 * count_between(eth_rates(window), 0, (eth - 1) as u128)
                < window.len()
        }),
{
    law_the_table_holds_fresh_reports(s, config, now, authority, rate);
    let after = after_set_dollar_rate(s, config, now, authority, rate);
    let (table, width) = (after.dollar_rate_f, config.median_filter_width);
    let own = RateEntry { authority, time: now, btc: rate.btc, eth: rate.eth };
    assert(table.contains(own));
    let window = if table.len() <= width {
        table
    } else {
        table.skip(table.len() - width)
    };
    assert(last_of(btc_rates(table), width as nat) =~= btc_rates(window));
    assert(last_of(eth_rates(table), width as nat) =~= eth_rates(window));
    law_median_is_a_given_value(btc_rates(window));
    law_median_is_a_given_value(eth_rates(window));
    law_the_median_splits_the_values(btc_rates(window));
    law_the_median_splits_the_values(eth_rates(window));
}

/// At the start nothing is requested, claimed, voted or reported, and the parameters are those that
/// were given.
pub proof fn law_the_start_is_empty(alpha: u32, dollar_rate: (Dollars, Dollars), id: ClaimId)
    ensures
        genesis(alpha, dollar_rate).requests.len() == 0,
        genesis(alpha, dollar_rate).keys.len() == 0,
        !genesis(alpha, dollar_rate).claims.contains_key(id),
        genesis(alpha, dollar_rate).has_vote == Set::<(AuthorityId, ClaimId)>::empty(),
        genesis(alpha, dollar_rate).dollar_rate_f.len() == 0,
        genesis(alpha, dollar_rate).alpha == alpha,
        genesis(alpha, dollar_rate).dollar_rate == dollar_rate,
{
}

/// A known claim is found as it was entered; an unknown one is worth nothing, has no votes, is not
/// paid and belongs to the key of zeros.
pub proof fn law_claims_are_found(s: State, id: ClaimId, i: int)
    ensures
        s.claims.contains_key(id) ==> s.claim(id) == s.claims[id],
        !s.claims.contains_key(id) ==> {
            let claim = s.claim(id);
            &&& claim.approve == 0 && claim.decline == 0 && claim.amount == 0 && !claim.complete
            &&& claim.params matches Lockdrop::Bitcoin {
                public,
                value,
                duration,
                transaction_hash,
            } && value == 0 && duration == 0 && (0 <= i < 33 ==> public[i] == 0) && (0 <= i < 32
                ==> transaction_hash[i] == 0)
        },
{
}

/// An index leads to the authority at its place in the list, and to nobody beyond the end.
pub proof fn law_authorities_stand_at_their_index(s: State, index: u16, authority: AuthorityId)
    ensures
        s.authority(index) == Some(authority) <==> index < s.keys.len() && s.keys[index as int]
            == authority,
        s.authority(index) is None <==> index >= s.keys.len(),
{
}

/// Why a request is refused: nobody signed it, or the claim is paid; and when it is not.
pub proof fn law_why_requests_are_refused(s: State, origin: Origin, id: ClaimId)
    ensures
        request_error(s, origin, id) == Some(DispatchError::BadOrigin) <==> !(origin is Signed),
        request_error(s, origin, id) == Some(DispatchError::RequestAlreadyPaid) <==> origin
            is Signed && s.claim(id).complete,
        request_error(s, origin, id) is None <==> origin is Signed && !s.claim(id).complete,
{
}

/// Why a payout is refused: nobody signed it, the claim is paid, it has too few votes, or too few
/// more approve than decline.
pub proof fn law_why_payouts_are_refused(
    s: State,
    config: Config,
    origin: Origin,
    id: ClaimId,
)
    ensures
        ({
            let (claim, error) = (s.claim(id), claim_error(s, config, origin, id));
            let voted = claim.approve + claim.decline >= config.vote_threshold;
            let approved = config.positive_votes == 0 || claim.approve - claim.decline
                >= config.positive_votes;
            let open = origin is Signed && !claim.complete;
            &&& error == Some(DispatchError::BadOrigin) <==> !(origin is Signed)
            &&& error == Some(DispatchError::ClaimAlreadyPaid) <==> origin is Signed
                && claim.complete
            &&& error == Some(DispatchError::NotEnoughVotes) <==> open && !voted
            &&& error == Some(DispatchError::NotApproved) <==> open && voted && !approved
            &&& error is None <==> open && voted && approved
        }),
{
}

/// A request asks the authorities to check its claim, after those asked for before. Where the claim
/// is new, it is entered for the lock that was requested, with no votes, for what that lock earns,
/// and not paid; a known claim stays as it is. Nothing else changes.
pub proof fn law_a_request_enters_one_open_claim(
    s: State,
    id: ClaimId,
    params: Lockdrop,
    other: ClaimId,
)
    requires
        other != id,
    ensures
        ({
            let after = after_request(s, id, params);
            &&& after.requests.len() == s.requests.len() + 1
            &&& after.requests.last() == id
            &&& after.requests.drop_last() == s.requests
            &&& after.claims.contains_key(id)
            &&& s.claims.contains_key(id) ==> after.claims[id] == s.claims[id]
            &&& !s.claims.contains_key(id) ==> {
                &&& after.claims[id].params == params
                &&& after.claims[id].approve == 0
                &&& after.claims[id].decline == 0
                &&& earned_fits(s.alpha, s.dollar_rate, params) ==> after.claims[id].amount
                    == earned_by(s.alpha, s.dollar_rate, params)
                &&& !after.claims[id].complete
            }
            &&& after.claims.contains_key(other) == s.claims.contains_key(other)
            &&& after.claim(other) == s.claim(other)
            &&& after.keys == s.keys && after.has_vote == s.has_vote && after.alpha == s.alpha
            &&& after.dollar_rate == s.dollar_rate && after.dollar_rate_f == s.dollar_rate_f
        }),
{
    assert(s.requests.push(id).drop_last() =~= s.requests);
}

/// A request needs an amount that fits only where a signed request enters a new claim; a vote needs
/// room in the counter that it raises, and in no other.
pub proof fn law_what_has_to_fit(
    s: State,
    origin: Origin,
    id: ClaimId,
    params: Lockdrop,
    claim: Claim,
    approve: bool,
)
    ensures
        !(origin is Signed) || s.claims.contains_key(id) ==> request_fits(s, origin, id, params),
        origin is Signed && !s.claims.contains_key(id) ==> (request_fits(s, origin, id, params)
            <==> earned_fits(s.alpha, s.dollar_rate, params)),
        approve ==> (vote_fits(claim, approve) <==> claim.approve < 0xffff_ffff),
        !approve ==> (vote_fits(claim, approve) <==> claim.decline < 0xffff_ffff),
{
}

/// Only a payout completes a claim: a step after which a claim is paid that was not paid before is
/// a signed payout of that claim, with enough votes of which enough more approve than decline.
pub proof fn law_only_a_payout_completes_a_claim(
    s: State,
    config: Config,
    step: Step,
    id: ClaimId,
)
    requires
        !s.claim(id).complete,
        after_step(s, config, step).claim(id).complete,
    ensures
        step matches Step::Claim(origin, claimed) && origin is Signed && claimed == id,
        s.claim(id).approve + s.claim(id).decline >= config.vote_threshold,
        config.positive_votes == 0 || s.claim(id).approve - s.claim(id).decline
            >= config.positive_votes,
{
}

/// A payout marks its claim as paid, and changes nothing else.
pub proof fn law_a_payout_marks_one_claim(s: State, id: ClaimId, other: ClaimId)
    requires
        other != id,
    ensures
        ({
            let (before, after) = (s.claim(id), after_claim(s, id));
            &&& after.claims.contains_key(id)
            &&& after.claims[id].complete
            &&& after.claims[id].params == before.params
            &&& after.claims[id].amount == before.amount
            &&& after.claims[id].approve == before.approve
            &&& after.claims[id].decline == before.decline
            &&& after.claims.contains_key(other) == s.claims.contains_key(other)
            &&& after.claim(other) == s.claim(other)
            &&& after.requests == s.requests && after.keys == s.keys
            &&& after.has_vote == s.has_vote && after.alpha == s.alpha
            &&& after.dollar_rate == s.dollar_rate && after.dollar_rate_f == s.dollar_rate_f
        }),
{
}

/// A payout goes to the public key that is in the parameters of the claim, of either chain.
pub proof fn law_the_locking_key_is_paid(
    s: State,
    id: ClaimId,
    public: [u8; 33],
    value: u64,
    duration: u64,
    transaction_hash: [u8; 32],
)
    requires
        s.claim(id).params == (Lockdrop::Bitcoin { public, value, duration, transaction_hash })
            || s.claim(id).params == (Lockdrop::Ethereum {
            public,
            value,
            duration,
            transaction_hash,
        }),
    ensures
        payout(s, id) == Event::ClaimComplete(id, public, s.claim(id).amount),
{
}

/// Whether some steps are unsigned approving votes for one claim.
pub open spec fn all_approve(steps: Seq<Step>, id: ClaimId) -> bool {
    forall|i: int|
        0 <= i < steps.len() ==> (#[trigger] steps[i] matches Step::Vote(origin, vote) && origin
            is Unsigned && vote.claim_id == id && vote.approve)
}

/// A lock that is requested for the first time and then approved by enough votes is paid: whoever
/// asks for it gets its locking public key what the lock earned.
pub proof fn law_an_approved_lock_is_paid(
    s: State,
    config: Config,
    id: ClaimId,
    params: Lockdrop,
    votes: Seq<Step>,
    origin: Origin,
)
    requires
        !s.claims.contains_key(id),
        earned_fits(s.alpha, s.dollar_rate, params),
        all_approve(votes, id),
        config.vote_threshold <= votes.len() <= u32::MAX,
        config.positive_votes <= votes.len(),
        origin is Signed,
    ensures
        ({
            let later = after_steps(after_request(s, id, params), config, votes);
            &&& claim_error(later, config, origin, id) is None
            &&& payout(later, id) matches Event::ClaimComplete(paid, public, amount) && paid == id
                && amount == earned_by(s.alpha, s.dollar_rate, params) && (params matches
                Lockdrop::Bitcoin { public: own, .. } ==> public == own) && (params matches
                Lockdrop::Ethereum { public: own, .. } ==> public == own)
        }),
{
    law_the_first_request_fixes_the_amount(s, config, id, params, votes);
    lemma_approvals_add_up(after_request(s, id, params), config, id, votes);
}

/// Approving votes are counted, one by one.
proof fn lemma_approvals_add_up(s: State, config: Config, id: ClaimId, votes: Seq<Step>)
    requires
        all_approve(votes, id),
        s.claims.contains_key(id),
        s.claim(id).approve + votes.len() <= u32::MAX,
    ensures
        after_steps(s, config, votes).claim(id).approve == s.claim(id).approve + votes.len(),
        after_steps(s, config, votes).claim(id).decline == s.claim(id).decline,
        after_steps(s, config, votes).claim(id).complete == s.claim(id).complete,
    decreases votes.len(),
{
    if votes.len() > 0 {
        let rest = votes.drop_first();
        let after = after_step(s, config, votes[0]);
        assert(votes[0] matches Step::Vote(origin, vote) && origin is Unsigned && vote.claim_id
            == id && vote.approve);
        assert forall|i: int| 0 <= i < rest.len() implies (#[trigger] rest[i] matches Step::Vote(
            origin,
            vote,
        ) && origin is Unsigned && vote.claim_id == id && vote.approve) by {
            assert(rest[i] == votes[i + 1]);
        }
        lemma_approvals_add_up(after, config, id, rest);
    }
}

/// A vote of an authority is noted under that authority and that claim, and nothing else is; one
/// that leads to nobody is counted in the same way and noted nowhere.
pub proof fn law_votes_are_noted(
    s: State,
    vote: ClaimVote,
    authority: AuthorityId,
    note: (AuthorityId, ClaimId),
)
    requires
        vote_fits(s.claim(vote.claim_id), vote.approve),
    ensures
        ({
            let after = after_vote(s, vote, authority);
            let (old, new) = (s.claim(vote.claim_id), after.claim(vote.claim_id));
            &&& after.has_vote.contains(note) <==> s.has_vote.contains(note) || note.0 == authority
                && note.1 == vote.claim_id
            &&& after.claims.contains_key(vote.claim_id)
            &&& new.approve - old.approve == (if vote.approve {
                1int
            } else {
                0int
            })
            &&& new.decline - old.decline == (if vote.approve {
                0int
            } else {
                1int
            })
            &&& new.params == old.params && new.amount == old.amount && new.complete
                == old.complete
            &&& after.alpha == s.alpha
            &&& after_count(s, vote).claims == after.claims
            &&& after_count(s, vote).has_vote == s.has_vote
            &&& after_count(s, vote).requests == s.requests && after_count(s, vote).keys == s.keys
            &&& after_count(s, vote).alpha == s.alpha
            &&& after_count(s, vote).dollar_rate == s.dollar_rate
            &&& after_count(s, vote).dollar_rate_f == s.dollar_rate_f
        }),
        forall|id: ClaimId|
            id != vote.claim_id ==> (#[trigger] after_vote(s, vote, authority).claims.contains_key(
                id,
            ) <==> s.claims.contains_key(id)),
{
}

/// A session puts its authorities in place of the list, and changes nothing else.
pub proof fn law_a_session_replaces_the_authorities(s: State, authorities: Seq<AuthorityId>)
    ensures
        ({
            let after = after_session(s, authorities);
            &&& after.keys == authorities
            &&& after.requests == s.requests && after.claims == s.claims
            &&& after.has_vote == s.has_vote && after.alpha == s.alpha
            &&& after.dollar_rate == s.dollar_rate && after.dollar_rate_f == s.dollar_rate_f
        }),
{
}

/// Why the pool refuses a vote: the claim is unknown, nobody stands at the index, the signature is
/// not good, or the authority has voted for the claim; and when it does not.
pub proof fn law_why_votes_are_refused(s: State, vote: ClaimVote, good: bool)
    ensures
        ({
            let refusal = vote_refusal(s, vote, good);
            let known = s.claims.contains_key(vote.claim_id);
            let listed = vote.authority < s.keys.len();
            let voted = s.has_vote.contains((s.keys[vote.authority as int], vote.claim_id));
            &&& refusal == Some(InvalidTransaction::Call) <==> !known || listed && good && voted
            &&& refusal == Some(InvalidTransaction::BadProof) <==> known && !(listed && good)
            &&& refusal is None <==> known && listed && good && !voted
        }),
{
}

/// Why the pool refuses a dollar rate: nobody stands at the index, or the signature is not good.
pub proof fn law_why_rates_are_refused(s: State, rate: TickerRate<Dollars>, good: bool)
    ensures
        rate_refusal(s, rate, good) is None <==> rate.authority < s.keys.len() && good,
        rate_refusal(s, rate, good) is Some ==> rate_refusal(s, rate, good) == Some(
            InvalidTransaction::BadProof,
        ),
{
}

/// A vote or a dollar rate is signed exactly when the chain's scheme accepts the signature of its
/// encoding by the authority at its index.
pub proof fn law_signatures_are_those_of_the_authority(
    s: State,
    config: Config,
    vote: ClaimVote,
    rate: TickerRate<Dollars>,
    signature: [u8; 64],
)
    ensures
        vote_is_signed(s, config, vote, signature) <==> vote.authority < s.keys.len() && (
        match config.authority_scheme {
            Scheme::Sr25519 => sr25519_accepts(
                signature@,
                vote_bytes(vote),
                s.keys[vote.authority as int]@,
            ),
            Scheme::Ed25519 => ed25519_accepts(
                signature@,
                vote_bytes(vote),
                s.keys[vote.authority as int]@,
            ),
        }),
        rate_is_signed(s, config, rate, signature) <==> rate.authority < s.keys.len() && (
        match config.authority_scheme {
            Scheme::Sr25519 => sr25519_accepts(
                signature@,
                rate_bytes(rate),
                s.keys[rate.authority as int]@,
            ),
            Scheme::Ed25519 => ed25519_accepts(
                signature@,
                rate_bytes(rate),
                s.keys[rate.authority as int]@,
            ),
        }),
{
}

/// What the pool lets in has the highest priority, waits for nothing, excludes what has the same
/// encoding and nothing else, is good for sixty-four blocks and is passed on; what it refuses is
/// refused for the reason.
pub proof fn law_what_the_pool_answers(
    result: Result<ValidTransaction, InvalidTransaction>,
    refusal: Option<InvalidTransaction>,
    tag: Seq<u8>,
)
    requires
        verdict(result, refusal, tag),
    ensures
        refusal is None <==> result is Ok,
        refusal matches Some(reason) ==> result->Err_0 == reason,
        result matches Ok(valid) ==> valid.priority == 0xffff_ffff_ffff_ffff
            && valid.requires_tags@.len() == 0 && valid.provides@.len() == 1
            && valid.provides@[0]@ == tag && valid.longevity == 64 && valid.propagate,
{
}

/// Claims and authorities are hashed as they are encoded: a claim's id is the hash of its encoding,
/// and the place of an authority in a walk is that of its bytes.
pub proof fn law_what_is_hashed(params: Lockdrop, authority: AuthorityId)
    ensures
        claim_id_of(params) == blake_two_256_of(lockdrop_bytes(params)),
        storage_key_of(authority) == blake2_128_concat_of(authority@),
{
}

} // verus!
