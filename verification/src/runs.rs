//! Whole runs of the offchain worker: what is sent, and how they end.

use vstd::prelude::*;
use crate::config::Config;
use crate::json::{fetched, JsonView, ResponseView};
use crate::lock::is_locked;
use crate::state::State;
use crate::ticker::{law_rates_fit, rate_in};
use crate::types::{AuthorityId, AuthoritySignature, Call, ClaimId};
use crate::worker::{authorities_among, law_ballots_say_what_was_found, law_index_leads_to_the_key};
use crate::worker::{law_the_verdict_is_that_of_the_check, law_what_tickers_give};
use crate::worker::{awaits, btc_ticker_of, call_of, eth_ticker_of, going_on, lock_verdict, next};
use crate::worker::{rate_ballots_of, started, stopped, vote_ballots_of, ActionView, Ballot};
use crate::worker::{InputView, WorkerErrorView, WorkerView};

verus! {

/// Whether a worker waits for each of some inputs when its turn comes.
pub open spec fn are_awaited(
    w: WorkerView,
    s: State,
    config: Config,
    inputs: Seq<InputView>,
) -> bool
    decreases inputs.len(),
{
    inputs.len() > 0 ==> awaits(w.phase, inputs[0]) && are_awaited(
        next(w, s, config, inputs[0]).0,
        s,
        config,
        inputs.drop_first(),
    )
}

/// The calls that a worker submits on some inputs, one after another.
pub open spec fn sent(w: WorkerView, s: State, config: Config, inputs: Seq<InputView>) -> Seq<Call>
    decreases inputs.len(),
{
    if inputs.len() == 0 {
        Seq::empty()
    } else {
        let (after, action) = next(w, s, config, inputs[0]);
        (match action {
            ActionView::Submit(call) => seq![call],
            _ => Seq::empty(),
        }) + sent(after, s, config, inputs.drop_first())
    }
}

/// Where some inputs, one after another, lead a worker, and its last action.
pub open spec fn led_to(
    from: (WorkerView, ActionView),
    s: State,
    config: Config,
    inputs: Seq<InputView>,
) -> (WorkerView, ActionView)
    decreases inputs.len(),
{
    if inputs.len() == 0 {
        from
    } else {
        led_to(next(from.0, s, config, inputs[0]), s, config, inputs.drop_first())
    }
}

/// What happens on some inputs and then some more happens part by part.
proof fn lemma_in_parts(
    from: (WorkerView, ActionView),
    s: State,
    config: Config,
    a: Seq<InputView>,
    b: Seq<InputView>,
)
    ensures
        led_to(from, s, config, a + b) == led_to(led_to(from, s, config, a), s, config, b),
        sent(from.0, s, config, a + b) == sent(from.0, s, config, a) + sent(
            led_to(from, s, config, a).0,
            s,
            config,
            b,
        ),
        are_awaited(from.0, s, config, a + b) == (are_awaited(from.0, s, config, a) && are_awaited(
            led_to(from, s, config, a).0,
            s,
            config,
            b,
        )),
    decreases a.len(),
{
    if a.len() == 0 {
        assert(a + b =~= b);
        assert(sent(from.0, s, config, a) + sent(from.0, s, config, b) =~= sent(
            from.0,
            s,
            config,
            b,
        ));
    } else {
        let after = next(from.0, s, config, a[0]);
        assert((a + b).drop_first() =~= a.drop_first() + b);
        assert((a + b)[0] == a[0]);
        lemma_in_parts(after, s, config, a.drop_first(), b);
        assert(sent(from.0, s, config, a + b) =~= sent(from.0, s, config, a) + sent(
            led_to(from, s, config, a).0,
            s,
            config,
            b,
        ));
    }
}

/// What happens on one input.
proof fn lemma_one_input(
    from: (WorkerView, ActionView),
    s: State,
    config: Config,
    input: InputView,
)
    ensures
        led_to(from, s, config, seq![input]) == next(from.0, s, config, input),
        !(next(from.0, s, config, input).1 is Submit) ==> sent(from.0, s, config, seq![input])
            == Seq::<Call>::empty(),
        next(from.0, s, config, input).1 matches ActionView::Submit(call) ==> sent(
            from.0,
            s,
            config,
            seq![input],
        ) == seq![call],
        are_awaited(from.0, s, config, seq![input]) == awaits(from.0.phase, input),
{
    let inputs = seq![input];
    let after = next(from.0, s, config, input);
    assert(inputs.drop_first() =~= Seq::empty());
    assert(led_to(after, s, config, inputs.drop_first()) == after);
    assert(sent(after.0, s, config, inputs.drop_first()) =~= Seq::empty());
    assert(sent(from.0, s, config, inputs) =~= (match after.1 {
        ActionView::Submit(call) => seq![call],
        _ => Seq::empty(),
    }));
    assert(are_awaited(after.0, s, config, inputs.drop_first()));
}

/// Signatures that come in one after another, each followed by word that the call was submitted.
pub open spec fn signed_one_by_one(signatures: Seq<AuthoritySignature>) -> Seq<InputView>
    decreases signatures.len(),
{
    if signatures.len() == 0 {
        Seq::empty()
    } else {
        seq![InputView::Signed(Some(signatures[0]))] + seq![InputView::Submitted]
            + signed_one_by_one(signatures.drop_first())
    }
}

/// The calls that bring the first few of some ballots to the chain, as many as are signed.
pub open spec fn calls_of(ballots: Seq<Ballot>, signatures: Seq<AuthoritySignature>) -> Seq<Call> {
    Seq::new(signatures.len(), |i: int| call_of(ballots[i].message, signatures[i]))
}

/// As many ballots as are signed are submitted, each with its signature, in order; then the worker
/// goes on with what is left.
pub proof fn law_every_signed_ballot_is_sent(
    s: State,
    config: Config,
    requests: Seq<ClaimId>,
    ballots: Seq<Ballot>,
    signatures: Seq<AuthoritySignature>,
)
    requires
        signatures.len() <= ballots.len(),
    ensures
        ({
            let from = going_on(s, config, requests, ballots);
            let inputs = signed_one_by_one(signatures);
            &&& are_awaited(from.0, s, config, inputs)
            &&& sent(from.0, s, config, inputs) == calls_of(ballots, signatures)
            &&& led_to(from, s, config, inputs) == going_on(
                s,
                config,
                requests,
                ballots.skip(signatures.len() as int),
            )
        }),
    decreases signatures.len(),
{
    let from = going_on(s, config, requests, ballots);
    if signatures.len() == 0 {
        assert(ballots.skip(0) =~= ballots);
        assert(calls_of(ballots, signatures) =~= Seq::empty());
    } else {
        let (signed, submitted) = (
            seq![InputView::Signed(Some(signatures[0]))],
            seq![InputView::Submitted],
        );
        let (fewer, rest) = (ballots.drop_first(), signatures.drop_first());
        let submitting = next(from.0, s, config, signed[0]);
        let after = next(submitting.0, s, config, submitted[0]);
        lemma_one_input(from, s, config, signed[0]);
        lemma_one_input(submitting, s, config, submitted[0]);
        lemma_in_parts(from, s, config, signed, submitted);
        lemma_in_parts(from, s, config, signed + submitted, signed_one_by_one(rest));
        assert(after == going_on(s, config, requests, fewer));
        law_every_signed_ballot_is_sent(s, config, requests, fewer, rest);
        assert(fewer.skip(rest.len() as int) =~= ballots.skip(signatures.len() as int));
        assert(calls_of(ballots, signatures) =~= seq![call_of(ballots[0].message, signatures[0])]
            + Seq::empty() + calls_of(fewer, rest));
    }
}

/// What comes in at the beginning of a run: the prices, the local keys, and signatures.
pub struct Opening {
    pub btc: ResponseView,
    pub eth: ResponseView,
    pub local: Seq<AuthorityId>,
    pub signatures: Seq<AuthoritySignature>,
}

impl Opening {
    /// Whether both prices are read.
    pub open spec fn has_prices(self) -> bool {
        btc_ticker_of(self.btc) is Ok && eth_ticker_of(self.eth) is Ok
    }

    /// The reports of the rates that local authorities have to sign.
    pub open spec fn ballots(self, s: State) -> Seq<Ballot> {
        rate_ballots_of(
            s.keys,
            self.local,
            btc_ticker_of(self.btc)->Ok_0 as u64,
            eth_ticker_of(self.eth)->Ok_0 as u64,
        )
    }

    /// Whether both prices are read and every report is signed.
    pub open spec fn is_complete(self, s: State) -> bool {
        self.has_prices() && self.signatures.len() == self.ballots(s).len()
    }

    /// The inputs, one after another.
    pub open spec fn inputs(self) -> Seq<InputView> {
        seq![InputView::Fetched(self.btc)] + seq![InputView::Fetched(self.eth)] + seq![
            InputView::Keys(self.local),
        ] + signed_one_by_one(self.signatures)
    }

    /// The reports that are submitted.
    pub open spec fn calls(self, s: State) -> Seq<Call> {
        calls_of(self.ballots(s), self.signatures)
    }
}

/// What comes in for one claim: the locking transaction and what it has to show, the local keys,
/// and signatures.
pub struct Round {
    pub response: ResponseView,
    pub script: Seq<u8>,
    pub sender: JsonView,
    pub local: Seq<AuthorityId>,
    pub signatures: Seq<AuthoritySignature>,
}

impl Round {
    /// What the transaction says of the claim.
    pub open spec fn verdict(self, s: State, config: Config, id: ClaimId) -> Result<
        bool,
        WorkerErrorView,
    > {
        lock_verdict(s, config, id, self.response, self.script, self.sender)
    }

    /// The votes that local authorities have to sign.
    pub open spec fn ballots(self, s: State, config: Config, id: ClaimId) -> Seq<Ballot> {
        vote_ballots_of(s.keys, self.local, id, self.verdict(s, config, id)->Ok_0)
    }

    /// Whether the claim is checked and every vote is signed.
    pub open spec fn is_complete(self, s: State, config: Config, id: ClaimId) -> bool {
        self.verdict(s, config, id) is Ok && self.signatures.len() == self.ballots(
            s,
            config,
            id,
        ).len()
    }

    /// The inputs, one after another.
    pub open spec fn inputs(self) -> Seq<InputView> {
        seq![InputView::LockFetched(self.response, self.script, self.sender)] + seq![
            InputView::Keys(self.local),
        ] + signed_one_by_one(self.signatures)
    }

    /// The votes that are submitted.
    pub open spec fn calls(self, s: State, config: Config, id: ClaimId) -> Seq<Call> {
        calls_of(self.ballots(s, config, id), self.signatures)
    }
}

/// Whether some rounds, for the first few of some claims, are complete.
pub open spec fn are_complete(
    s: State,
    config: Config,
    ids: Seq<ClaimId>,
    rounds: Seq<Round>,
) -> bool {
    &&& rounds.len() <= ids.len()
    &&& forall|i: int|
        0 <= i < rounds.len() ==> (#[trigger] rounds[i]).is_complete(s, config, ids[i])
}

/// The inputs of some rounds, one after another.
pub open spec fn inputs_of(rounds: Seq<Round>) -> Seq<InputView>
    decreases rounds.len(),
{
    if rounds.len() == 0 {
        Seq::empty()
    } else {
        rounds[0].inputs() + inputs_of(rounds.drop_first())
    }
}

/// The votes that are submitted in some rounds, claim by claim.
pub open spec fn votes_of(
    s: State,
    config: Config,
    ids: Seq<ClaimId>,
    rounds: Seq<Round>,
) -> Seq<Call>
    decreases rounds.len(),
{
    if rounds.len() == 0 {
        Seq::empty()
    } else {
        rounds[0].calls(s, config, ids[0]) + votes_of(
            s,
            config,
            ids.drop_first(),
            rounds.drop_first(),
        )
    }
}

/// The beginning of a run, as far as reports are signed.
proof fn lemma_opening(s: State, config: Config, opening: Opening)
    requires
        opening.has_prices(),
        opening.signatures.len() <= opening.ballots(s).len(),
    ensures
        are_awaited(started(config).0, s, config, opening.inputs()),
        sent(started(config).0, s, config, opening.inputs()) == opening.calls(s),
        led_to(started(config), s, config, opening.inputs()) == going_on(
            s,
            config,
            s.requests,
            opening.ballots(s).skip(opening.signatures.len() as int),
        ),
{
    let from = started(config);
    let (btc, eth, keys) = (
        seq![InputView::Fetched(opening.btc)],
        seq![InputView::Fetched(opening.eth)],
        seq![InputView::Keys(opening.local)],
    );
    let one = next(from.0, s, config, btc[0]);
    let two = next(one.0, s, config, eth[0]);
    lemma_one_input(from, s, config, btc[0]);
    lemma_one_input(one, s, config, eth[0]);
    lemma_one_input(two, s, config, keys[0]);
    lemma_in_parts(from, s, config, btc, eth);
    lemma_in_parts(from, s, config, btc + eth, keys);
    lemma_in_parts(from, s, config, btc + eth + keys, signed_one_by_one(opening.signatures));
    law_every_signed_ballot_is_sent(
        s,
        config,
        s.requests,
        opening.ballots(s),
        opening.signatures,
    );
    assert(sent(from.0, s, config, opening.inputs()) =~= opening.calls(s));
}

/// One round, as far as votes are signed.
proof fn lemma_round(s: State, config: Config, ids: Seq<ClaimId>, round: Round)
    requires
        ids.len() > 0,
        round.verdict(s, config, ids[0]) is Ok,
        round.signatures.len() <= round.ballots(s, config, ids[0]).len(),
    ensures
        ({
            let from = going_on(s, config, ids, Seq::empty());
            &&& are_awaited(from.0, s, config, round.inputs())
            &&& sent(from.0, s, config, round.inputs()) == round.calls(s, config, ids[0])
            &&& led_to(from, s, config, round.inputs()) == going_on(
                s,
                config,
                ids.drop_first(),
                round.ballots(s, config, ids[0]).skip(round.signatures.len() as int),
            )
        }),
{
    let from = going_on(s, config, ids, Seq::empty());
    let (lock, keys) = (
        seq![InputView::LockFetched(round.response, round.script, round.sender)],
        seq![InputView::Keys(round.local)],
    );
    let one = next(from.0, s, config, lock[0]);
    lemma_one_input(from, s, config, lock[0]);
    lemma_one_input(one, s, config, keys[0]);
    lemma_in_parts(from, s, config, lock, keys);
    lemma_in_parts(from, s, config, lock + keys, signed_one_by_one(round.signatures));
    law_every_signed_ballot_is_sent(
        s,
        config,
        ids.drop_first(),
        round.ballots(s, config, ids[0]),
        round.signatures,
    );
    assert(sent(from.0, s, config, round.inputs()) =~= round.calls(s, config, ids[0]));
}

/// Some complete rounds.
proof fn lemma_rounds(s: State, config: Config, ids: Seq<ClaimId>, rounds: Seq<Round>)
    requires
        are_complete(s, config, ids, rounds),
    ensures
        ({
            let from = going_on(s, config, ids, Seq::empty());
            &&& are_awaited(from.0, s, config, inputs_of(rounds))
            &&& sent(from.0, s, config, inputs_of(rounds)) == votes_of(s, config, ids, rounds)
            &&& led_to(from, s, config, inputs_of(rounds)) == going_on(
                s,
                config,
                ids.skip(rounds.len() as int),
                Seq::empty(),
            )
        }),
    decreases rounds.len(),
{
    let from = going_on(s, config, ids, Seq::empty());
    if rounds.len() == 0 {
        assert(ids.skip(0) =~= ids);
    } else {
        let (fewer, rest) = (ids.drop_first(), rounds.drop_first());
        assert(rounds[0].is_complete(s, config, ids[0]));
        lemma_round(s, config, ids, rounds[0]);
        assert(rounds[0].ballots(s, config, ids[0]).skip(rounds[0].signatures.len() as int)
            =~= Seq::empty());
        assert forall|i: int| 0 <= i < rest.len() implies (#[trigger] rest[i]).is_complete(
            s,
            config,
            fewer[i],
        ) by {
            assert(rounds[i + 1].is_complete(s, config, ids[i + 1]));
        }
        lemma_rounds(s, config, fewer, rest);
        lemma_in_parts(from, s, config, rounds[0].inputs(), inputs_of(rest));
        assert(fewer.skip(rest.len() as int) =~= ids.skip(rounds.len() as int));
    }
}

/// A complete beginning and some complete rounds.
proof fn lemma_so_far(s: State, config: Config, opening: Opening, rounds: Seq<Round>)
    requires
        opening.is_complete(s),
        are_complete(s, config, s.requests, rounds),
    ensures
        ({
            let inputs = opening.inputs() + inputs_of(rounds);
            &&& are_awaited(started(config).0, s, config, inputs)
            &&& sent(started(config).0, s, config, inputs) == opening.calls(s) + votes_of(
                s,
                config,
                s.requests,
                rounds,
            )
            &&& led_to(started(config), s, config, inputs) == going_on(
                s,
                config,
                s.requests.skip(rounds.len() as int),
                Seq::empty(),
            )
        }),
{
    lemma_opening(s, config, opening);
    assert(opening.ballots(s).skip(opening.signatures.len() as int) =~= Seq::empty());
    lemma_rounds(s, config, s.requests, rounds);
    lemma_in_parts(started(config), s, config, opening.inputs(), inputs_of(rounds));
}

/// Where nothing fails, a run submits exactly a report of the rates for each local authority, and
/// then, claim by claim in the order of the requests, its vote; and it ends well.
pub proof fn law_a_run_votes_on_every_request(
    s: State,
    config: Config,
    opening: Opening,
    rounds: Seq<Round>,
)
    requires
        opening.is_complete(s),
        rounds.len() == s.requests.len(),
        are_complete(s, config, s.requests, rounds),
    ensures
        ({
            let inputs = opening.inputs() + inputs_of(rounds);
            &&& are_awaited(started(config).0, s, config, inputs)
            &&& sent(started(config).0, s, config, inputs) == opening.calls(s) + votes_of(
                s,
                config,
                s.requests,
                rounds,
            )
            &&& led_to(started(config), s, config, inputs) == stopped(Ok(()))
        }),
{
    lemma_so_far(s, config, opening, rounds);
}

/// Where a price cannot be fetched or read, the run ends with that error, and nothing is submitted.
pub proof fn law_a_failing_price_ends_the_run(
    s: State,
    config: Config,
    btc: ResponseView,
    eth: ResponseView,
    error: WorkerErrorView,
)
    ensures
        btc_ticker_of(btc) == Err::<nat, WorkerErrorView>(error) ==> {
            let inputs = seq![InputView::Fetched(btc)];
            &&& are_awaited(started(config).0, s, config, inputs)
            &&& sent(started(config).0, s, config, inputs).len() == 0
            &&& led_to(started(config), s, config, inputs) == stopped(Err(error))
        },
        btc_ticker_of(btc) is Ok && eth_ticker_of(eth) == Err::<nat, WorkerErrorView>(error) ==> {
            let inputs = seq![InputView::Fetched(btc)] + seq![InputView::Fetched(eth)];
            &&& are_awaited(started(config).0, s, config, inputs)
            &&& sent(started(config).0, s, config, inputs).len() == 0
            &&& led_to(started(config), s, config, inputs) == stopped(Err(error))
        },
{
    let from = started(config);
    let (one, two) = (seq![InputView::Fetched(btc)], seq![InputView::Fetched(eth)]);
    lemma_one_input(from, s, config, one[0]);
    lemma_one_input(next(from.0, s, config, one[0]), s, config, two[0]);
    lemma_in_parts(from, s, config, one, two);
}

/// Where a report of the rates is not signed, exactly the reports before it are submitted, and the
/// run ends with that error.
pub proof fn law_an_unsigned_rate_ends_the_run(s: State, config: Config, opening: Opening)
    requires
        opening.has_prices(),
        opening.signatures.len() < opening.ballots(s).len(),
    ensures
        ({
            let inputs = opening.inputs() + seq![InputView::Signed(None)];
            &&& are_awaited(started(config).0, s, config, inputs)
            &&& sent(started(config).0, s, config, inputs) == opening.calls(s)
            &&& led_to(started(config), s, config, inputs) == stopped(
                Err(WorkerErrorView::Signing),
            )
        }),
{
    let from = started(config);
    let unsigned = InputView::Signed(None);
    lemma_opening(s, config, opening);
    lemma_in_parts(from, s, config, opening.inputs(), seq![unsigned]);
    lemma_one_input(led_to(from, s, config, opening.inputs()), s, config, unsigned);
    assert(opening.calls(s) + Seq::empty() =~= opening.calls(s));
}

/// Where the transaction of a claim cannot be fetched or read, exactly the reports and the votes on
/// the claims before it are submitted, and the run ends with that error.
pub proof fn law_a_failing_lock_ends_the_run(
    s: State,
    config: Config,
    opening: Opening,
    rounds: Seq<Round>,
    failing: Round,
    error: WorkerErrorView,
)
    requires
        opening.is_complete(s),
        rounds.len() < s.requests.len(),
        are_complete(s, config, s.requests, rounds),
        failing.verdict(s, config, s.requests[rounds.len() as int]) == Err::<bool, WorkerErrorView>(
            error,
        ),
    ensures
        ({
            let inputs = opening.inputs() + inputs_of(rounds) + seq![
                InputView::LockFetched(failing.response, failing.script, failing.sender),
            ];
            &&& are_awaited(started(config).0, s, config, inputs)
            &&& sent(started(config).0, s, config, inputs) == opening.calls(s) + votes_of(
                s,
                config,
                s.requests,
                rounds,
            )
            &&& led_to(started(config), s, config, inputs) == stopped(Err(error))
        }),
{
    let from = started(config);
    let before = opening.inputs() + inputs_of(rounds);
    let lock = InputView::LockFetched(failing.response, failing.script, failing.sender);
    lemma_so_far(s, config, opening, rounds);
    assert(s.requests.skip(rounds.len() as int)[0] == s.requests[rounds.len() as int]);
    lemma_in_parts(from, s, config, before, seq![lock]);
    lemma_one_input(led_to(from, s, config, before), s, config, lock);
    let calls = sent(from.0, s, config, before);
    assert(calls + Seq::empty() =~= calls);
}

/// Where a vote on a claim is not signed, exactly the reports, the votes on the claims before it
/// and the votes before that one are submitted, and the run ends with that error.
pub proof fn law_an_unsigned_vote_ends_the_run(
    s: State,
    config: Config,
    opening: Opening,
    rounds: Seq<Round>,
    failing: Round,
)
    requires
        opening.is_complete(s),
        rounds.len() < s.requests.len(),
        are_complete(s, config, s.requests, rounds),
        failing.verdict(s, config, s.requests[rounds.len() as int]) is Ok,
        failing.signatures.len() < failing.ballots(
            s,
            config,
            s.requests[rounds.len() as int],
        ).len(),
    ensures
        ({
            let inputs = opening.inputs() + inputs_of(rounds) + failing.inputs() + seq![
                InputView::Signed(None),
            ];
            &&& are_awaited(started(config).0, s, config, inputs)
            &&& sent(started(config).0, s, config, inputs) == opening.calls(s) + votes_of(
                s,
                config,
                s.requests,
                rounds,
            ) + failing.calls(s, config, s.requests[rounds.len() as int])
            &&& led_to(started(config), s, config, inputs) == stopped(
                Err(WorkerErrorView::Signing),
            )
        }),
{
    let from = started(config);
    let before = opening.inputs() + inputs_of(rounds);
    let left = s.requests.skip(rounds.len() as int);
    let unsigned = InputView::Signed(None);
    lemma_so_far(s, config, opening, rounds);
    assert(left[0] == s.requests[rounds.len() as int]);
    lemma_round(s, config, left, failing);
    lemma_in_parts(from, s, config, before, failing.inputs());
    lemma_in_parts(from, s, config, before + failing.inputs(), seq![unsigned]);
    lemma_one_input(led_to(from, s, config, before + failing.inputs()), s, config, unsigned);
    let calls = sent(from.0, s, config, before + failing.inputs());
    assert(calls + Seq::empty() =~= calls);
}

/// How many votes are signed in the first `i` of some rounds.
pub open spec fn signed_before(rounds: Seq<Round>, i: int) -> nat
    decreases rounds.len(),
{
    if i <= 0 || rounds.len() == 0 {
        0
    } else {
        rounds[0].signatures.len() + signed_before(rounds.drop_first(), i - 1)
    }
}

/// A vote of a round stands behind those of the rounds before.
proof fn lemma_votes_by_place(
    s: State,
    config: Config,
    ids: Seq<ClaimId>,
    rounds: Seq<Round>,
    i: int,
    j: int,
)
    requires
        are_complete(s, config, ids, rounds),
        0 <= i < rounds.len(),
        0 <= j < rounds[i].signatures.len(),
    ensures
        votes_of(s, config, ids, rounds).len() == signed_before(rounds, rounds.len() as int),
        signed_before(rounds, i) + j < votes_of(s, config, ids, rounds).len(),
        votes_of(s, config, ids, rounds)[signed_before(rounds, i) + j] == call_of(
            rounds[i].ballots(s, config, ids[i])[j].message,
            rounds[i].signatures[j],
        ),
    decreases rounds.len(),
{
    let (fewer, rest) = (ids.drop_first(), rounds.drop_first());
    lemma_votes_in_all(s, config, ids, rounds);
    if i > 0 {
        assert forall|k: int| 0 <= k < rest.len() implies (#[trigger] rest[k]).is_complete(
            s,
            config,
            fewer[k],
        ) by {
            assert(rounds[k + 1].is_complete(s, config, ids[k + 1]));
        }
        assert(rest[i - 1] == rounds[i] && fewer[i - 1] == ids[i]);
        lemma_votes_in_all(s, config, fewer, rest);
        lemma_votes_by_place(s, config, fewer, rest, i - 1, j);
        assert(votes_of(s, config, ids, rounds)[signed_before(rounds, i) + j] == votes_of(
            s,
            config,
            fewer,
            rest,
        )[signed_before(rest, i - 1) + j]);
    }
}

/// As many votes are submitted as are signed.
proof fn lemma_votes_in_all(s: State, config: Config, ids: Seq<ClaimId>, rounds: Seq<Round>)
    ensures
        votes_of(s, config, ids, rounds).len() == signed_before(rounds, rounds.len() as int),
    decreases rounds.len(),
{
    if rounds.len() > 0 {
        lemma_votes_in_all(s, config, ids.drop_first(), rounds.drop_first());
    }
}

/// Each vote that a run submits says what the check found: for each claim, in the order of the
/// requests, and for each local authority, in the order of the local keys, there is one vote, on
/// that claim; it approves exactly when the transaction that was fetched is the lock that the claim
/// tells of; it carries the index under which that authority is found, and its signature.
pub proof fn law_each_vote_says_what_the_check_found(
    s: State,
    config: Config,
    opening: Opening,
    rounds: Seq<Round>,
    i: int,
    j: int,
)
    requires
        opening.is_complete(s),
        rounds.len() == s.requests.len(),
        are_complete(s, config, s.requests, rounds),
        0 <= i < rounds.len(),
        0 <= j < rounds[i].signatures.len(),
    ensures
        ({
            let (id, round) = (s.requests[i], rounds[i]);
            let calls = sent(
                started(config).0,
                s,
                config,
                opening.inputs() + inputs_of(rounds),
            );
            let place = opening.signatures.len() + signed_before(rounds, i) + j;
            let among = authorities_among(s.keys, round.local);
            &&& calls.len() == opening.signatures.len() + signed_before(
                rounds,
                rounds.len() as int,
            )
            &&& place < calls.len()
            &&& round.signatures.len() == among.len()
            &&& calls[place] matches Call::Vote(vote, signature) && {
                &&& vote.claim_id == id
                &&& fetched(round.response) matches Ok(tx) && vote.approve == is_locked(
                    tx,
                    s.claim(id).params,
                    round.script,
                    round.sender,
                    config.ethereum_contract_address@,
                )
                &&& s.keys.len() <= 0x1_0000 ==> s.keys[vote.authority as int] == among[j]
                &&& signature == round.signatures[j]
            }
        }),
{
    let (id, round) = (s.requests[i], rounds[i]);
    let among = authorities_among(s.keys, round.local);
    lemma_so_far(s, config, opening, rounds);
    lemma_votes_by_place(s, config, s.requests, rounds, i, j);
    assert(round.is_complete(s, config, id));
    law_the_verdict_is_that_of_the_check(
        s,
        config,
        id,
        round.response,
        round.script,
        round.sender,
    );
    law_ballots_say_what_was_found(
        s.keys,
        round.local,
        id,
        round.verdict(s, config, id)->Ok_0,
        0,
        0,
        j,
    );
    round.local.lemma_filter_pred(|key: AuthorityId| s.keys.contains(key), j);
    if s.keys.len() <= 0x1_0000 {
        law_index_leads_to_the_key(s, among[j]);
    }
}

/// Each report that a run submits tells the rates that were fetched: for each local authority, in
/// the order of the local keys, there is one report, before any vote, with the whole dollars of
/// both prices, the index under which that authority is found, and its signature.
pub proof fn law_each_report_tells_the_prices(
    s: State,
    config: Config,
    opening: Opening,
    rounds: Seq<Round>,
    j: int,
)
    requires
        opening.is_complete(s),
        rounds.len() == s.requests.len(),
        are_complete(s, config, s.requests, rounds),
        0 <= j < opening.signatures.len(),
    ensures
        ({
            let calls = sent(
                started(config).0,
                s,
                config,
                opening.inputs() + inputs_of(rounds),
            );
            let among = authorities_among(s.keys, opening.local);
            &&& opening.signatures.len() == among.len()
            &&& j < calls.len()
            &&& calls[j] matches Call::SetDollarRate(rate, signature) && {
                &&& fetched(opening.btc) matches Ok(document) && rate_in(document) matches Ok(btc)
                    && rate.btc == btc
                &&& fetched(opening.eth) matches Ok(document) && rate_in(document) matches Ok(eth)
                    && rate.eth == eth
                &&& s.keys.len() <= 0x1_0000 ==> s.keys[rate.authority as int] == among[j]
                &&& signature == opening.signatures[j]
            }
        }),
{
    let among = authorities_among(s.keys, opening.local);
    lemma_so_far(s, config, opening, rounds);
    law_what_tickers_give(opening.btc);
    law_what_tickers_give(opening.eth);
    law_rates_fit(fetched(opening.btc)->Ok_0);
    law_rates_fit(fetched(opening.eth)->Ok_0);
    law_ballots_say_what_was_found(
        s.keys,
        opening.local,
        s.keys[0],
        true,
        btc_ticker_of(opening.btc)->Ok_0 as u64,
        eth_ticker_of(opening.eth)->Ok_0 as u64,
        j,
    );
    opening.local.lemma_filter_pred(|key: AuthorityId| s.keys.contains(key), j);
    if s.keys.len() <= 0x1_0000 {
        law_index_leads_to_the_key(s, among[j]);
    }
}

} // verus!
