//! The SCALE encoding of what is hashed and signed.

use vstd::prelude::*;
use crate::types::{ClaimVote, Dollars, Lockdrop, TickerRate};

verus! {

/// The `n` lowest bytes of `value`, the lowest first.
pub open spec fn le_bytes(value: nat, n: nat) -> Seq<u8>
    decreases n,
{
    if n == 0 {
        Seq::empty()
    } else {
        seq![(value % 256) as u8] + le_bytes(value / 256, (n - 1) as nat)
    }
}

/// A truth value as a byte.
pub open spec fn bool_byte(value: bool) -> Seq<u8> {
    if value {
        seq![1u8]
    } else {
        seq![0u8]
    }
}

/// Calls `parity_scale_codec::Encode::encode` on a truth value, which gives one byte: one for
/// `true`, zero for `false`.
#[verifier::external_body]
fn encode_bool(value: bool) -> (encoded: Vec<u8>)
    ensures
        encoded@ == bool_byte(value),
{
    parity_scale_codec::Encode::encode(&value)
}

/// Calls `parity_scale_codec::Encode::encode` on a 16-bit number, which gives its two bytes in
/// little-endian order.
#[verifier::external_body]
fn encode_u16(value: u16) -> (encoded: Vec<u8>)
    ensures
        encoded@ == le_bytes(value as nat, 2),
{
    parity_scale_codec::Encode::encode(&value)
}

/// Calls `parity_scale_codec::Encode::encode` on a 64-bit number, which gives its eight bytes in
/// little-endian order.
#[verifier::external_body]
fn encode_u64(value: u64) -> (encoded: Vec<u8>)
    ensures
        encoded@ == le_bytes(value as nat, 8),
{
    parity_scale_codec::Encode::encode(&value)
}

/// Calls `parity_scale_codec::Encode::encode` on a 128-bit number, which gives its sixteen bytes
/// in little-endian order.
#[verifier::external_body]
fn encode_u128(value: u128) -> (encoded: Vec<u8>)
    ensures
        encoded@ == le_bytes(value as nat, 16),
{
    parity_scale_codec::Encode::encode(&value)
}

/// Appends fixed-size bytes, which encode as themselves.
fn push_bytes(out: &mut Vec<u8>, bytes: &[u8])
    ensures
        final(out)@ == old(out)@ + bytes@,
{
    let ghost start = out@;
    let mut i: usize = 0;
    while i < bytes.len()
        invariant
            i <= bytes@.len(),
            out@ == start + bytes@.take(i as int),
        decreases bytes@.len() - i,
    {
        out.push(bytes[i]);
        i += 1;
        assert(bytes@.take(i as int) =~= bytes@.take(i - 1).push(bytes@[i - 1]));
    }
    assert(bytes@.take(i as int) =~= bytes@);
}

/// The encoding of lockdrop parameters: which chain, then each field in order.
pub open spec fn lockdrop_bytes(params: Lockdrop) -> Seq<u8> {
    match params {
        Lockdrop::Bitcoin { public, value, duration, transaction_hash } => seq![0u8] + public@
            + le_bytes(value as nat, 8) + le_bytes(duration as nat, 8) + transaction_hash@,
        Lockdrop::Ethereum { public, value, duration, transaction_hash } => seq![1u8] + public@
            + le_bytes(value as nat, 8) + le_bytes(duration as nat, 8) + transaction_hash@,
    }
}

/// The encoding of a vote: each field in order.
pub open spec fn vote_bytes(vote: ClaimVote) -> Seq<u8> {
    vote.claim_id@ + bool_byte(vote.approve) + le_bytes(vote.authority as nat, 2)
}

/// The encoding of a dollar rate: each field in order.
pub open spec fn rate_bytes(rate: TickerRate<Dollars>) -> Seq<u8> {
    le_bytes(rate.authority as nat, 2) + le_bytes(rate.btc as nat, 16) + le_bytes(
        rate.eth as nat,
        16,
    )
}

/// Encodes lockdrop parameters.
pub fn encode_lockdrop(params: &Lockdrop) -> (encoded: Vec<u8>)
    ensures
        encoded@ == lockdrop_bytes(*params),
{
    let mut out: Vec<u8> = Vec::new();
    match params {
        Lockdrop::Bitcoin { public, value, duration, transaction_hash } => {
            out.push(0);
            push_bytes(&mut out, public.as_slice());
            out.append(&mut encode_u64(*value));
            out.append(&mut encode_u64(*duration));
            push_bytes(&mut out, transaction_hash.as_slice());
        },
        Lockdrop::Ethereum { public, value, duration, transaction_hash } => {
            out.push(1);
            push_bytes(&mut out, public.as_slice());
            out.append(&mut encode_u64(*value));
            out.append(&mut encode_u64(*duration));
            push_bytes(&mut out, transaction_hash.as_slice());
        },
    }
    assert(out@ =~= lockdrop_bytes(*params));
    out
}

/// Encodes a vote.
pub fn encode_vote(vote: &ClaimVote) -> (encoded: Vec<u8>)
    ensures
        encoded@ == vote_bytes(*vote),
{
    let mut out: Vec<u8> = Vec::new();
    push_bytes(&mut out, vote.claim_id.as_slice());
    out.append(&mut encode_bool(vote.approve));
    out.append(&mut encode_u16(vote.authority));
    assert(out@ =~= vote_bytes(*vote));
    out
}

/// Encodes a dollar rate.
pub fn encode_rate(rate: &TickerRate<Dollars>) -> (encoded: Vec<u8>)
    ensures
        encoded@ == rate_bytes(*rate),
{
    let mut out: Vec<u8> = encode_u16(rate.authority);
    out.append(&mut encode_u128(rate.btc));
    out.append(&mut encode_u128(rate.eth));
    assert(out@ =~= rate_bytes(*rate));
    out
}

/// A little-endian encoding has the length that was asked for.
proof fn lemma_le_bytes_len(value: nat, n: nat)
    ensures
        le_bytes(value, n).len() == n,
    decreases n,
{
    if n > 0 {
        lemma_le_bytes_len(value / 256, (n - 1) as nat);
    }
}

/// `n` bytes hold exactly the numbers below `256^n`.
pub open spec fn fits(value: nat, n: nat) -> bool
    decreases n,
{
    if n == 0 {
        value == 0
    } else {
        fits(value / 256, (n - 1) as nat)
    }
}

/// A number is determined by its little-endian bytes.
proof fn lemma_le_bytes_injective(a: nat, b: nat, n: nat)
    requires
        fits(a, n),
        fits(b, n),
        le_bytes(a, n) == le_bytes(b, n),
    ensures
        a == b,
    decreases n,
{
    if n > 0 {
        let ra = le_bytes(a / 256, (n - 1) as nat);
        let rb = le_bytes(b / 256, (n - 1) as nat);
        assert(le_bytes(a, n)[0] == (a % 256) as u8);
        assert(le_bytes(b, n)[0] == (b % 256) as u8);
        assert(le_bytes(a, n).skip(1) =~= ra);
        assert(le_bytes(b, n).skip(1) =~= rb);
        lemma_le_bytes_injective(a / 256, b / 256, (n - 1) as nat);
    }
}

proof fn lemma_u16_fits(value: u16)
    ensures
        fits(value as nat, 2),
{
    reveal_with_fuel(fits, 3);
}

proof fn lemma_u64_fits(value: u64)
    ensures
        fits(value as nat, 8),
{
    reveal_with_fuel(fits, 9);
}

proof fn lemma_u128_fits(value: u128)
    ensures
        fits(value as nat, 16),
{
    reveal_with_fuel(fits, 17);
}

/// Two votes with one encoding are the same vote, so that a vote's tag in the transaction pool
/// excludes no other vote.
pub proof fn law_vote_encoding_is_injective(a: ClaimVote, b: ClaimVote)
    requires
        vote_bytes(a) == vote_bytes(b),
    ensures
        a == b,
{
    let (x, y) = (vote_bytes(a), vote_bytes(b));
    lemma_le_bytes_len(a.authority as nat, 2);
    lemma_le_bytes_len(b.authority as nat, 2);
    assert(x.take(32) =~= a.claim_id@);
    assert(y.take(32) =~= b.claim_id@);
    assert forall|i: int| 0 <= i < 32 implies a.claim_id[i] == b.claim_id[i] by {
        assert(a.claim_id@[i] == x.take(32)[i]);
        assert(b.claim_id@[i] == y.take(32)[i]);
    }
    assert(a.claim_id =~= b.claim_id);
    assert(x[32] == y[32]);
    assert(x.skip(33) =~= le_bytes(a.authority as nat, 2));
    assert(y.skip(33) =~= le_bytes(b.authority as nat, 2));
    lemma_u16_fits(a.authority);
    lemma_u16_fits(b.authority);
    lemma_le_bytes_injective(a.authority as nat, b.authority as nat, 2);
}

/// Two dollar rates with one encoding are the same rate.
pub proof fn law_rate_encoding_is_injective(a: TickerRate<Dollars>, b: TickerRate<Dollars>)
    requires
        rate_bytes(a) == rate_bytes(b),
    ensures
        a == b,
{
    let (x, y) = (rate_bytes(a), rate_bytes(b));
    lemma_le_bytes_len(a.authority as nat, 2);
    lemma_le_bytes_len(b.authority as nat, 2);
    lemma_le_bytes_len(a.btc as nat, 16);
    lemma_le_bytes_len(b.btc as nat, 16);
    lemma_le_bytes_len(a.eth as nat, 16);
    lemma_le_bytes_len(b.eth as nat, 16);
    assert(x.take(2) =~= le_bytes(a.authority as nat, 2));
    assert(y.take(2) =~= le_bytes(b.authority as nat, 2));
    assert(x.subrange(2, 18) =~= le_bytes(a.btc as nat, 16));
    assert(y.subrange(2, 18) =~= le_bytes(b.btc as nat, 16));
    assert(x.skip(18) =~= le_bytes(a.eth as nat, 16));
    assert(y.skip(18) =~= le_bytes(b.eth as nat, 16));
    lemma_u16_fits(a.authority);
    lemma_u16_fits(b.authority);
    lemma_u128_fits(a.btc);
    lemma_u128_fits(b.btc);
    lemma_u128_fits(a.eth);
    lemma_u128_fits(b.eth);
    lemma_le_bytes_injective(a.authority as nat, b.authority as nat, 2);
    lemma_le_bytes_injective(a.btc as nat, b.btc as nat, 16);
    lemma_le_bytes_injective(a.eth as nat, b.eth as nat, 16);
}

/// The fields after the first byte, for [`law_lockdrop_encoding_is_injective`].
proof fn lemma_lockdrop_fields(
    tag: u8,
    public: [u8; 33],
    value: u64,
    duration: u64,
    hash: [u8; 32],
    all: Seq<u8>,
)
    requires
        all == seq![tag] + public@ + le_bytes(value as nat, 8) + le_bytes(duration as nat, 8)
            + hash@,
    ensures
        all[0] == tag,
        all.subrange(1, 34) == public@,
        all.subrange(34, 42) == le_bytes(value as nat, 8),
        all.subrange(42, 50) == le_bytes(duration as nat, 8),
        all.subrange(50, 82) == hash@,
{
    lemma_le_bytes_len(value as nat, 8);
    lemma_le_bytes_len(duration as nat, 8);
    assert(all.subrange(1, 34) =~= public@);
    assert(all.subrange(34, 42) =~= le_bytes(value as nat, 8));
    assert(all.subrange(42, 50) =~= le_bytes(duration as nat, 8));
    assert(all.subrange(50, 82) =~= hash@);
}

/// Two requests with one encoding are the same request, so that a claim id is shared by two
/// requests only where the hash function collides.
pub proof fn law_lockdrop_encoding_is_injective(a: Lockdrop, b: Lockdrop)
    requires
        lockdrop_bytes(a) == lockdrop_bytes(b),
    ensures
        a == b,
{
    let (ta, pa, va, da, ha) = match a {
        Lockdrop::Bitcoin { public, value, duration, transaction_hash } => (
            0u8,
            public,
            value,
            duration,
            transaction_hash,
        ),
        Lockdrop::Ethereum { public, value, duration, transaction_hash } => (
            1u8,
            public,
            value,
            duration,
            transaction_hash,
        ),
    };
    let (tb, pb, vb, db, hb) = match b {
        Lockdrop::Bitcoin { public, value, duration, transaction_hash } => (
            0u8,
            public,
            value,
            duration,
            transaction_hash,
        ),
        Lockdrop::Ethereum { public, value, duration, transaction_hash } => (
            1u8,
            public,
            value,
            duration,
            transaction_hash,
        ),
    };
    lemma_lockdrop_fields(ta, pa, va, da, ha, lockdrop_bytes(a));
    lemma_lockdrop_fields(tb, pb, vb, db, hb, lockdrop_bytes(b));
    lemma_u64_fits(va);
    lemma_u64_fits(vb);
    lemma_u64_fits(da);
    lemma_u64_fits(db);
    lemma_le_bytes_injective(va as nat, vb as nat, 8);
    lemma_le_bytes_injective(da as nat, db as nat, 8);
    assert forall|i: int| 0 <= i < 33 implies pa[i] == pb[i] by {
        assert(pa@[i] == pb@[i]);
    }
    assert(pa =~= pb);
    assert forall|i: int| 0 <= i < 32 implies ha[i] == hb[i] by {
        assert(ha@[i] == hb@[i]);
    }
    assert(ha =~= hb);
}

/// The number that some bytes stand for, the lowest first.
pub open spec fn little_endian(bytes: Seq<u8>) -> nat
    decreases bytes.len(),
{
    if bytes.len() == 0 {
        0
    } else {
        bytes[0] as nat + 256 * little_endian(bytes.drop_first())
    }
}

/// A number is read back from its bytes.
proof fn lemma_le_bytes_are_read_back(value: nat, n: nat)
    requires
        fits(value, n),
    ensures
        little_endian(le_bytes(value, n)) == value,
    decreases n,
{
    if n > 0 {
        let rest = le_bytes(value / 256, (n - 1) as nat);
        assert(le_bytes(value, n).drop_first() =~= rest);
        assert(le_bytes(value, n)[0] == (value % 256) as u8);
        lemma_le_bytes_are_read_back(value / 256, (n - 1) as nat);
    }
}

/// Each field of a vote is read back from its place in the encoding.
pub proof fn law_votes_are_read_back(vote: ClaimVote)
    ensures
        vote_bytes(vote).len() == 35,
        vote_bytes(vote).take(32) == vote.claim_id@,
        vote_bytes(vote)[32] == (if vote.approve {
            1u8
        } else {
            0u8
        }),
        little_endian(vote_bytes(vote).skip(33)) == vote.authority,
{
    let all = vote_bytes(vote);
    lemma_le_bytes_len(vote.authority as nat, 2);
    lemma_u16_fits(vote.authority);
    lemma_le_bytes_are_read_back(vote.authority as nat, 2);
    assert(all.take(32) =~= vote.claim_id@);
    assert(all.skip(33) =~= le_bytes(vote.authority as nat, 2));
}

/// Each field of a dollar rate is read back from its place in the encoding.
pub proof fn law_rates_are_read_back(rate: TickerRate<Dollars>)
    ensures
        rate_bytes(rate).len() == 34,
        little_endian(rate_bytes(rate).take(2)) == rate.authority,
        little_endian(rate_bytes(rate).subrange(2, 18)) == rate.btc,
        little_endian(rate_bytes(rate).skip(18)) == rate.eth,
{
    let all = rate_bytes(rate);
    lemma_le_bytes_len(rate.authority as nat, 2);
    lemma_le_bytes_len(rate.btc as nat, 16);
    lemma_le_bytes_len(rate.eth as nat, 16);
    lemma_u16_fits(rate.authority);
    lemma_u128_fits(rate.btc);
    lemma_u128_fits(rate.eth);
    lemma_le_bytes_are_read_back(rate.authority as nat, 2);
    lemma_le_bytes_are_read_back(rate.btc as nat, 16);
    lemma_le_bytes_are_read_back(rate.eth as nat, 16);
    assert(all.take(2) =~= le_bytes(rate.authority as nat, 2));
    assert(all.subrange(2, 18) =~= le_bytes(rate.btc as nat, 16));
    assert(all.skip(18) =~= le_bytes(rate.eth as nat, 16));
}

/// Each field of lockdrop parameters is read back from its place in the encoding, and the first
/// byte tells the chain.
pub proof fn law_parameters_are_read_back(
    public: [u8; 33],
    value: u64,
    duration: u64,
    transaction_hash: [u8; 32],
    all: Seq<u8>,
)
    requires
        all == lockdrop_bytes(Lockdrop::Bitcoin { public, value, duration, transaction_hash })
            || all == lockdrop_bytes(
            Lockdrop::Ethereum { public, value, duration, transaction_hash },
        ),
    ensures
        all.len() == 82,
        all == lockdrop_bytes(Lockdrop::Bitcoin { public, value, duration, transaction_hash })
            <==> all[0] == 0,
        all == lockdrop_bytes(Lockdrop::Ethereum { public, value, duration, transaction_hash })
            <==> all[0] == 1,
        all.subrange(1, 34) == public@,
        little_endian(all.subrange(34, 42)) == value,
        little_endian(all.subrange(42, 50)) == duration,
        all.subrange(50, 82) == transaction_hash@,
{
    let btc = lockdrop_bytes(Lockdrop::Bitcoin { public, value, duration, transaction_hash });
    let eth = lockdrop_bytes(Lockdrop::Ethereum { public, value, duration, transaction_hash });
    lemma_lockdrop_fields(0, public, value, duration, transaction_hash, btc);
    lemma_lockdrop_fields(1, public, value, duration, transaction_hash, eth);
    lemma_le_bytes_len(value as nat, 8);
    lemma_le_bytes_len(duration as nat, 8);
    lemma_u64_fits(value);
    lemma_u64_fits(duration);
    lemma_le_bytes_are_read_back(value as nat, 8);
    lemma_le_bytes_are_read_back(duration as nat, 8);
}

} // verus!
