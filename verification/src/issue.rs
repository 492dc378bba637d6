//! How much PLM a lock earns.

use vstd::prelude::*;
use crate::types::{Dollars, Lockdrop, Moment};

verus! {

/// One day in seconds.
pub const DAY: u64 = 86_400;

/// How many parts make a whole in a per-billion fraction.
pub const BILLION: u32 = 1_000_000_000;

/// The bonus for a locking duration in seconds.
pub open spec fn bonus_of(duration: nat) -> nat {
    if duration < 30 * DAY {
        0
    } else if duration < 100 * DAY {
        24
    } else if duration < 300 * DAY {
        100
    } else if duration < 1000 * DAY {
        360
    } else {
        1600
    }
}

/// Lockdrop bonus depends on locking duration.
pub fn time_bonus(duration: Moment) -> (bonus: u16)
    ensures
        bonus == bonus_of(duration as nat),
{
    if duration < 30 * DAY {
        0  // Don't permit to participate with locking less than one month
    } else if duration < 100 * DAY {
        24
    } else if duration < 300 * DAY {
        100
    } else if duration < 1000 * DAY {
        360
    } else {
        1600
    }
}

/// `parts` billionths of `n`, rounded to the nearest whole, halves down; more parts than a billion
/// count as a billion.
pub open spec fn billionths_of(parts: nat, n: nat) -> nat {
    let capped = if parts > BILLION {
        BILLION as nat
    } else {
        parts
    };
    let product = n * capped;
    product / (BILLION as nat) + (if product % (BILLION as nat) > BILLION / 2 {
        1nat
    } else {
        0nat
    })
}

/// Multiplies by `sp_runtime::Perbill`: `Perbill::from_parts(parts) * n` is that many billionths
/// of `n`, rounded to the nearest whole, halves down, where `from_parts` caps the parts at a
/// billion.
#[verifier::external_body]
fn perbill_mul(parts: u32, n: u128) -> (product: u128)
    ensures
        product == billionths_of(parts as nat, n as nat),
{
    sp_runtime::Perbill::from_parts(parts) * n
}

/// What one unit of locked value earns, before the last factor of ten.
pub open spec fn rate_of(alpha: nat, dollar_rate: nat, duration: nat) -> nat {
    billionths_of(alpha, dollar_rate) * bonus_of(duration)
}

/// PLM issue amount for a locked value and a locking duration.
pub open spec fn issue_of(alpha: nat, dollar_rate: nat, value: nat, duration: nat) -> nat {
    rate_of(alpha, dollar_rate, duration) * value * 10
}

/// Whether the issue amount and what it is computed from fit in 128 bits.
pub open spec fn issue_fits(alpha: nat, dollar_rate: nat, value: nat, duration: nat) -> bool {
    &&& rate_of(alpha, dollar_rate, duration) <= u128::MAX
    &&& issue_of(alpha, dollar_rate, value, duration) <= u128::MAX
}

/// Computes the PLM issue amount for given value and locking duration.
pub fn issue_amount(alpha: u32, dollar_rate: Dollars, value: u128, duration: Moment) -> (amount:
    u128)
    requires
        issue_fits(alpha as nat, dollar_rate as nat, value as nat, duration as nat),
    ensures
        amount == issue_of(alpha as nat, dollar_rate as nat, value as nat, duration as nat),
{
    let rate: u128 = perbill_mul(alpha, dollar_rate) * (time_bonus(duration) as u128);
    assert(rate * value <= rate * value * 10) by (nonlinear_arith)
        requires
            0 <= rate,
            0 <= value,
    ;
    rate * value * 10
}

/// Computes the PLM issue amount, or gives nothing where it does not fit in 128 bits.
pub fn checked_issue_amount(
    alpha: u32,
    dollar_rate: Dollars,
    value: u128,
    duration: Moment,
) -> (amount: Option<u128>)
    ensures
        amount == (if issue_fits(alpha as nat, dollar_rate as nat, value as nat, duration as nat) {
            Some(issue_of(alpha as nat, dollar_rate as nat, value as nat, duration as nat) as u128)
        } else {
            None::<u128>
        }),
{
    let rate: u128 = match perbill_mul(alpha, dollar_rate).checked_mul(
        time_bonus(duration) as u128,
    ) {
        Some(rate) => rate,
        None => {
            return None;
        },
    };
    assert(rate * value <= rate * value * 10) by (nonlinear_arith)
        requires
            0 <= rate,
            0 <= value,
    ;
    match rate.checked_mul(value) {
        Some(amount) => amount.checked_mul(10),
        None => None,
    }
}

/// The locked value of a request in PLM order.
///
/// For Bitcoin, satoshi = BTC * 10^9 and PLM unit = PLM * 10^15; for Ethereum,
/// wei = ETH * 10^18.
pub open spec fn plm_order_value(params: Lockdrop) -> nat {
    match params {
        Lockdrop::Bitcoin { value, .. } => value as nat * 1_000_000,
        Lockdrop::Ethereum { value, .. } => value as nat / 1_000,
    }
}

/// The locking duration of a request in seconds: the average block duration in BTC is 10 min =
/// 600 sec.
pub open spec fn duration_in_seconds(params: Lockdrop) -> nat {
    match params {
        Lockdrop::Bitcoin { duration, .. } => duration as nat * 600,
        Lockdrop::Ethereum { duration, .. } => duration as nat,
    }
}

/// The dollar rate that applies to a request, out of the pair BTC, ETH.
pub open spec fn dollar_rate_for(params: Lockdrop, dollar_rate: (Dollars, Dollars)) -> Dollars {
    match params {
        Lockdrop::Bitcoin { .. } => dollar_rate.0,
        Lockdrop::Ethereum { .. } => dollar_rate.1,
    }
}

/// What a request earns.
pub open spec fn earned_by(alpha: u32, dollar_rate: (Dollars, Dollars), params: Lockdrop) -> nat {
    issue_of(
        alpha as nat,
        dollar_rate_for(params, dollar_rate) as nat,
        plm_order_value(params),
        duration_in_seconds(params),
    )
}

/// Whether what a request earns can be computed: the duration in 64 bits, the rest in 128.
pub open spec fn earned_fits(
    alpha: u32,
    dollar_rate: (Dollars, Dollars),
    params: Lockdrop,
) -> bool {
    &&& duration_in_seconds(params) <= u64::MAX
    &&& issue_fits(
        alpha as nat,
        dollar_rate_for(params, dollar_rate) as nat,
        plm_order_value(params),
        duration_in_seconds(params),
    )
}

/// Computes what a request earns, or gives nothing where it does not fit.
pub fn checked_earned(alpha: u32, dollar_rate: (Dollars, Dollars), params: &Lockdrop) -> (amount:
    Option<u128>)
    ensures
        amount == (if earned_fits(alpha, dollar_rate, *params) {
            Some(earned_by(alpha, dollar_rate, *params) as u128)
        } else {
            None::<u128>
        }),
{
    match params {
        Lockdrop::Bitcoin { value, duration, .. } => {
            let value_btc: u128 = (*value as u128) * 1_000_000;
            match duration.checked_mul(600) {
                Some(duration_sec) => checked_issue_amount(
                    alpha,
                    dollar_rate.0,
                    value_btc,
                    duration_sec,
                ),
                None => None,
            }
        },
        Lockdrop::Ethereum { value, duration, .. } => {
            let value_eth: u128 = (*value as u128) / 1_000;
            checked_issue_amount(alpha, dollar_rate.1, value_eth, *duration)
        },
    }
}

/// A lock of less than one month earns nothing.
pub proof fn law_short_locks_earn_nothing(alpha: nat, dollar_rate: nat, value: nat, duration: nat)
    requires
        duration < 30 * DAY,
    ensures
        issue_of(alpha, dollar_rate, value, duration) == 0,
{
    assert(billionths_of(alpha, dollar_rate) * 0 * value * 10 == 0) by (nonlinear_arith);
}

/// A longer lock never earns a smaller bonus.
pub proof fn law_bonus_grows_with_duration(shorter: nat, longer: nat)
    requires
        shorter <= longer,
    ensures
        bonus_of(shorter) <= bonus_of(longer),
{
}

/// A fraction of more, or a larger fraction, is never less.
pub proof fn law_billionths_grow(parts: nat, more_parts: nat, n: nat, more: nat)
    requires
        parts <= more_parts,
        n <= more,
    ensures
        billionths_of(parts, n) <= billionths_of(more_parts, more),
{
    let a = if parts > BILLION { BILLION as nat } else { parts };
    let b = if more_parts > BILLION { BILLION as nat } else { more_parts };
    assert(n * a <= more * b) by (nonlinear_arith)
        requires
            a <= b,
            n <= more,
    ;
}

/// A fraction of an amount is never more than the amount, and the whole of it is the amount.
pub proof fn law_billionths_are_at_most_the_whole(parts: nat, n: nat)
    ensures
        billionths_of(parts, n) <= n,
        parts >= BILLION ==> billionths_of(parts, n) == n,
{
    let a = if parts > BILLION { BILLION as nat } else { parts };
    assert(n * a <= n * 1_000_000_000) by (nonlinear_arith)
        requires
            a <= 1_000_000_000,
    ;
}

/// Locking more, for longer, at a higher rate or under a higher alpha never earns less.
pub proof fn law_issue_grows(
    alpha: nat,
    more_alpha: nat,
    rate: nat,
    more_rate: nat,
    value: nat,
    more_value: nat,
    duration: nat,
    more_duration: nat,
)
    requires
        alpha <= more_alpha,
        rate <= more_rate,
        value <= more_value,
        duration <= more_duration,
    ensures
        issue_of(alpha, rate, value, duration) <= issue_of(
            more_alpha,
            more_rate,
            more_value,
            more_duration,
        ),
{
    law_billionths_grow(alpha, more_alpha, rate, more_rate);
    law_bonus_grows_with_duration(duration, more_duration);
    let (p, q) = (billionths_of(alpha, rate), billionths_of(more_alpha, more_rate));
    let (b, c) = (bonus_of(duration), bonus_of(more_duration));
    assert(p * b <= q * c) by (nonlinear_arith)
        requires
            p <= q,
            b <= c,
    ;
    let (r, s) = (p * b, q * c);
    assert(r * value <= s * more_value) by (nonlinear_arith)
        requires
            r <= s,
            value <= more_value,
    ;
}

/// A fraction is rounded to the nearest whole, halves down, and more parts than a billion count as
/// a billion.
pub proof fn law_billionths_are_nearest(parts: nat, n: nat)
    ensures
        parts <= 1_000_000_000 ==> billionths_of(parts, n) * 1_000_000_000 - n * parts
            < 500_000_000,
        parts <= 1_000_000_000 ==> n * parts - billionths_of(parts, n) * 1_000_000_000
            <= 500_000_000,
        parts > 1_000_000_000 ==> billionths_of(parts, n) == n,
{
    if parts > 1_000_000_000 {
        law_billionths_are_at_most_the_whole(parts, n);
    }
}

/// The bonus for each length of a lock, in seconds.
pub proof fn law_bonus_by_duration(duration: nat)
    ensures
        duration < 2_592_000 ==> bonus_of(duration) == 0,
        2_592_000 <= duration < 8_640_000 ==> bonus_of(duration) == 24,
        8_640_000 <= duration < 25_920_000 ==> bonus_of(duration) == 100,
        25_920_000 <= duration < 86_400_000 ==> bonus_of(duration) == 360,
        86_400_000 <= duration ==> bonus_of(duration) == 1600,
{
}

/// Whether a part is that many billionths of a rate, to the nearest whole, halves down; the whole
/// rate where there are more than a billion.
pub open spec fn is_part_of(part: nat, alpha: nat, rate: nat) -> bool {
    if alpha > 1_000_000_000 {
        part == rate
    } else {
        &&& part * 1_000_000_000 - rate * alpha < 500_000_000
        &&& rate * alpha - part * 1_000_000_000 <= 500_000_000
    }
}

/// Whether a bonus is the one for a lock, where the lengths of thirty, a hundred, three hundred and
/// a thousand days are given in units of time.
pub open spec fn is_bonus_for(
    bonus: nat,
    duration: nat,
    thirty: nat,
    hundred: nat,
    three_hundred: nat,
    thousand: nat,
) -> bool {
    ||| duration < thirty && bonus == 0
    ||| thirty <= duration < hundred && bonus == 24
    ||| hundred <= duration < three_hundred && bonus == 100
    ||| three_hundred <= duration < thousand && bonus == 360
    ||| thousand <= duration && bonus == 1600
}

/// There is one nearest part.
proof fn lemma_part_is_unique(part: nat, alpha: nat, rate: nat)
    requires
        is_part_of(part, alpha, rate),
    ensures
        part == billionths_of(alpha, rate),
{
    law_billionths_are_nearest(alpha, rate);
}

/// A value earns ten times itself, times the part of the dollar rate that alpha says, times the
/// bonus; the amount fits where it and its rate are numbers of 128 bits.
pub proof fn law_what_a_value_earns(
    alpha: nat,
    rate: nat,
    value: nat,
    duration: nat,
    part: nat,
    bonus: nat,
)
    requires
        is_part_of(part, alpha, rate),
        is_bonus_for(bonus, duration, 2_592_000, 8_640_000, 25_920_000, 86_400_000),
    ensures
        issue_of(alpha, rate, value, duration) == part * bonus * value * 10,
        issue_fits(alpha, rate, value, duration) <==> part * bonus <= u128::MAX && part * bonus
            * value * 10 <= u128::MAX,
{
    lemma_part_is_unique(part, alpha, rate);
    law_bonus_by_duration(duration);
}

/// What a Bitcoin lock earns, from what is locked, in satoshi, and for how many blocks: a satoshi
/// counts as a million PLM units, and a block as ten minutes.
pub proof fn law_what_a_bitcoin_lock_earns(
    alpha: u32,
    dollar_rate: (Dollars, Dollars),
    public: [u8; 33],
    value: u64,
    duration: u64,
    transaction_hash: [u8; 32],
    part: nat,
    bonus: nat,
)
    requires
        is_part_of(part, alpha as nat, dollar_rate.0 as nat),
        is_bonus_for(bonus, duration as nat, 4_320, 14_400, 43_200, 144_000),
    ensures
        ({
            let params = Lockdrop::Bitcoin { public, value, duration, transaction_hash };
            let earned = part * bonus * (value * 1_000_000) * 10;
            &&& earned_by(alpha, dollar_rate, params) == earned
            &&& earned_fits(alpha, dollar_rate, params) <==> duration * 600 <= u64::MAX && part
                * bonus <= u128::MAX && earned <= u128::MAX
        }),
{
    law_what_a_value_earns(
        alpha as nat,
        dollar_rate.0 as nat,
        (value * 1_000_000) as nat,
        (duration * 600) as nat,
        part,
        bonus,
    );
}

/// What an Ethereum lock earns, from what is locked, in thousands of wei, and for how many seconds:
/// a thousand wei count as a PLM unit, and what is left over does not count.
pub proof fn law_what_an_ethereum_lock_earns(
    alpha: u32,
    dollar_rate: (Dollars, Dollars),
    public: [u8; 33],
    value: u64,
    duration: u64,
    transaction_hash: [u8; 32],
    thousands: nat,
    part: nat,
    bonus: nat,
)
    requires
        thousands * 1_000 <= value < thousands * 1_000 + 1_000,
        is_part_of(part, alpha as nat, dollar_rate.1 as nat),
        is_bonus_for(
            bonus,
            duration as nat,
            2_592_000,
            8_640_000,
            25_920_000,
            86_400_000,
        ),
    ensures
        ({
            let params = Lockdrop::Ethereum { public, value, duration, transaction_hash };
            let earned = part * bonus * thousands * 10;
            &&& earned_by(alpha, dollar_rate, params) == earned
            &&& earned_fits(alpha, dollar_rate, params) <==> part * bonus <= u128::MAX && earned
                <= u128::MAX
        }),
{
    law_what_a_value_earns(
        alpha as nat,
        dollar_rate.1 as nat,
        thousands,
        duration as nat,
        part,
        bonus,
    );
}

/// What a lock earns is proportional to the locked value: `n` satoshi earn `n` times what one
/// satoshi earns, and a thousand times `n` wei `n` times what a thousand wei earn.
pub proof fn law_earnings_are_proportional(
    alpha: u32,
    dollar_rate: (Dollars, Dollars),
    public: [u8; 33],
    n: u64,
    duration: u64,
    transaction_hash: [u8; 32],
)
    ensures
        earned_by(
            alpha,
            dollar_rate,
            Lockdrop::Bitcoin { public, value: n, duration, transaction_hash },
        ) == n * earned_by(
            alpha,
            dollar_rate,
            Lockdrop::Bitcoin { public, value: 1, duration, transaction_hash },
        ),
        n * 1_000 <= u64::MAX ==> earned_by(
            alpha,
            dollar_rate,
            Lockdrop::Ethereum { public, value: (n * 1_000) as u64, duration, transaction_hash },
        ) == n * earned_by(
            alpha,
            dollar_rate,
            Lockdrop::Ethereum { public, value: 1_000, duration, transaction_hash },
        ),
{
    let btc = rate_of(alpha as nat, dollar_rate.0 as nat, (duration * 600) as nat);
    let eth = rate_of(alpha as nat, dollar_rate.1 as nat, duration as nat);
    assert(btc * (n * 1_000_000) * 10 == n * (btc * 1_000_000 * 10)) by (nonlinear_arith);
    assert(eth * n * 10 == n * (eth * 1 * 10)) by (nonlinear_arith);
}

/// Whose lock it is and in which transaction does not change what it earns.
pub proof fn law_everybody_earns_the_same(
    alpha: u32,
    dollar_rate: (Dollars, Dollars),
    a: [u8; 33],
    b: [u8; 33],
    value: u64,
    duration: u64,
    x: [u8; 32],
    y: [u8; 32],
)
    ensures
        earned_by(
            alpha,
            dollar_rate,
            Lockdrop::Bitcoin { public: a, value, duration, transaction_hash: x },
        ) == earned_by(
            alpha,
            dollar_rate,
            Lockdrop::Bitcoin { public: b, value, duration, transaction_hash: y },
        ),
        earned_by(
            alpha,
            dollar_rate,
            Lockdrop::Ethereum { public: a, value, duration, transaction_hash: x },
        ) == earned_by(
            alpha,
            dollar_rate,
            Lockdrop::Ethereum { public: b, value, duration, transaction_hash: y },
        ),
{
}

} // verus!
