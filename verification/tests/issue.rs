//! How much PLM a lock earns.

use plasm_lockdrop::issue::{checked_earned, checked_issue_amount, issue_amount, time_bonus};
use plasm_lockdrop::issue::{BILLION, DAY};
use plasm_lockdrop::module::Module;
use plasm_lockdrop::types::Lockdrop;

fn bitcoin(value: u64, duration: u64) -> Lockdrop {
    Lockdrop::Bitcoin { public: [2; 33], value, duration, transaction_hash: [7; 32] }
}

fn ethereum(value: u64, duration: u64) -> Lockdrop {
    Lockdrop::Ethereum { public: [3; 33], value, duration, transaction_hash: [8; 32] }
}

#[test]
fn bonus_changes_at_the_given_days() {
    assert_eq!(time_bonus(0), 0);
    assert_eq!(time_bonus(30 * DAY - 1), 0);
    assert_eq!(time_bonus(30 * DAY), 24);
    assert_eq!(time_bonus(100 * DAY - 1), 24);
    assert_eq!(time_bonus(100 * DAY), 100);
    assert_eq!(time_bonus(300 * DAY - 1), 100);
    assert_eq!(time_bonus(300 * DAY), 360);
    assert_eq!(time_bonus(1000 * DAY - 1), 360);
    assert_eq!(time_bonus(1000 * DAY), 1600);
    assert_eq!(time_bonus(u64::MAX), 1600);
}

#[test]
fn alpha_is_a_fraction_rounded_to_nearest_halves_down() {
    // One unit of value for thirty days earns 240 times the fraction of the rate.
    assert_eq!(issue_amount(333_333_333, 10, 1, 30 * DAY), 3 * 240);
    assert_eq!(issue_amount(500_000_000, 3, 1, 30 * DAY), 240);
    assert_eq!(issue_amount(500_000_001, 3, 1, 30 * DAY), 2 * 240);
    assert_eq!(issue_amount(BILLION, 7, 1, 30 * DAY), 7 * 240);
    assert_eq!(issue_amount(0, 7, 1, 30 * DAY), 0);
}

#[test]
fn alpha_is_capped_at_the_whole() {
    assert_eq!(issue_amount(2_000_000_000, 7, 1, 30 * DAY), 7 * 240);
    assert_eq!(issue_amount(u32::MAX, 7, 1, 30 * DAY), 7 * 240);
}

#[test]
fn bitcoin_issue_is_exact() {
    let module = Module::genesis(500_000_000, (9_000, 200));
    assert_eq!(module.btc_issue_amount(1_000_000, 30 * DAY), 1_080_000_000_000);
    // 4320 blocks of ten minutes are thirty days, and one satoshi is a million PLM units.
    assert_eq!(module.claim_amount(&bitcoin(1, 4_320)), 1_080_000_000_000);
    assert_eq!(checked_earned(500_000_000, (9_000, 200), &bitcoin(1, 4_320)), Some(1_080_000_000_000));
}

#[test]
fn ethereum_issue_is_exact() {
    let module = Module::genesis(BILLION, (9_000, 200));
    assert_eq!(module.eth_issue_amount(5, 1000 * DAY), 16_000_000);
    // A thousand wei is one PLM unit; what is left over earns nothing.
    assert_eq!(module.claim_amount(&ethereum(5_999, 1000 * DAY)), 16_000_000);
    assert_eq!(checked_earned(BILLION, (9_000, 200), &ethereum(5_999, 1000 * DAY)), Some(16_000_000));
    assert_eq!(module.claim_amount(&ethereum(999, 1000 * DAY)), 0);
}

#[test]
fn short_locks_earn_nothing() {
    let module = Module::genesis(BILLION, (9_000, 200));
    assert_eq!(module.claim_amount(&bitcoin(u64::MAX, 4_319)), 0);
    assert_eq!(module.claim_amount(&ethereum(u64::MAX, 30 * DAY - 1)), 0);
}

#[test]
fn more_and_longer_never_earns_less() {
    let module = Module::genesis(123_456_789, (9_000, 200));
    let few: u128 = module.claim_amount(&ethereum(10_000, 30 * DAY));
    let more: u128 = module.claim_amount(&ethereum(11_000, 30 * DAY));
    let longer: u128 = module.claim_amount(&ethereum(11_000, 100 * DAY));
    assert!(few <= more && more <= longer);
}

#[test]
fn amounts_that_do_not_fit_are_told() {
    assert_eq!(checked_issue_amount(BILLION, u128::MAX, 1, 30 * DAY), None);
    assert_eq!(checked_issue_amount(BILLION, u128::MAX / 24, 2, 30 * DAY), None);
    assert_eq!(checked_issue_amount(BILLION, 1, u128::MAX / 240, 30 * DAY), Some(u128::MAX / 240 * 240));
    assert_eq!(checked_issue_amount(BILLION, 1, u128::MAX / 240 + 1, 30 * DAY), None);
    // A locking duration in blocks that is too long in seconds.
    assert_eq!(checked_earned(BILLION, (1, 1), &bitcoin(1, u64::MAX / 600 + 1)), None);
    assert!(checked_earned(BILLION, (1, 1), &bitcoin(1, u64::MAX / 600)).is_some());
    assert!(checked_earned(BILLION, (1, 1), &ethereum(1, u64::MAX)).is_some());
}
