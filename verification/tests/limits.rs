use std::time::Duration;

use greentic_ext_runtime::limits::{
    deadline_ticks, default_dispatch_timeout, ticks_from_parts, DEFAULT_DISPATCH_TIMEOUT_SECS,
    EPOCH_TICK_NANOS,
};

fn epoch_tick() -> Duration {
    Duration::from_nanos(EPOCH_TICK_NANOS)
}

#[test]
fn a_sub_tick_timeout_still_gets_a_whole_tick() {
    assert_eq!(deadline_ticks(Duration::from_millis(1)), 1);
    assert_eq!(deadline_ticks(Duration::ZERO), 1);
}

#[test]
fn a_whole_number_of_ticks_is_not_rounded_up() {
    assert_eq!(deadline_ticks(epoch_tick()), 1);
    assert_eq!(deadline_ticks(epoch_tick() * 5), 5);
}

#[test]
fn a_partial_tick_rounds_up() {
    assert_eq!(deadline_ticks(epoch_tick() * 5 + Duration::from_nanos(1)), 6);
}

#[test]
fn the_default_budget_clears_a_slow_deploy_by_a_wide_margin() {
    assert!(default_dispatch_timeout() >= Duration::from_secs(4 * 60));
}

#[test]
fn an_absurd_timeout_saturates_instead_of_wrapping() {
    assert_eq!(deadline_ticks(Duration::MAX), u64::MAX);
}

#[test]
fn the_default_budget_is_five_minutes() {
    assert_eq!(DEFAULT_DISPATCH_TIMEOUT_SECS, 300);
    assert_eq!(default_dispatch_timeout(), Duration::from_secs(300));
    assert_eq!(deadline_ticks(default_dispatch_timeout()), 300);
}

#[test]
fn ticks_from_parts_rounds_up_and_saturates() {
    assert_eq!(ticks_from_parts(0, 0), 1);
    assert_eq!(ticks_from_parts(2, 0), 2);
    assert_eq!(ticks_from_parts(2, 999_999_999), 3);
    assert_eq!(ticks_from_parts(u64::MAX, 1), u64::MAX);
}
