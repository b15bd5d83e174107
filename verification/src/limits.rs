//! Wall-clock budget for a single extension dispatch, expressed in ticks of
//! the engine's epoch counter.
use vstd::prelude::*;
use std::time::Duration;

verus! {

/// Nanoseconds per epoch tick: the ticker advances the epoch once a second,
/// which is also the granularity of a deadline.
pub const EPOCH_TICK_NANOS: u64 = 1_000_000_000;

/// Wall-clock budget for a single dispatch when the host sets none, in
/// seconds. Generous on purpose: `deploy` may take about two minutes for
/// network-bound extensions.
pub const DEFAULT_DISPATCH_TIMEOUT_SECS: u64 = 300;

/// The whole seconds of a duration, as `Duration::as_secs` reports them.
pub uninterp spec fn duration_secs(d: Duration) -> u64;

/// The fractional part of a duration in nanoseconds, as
/// `Duration::subsec_nanos` reports it.
pub uninterp spec fn duration_subsec_nanos(d: Duration) -> u32;

/// The total length of a duration in nanoseconds.
pub open spec fn duration_nanos(d: Duration) -> nat {
    (duration_secs(d) as nat) * 1_000_000_000 + duration_subsec_nanos(d) as nat
}

/// `Duration::as_secs`.
///
/// Trusted: the result is named by [`duration_secs`].
#[verifier::external_body]
fn as_secs(d: &Duration) -> (r: u64)
    ensures
        r == duration_secs(*d),
{
    d.as_secs()
}

/// `Duration::subsec_nanos`.
///
/// Trusted: the result is named by [`duration_subsec_nanos`] and, as the
/// standard library documents, is always below one billion.
#[verifier::external_body]
fn subsec_nanos(d: &Duration) -> (r: u32)
    ensures
        r == duration_subsec_nanos(*d),
        r < 1_000_000_000,
{
    d.subsec_nanos()
}

/// `Duration::from_secs`.
///
/// Trusted: the result has exactly `secs` whole seconds and no fractional
/// part, as the standard library documents.
#[verifier::external_body]
fn duration_from_secs(secs: u64) -> (r: Duration)
    ensures
        duration_secs(r) == secs,
        duration_subsec_nanos(r) == 0,
{
    Duration::from_secs(secs)
}

/// The wall-clock budget for a dispatch when the host sets none.
pub fn default_dispatch_timeout() -> (r: Duration)
    ensures
        duration_nanos(r) == DEFAULT_DISPATCH_TIMEOUT_SECS as nat * 1_000_000_000,
{
    duration_from_secs(DEFAULT_DISPATCH_TIMEOUT_SECS)
}

/// How many whole ticks a budget of `nanos` nanoseconds is worth: rounded
/// up, at least one, and saturated at `u64::MAX`.
pub open spec fn ticks_for(nanos: nat) -> u64 {
    let ticks = (nanos + 999_999_999) / 1_000_000_000;
    if ticks == 0 {
        1
    } else if ticks > u64::MAX {
        u64::MAX
    } else {
        ticks as u64
    }
}

proof fn lemma_ceil_ticks(secs: nat, sub: nat)
    requires
        sub < 1_000_000_000,
    ensures
        (secs * 1_000_000_000 + sub + 999_999_999) / 1_000_000_000 == if sub > 0 {
            secs + 1
        } else {
            secs
        },
{
    let x = secs * 1_000_000_000 + sub + 999_999_999;
    if sub > 0 {
        assert(x == (secs + 1) * 1_000_000_000 + (sub - 1)) by (nonlinear_arith)
            requires
                x == secs * 1_000_000_000 + sub + 999_999_999,
        ;
        vstd::arithmetic::div_mod::lemma_fundamental_div_mod_converse(
            x as int,
            1_000_000_000,
            (secs + 1) as int,
            (sub - 1) as int,
        );
    } else {
        vstd::arithmetic::div_mod::lemma_fundamental_div_mod_converse(
            x as int,
            1_000_000_000,
            secs as int,
            999_999_999,
        );
    }
}

/// How many epoch ticks `timeout` is worth, as at least one.
///
/// Rounds up, so a sub-tick timeout still gets one whole tick (a deadline of
/// zero would trap the call before it runs), and saturates rather than
/// wrapping for an absurd duration.
pub fn deadline_ticks(timeout: Duration) -> (r: u64)
    ensures
        r == ticks_for(duration_nanos(timeout)),
{
    let secs = as_secs(&timeout);
    let sub = subsec_nanos(&timeout);
    ticks_from_parts(secs, sub)
}

/// How many epoch ticks a duration of `secs` whole seconds and `sub`
/// nanoseconds is worth: rounded up, at least one, saturated at `u64::MAX`.
pub fn ticks_from_parts(secs: u64, sub: u32) -> (r: u64)
    requires
        sub < 1_000_000_000,
    ensures
        r == ticks_for(secs as nat * 1_000_000_000 + sub as nat),
{
    proof {
        lemma_ceil_ticks(secs as nat, sub as nat);
    }
    if sub > 0 {
        if secs == u64::MAX {
            u64::MAX
        } else {
            secs + 1
        }
    } else if secs == 0 {
        1
    } else {
        secs
    }
}

/// The deadline is never zero, never shorter than the budget, and less than
/// one tick longer than it (when it does not saturate).
pub proof fn law_deadline_covers_budget(nanos: nat)
    ensures
        ticks_for(nanos) >= 1,
        ticks_for(nanos) < u64::MAX ==> ticks_for(nanos) as nat * 1_000_000_000 >= nanos,
        nanos > 0 && ticks_for(nanos) < u64::MAX ==> (ticks_for(nanos) as nat - 1) * 1_000_000_000
            < nanos,
{
    let t = (nanos + 999_999_999) / 1_000_000_000;
    vstd::arithmetic::div_mod::lemma_fundamental_div_mod(
        (nanos + 999_999_999) as int,
        1_000_000_000,
    );
    let r = (nanos + 999_999_999) % 1_000_000_000;
    assert(nanos + 999_999_999 == t * 1_000_000_000 + r);
    assert(0 <= r < 1_000_000_000);
}

} // verus!
