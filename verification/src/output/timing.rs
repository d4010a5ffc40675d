use vstd::prelude::*;
use vstd::arithmetic::div_mod::lemma_add_mod_noop;
use vstd::arithmetic::div_mod::lemma_small_mod;

use rp235x_hal::fugit::ExtU64;
use rp235x_hal::fugit::Instant;

verus! {

// Timestamps are the tick counts of the microsecond timer, the values that
// the timer's `Instant<u64, 1, 1_000_000>` carries.

/// Number of distinct tick counts; tick arithmetic wraps around it.
pub open spec fn tick_modulus() -> int {
    0x1_0000_0000_0000_0000
}

/// `a + b` on tick counts, wrapping around.
pub open spec fn ticks_wrapping_add(a: u64, b: u64) -> u64 {
    ((a + b) % tick_modulus()) as u64
}

/// `a - b` on tick counts, wrapping around.
pub open spec fn ticks_wrapping_sub(a: u64, b: u64) -> u64 {
    ((a - b) % tick_modulus()) as u64
}

/// The tick count `micros` microseconds after `start`, wrapping around.
pub open spec fn ticks_after_micros(start: u64, micros: nat) -> u64 {
    ((start + micros) % tick_modulus()) as u64
}

/// Adding durations one after the other lands where adding their sum does.
pub proof fn lemma_ticks_after_micros_accumulates(start: u64, micros: nat, step: u64)
    ensures
        ticks_wrapping_add(ticks_after_micros(start, micros), step) == ticks_after_micros(
            start,
            micros + step as nat,
        ),
{
    lemma_small_mod(step as nat, tick_modulus() as nat);
    lemma_add_mod_noop(start + micros, step as int, tick_modulus());
}

/// No time after `start` is `start` itself.
pub proof fn lemma_ticks_after_no_micros(start: u64)
    ensures
        ticks_after_micros(start, 0) == start,
{
    lemma_small_mod(start as nat, tick_modulus() as nat);
}

/// Instant `a` comes after instant `b`: the counter may have wrapped once
/// between them, so `a` is after `b` when going forward from `b` reaches `a`
/// in less than half the range of the counter.
pub open spec fn instant_is_after(a: u64, b: u64) -> bool {
    a != b && ticks_wrapping_sub(a, b) < u64::MAX / 2
}

/// Instant `a` comes before instant `b`, in the same wrapping sense.
pub open spec fn instant_is_before(a: u64, b: u64) -> bool {
    a != b && ticks_wrapping_sub(a, b) > u64::MAX / 2
}

/// fugit's `>` on two microsecond `Instant`s. Its `const_cmp` reports
/// `Greater` exactly when the ticks differ and their wrapping difference is
/// below half the range, which is what the contract states.
#[verifier::external_body]
pub(crate) fn instant_after(timestamp: u64, reference: u64) -> (after: bool)
    ensures
        after == instant_is_after(timestamp, reference),
{
    Instant::<u64, 1, 1_000_000>::from_ticks(timestamp) > Instant::<u64, 1, 1_000_000>::from_ticks(
        reference,
    )
}

/// fugit's `<` on two microsecond `Instant`s. Its `const_cmp` reports
/// `Less` exactly when the ticks differ and their wrapping difference is
/// above half the range, which is what the contract states.
#[verifier::external_body]
pub(crate) fn instant_before(timestamp: u64, reference: u64) -> (before: bool)
    ensures
        before == instant_is_before(timestamp, reference),
{
    Instant::<u64, 1, 1_000_000>::from_ticks(timestamp) < Instant::<u64, 1, 1_000_000>::from_ticks(
        reference,
    )
}

/// fugit's `Instant + Duration` with the duration made by `ExtU64::micros`.
/// On the same time base `micros` keeps the value as ticks and the addition
/// is `wrapping_add` on ticks, so it never panics; the contract states the
/// resulting tick count.
#[verifier::external_body]
pub(crate) fn instant_plus_micros(timestamp: u64, micros: u64) -> (later: u64)
    ensures
        later == ticks_wrapping_add(timestamp, micros),
{
    (Instant::<u64, 1, 1_000_000>::from_ticks(timestamp) + micros.micros()).ticks()
}

/// fugit's `Instant - Instant` followed by `Duration::to_millis`. The
/// subtraction panics when `later` is before `earlier` in fugit's wrapping
/// order, which the `requires` rules out; otherwise it yields the wrapping
/// difference of the ticks, and `to_millis` divides microseconds by 1000,
/// rounding down.
#[verifier::external_body]
pub(crate) fn millis_between(later: u64, earlier: u64) -> (millis: u64)
    requires
        !instant_is_before(later, earlier),
    ensures
        millis == ticks_wrapping_sub(later, earlier) / 1000,
{
    (Instant::<u64, 1, 1_000_000>::from_ticks(later) - Instant::<u64, 1, 1_000_000>::from_ticks(
        earlier,
    )).to_millis()
}

} // verus!
