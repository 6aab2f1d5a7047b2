use vstd::prelude::*;

verus! {

/// Number of timer ticks in a second.
pub const TICK_RATE_HZ: u32 = 60;

/// A timer after one tick: one less, and never below zero.
pub open spec fn ticked(timer: u8) -> u8 {
    if timer > 0 {
        (timer - 1) as u8
    } else {
        0
    }
}

/// A timer after `ticks` ticks.
pub open spec fn after_ticks(timer: u8, ticks: nat) -> u8
    decreases ticks,
{
    if ticks == 0 {
        timer
    } else {
        after_ticks(ticked(timer), (ticks - 1) as nat)
    }
}

/// A timer counts down by one per tick until it is zero, and stays there:
/// after `ticks` ticks it stands at its start less `ticks`, or at zero if
/// that would be negative.
pub proof fn lemma_timer_floor(timer: u8, ticks: nat)
    ensures
        after_ticks(timer, ticks) == if timer >= ticks {
            timer - ticks
        } else {
            0
        },
    decreases ticks,
{
    if ticks > 0 {
        lemma_timer_floor(ticked(timer), (ticks - 1) as nat);
    }
}

/// Once a timer has reached zero, more ticks leave it there.
pub proof fn lemma_timer_stays_zero(timer: u8, ticks: nat, more: nat)
    requires
        ticks >= timer,
    ensures
        after_ticks(timer, ticks) == 0,
        after_ticks(timer, ticks + more) == 0,
{
    lemma_timer_floor(timer, ticks);
    lemma_timer_floor(timer, ticks + more);
}

/// Counts a timer down by one tick.
pub fn countdown(timer: u8) -> (r: u8)
    ensures
        r == ticked(timer),
{
    if timer > 0 {
        timer - 1
    } else {
        0
    }
}

} // verus!
