//! The voting round's countdown: one tick per second, and the round closes
//! when the countdown runs out.

use vstd::prelude::*;

verus! {

/// The countdown after one tick from `countdown`, and whether the round
/// closes at this tick (after which the countdown starts again at
/// `timer`).
pub open spec fn tick_spec(countdown: nat, timer: nat) -> (nat, bool) {
    if countdown <= 1 {
        (timer, true)
    } else {
        ((countdown - 1) as nat, false)
    }
}

/// The countdown after `ticks` ticks from `countdown`.
pub open spec fn countdown_after(countdown: nat, timer: nat, ticks: nat) -> nat
    decreases ticks,
{
    if ticks == 0 {
        countdown
    } else {
        tick_spec(countdown_after(countdown, timer, (ticks - 1) as nat), timer).0
    }
}

/// Whether the `ticks`-th tick from `countdown` closes a round.
pub open spec fn closes_at(countdown: nat, timer: nat, ticks: nat) -> bool {
    ticks >= 1 && tick_spec(countdown_after(countdown, timer, (ticks - 1) as nat), timer).1
}

/// One second of the round timer: counts `countdown` down by one; when it
/// reaches zero the round closes and the countdown restarts at `timer`.
pub fn tick_countdown(countdown: usize, timer: usize) -> (r: (usize, bool))
    requires
        countdown >= 1,
    ensures
        (r.0 as nat, r.1) == tick_spec(countdown as nat, timer as nat),
{
    let next = countdown - 1;
    if next == 0 {
        (timer, true)
    } else {
        (next, false)
    }
}

/// Law: with a timer of `timer` seconds, a round that starts with a full
/// countdown closes at the `timer`-th tick and at no earlier tick, and the
/// next round starts with a full countdown again.
pub proof fn rounds_last_timer_ticks(timer: nat, ticks: nat)
    requires
        timer >= 1,
        1 <= ticks <= timer,
    ensures
        closes_at(timer, timer, ticks) <==> ticks == timer,
        countdown_after(timer, timer, ticks) == if ticks == timer {
            timer
        } else {
            (timer - ticks) as nat
        },
    decreases ticks,
{
    if ticks > 1 {
        rounds_last_timer_ticks(timer, (ticks - 1) as nat);
    }
}

} // verus!
