//! What holds of the phases as time passes and rules change.

use crate::light::{IntersectionView, LightColor, LightDuration, LightStatus};
use vstd::prelude::*;

verus! {

/// In a cycle whose colours all last at least a second, a group in a
/// colour of the cycle always has at least a second left: a tick either
/// takes a second off a counter above one, or starts the next colour with
/// its full duration.
pub proof fn lemma_counter_stays_positive(status: LightStatus, durations: LightDuration)
    requires
        durations.cycle_is_positive(),
        status.color != LightColor::UNKNOWN,
        status.counter >= 1,
    ensures
        status.ticked(durations).color != LightColor::UNKNOWN,
        status.ticked(durations).counter >= 1,
{
}

/// A group that has more than `seconds` seconds left in a colour of the
/// cycle still shows
/// that colour `seconds` ticks later, with that many seconds fewer left.
pub proof fn lemma_phase_holds(status: LightStatus, durations: LightDuration, seconds: nat)
    requires
        status.color != LightColor::UNKNOWN,
        seconds < status.counter,
    ensures
        status.after(durations, seconds) == (LightStatus {
            color: status.color,
            counter: (status.counter - seconds) as i64,
        }),
    decreases seconds,
{
    if seconds > 0 {
        lemma_phase_holds(status, durations, (seconds - 1) as nat);
    }
}

/// A group with `status.counter` seconds left in a colour of the cycle
/// changes to the next colour exactly at the tick that uses up the last
/// second, and starts that colour with its full duration.
pub proof fn lemma_phase_ends(status: LightStatus, durations: LightDuration)
    requires
        status.color != LightColor::UNKNOWN,
        status.counter >= 1,
    ensures
        status.after(durations, status.counter as nat) == (LightStatus {
            color: status.color.successor(),
            counter: durations.of(status.color.successor()),
        }),
{
    lemma_phase_holds(status, durations, (status.counter - 1) as nat);
}

/// Ticking `first` seconds and then `second` seconds is ticking
/// `first + second` seconds.
pub proof fn lemma_after_add(status: LightStatus, durations: LightDuration, first: nat, second: nat)
    ensures
        status.after(durations, first + second) == status.after(durations, first).after(
            durations,
            second,
        ),
    decreases second,
{
    if second > 0 {
        lemma_after_add(status, durations, first, (second - 1) as nat);
        assert(first + second - 1 == first + (second - 1));
    }
}

/// The colour and the seconds left `second` seconds into a cycle that
/// starts with a full GREEN phase.
pub open spec fn cycle_phase(durations: LightDuration, second: int) -> LightStatus {
    if second < durations.green {
        LightStatus { color: LightColor::GREEN, counter: (durations.green - second) as i64 }
    } else if second < durations.green + durations.yellow {
        LightStatus {
            color: LightColor::YELLOW,
            counter: (durations.green + durations.yellow - second) as i64,
        }
    } else {
        LightStatus {
            color: LightColor::RED,
            counter: (durations.green + durations.yellow + durations.red - second) as i64,
        }
    }
}

/// The steady state of a group, with no rule change: starting from a full
/// GREEN phase it shows GREEN for the green duration, then YELLOW for the
/// yellow duration, then RED for the red duration, and is back at a full
/// GREEN phase exactly when the three durations have passed.
pub proof fn lemma_steady_cycle(durations: LightDuration, second: nat)
    requires
        durations.cycle_is_positive(),
    ensures
        ({
            let start = LightStatus { color: LightColor::GREEN, counter: durations.green };
            let period = durations.green + durations.yellow + durations.red;
            &&& second < period ==> start.after(durations, second) == cycle_phase(
                durations,
                second as int,
            )
            &&& start.after(durations, period as nat) == start
        }),
{
    let start = LightStatus { color: LightColor::GREEN, counter: durations.green };
    let yellow = LightStatus { color: LightColor::YELLOW, counter: durations.yellow };
    let red = LightStatus { color: LightColor::RED, counter: durations.red };
    let g = durations.green as nat;
    let y = durations.yellow as nat;
    let r = durations.red as nat;
    lemma_phase_ends(start, durations);
    lemma_phase_ends(yellow, durations);
    lemma_phase_ends(red, durations);
    lemma_after_add(start, durations, g, y);
    lemma_after_add(start, durations, g + y, r);
    if second < g {
        lemma_phase_holds(start, durations, second);
    } else if second < g + y {
        lemma_after_add(start, durations, g, (second - g) as nat);
        lemma_phase_holds(yellow, durations, (second - g) as nat);
    } else if second < g + y + r {
        lemma_after_add(start, durations, g + y, (second - g - y) as nat);
        lemma_phase_holds(red, durations, (second - g - y) as nat);
    }
}

/// A group that shows UNKNOWN stays on UNKNOWN whatever time passes.
pub proof fn lemma_unknown_is_frozen(status: LightStatus, durations: LightDuration, seconds: nat)
    requires
        status.color == LightColor::UNKNOWN,
    ensures
        status.after(durations, seconds).color == LightColor::UNKNOWN,
    decreases seconds,
{
    if seconds > 0 {
        lemma_unknown_is_frozen(status, durations, (seconds - 1) as nat);
    }
}

/// After a rule change for the light `id` to a colour of the cycle, every
/// group that owns the light shows that colour with `remain` seconds left
/// and every other group keeps its phase. Where at least one second
/// remains, such a group leaves the colour exactly `remain` ticks later,
/// for the next colour with its full duration. And a group that later
/// enters the colour starts it with `remain` seconds.
pub proof fn lemma_rule_change(state: IntersectionView, id: Seq<char>, code: u64, remain: i64)
    requires
        1 <= code <= 3,
    ensures
        ({
            let color = LightColor::spec_from_code(code as int);
            let changed = state.rule_changed(id, code, remain);
            &&& changed.groups.len() == state.groups.len()
            &&& changed.durations.of(color) == remain
            &&& forall|i: int|
                0 <= i < state.groups.len() && (#[trigger] state.groups[i]).owns(id)
                    ==> changed.groups[i].status == (LightStatus { color, counter: remain })
            &&& forall|i: int|
                0 <= i < state.groups.len() && !(#[trigger] state.groups[i]).owns(id)
                    ==> changed.groups[i] == state.groups[i]
            &&& forall|i: int|
                0 <= i < state.groups.len() && (#[trigger] state.groups[i]).owns(id) && remain
                    >= 1 ==> changed.groups[i].status.after(changed.durations, remain as nat) == (
                LightStatus {
                    color: color.successor(),
                    counter: changed.durations.of(color.successor()),
                })
            &&& forall|before: LightStatus|
                before.color.successor() == color && before.counter == 1 ==> #[trigger] before.ticked(
                    changed.durations,
                ) == (LightStatus { color, counter: remain })
        }),
{
    let color = LightColor::spec_from_code(code as int);
    let changed = state.rule_changed(id, code, remain);
    if remain >= 1 {
        lemma_phase_ends(LightStatus { color, counter: remain }, changed.durations);
    }
}

} // verus!
