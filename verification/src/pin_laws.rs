//! What holds of the pin table whatever is done with it.

use crate::rush_pin_manager::{pin_exists, slot_wf, Outcome, PinError, PinTable, PIN_COUNT};
use crate::text::{bit, decimal};
use vstd::prelude::*;

verus! {

impl PinTable {
    /// The table after `k` steps of the sweep.
    pub open spec fn steps(self, k: nat) -> PinTable
        decreases k,
    {
        if k == 0 {
            self
        } else {
            self.step().steps((k - 1) as nat)
        }
    }

    /// The table after one step for each entry of `levels`, the line of pin
    /// `n` taking the entry's level from outside just before the step.
    pub open spec fn steps_sensing(self, n: int, levels: Seq<bool>) -> PinTable
        decreases levels.len(),
    {
        if levels.len() == 0 {
            self
        } else {
            self.sense(n, levels[0]).step().steps_sensing(n, levels.drop_first())
        }
    }

    /// The number of steps that a run of the sweep takes.
    pub open spec fn run_length(self) -> nat
        decreases self.steps_left(),
    {
        if self.step_outcome() == Outcome::Continue && 0 < self.cursor < PIN_COUNT {
            1 + self.step().run_length()
        } else {
            1
        }
    }

    /// How many steps the sweep takes before it visits slot `n`.
    pub open spec fn distance_to(self, n: int) -> nat {
        ((n - self.cursor + 49) % 49) as nat
    }
}

/// The initial table is sound.
pub proof fn initial_is_sound()
    ensures
        PinTable::initial().wf(),
{
}

/// Every operation keeps a sound table sound.
pub proof fn operations_keep_soundness(table: PinTable, n: int, value: bool)
    requires
        table.wf(),
    ensures
        table.coerce_input(n).wf(),
        table.coerce_output(n).wf(),
        table.write(n, value).wf(),
        table.watch(n).wf(),
        table.unwatch(n).wf(),
        table.sense(n, value).wf(),
        table.set_fault(n, value).wf(),
        table.step().wf(),
{
    assert(table.coerce_input(n).wf());
    assert(table.coerce_output(n).wf());
    assert(table.write(n, value).wf());
    assert(table.watch(n).wf());
    assert(table.unwatch(n).wf());
    assert(table.sense(n, value).wf());
    assert(table.set_fault(n, value).wf());
    assert(table.step().wf());
}

/// On a number that names no line of the board, 22 to 25 and 49 upwards,
/// every operation reports that the pin is absent, never a fault of the
/// hardware, and leaves the table as it was.
pub proof fn absent_pins_are_reported_absent(table: PinTable, n: int, value: bool)
    requires
        table.wf(),
        22 <= n < 26 || n >= 49,
    ensures
        table.pin_at(n).is_none(),
        table.presence(n) == Err::<(), PinError>(PinError::PinAbsent),
        table.read_result(n) == Err::<bool, PinError>(PinError::PinAbsent),
        table.write_result(n) == Err::<(), PinError>(PinError::PinAbsent),
        table.coerce_input(n) == table,
        table.coerce_output(n) == table,
        table.write(n, value) == table,
        table.watch(n) == table,
        table.unwatch(n) == table,
        table.sense(n, value) == table,
        table.set_fault(n, value) == table,
{
    if n < 49 {
        assert(slot_wf(table.slots[n], n));
    }
}

/// On a number that names a line of the board, no operation reports that
/// the pin is absent.
pub proof fn present_pins_are_found(table: PinTable, n: int)
    requires
        table.wf(),
        pin_exists(n),
    ensures
        table.pin_at(n).is_some(),
        table.presence(n).is_ok(),
        table.read_result(n) != Err::<bool, PinError>(PinError::PinAbsent),
        table.write_result(n) != Err::<(), PinError>(PinError::PinAbsent),
{
    assert(slot_wf(table.slots[n], n));
}

/// Reading a pin back after a write that succeeded returns the value
/// written, through both changes of direction.
pub proof fn read_returns_what_was_written(table: PinTable, n: int, value: bool)
    requires
        table.wf(),
        table.write_result(n).is_ok(),
    ensures
        table.write(n, value).read_result(n) == Ok::<bool, PinError>(value),
{
}

/// A write to a pin that exists fails only where the hardware refuses.
pub proof fn write_fails_only_on_fault(table: PinTable, n: int)
    requires
        table.wf(),
        pin_exists(n),
    ensures
        table.write_result(n).is_ok() <==> !table.pin_at(n).unwrap().faulty,
        table.read_result(n).is_ok() <==> !table.pin_at(n).unwrap().faulty,
{
    assert(slot_wf(table.slots[n], n));
}

/// An operation on one pin leaves every other slot as it was.
pub proof fn other_pins_are_untouched(table: PinTable, n: int, m: int, value: bool)
    requires
        table.wf(),
        n != m,
        0 <= m < PIN_COUNT,
    ensures
        table.coerce_input(n).slots[m] == table.slots[m],
        table.coerce_output(n).slots[m] == table.slots[m],
        table.write(n, value).slots[m] == table.slots[m],
        table.watch(n).slots[m] == table.slots[m],
        table.unwatch(n).slots[m] == table.slots[m],
        table.sense(n, value).slots[m] == table.slots[m],
        table.set_fault(n, value).slots[m] == table.slots[m],
{
}

/// A step reports only on the slot under the cursor, only if that slot is
/// watched, and changes no other slot.
pub proof fn step_reports_on_watched_slot_only(table: PinTable, n: u8)
    requires
        table.wf(),
    ensures
        table.step().wf(),
        table.step().cursor == (table.cursor + 1) % 49,
        table.step_outcome().reported_pin() == Some(n) ==> table.cursor == n && table.watched(
            n as int,
        ).is_some(),
        n < PIN_COUNT && table.cursor != n ==> table.step().slots[n as int]
            == table.slots[n as int],
        n < PIN_COUNT && table.watched(n as int).is_none() ==> table.step().slots[n as int]
            == table.slots[n as int],
{
    assert(slot_wf(table.slots[table.cursor as int], table.cursor as int));
}

/// The steps before the sweep reaches slot `n` leave that slot alone.
pub proof fn steps_before_visit(table: PinTable, n: u8, k: nat)
    requires
        table.wf(),
        n < PIN_COUNT,
        k <= table.distance_to(n as int),
    ensures
        table.steps(k).wf(),
        table.steps(k).slots[n as int] == table.slots[n as int],
        table.steps(k).cursor == (table.cursor + k) % 49,
        table.steps(k).distance_to(n as int) == table.distance_to(n as int) - k,
    decreases k,
{
    if k > 0 {
        step_reports_on_watched_slot_only(table, n);
        steps_before_visit(table.step(), n, (k - 1) as nat);
    }
}

/// A watched pin that carries the level last seen and whose hardware
/// works is not reported on, however many steps the sweep takes.
pub proof fn steady_watch_is_silent(table: PinTable, n: u8, k: nat)
    requires
        table.wf(),
        table.watched(n as int).is_some(),
        table.pin_at(n as int).unwrap().reading() == Ok::<bool, PinError>(
            table.watched(n as int).unwrap(),
        ),
    ensures
        table.steps(k).wf(),
        table.steps(k).slots[n as int] == table.slots[n as int],
        table.steps(k).step_outcome().reported_pin() != Some(n),
    decreases k,
{
    if k > 0 {
        step_reports_on_watched_slot_only(table, n);
        steady_watch_is_silent(table.step(), n, (k - 1) as nat);
    }
}

/// After a watch on a pin has begun, steps of the sweep report nothing on
/// that pin for as long as the level on its line stays as it is.
pub proof fn no_change_no_report(table: PinTable, n: u8, k: nat)
    requires
        table.wf(),
        table.read_result(n as int).is_ok(),
    ensures
        table.watch(n as int).steps(k).step_outcome().reported_pin() != Some(n),
{
    operations_keep_soundness(table, n as int, false);
    steady_watch_is_silent(table.watch(n as int), n, k);
}

/// Once the line of a watched pin has taken a level other than the one
/// last seen, the sweep reports the change with the new level when it next
/// visits the pin, which is within one sweep: after fewer than 49 steps
/// that report nothing on the pin, the next step reports it.
pub proof fn change_is_reported_within_a_sweep(table: PinTable, n: u8, level: bool)
    requires
        table.wf(),
        table.watched(n as int).is_some(),
        table.watched(n as int).unwrap() != level,
        !table.pin_at(n as int).unwrap().faulty,
    ensures
        table.sense(n as int, level).distance_to(n as int) < PIN_COUNT,
        forall|k: nat|
            k < table.sense(n as int, level).distance_to(n as int) ==> (#[trigger] table.sense(
                n as int,
                level,
            ).steps(k)).step_outcome().reported_pin() != Some(n),
        table.sense(n as int, level).steps(
            table.sense(n as int, level).distance_to(n as int),
        ).step_outcome() == (Outcome::Changed { pin: n, state: level }),
        (Outcome::Changed { pin: n, state: level }).text() == Some(
            "gpio."@ + decimal(n as nat) + " = "@ + bit(level) + "\n"@,
        ),
{
    let sensed = table.sense(n as int, level);
    assert(slot_wf(table.slots[n as int], n as int));
    operations_keep_soundness(table, n as int, level);
    let d = sensed.distance_to(n as int);
    assert forall|k: nat| k < d implies (#[trigger] sensed.steps(k)).step_outcome().reported_pin()
        != Some(n) by {
        steps_before_visit(sensed, n, k);
        step_reports_on_watched_slot_only(sensed.steps(k), n);
    }
    steps_before_visit(sensed, n, d);
}

/// A pin that is not watched stays so through steps of the sweep and
/// changes of the level on its line.
pub proof fn unwatched_stays_unwatched(table: PinTable, n: u8, levels: Seq<bool>)
    requires
        table.wf(),
        table.watched(n as int).is_none(),
    ensures
        table.steps_sensing(n as int, levels).wf(),
        table.steps_sensing(n as int, levels).watched(n as int).is_none(),
    decreases levels.len(),
{
    if levels.len() > 0 {
        let sensed = table.sense(n as int, levels[0]);
        operations_keep_soundness(table, n as int, levels[0]);
        step_reports_on_watched_slot_only(sensed, n);
        unwatched_stays_unwatched(sensed.step(), n, levels.drop_first());
    }
}

/// After the watch on a pin was lifted, no step of the sweep reports on
/// that pin, however many steps are taken and whatever level the line of
/// the pin takes before each of them.
pub proof fn unwatched_pin_is_silent(table: PinTable, n: u8, levels: Seq<bool>)
    requires
        table.wf(),
    ensures
        table.unwatch(n as int).steps_sensing(n as int, levels).step_outcome().reported_pin()
            != Some(n),
{
    operations_keep_soundness(table, n as int, false);
    unwatched_stays_unwatched(table.unwatch(n as int), n, levels);
    step_reports_on_watched_slot_only(table.unwatch(n as int).steps_sensing(n as int, levels), n);
}

/// Steps taken one after the other add up.
pub proof fn steps_add_up(table: PinTable, first: nat, second: nat)
    ensures
        table.steps(first).steps(second) == table.steps(first + second),
    decreases first,
{
    if first > 0 {
        steps_add_up(table.step(), (first - 1) as nat, second);
    }
}

/// A run of the sweep is a number of steps from where the cursor stands,
/// at least one and at most a sweep: all but the last report nothing and
/// complete no sweep, and the last gives the outcome of the run.
pub proof fn run_is_steps(table: PinTable)
    requires
        table.wf(),
    ensures
        1 <= table.run_length() <= PIN_COUNT,
        table.run_length() <= 1 + table.steps_left(),
        table.run().wf(),
        table.run() == table.steps(table.run_length()),
        table.run().cursor == (table.cursor + table.run_length()) % 49,
        table.run_outcome() == table.steps((table.run_length() - 1) as nat).step_outcome(),
        table.run_outcome() != Outcome::Continue,
        forall|k: nat|
            k + 1 < table.run_length() ==> (#[trigger] table.steps(k)).step_outcome()
                == Outcome::Continue,
    decreases table.steps_left(),
{
    step_reports_on_watched_slot_only(table, 0);
    if table.step_outcome() == Outcome::Continue && 0 < table.cursor < PIN_COUNT {
        let next = table.step();
        run_is_steps(next);
        assert forall|k: nat| k + 1 < table.run_length() implies (#[trigger] table.steps(
            k,
        )).step_outcome() == Outcome::Continue by {
            if k > 0 {
                assert(table.steps(k) == next.steps((k - 1) as nat));
            }
        }
    } else {
        assert(table.steps(1) == table.step().steps(0));
    }
}

/// The sweep lives in the table alone: a run goes on where the run before
/// it stopped, whatever became of the line that the earlier run had to
/// push. Two runs are the steps of both, taken from where the cursor stood
/// before the first.
pub proof fn runs_continue_the_sweep(table: PinTable)
    requires
        table.wf(),
    ensures
        table.run().run() == table.steps(table.run_length() + table.run().run_length()),
        table.run().run().cursor == (table.cursor + table.run_length()
            + table.run().run_length()) % 49,
{
    run_is_steps(table);
    run_is_steps(table.run());
    steps_add_up(table, table.run_length(), table.run().run_length());
}

} // verus!
