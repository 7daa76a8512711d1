//! The bring-up as one sequence of actions, and what holds of it: that the
//! sequencer performs exactly this sequence, in which order the registers are
//! written, how many writes there are, and that a fault ends the run.

use vstd::prelude::*;
use crate::bus::{framed_write, Action, SETTLE_MS};
use crate::control::ControlWords;
use crate::register::{wire_address, wire_octets};
use crate::sequencer::{Machine, State};
use crate::table::{in_place, lemma_in_order_is_short, table_in_order};

verus! {

/// The settle delay that follows a bus operation.
pub open spec fn settle() -> Seq<Action> {
    seq![Action::DelayMs { ms: SETTLE_MS }]
}

/// From power-off to the removal of the reset: the select line goes idle, the
/// device is powered, the reset is set and cleared, each followed by the
/// settle delay.
pub open spec fn opening(controls: ControlWords) -> Seq<Action> {
    seq![Action::SelectSet { active: false }] + settle()
        + seq![Action::PowerEnableSet { active: true }] + settle()
        + framed_write(controls.reset_assert) + settle()
        + framed_write(controls.reset_deassert) + settle()
}

/// The programming of the table: a framed write and the settle delay for each
/// register, from the highest address down to register 0.
pub open spec fn programming(table: Seq<u32>) -> Seq<Action>
    decreases table.len(),
{
    if table.len() == 0 {
        Seq::empty()
    } else {
        framed_write(table.last()) + settle() + programming(table.drop_last())
    }
}

/// From the end of programming to the end: one more settle delay, then the
/// calibration is triggered and its bit cleared, each followed by the settle
/// delay.
pub open spec fn closing(controls: ControlWords) -> Seq<Action> {
    settle()
        + framed_write(controls.calibration_enable) + settle()
        + framed_write(controls.calibration_disable) + settle()
}

/// Every action of a complete bring-up, in order.
pub open spec fn plan(table: Seq<u32>, controls: ControlWords) -> Seq<Action> {
    opening(controls) + programming(table) + closing(controls)
}

/// The octets of the serial writes among `actions`, in order.
pub open spec fn writes(actions: Seq<Action>) -> Seq<[u8; 3]>
    decreases actions.len(),
{
    if actions.len() == 0 {
        Seq::empty()
    } else {
        let earlier = writes(actions.drop_last());
        match actions.last() {
            Action::SerialWrite { octets } => earlier.push(octets),
            _ => earlier,
        }
    }
}

/// The words of the table on the wire, from the last word to the first.
pub open spec fn programmed(table: Seq<u32>) -> Seq<[u8; 3]> {
    Seq::new(table.len(), |j: int| wire_octets(table[table.len() - 1 - j]))
}

/// The programming of the table writes to the register at `address`.
pub open spec fn programs(table: Seq<u32>, address: int) -> bool {
    exists|j: int|
        0 <= j < table.len() && wire_address(#[trigger] programmed(table)[j]) == address
}

/// A run of `count` successes.
pub open spec fn successes(count: nat) -> Seq<bool> {
    Seq::new(count, |i: int| true)
}

impl Machine {
    /// The machine once the platform has reported `outcomes`, one for each
    /// action in turn: `true` for success, `false` for a fault.
    pub open spec fn feed(self, outcomes: Seq<bool>) -> Machine
        decreases outcomes.len(),
    {
        if outcomes.len() == 0 {
            self
        } else {
            self.feed(outcomes.drop_last()).react(outcomes.last())
        }
    }
}

/// A complete bring-up of a table of `n` registers takes `21 + 4 * n` actions.
pub proof fn lemma_plan_length(table: Seq<u32>, controls: ControlWords)
    ensures
        plan(table, controls).len() == 21 + 4 * table.len(),
{
    lemma_programming_length(table);
}

/// A bring-up without faults performs the plan: after `count` successes the
/// sequencer asks for the plan's action at `count`, and after the plan's last
/// action it is idle and asks for nothing.
pub proof fn lemma_run_follows_plan(table: Seq<u32>, controls: ControlWords, count: nat)
    requires
        Machine::start(table, controls).configured(),
        count <= plan(table, controls).len(),
    ensures
        ({
            let machine = Machine::start(table, controls).feed(successes(count));
            &&& machine.wf()
            &&& machine.table == table
            &&& machine.controls == controls
            &&& count < plan(table, controls).len() ==> machine.pending() == Some(
                plan(table, controls)[count as int],
            )
            &&& count == plan(table, controls).len() ==> machine.state is Idle
                && machine.pending() is None
        }),
{
    lemma_run_position(table, controls, count);
    lemma_plan_length(table, controls);
    let machine = Machine::start(table, controls).feed(successes(count));
    if !machine.halted() {
        lemma_pending_is_planned(machine);
    }
}

/// The writes of a complete bring-up, in order: the reset is set and cleared,
/// the table is programmed from its last word to its first, the calibration
/// is triggered and its bit cleared. There are four more writes than registers.
pub proof fn lemma_writes_of_plan(table: Seq<u32>, controls: ControlWords)
    ensures
        writes(plan(table, controls)) == seq![
            wire_octets(controls.reset_assert),
            wire_octets(controls.reset_deassert),
        ] + programmed(table) + seq![
            wire_octets(controls.calibration_enable),
            wire_octets(controls.calibration_disable),
        ],
        writes(plan(table, controls)).len() == table.len() + 4,
{
    let line = seq![Action::SelectSet { active: false }] + settle() + seq![
        Action::PowerEnableSet { active: true },
    ] + settle();
    let set = framed_write(controls.reset_assert) + settle();
    let clear = framed_write(controls.reset_deassert) + settle();
    let trigger = framed_write(controls.calibration_enable) + settle();
    let steady = framed_write(controls.calibration_disable) + settle();
    assert(writes(line) =~= Seq::<[u8; 3]>::empty()) by {
        reveal_with_fuel(writes, 5);
        assert(line.drop_last().drop_last().drop_last().drop_last() =~= Seq::<Action>::empty());
    }
    lemma_writes_of_frame(controls.reset_assert);
    lemma_writes_of_frame(controls.reset_deassert);
    lemma_writes_of_frame(controls.calibration_enable);
    lemma_writes_of_frame(controls.calibration_disable);
    lemma_writes_of_programming(table);
    assert(opening(controls) =~= line + set + clear);
    lemma_writes_in_parts(line + set, clear);
    lemma_writes_in_parts(line, set);
    assert(closing(controls) =~= settle() + trigger + steady);
    lemma_writes_in_parts(settle() + trigger, steady);
    lemma_writes_in_parts(settle(), trigger);
    lemma_writes_in_parts(opening(controls) + programming(table), closing(controls));
    lemma_writes_in_parts(opening(controls), programming(table));
    assert(writes(plan(table, controls)) =~= seq![
        wire_octets(controls.reset_assert),
        wire_octets(controls.reset_deassert),
    ] + programmed(table) + seq![
        wire_octets(controls.calibration_enable),
        wire_octets(controls.calibration_disable),
    ]);
}

/// The programming of a table in order writes each word once, from the last
/// to the first. The addresses on the wire run from the highest of the table
/// down to 0 in steps of one: they are strictly descending, and every
/// register of the table is written.
pub proof fn lemma_programming_order(table: Seq<u32>)
    requires
        table_in_order(table),
    ensures
        writes(programming(table)) == programmed(table),
        programmed(table).len() == table.len(),
        forall|j: int|
            0 <= j < table.len() ==> wire_address(#[trigger] programmed(table)[j]) == table.len()
                - 1 - j,
        forall|i: int, j: int|
            0 <= i < j < table.len() ==> wire_address(#[trigger] programmed(table)[i])
                > wire_address(#[trigger] programmed(table)[j]),
        forall|address: int| 0 <= address < table.len() ==> #[trigger] programs(table, address),
{
    lemma_writes_of_programming(table);
    lemma_in_order_is_short(table);
    assert forall|j: int| 0 <= j < table.len() implies wire_address(
        #[trigger] programmed(table)[j],
    ) == table.len() - 1 - j by {
        assert(in_place(table, table.len() - 1 - j));
    }
    assert forall|address: int| 0 <= address < table.len() implies #[trigger] programs(
        table,
        address,
    ) by {
        let j: int = table.len() - 1 - address;
        assert(wire_address(programmed(table)[j]) == address);
    }
}

/// Every serial write of the plan is framed and settled: the select line goes
/// active just before it and idle just after it, and the settle delay follows.
/// The select line goes active for a serial write only, and every delay is
/// the settle delay.
pub proof fn lemma_writes_are_framed(table: Seq<u32>, controls: ControlWords, at: int)
    requires
        0 <= at < plan(table, controls).len(),
    ensures
        plan(table, controls)[at] is SerialWrite ==> {
            &&& 1 <= at
            &&& at + 2 < plan(table, controls).len()
            &&& plan(table, controls)[at - 1] == Action::SelectSet { active: true }
            &&& plan(table, controls)[at + 1] == Action::SelectSet { active: false }
            &&& plan(table, controls)[at + 2] == Action::DelayMs { ms: SETTLE_MS }
        },
        plan(table, controls)[at] == (Action::SelectSet { active: true }) ==> {
            &&& at + 1 < plan(table, controls).len()
            &&& plan(table, controls)[at + 1] is SerialWrite
        },
        plan(table, controls)[at] is DelayMs ==> plan(table, controls)[at] == (Action::DelayMs {
            ms: SETTLE_MS,
        }),
{
    let middle = programming(table);
    lemma_programming_length(table);
    assert(opening(controls).len() == 12);
    assert(closing(controls).len() == 9);
    if 12 <= at < 12 + middle.len() {
        let j: int = (at - 12) / 4;
        lemma_programming_at(table, j);
        let four = middle.subrange(4 * j, 4 * j + 4);
        assert(four[0] == middle[4 * j]);
        assert(four[1] == middle[4 * j + 1]);
        assert(four[2] == middle[4 * j + 2]);
        assert(four[3] == middle[4 * j + 3]);
    }
}

/// Whatever the platform reports, the sequencer keeps its configuration and
/// stays well-formed: it has halted, or an action of its state is pending.
pub proof fn lemma_feed_keeps_wf(machine: Machine, outcomes: Seq<bool>)
    requires
        machine.wf(),
    ensures
        machine.feed(outcomes).wf(),
        machine.feed(outcomes).table == machine.table,
        machine.feed(outcomes).controls == machine.controls,
        machine.feed(outcomes).halted() <==> machine.feed(outcomes).pending() is None,
    decreases outcomes.len(),
{
    if outcomes.len() > 0 {
        let before = machine.feed(outcomes.drop_last());
        lemma_feed_keeps_wf(machine, outcomes.drop_last());
        if !before.halted() {
            lemma_completed_moves_on(before);
        }
    }
}

/// A fault is final: when the platform reports a fault for the pending
/// action, the bring-up is aborted, and whatever the platform reports
/// afterwards, the sequencer stays aborted and asks for no further action.
pub proof fn lemma_fault_is_final(machine: Machine, later: Seq<bool>)
    requires
        machine.wf(),
        !machine.halted(),
    ensures
        machine.react(false).feed(later).state is Aborted,
        machine.react(false).feed(later).pending() is None,
        machine.react(false).feed(later).wf(),
    decreases later.len(),
{
    if later.len() > 0 {
        lemma_fault_is_final(machine, later.drop_last());
    }
}

/// A fault ends the run: where the platform reports success for the first
/// `at` actions of the plan and a fault for the next, the sequencer has asked
/// for the plan's actions up to that one, in order, and asks for none after it.
pub proof fn lemma_fault_ends_run(
    table: Seq<u32>,
    controls: ControlWords,
    outcomes: Seq<bool>,
    at: int,
)
    requires
        Machine::start(table, controls).configured(),
        0 <= at < outcomes.len(),
        at < plan(table, controls).len(),
        forall|i: int| 0 <= i < at ==> outcomes[i],
        !outcomes[at],
    ensures
        forall|i: int|
            0 <= i <= at ==> (#[trigger] Machine::start(table, controls).feed(
                outcomes.take(i),
            )).pending() == Some(plan(table, controls)[i]),
        forall|i: int|
            at < i <= outcomes.len() ==> (#[trigger] Machine::start(table, controls).feed(
                outcomes.take(i),
            )).pending() is None,
{
    let start = Machine::start(table, controls);
    assert forall|i: int| 0 <= i <= at implies (#[trigger] start.feed(
        outcomes.take(i),
    )).pending() == Some(plan(table, controls)[i]) by {
        assert(outcomes.take(i) =~= successes(i as nat));
        lemma_run_follows_plan(table, controls, i as nat);
    }
    assert forall|i: int| at < i <= outcomes.len() implies (#[trigger] start.feed(
        outcomes.take(i),
    )).pending() is None by {
        let before = start.feed(successes(at as nat));
        let later = outcomes.subrange(at + 1, i);
        lemma_run_follows_plan(table, controls, at as nat);
        assert(outcomes.take(i) =~= successes(at as nat) + seq![false] + later);
        lemma_feed_in_parts(start, successes(at as nat) + seq![false], later);
        lemma_feed_in_parts(start, successes(at as nat), seq![false]);
        assert(before.feed(seq![false]) == before.react(false)) by {
            assert(seq![false].drop_last() =~= Seq::<bool>::empty());
            assert(before.feed(Seq::<bool>::empty()) == before);
        }
        lemma_fault_is_final(before, later);
    }
}

/// The number of actions that a machine on its way has behind it.
spec fn position(machine: Machine) -> int {
    let n: int = machine.table.len() as int;
    machine.done + match machine.state {
        State::PoweredOff => 0,
        State::LineIdle => 1,
        State::ChipEnabled => 3,
        State::InReset => 7,
        State::ResetCleared => 11,
        State::Programming { addr } => 15 + 4 * (n - 1 - addr),
        State::CalibrationTriggered => 16 + 4 * n,
        State::CalibrationSettled => 20 + 4 * n,
        State::Idle | State::Aborted => 21 + 4 * n,
    }
}

proof fn lemma_programming_length(table: Seq<u32>)
    ensures
        programming(table).len() == 4 * table.len(),
    decreases table.len(),
{
    if table.len() > 0 {
        lemma_programming_length(table.drop_last());
    }
}

/// The four actions of the programming from index `4 * j` on are the framed
/// write of the register `j` places below the highest, and the settle delay.
proof fn lemma_programming_at(table: Seq<u32>, j: int)
    requires
        0 <= j < table.len(),
    ensures
        programming(table).subrange(4 * j, 4 * j + 4) == framed_write(table[table.len() - 1 - j])
            + settle(),
    decreases table.len(),
{
    let rest = table.drop_last();
    lemma_programming_length(rest);
    if j == 0 {
        assert(programming(table).subrange(0, 4) =~= framed_write(table.last()) + settle());
    } else {
        lemma_programming_at(rest, j - 1);
        assert(programming(table).subrange(4 * j, 4 * j + 4) =~= programming(rest).subrange(
            4 * (j - 1),
            4 * (j - 1) + 4,
        ));
    }
}

/// A machine on its way has its position inside the plan, and the action
/// pending there is the plan's.
proof fn lemma_pending_is_planned(machine: Machine)
    requires
        machine.wf(),
        !machine.halted(),
    ensures
        0 <= position(machine) < plan(machine.table, machine.controls).len(),
        machine.pending() == Some(plan(machine.table, machine.controls)[position(machine)]),
{
    let table = machine.table;
    let n: int = table.len() as int;
    let middle = programming(table);
    lemma_programming_length(table);
    lemma_in_order_is_short(table);
    assert(opening(machine.controls).len() == 12);
    assert(closing(machine.controls).len() == 9);
    match machine.state {
        State::ResetCleared => {
            lemma_programming_at(table, 0);
            let four = middle.subrange(0, 4);
            if machine.done >= 1 {
                assert(four[machine.done - 1] == middle[machine.done - 1]);
            }
        },
        State::Programming { addr } => {
            let j: int = n - 1 - addr;
            lemma_programming_at(table, j);
            let four = middle.subrange(4 * j, 4 * j + 4);
            if machine.done == 0 {
                assert(four[3] == middle[4 * j + 3]);
            } else if addr > 0 {
                lemma_programming_at(table, j + 1);
                let next = middle.subrange(4 * j + 4, 4 * j + 8);
                assert(next[machine.done - 1] == middle[4 * j + 3 + machine.done]);
            }
        },
        _ => {},
    }
}

/// Success moves a machine on its way one place on in the plan.
proof fn lemma_completed_moves_on(machine: Machine)
    requires
        machine.wf(),
        !machine.halted(),
    ensures
        machine.completed().wf(),
        position(machine.completed()) == position(machine) + 1,
        !(machine.completed().state is Aborted),
        machine.completed().table == machine.table,
        machine.completed().controls == machine.controls,
{
    lemma_in_order_is_short(machine.table);
}

/// After `count` successes the machine is `count` actions into the plan.
proof fn lemma_run_position(table: Seq<u32>, controls: ControlWords, count: nat)
    requires
        Machine::start(table, controls).configured(),
        count <= plan(table, controls).len(),
    ensures
        ({
            let machine = Machine::start(table, controls).feed(successes(count));
            &&& machine.wf()
            &&& machine.table == table
            &&& machine.controls == controls
            &&& position(machine) == count
            &&& !(machine.state is Aborted)
        }),
    decreases count,
{
    let start = Machine::start(table, controls);
    if count == 0 {
        assert(start.feed(successes(0)) == start);
    } else {
        let before = start.feed(successes((count - 1) as nat));
        lemma_run_position(table, controls, (count - 1) as nat);
        lemma_plan_length(table, controls);
        assert(successes(count).drop_last() =~= successes((count - 1) as nat));
        assert(start.feed(successes(count)) == before.react(true));
        lemma_completed_moves_on(before);
    }
}

proof fn lemma_feed_in_parts(machine: Machine, first: Seq<bool>, second: Seq<bool>)
    ensures
        machine.feed(first + second) == machine.feed(first).feed(second),
    decreases second.len(),
{
    if second.len() == 0 {
        assert(first + second =~= first);
    } else {
        lemma_feed_in_parts(machine, first, second.drop_last());
        assert((first + second).drop_last() =~= first + second.drop_last());
    }
}

proof fn lemma_writes_in_parts(first: Seq<Action>, second: Seq<Action>)
    ensures
        writes(first + second) == writes(first) + writes(second),
    decreases second.len(),
{
    if second.len() == 0 {
        assert(first + second =~= first);
        assert(writes(first) + writes(second) =~= writes(first));
    } else {
        lemma_writes_in_parts(first, second.drop_last());
        assert((first + second).drop_last() =~= first + second.drop_last());
        assert(writes(first + second) =~= writes(first) + writes(second));
    }
}

/// A framed write with its settle delay holds one serial write, of the octets
/// of its word, and a settle delay alone holds none.
proof fn lemma_writes_of_frame(container: u32)
    ensures
        writes(framed_write(container) + settle()) == seq![wire_octets(container)],
        writes(settle()) == Seq::<[u8; 3]>::empty(),
{
    reveal_with_fuel(writes, 4);
    let frame = framed_write(container);
    assert(frame.drop_last().drop_last().drop_last() =~= Seq::<Action>::empty());
    assert(writes(frame) =~= seq![wire_octets(container)]);
    assert(writes(settle()) =~= Seq::<[u8; 3]>::empty());
    lemma_writes_in_parts(frame, settle());
    assert(writes(frame) + writes(settle()) =~= seq![wire_octets(container)]);
}

proof fn lemma_writes_of_programming(table: Seq<u32>)
    ensures
        writes(programming(table)) == programmed(table),
    decreases table.len(),
{
    if table.len() == 0 {
        assert(writes(programming(table)) =~= programmed(table));
    } else {
        let rest = table.drop_last();
        lemma_writes_of_programming(rest);
        lemma_writes_of_frame(table.last());
        lemma_writes_in_parts(framed_write(table.last()) + settle(), programming(rest));
        assert(seq![wire_octets(table.last())] + programmed(rest) =~= programmed(table));
    }
}

} // verus!
