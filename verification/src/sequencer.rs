//! The power-up sequencer: which action the platform performs next, and where
//! the bring-up stands once the platform reports how the action went.
//!
//! The sequencer performs nothing itself. The platform asks it for the next
//! action, performs it, and hands back the outcome; the first fault ends the
//! run.
//!
//! A state begins when the bus operation that establishes it has completed,
//! and the settle delay that follows the operation is spent in the state. So
//! the line is idle from the moment the select line is driven, through the
//! delay, until the power line is driven; and so on down the line of states.

use vstd::prelude::*;
use crate::bus::{framed_write, Action, Lmx2594, SETTLE_MS};
use crate::control::{lemma_lmx2594_controls, lmx2594_words, ControlConstants, ControlWords};
use crate::table::{lemma_reg_map_in_order, table_in_order, RegisterTable, REG_MAP};

verus! {

/// Where the bring-up of the device stands. The states follow each other in
/// one line, from `PoweredOff` to `Idle`; only a fault leaves the line.
#[derive(Clone, Copy, Debug, PartialEq, Eq)]
pub enum State {
    /// Nothing has been driven yet.
    PoweredOff,
    /// The select line is idle; the device has no power yet.
    LineIdle,
    /// The device is powered and enabled.
    ChipEnabled,
    /// The reset bit is set.
    InReset,
    /// The reset bit is clear again.
    ResetCleared,
    /// Register `addr` is written, and every register above it.
    Programming { addr: u8 },
    /// Register 0 is written once more, with the calibration bit set.
    CalibrationTriggered,
    /// The calibration bit is clear, its steady value.
    CalibrationSettled,
    /// The last settle delay is over and the bring-up complete. Nothing follows.
    Idle,
    /// The platform reported a fault. Nothing follows.
    Aborted,
}

/// The sequencer as a mathematical value: its configuration, the state of the
/// device, and how many actions of that state the platform has completed.
pub struct Machine {
    pub table: Seq<u32>,
    pub controls: ControlWords,
    pub state: State,
    pub done: nat,
}

impl Machine {
    /// The machine before anything is driven.
    pub open spec fn start(table: Seq<u32>, controls: ControlWords) -> Machine {
        Machine { table, controls, state: State::PoweredOff, done: 0 }
    }

    /// The table is in order and has a register 0, the control words fit
    /// together, and the words that remove the reset and trigger the
    /// calibration are the table's word for register 0.
    pub open spec fn configured(self) -> bool {
        &&& table_in_order(self.table)
        &&& self.table.len() >= 1
        &&& self.controls.coherent()
        &&& self.controls.reset_deassert == self.table[0]
    }

    /// No action follows in this state.
    pub open spec fn halted(self) -> bool {
        self.state is Idle || self.state is Aborted
    }

    /// The machine is configured, a register being programmed is in the table,
    /// and an action of the state is still to come unless the machine has halted.
    pub open spec fn wf(self) -> bool {
        &&& self.configured()
        &&& self.state matches State::Programming { addr } ==> addr < self.table.len()
        &&& if self.halted() {
            self.done == 0
        } else {
            self.done < self.script().len()
        }
    }

    /// The delays that the device spends settling in the state: one, but for
    /// two after register 0 is programmed, and none before anything is driven.
    pub open spec fn settling(self) -> Seq<Action> {
        let delay = Action::DelayMs { ms: SETTLE_MS };
        match self.state {
            State::PoweredOff | State::Idle | State::Aborted => Seq::empty(),
            State::Programming { addr } => if addr == 0 {
                seq![delay, delay]
            } else {
                seq![delay]
            },
            _ => seq![delay],
        }
    }

    /// The state that follows. Programming runs from the highest address of the
    /// table down to register 0.
    pub open spec fn successor(self) -> State {
        match self.state {
            State::PoweredOff => State::LineIdle,
            State::LineIdle => State::ChipEnabled,
            State::ChipEnabled => State::InReset,
            State::InReset => State::ResetCleared,
            State::ResetCleared => State::Programming { addr: (self.table.len() - 1) as u8 },
            State::Programming { addr } => if addr > 0 {
                State::Programming { addr: (addr - 1) as u8 }
            } else {
                State::CalibrationTriggered
            },
            State::CalibrationTriggered => State::CalibrationSettled,
            State::CalibrationSettled => State::Idle,
            State::Idle => State::Idle,
            State::Aborted => State::Aborted,
        }
    }

    /// The bus operation that brings the device into `state`.
    pub open spec fn entry(self, state: State) -> Seq<Action> {
        match state {
            State::LineIdle => seq![Action::SelectSet { active: false }],
            State::ChipEnabled => seq![Action::PowerEnableSet { active: true }],
            State::InReset => framed_write(self.controls.reset_assert),
            State::ResetCleared => framed_write(self.controls.reset_deassert),
            State::Programming { addr } => framed_write(self.table[addr as int]),
            State::CalibrationTriggered => framed_write(self.controls.calibration_enable),
            State::CalibrationSettled => framed_write(self.controls.calibration_disable),
            State::PoweredOff | State::Idle | State::Aborted => Seq::empty(),
        }
    }

    /// All the actions of the current state, in order: the device settles,
    /// then the bus operation of the next state follows.
    pub open spec fn script(self) -> Seq<Action> {
        self.settling() + self.entry(self.successor())
    }

    /// The action that the platform is to perform now, if any.
    pub open spec fn pending(self) -> Option<Action> {
        if self.done < self.script().len() {
            Some(self.script()[self.done as int])
        } else {
            None
        }
    }

    /// The machine once the pending action has succeeded.
    pub open spec fn completed(self) -> Machine {
        if self.done + 1 < self.script().len() {
            Machine { done: self.done + 1, ..self }
        } else {
            Machine { state: self.successor(), done: 0, ..self }
        }
    }

    /// The machine once the platform has reported a fault.
    pub open spec fn aborted(self) -> Machine {
        Machine { state: State::Aborted, done: 0, ..self }
    }

    /// The machine once the platform has reported the outcome of the pending
    /// action. Where no action is pending, nothing changes.
    pub open spec fn react(self, success: bool) -> Machine {
        if self.pending() is None {
            self
        } else if success {
            self.completed()
        } else {
            self.aborted()
        }
    }
}

/// The power-up sequencer over a register table and its control words.
#[derive(Debug)]
pub struct Sequencer<'a> {
    table: RegisterTable<'a>,
    controls: ControlConstants,
    state: State,
    done: u8,
}

impl<'a> View for Sequencer<'a> {
    type V = Machine;

    closed spec fn view(&self) -> Machine {
        Machine {
            table: self.table@,
            controls: self.controls@,
            state: self.state,
            done: self.done as nat,
        }
    }
}

impl<'a> Sequencer<'a> {
    #[verifier::type_invariant]
    pub open spec fn inv(self) -> bool {
        self@.wf()
    }

    /// The sequencer before anything is driven, where the table has a register
    /// 0 and the control words that remove the reset and trigger the
    /// calibration are its word.
    pub fn new(table: RegisterTable<'a>, controls: ControlConstants) -> (sequencer: Option<
        Sequencer<'a>,
    >)
        ensures
            sequencer is Some <==> table@.len() >= 1 && controls@.reset_deassert == table@[0],
            sequencer matches Some(s) ==> s@ == Machine::start(table@, controls@),
    {
        proof {
            use_type_invariant(&table);
            use_type_invariant(&controls);
        }
        match table.get(0) {
            Some(word) => {
                if word.raw() == controls.reset_deassert().raw() {
                    Some(Sequencer { table, controls, state: State::PoweredOff, done: 0 })
                } else {
                    None
                }
            },
            None => None,
        }
    }

    /// The sequencer for the register map and the control words of this crate.
    pub fn lmx2594() -> (sequencer: Sequencer<'static>)
        ensures
            sequencer@ == Machine::start(REG_MAP@, lmx2594_words()),
    {
        proof {
            lemma_reg_map_in_order();
            lemma_lmx2594_controls();
        }
        Sequencer {
            table: RegisterTable::lmx2594(),
            controls: ControlConstants::lmx2594(),
            state: State::PoweredOff,
            done: 0,
        }
    }

    /// Where the bring-up stands.
    pub fn state(&self) -> (state: State)
        ensures
            state == self@.state,
    {
        self.state
    }

    /// The action that the platform is to perform now. There is none once the
    /// bring-up is complete or aborted.
    pub fn next_action(&self) -> (action: Option<Action>)
        ensures
            action == self@.pending(),
            action is None <==> self@.halted(),
    {
        proof {
            use_type_invariant(self);
        }
        let settle: u8 = self.settle_count();
        if self.done < settle {
            Some(Action::DelayMs { ms: SETTLE_MS })
        } else {
            self.entry_action(self.successor(), (self.done - settle) as usize)
        }
    }

    /// Takes the outcome of the action that `next_action` gave. Success moves
    /// the bring-up on by one action; a fault aborts it for good. Either way
    /// the outcome comes back as it was given. Where no action was pending,
    /// nothing changes.
    pub fn advance<Fault>(&mut self, outcome: Result<(), Fault>) -> (surfaced: Result<
        (),
        Fault,
    >)
        ensures
            surfaced == outcome,
            final(self)@ == old(self)@.react(outcome is Ok),
    {
        proof {
            use_type_invariant(&*self);
        }
        match self.state {
            State::Idle | State::Aborted => {
                return outcome;
            },
            _ => {},
        }
        if outcome.is_ok() {
            let length: u8 = self.settle_count() + self.entry_length(self.successor());
            if self.done + 1 < length {
                self.done = self.done + 1;
            } else {
                let next = self.successor();
                self.done = 0;
                self.state = next;
            }
        } else {
            self.done = 0;
            self.state = State::Aborted;
        }
        outcome
    }

    /// The number of delays that the device spends settling in the state.
    fn settle_count(&self) -> (count: u8)
        ensures
            count == self@.settling().len(),
            count <= 2,
    {
        match self.state {
            State::PoweredOff | State::Idle | State::Aborted => 0,
            State::Programming { addr } => if addr == 0 {
                2
            } else {
                1
            },
            _ => 1,
        }
    }

    /// The state that follows.
    fn successor(&self) -> (next: State)
        ensures
            next == self@.successor(),
            next matches State::Programming { addr } ==> addr < self@.table.len(),
    {
        proof {
            use_type_invariant(self);
        }
        match self.state {
            State::PoweredOff => State::LineIdle,
            State::LineIdle => State::ChipEnabled,
            State::ChipEnabled => State::InReset,
            State::InReset => State::ResetCleared,
            State::ResetCleared => State::Programming { addr: (self.table.len() - 1) as u8 },
            State::Programming { addr } => if addr > 0 {
                State::Programming { addr: addr - 1 }
            } else {
                State::CalibrationTriggered
            },
            State::CalibrationTriggered => State::CalibrationSettled,
            State::CalibrationSettled => State::Idle,
            State::Idle => State::Idle,
            State::Aborted => State::Aborted,
        }
    }

    /// The number of actions in the bus operation that brings the device into `state`.
    fn entry_length(&self, state: State) -> (length: u8)
        ensures
            length == self@.entry(state).len(),
            length <= 3,
    {
        match state {
            State::LineIdle | State::ChipEnabled => 1,
            State::PoweredOff | State::Idle | State::Aborted => 0,
            _ => 3,
        }
    }

    /// The action at `index` of the bus operation that brings the device into `state`.
    fn entry_action(&self, state: State, index: usize) -> (action: Option<Action>)
        requires
            state matches State::Programming { addr } ==> addr < self@.table.len(),
        ensures
            action == if index < self@.entry(state).len() {
                Some(self@.entry(state)[index as int])
            } else {
                None::<Action>
            },
    {
        let word = match state {
            State::LineIdle => {
                return if index < 1 {
                    Some(Action::SelectSet { active: false })
                } else {
                    None
                };
            },
            State::ChipEnabled => {
                return if index < 1 {
                    Some(Action::PowerEnableSet { active: true })
                } else {
                    None
                };
            },
            State::PoweredOff | State::Idle | State::Aborted => {
                return None;
            },
            State::InReset => self.controls.reset_assert(),
            State::ResetCleared => self.controls.reset_deassert(),
            State::Programming { addr } => match self.table.get(addr) {
                Some(word) => word,
                None => {
                    return None;
                },
            },
            State::CalibrationTriggered => self.controls.calibration_enable(),
            State::CalibrationSettled => self.controls.calibration_disable(),
        };
        let frame = word.write_reg();
        if index < 3 {
            Some(frame[index])
        } else {
            None
        }
    }
}

} // verus!
