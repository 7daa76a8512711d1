//! Bring-up of an LMX2594 frequency synthesizer over a synchronous serial bus.
//!
//! The device is configured through 24-bit write words, one per register, and
//! wants them in a fixed order: reset set and cleared, every register from the
//! highest address down to register 0, then register 0 once more to trigger
//! the VCO calibration, each step followed by a settle delay.
//!
//! - [`register`] holds the word and its encoding into three octets.
//! - [`table`] holds the register table and the map for the target frequency.
//! - [`control`] holds the four words of register 0 that carry the handshake.
//! - [`bus`] holds the actions that the platform performs: the select line,
//!   the power line, the serial channel and the delay.
//! - [`sequencer`] decides which action comes next. The platform performs it
//!   and reports the outcome; the first fault ends the run.
//! - [`protocol`] states the whole bring-up as one sequence of actions and
//!   proves that the sequencer performs exactly that sequence.

pub mod bus;
pub mod control;
pub mod protocol;
pub mod register;
pub mod sequencer;
pub mod table;
