//! What the sequencer asks of the platform: the select line, the power line,
//! the serial channel and the delay, one action at a time.

use vstd::prelude::*;
use crate::register::wire_octets;

verus! {

/// The settle delay that follows every bus operation, in milliseconds.
pub const SETTLE_MS: u32 = 10;

/// One request to the platform.
#[derive(Clone, Copy, Debug, PartialEq, Eq)]
pub enum Action {
    /// Drive the select line: `active` opens a transaction, idle closes it.
    SelectSet { active: bool },
    /// Drive the line that powers and enables the device.
    PowerEnableSet { active: bool },
    /// Transmit three octets, most significant bit of the first octet first.
    SerialWrite { octets: [u8; 3] },
    /// Block for at least `ms` milliseconds.
    DelayMs { ms: u32 },
}

/// The framed write of the register in `container`: select active, the three
/// octets, select idle.
pub open spec fn framed_write(container: u32) -> Seq<Action> {
    seq![
        Action::SelectSet { active: true },
        Action::SerialWrite { octets: wire_octets(container) },
        Action::SelectSet { active: false },
    ]
}

/// A 24-bit register of the LMX2594, held in the low bits of a 32-bit container.
pub trait Lmx2594 {
    /// The container, whose bits 24 to 31 never reach the wire.
    spec fn container(&self) -> u32;

    /// The three octets of the register, most significant first.
    fn reg(&self) -> (octets: [u8; 3])
        ensures
            octets == wire_octets(self.container()),
    ;

    /// The bus actions of the framed write of the register, in order.
    fn write_reg(&self) -> (frame: [Action; 3])
        ensures
            frame@ == framed_write(self.container()),
    ;
}

impl Lmx2594 for u32 {
    open spec fn container(&self) -> u32 {
        *self
    }

    fn reg(&self) -> (octets: [u8; 3]) {
        let container: u32 = *self;
        assert((container >> 16) & 0xff == (container / 0x1_0000) % 0x100
            && (container >> 8) & 0xff == (container / 0x100) % 0x100
            && container & 0xff == container % 0x100) by (bit_vector);
        let octets = [
            ((container >> 16) & 0xff) as u8,
            ((container >> 8) & 0xff) as u8,
            (container & 0xff) as u8,
        ];
        assert(octets =~= wire_octets(container));
        octets
    }

    fn write_reg(&self) -> (frame: [Action; 3]) {
        let frame = [
            Action::SelectSet { active: true },
            Action::SerialWrite { octets: self.reg() },
            Action::SelectSet { active: false },
        ];
        assert(frame@ =~= framed_write(*self));
        frame
    }
}

} // verus!
