//! The 24-bit register word of the LMX2594 and its wire encoding.
//!
//! A word travels most significant bit first: one read/write bit, which is
//! always 0 because the device is only ever written, then seven bits of
//! register address, then sixteen bits of data.

use vstd::prelude::*;
use crate::bus::{framed_write, Action, Lmx2594};

verus! {

/// One past the largest value of a write word: bit 23, the read/write bit, is clear.
pub const WORD_LIMIT: u32 = 0x80_0000;

/// The three octets on the wire of the low 24 bits of `container`, most
/// significant octet first. Bits 24 to 31 of the container do not appear.
pub open spec fn wire_octets(container: u32) -> [u8; 3] {
    [
        ((container as int / 0x1_0000) % 0x100) as u8,
        ((container as int / 0x100) % 0x100) as u8,
        (container as int % 0x100) as u8,
    ]
}

/// The 24-bit number that three octets spell, most significant octet first.
pub open spec fn reassemble(octets: [u8; 3]) -> int {
    octets[0] * 0x1_0000 + octets[1] * 0x100 + octets[2]
}

/// The address field of `container`: bits 16 to 22.
pub open spec fn address_field(container: u32) -> int {
    (container as int / 0x1_0000) % 0x80
}

/// The data field of `container`: bits 0 to 15.
pub open spec fn data_field(container: u32) -> int {
    container as int % 0x1_0000
}

/// The address field of a word on the wire: the low seven bits of its first octet.
pub open spec fn wire_address(octets: [u8; 3]) -> int {
    octets[0] as int % 0x80
}

/// A 24-bit write word: read/write bit 0, 7-bit address, 16-bit data.
#[derive(Clone, Copy, Debug, PartialEq, Eq)]
pub struct RegisterWord {
    raw: u32,
}

impl View for RegisterWord {
    type V = u32;

    /// The word as a number.
    closed spec fn view(&self) -> u32 {
        self.raw
    }
}

impl RegisterWord {
    /// Every word is a write word of 24 bits.
    #[verifier::type_invariant]
    pub open spec fn inv(self) -> bool {
        self@ < WORD_LIMIT
    }

    /// The register that the word is written to.
    pub open spec fn spec_address(self) -> int {
        address_field(self@)
    }

    /// The 16 bits that the register receives.
    pub open spec fn spec_data(self) -> int {
        data_field(self@)
    }

    /// The word for `address` and `data`, where the address fits in 7 bits.
    pub fn new(address: u8, data: u16) -> (word: Option<RegisterWord>)
        ensures
            word is Some <==> address < 0x80,
            word matches Some(w) ==> w@ == address * 0x1_0000 + data && w.spec_address()
                == address && w.spec_data() == data,
    {
        if address < 0x80 {
            let raw: u32 = ((address as u32) << 16) | (data as u32);
            assert(raw < 0x80_0000 && raw == address * 0x1_0000 + data) by (bit_vector)
                requires
                    raw == ((address as u32) << 16) | (data as u32),
                    address < 0x80,
            ;
            Some(RegisterWord { raw })
        } else {
            None
        }
    }

    /// The word held in a 32-bit container, where it is a write word.
    pub fn from_raw(raw: u32) -> (word: Option<RegisterWord>)
        ensures
            word is Some <==> raw < WORD_LIMIT,
            word matches Some(w) ==> w@ == raw,
    {
        if raw < WORD_LIMIT {
            Some(RegisterWord { raw })
        } else {
            None
        }
    }

    /// The word as a number below `WORD_LIMIT`.
    pub fn raw(&self) -> (raw: u32)
        ensures
            raw == self@,
            raw < WORD_LIMIT,
    {
        proof {
            use_type_invariant(self);
        }
        self.raw
    }

    /// The register that the word is written to.
    pub fn address(&self) -> (address: u8)
        ensures
            address == self.spec_address(),
            address < 0x80,
    {
        proof {
            use_type_invariant(self);
        }
        let raw: u32 = self.raw;
        assert(raw >> 16 == raw / 0x1_0000 && raw >> 16 < 0x80) by (bit_vector)
            requires
                raw < 0x80_0000,
        ;
        (raw >> 16) as u8
    }

    /// The 16 bits that the register receives.
    pub fn data(&self) -> (data: u16)
        ensures
            data == self.spec_data(),
    {
        let raw: u32 = self.raw;
        assert(raw & 0xffff == raw % 0x1_0000) by (bit_vector);
        (raw & 0xffff) as u16
    }
}

/// The three octets that carry `word` on the wire.
pub fn encode(word: RegisterWord) -> (octets: [u8; 3])
    ensures
        octets == wire_octets(word@),
{
    word.raw.reg()
}

impl Lmx2594 for RegisterWord {
    open spec fn container(&self) -> u32 {
        self@
    }

    fn reg(&self) -> (octets: [u8; 3]) {
        encode(*self)
    }

    fn write_reg(&self) -> (frame: [Action; 3]) {
        self.raw.write_reg()
    }
}

/// Encoding loses nothing: the three octets of a word spell the word again,
/// the word has no bit above bit 23, and its first octet is its address.
pub proof fn lemma_encode_round_trip(word: RegisterWord)
    requires
        word.inv(),
    ensures
        reassemble(wire_octets(word@)) == word@,
        word@ < 0x100_0000,
        wire_octets(word@)[0] == word.spec_address(),
{
}

/// Of any container, the three octets spell the low 24 bits: the top octet is
/// dropped and nothing else. Their address field is the container's.
pub proof fn lemma_encode_drops_the_top_octet(container: u32)
    ensures
        reassemble(wire_octets(container)) == container as int % 0x100_0000,
        wire_address(wire_octets(container)) == address_field(container),
{
}

} // verus!
