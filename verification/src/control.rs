//! The four words of register 0 that carry the reset and calibration handshake.

use vstd::prelude::*;
use crate::register::RegisterWord;
use crate::table::REG_MAP;

verus! {

/// The device-reset bit of register 0.
pub const RESET: u32 = 0x0002;

/// The frequency-calibration-enable bit of register 0.
pub const FCAL_EN: u32 = 0x0008;

/// Register 0 with the device held in reset.
pub const RESET_ON: u32 = 0x00_241e;

/// Register 0 with the reset removed.
pub const RESET_OFF: u32 = 0x00_241c;

/// Register 0 with the VCO calibration enabled.
pub const FCAL_EN_ON: u32 = 0x00_241c;

/// Register 0 with the VCO calibration disabled.
pub const FCAL_EN_OFF: u32 = 0x00_2414;

/// The four control words as numbers.
pub struct ControlWords {
    pub reset_assert: u32,
    pub reset_deassert: u32,
    pub calibration_enable: u32,
    pub calibration_disable: u32,
}

impl ControlWords {
    /// The four words fit together: each is a word of register 0; reset is
    /// set in the first and clear in the second; the second and the third
    /// are the same word; the third and the fourth differ in the calibration
    /// bit and in nothing else, and the third has it set.
    pub open spec fn coherent(self) -> bool {
        &&& self.reset_assert < 0x1_0000
        &&& self.reset_deassert < 0x1_0000
        &&& self.calibration_enable < 0x1_0000
        &&& self.calibration_disable < 0x1_0000
        &&& self.reset_assert & RESET == RESET
        &&& self.reset_deassert & RESET == 0
        &&& self.reset_deassert == self.calibration_enable
        &&& self.calibration_enable & FCAL_EN == FCAL_EN
        &&& self.calibration_enable ^ self.calibration_disable == FCAL_EN
    }
}

/// The four words as numbers, in the order of the handshake.
pub open spec fn control_words(
    reset_assert: RegisterWord,
    reset_deassert: RegisterWord,
    calibration_enable: RegisterWord,
    calibration_disable: RegisterWord,
) -> ControlWords {
    ControlWords {
        reset_assert: reset_assert@,
        reset_deassert: reset_deassert@,
        calibration_enable: calibration_enable@,
        calibration_disable: calibration_disable@,
    }
}

/// The control words of the LMX2594 for the register map of this crate.
pub open spec fn lmx2594_words() -> ControlWords {
    ControlWords {
        reset_assert: RESET_ON,
        reset_deassert: RESET_OFF,
        calibration_enable: FCAL_EN_ON,
        calibration_disable: FCAL_EN_OFF,
    }
}

/// The control words of the handshake, known to fit together.
#[derive(Clone, Copy, Debug)]
pub struct ControlConstants {
    reset_assert: RegisterWord,
    reset_deassert: RegisterWord,
    calibration_enable: RegisterWord,
    calibration_disable: RegisterWord,
}

impl View for ControlConstants {
    type V = ControlWords;

    closed spec fn view(&self) -> ControlWords {
        control_words(
            self.reset_assert,
            self.reset_deassert,
            self.calibration_enable,
            self.calibration_disable,
        )
    }
}

impl ControlConstants {
    #[verifier::type_invariant]
    pub open spec fn inv(self) -> bool {
        self@.coherent()
    }

    /// The constants made of the four words, where they fit together.
    pub fn new(
        reset_assert: RegisterWord,
        reset_deassert: RegisterWord,
        calibration_enable: RegisterWord,
        calibration_disable: RegisterWord,
    ) -> (constants: Option<ControlConstants>)
        ensures
            constants is Some <==> control_words(
                reset_assert,
                reset_deassert,
                calibration_enable,
                calibration_disable,
            ).coherent(),
            constants matches Some(c) ==> c@ == control_words(
                reset_assert,
                reset_deassert,
                calibration_enable,
                calibration_disable,
            ),
    {
        let on: u32 = reset_assert.raw();
        let off: u32 = reset_deassert.raw();
        let enable: u32 = calibration_enable.raw();
        let disable: u32 = calibration_disable.raw();
        if on < 0x1_0000 && off < 0x1_0000 && enable < 0x1_0000 && disable < 0x1_0000
            && on & RESET == RESET && off & RESET == 0 && off == enable
            && enable & FCAL_EN == FCAL_EN && enable ^ disable == FCAL_EN {
            Some(
                ControlConstants {
                    reset_assert,
                    reset_deassert,
                    calibration_enable,
                    calibration_disable,
                },
            )
        } else {
            None
        }
    }

    /// The control words of the LMX2594 for the register map of this crate.
    pub fn lmx2594() -> (constants: ControlConstants)
        ensures
            constants@ == lmx2594_words(),
    {
        proof {
            lemma_lmx2594_controls();
        }
        let on = RegisterWord::from_raw(RESET_ON);
        let off = RegisterWord::from_raw(RESET_OFF);
        let enable = RegisterWord::from_raw(FCAL_EN_ON);
        let disable = RegisterWord::from_raw(FCAL_EN_OFF);
        ControlConstants {
            reset_assert: on.unwrap(),
            reset_deassert: off.unwrap(),
            calibration_enable: enable.unwrap(),
            calibration_disable: disable.unwrap(),
        }
    }

    /// The word that holds the device in reset.
    pub fn reset_assert(&self) -> (word: RegisterWord)
        ensures
            word@ == self@.reset_assert,
    {
        self.reset_assert
    }

    /// The word that removes the reset.
    pub fn reset_deassert(&self) -> (word: RegisterWord)
        ensures
            word@ == self@.reset_deassert,
    {
        self.reset_deassert
    }

    /// The word that triggers the calibration.
    pub fn calibration_enable(&self) -> (word: RegisterWord)
        ensures
            word@ == self@.calibration_enable,
    {
        self.calibration_enable
    }

    /// The word that leaves the calibration bit clear.
    pub fn calibration_disable(&self) -> (word: RegisterWord)
        ensures
            word@ == self@.calibration_disable,
    {
        self.calibration_disable
    }
}

/// Of coherent control words: reset-deassert and calibration-enable are the
/// same bit pattern, and calibration-enable and calibration-disable differ in
/// exactly one bit, the calibration bit, which is 8 in value.
pub proof fn lemma_control_invariants(words: ControlWords)
    requires
        words.coherent(),
    ensures
        words.reset_deassert == words.calibration_enable,
        words.calibration_enable ^ words.calibration_disable == FCAL_EN,
        words.calibration_enable == words.calibration_disable + 8,
        words.calibration_disable & FCAL_EN == 0,
        words.reset_assert != words.reset_deassert,
{
    let enable: u32 = words.calibration_enable;
    let disable: u32 = words.calibration_disable;
    assert(enable == disable + 8 && disable & 0x0008 == 0) by (bit_vector)
        requires
            enable & 0x0008 == 0x0008,
            enable ^ disable == 0x0008,
            enable < 0x1_0000,
    ;
}

/// The control words of the LMX2594 fit together, and the word that removes
/// the reset is the map's word for register 0.
pub proof fn lemma_lmx2594_controls()
    ensures
        lmx2594_words().coherent(),
        lmx2594_words().reset_deassert == REG_MAP[0],
{
    assert(0x00_241eu32 & 0x0002 == 0x0002 && 0x00_241cu32 & 0x0002 == 0
        && 0x00_241cu32 & 0x0008 == 0x0008 && 0x00_241cu32 ^ 0x00_2414u32 == 0x0008)
        by (bit_vector);
}

} // verus!
