use lmx2594::bus::{Action, Lmx2594};
use lmx2594::control::{
    ControlConstants, FCAL_EN, FCAL_EN_OFF, FCAL_EN_ON, RESET, RESET_OFF, RESET_ON,
};
use lmx2594::register::{encode, RegisterWord, WORD_LIMIT};
use lmx2594::table::{RegisterTable, REG_MAP};

fn word(raw: u32) -> RegisterWord {
    RegisterWord::from_raw(raw).unwrap()
}

fn spell(octets: [u8; 3]) -> u32 {
    ((octets[0] as u32) << 16) | ((octets[1] as u32) << 8) | (octets[2] as u32)
}

#[test]
fn encode_gives_the_three_octets_most_significant_first() {
    assert_eq!(encode(word(0x00241e)), [0x00, 0x24, 0x1e]);
    assert_eq!(encode(word(0x010808)), [0x01, 0x08, 0x08]);
    assert_eq!(encode(word(0x46c350)), [0x46, 0xc3, 0x50]);
    assert_eq!(encode(word(0x700000)), [0x70, 0x00, 0x00]);
    assert_eq!(encode(word(0)), [0, 0, 0]);
    assert_eq!(encode(word(0x7fffff)), [0x7f, 0xff, 0xff]);
}

#[test]
fn encode_round_trips_every_word_of_the_map() {
    for raw in REG_MAP {
        let octets = encode(word(raw));
        assert_eq!(spell(octets), raw);
        assert_eq!(raw >> 24, 0);
    }
}

#[test]
fn reg_drops_the_top_octet_of_the_container() {
    assert_eq!(0x12345678u32.reg(), [0x34, 0x56, 0x78]);
    assert_eq!(0xff000000u32.reg(), [0, 0, 0]);
    assert_eq!(0x00241cu32.reg(), [0x00, 0x24, 0x1c]);
    assert_eq!(u32::MAX.reg(), [0xff, 0xff, 0xff]);
}

#[test]
fn write_reg_frames_the_octets_with_the_select_line() {
    assert_eq!(
        0x020500u32.write_reg(),
        [
            Action::SelectSet { active: true },
            Action::SerialWrite { octets: [0x02, 0x05, 0x00] },
            Action::SelectSet { active: false },
        ]
    );
}

#[test]
fn a_word_frames_itself_as_its_container_does() {
    let w = word(0x46c350);
    assert_eq!(w.reg(), [0x46, 0xc3, 0x50]);
    assert_eq!(w.reg(), encode(w));
    assert_eq!(w.write_reg(), 0x46c350u32.write_reg());
    assert_eq!(
        w.write_reg()[1],
        Action::SerialWrite { octets: [0x46, 0xc3, 0x50] }
    );
}

#[test]
fn the_map_is_the_vendor_s_export() {
    assert_eq!(REG_MAP[0], 0x00241c);
    assert_eq!(REG_MAP[1], 0x010808);
    assert_eq!(REG_MAP[7], 0x0740b2);
    assert_eq!(REG_MAP[20], 0x14d848);
    assert_eq!(REG_MAP[36], 0x240800);
    assert_eq!(REG_MAP[45], 0x2dc0df);
    assert_eq!(REG_MAP[58], 0x3a8001);
    assert_eq!(REG_MAP[70], 0x46c350);
    assert_eq!(REG_MAP[78], 0x4e00c3);
    assert_eq!(REG_MAP[97], 0x610888);
    assert_eq!(REG_MAP[105], 0x690021);
    assert_eq!(REG_MAP[112], 0x700000);
    let sum: u64 = REG_MAP.iter().map(|w| (*w & 0xffff) as u64).sum();
    assert_eq!(sum, 451_994);
}

#[test]
fn a_word_is_made_of_address_and_data() {
    let w = RegisterWord::new(0x46, 0xc350).unwrap();
    assert_eq!(w.raw(), 0x46c350);
    assert_eq!(w.address(), 0x46);
    assert_eq!(w.data(), 0xc350);
    let top = RegisterWord::new(0x7f, 0xffff).unwrap();
    assert_eq!(top.raw(), 0x7fffff);
    assert_eq!(RegisterWord::new(0, 0).unwrap().raw(), 0);
}

#[test]
fn an_address_of_more_than_seven_bits_is_no_word() {
    assert!(RegisterWord::new(0x80, 0).is_none());
    assert!(RegisterWord::new(0xff, 0x1234).is_none());
}

#[test]
fn a_container_with_the_read_bit_or_more_is_no_word() {
    assert_eq!(WORD_LIMIT, 0x80_0000);
    assert!(RegisterWord::from_raw(0x7fffff).is_some());
    assert!(RegisterWord::from_raw(0x800000).is_none());
    assert!(RegisterWord::from_raw(0x0100241c).is_none());
    assert!(RegisterWord::from_raw(u32::MAX).is_none());
    assert_eq!(word(0x2dc0df).address(), 0x2d);
    assert_eq!(word(0x2dc0df).data(), 0xc0df);
}

#[test]
fn the_map_holds_each_register_at_its_own_index() {
    assert_eq!(REG_MAP.len(), 113);
    let table = RegisterTable::lmx2594();
    assert_eq!(table.len(), 113);
    for i in 0..113u8 {
        let w = table.get(i).unwrap();
        assert_eq!(w.address(), i);
        assert_eq!(w.raw(), REG_MAP[i as usize]);
    }
    assert!(table.get(113).is_none());
    assert!(table.get(255).is_none());
    assert_eq!(table.get(36).unwrap().data(), 0x0800);
}

#[test]
fn a_table_out_of_order_is_refused() {
    assert!(RegisterTable::new(&[0x00241c, 0x010808, 0x020500]).is_some());
    assert!(RegisterTable::new(&[0x00241c, 0x020500, 0x010808]).is_none());
    assert!(RegisterTable::new(&[0x010808]).is_none());
    assert!(RegisterTable::new(&[0x00241c, 0x010808, 0x030642]).is_none());
    assert!(RegisterTable::new(&[0x00241c, 0x8010808]).is_none());
    assert!(RegisterTable::new(&[0x00241c, 0x810808]).is_none());
    let empty = RegisterTable::new(&[]).unwrap();
    assert_eq!(empty.len(), 0);
    assert!(empty.get(0).is_none());
}

#[test]
fn a_table_has_room_for_128_registers() {
    let full: Vec<u32> = (0..128u32).map(|i| i << 16).collect();
    let table = RegisterTable::new(&full).unwrap();
    assert_eq!(table.len(), 128);
    assert_eq!(table.get(127).unwrap().raw(), 0x7f0000);
    let over: Vec<u32> = (0..129u32).map(|i| i << 16).collect();
    assert!(RegisterTable::new(&over).is_none());
}

#[test]
fn the_control_words_of_the_device_fit_together() {
    assert_eq!(RESET_OFF, FCAL_EN_ON);
    assert_eq!(RESET_OFF, REG_MAP[0]);
    assert_eq!(FCAL_EN_ON ^ FCAL_EN_OFF, FCAL_EN);
    assert_eq!((FCAL_EN_ON ^ FCAL_EN_OFF).count_ones(), 1);
    assert_eq!(RESET_ON & RESET, RESET);
    assert_eq!(RESET_OFF & RESET, 0);
    let c = ControlConstants::lmx2594();
    assert_eq!(c.reset_assert().raw(), 0x00241e);
    assert_eq!(c.reset_deassert().raw(), 0x00241c);
    assert_eq!(c.calibration_enable().raw(), 0x00241c);
    assert_eq!(c.calibration_disable().raw(), 0x002414);
}

#[test]
fn control_words_are_checked_when_they_are_put_together() {
    let made = ControlConstants::new(word(0x241e), word(0x241c), word(0x241c), word(0x2414));
    let c = made.unwrap();
    assert_eq!(c.reset_assert().raw(), 0x241e);
    assert_eq!(c.reset_deassert().raw(), 0x241c);
    assert_eq!(c.calibration_enable().raw(), 0x241c);
    assert_eq!(c.calibration_disable().raw(), 0x2414);
    // reset not set in the first word
    assert!(ControlConstants::new(word(0x241c), word(0x241c), word(0x241c), word(0x2414)).is_none());
    // reset still set in the second
    assert!(ControlConstants::new(word(0x241e), word(0x241e), word(0x241e), word(0x2416)).is_none());
    // second and third differ
    assert!(ControlConstants::new(word(0x241e), word(0x241c), word(0x240c), word(0x2404)).is_none());
    // calibration bit clear in the third
    assert!(ControlConstants::new(word(0x2416), word(0x2414), word(0x2414), word(0x241c)).is_none());
    // third and fourth differ in another bit too
    assert!(ControlConstants::new(word(0x241e), word(0x241c), word(0x241c), word(0x2415)).is_none());
    // third and fourth are the same
    assert!(ControlConstants::new(word(0x241e), word(0x241c), word(0x241c), word(0x241c)).is_none());
    // a word of another register
    assert!(ControlConstants::new(word(0x01241e), word(0x241c), word(0x241c), word(0x2414)).is_none());
    assert!(ControlConstants::new(word(0x241e), word(0x241c), word(0x241c), word(0x012414)).is_none());
}
