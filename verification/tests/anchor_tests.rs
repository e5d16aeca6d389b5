use engage_save::encode::encode;
use engage_save::save::{SaveError, SaveFile};

// Layout below the anchor key's match position h:
//   currency counter at h - 12 - 32, bond-fragment counter at h - 12.
fn anchor_buffer(anchor: &str, money: i32, bonds: u32) -> Vec<u8> {
    let mut buf = vec![0xEEu8; 4]; // h = 48: 4 leading filler bytes
    buf.extend_from_slice(&money.to_le_bytes()); // at 4 == 48 - 44
    buf.extend_from_slice(&[0xEE; 28]);
    buf.extend_from_slice(&bonds.to_le_bytes()); // at 36 == 48 - 12
    buf.extend_from_slice(&[0xDD; 8]);
    buf.extend_from_slice(&encode(anchor)); // match starts at 48
    buf.push(0x00);
    buf.extend_from_slice(&[0x55; 6]);
    buf
}

#[test]
fn get_anchor_relative_counters() {
    let buf = anchor_buffer("Sommie", 999, 77);
    let sf = SaveFile::from_array("save.bin", &buf, "Sommie");
    assert_eq!(sf.get_bond_fragments(), Ok(77));
    assert_eq!(sf.get_money(), Ok(999));
}

#[test]
fn set_anchor_relative_counters_round_trip() {
    let buf = anchor_buffer("Sommie", 999, 77);
    let mut sf = SaveFile::from_array("save.bin", &buf, "Sommie");
    assert_eq!(sf.set_bond_fragments(1234), Ok(()));
    assert_eq!(sf.set_money(-5), Ok(()));
    assert_eq!(sf.get_bond_fragments(), Ok(1234));
    assert_eq!(sf.get_money(), Ok(-5i32));

    // Exactly the two 4-byte counters changed.
    let expected = anchor_buffer("Sommie", -5, 1234);
    assert_eq!(sf.get_data(), expected);
}

#[test]
fn money_sits_32_bytes_below_bond_fragments() {
    let mut buf = anchor_buffer("Sommie", 0, 0);
    // Write recognizable values through the accessors, then check where
    // they landed relative to the anchor match position h == 48.
    let mut sf = SaveFile::from_array("save.bin", &buf, "Sommie");
    sf.set_bond_fragments(0x0B0B0B0B).unwrap();
    sf.set_money(0x0A0A0A0A).unwrap();
    let out = sf.get_data();
    assert_eq!(&out[48 - 12..48 - 8], &[0x0B; 4]);
    assert_eq!(&out[48 - 44..48 - 40], &[0x0A; 4]);
    // The starting buffer held fillers there.
    buf[36] = 0x0B;
    assert_ne!(buf, out);
}

#[test]
fn absent_anchor_reports_key_not_found() {
    let buf = anchor_buffer("Sommie", 1, 2);
    let mut sf = SaveFile::from_array("save.bin", &buf, "Nobody");
    assert_eq!(sf.get_bond_fragments(), Err(SaveError::KeyNotFound));
    assert_eq!(sf.get_money(), Err(SaveError::KeyNotFound));
    assert_eq!(sf.set_bond_fragments(1), Err(SaveError::KeyNotFound));
    assert_eq!(sf.set_money(1), Err(SaveError::KeyNotFound));
    assert_eq!(sf.get_data(), buf);
}

#[test]
fn anchor_too_close_to_buffer_start_is_a_layout_violation() {
    // The anchor key's match starts at 20: the bond-fragment counter at
    // 20 - 12 = 8 fits, the currency counter at 20 - 44 does not.
    let mut buf = vec![0xEEu8; 20];
    buf.extend_from_slice(&encode("Sommie"));
    buf.push(0x00);
    buf[8..12].copy_from_slice(&41u32.to_le_bytes());
    let mut sf = SaveFile::from_array("save.bin", &buf, "Sommie");
    assert_eq!(sf.get_bond_fragments(), Ok(41));
    assert_eq!(sf.get_money(), Err(SaveError::LayoutViolation));
    assert_eq!(sf.set_money(1), Err(SaveError::LayoutViolation));
    assert_eq!(sf.get_data(), buf);
}
