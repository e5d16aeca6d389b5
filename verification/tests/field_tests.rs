use engage_save::encode::encode;
use engage_save::save::{SaveError, SaveFile};

fn buffer_with_key(key: &str, value: [u8; 4]) -> Vec<u8> {
    let mut buf = vec![0x11u8, 0x22];
    buf.extend_from_slice(&encode(key));
    buf.push(0xAA); // filler byte between key and value
    buf.extend_from_slice(&value);
    buf.extend_from_slice(&[0x33, 0x44]);
    buf
}

#[test]
fn get_u32_reads_value_past_key() {
    let buf = buffer_with_key("IronIngot", [5, 0, 0, 0]);
    let sf = SaveFile::from_array("save.bin", &buf, "anchor");
    assert_eq!(sf.get_simple_u32("IronIngot"), Ok(5));
}

#[test]
fn set_u32_then_get_u32_round_trip() {
    let buf = buffer_with_key("IronIngot", [5, 0, 0, 0]);
    let mut sf = SaveFile::from_array("save.bin", &buf, "anchor");
    assert_eq!(sf.set_simple_u32("IronIngot", 6), Ok(()));
    assert_eq!(sf.get_simple_u32("IronIngot"), Ok(6));

    // Only the 4 value bytes changed.
    let expected = buffer_with_key("IronIngot", [6, 0, 0, 0]);
    assert_eq!(sf.get_data(), expected);

    assert_eq!(sf.set_simple_u32("IronIngot", u32::MAX), Ok(()));
    assert_eq!(sf.get_simple_u32("IronIngot"), Ok(u32::MAX));
}

#[test]
fn set_i32_then_get_i32_round_trip() {
    let buf = buffer_with_key("Gold", [0, 0, 0, 0]);
    let mut sf = SaveFile::from_array("save.bin", &buf, "anchor");
    for v in [0i32, -1, 123_456, i32::MIN, i32::MAX] {
        assert_eq!(sf.set_simple_i32("Gold", v), Ok(()));
        assert_eq!(sf.get_simple_i32("Gold"), Ok(v));
    }
}

#[test]
fn signed_and_unsigned_views_share_bytes() {
    let buf = buffer_with_key("K", [0xFF, 0xFF, 0xFF, 0xFF]);
    let sf = SaveFile::from_array("save.bin", &buf, "anchor");
    assert_eq!(sf.get_simple_u32("K"), Ok(u32::MAX));
    assert_eq!(sf.get_simple_i32("K"), Ok(-1));
}

#[test]
fn missing_key_reports_key_not_found_and_leaves_buffer_alone() {
    let buf = buffer_with_key("IronIngot", [5, 0, 0, 0]);
    let mut sf = SaveFile::from_array("save.bin", &buf, "anchor");
    assert_eq!(sf.get_simple_u32("NonexistentKey"), Err(SaveError::KeyNotFound));
    assert_eq!(sf.set_simple_u32("NonexistentKey", 9), Err(SaveError::KeyNotFound));
    assert_eq!(sf.get_simple_i32("NonexistentKey"), Err(SaveError::KeyNotFound));
    assert_eq!(sf.set_simple_i32("NonexistentKey", 9), Err(SaveError::KeyNotFound));
    assert_eq!(sf.get_data(), buf);
}

#[test]
fn value_region_out_of_bounds_is_a_layout_violation() {
    // The key sits at the very end: the derived offset leaves no room for
    // a 4-byte value.
    let mut buf = vec![0x11u8];
    buf.extend_from_slice(&encode("K"));
    let mut sf = SaveFile::from_array("save.bin", &buf, "anchor");
    assert_eq!(sf.get_simple_u32("K"), Err(SaveError::LayoutViolation));
    assert_eq!(sf.set_simple_u32("K", 1), Err(SaveError::LayoutViolation));
    assert_eq!(sf.get_data(), buf);
}

#[test]
fn getters_report_construction_arguments() {
    let buf = [1u8, 2, 3, 4];
    let sf = SaveFile::from_array("some/save.bin", &buf, "Sommie");
    assert_eq!(sf.get_name(), "some/save.bin");
    assert_eq!(sf.get_stored_sommie_name(), "Sommie");
    assert_eq!(sf.get_data(), buf.to_vec());

    let copy = sf.clone();
    assert_eq!(copy.get_name(), "some/save.bin");
    assert_eq!(copy.get_stored_sommie_name(), "Sommie");
    assert_eq!(copy.get_data(), buf.to_vec());
}

#[test]
fn search_data_matches_free_search() {
    let buf = buffer_with_key("IronIngot", [5, 0, 0, 0]);
    let sf = SaveFile::from_array("save.bin", &buf, "anchor");
    let pat = encode("IronIngot");
    assert_eq!(
        sf.search_data(&pat),
        engage_save::search::search_bytes(&buf, &pat)
    );
    assert_eq!(sf.search_data(&[0xFE, 0xFD]), None);
}
