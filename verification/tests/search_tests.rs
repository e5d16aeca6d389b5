use engage_save::search::search_bytes;

#[test]
fn search_found_returns_offset_past_match_and_filler() {
    let buf = [9u8, 9, 1, 2, 3, 7, 7];
    // The pattern starts at index 2 and has length 3: the derived offset
    // is 2 + 3 + 1.
    assert_eq!(search_bytes(&buf, &[1, 2, 3]), Some(6));
}

#[test]
fn search_absent_pattern() {
    let buf = [9u8, 9, 1, 2, 3, 7, 7];
    assert_eq!(search_bytes(&buf, &[4, 5]), None);
}

#[test]
fn search_leftmost_match_wins() {
    let buf = [1u8, 2, 0, 1, 2, 0];
    assert_eq!(search_bytes(&buf, &[1, 2]), Some(3));
}

#[test]
fn search_match_at_end() {
    let buf = [0u8, 0, 8, 9];
    // The derived offset may point one past the buffer.
    assert_eq!(search_bytes(&buf, &[8, 9]), Some(5));
}

#[test]
fn search_pattern_longer_than_buffer() {
    assert_eq!(search_bytes(&[1u8, 2], &[1, 2, 3]), None);
}
