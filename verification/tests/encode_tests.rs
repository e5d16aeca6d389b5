use engage_save::encode::encode;

#[test]
fn encode_ascii() {
    assert_eq!(encode("AB"), vec![0x41, 0x00, 0x42, 0x00]);
}

#[test]
fn encode_empty() {
    assert_eq!(encode(""), Vec::<u8>::new());
}

#[test]
fn encode_nonascii_bmp() {
    // て is U+3066, つ is U+3064.
    assert_eq!(encode("てつ"), vec![0x66, 0x30, 0x64, 0x30]);
}

#[test]
fn encode_astral_surrogate_pair() {
    // U+1D11E is encoded as the surrogate pair D834 DD1E.
    assert_eq!(encode("\u{1D11E}"), vec![0x34, 0xD8, 0x1E, 0xDD]);
}

#[test]
fn encode_length_always_even() {
    for s in ["", "a", "ab", "てつの晶石", "G_所持_IID_てつの晶石", "\u{1D11E}x"] {
        assert_eq!(encode(s).len() % 2, 0);
    }
}

#[test]
fn encode_decodes_back_as_utf16le() {
    for s in ["IronIngot", "G_所持_IID_素材_威力", "mixed ascii と \u{1D11E}"] {
        let b = encode(s);
        let units: Vec<u16> = b
            .chunks(2)
            .map(|p| u16::from(p[0]) | (u16::from(p[1]) << 8))
            .collect();
        assert_eq!(String::from_utf16(&units).unwrap(), s);
    }
}
