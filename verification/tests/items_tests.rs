use engage_save::encode::encode;
use engage_save::items::SomnielItem;
use engage_save::save::SaveFile;

#[test]
fn item_ids_map_to_stored_key_strings() {
    assert_eq!(SomnielItem::IronIngot.to_id(), "G_所持_IID_てつの晶石");
    assert_eq!(SomnielItem::MtCrystal.to_id(), "G_所持_IID_素材_威力");
    assert_eq!(SomnielItem::SecondSeal.to_id(), "G_所持_IID_チェンジプルフ");
    assert_eq!(SomnielItem::MasterSeal.to_id(), "G_所持_IID_マスタープルフ");
}

#[test]
fn item_counter_access_through_id() {
    let mut buf = vec![0x10u8, 0x20];
    buf.extend_from_slice(&encode(SomnielItem::SilverIngot.to_id()));
    buf.push(0x00);
    buf.extend_from_slice(&42u32.to_le_bytes());
    let mut sf = SaveFile::from_array("save.bin", &buf, "anchor");
    assert_eq!(sf.get_simple_u32(SomnielItem::SilverIngot.to_id()), Ok(42));
    assert_eq!(sf.set_simple_u32(SomnielItem::SilverIngot.to_id(), 99), Ok(()));
    assert_eq!(sf.get_simple_u32(SomnielItem::SilverIngot.to_id()), Ok(99));
}
