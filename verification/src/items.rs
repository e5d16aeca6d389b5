//! The static table mapping convoy item identifiers to the key strings
//! under which their counters are stored in the save file.

use vstd::prelude::*;

verus! {

/// An item whose stock is kept as a keyed counter in the save file.
pub enum SomnielItem {
    IronIngot,
    SteelIngot,
    SilverIngot,
    MtCrystal,
    CrtCrystal,
    DexCrystal,
    SpdCrystal,
    DefCrystal,
    ResCrystal,
    HitCrystal,
    AvoCrystal,
    CritAvoidCrystal,
    DragonBane,
    RiderBane,
    ArmorBane,
    FlierBane,
    CorruptedBane,
    SecondSeal,
    MasterSeal,
}

impl SomnielItem {
    /// The key string under which this item's counter is stored.
    pub fn to_id(&self) -> (r: &'static str)
        ensures
            r@ == match self {
                SomnielItem::IronIngot => "G_所持_IID_てつの晶石"@,
                SomnielItem::SteelIngot => "G_所持_IID_はがねの晶石"@,
                SomnielItem::SilverIngot => "G_所持_IID_ぎんの晶石"@,
                SomnielItem::MtCrystal => "G_所持_IID_素材_威力"@,
                SomnielItem::CrtCrystal => "G_所持_IID_素材_必殺"@,
                SomnielItem::DexCrystal => "G_所持_IID_素材_技"@,
                SomnielItem::SpdCrystal => "G_所持_IID_素材_速さ"@,
                SomnielItem::DefCrystal => "G_所持_IID_素材_守備"@,
                SomnielItem::ResCrystal => "G_所持_IID_素材_魔防"@,
                SomnielItem::HitCrystal => "G_所持_IID_素材_命中"@,
                SomnielItem::AvoCrystal => "G_所持_IID_素材_回避"@,
                SomnielItem::CritAvoidCrystal => "G_所持_IID_素材_必避"@,
                SomnielItem::DragonBane => "G_所持_IID_素材_竜特効"@,
                SomnielItem::RiderBane => "G_所持_IID_素材_騎馬特効"@,
                SomnielItem::ArmorBane => "G_所持_IID_素材_重装特効"@,
                SomnielItem::FlierBane => "G_所持_IID_素材_飛行特効"@,
                SomnielItem::CorruptedBane => "G_所持_IID_素材_異形特効"@,
                SomnielItem::SecondSeal => "G_所持_IID_チェンジプルフ"@,
                SomnielItem::MasterSeal => "G_所持_IID_マスタープルフ"@,
            },
    {
        match self {
            SomnielItem::IronIngot => "G_所持_IID_てつの晶石",
            SomnielItem::SteelIngot => "G_所持_IID_はがねの晶石",
            SomnielItem::SilverIngot => "G_所持_IID_ぎんの晶石",
            SomnielItem::MtCrystal => "G_所持_IID_素材_威力",
            SomnielItem::CrtCrystal => "G_所持_IID_素材_必殺",
            SomnielItem::DexCrystal => "G_所持_IID_素材_技",
            SomnielItem::SpdCrystal => "G_所持_IID_素材_速さ",
            SomnielItem::DefCrystal => "G_所持_IID_素材_守備",
            SomnielItem::ResCrystal => "G_所持_IID_素材_魔防",
            SomnielItem::HitCrystal => "G_所持_IID_素材_命中",
            SomnielItem::AvoCrystal => "G_所持_IID_素材_回避",
            SomnielItem::CritAvoidCrystal => "G_所持_IID_素材_必避",
            SomnielItem::DragonBane => "G_所持_IID_素材_竜特効",
            SomnielItem::RiderBane => "G_所持_IID_素材_騎馬特効",
            SomnielItem::ArmorBane => "G_所持_IID_素材_重装特効",
            SomnielItem::FlierBane => "G_所持_IID_素材_飛行特効",
            SomnielItem::CorruptedBane => "G_所持_IID_素材_異形特効",
            SomnielItem::SecondSeal => "G_所持_IID_チェンジプルフ",
            SomnielItem::MasterSeal => "G_所持_IID_マスタープルフ",
        }
    }
}

} // verus!
