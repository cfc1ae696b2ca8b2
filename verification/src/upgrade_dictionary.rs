//! The upgrades, traits, skills and classes the editor offers, with their
//! Chinese names and the level a new one starts at.
use vstd::prelude::*;

verus! {

/// An upgrade the editor offers: its code, its Chinese name and the level it starts at.
pub struct UpgradeEntry {
    pub code: &'static str,
    pub chinese_name: &'static str,
    pub initial_level: i32,
}

/// A class the editor offers: its code, its Chinese name and the level it starts at.
pub struct ClassEntry {
    pub code: &'static str,
    pub chinese_name: &'static str,
    pub initial_level: i32,
}

/// An entry seen as its code, its name and its level.
pub type EntryView = (Seq<char>, Seq<char>, i32);

pub open spec fn upgrade_entries(v: Seq<UpgradeEntry>) -> Seq<EntryView> {
    Seq::new(v.len(), |i: int| (v[i].code@, v[i].chinese_name@, v[i].initial_level))
}

pub open spec fn class_entries(v: Seq<ClassEntry>) -> Seq<EntryView> {
    Seq::new(v.len(), |i: int| (v[i].code@, v[i].chinese_name@, v[i].initial_level))
}

/// The items of the base game.
pub open spec fn item_dictionary_original_entries() -> Seq<EntryView> {
    seq![
        ("Hero_Upgrade_Bomb"@, "炸弹"@, 0i32),
        ("Hero_Upgrade_Cornucopia"@, "雅贝那"@, 0i32),
        ("Hero_Upgrade_Grail"@, "圣杯"@, 0i32),
        ("Hero_Upgrade_Mine"@, "地雷"@, 0i32),
        ("Hero_Upgrade_PhilosophersStone"@, "贤者之石"@, 0i32),
        ("Hero_Upgrade_Size"@, "指挥之戒"@, 0i32),
        ("Hero_Upgrade_Horn"@, "战争号角"@, 0i32),
        ("Hero_Upgrade_Warhammer"@, "战锤"@, 0i32),
    ]
}

/// The items of the base game.
pub fn item_dictionary_original() -> (r: Vec<UpgradeEntry>)
    ensures
        upgrade_entries(r@) == item_dictionary_original_entries(),
{
    let mut v: Vec<UpgradeEntry> = Vec::new();
    v.push(UpgradeEntry { code: "Hero_Upgrade_Bomb", chinese_name: "炸弹", initial_level: 0 });
    v.push(UpgradeEntry { code: "Hero_Upgrade_Cornucopia", chinese_name: "雅贝那", initial_level: 0 });
    v.push(UpgradeEntry { code: "Hero_Upgrade_Grail", chinese_name: "圣杯", initial_level: 0 });
    v.push(UpgradeEntry { code: "Hero_Upgrade_Mine", chinese_name: "地雷", initial_level: 0 });
    v.push(UpgradeEntry { code: "Hero_Upgrade_PhilosophersStone", chinese_name: "贤者之石", initial_level: 0 });
    v.push(UpgradeEntry { code: "Hero_Upgrade_Size", chinese_name: "指挥之戒", initial_level: 0 });
    v.push(UpgradeEntry { code: "Hero_Upgrade_Horn", chinese_name: "战争号角", initial_level: 0 });
    v.push(UpgradeEntry { code: "Hero_Upgrade_Warhammer", chinese_name: "战锤", initial_level: 0 });
    assert(upgrade_entries(v@) =~= item_dictionary_original_entries());
    v
}

/// The items the fusion edition adds.
pub open spec fn item_dictionary_fusion_new_entries() -> Seq<EntryView> {
    seq![
        ("Hero_Item_Charge"@, "盾冲"@, 0i32),
        ("Hero_Item_DeathZone"@, "死亡区域"@, 0i32),
        ("Hero_Item_FrontArmor"@, "正面护甲"@, 0i32),
        ("Hero_Item_SpeedUp"@, "心灵加速器"@, 0i32),
    ]
}

/// The items the fusion edition adds.
pub fn item_dictionary_fusion_new() -> (r: Vec<UpgradeEntry>)
    ensures
        upgrade_entries(r@) == item_dictionary_fusion_new_entries(),
{
    let mut v: Vec<UpgradeEntry> = Vec::new();
    v.push(UpgradeEntry { code: "Hero_Item_Charge", chinese_name: "盾冲", initial_level: 0 });
    v.push(UpgradeEntry { code: "Hero_Item_DeathZone", chinese_name: "死亡区域", initial_level: 0 });
    v.push(UpgradeEntry { code: "Hero_Item_FrontArmor", chinese_name: "正面护甲", initial_level: 0 });
    v.push(UpgradeEntry { code: "Hero_Item_SpeedUp", chinese_name: "心灵加速器", initial_level: 0 });
    assert(upgrade_entries(v@) =~= item_dictionary_fusion_new_entries());
    v
}

/// The items of the modded edition.
pub open spec fn item_dictionary_mod_version_entries() -> Seq<EntryView> {
    seq![
        ("Hero_Item_Charge"@, "盾冲"@, 0i32),
        ("Hero_Item_FrontArmor"@, "正面护甲"@, 0i32),
        ("Hero_Item_SpeedUp"@, "心灵加速器"@, 0i32),
    ]
}

/// The items of the modded edition.
pub fn item_dictionary_mod_version() -> (r: Vec<UpgradeEntry>)
    ensures
        upgrade_entries(r@) == item_dictionary_mod_version_entries(),
{
    let mut v: Vec<UpgradeEntry> = Vec::new();
    v.push(UpgradeEntry { code: "Hero_Item_Charge", chinese_name: "盾冲", initial_level: 0 });
    v.push(UpgradeEntry { code: "Hero_Item_FrontArmor", chinese_name: "正面护甲", initial_level: 0 });
    v.push(UpgradeEntry { code: "Hero_Item_SpeedUp", chinese_name: "心灵加速器", initial_level: 0 });
    assert(upgrade_entries(v@) =~= item_dictionary_mod_version_entries());
    v
}

/// The traits of the base game.
pub open spec fn trait_dictionary_original_entries() -> Seq<EntryView> {
    seq![
        ("Hero_Trait_BluntWeapons"@, "重型武器"@, 0i32),
        ("Hero_Trait_CheaperItems"@, "收藏家"@, 0i32),
        ("Hero_Trait_CheaperSkills"@, "技艺熟手"@, 0i32),
        ("Hero_Trait_ExtraArmor"@, "钢铁之躯"@, 0i32),
        ("Hero_Trait_ExtraUnit"@, "深受爱戴"@, 0i32),
        ("Hero_Trait_ExtraUses"@, "重型负载"@, 0i32),
        ("Hero_Trait_Fast"@, "加速行进"@, 0i32),
        ("Hero_Trait_FastReplenish"@, "振奋人心的演说"@, 0i32),
        ("Hero_Trait_Giant"@, "山岳"@, 0i32),
        ("Hero_Trait_NoFlee"@, "无畏"@, 0i32),
        ("Hero_Trait_SharpWeapons"@, "尖锐武器"@, 0i32),
        ("Hero_Trait_ShortCooldown"@, "精力充沛"@, 0i32),
        ("Hero_Trait_Sturdy"@, "脚踏实地"@, 0i32),
    ]
}

/// The traits of the base game.
pub fn trait_dictionary_original() -> (r: Vec<UpgradeEntry>)
    ensures
        upgrade_entries(r@) == trait_dictionary_original_entries(),
{
    let mut v: Vec<UpgradeEntry> = Vec::new();
    v.push(UpgradeEntry { code: "Hero_Trait_BluntWeapons", chinese_name: "重型武器", initial_level: 0 });
    v.push(UpgradeEntry { code: "Hero_Trait_CheaperItems", chinese_name: "收藏家", initial_level: 0 });
    v.push(UpgradeEntry { code: "Hero_Trait_CheaperSkills", chinese_name: "技艺熟手", initial_level: 0 });
    v.push(UpgradeEntry { code: "Hero_Trait_ExtraArmor", chinese_name: "钢铁之躯", initial_level: 0 });
    v.push(UpgradeEntry { code: "Hero_Trait_ExtraUnit", chinese_name: "深受爱戴", initial_level: 0 });
    v.push(UpgradeEntry { code: "Hero_Trait_ExtraUses", chinese_name: "重型负载", initial_level: 0 });
    v.push(UpgradeEntry { code: "Hero_Trait_Fast", chinese_name: "加速行进", initial_level: 0 });
    v.push(UpgradeEntry { code: "Hero_Trait_FastReplenish", chinese_name: "振奋人心的演说", initial_level: 0 });
    v.push(UpgradeEntry { code: "Hero_Trait_Giant", chinese_name: "山岳", initial_level: 0 });
    v.push(UpgradeEntry { code: "Hero_Trait_NoFlee", chinese_name: "无畏", initial_level: 0 });
    v.push(UpgradeEntry { code: "Hero_Trait_SharpWeapons", chinese_name: "尖锐武器", initial_level: 0 });
    v.push(UpgradeEntry { code: "Hero_Trait_ShortCooldown", chinese_name: "精力充沛", initial_level: 0 });
    v.push(UpgradeEntry { code: "Hero_Trait_Sturdy", chinese_name: "脚踏实地", initial_level: 0 });
    assert(upgrade_entries(v@) =~= trait_dictionary_original_entries());
    v
}

/// The traits only the discontinued flag expansion has.
pub open spec fn trait_dictionary_oldgrey_flag_legacy_entries() -> Seq<EntryView> {
    seq![
        ("Hero_Trait_AxeThrower"@, "掷斧手"@, 0i32),
        ("Hero_Trait_CheaperClass"@, "迅捷精英"@, 0i32),
        ("Hero_Trait_Regenerative"@, "追猎"@, 0i32),
        ("Hero_Trait_Thorns"@, "荆棘"@, 0i32),
    ]
}

/// The traits only the discontinued flag expansion has.
pub fn trait_dictionary_oldgrey_flag_legacy() -> (r: Vec<UpgradeEntry>)
    ensures
        upgrade_entries(r@) == trait_dictionary_oldgrey_flag_legacy_entries(),
{
    let mut v: Vec<UpgradeEntry> = Vec::new();
    v.push(UpgradeEntry { code: "Hero_Trait_AxeThrower", chinese_name: "掷斧手", initial_level: 0 });
    v.push(UpgradeEntry { code: "Hero_Trait_CheaperClass", chinese_name: "迅捷精英", initial_level: 0 });
    v.push(UpgradeEntry { code: "Hero_Trait_Regenerative", chinese_name: "追猎", initial_level: 0 });
    v.push(UpgradeEntry { code: "Hero_Trait_Thorns", chinese_name: "荆棘", initial_level: 0 });
    assert(upgrade_entries(v@) =~= trait_dictionary_oldgrey_flag_legacy_entries());
    v
}

/// The traits the fusion edition adds or redesigns.
pub open spec fn trait_dictionary_fusion_new_entries() -> Seq<EntryView> {
    seq![
        ("Hero_Trait_AxeThrower"@, "投斧大队"@, 0i32),
        ("Hero_Trait_StunCommander"@, "眩晕大师"@, 0i32),
        ("Hero_Trait_Demolitionist"@, "投弹专家"@, 0i32),
        ("Hero_Trait_SlowAura"@, "减速光环"@, 0i32),
        ("Hero_Trait_AreaCommander"@, "力场行进"@, 0i32),
        ("Hero_Trait_LoneWolf"@, "孤狼"@, 0i32),
        ("Hero_Trait_ApocalypseKnight"@, "天启三骑士"@, 0i32),
        ("Hero_Trait_Ranger"@, "游骑兵"@, 0i32),
        ("Hero_Trait_ShieldOfEmpire"@, "帝国之盾"@, 0i32),
        ("Hero_Trait_Ashtar"@, "阿斯塔特"@, 0i32),
        ("Hero_Trait_Thorns"@, "荆棘"@, 0i32),
        ("Hero_Trait_CheaperClass"@, "快速精英"@, 0i32),
        ("Hero_Trait_Regenerative"@, "医疗训练"@, 0i32),
        ("Hero_Trait_Jumper"@, "跳劈大队"@, 0i32),
        ("Hero_Trait_Creeper"@, "短人部队"@, 0i32),
        ("Hero_Trait_Flyer"@, "神鹰"@, 0i32),
        ("Hero_Trait_Titan"@, "泰坦"@, 0i32),
        ("Hero_Trait_Slash"@, "横扫之刃"@, 0i32),
        ("Hero_Trait_Yuri"@, "心灵精英"@, 0i32),
        ("Hero_Trait_UltimateSquad"@, "终极部队"@, 0i32),
    ]
}

/// The traits the fusion edition adds or redesigns.
pub fn trait_dictionary_fusion_new() -> (r: Vec<UpgradeEntry>)
    ensures
        upgrade_entries(r@) == trait_dictionary_fusion_new_entries(),
{
    let mut v: Vec<UpgradeEntry> = Vec::new();
    v.push(UpgradeEntry { code: "Hero_Trait_AxeThrower", chinese_name: "投斧大队", initial_level: 0 });
    v.push(UpgradeEntry { code: "Hero_Trait_StunCommander", chinese_name: "眩晕大师", initial_level: 0 });
    v.push(UpgradeEntry { code: "Hero_Trait_Demolitionist", chinese_name: "投弹专家", initial_level: 0 });
    v.push(UpgradeEntry { code: "Hero_Trait_SlowAura", chinese_name: "减速光环", initial_level: 0 });
    v.push(UpgradeEntry { code: "Hero_Trait_AreaCommander", chinese_name: "力场行进", initial_level: 0 });
    v.push(UpgradeEntry { code: "Hero_Trait_LoneWolf", chinese_name: "孤狼", initial_level: 0 });
    v.push(UpgradeEntry { code: "Hero_Trait_ApocalypseKnight", chinese_name: "天启三骑士", initial_level: 0 });
    v.push(UpgradeEntry { code: "Hero_Trait_Ranger", chinese_name: "游骑兵", initial_level: 0 });
    v.push(UpgradeEntry { code: "Hero_Trait_ShieldOfEmpire", chinese_name: "帝国之盾", initial_level: 0 });
    v.push(UpgradeEntry { code: "Hero_Trait_Ashtar", chinese_name: "阿斯塔特", initial_level: 0 });
    v.push(UpgradeEntry { code: "Hero_Trait_Thorns", chinese_name: "荆棘", initial_level: 0 });
    v.push(UpgradeEntry { code: "Hero_Trait_CheaperClass", chinese_name: "快速精英", initial_level: 0 });
    v.push(UpgradeEntry { code: "Hero_Trait_Regenerative", chinese_name: "医疗训练", initial_level: 0 });
    v.push(UpgradeEntry { code: "Hero_Trait_Jumper", chinese_name: "跳劈大队", initial_level: 0 });
    v.push(UpgradeEntry { code: "Hero_Trait_Creeper", chinese_name: "短人部队", initial_level: 0 });
    v.push(UpgradeEntry { code: "Hero_Trait_Flyer", chinese_name: "神鹰", initial_level: 0 });
    v.push(UpgradeEntry { code: "Hero_Trait_Titan", chinese_name: "泰坦", initial_level: 0 });
    v.push(UpgradeEntry { code: "Hero_Trait_Slash", chinese_name: "横扫之刃", initial_level: 0 });
    v.push(UpgradeEntry { code: "Hero_Trait_Yuri", chinese_name: "心灵精英", initial_level: 0 });
    v.push(UpgradeEntry { code: "Hero_Trait_UltimateSquad", chinese_name: "终极部队", initial_level: 0 });
    assert(upgrade_entries(v@) =~= trait_dictionary_fusion_new_entries());
    v
}

/// The traits of the modded edition.
pub open spec fn trait_dictionary_mod_version_entries() -> Seq<EntryView> {
    seq![
        ("Hero_Trait_AxeThrower"@, "投斧大队"@, 0i32),
        ("Hero_Trait_Thorns"@, "荆棘"@, 0i32),
        ("Hero_Trait_Regenerative"@, "医疗训练"@, 0i32),
        ("Hero_Trait_CheaperClass"@, "快速精通"@, 0i32),
        ("Hero_Trait_Jumper"@, "跳劈大队"@, 0i32),
        ("Hero_Trait_Creeper"@, "短人部队"@, 0i32),
        ("Hero_Trait_Flyer"@, "神鹰"@, 0i32),
        ("Hero_Trait_Titan"@, "泰坦"@, 0i32),
        ("Hero_Trait_Slash"@, "横扫之刃"@, 0i32),
        ("Hero_Trait_Yuri"@, "心灵精英"@, 0i32),
        ("Hero_Trait_UltimateSquad"@, "终极部队"@, 0i32),
    ]
}

/// The traits of the modded edition.
pub fn trait_dictionary_mod_version() -> (r: Vec<UpgradeEntry>)
    ensures
        upgrade_entries(r@) == trait_dictionary_mod_version_entries(),
{
    let mut v: Vec<UpgradeEntry> = Vec::new();
    v.push(UpgradeEntry { code: "Hero_Trait_AxeThrower", chinese_name: "投斧大队", initial_level: 0 });
    v.push(UpgradeEntry { code: "Hero_Trait_Thorns", chinese_name: "荆棘", initial_level: 0 });
    v.push(UpgradeEntry { code: "Hero_Trait_Regenerative", chinese_name: "医疗训练", initial_level: 0 });
    v.push(UpgradeEntry { code: "Hero_Trait_CheaperClass", chinese_name: "快速精通", initial_level: 0 });
    v.push(UpgradeEntry { code: "Hero_Trait_Jumper", chinese_name: "跳劈大队", initial_level: 0 });
    v.push(UpgradeEntry { code: "Hero_Trait_Creeper", chinese_name: "短人部队", initial_level: 0 });
    v.push(UpgradeEntry { code: "Hero_Trait_Flyer", chinese_name: "神鹰", initial_level: 0 });
    v.push(UpgradeEntry { code: "Hero_Trait_Titan", chinese_name: "泰坦", initial_level: 0 });
    v.push(UpgradeEntry { code: "Hero_Trait_Slash", chinese_name: "横扫之刃", initial_level: 0 });
    v.push(UpgradeEntry { code: "Hero_Trait_Yuri", chinese_name: "心灵精英", initial_level: 0 });
    v.push(UpgradeEntry { code: "Hero_Trait_UltimateSquad", chinese_name: "终极部队", initial_level: 0 });
    assert(upgrade_entries(v@) =~= trait_dictionary_mod_version_entries());
    v
}

/// The skills of the base game.
pub open spec fn skill_dictionary_entries() -> Seq<EntryView> {
    seq![
        ("Hero_Skill_Charge"@, "冲锋"@, 1i32),
        ("Hero_Skill_ArrowRain"@, "箭雨"@, 1i32),
        ("Hero_Skill_ShieldWall"@, "盾墙"@, 1i32),
        ("Hero_Skill_Rally"@, "集结"@, 1i32),
        ("Hero_Skill_Berserker"@, "狂战士"@, 1i32),
        ("Hero_Skill_Volley"@, "齐射"@, 1i32),
    ]
}

/// The skills of the base game.
pub fn skill_dictionary() -> (r: Vec<UpgradeEntry>)
    ensures
        upgrade_entries(r@) == skill_dictionary_entries(),
{
    let mut v: Vec<UpgradeEntry> = Vec::new();
    v.push(UpgradeEntry { code: "Hero_Skill_Charge", chinese_name: "冲锋", initial_level: 1 });
    v.push(UpgradeEntry { code: "Hero_Skill_ArrowRain", chinese_name: "箭雨", initial_level: 1 });
    v.push(UpgradeEntry { code: "Hero_Skill_ShieldWall", chinese_name: "盾墙", initial_level: 1 });
    v.push(UpgradeEntry { code: "Hero_Skill_Rally", chinese_name: "集结", initial_level: 1 });
    v.push(UpgradeEntry { code: "Hero_Skill_Berserker", chinese_name: "狂战士", initial_level: 1 });
    v.push(UpgradeEntry { code: "Hero_Skill_Volley", chinese_name: "齐射", initial_level: 1 });
    assert(upgrade_entries(v@) =~= skill_dictionary_entries());
    v
}

/// The classes of the base game.
pub open spec fn class_dictionary_entries() -> Seq<EntryView> {
    seq![
        ("Hero_Class_Infantry"@, "步兵"@, 1i32),
        ("Hero_Class_Archers"@, "弓箭手"@, 1i32),
        ("Hero_Class_Pikemen"@, "长矛手"@, 1i32),
    ]
}

/// The classes of the base game.
pub fn class_dictionary() -> (r: Vec<ClassEntry>)
    ensures
        class_entries(r@) == class_dictionary_entries(),
{
    let mut v: Vec<ClassEntry> = Vec::new();
    v.push(ClassEntry { code: "Hero_Class_Infantry", chinese_name: "步兵", initial_level: 1 });
    v.push(ClassEntry { code: "Hero_Class_Archers", chinese_name: "弓箭手", initial_level: 1 });
    v.push(ClassEntry { code: "Hero_Class_Pikemen", chinese_name: "长矛手", initial_level: 1 });
    assert(class_entries(v@) =~= class_dictionary_entries());
    v
}

/// The traits of the base game, under their older name.
pub fn trait_dictionary() -> (r: Vec<UpgradeEntry>)
    ensures
        upgrade_entries(r@) == trait_dictionary_original_entries(),
{
    trait_dictionary_original()
}

/// The traits of the discontinued flag expansion, under their older name.
pub fn trait_dictionary_oldgrey_flag() -> (r: Vec<UpgradeEntry>)
    ensures
        upgrade_entries(r@) == trait_dictionary_oldgrey_flag_legacy_entries(),
{
    trait_dictionary_oldgrey_flag_legacy()
}

/// The traits of the fusion edition, under their older name.
pub fn trait_dictionary_fusion() -> (r: Vec<UpgradeEntry>)
    ensures
        upgrade_entries(r@) == trait_dictionary_fusion_new_entries(),
{
    trait_dictionary_fusion_new()
}

/// The items of the base game, under their older name.
pub fn upgrade_dictionary() -> (r: Vec<UpgradeEntry>)
    ensures
        upgrade_entries(r@) == item_dictionary_original_entries(),
{
    item_dictionary_original()
}

/// The items of the fusion edition, under their older name.
pub fn item_dictionary_fusion() -> (r: Vec<UpgradeEntry>)
    ensures
        upgrade_entries(r@) == item_dictionary_fusion_new_entries(),
{
    item_dictionary_fusion_new()
}

} // verus!
