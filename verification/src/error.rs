//! Why an operation on a save was refused.
use vstd::prelude::*;
use crate::save_manager::GRAIL_UPGRADE_CODE;
use crate::text::{decimal, i64_to_text, owned, str_eq};

verus! {

/// An operation on a save document that could not be carried out.
#[derive(Debug)]
pub enum SaveError {
    /// The document has no `records` object.
    RecordsNotFound,
    /// The hero record with this key is missing or is not an object.
    HeroRecordNotFound(String),
    /// The hero record with this key has no `members` array.
    HeroMembersNotFound(String),
    /// The upgrade record with this key is missing or is not an object.
    UpgradeRecordNotFound(String),
    /// The upgrade record with this key has no `members` array.
    UpgradeMembersNotFound(String),
    /// The class code has no skill upgrade.
    UnknownClassCode(String),
    /// The hero with this key has no `_coins` member.
    CoinsFieldNotFound(String),
    /// The hero with this key has no `hue` member.
    HueFieldNotFound(String),
    /// The hue is not a finite number.
    InvalidHue,
    /// No record holds a `coinBank` member.
    CoinBankNotFound,
    /// The `inventory` member of the campaign save is not a reference.
    InventoryWithoutId,
    /// The inventory reference names neither a list nor an array.
    InventoryNotList(i64),
    /// No campaign save record has an `inventory` member.
    InventoryNotFound,
    /// The list record with this id is missing or is not an object.
    ListRecordNotFound(i64),
    /// The list record with this id has no `members` array.
    ListMembersNotFound(i64),
    /// The list record with this id has no `_size` member.
    ListSizeNotFound(i64),
    /// The array record with this id has no `values` array.
    NoValuesArray(i64),
    /// The inventory array has no free slot.
    NoFreeSlot,
    /// The inventory already holds this many items, the most it can hold.
    InventoryFull(i32),
    /// No record tells the class of hero upgrades.
    HeroUpgradeTypeNotFound,
    /// A new record id does not fit the record order.
    RecordIdOutOfRange(i64),
    /// An edit would take a count, a slot index, a list size or a record id
    /// past the integers that hold it.
    EditTooLarge,
    /// The inventory holds no item with this code.
    NothingToRemove(String),
    /// The last used inventory slot could not be found.
    LastSlotNotFound,
    /// A count was asked to become negative; the code of the item.
    NegativeCount(String),
    /// No recruited hero has a slot for a grail.
    NoHeroForGrail,
    /// No recruited hero carries a grail.
    NoHeroWithGrail,
    /// The hero with this key has no `upgrade` member.
    HeroHasNoUpgradeMember(String),
    /// No inventory item has this code.
    ItemNotFound(String),
}

/// The mathematical view of a [`SaveError`].
pub enum SaveErr {
    RecordsNotFound,
    HeroRecordNotFound(Seq<char>),
    HeroMembersNotFound(Seq<char>),
    UpgradeRecordNotFound(Seq<char>),
    UpgradeMembersNotFound(Seq<char>),
    UnknownClassCode(Seq<char>),
    CoinsFieldNotFound(Seq<char>),
    HueFieldNotFound(Seq<char>),
    InvalidHue,
    CoinBankNotFound,
    InventoryWithoutId,
    InventoryNotList(i64),
    InventoryNotFound,
    ListRecordNotFound(i64),
    ListMembersNotFound(i64),
    ListSizeNotFound(i64),
    NoValuesArray(i64),
    NoFreeSlot,
    InventoryFull(i32),
    HeroUpgradeTypeNotFound,
    RecordIdOutOfRange(i64),
    EditTooLarge,
    NothingToRemove(Seq<char>),
    LastSlotNotFound,
    NegativeCount(Seq<char>),
    NoHeroForGrail,
    NoHeroWithGrail,
    HeroHasNoUpgradeMember(Seq<char>),
    ItemNotFound(Seq<char>),
}

impl View for SaveError {
    type V = SaveErr;

    open spec fn view(&self) -> SaveErr {
        match self {
            SaveError::RecordsNotFound => SaveErr::RecordsNotFound,
            SaveError::HeroRecordNotFound(s) => SaveErr::HeroRecordNotFound(s@),
            SaveError::HeroMembersNotFound(s) => SaveErr::HeroMembersNotFound(s@),
            SaveError::UpgradeRecordNotFound(s) => SaveErr::UpgradeRecordNotFound(s@),
            SaveError::UpgradeMembersNotFound(s) => SaveErr::UpgradeMembersNotFound(s@),
            SaveError::UnknownClassCode(s) => SaveErr::UnknownClassCode(s@),
            SaveError::CoinsFieldNotFound(s) => SaveErr::CoinsFieldNotFound(s@),
            SaveError::HueFieldNotFound(s) => SaveErr::HueFieldNotFound(s@),
            SaveError::InvalidHue => SaveErr::InvalidHue,
            SaveError::CoinBankNotFound => SaveErr::CoinBankNotFound,
            SaveError::InventoryWithoutId => SaveErr::InventoryWithoutId,
            SaveError::InventoryNotList(i) => SaveErr::InventoryNotList(*i),
            SaveError::InventoryNotFound => SaveErr::InventoryNotFound,
            SaveError::ListRecordNotFound(i) => SaveErr::ListRecordNotFound(*i),
            SaveError::ListMembersNotFound(i) => SaveErr::ListMembersNotFound(*i),
            SaveError::ListSizeNotFound(i) => SaveErr::ListSizeNotFound(*i),
            SaveError::NoValuesArray(i) => SaveErr::NoValuesArray(*i),
            SaveError::NoFreeSlot => SaveErr::NoFreeSlot,
            SaveError::InventoryFull(n) => SaveErr::InventoryFull(*n),
            SaveError::HeroUpgradeTypeNotFound => SaveErr::HeroUpgradeTypeNotFound,
            SaveError::RecordIdOutOfRange(i) => SaveErr::RecordIdOutOfRange(*i),
            SaveError::EditTooLarge => SaveErr::EditTooLarge,
            SaveError::NothingToRemove(s) => SaveErr::NothingToRemove(s@),
            SaveError::LastSlotNotFound => SaveErr::LastSlotNotFound,
            SaveError::NegativeCount(s) => SaveErr::NegativeCount(s@),
            SaveError::NoHeroForGrail => SaveErr::NoHeroForGrail,
            SaveError::NoHeroWithGrail => SaveErr::NoHeroWithGrail,
            SaveError::HeroHasNoUpgradeMember(s) => SaveErr::HeroHasNoUpgradeMember(s@),
            SaveError::ItemNotFound(s) => SaveErr::ItemNotFound(s@),
        }
    }
}

/// The view of a result whose success carries nothing.
pub open spec fn unit_result(r: Result<(), SaveError>) -> Result<(), SaveErr> {
    match r {
        Ok(()) => Ok(()),
        Err(e) => Err(e@),
    }
}

/// The view of a result that carries a count.
pub open spec fn count_result(r: Result<i32, SaveError>) -> Result<i32, SaveErr> {
    match r {
        Ok(n) => Ok(n),
        Err(e) => Err(e@),
    }
}

/// The words shown for a refused operation. The grail's own operations speak
/// of the grail by name where they find none to remove or are asked for a
/// negative count.
pub open spec fn error_text(e: SaveErr) -> Seq<char> {
    match e {
        SaveErr::RecordsNotFound => "Records not found"@,
        SaveErr::HeroRecordNotFound(k) => "Hero record "@ + k + " not found"@,
        SaveErr::HeroMembersNotFound(k) => "Members not found in hero record "@ + k,
        SaveErr::UpgradeRecordNotFound(k) => "Upgrade record "@ + k + " not found"@,
        SaveErr::UpgradeMembersNotFound(k) => "Members not found in upgrade record "@ + k,
        SaveErr::UnknownClassCode(c) => "Unknown class code: "@ + c,
        SaveErr::CoinsFieldNotFound(k) => "Coins field not found for hero "@ + k,
        SaveErr::HueFieldNotFound(k) => "Hue field not found for hero "@ + k,
        SaveErr::InvalidHue => "Invalid hue value"@,
        SaveErr::CoinBankNotFound => "coinBank field not found in save"@,
        SaveErr::InventoryWithoutId => "inventory member has no id reference"@,
        SaveErr::InventoryNotList(id) => "inventory reference "@ + decimal(id as int)
            + " is neither a List<T> nor a direct BinaryArray"@,
        SaveErr::InventoryNotFound => "CampaignSave record with an inventory field not found"@,
        SaveErr::ListRecordNotFound(id) => "List record "@ + decimal(id as int) + " not found"@,
        SaveErr::ListMembersNotFound(id) => "members not found in List record "@ + decimal(id as int),
        SaveErr::ListSizeNotFound(id) => "_size member not found in List record "@ + decimal(id as int),
        SaveErr::NoValuesArray(id) => "BinaryArray "@ + decimal(id as int) + " has no values array"@,
        SaveErr::NoFreeSlot => "背包已满，没有可用的空余槽位"@,
        SaveErr::InventoryFull(n) => "❌背包已满（"@ + decimal(n as int) + "/20），无法继续添加装备"@,
        SaveErr::HeroUpgradeTypeNotFound => "找不到SerializableHeroUpgrade 类型信息"@,
        SaveErr::RecordIdOutOfRange(id) => "record ID "@ + decimal(id as int) + " exceeds i32 range"@,
        SaveErr::EditTooLarge => "the edit would exceed the integer range of the save"@,
        SaveErr::NothingToRemove(c) => if c == GRAIL_UPGRADE_CODE@ {
            "背包中没有圣杯可移除"@
        } else {
            "背包中没有"@ + c + " 可移除"@
        },
        SaveErr::LastSlotNotFound => "找不到背包最后一个有效槽位"@,
        SaveErr::NegativeCount(c) => if c == GRAIL_UPGRADE_CODE@ {
            "圣杯数量不能为负数"@
        } else {
            c + " 数量不能为负数"@
        },
        SaveErr::NoHeroForGrail => "未找到可用的英雄装备槽来添加圣杯（旧逻辑）"@,
        SaveErr::NoHeroWithGrail => "未找到携带圣杯的英雄（旧逻辑）"@,
        SaveErr::HeroHasNoUpgradeMember(k) => "Hero "@ + k + " has no upgrade member to remove"@,
        SaveErr::ItemNotFound(c) => "未找到装备 "@ + c,
    }
}

/// `a` followed by `b`.
pub fn prefixed(a: &str, b: &str) -> (r: String)
    ensures
        r@ == a@ + b@,
{
    let mut s = owned(a);
    s.append(b);
    s
}

/// `a`, `b` and `c` one after the other.
pub fn joined(a: &str, b: &str, c: &str) -> (r: String)
    ensures
        r@ == a@ + b@ + c@,
{
    let mut s = owned(a);
    s.append(b);
    s.append(c);
    s
}

impl SaveError {
    /// The words shown for this error (see [`error_text`]).
    pub fn message(&self) -> (r: String)
        ensures
            r@ == error_text(self@),
    {
        match self {
            SaveError::RecordsNotFound => owned("Records not found"),
            SaveError::HeroRecordNotFound(k) => joined("Hero record ", k.as_str(), " not found"),
            SaveError::HeroMembersNotFound(k) => prefixed("Members not found in hero record ", k.as_str()),
            SaveError::UpgradeRecordNotFound(k) => joined("Upgrade record ", k.as_str(), " not found"),
            SaveError::UpgradeMembersNotFound(k) => prefixed("Members not found in upgrade record ", k.as_str()),
            SaveError::UnknownClassCode(c) => prefixed("Unknown class code: ", c.as_str()),
            SaveError::CoinsFieldNotFound(k) => prefixed("Coins field not found for hero ", k.as_str()),
            SaveError::HueFieldNotFound(k) => prefixed("Hue field not found for hero ", k.as_str()),
            SaveError::InvalidHue => owned("Invalid hue value"),
            SaveError::CoinBankNotFound => owned("coinBank field not found in save"),
            SaveError::InventoryWithoutId => owned("inventory member has no id reference"),
            SaveError::InventoryNotList(id) => joined(
                "inventory reference ",
                i64_to_text(*id).as_str(),
                " is neither a List<T> nor a direct BinaryArray",
            ),
            SaveError::InventoryNotFound => owned("CampaignSave record with an inventory field not found"),
            SaveError::ListRecordNotFound(id) => joined("List record ", i64_to_text(*id).as_str(), " not found"),
            SaveError::ListMembersNotFound(id) => prefixed("members not found in List record ", i64_to_text(*id).as_str()),
            SaveError::ListSizeNotFound(id) => prefixed("_size member not found in List record ", i64_to_text(*id).as_str()),
            SaveError::NoValuesArray(id) => joined("BinaryArray ", i64_to_text(*id).as_str(), " has no values array"),
            SaveError::NoFreeSlot => owned("背包已满，没有可用的空余槽位"),
            SaveError::InventoryFull(n) => joined(
                "❌背包已满（",
                i64_to_text(*n as i64).as_str(),
                "/20），无法继续添加装备",
            ),
            SaveError::HeroUpgradeTypeNotFound => owned("找不到SerializableHeroUpgrade 类型信息"),
            SaveError::RecordIdOutOfRange(id) => joined("record ID ", i64_to_text(*id).as_str(), " exceeds i32 range"),
            SaveError::EditTooLarge => owned("the edit would exceed the integer range of the save"),
            SaveError::NothingToRemove(c) => if str_eq(c.as_str(), GRAIL_UPGRADE_CODE) {
                owned("背包中没有圣杯可移除")
            } else {
                joined("背包中没有", c.as_str(), " 可移除")
            },
            SaveError::LastSlotNotFound => owned("找不到背包最后一个有效槽位"),
            SaveError::NegativeCount(c) => if str_eq(c.as_str(), GRAIL_UPGRADE_CODE) {
                owned("圣杯数量不能为负数")
            } else {
                prefixed(c.as_str(), " 数量不能为负数")
            },
            SaveError::NoHeroForGrail => owned("未找到可用的英雄装备槽来添加圣杯（旧逻辑）"),
            SaveError::NoHeroWithGrail => owned("未找到携带圣杯的英雄（旧逻辑）"),
            SaveError::HeroHasNoUpgradeMember(k) => joined("Hero ", k.as_str(), " has no upgrade member to remove"),
            SaveError::ItemNotFound(c) => prefixed("未找到装备 ", c.as_str()),
        }
    }
}

} // verus!
