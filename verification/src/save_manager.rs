//! Operations on a decoded Bad North save: the hero editor, the coin bank and
//! the inventory. `SaveManager` carries no state; every operation takes the
//! document it reads or edits.
use vstd::prelude::*;
use crate::json::Json;
use crate::text::{owned, str_eq};

verus! {

pub const GRAIL_UPGRADE_CODE: &'static str = "Hero_Upgrade_Grail";

pub const BOMB_UPGRADE_CODE: &'static str = "Hero_Upgrade_Bomb";

pub const MINE_UPGRADE_CODE: &'static str = "Hero_Upgrade_Mine";

pub const PHILOSOPHERS_STONE_UPGRADE_CODE: &'static str = "Hero_Upgrade_PhilosophersStone";

pub const SIZE_UPGRADE_CODE: &'static str = "Hero_Upgrade_Size";

pub const WARHAMMER_UPGRADE_CODE: &'static str = "Hero_Upgrade_Warhammer";

pub const CORNUCOPIA_UPGRADE_CODE: &'static str = "Hero_Upgrade_Cornucopia";

pub const WAR_HORN_UPGRADE_CODE: &'static str = "Hero_Upgrade_WarHorn";

/// The save operations.
pub struct SaveManager;

/// The canonical name of an upgrade field: plural and snake-case spellings
/// name the same camel-case field; any other text is kept as it is.
pub open spec fn normalized_type(t: Seq<char>) -> Seq<char> {
    if t == "classUpgrades"@ || t == "class_upgrade"@ || t == "class_upgrades"@ {
        "classUpgrade"@
    } else if t == "itemUpgrades"@ || t == "item_upgrade"@ || t == "item_upgrades"@ {
        "itemUpgrade"@
    } else if t == "traitUpgrades"@ || t == "trait_upgrade"@ || t == "trait_upgrades"@ {
        "traitUpgrade"@
    } else if t == "skillUpgrades"@ || t == "skill_upgrade"@ || t == "skill_upgrades"@ {
        "skillUpgrade"@
    } else if t == "upgrades"@ {
        "upgrade"@
    } else {
        t
    }
}

/// The skill upgrade that goes with a hero class.
pub open spec fn class_skill(c: Seq<char>) -> Option<Seq<char>> {
    if c == "Hero_Class_Infantry"@ {
        Some("Hero_Upgrade_Plunge"@)
    } else if c == "Hero_Class_Archers"@ {
        Some("Hero_Upgrade_ArcheryFocus"@)
    } else if c == "Hero_Class_Pikemen"@ {
        Some("Hero_Upgrade_PikeCharge"@)
    } else {
        None
    }
}

impl SaveManager {
    /// The canonical name of an upgrade field (see [`normalized_type`]).
    pub fn normalize_upgrade_type(upgrade_type: &str) -> (r: String)
        ensures
            r@ == normalized_type(upgrade_type@),
    {
        let t = upgrade_type;
        if str_eq(t, "classUpgrades") || str_eq(t, "class_upgrade") || str_eq(t, "class_upgrades") {
            owned("classUpgrade")
        } else if str_eq(t, "itemUpgrades") || str_eq(t, "item_upgrade") || str_eq(
            t,
            "item_upgrades",
        ) {
            owned("itemUpgrade")
        } else if str_eq(t, "traitUpgrades") || str_eq(t, "trait_upgrade") || str_eq(
            t,
            "trait_upgrades",
        ) {
            owned("traitUpgrade")
        } else if str_eq(t, "skillUpgrades") || str_eq(t, "skill_upgrade") || str_eq(
            t,
            "skill_upgrades",
        ) {
            owned("skillUpgrade")
        } else if str_eq(t, "upgrades") {
            owned("upgrade")
        } else {
            owned(t)
        }
    }

    /// The skill upgrade code of a class code, if the class has one.
    pub fn get_class_skill_upgrade(class_code: &str) -> (r: Option<&'static str>)
        ensures
            r is Some == class_skill(class_code@) is Some,
            r matches Some(s) ==> class_skill(class_code@) == Some(s@),
    {
        if str_eq(class_code, "Hero_Class_Infantry") {
            Some("Hero_Upgrade_Plunge")
        } else if str_eq(class_code, "Hero_Class_Archers") {
            Some("Hero_Upgrade_ArcheryFocus")
        } else if str_eq(class_code, "Hero_Class_Pikemen") {
            Some("Hero_Upgrade_PikeCharge")
        } else {
            None
        }
    }

    /// The level a new inventory item starts at: 0 for every code.
    pub fn get_item_initial_level(_upgrade_code: &str) -> (r: i32)
        ensures
            r == 0,
    {
        0
    }

    /// The members a new item record holds besides `name` and `level`: none, for every code.
    pub fn get_item_required_fields(_upgrade_code: &str) -> (r: Vec<(&'static str, Json)>)
        ensures
            r@.len() == 0,
    {
        Vec::new()
    }
}

} // verus!
