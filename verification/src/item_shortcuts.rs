//! The counts of the items the editor offers by name, each read and changed
//! through the general item operations.
use vstd::prelude::*;
use crate::error::{SaveError, count_result, unit_result};
use crate::inventory::{hero_count, inventory_count, inventory_ok, records_countable};
use crate::item_counts::{
    capped_increment, capped_increment_ok, count_ok, decrement, decrement_ok, set_count,
    set_count_ok, total_count,
};
use crate::json::Json;
use crate::save_manager::{
    SaveManager, BOMB_UPGRADE_CODE, CORNUCOPIA_UPGRADE_CODE, MINE_UPGRADE_CODE,
    PHILOSOPHERS_STONE_UPGRADE_CODE, SIZE_UPGRADE_CODE, WARHAMMER_UPGRADE_CODE,
    WAR_HORN_UPGRADE_CODE,
};

verus! {

impl SaveManager {
    /// How many bombs the inventory holds.
    pub fn get_inventory_bomb_count(json: &Json) -> (r: i32)
        requires
            inventory_ok(json@),
        ensures
            r as int == inventory_count(json@, Some(BOMB_UPGRADE_CODE@)),
    {
        Self::get_inventory_item_count(json, BOMB_UPGRADE_CODE)
    }

    /// How many heroes carry a bomb.
    pub fn get_hero_bomb_count(json: &Json) -> (r: i32)
        requires
            records_countable(json@),
        ensures
            r as int == hero_count(json@, BOMB_UPGRADE_CODE@),
    {
        Self::get_hero_item_count(json, BOMB_UPGRADE_CODE)
    }

    /// How many bombs there are, carried or in the inventory.
    pub fn get_total_bomb_count(json: &Json) -> (r: i32)
        requires
            count_ok(json@, BOMB_UPGRADE_CODE@),
        ensures
            r as int == total_count(json@, BOMB_UPGRADE_CODE@),
    {
        Self::get_total_item_count(json, BOMB_UPGRADE_CODE)
    }

    /// Makes the number of bombs `target` (see [`set_count`]).
    pub fn set_bomb_count(json: &mut Json, target: i32) -> (r: Result<(), SaveError>)
        requires
            set_count_ok(old(json)@, BOMB_UPGRADE_CODE@, true, target),
        ensures
            (final(json)@, unit_result(r)) == set_count(old(json)@, BOMB_UPGRADE_CODE@, true, target),
    {
        Self::set_item_count(json, BOMB_UPGRADE_CODE, target)
    }

    /// Adds one to the inventory unless it is full, then counts (see [`capped_increment`]).
    pub fn increment_bomb_count(json: &mut Json) -> (r: Result<i32, SaveError>)
        requires
            capped_increment_ok(old(json)@, BOMB_UPGRADE_CODE@),
        ensures
            (final(json)@, count_result(r)) == capped_increment(old(json)@, BOMB_UPGRADE_CODE@),
    {
        Self::capped_increment_count(json, BOMB_UPGRADE_CODE)
    }

    /// Removes one from the inventory, then counts (see [`decrement`]).
    pub fn decrement_bomb_count(json: &mut Json) -> (r: Result<i32, SaveError>)
        requires
            decrement_ok(old(json)@, BOMB_UPGRADE_CODE@),
        ensures
            (final(json)@, count_result(r)) == decrement(old(json)@, BOMB_UPGRADE_CODE@),
    {
        Self::decrement_item_count(json, BOMB_UPGRADE_CODE)
    }

    /// How many mines the inventory holds.
    pub fn get_inventory_mine_count(json: &Json) -> (r: i32)
        requires
            inventory_ok(json@),
        ensures
            r as int == inventory_count(json@, Some(MINE_UPGRADE_CODE@)),
    {
        Self::get_inventory_item_count(json, MINE_UPGRADE_CODE)
    }

    /// How many heroes carry a mine.
    pub fn get_hero_mine_count(json: &Json) -> (r: i32)
        requires
            records_countable(json@),
        ensures
            r as int == hero_count(json@, MINE_UPGRADE_CODE@),
    {
        Self::get_hero_item_count(json, MINE_UPGRADE_CODE)
    }

    /// How many mines there are, carried or in the inventory.
    pub fn get_total_mine_count(json: &Json) -> (r: i32)
        requires
            count_ok(json@, MINE_UPGRADE_CODE@),
        ensures
            r as int == total_count(json@, MINE_UPGRADE_CODE@),
    {
        Self::get_total_item_count(json, MINE_UPGRADE_CODE)
    }

    /// Makes the number of mines `target` (see [`set_count`]).
    pub fn set_mine_count(json: &mut Json, target: i32) -> (r: Result<(), SaveError>)
        requires
            set_count_ok(old(json)@, MINE_UPGRADE_CODE@, true, target),
        ensures
            (final(json)@, unit_result(r)) == set_count(old(json)@, MINE_UPGRADE_CODE@, true, target),
    {
        Self::set_item_count(json, MINE_UPGRADE_CODE, target)
    }

    /// Adds one to the inventory unless it is full, then counts (see [`capped_increment`]).
    pub fn increment_mine_count(json: &mut Json) -> (r: Result<i32, SaveError>)
        requires
            capped_increment_ok(old(json)@, MINE_UPGRADE_CODE@),
        ensures
            (final(json)@, count_result(r)) == capped_increment(old(json)@, MINE_UPGRADE_CODE@),
    {
        Self::capped_increment_count(json, MINE_UPGRADE_CODE)
    }

    /// Removes one from the inventory, then counts (see [`decrement`]).
    pub fn decrement_mine_count(json: &mut Json) -> (r: Result<i32, SaveError>)
        requires
            decrement_ok(old(json)@, MINE_UPGRADE_CODE@),
        ensures
            (final(json)@, count_result(r)) == decrement(old(json)@, MINE_UPGRADE_CODE@),
    {
        Self::decrement_item_count(json, MINE_UPGRADE_CODE)
    }

    /// How many philosopher's stones the inventory holds.
    pub fn get_inventory_philosophers_stone_count(json: &Json) -> (r: i32)
        requires
            inventory_ok(json@),
        ensures
            r as int == inventory_count(json@, Some(PHILOSOPHERS_STONE_UPGRADE_CODE@)),
    {
        Self::get_inventory_item_count(json, PHILOSOPHERS_STONE_UPGRADE_CODE)
    }

    /// How many heroes carry a philosopher's stone.
    pub fn get_hero_philosophers_stone_count(json: &Json) -> (r: i32)
        requires
            records_countable(json@),
        ensures
            r as int == hero_count(json@, PHILOSOPHERS_STONE_UPGRADE_CODE@),
    {
        Self::get_hero_item_count(json, PHILOSOPHERS_STONE_UPGRADE_CODE)
    }

    /// How many philosopher's stones there are, carried or in the inventory.
    pub fn get_total_philosophers_stone_count(json: &Json) -> (r: i32)
        requires
            count_ok(json@, PHILOSOPHERS_STONE_UPGRADE_CODE@),
        ensures
            r as int == total_count(json@, PHILOSOPHERS_STONE_UPGRADE_CODE@),
    {
        Self::get_total_item_count(json, PHILOSOPHERS_STONE_UPGRADE_CODE)
    }

    /// Makes the number of philosopher's stones `target` (see [`set_count`]).
    pub fn set_philosophers_stone_count(json: &mut Json, target: i32) -> (r: Result<(), SaveError>)
        requires
            set_count_ok(old(json)@, PHILOSOPHERS_STONE_UPGRADE_CODE@, true, target),
        ensures
            (final(json)@, unit_result(r)) == set_count(old(json)@, PHILOSOPHERS_STONE_UPGRADE_CODE@, true, target),
    {
        Self::set_item_count(json, PHILOSOPHERS_STONE_UPGRADE_CODE, target)
    }

    /// Adds one to the inventory unless it is full, then counts (see [`capped_increment`]).
    pub fn increment_philosophers_stone_count(json: &mut Json) -> (r: Result<i32, SaveError>)
        requires
            capped_increment_ok(old(json)@, PHILOSOPHERS_STONE_UPGRADE_CODE@),
        ensures
            (final(json)@, count_result(r)) == capped_increment(old(json)@, PHILOSOPHERS_STONE_UPGRADE_CODE@),
    {
        Self::capped_increment_count(json, PHILOSOPHERS_STONE_UPGRADE_CODE)
    }

    /// Removes one from the inventory, then counts (see [`decrement`]).
    pub fn decrement_philosophers_stone_count(json: &mut Json) -> (r: Result<i32, SaveError>)
        requires
            decrement_ok(old(json)@, PHILOSOPHERS_STONE_UPGRADE_CODE@),
        ensures
            (final(json)@, count_result(r)) == decrement(old(json)@, PHILOSOPHERS_STONE_UPGRADE_CODE@),
    {
        Self::decrement_item_count(json, PHILOSOPHERS_STONE_UPGRADE_CODE)
    }

    /// How many size upgrades the inventory holds.
    pub fn get_inventory_size_count(json: &Json) -> (r: i32)
        requires
            inventory_ok(json@),
        ensures
            r as int == inventory_count(json@, Some(SIZE_UPGRADE_CODE@)),
    {
        Self::get_inventory_item_count(json, SIZE_UPGRADE_CODE)
    }

    /// How many heroes carry a size upgrade.
    pub fn get_hero_size_count(json: &Json) -> (r: i32)
        requires
            records_countable(json@),
        ensures
            r as int == hero_count(json@, SIZE_UPGRADE_CODE@),
    {
        Self::get_hero_item_count(json, SIZE_UPGRADE_CODE)
    }

    /// How many size upgrades there are, carried or in the inventory.
    pub fn get_total_size_count(json: &Json) -> (r: i32)
        requires
            count_ok(json@, SIZE_UPGRADE_CODE@),
        ensures
            r as int == total_count(json@, SIZE_UPGRADE_CODE@),
    {
        Self::get_total_item_count(json, SIZE_UPGRADE_CODE)
    }

    /// Makes the number of size upgrades `target` (see [`set_count`]).
    pub fn set_size_count(json: &mut Json, target: i32) -> (r: Result<(), SaveError>)
        requires
            set_count_ok(old(json)@, SIZE_UPGRADE_CODE@, true, target),
        ensures
            (final(json)@, unit_result(r)) == set_count(old(json)@, SIZE_UPGRADE_CODE@, true, target),
    {
        Self::set_item_count(json, SIZE_UPGRADE_CODE, target)
    }

    /// Adds one to the inventory unless it is full, then counts (see [`capped_increment`]).
    pub fn increment_size_count(json: &mut Json) -> (r: Result<i32, SaveError>)
        requires
            capped_increment_ok(old(json)@, SIZE_UPGRADE_CODE@),
        ensures
            (final(json)@, count_result(r)) == capped_increment(old(json)@, SIZE_UPGRADE_CODE@),
    {
        Self::capped_increment_count(json, SIZE_UPGRADE_CODE)
    }

    /// Removes one from the inventory, then counts (see [`decrement`]).
    pub fn decrement_size_count(json: &mut Json) -> (r: Result<i32, SaveError>)
        requires
            decrement_ok(old(json)@, SIZE_UPGRADE_CODE@),
        ensures
            (final(json)@, count_result(r)) == decrement(old(json)@, SIZE_UPGRADE_CODE@),
    {
        Self::decrement_item_count(json, SIZE_UPGRADE_CODE)
    }

    /// How many warhammers the inventory holds.
    pub fn get_inventory_warhammer_count(json: &Json) -> (r: i32)
        requires
            inventory_ok(json@),
        ensures
            r as int == inventory_count(json@, Some(WARHAMMER_UPGRADE_CODE@)),
    {
        Self::get_inventory_item_count(json, WARHAMMER_UPGRADE_CODE)
    }

    /// How many heroes carry a warhammer.
    pub fn get_hero_warhammer_count(json: &Json) -> (r: i32)
        requires
            records_countable(json@),
        ensures
            r as int == hero_count(json@, WARHAMMER_UPGRADE_CODE@),
    {
        Self::get_hero_item_count(json, WARHAMMER_UPGRADE_CODE)
    }

    /// How many warhammers there are, carried or in the inventory.
    pub fn get_total_warhammer_count(json: &Json) -> (r: i32)
        requires
            count_ok(json@, WARHAMMER_UPGRADE_CODE@),
        ensures
            r as int == total_count(json@, WARHAMMER_UPGRADE_CODE@),
    {
        Self::get_total_item_count(json, WARHAMMER_UPGRADE_CODE)
    }

    /// Makes the number of warhammers `target` (see [`set_count`]).
    pub fn set_warhammer_count(json: &mut Json, target: i32) -> (r: Result<(), SaveError>)
        requires
            set_count_ok(old(json)@, WARHAMMER_UPGRADE_CODE@, true, target),
        ensures
            (final(json)@, unit_result(r)) == set_count(old(json)@, WARHAMMER_UPGRADE_CODE@, true, target),
    {
        Self::set_item_count(json, WARHAMMER_UPGRADE_CODE, target)
    }

    /// Adds one to the inventory unless it is full, then counts (see [`capped_increment`]).
    pub fn increment_warhammer_count(json: &mut Json) -> (r: Result<i32, SaveError>)
        requires
            capped_increment_ok(old(json)@, WARHAMMER_UPGRADE_CODE@),
        ensures
            (final(json)@, count_result(r)) == capped_increment(old(json)@, WARHAMMER_UPGRADE_CODE@),
    {
        Self::capped_increment_count(json, WARHAMMER_UPGRADE_CODE)
    }

    /// Removes one from the inventory, then counts (see [`decrement`]).
    pub fn decrement_warhammer_count(json: &mut Json) -> (r: Result<i32, SaveError>)
        requires
            decrement_ok(old(json)@, WARHAMMER_UPGRADE_CODE@),
        ensures
            (final(json)@, count_result(r)) == decrement(old(json)@, WARHAMMER_UPGRADE_CODE@),
    {
        Self::decrement_item_count(json, WARHAMMER_UPGRADE_CODE)
    }

    /// How many cornucopias the inventory holds.
    pub fn get_inventory_cornucopia_count(json: &Json) -> (r: i32)
        requires
            inventory_ok(json@),
        ensures
            r as int == inventory_count(json@, Some(CORNUCOPIA_UPGRADE_CODE@)),
    {
        Self::get_inventory_item_count(json, CORNUCOPIA_UPGRADE_CODE)
    }

    /// How many heroes carry a cornucopia.
    pub fn get_hero_cornucopia_count(json: &Json) -> (r: i32)
        requires
            records_countable(json@),
        ensures
            r as int == hero_count(json@, CORNUCOPIA_UPGRADE_CODE@),
    {
        Self::get_hero_item_count(json, CORNUCOPIA_UPGRADE_CODE)
    }

    /// How many cornucopias there are, carried or in the inventory.
    pub fn get_total_cornucopia_count(json: &Json) -> (r: i32)
        requires
            count_ok(json@, CORNUCOPIA_UPGRADE_CODE@),
        ensures
            r as int == total_count(json@, CORNUCOPIA_UPGRADE_CODE@),
    {
        Self::get_total_item_count(json, CORNUCOPIA_UPGRADE_CODE)
    }

    /// Makes the number of cornucopias `target` (see [`set_count`]).
    pub fn set_cornucopia_count(json: &mut Json, target: i32) -> (r: Result<(), SaveError>)
        requires
            set_count_ok(old(json)@, CORNUCOPIA_UPGRADE_CODE@, true, target),
        ensures
            (final(json)@, unit_result(r)) == set_count(old(json)@, CORNUCOPIA_UPGRADE_CODE@, true, target),
    {
        Self::set_item_count(json, CORNUCOPIA_UPGRADE_CODE, target)
    }

    /// Adds one to the inventory unless it is full, then counts (see [`capped_increment`]).
    pub fn increment_cornucopia_count(json: &mut Json) -> (r: Result<i32, SaveError>)
        requires
            capped_increment_ok(old(json)@, CORNUCOPIA_UPGRADE_CODE@),
        ensures
            (final(json)@, count_result(r)) == capped_increment(old(json)@, CORNUCOPIA_UPGRADE_CODE@),
    {
        Self::capped_increment_count(json, CORNUCOPIA_UPGRADE_CODE)
    }

    /// Removes one from the inventory, then counts (see [`decrement`]).
    pub fn decrement_cornucopia_count(json: &mut Json) -> (r: Result<i32, SaveError>)
        requires
            decrement_ok(old(json)@, CORNUCOPIA_UPGRADE_CODE@),
        ensures
            (final(json)@, count_result(r)) == decrement(old(json)@, CORNUCOPIA_UPGRADE_CODE@),
    {
        Self::decrement_item_count(json, CORNUCOPIA_UPGRADE_CODE)
    }

    /// How many war horns the inventory holds.
    pub fn get_inventory_war_horn_count(json: &Json) -> (r: i32)
        requires
            inventory_ok(json@),
        ensures
            r as int == inventory_count(json@, Some(WAR_HORN_UPGRADE_CODE@)),
    {
        Self::get_inventory_item_count(json, WAR_HORN_UPGRADE_CODE)
    }

    /// How many heroes carry a war horn.
    pub fn get_hero_war_horn_count(json: &Json) -> (r: i32)
        requires
            records_countable(json@),
        ensures
            r as int == hero_count(json@, WAR_HORN_UPGRADE_CODE@),
    {
        Self::get_hero_item_count(json, WAR_HORN_UPGRADE_CODE)
    }

    /// How many war horns there are, carried or in the inventory.
    pub fn get_total_war_horn_count(json: &Json) -> (r: i32)
        requires
            count_ok(json@, WAR_HORN_UPGRADE_CODE@),
        ensures
            r as int == total_count(json@, WAR_HORN_UPGRADE_CODE@),
    {
        Self::get_total_item_count(json, WAR_HORN_UPGRADE_CODE)
    }

    /// Makes the number of war horns `target` (see [`set_count`]).
    pub fn set_war_horn_count(json: &mut Json, target: i32) -> (r: Result<(), SaveError>)
        requires
            set_count_ok(old(json)@, WAR_HORN_UPGRADE_CODE@, true, target),
        ensures
            (final(json)@, unit_result(r)) == set_count(old(json)@, WAR_HORN_UPGRADE_CODE@, true, target),
    {
        Self::set_item_count(json, WAR_HORN_UPGRADE_CODE, target)
    }

    /// Adds one to the inventory unless it is full, then counts (see [`capped_increment`]).
    pub fn increment_war_horn_count(json: &mut Json) -> (r: Result<i32, SaveError>)
        requires
            capped_increment_ok(old(json)@, WAR_HORN_UPGRADE_CODE@),
        ensures
            (final(json)@, count_result(r)) == capped_increment(old(json)@, WAR_HORN_UPGRADE_CODE@),
    {
        Self::capped_increment_count(json, WAR_HORN_UPGRADE_CODE)
    }

    /// Removes one from the inventory, then counts (see [`decrement`]).
    pub fn decrement_war_horn_count(json: &mut Json) -> (r: Result<i32, SaveError>)
        requires
            decrement_ok(old(json)@, WAR_HORN_UPGRADE_CODE@),
        ensures
            (final(json)@, count_result(r)) == decrement(old(json)@, WAR_HORN_UPGRADE_CODE@),
    {
        Self::decrement_item_count(json, WAR_HORN_UPGRADE_CODE)
    }

}

} // verus!
