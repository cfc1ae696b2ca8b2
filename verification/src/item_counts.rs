//! Counting items up and down, and setting a count, by adding and removing
//! items one at a time.
use vstd::prelude::*;
use crate::error::{SaveError, SaveErr, count_result, unit_result};
use crate::inventory::{hero_count, inventory_count, inventory_ok, records_countable};
use crate::inventory_edit::{add_item, add_ok, remove_item, remove_ok};
use crate::json::{JVal, Json};
use crate::save_manager::{SaveManager, GRAIL_UPGRADE_CODE};
use crate::text::owned;

verus! {

/// How many items named `code` there are, carried or in the inventory.
pub open spec fn total_count(j: JVal, code: Seq<char>) -> int {
    hero_count(j, code) + inventory_count(j, Some(code))
}

/// The items named `code` can be counted in an `i32`.
pub open spec fn count_ok(j: JVal, code: Seq<char>) -> bool {
    &&& records_countable(j)
    &&& inventory_ok(j)
    &&& total_count(j, code) <= i32::MAX
}

/// Adding an item named `code`, then counting them: the document and the count.
pub open spec fn increment(j: JVal, code: Seq<char>, expand: bool) -> (JVal, Result<i32, SaveErr>) {
    let (j1, r) = add_item(j, code, expand);
    match r {
        Ok(()) => (j1, Ok(total_count(j1, code) as i32)),
        Err(e) => (j1, Err(e)),
    }
}

/// Removing an item named `code`, then counting them: the document and the count.
pub open spec fn decrement(j: JVal, code: Seq<char>) -> (JVal, Result<i32, SaveErr>) {
    let (j1, r) = remove_item(j, code);
    match r {
        Ok(()) => (j1, Ok(total_count(j1, code) as i32)),
        Err(e) => (j1, Err(e)),
    }
}

/// Adding an item and counting do not overflow.
pub open spec fn increment_ok(j: JVal, code: Seq<char>, expand: bool) -> bool {
    &&& add_ok(j, code, expand)
    &&& add_item(j, code, expand).1 is Ok ==> count_ok(add_item(j, code, expand).0, code)
}

/// Removing an item and counting do not overflow.
pub open spec fn decrement_ok(j: JVal, code: Seq<char>) -> bool {
    &&& remove_ok(j, code)
    &&& remove_item(j, code).1 is Ok ==> count_ok(remove_item(j, code).0, code)
}

/// Adding `n` items named `code` one after the other, stopping at the first refusal.
pub open spec fn repeat_add(j: JVal, code: Seq<char>, expand: bool, n: nat) -> (JVal, Result<(), SaveErr>)
    decreases n,
{
    if n == 0 {
        (j, Ok(()))
    } else {
        let (j1, r) = add_item(j, code, expand);
        match r {
            Err(e) => (j1, Err(e)),
            Ok(()) => repeat_add(j1, code, expand, (n - 1) as nat),
        }
    }
}

/// Removing `n` items named `code` one after the other, stopping at the first refusal.
pub open spec fn repeat_remove(j: JVal, code: Seq<char>, n: nat) -> (JVal, Result<(), SaveErr>)
    decreases n,
{
    if n == 0 {
        (j, Ok(()))
    } else {
        let (j1, r) = remove_item(j, code);
        match r {
            Err(e) => (j1, Err(e)),
            Ok(()) => repeat_remove(j1, code, (n - 1) as nat),
        }
    }
}

/// None of `n` additions overflows (nor, when `counting`, the count after each).
pub open spec fn adds_ok(j: JVal, code: Seq<char>, expand: bool, counting: bool, n: nat) -> bool
    decreases n,
{
    n == 0 || {
        &&& add_ok(j, code, expand)
        &&& add_item(j, code, expand).1 is Ok ==> {
            &&& counting ==> count_ok(add_item(j, code, expand).0, code)
            &&& adds_ok(add_item(j, code, expand).0, code, expand, counting, (n - 1) as nat)
        }
    }
}

/// None of `n` removals overflows (nor, when `counting`, the count after each).
pub open spec fn removes_ok(j: JVal, code: Seq<char>, counting: bool, n: nat) -> bool
    decreases n,
{
    n == 0 || {
        &&& remove_ok(j, code)
        &&& remove_item(j, code).1 is Ok ==> {
            &&& counting ==> count_ok(remove_item(j, code).0, code)
            &&& removes_ok(remove_item(j, code).0, code, counting, (n - 1) as nat)
        }
    }
}

/// Bringing a count from `current` to `target` by additions or removals.
pub open spec fn reach_count(j: JVal, code: Seq<char>, expand: bool, current: int, target: int) -> (
    JVal,
    Result<(), SaveErr>,
) {
    if target > current {
        repeat_add(j, code, expand, (target - current) as nat)
    } else if target < current {
        repeat_remove(j, code, (current - target) as nat)
    } else {
        (j, Ok(()))
    }
}

/// Reaching a count does not overflow.
pub open spec fn reach_ok(j: JVal, code: Seq<char>, expand: bool, counting: bool, current: int, target: int) -> bool {
    &&& target > current ==> adds_ok(j, code, expand, counting, (target - current) as nat)
    &&& target < current ==> removes_ok(j, code, counting, (current - target) as nat)
}

/// Setting the number of items named `code` (carried and in the inventory) to `target`.
pub open spec fn set_count(j: JVal, code: Seq<char>, expand: bool, target: i32) -> (JVal, Result<(), SaveErr>) {
    if target < 0 {
        (j, Err(SaveErr::NegativeCount(code)))
    } else {
        reach_count(j, code, expand, total_count(j, code), target as int)
    }
}

/// Setting a count does not overflow.
pub open spec fn set_count_ok(j: JVal, code: Seq<char>, expand: bool, target: i32) -> bool {
    target >= 0 ==> count_ok(j, code) && reach_ok(j, code, expand, true, total_count(j, code), target as int)
}

/// Setting the number of grails in the inventory to `target`.
pub open spec fn set_inventory_count(j: JVal, target: i32) -> (JVal, Result<(), SaveErr>) {
    if target < 0 {
        (j, Err(SaveErr::NegativeCount(GRAIL_UPGRADE_CODE@)))
    } else {
        reach_count(j, GRAIL_UPGRADE_CODE@, false, inventory_count(j, Some(GRAIL_UPGRADE_CODE@)), target as int)
    }
}

/// Setting the number of grails in the inventory does not overflow.
pub open spec fn set_inventory_count_ok(j: JVal, target: i32) -> bool {
    target >= 0 ==> inventory_ok(j) && reach_ok(
        j,
        GRAIL_UPGRADE_CODE@,
        false,
        false,
        inventory_count(j, Some(GRAIL_UPGRADE_CODE@)),
        target as int,
    )
}

/// The most named items the inventory holds.
pub open spec fn inventory_capacity() -> int {
    20
}

/// Adding an item named `code` and counting, refused with the number of items
/// when the inventory is full.
pub open spec fn capped_increment(j: JVal, code: Seq<char>) -> (JVal, Result<i32, SaveErr>) {
    if inventory_count(j, None) >= inventory_capacity() {
        (j, Err(SaveErr::InventoryFull(inventory_count(j, None) as i32)))
    } else {
        increment(j, code, true)
    }
}

/// A capped increment does not overflow.
pub open spec fn capped_increment_ok(j: JVal, code: Seq<char>) -> bool {
    &&& inventory_ok(j)
    &&& inventory_count(j, None) < inventory_capacity() ==> increment_ok(j, code, true)
}

/// Adding an item named `code`, refused with the number of items when the
/// inventory is full.
pub open spec fn add_custom(j: JVal, code: Seq<char>) -> (JVal, Result<(), SaveErr>) {
    if inventory_count(j, None) >= inventory_capacity() {
        (j, Err(SaveErr::InventoryFull(inventory_count(j, None) as i32)))
    } else {
        add_item(j, code, true)
    }
}

impl SaveManager {
    /// Adds `n` items named `code` one after the other, counting them after
    /// each when `counting` (see [`repeat_add`]).
    fn add_times(json: &mut Json, code: &str, expand: bool, counting: bool, n: i32) -> (r: Result<(), SaveError>)
        requires
            n >= 0,
            adds_ok(old(json)@, code@, expand, counting, n as nat),
        ensures
            (final(json)@, unit_result(r)) == repeat_add(old(json)@, code@, expand, n as nat),
    {
        let ghost j0 = json@;
        let mut m = n;
        while m > 0
            invariant
                0 <= m <= n,
                j0 == old(json)@,
                repeat_add(json@, code@, expand, m as nat) == repeat_add(j0, code@, expand, n as nat),
                adds_ok(json@, code@, expand, counting, m as nat),
            decreases m,
        {
            let ghost jb = json@;
            match Self::add_to_inventory(json, code, expand) {
                Ok(()) => {},
                Err(e) => {
                    assert(repeat_add(jb, code@, expand, m as nat) == (json@, unit_result(Err::<(), SaveError>(e))));
                    return Err(e);
                },
            }
            if counting {
                let _ = Self::get_total_item_count(json, code);
            }
            m = m - 1;
        }
        Ok(())
    }

    /// Removes `n` items named `code` one after the other, counting them after
    /// each when `counting` (see [`repeat_remove`]).
    fn remove_times(json: &mut Json, code: &str, counting: bool, n: i32) -> (r: Result<(), SaveError>)
        requires
            n >= 0,
            removes_ok(old(json)@, code@, counting, n as nat),
        ensures
            (final(json)@, unit_result(r)) == repeat_remove(old(json)@, code@, n as nat),
    {
        let ghost j0 = json@;
        let mut m = n;
        while m > 0
            invariant
                0 <= m <= n,
                j0 == old(json)@,
                repeat_remove(json@, code@, m as nat) == repeat_remove(j0, code@, n as nat),
                removes_ok(json@, code@, counting, m as nat),
            decreases m,
        {
            let ghost jb = json@;
            match Self::remove_from_inventory(json, code) {
                Ok(()) => {},
                Err(e) => {
                    assert(repeat_remove(jb, code@, m as nat) == (json@, unit_result(Err::<(), SaveError>(e))));
                    return Err(e);
                },
            }
            if counting {
                let _ = Self::get_total_item_count(json, code);
            }
            m = m - 1;
        }
        Ok(())
    }

    /// Brings the count of items named `code` from `current` to `target` (see [`reach_count`]).
    fn reach(json: &mut Json, code: &str, expand: bool, counting: bool, current: i32, target: i32) -> (r: Result<
        (),
        SaveError,
    >)
        requires
            current >= 0,
            target >= 0,
            reach_ok(old(json)@, code@, expand, counting, current as int, target as int),
        ensures
            (final(json)@, unit_result(r)) == reach_count(old(json)@, code@, expand, current as int, target as int),
    {
        if target > current {
            Self::add_times(json, code, expand, counting, target - current)
        } else if target < current {
            Self::remove_times(json, code, counting, current - target)
        } else {
            Ok(())
        }
    }

    /// Adds an item named `upgrade_code` to the inventory, then gives how many
    /// there are, carried or in the inventory (see [`increment`]).
    pub fn increment_item_count(json: &mut Json, upgrade_code: &str) -> (r: Result<i32, SaveError>)
        requires
            increment_ok(old(json)@, upgrade_code@, true),
        ensures
            (final(json)@, count_result(r)) == increment(old(json)@, upgrade_code@, true),
    {
        match Self::add_item_to_inventory(json, upgrade_code) {
            Ok(()) => Ok(Self::get_total_item_count(json, upgrade_code)),
            Err(e) => Err(e),
        }
    }

    /// Removes an item named `upgrade_code` from the inventory, then gives how
    /// many there are, carried or in the inventory (see [`decrement`]).
    pub fn decrement_item_count(json: &mut Json, upgrade_code: &str) -> (r: Result<i32, SaveError>)
        requires
            decrement_ok(old(json)@, upgrade_code@),
        ensures
            (final(json)@, count_result(r)) == decrement(old(json)@, upgrade_code@),
    {
        match Self::remove_item_from_inventory(json, upgrade_code) {
            Ok(()) => Ok(Self::get_total_item_count(json, upgrade_code)),
            Err(e) => Err(e),
        }
    }

    /// Makes the number of items named `upgrade_code` (carried and in the
    /// inventory) `target`, adding or removing inventory items one at a time
    /// (see [`set_count`]).
    pub fn set_item_count(json: &mut Json, upgrade_code: &str, target: i32) -> (r: Result<(), SaveError>)
        requires
            set_count_ok(old(json)@, upgrade_code@, true, target),
        ensures
            (final(json)@, unit_result(r)) == set_count(old(json)@, upgrade_code@, true, target),
    {
        if target < 0 {
            return Err(SaveError::NegativeCount(owned(upgrade_code)));
        }
        let current = Self::get_total_item_count(json, upgrade_code);
        Self::reach(json, upgrade_code, true, true, current, target)
    }

    /// Adds a grail to the inventory, then gives the number of grails, carried
    /// or in the inventory (see [`increment`]).
    pub fn increment_grail_count(json: &mut Json) -> (r: Result<i32, SaveError>)
        requires
            increment_ok(old(json)@, GRAIL_UPGRADE_CODE@, false),
        ensures
            (final(json)@, count_result(r)) == increment(old(json)@, GRAIL_UPGRADE_CODE@, false),
    {
        match Self::add_grail_to_inventory(json) {
            Ok(()) => Ok(Self::get_grail_count(json)),
            Err(e) => Err(e),
        }
    }

    /// Removes a grail from the inventory, then gives the number of grails,
    /// carried or in the inventory (see [`decrement`]).
    pub fn decrement_grail_count(json: &mut Json) -> (r: Result<i32, SaveError>)
        requires
            decrement_ok(old(json)@, GRAIL_UPGRADE_CODE@),
        ensures
            (final(json)@, count_result(r)) == decrement(old(json)@, GRAIL_UPGRADE_CODE@),
    {
        match Self::remove_grail_from_inventory(json) {
            Ok(()) => Ok(Self::get_grail_count(json)),
            Err(e) => Err(e),
        }
    }

    /// Makes the number of grails (carried and in the inventory) `target`,
    /// adding or removing inventory grails one at a time; a full inventory
    /// refuses (see [`set_count`]).
    pub fn set_grail_count(json: &mut Json, target: i32) -> (r: Result<(), SaveError>)
        requires
            set_count_ok(old(json)@, GRAIL_UPGRADE_CODE@, false, target),
        ensures
            (final(json)@, unit_result(r)) == set_count(old(json)@, GRAIL_UPGRADE_CODE@, false, target),
    {
        if target < 0 {
            return Err(SaveError::NegativeCount(owned(GRAIL_UPGRADE_CODE)));
        }
        let current = Self::get_grail_count(json);
        Self::reach(json, GRAIL_UPGRADE_CODE, false, true, current, target)
    }

    /// Makes the number of grails in the inventory `target`, adding or removing
    /// them one at a time (see [`set_inventory_count`]).
    pub fn set_inventory_grail_count(json: &mut Json, target: i32) -> (r: Result<(), SaveError>)
        requires
            set_inventory_count_ok(old(json)@, target),
        ensures
            (final(json)@, unit_result(r)) == set_inventory_count(old(json)@, target),
    {
        if target < 0 {
            return Err(SaveError::NegativeCount(owned(GRAIL_UPGRADE_CODE)));
        }
        let current = Self::get_inventory_grail_count(json);
        Self::reach(json, GRAIL_UPGRADE_CODE, false, false, current, target)
    }

    /// Adds an item named `upgrade_code` and counts, unless the inventory
    /// already holds its 20 items (see [`capped_increment`]).
    pub(crate) fn capped_increment_count(json: &mut Json, upgrade_code: &str) -> (r: Result<i32, SaveError>)
        requires
            capped_increment_ok(old(json)@, upgrade_code@),
        ensures
            (final(json)@, count_result(r)) == capped_increment(old(json)@, upgrade_code@),
    {
        let current_total = Self::get_total_inventory_count(json);
        if current_total >= 20 {
            return Err(SaveError::InventoryFull(current_total));
        }
        Self::increment_item_count(json, upgrade_code)
    }

    /// Adds an item of any code to the inventory, unless it already holds its
    /// 20 items (see [`add_custom`]).
    pub fn add_custom_item_to_inventory(json: &mut Json, upgrade_code: &str) -> (r: Result<(), SaveError>)
        requires
            inventory_ok(old(json)@),
            inventory_count(old(json)@, None) < inventory_capacity() ==> add_ok(old(json)@, upgrade_code@, true),
        ensures
            (final(json)@, unit_result(r)) == add_custom(old(json)@, upgrade_code@),
    {
        let current_total = Self::get_total_inventory_count(json);
        if current_total >= 20 {
            return Err(SaveError::InventoryFull(current_total));
        }
        Self::add_item_to_inventory(json, upgrade_code)
    }
}

} // verus!
