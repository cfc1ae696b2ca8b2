//! Count edits that test at run time whether they stay within the integers
//! that hold counts, slot indices, list sizes and record ids, and refuse with
//! an error where they would not.
use vstd::prelude::*;
use crate::error::{SaveError, count_result, unit_result};
use crate::inventory::{
    counted, fits_upto, inventory_ok, inventory_slots, logical_at, slot_width, walk_end, walk_stop,
};
use crate::inventory_edit::{
    add_ok, add_slot, free_at, inventory_layout, last_end, last_halt, put_values, remove_ok,
    used_slots,
};
use crate::inventory_edit::{add_item, remove_item};
use crate::item_counts::{
    add_custom, count_ok, decrement, increment, repeat_add, repeat_remove, set_count, total_count,
};
use crate::save_manager::GRAIL_UPGRADE_CODE;
use crate::text::owned;
use crate::json::{JVal, Json, views};
use crate::save_manager::SaveManager;
use crate::save_model::{max_record_id, records};
use crate::search::{lemma_count_bound, lemma_first_facts};
use crate::text::decimal;

verus! {

/// Every entry of the inventory starts and ends at a slot index that fits an `i32`.
pub open spec fn slots_fit(j: JVal) -> bool {
    match inventory_slots(j) {
        Some((vs, _)) => vs.len() <= i32::MAX && fits_upto(vs, vs.len() as int),
        None => true,
    }
}

/// Adding or removing an item stays within the integers: the entries fit,
/// the largest record id leaves room for one more, and so does the list's size.
pub open spec fn room_to_edit(j: JVal) -> bool {
    &&& slots_fit(j)
    &&& max_record_id(j) < i64::MAX
    &&& inventory_slots(j) matches Some((_, Some(size))) ==> size < i32::MAX
}

/// The number of entries of the inventory (0 when it cannot be found).
pub open spec fn entry_count(j: JVal) -> int {
    match inventory_slots(j) {
        Some((vs, _)) => vs.len() as int,
        None => 0,
    }
}

/// Counting items stays within the integers: the entries fit, and the records
/// and the entries together are no more than an `i32` holds.
pub open spec fn room_to_count(j: JVal) -> bool {
    &&& slots_fit(j)
    &&& match records(j).as_object() {
        Some(es) => es.len() + entry_count(j) <= i32::MAX,
        None => entry_count(j) <= i32::MAX,
    }
}

/// Storing a record under an existing key leaves the largest record id as it was.
pub proof fn lemma_max_id_kept(j: JVal, aid: i64, vs: Seq<JVal>)
    requires
        crate::upgrade_edit::records_writable(j),
        crate::save_model::record(j, decimal(aid as int)) is Object,
    ensures
        max_record_id(put_values(j, aid, vs)) == max_record_id(j),
{
    let key = decimal(aid as int);
    crate::upgrade_edit::lemma_writable(j, key);
    let r = crate::save_model::record(j, key);
    let r2 = r.set("values"@, JVal::Array(vs));
    crate::inventory_doc::lemma_kept_set_values(r, vs);
    assert(records(j).has_key(key));
    crate::inventory_doc::lemma_refs_put_existing(j, key, r2);
    let es = records(j).as_object().unwrap();
    crate::json::lemma_find_key_facts(es, key);
    let ki = crate::json::find_key(es, key).unwrap();
    lemma_max_same_keys(es, es.update(ki, (key, r2)));
}

/// Entries with the same keys have the same largest id.
pub proof fn lemma_max_same_keys(es: Seq<(Seq<char>, JVal)>, es2: Seq<(Seq<char>, JVal)>)
    requires
        es.len() == es2.len(),
        forall|i: int| 0 <= i < es.len() ==> #[trigger] es[i].0 == es2[i].0,
    ensures
        crate::save_model::max_key_id(es) == crate::save_model::max_key_id(es2),
    decreases es.len(),
{
    if es.len() > 0 {
        lemma_max_same_keys(es.drop_last(), es2.drop_last());
        assert(es.last().0 == es2.last().0);
    }
}

/// With room to edit, adding an item does not overflow.
pub proof fn lemma_room_to_add(j: JVal, code: Seq<char>, expand: bool)
    requires
        room_to_edit(j),
    ensures
        add_ok(j, code, expand),
{
    if let Ok((lid, aid, vs)) = inventory_layout(j) {
        assert(inventory_slots(j) == Some((vs, match lid {
            Some(l) => Some(crate::save_model::list_size(j, l as int)),
            None => None::<i32>,
        })));
        let size = used_slots(j, lid);
        crate::inventory_laws::lemma_first_int_facts(vs.len() as int, free_at(vs, size));
        if let Some((j1, vs1, k, w)) = add_slot(j, lid, aid, vs, expand) {
            if k >= vs.len() {
                assert(crate::save_model::record(j, decimal(aid as int)) is Object);
                lemma_max_id_kept(j, aid, vs1);
            }
        }
    }
}

/// With entries that fit, removing an item does not overflow.
pub proof fn lemma_room_to_remove(j: JVal, code: Seq<char>)
    requires
        slots_fit(j),
    ensures
        remove_ok(j, code),
{
    if let Ok((lid, aid, vs)) = inventory_layout(j) {
        assert(inventory_slots(j) is Some);
        let size = used_slots(j, lid);
        crate::inventory_laws::lemma_first_int_facts(vs.len() as int, walk_stop(vs, Some(size)));
        let we = walk_end(vs, Some(size));
        lemma_first_facts(vs.take(we), counted(j, Some(code)));
        let t = (size - 1) as i32;
        crate::inventory_laws::lemma_first_int_facts(vs.len() as int, last_halt(vs, t));
        let k = last_end(vs, t);
        if k < vs.len() {
            assert(logical_at(vs, k + 1) == logical_at(vs, k) + slot_width(vs[k]));
        }
    }
}

/// With room to count, counting items named `code` does not overflow.
pub proof fn lemma_room_to_count(j: JVal, code: Seq<char>)
    requires
        room_to_count(j),
    ensures
        count_ok(j, code),
{
    if let Some((vs, limit)) = inventory_slots(j) {
        crate::inventory_laws::lemma_first_int_facts(vs.len() as int, walk_stop(vs, limit));
        let w = vs.take(walk_end(vs, limit));
        lemma_count_bound(w, counted(j, Some(code)));
    }
    if let Some(es) = records(j).as_object() {
        lemma_count_bound(es, crate::inventory::carries(j, code));
    }
}

/// Entries that fit walk within the integers.
pub proof fn lemma_slots_fit_walk(j: JVal)
    requires
        slots_fit(j),
    ensures
        inventory_ok(j),
{
    if let Some((vs, limit)) = inventory_slots(j) {
        crate::inventory_laws::lemma_first_int_facts(vs.len() as int, walk_stop(vs, limit));
    }
}

impl SaveManager {
    /// Whether every entry of the inventory fits an `i32` slot index (see [`slots_fit`]).
    fn slots_fit_check(json: &Json) -> (r: bool)
        ensures
            r == slots_fit(json@),
    {
        let (vs, _limit) = match Self::inventory_values(json) {
            Some(p) => p,
            None => return true,
        };
        if vs.len() > 2147483647usize {
            return false;
        }
        let ghost vsv = views(vs@);
        let mut logical: i64 = 0;
        let mut i: usize = 0;
        while i < vs.len()
            invariant
                vsv == views(vs@),
                inventory_slots(json@) matches Some((v, _)) && v == vsv,
                vs@.len() <= i32::MAX,
                0 <= i <= vs.len(),
                logical as int == logical_at(vsv, i as int),
                forall|k: int| 0 <= k <= i ==> i32::MIN <= #[trigger] logical_at(vsv, k) <= i32::MAX,
            decreases vs.len() - i,
        {
            let (_, w) = Self::width_of(&vs[i]);
            let next = logical + w as i64;
            if next < -2147483648i64 || next > 2147483647i64 {
                proof {
                    assert(logical_at(vsv, i + 1) == next);
                }
                return false;
            }
            logical = next;
            i += 1;
        }
        true
    }

    /// Whether adding or removing an item stays within the integers (see [`room_to_edit`]).
    fn room_to_edit_check(json: &Json) -> (r: bool)
        ensures
            r == room_to_edit(json@),
    {
        if !Self::slots_fit_check(json) {
            return false;
        }
        if Self::find_max_record_id(json) == 9223372036854775807i64 {
            return false;
        }
        match Self::inventory_values(json) {
            Some((_, Some(size))) => size < 2147483647i32,
            _ => true,
        }
    }

    /// Whether counting items stays within the integers (see [`room_to_count`]).
    fn room_to_count_check(json: &Json) -> (r: bool)
        ensures
            r == room_to_count(json@),
    {
        if !Self::slots_fit_check(json) {
            return false;
        }
        let n: usize = match Self::inventory_values(json) {
            Some((vs, _)) => vs.len(),
            None => 0,
        };
        if n > 2147483647usize {
            return false;
        }
        let m: usize = match json.get("records") {
            Some(rs) => match rs.as_object() {
                Some(es) => es.len(),
                None => 0,
            },
            None => 0,
        };
        m <= 2147483647usize - n
    }

    /// Adds an item, then counts those of its name, refusing with
    /// `EditTooLarge` where either would leave the integers (see [`increment`]).
    fn try_increment(json: &mut Json, code: &str, expand: bool) -> (r: Result<i32, SaveError>)
        ensures
            !(r matches Err(SaveError::EditTooLarge)) ==> (final(json)@, count_result(r)) == increment(
                old(json)@,
                code@,
                expand,
            ),
            r matches Err(SaveError::EditTooLarge) ==> final(json)@ == old(json)@ || final(json)@ == add_item(
                old(json)@,
                code@,
                expand,
            ).0,
    {
        if !Self::room_to_edit_check(json) {
            return Err(SaveError::EditTooLarge);
        }
        proof {
            lemma_room_to_add(json@, code@, expand);
        }
        match Self::add_to_inventory(json, code, expand) {
            Err(e) => Err(e),
            Ok(()) => {
                if !Self::room_to_count_check(json) {
                    return Err(SaveError::EditTooLarge);
                }
                proof {
                    lemma_room_to_count(json@, code@);
                }
                Ok(Self::get_total_item_count(json, code))
            },
        }
    }

    /// Removes an item, then counts those of its name, refusing with
    /// `EditTooLarge` where either would leave the integers (see [`decrement`]).
    fn try_decrement(json: &mut Json, code: &str) -> (r: Result<i32, SaveError>)
        ensures
            !(r matches Err(SaveError::EditTooLarge)) ==> (final(json)@, count_result(r)) == decrement(
                old(json)@,
                code@,
            ),
            r matches Err(SaveError::EditTooLarge) ==> final(json)@ == old(json)@ || final(json)@ == remove_item(
                old(json)@,
                code@,
            ).0,
    {
        if !Self::slots_fit_check(json) {
            return Err(SaveError::EditTooLarge);
        }
        proof {
            lemma_room_to_remove(json@, code@);
        }
        match Self::remove_from_inventory(json, code) {
            Err(e) => Err(e),
            Ok(()) => {
                if !Self::room_to_count_check(json) {
                    return Err(SaveError::EditTooLarge);
                }
                proof {
                    lemma_room_to_count(json@, code@);
                }
                Ok(Self::get_total_item_count(json, code))
            },
        }
    }

    /// Sets the count of items named `code`, adding or removing them one at a
    /// time, refusing with `EditTooLarge` where a step would leave the integers
    /// (see [`set_count`]).
    fn try_set_count(json: &mut Json, code: &str, expand: bool, target: i32) -> (r: Result<(), SaveError>)
        ensures
            !(r matches Err(SaveError::EditTooLarge)) ==> (final(json)@, unit_result(r)) == set_count(
                old(json)@,
                code@,
                expand,
                target,
            ),
    {
        if target < 0 {
            return Err(SaveError::NegativeCount(owned(code)));
        }
        if !Self::room_to_count_check(json) {
            return Err(SaveError::EditTooLarge);
        }
        proof {
            lemma_room_to_count(json@, code@);
        }
        let current = Self::get_total_item_count(json, code);
        let ghost j0 = json@;
        if target > current {
            let n = target - current;
            let mut m = n;
            while m > 0
                invariant
                    0 <= m <= n,
                    n == target - current,
                    current as int == total_count(j0, code@),
                    j0 == old(json)@,
                    target >= 0,
                    repeat_add(json@, code@, expand, m as nat) == repeat_add(j0, code@, expand, n as nat),
                decreases m,
            {
                if !Self::room_to_edit_check(json) {
                    return Err(SaveError::EditTooLarge);
                }
                proof {
                    lemma_room_to_add(json@, code@, expand);
                }
                let ghost jb = json@;
                match Self::add_to_inventory(json, code, expand) {
                    Ok(()) => {},
                    Err(e) => {
                        assert(repeat_add(jb, code@, expand, m as nat) == (json@, unit_result(Err::<(), SaveError>(e))));
                        return Err(e);
                    },
                }
                m = m - 1;
            }
            Ok(())
        } else if target < current {
            let n = current - target;
            let mut m = n;
            while m > 0
                invariant
                    0 <= m <= n,
                    n == current - target,
                    target < current,
                    current as int == total_count(j0, code@),
                    j0 == old(json)@,
                    target >= 0,
                    repeat_remove(json@, code@, m as nat) == repeat_remove(j0, code@, n as nat),
                decreases m,
            {
                if !Self::slots_fit_check(json) {
                    return Err(SaveError::EditTooLarge);
                }
                proof {
                    lemma_room_to_remove(json@, code@);
                }
                let ghost jb = json@;
                match Self::remove_from_inventory(json, code) {
                    Ok(()) => {},
                    Err(e) => {
                        assert(repeat_remove(jb, code@, m as nat) == (json@, unit_result(Err::<(), SaveError>(e))));
                        return Err(e);
                    },
                }
                m = m - 1;
            }
            Ok(())
        } else {
            Ok(())
        }
    }

    /// Adds an item named `upgrade_code` and counts those of its name, refusing
    /// with `EditTooLarge` where that would leave the integers (see [`increment`]).
    pub fn try_increment_item_count(json: &mut Json, upgrade_code: &str) -> (r: Result<i32, SaveError>)
        ensures
            !(r matches Err(SaveError::EditTooLarge)) ==> (final(json)@, count_result(r)) == increment(
                old(json)@,
                upgrade_code@,
                true,
            ),
    {
        Self::try_increment(json, upgrade_code, true)
    }

    /// Adds a grail, without growing a full inventory, and counts the grails,
    /// refusing with `EditTooLarge` where that would leave the integers (see [`increment`]).
    pub fn try_increment_grail_count(json: &mut Json) -> (r: Result<i32, SaveError>)
        ensures
            !(r matches Err(SaveError::EditTooLarge)) ==> (final(json)@, count_result(r)) == increment(
                old(json)@,
                GRAIL_UPGRADE_CODE@,
                false,
            ),
    {
        Self::try_increment(json, GRAIL_UPGRADE_CODE, false)
    }

    /// Removes an item named `upgrade_code` and counts those of its name,
    /// refusing with `EditTooLarge` where that would leave the integers (see [`decrement`]).
    pub fn try_decrement_item_count(json: &mut Json, upgrade_code: &str) -> (r: Result<i32, SaveError>)
        ensures
            !(r matches Err(SaveError::EditTooLarge)) ==> (final(json)@, count_result(r)) == decrement(
                old(json)@,
                upgrade_code@,
            ),
    {
        Self::try_decrement(json, upgrade_code)
    }

    /// Removes a grail and counts the grails, refusing with `EditTooLarge`
    /// where that would leave the integers (see [`decrement`]).
    pub fn try_decrement_grail_count(json: &mut Json) -> (r: Result<i32, SaveError>)
        ensures
            !(r matches Err(SaveError::EditTooLarge)) ==> (final(json)@, count_result(r)) == decrement(
                old(json)@,
                GRAIL_UPGRADE_CODE@,
            ),
    {
        Self::try_decrement(json, GRAIL_UPGRADE_CODE)
    }

    /// Sets the number of items named `upgrade_code`, refusing with
    /// `EditTooLarge` where a step would leave the integers (see [`set_count`]).
    pub fn try_set_item_count(json: &mut Json, upgrade_code: &str, target: i32) -> (r: Result<(), SaveError>)
        ensures
            !(r matches Err(SaveError::EditTooLarge)) ==> (final(json)@, unit_result(r)) == set_count(
                old(json)@,
                upgrade_code@,
                true,
                target,
            ),
    {
        Self::try_set_count(json, upgrade_code, true, target)
    }

    /// Sets the number of grails, refusing with `EditTooLarge` where a step
    /// would leave the integers (see [`set_count`]).
    pub fn try_set_grail_count(json: &mut Json, target: i32) -> (r: Result<(), SaveError>)
        ensures
            !(r matches Err(SaveError::EditTooLarge)) ==> (final(json)@, unit_result(r)) == set_count(
                old(json)@,
                GRAIL_UPGRADE_CODE@,
                false,
                target,
            ),
    {
        Self::try_set_count(json, GRAIL_UPGRADE_CODE, false, target)
    }

    /// Adds an item named `upgrade_code` unless the inventory is full,
    /// refusing with `EditTooLarge` where that would leave the integers (see [`add_custom`]).
    pub fn try_add_custom_item_to_inventory(json: &mut Json, upgrade_code: &str) -> (r: Result<(), SaveError>)
        ensures
            !(r matches Err(SaveError::EditTooLarge)) ==> (final(json)@, unit_result(r)) == add_custom(
                old(json)@,
                upgrade_code@,
            ),
    {
        if !Self::room_to_edit_check(json) {
            return Err(SaveError::EditTooLarge);
        }
        proof {
            lemma_room_to_add(json@, upgrade_code@, true);
            lemma_slots_fit_walk(json@);
        }
        Self::add_custom_item_to_inventory(json, upgrade_code)
    }
}

} // verus!
