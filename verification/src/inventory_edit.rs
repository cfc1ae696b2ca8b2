//! Putting items into the inventory and taking them out.
//!
//! An item goes into the first empty entry at or past the slots in use,
//! splitting a `NullMultiple` when it stands for more than one slot; when there
//! is none the array can grow by a `NullMultiple` of 256 slots. An item leaves
//! by trading places with the last slot in use, which then becomes a
//! `NullMultiple` of 256 slots. The list's `_size` follows.
use vstd::prelude::*;
use crate::error::{SaveError, SaveErr, unit_result};
use crate::hero_edit::{
    close_record, edit_member_of, lemma_put_record_facts, members_present, open_record, put_record,
    slot, slot_ok, value_edit,
};
use crate::inventory::{
    counted, entry_type, fits_upto, logical_at, null_count, slot_width, walk_end, walk_stop,
};
use crate::json::{
    JVal, Json, num_of_int, views, lemma_set_set, lemma_set_other, lemma_set_then_get,
};
use crate::save_manager::{SaveManager, GRAIL_UPGRADE_CODE};
use crate::save_model::{
    get_str, id_key, inventory_refs, lemma_record_id_bound, list_size, max_record_id, record,
    record_by_id, record_of, records, upgrade_class_type,
};
use crate::search::{
    first_index, first_int, is_first_int, lemma_first_facts, lemma_first_int_is,
    lemma_first_int_none, lemma_first_int_past, lemma_first_is, lemma_first_none,
};
use crate::text::{decimal, lemma_decimal_injective, owned, str_eq};
use crate::upgrade_edit::{
    lemma_put_keeps_writable, lemma_put_other, lemma_set_keeps_records, lemma_writable,
    metadata_template, records_writable, upgrade_record,
};

verus! {

/// An entry that stands for empty slots.
pub open spec fn is_empty_entry(e: JVal) -> bool {
    entry_type(e) == Some("NullMultiple"@) || entry_type(e) == Some("Null"@)
}

/// The search for a free entry stops at entry `k`: an empty entry at or past
/// the `size` slots in use.
pub open spec fn free_at(vs: Seq<JVal>, size: i32) -> spec_fn(int) -> bool {
    |k: int| 0 <= k < vs.len() && is_empty_entry(vs[k]) && logical_at(vs, k) >= size
}

/// The first free entry (`vs.len()` when there is none).
pub open spec fn free_end(vs: Seq<JVal>, size: i32) -> int {
    first_int(vs.len() as int, free_at(vs, size))
}

/// A `Reference` entry to record `id`.
pub open spec fn ref_entry(id: i64) -> JVal {
    JVal::Object(seq![("id"@, JVal::Num(num_of_int(id as int))), ("type"@, JVal::Str("Reference"@))])
}

/// A `NullMultiple` entry standing for `c` empty slots.
pub open spec fn null_multiple(c: i32) -> JVal {
    JVal::Object(
        seq![("count"@, JVal::Num(num_of_int(c as int))), ("type"@, JVal::Str("NullMultiple"@))],
    )
}

/// The entries once entry `k`, standing for `width` empty slots, holds a
/// reference to record `id`; the slots left over stay empty after it.
pub open spec fn fill_slot(vs: Seq<JVal>, k: int, width: i32, id: i64) -> Seq<JVal> {
    if width > 1 {
        vs.update(k, ref_entry(id)).insert(k + 1, null_multiple((width - 1) as i32))
    } else {
        vs.update(k, ref_entry(id))
    }
}

/// The document once the array record `aid` holds the entries `vs`.
pub open spec fn put_values(j: JVal, aid: i64, vs: Seq<JVal>) -> JVal {
    put_record(j, decimal(aid as int), slot(j, decimal(aid as int)).set("values"@, JVal::Array(vs)))
}

/// The slots in use: the `_size` of the list, 0 without one.
pub open spec fn used_slots(j: JVal, lid: Option<i64>) -> i32 {
    match lid {
        Some(l) => list_size(j, l as int),
        None => 0,
    }
}

/// The entries of the array record `aid`.
pub open spec fn array_values(j: JVal, aid: i64) -> Option<Seq<JVal>> {
    record_by_id(j, aid as int).get("values"@).as_array()
}

/// Setting the `_size` of the list record `lid`.
pub open spec fn set_size(j: JVal, lid: i64, n: i32) -> (JVal, Result<(), SaveErr>) {
    edit_member_of(
        j,
        decimal(lid as int),
        "_size"@,
        value_edit(JVal::Num(num_of_int(n as int))),
        SaveErr::ListRecordNotFound(lid),
        SaveErr::ListMembersNotFound(lid),
        Err(SaveErr::ListSizeNotFound(lid)),
    )
}

/// The record stored under `key` is an object with a `members` entry.
pub open spec fn has_members_entry(j: JVal, key: Seq<char>) -> bool {
    record(j, key) is Object && record(j, key).has_key("members"@)
}

/// Where the inventory keeps its entries: the list (when there is one), the
/// array record and its entries.
pub open spec fn inventory_layout(j: JVal) -> Result<(Option<i64>, i64, Seq<JVal>), SaveErr> {
    match inventory_refs(j) {
        Err(e) => Err(e),
        Ok((lid, aid)) => match array_values(j, aid) {
            None => Err(SaveErr::NoValuesArray(aid)),
            Some(vs) => Ok((lid, aid, vs)),
        },
    }
}

/// The free entry a new item takes (its position and how many slots it stands
/// for), with the entries and the document once the array has grown by a
/// `NullMultiple` of 256 slots when it had no free entry; `None` when it had
/// none and may not grow.
pub open spec fn add_slot(j: JVal, lid: Option<i64>, aid: i64, vs: Seq<JVal>, expand: bool) -> Option<
    (JVal, Seq<JVal>, int, i32),
> {
    let k = free_end(vs, used_slots(j, lid));
    if k < vs.len() {
        Some((j, vs, k, slot_width(vs[k]) as i32))
    } else if expand {
        let vs1 = vs.push(null_multiple(256));
        Some((put_values(j, aid, vs1), vs1, k, 256i32))
    } else {
        None
    }
}

/// The document with an item record named `code` stored as record `id`, given
/// the template metadata, and appended to the record order (which needs `id`
/// to fit an `i32`).
pub open spec fn register_item(j: JVal, ctid: u64, ctn: Seq<char>, code: Seq<char>, id: i64) -> (
    JVal,
    Result<(), SaveErr>,
) {
    let key = decimal(id as int);
    let j2 = put_record(j, key, upgrade_record(ctid, ctn, code, 0));
    let j3 = if j2.get("record_metadata"@) is Object {
        j2.set("record_metadata"@, j2.get("record_metadata"@).insert(key, metadata_template(j2)))
    } else {
        j2
    };
    if j3.get("record_order"@) is Array {
        if i32::MIN <= id <= i32::MAX {
            (j3.set("record_order"@, j3.get("record_order"@).push(JVal::Num(num_of_int(id as int)))), Ok(()))
        } else {
            (j3, Err(SaveErr::RecordIdOutOfRange(id)))
        }
    } else {
        (j3, Ok(()))
    }
}

/// Adding an item named `code`, before the list's `_size` is raised: the
/// document and the result.
pub open spec fn add_placed(j: JVal, code: Seq<char>, expand: bool) -> (JVal, Result<(), SaveErr>) {
    match inventory_layout(j) {
        Err(e) => (j, Err(e)),
        Ok((lid, aid, vs)) => match add_slot(j, lid, aid, vs, expand) {
            None => (j, Err(SaveErr::NoFreeSlot)),
            Some((j1, vs1, k, width)) => match upgrade_class_type(j1) {
                None => (j1, Err(SaveErr::HeroUpgradeTypeNotFound)),
                Some((ctid, ctn)) => {
                    let id = (max_record_id(j1) + 1) as i64;
                    let (j4, r) = register_item(j1, ctid, ctn, code, id);
                    match r {
                        Err(e) => (j4, Err(e)),
                        Ok(()) => (put_values(j4, aid, fill_slot(vs1, k, width, id)), Ok(())),
                    }
                },
            },
        },
    }
}

/// Adding an item named `code` to the inventory (growing the array when it is
/// full only when `expand`): the document and the result.
#[verifier::opaque]
pub open spec fn add_item(j: JVal, code: Seq<char>, expand: bool) -> (JVal, Result<(), SaveErr>) {
    let (j5, r) = add_placed(j, code, expand);
    match (r, inventory_refs(j)) {
        (Ok(()), Ok((Some(lid), _))) => set_size(j5, lid, (list_size(j, lid as int) + 1) as i32),
        _ => (j5, r),
    }
}

/// Adding an item does no arithmetic that overflows: the slot index of the
/// search, the new record id and the new `_size`.
pub open spec fn add_ok(j: JVal, code: Seq<char>, expand: bool) -> bool {
    match inventory_layout(j) {
        Err(_) => true,
        Ok((lid, aid, vs)) => {
            &&& fits_upto(vs, free_end(vs, used_slots(j, lid)))
            &&& match add_slot(j, lid, aid, vs, expand) {
                Some((j1, _, _, _)) => upgrade_class_type(j1) is Some ==> max_record_id(j1) < i64::MAX,
                None => true,
            }
            &&& add_placed(j, code, expand).1 is Ok && lid is Some ==> used_slots(j, lid) < i32::MAX
        },
    }
}

/// The item to remove: the first entry counted under `code` among those the
/// walk over the `size` slots in use reads.
pub open spec fn item_slot(j: JVal, vs: Seq<JVal>, size: i32, code: Seq<char>) -> Option<int> {
    first_index(vs.take(walk_end(vs, Some(size))), counted(j, Some(code)))
}

/// A reference or a single empty slot.
pub open spec fn is_single_slot(e: JVal) -> bool {
    entry_type(e) == Some("Reference"@) || entry_type(e) == Some("Null"@)
}

/// The search for the last slot in use halts at entry `k`: it is past the
/// `target` slot, or it is that slot, or it is a `NullMultiple` reaching past it.
pub open spec fn last_halt(vs: Seq<JVal>, target: i32) -> spec_fn(int) -> bool {
    |k: int|
        logical_at(vs, k) > target || (is_single_slot(vs[k]) && logical_at(vs, k) == target) || (entry_type(vs[k])
            == Some("NullMultiple"@) && logical_at(vs, k) + null_count(vs[k]) > target)
}

/// Where the search for the last slot in use halts (`vs.len()` when it does not).
pub open spec fn last_end(vs: Seq<JVal>, target: i32) -> int {
    first_int(vs.len() as int, last_halt(vs, target))
}

/// The entry of slot `target`, when the search halts at a reference or a single
/// empty slot there.
pub open spec fn last_slot(vs: Seq<JVal>, target: i32) -> Option<int> {
    let k = last_end(vs, target);
    if k < vs.len() && is_single_slot(vs[k]) && logical_at(vs, k) == target {
        Some(k)
    } else {
        None
    }
}

/// The search for the last slot in use does not overflow its `i32` slot index.
pub open spec fn last_ok(vs: Seq<JVal>, target: i32) -> bool {
    let k = last_end(vs, target);
    &&& fits_upto(vs, k)
    &&& (k < vs.len() && entry_type(vs[k]) == Some("NullMultiple"@) && logical_at(vs, k) <= target)
        ==> i32::MIN <= logical_at(vs, k) + null_count(vs[k]) <= i32::MAX
}

/// The entries once entry `i` has traded places with entry `k`, which then
/// stands for 256 empty slots.
pub open spec fn take_out(vs: Seq<JVal>, i: int, k: int) -> Seq<JVal> {
    vs.update(i, vs[k]).update(k, null_multiple(256))
}

/// Removing an item named `code` from the inventory: the document and the result.
#[verifier::opaque]
pub open spec fn remove_item(j: JVal, code: Seq<char>) -> (JVal, Result<(), SaveErr>) {
    match inventory_layout(j) {
        Err(e) => (j, Err(e)),
        Ok((lid, aid, vs)) => {
            let size = used_slots(j, lid);
            match item_slot(j, vs, size, code) {
                None => (j, Err(SaveErr::NothingToRemove(code))),
                Some(i) => match last_slot(vs, (size - 1) as i32) {
                    None => (j, Err(SaveErr::LastSlotNotFound)),
                    Some(k) => {
                        let j1 = put_values(j, aid, take_out(vs, i, k));
                        match lid {
                            Some(l) => set_size(j1, l, (size - 1) as i32),
                            None => (j1, Ok(())),
                        }
                    },
                },
            }
        },
    }
}

/// Removing an item does not overflow the `i32` slot indices of its searches.
pub open spec fn remove_ok(j: JVal, code: Seq<char>) -> bool {
    match inventory_layout(j) {
        Err(_) => true,
        Ok((lid, aid, vs)) => {
            let size = used_slots(j, lid);
            &&& fits_upto(
                vs,
                match item_slot(j, vs, size, code) {
                    Some(i) => i,
                    None => walk_end(vs, Some(size)),
                },
            )
            &&& item_slot(j, vs, size, code) is Some ==> last_ok(vs, (size - 1) as i32)
        },
    }
}

/// Putting entries into an array record that is an object: the record now
/// holds them, other records are as they were, and every record that had a
/// `members` entry still has one.
proof fn lemma_put_values(j: JVal, aid: i64, vs: Seq<JVal>)
    requires
        records_writable(j),
        record(j, decimal(aid as int)) is Object,
    ensures
        records_writable(put_values(j, aid, vs)),
        array_values(put_values(j, aid, vs), aid) == Some(vs),
        forall|key: Seq<char>| #[trigger] has_members_entry(j, key) ==> has_members_entry(put_values(j, aid, vs), key),
        forall|key: Seq<char>|
            key != decimal(aid as int) ==> #[trigger] record(put_values(j, aid, vs), key) == record(j, key),
        forall|key: Seq<char>| #[trigger] records(put_values(j, aid, vs)).has_key(key) == records(j).has_key(key),
{
    let akey = decimal(aid as int);
    lemma_writable(j, akey);
    let r = slot(j, akey).set("values"@, JVal::Array(vs));
    lemma_put_keeps_writable(j, akey, r);
    lemma_set_then_get(slot(j, akey), "values"@, JVal::Array(vs));
    assert forall|key: Seq<char>| #[trigger] has_members_entry(j, key) implies has_members_entry(put_values(j, aid, vs), key) by {
        if key == akey {
            reveal_strlit("values");
            reveal_strlit("members");
            assert("values"@ != "members"@) by {
                assert("values"@[0] != "members"@[0]);
            }
            lemma_set_other(slot(j, akey), "values"@, JVal::Array(vs), "members"@);
        } else {
            lemma_put_other(j, akey, r, key);
        }
    }
    assert forall|key: Seq<char>| key != akey implies #[trigger] record(put_values(j, aid, vs), key) == record(j, key) by {
        lemma_put_other(j, akey, r, key);
    }
    assert forall|key: Seq<char>| #[trigger] records(put_values(j, aid, vs)).has_key(key) == records(j).has_key(key) by {
        if key != akey {
            lemma_put_other(j, akey, r, key);
        } else {
            lemma_put_record_facts(j, akey, r);
        }
    }
}

/// Where the search for the item to remove reads up to.
pub open spec fn item_end(j: JVal, vs: Seq<JVal>, size: i32, code: Seq<char>) -> int {
    match item_slot(j, vs, size, code) {
        Some(i) => i,
        None => walk_end(vs, Some(size)),
    }
}

/// The search for the item to remove goes on past entry `i` when the walk has
/// not stopped at it nor before and none of them is the item.
proof fn lemma_item_search_step(j: JVal, vs: Seq<JVal>, size: i32, code: Seq<char>, i: int)
    requires
        0 <= i < vs.len(),
        forall|k: int| 0 <= k <= i ==> !#[trigger] walk_stop(vs, Some(size))(k),
        forall|k: int| 0 <= k <= i ==> !counted(j, Some(code))(#[trigger] vs[k]),
    ensures
        walk_end(vs, Some(size)) > i,
        item_end(j, vs, size, code) > i,
{
    lemma_first_int_past(vs.len() as int, walk_stop(vs, Some(size)), i);
    let t = vs.take(walk_end(vs, Some(size)));
    lemma_first_facts(t, counted(j, Some(code)));
    if let Some(m) = item_slot(j, vs, size, code) {
        assert(t[m] == vs[m]);
    }
}

impl SaveManager {
    /// Sets the `_size` of the list record `list_id` (see [`set_size`]).
    pub fn set_list_size(json: &mut Json, list_id: i64, new_size: i32) -> (r: Result<(), SaveError>)
        requires
            slot_ok(old(json)@),
            members_present(old(json)@, decimal(list_id as int)),
        ensures
            (final(json)@, unit_result(r)) == set_size(old(json)@, list_id, new_size),
    {
        let key = id_key(list_id);
        Self::edit_record_member(
            json,
            key.as_str(),
            "_size",
            Some(Json::from_i64(new_size as i64)),
            SaveError::ListRecordNotFound(list_id),
            SaveError::ListMembersNotFound(list_id),
            Err(SaveError::ListSizeNotFound(list_id)),
        )
    }

    /// The first free entry at or past the `size` slots in use, with the
    /// number of slots it stands for (see [`free_end`]).
    fn find_free_slot(vs: &Vec<Json>, size: i32) -> (r: Option<(usize, i32)>)
        requires
            fits_upto(views(vs@), free_end(views(vs@), size)),
        ensures
            match r {
                Some((k, w)) => k == free_end(views(vs@), size) && k < vs@.len() && w as int == slot_width(
                    views(vs@)[k as int],
                ),
                None => free_end(views(vs@), size) == vs@.len(),
            },
    {
        let ghost vsv = views(vs@);
        let ghost p = free_at(vsv, size);
        let mut logical: i32 = 0;
        let mut i: usize = 0;
        while i < vs.len()
            invariant
                vsv == views(vs@),
                p == free_at(vsv, size),
                fits_upto(vsv, free_end(vsv, size)),
                0 <= i <= vs.len(),
                logical as int == logical_at(vsv, i as int),
                forall|k: int| 0 <= k < i ==> !#[trigger] p(k),
            decreases vs.len() - i,
        {
            let e = &vs[i];
            let (multi, w) = Self::width_of(e);
            let is_null = match get_str(e, "type") {
                Some(t) => str_eq(t, "Null"),
                None => false,
            };
            if (multi || is_null) && logical >= size {
                proof {
                    lemma_first_int_is(vsv.len() as int, p, i as int);
                }
                return Some((i, w));
            }
            proof {
                assert(!p(i as int));
                assert(free_end(vsv, size) >= i + 1) by {
                    if free_end(vsv, size) < i + 1 {
                        if exists|k: int| is_first_int(vsv.len() as int, p, k) {
                            let m = choose|m: int| is_first_int(vsv.len() as int, p, m);
                            assert(p(m));
                        }
                    }
                }
                assert(i32::MIN <= logical_at(vsv, i + 1) <= i32::MAX);
            }
            logical = logical + w;
            i += 1;
        }
        proof {
            lemma_first_int_none(vsv.len() as int, p);
        }
        None
    }

    /// Takes the entries of the array record `aid` out of the document, with
    /// what is needed to put them back.
    fn take_values(json: &mut Json, aid: i64) -> (r: (Json, Json, Vec<Json>))
        requires
            records_writable(old(json)@),
            array_values(old(json)@, aid) is Some,
        ensures
            views(r.2@) == array_values(old(json)@, aid).unwrap(),
            ({
                let j0 = old(json)@;
                let key = decimal(aid as int);
                &&& final(json)@ == crate::hero_edit::rec_root(j0).set("records"@, JVal::Null)
                &&& r.0@ == crate::hero_edit::rec_map(j0, key).set(key, JVal::Null)
                &&& r.1@ == slot(j0, key).set("values"@, JVal::Null)
                &&& slot(j0, key) is Object
                &&& crate::hero_edit::rec_root(j0) is Object && crate::hero_edit::rec_root(j0).has_key("records"@)
                &&& crate::hero_edit::rec_map(j0, key) is Object && crate::hero_edit::rec_map(j0, key).has_key(key)
            }),
    {
        let ghost j0 = json@;
        let key = id_key(aid);
        proof {
            lemma_writable(j0, key@);
        }
        let (recs, mut rec) = open_record(json, key.as_str());
        let v = rec.take("values");
        let items = match v {
            Json::Array(items) => items,
            _ => Vec::new(),
        };
        (recs, rec, items)
    }

    /// Puts entries taken by [`take_values`] back: the array record `aid`
    /// holds `items` (see [`put_values`]).
    fn restore_values(json: &mut Json, recs: Json, rec: Json, items: Vec<Json>, aid: i64, Ghost(j0): Ghost<JVal>)
        requires
            ({
                let key = decimal(aid as int);
                &&& old(json)@ == crate::hero_edit::rec_root(j0).set("records"@, JVal::Null)
                &&& recs@ == crate::hero_edit::rec_map(j0, key).set(key, JVal::Null)
                &&& rec@ == slot(j0, key).set("values"@, JVal::Null)
                &&& slot(j0, key) is Object
                &&& crate::hero_edit::rec_root(j0) is Object && crate::hero_edit::rec_root(j0).has_key("records"@)
                &&& crate::hero_edit::rec_map(j0, key) is Object && crate::hero_edit::rec_map(j0, key).has_key(key)
            }),
            records_writable(j0),
        ensures
            final(json)@ == put_values(j0, aid, views(items@)),
            records_writable(final(json)@),
    {
        let key = id_key(aid);
        let ghost iv = views(items@);
        let mut rec = rec;
        rec.set("values", Json::Array(items));
        proof {
            lemma_set_set(slot(j0, key@), "values"@, JVal::Null, JVal::Array(iv));
        }
        close_record(json, recs, key.as_str(), rec, Ghost(j0));
        proof {
            lemma_put_keeps_writable(j0, key@, slot(j0, key@).set("values"@, JVal::Array(iv)));
        }
    }

    /// Builds a `Reference` entry to record `id`.
    fn ref_entry_value(id: i64) -> (r: Json)
        ensures
            r@ == ref_entry(id),
    {
        let mut es: Vec<(String, Json)> = Vec::new();
        es.push((owned("id"), Json::from_i64(id)));
        es.push((owned("type"), Json::from_str("Reference")));
        let r = Json::Object(es);
        assert(crate::json::entry_views(es@) =~= ref_entry(id)->Object_0);
        r
    }

    /// Builds a `NullMultiple` entry standing for `c` slots.
    fn null_multiple_value(c: i32) -> (r: Json)
        ensures
            r@ == null_multiple(c),
    {
        let mut es: Vec<(String, Json)> = Vec::new();
        es.push((owned("count"), Json::from_i64(c as i64)));
        es.push((owned("type"), Json::from_str("NullMultiple")));
        let r = Json::Object(es);
        assert(crate::json::entry_views(es@) =~= null_multiple(c)->Object_0);
        r
    }

    /// Grows the array record `aid` by a `NullMultiple` of 256 slots; gives the
    /// position of the new entry.
    fn expand_values(json: &mut Json, aid: i64) -> (r: usize)
        requires
            records_writable(old(json)@),
            array_values(old(json)@, aid) is Some,
        ensures
            r == array_values(old(json)@, aid).unwrap().len(),
            final(json)@ == put_values(old(json)@, aid, array_values(old(json)@, aid).unwrap().push(null_multiple(256))),
            records_writable(final(json)@),
    {
        let ghost j0 = json@;
        let (recs, rec, mut items) = Self::take_values(json, aid);
        let ghost iv = views(items@);
        let n = items.len();
        items.push(Self::null_multiple_value(256));
        assert(views(items@) =~= iv.push(null_multiple(256)));
        Self::restore_values(json, recs, rec, items, aid, Ghost(j0));
        n
    }

    /// Puts a reference to record `id` into entry `k` of the array record `aid`
    /// (see [`fill_slot`]).
    fn fill_values(json: &mut Json, aid: i64, k: usize, width: i32, id: i64)
        requires
            records_writable(old(json)@),
            array_values(old(json)@, aid) is Some,
            k < array_values(old(json)@, aid).unwrap().len(),
        ensures
            final(json)@ == put_values(old(json)@, aid, fill_slot(array_values(old(json)@, aid).unwrap(), k as int, width, id)),
            records_writable(final(json)@),
    {
        let ghost j0 = json@;
        let (recs, rec, mut items) = Self::take_values(json, aid);
        let ghost iv = views(items@);
        let n = items.len();
        assert(k < n);
        items.set(k, Self::ref_entry_value(id));
        if width > 1 {
            items.insert(k + 1, Self::null_multiple_value(width - 1));
            assert(views(items@) =~= iv.update(k as int, ref_entry(id)).insert(k + 1, null_multiple((width - 1) as i32)));
        } else {
            assert(views(items@) =~= iv.update(k as int, ref_entry(id)));
        }
        Self::restore_values(json, recs, rec, items, aid, Ghost(j0));
    }

    /// Stores an item record named `code` as record `id` and registers it (see
    /// [`register_item`]).
    fn register_item_record(json: &mut Json, ctid: u64, ctn: String, code: &str, id: i64) -> (r: Result<(), SaveError>)
        requires
            records_writable(old(json)@),
        ensures
            (final(json)@, unit_result(r)) == register_item(old(json)@, ctid, ctn@, code@, id),
            records_writable(final(json)@),
            forall|k: Seq<char>| k != decimal(id as int) ==> #[trigger] record(final(json)@, k) == record(old(json)@, k),
            forall|k: Seq<char>| k != decimal(id as int) ==> #[trigger] records(final(json)@).has_key(k) == records(old(json)@).has_key(k),
    {
        let ghost j0 = json@;
        let ghost cv = ctn@;
        proof {
            reveal_strlit("records");
            reveal_strlit("record_metadata");
            reveal_strlit("record_order");
            assert("records"@.len() != "record_metadata"@.len());
            assert("records"@.len() != "record_order"@.len());
        }
        let key = id_key(id);
        let level = Self::get_item_initial_level(code);
        let extra = Self::get_item_required_fields(code);
        let rec = Self::upgrade_record_value(ctid, ctn, code, level, extra);
        proof {
            lemma_writable(j0, key@);
        }
        let (recs, _old) = open_record(json, key.as_str());
        close_record(json, recs, key.as_str(), rec, Ghost(j0));
        let ghost j2 = json@;
        proof {
            lemma_put_keeps_writable(j0, key@, upgrade_record(ctid, cv, code@, 0));
            assert forall|k: Seq<char>| k != decimal(id as int) implies #[trigger] record(j2, k) == record(j0, k)
                && records(j2).has_key(k) == records(j0).has_key(k) by {
                lemma_put_other(j0, key@, upgrade_record(ctid, cv, code@, 0), k);
            }
        }
        let meta = Self::get_upgrade_record_metadata_template(json);
        let has_meta = match json.get("record_metadata") {
            Some(m) => m.is_object(),
            None => false,
        };
        if has_meta {
            let mut m = json.take("record_metadata");
            m.insert(key.as_str(), meta);
            let ghost mv1 = m@;
            json.set("record_metadata", m);
            proof {
                lemma_set_set(j2, "record_metadata"@, JVal::Null, mv1);
                lemma_set_keeps_records(j2, "record_metadata"@, mv1);
            }
        }
        let ghost j3 = json@;
        assert(records(j3) == records(j2));
        let has_order = match json.get("record_order") {
            Some(o) => o.as_array().is_some(),
            None => false,
        };
        if has_order {
            if id < -2147483648i64 || id > 2147483647i64 {
                proof {
                    assert forall|k: Seq<char>|
                        #![trigger record(json@, k)]
                        #![trigger records(json@).has_key(k)]
                        k != decimal(id as int) implies record(json@, k) == record(j0, k)
                        && records(json@).has_key(k) == records(j0).has_key(k) by {
                        assert(record(j2, k) == record(j0, k));
                        assert(records(j2).has_key(k) == records(j0).has_key(k));
                    }
                }
                return Err(SaveError::RecordIdOutOfRange(id));
            }
            let mut o = json.take("record_order");
            o.push(Json::from_i64(id));
            let ghost ov = o@;
            json.set("record_order", o);
            proof {
                lemma_set_set(j3, "record_order"@, JVal::Null, ov);
                lemma_set_keeps_records(j3, "record_order"@, ov);
            }
        }
        proof {
            assert forall|k: Seq<char>|
                #![trigger record(json@, k)]
                #![trigger records(json@).has_key(k)]
                k != decimal(id as int) implies record(json@, k) == record(j0, k)
                && records(json@).has_key(k) == records(j0).has_key(k) by {
                assert(record(j2, k) == record(j0, k));
                assert(records(j2).has_key(k) == records(j0).has_key(k));
            }
        }
        Ok(())
    }

    /// The entries of the array record `aid` (see [`array_values`]).
    fn array_values_of(json: &Json, aid: i64) -> (r: Option<&Vec<Json>>)
        ensures
            r is Some == array_values(json@, aid) is Some,
            r matches Some(v) ==> array_values(json@, aid) == Some(views(v@)),
    {
        let key = id_key(aid);
        match record_of(json, key.as_str()) {
            Some(rec) => match rec.get("values") {
                Some(v) => v.as_array(),
                None => None,
            },
            None => None,
        }
    }

    /// Adds an item named `upgrade_code` (see [`add_item`]).
    pub(crate) fn add_to_inventory(json: &mut Json, upgrade_code: &str, expand: bool) -> (r: Result<(), SaveError>)
        requires
            add_ok(old(json)@, upgrade_code@, expand),
        ensures
            (final(json)@, unit_result(r)) == add_item(old(json)@, upgrade_code@, expand),
    {
        proof {
            reveal(add_item);
        }
        let ghost j0 = json@;
        let (list_id_opt, array_id) = match Self::find_inventory_refs(json) {
            Ok(p) => p,
            Err(e) => return Err(e),
        };
        let current_size = match list_id_opt {
            Some(l) => Self::get_list_size(json, l),
            None => 0,
        };
        let ghost vs0 = array_values(j0, array_id).unwrap();
        let found = match Self::array_values_of(json, array_id) {
            Some(vs) => Self::find_free_slot(vs, current_size),
            None => return Err(SaveError::NoValuesArray(array_id)),
        };
        let ghost akey = decimal(array_id as int);
        proof {
            assert(records_writable(j0));
            if let Some(lid) = list_id_opt {
                assert(has_members_entry(j0, decimal(lid as int)));
            }
        }
        let (slot_index, null_multiple_count) = match found {
            Some(p) => p,
            None => {
                if !expand {
                    return Err(SaveError::NoFreeSlot);
                }
                proof {
                    lemma_put_values(j0, array_id, vs0.push(null_multiple(256)));
                }
                let k = Self::expand_values(json, array_id);
                (k, 256i32)
            },
        };
        let ghost j1 = json@;
        let ghost vs1 = array_values(j1, array_id).unwrap();
        assert(add_slot(j0, list_id_opt, array_id, vs0, expand) == Some((j1, vs1, slot_index as int, null_multiple_count)));
        let (ctid, ctn) = match Self::find_serializable_hero_upgrade_class_type(json) {
            Some(p) => p,
            None => return Err(SaveError::HeroUpgradeTypeNotFound),
        };
        let max_id = Self::find_max_record_id(json);
        let upgrade_id = max_id + 1;
        proof {
            lemma_record_id_bound(j1, array_id);
            if akey == decimal(upgrade_id as int) {
                lemma_decimal_injective(array_id, upgrade_id);
            }
            if let Some(lid) = list_id_opt {
                assert(has_members_entry(j1, decimal(lid as int)));
                lemma_record_id_bound(j1, lid);
                if decimal(lid as int) == decimal(upgrade_id as int) {
                    lemma_decimal_injective(lid, upgrade_id);
                }
            }
        }
        match Self::register_item_record(json, ctid, ctn, upgrade_code, upgrade_id) {
            Ok(()) => {},
            Err(e) => return Err(e),
        }
        let ghost j4 = json@;
        proof {
            assert(record(j4, akey) == record(j1, akey));
            assert(array_values(j4, array_id) == Some(vs1));
            lemma_put_values(j4, array_id, fill_slot(vs1, slot_index as int, null_multiple_count, upgrade_id));
            if let Some(lid) = list_id_opt {
                assert(record(j4, decimal(lid as int)) == record(j1, decimal(lid as int)));
                assert(has_members_entry(j4, decimal(lid as int)));
            }
        }
        Self::fill_values(json, array_id, slot_index, null_multiple_count, upgrade_id);
        match list_id_opt {
            Some(lid) => {
                proof {
                    let lkey = decimal(lid as int);
                    assert(has_members_entry(json@, lkey));
                    lemma_writable(json@, lkey);
                }
                Self::set_list_size(json, lid, current_size + 1)
            },
            None => Ok(()),
        }
    }

    /// Adds an item named `upgrade_code` to the inventory, growing its array
    /// by 256 empty slots when it has no free one (see [`add_item`]).
    pub fn add_item_to_inventory(json: &mut Json, upgrade_code: &str) -> (r: Result<(), SaveError>)
        requires
            add_ok(old(json)@, upgrade_code@, true),
        ensures
            (final(json)@, unit_result(r)) == add_item(old(json)@, upgrade_code@, true),
    {
        Self::add_to_inventory(json, upgrade_code, true)
    }

    /// Adds a grail to the inventory; a full inventory is refused (see [`add_item`]).
    pub fn add_grail_to_inventory(json: &mut Json) -> (r: Result<(), SaveError>)
        requires
            add_ok(old(json)@, GRAIL_UPGRADE_CODE@, false),
        ensures
            (final(json)@, unit_result(r)) == add_item(old(json)@, GRAIL_UPGRADE_CODE@, false),
    {
        Self::add_to_inventory(json, GRAIL_UPGRADE_CODE, false)
    }

    /// The entry of the item to remove (see [`item_slot`]).
    fn find_item_slot(json: &Json, vs: &Vec<Json>, size: i32, code: &str) -> (r: Option<usize>)
        requires
            fits_upto(views(vs@), item_end(json@, views(vs@), size, code@)),
        ensures
            match r {
                Some(i) => item_slot(json@, views(vs@), size, code@) == Some(i as int),
                None => item_slot(json@, views(vs@), size, code@) is None,
            },
    {
        let ghost vsv = views(vs@);
        let ghost p = counted(json@, Some(code@));
        let ghost stop = walk_stop(vsv, Some(size));
        let mut logical: i32 = 0;
        let mut i: usize = 0;
        while i < vs.len()
            invariant
                vsv == views(vs@),
                p == counted(json@, Some(code@)),
                stop == walk_stop(vsv, Some(size)),
                fits_upto(vsv, item_end(json@, vsv, size, code@)),
                0 <= i <= vs.len(),
                logical as int == logical_at(vsv, i as int),
                forall|k: int| 0 <= k < i ==> !#[trigger] stop(k),
                forall|k: int| 0 <= k < i ==> !p(#[trigger] vsv[k]),
            decreases vs.len() - i,
        {
            if logical >= size {
                proof {
                    crate::inventory::lemma_walk_end(vsv, Some(size), i as int);
                    let t = vsv.take(i as int);
                    assert forall|k: int| 0 <= k < t.len() implies !p(#[trigger] t[k]) by {
                        assert(t[k] == vsv[k]);
                    }
                    lemma_first_none(t, p);
                }
                return None;
            }
            let e = &vs[i];
            if Self::is_counted(json, e, Some(code)) {
                proof {
                    lemma_first_int_past(vsv.len() as int, stop, i as int);
                    let t = vsv.take(walk_end(vsv, Some(size)));
                    assert forall|k: int| 0 <= k < i implies !p(#[trigger] t[k]) by {
                        assert(t[k] == vsv[k]);
                    }
                    assert(t[i as int] == vsv[i as int]);
                    lemma_first_is(t, p, i as int);
                }
                return Some(i);
            }
            proof {
                lemma_item_search_step(json@, vsv, size, code@, i as int);
                assert(i32::MIN <= logical_at(vsv, i + 1) <= i32::MAX);
            }
            let (_, w) = Self::width_of(e);
            logical = logical + w;
            i += 1;
        }
        proof {
            crate::inventory::lemma_walk_end(vsv, Some(size), i as int);
            let t = vsv.take(i as int);
            assert forall|k: int| 0 <= k < t.len() implies !p(#[trigger] t[k]) by {
                assert(t[k] == vsv[k]);
            }
            lemma_first_none(t, p);
        }
        None
    }

    /// The entry of slot `target`, the last slot in use (see [`last_slot`]).
    fn find_last_slot(vs: &Vec<Json>, target: i32) -> (r: Option<usize>)
        requires
            last_ok(views(vs@), target),
        ensures
            match r {
                Some(k) => last_slot(views(vs@), target) == Some(k as int),
                None => last_slot(views(vs@), target) is None,
            },
    {
        let ghost vsv = views(vs@);
        let ghost h = last_halt(vsv, target);
        let mut logical: i32 = 0;
        let mut i: usize = 0;
        while i < vs.len()
            invariant
                vsv == views(vs@),
                h == last_halt(vsv, target),
                last_ok(vsv, target),
                0 <= i <= vs.len(),
                logical as int == logical_at(vsv, i as int),
                forall|k: int| 0 <= k < i ==> !#[trigger] h(k),
            decreases vs.len() - i,
        {
            if logical > target {
                proof {
                    lemma_first_int_is(vsv.len() as int, h, i as int);
                }
                return None;
            }
            let e = &vs[i];
            let t = get_str(e, "type");
            let (is_ref, is_multi, is_null) = match t {
                Some(s) => (str_eq(s, "Reference"), str_eq(s, "NullMultiple"), str_eq(s, "Null")),
                None => (false, false, false),
            };
            if (is_ref || is_null) && logical == target {
                proof {
                    lemma_first_int_is(vsv.len() as int, h, i as int);
                }
                return Some(i);
            }
            let (_, w) = Self::width_of(e);
            proof {
                if h(i as int) {
                    lemma_first_int_is(vsv.len() as int, h, i as int);
                } else {
                    lemma_first_int_past(vsv.len() as int, h, i as int);
                    assert(i32::MIN <= logical_at(vsv, i + 1) <= i32::MAX);
                }
                assert(logical_at(vsv, i + 1) == logical + w);
            }
            if is_multi {
                if logical + w > target {
                    proof {
                        lemma_first_int_is(vsv.len() as int, h, i as int);
                    }
                    return None;
                }
            }
            logical = logical + w;
            i += 1;
        }
        proof {
            lemma_first_int_none(vsv.len() as int, h);
        }
        None
    }

    /// Entry `i` of the array record `aid` trades places with entry `k`, which
    /// then stands for 256 empty slots (see [`take_out`]).
    fn take_out_values(json: &mut Json, aid: i64, i: usize, k: usize)
        requires
            records_writable(old(json)@),
            array_values(old(json)@, aid) is Some,
            i < array_values(old(json)@, aid).unwrap().len(),
            k < array_values(old(json)@, aid).unwrap().len(),
        ensures
            final(json)@ == put_values(old(json)@, aid, take_out(array_values(old(json)@, aid).unwrap(), i as int, k as int)),
            records_writable(final(json)@),
    {
        let ghost j0 = json@;
        let (recs, rec, mut items) = Self::take_values(json, aid);
        let ghost iv = views(items@);
        if i != k {
            let mut a = Json::Null;
            std::mem::swap(&mut a, &mut items[i]);
            let mut b = Json::Null;
            std::mem::swap(&mut b, &mut items[k]);
            assert(b@ == iv[k as int]);
            items.set(i, b);
            items.set(k, a);
        }
        items.set(k, Self::null_multiple_value(256));
        assert(views(items@) =~= take_out(iv, i as int, k as int));
        Self::restore_values(json, recs, rec, items, aid, Ghost(j0));
    }

    /// Removes an item named `upgrade_code` (see [`remove_item`]).
    pub(crate) fn remove_from_inventory(json: &mut Json, upgrade_code: &str) -> (r: Result<(), SaveError>)
        requires
            remove_ok(old(json)@, upgrade_code@),
        ensures
            (final(json)@, unit_result(r)) == remove_item(old(json)@, upgrade_code@),
    {
        proof {
            reveal(remove_item);
        }
        let ghost j0 = json@;
        let (list_id_opt, array_id) = match Self::find_inventory_refs(json) {
            Ok(p) => p,
            Err(e) => return Err(e),
        };
        let current_size = match list_id_opt {
            Some(l) => Self::get_list_size(json, l),
            None => 0,
        };
        let ghost vs0 = array_values(j0, array_id).unwrap();
        let (item_index, last_index) = match Self::array_values_of(json, array_id) {
            Some(vs) => {
                let item = match Self::find_item_slot(json, vs, current_size, upgrade_code) {
                    Some(i) => i,
                    None => return Err(SaveError::NothingToRemove(owned(upgrade_code))),
                };
                proof {
                    let t = vs0.take(walk_end(vs0, Some(current_size)));
                    lemma_first_facts(t, counted(j0, Some(upgrade_code@)));
                    let stop = walk_stop(vs0, Some(current_size));
                    if stop(0) {
                        lemma_first_int_is(vs0.len() as int, stop, 0);
                    }
                    assert(!stop(0));
                    assert(logical_at(vs0, 0) == 0);
                }
                let last = match Self::find_last_slot(vs, current_size - 1) {
                    Some(k) => k,
                    None => return Err(SaveError::LastSlotNotFound),
                };
                (item, last)
            },
            None => return Err(SaveError::NoValuesArray(array_id)),
        };
        proof {
            assert(records_writable(j0));
            lemma_put_values(j0, array_id, take_out(vs0, item_index as int, last_index as int));
            if let Some(lid) = list_id_opt {
                assert(has_members_entry(j0, decimal(lid as int)));
            }
        }
        Self::take_out_values(json, array_id, item_index, last_index);
        match list_id_opt {
            Some(lid) => {
                proof {
                    let lkey = decimal(lid as int);
                    assert(has_members_entry(json@, lkey));
                    lemma_writable(json@, lkey);
                }
                Self::set_list_size(json, lid, current_size - 1)
            },
            None => Ok(()),
        }
    }

    /// Removes an item named `upgrade_code` from the inventory (see [`remove_item`]).
    pub fn remove_item_from_inventory(json: &mut Json, upgrade_code: &str) -> (r: Result<(), SaveError>)
        requires
            remove_ok(old(json)@, upgrade_code@),
        ensures
            (final(json)@, unit_result(r)) == remove_item(old(json)@, upgrade_code@),
    {
        Self::remove_from_inventory(json, upgrade_code)
    }

    /// Removes a grail from the inventory (see [`remove_item`]).
    pub fn remove_grail_from_inventory(json: &mut Json) -> (r: Result<(), SaveError>)
        requires
            remove_ok(old(json)@, GRAIL_UPGRADE_CODE@),
        ensures
            (final(json)@, unit_result(r)) == remove_item(old(json)@, GRAIL_UPGRADE_CODE@),
    {
        Self::remove_from_inventory(json, GRAIL_UPGRADE_CODE)
    }
}

} // verus!
