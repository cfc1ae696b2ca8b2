//! Counts that setting a count reaches: on a well-kept save, adding and
//! removing items one at a time keeps it well kept, moves the inventory count
//! by one each time, and leaves what the heroes carry alone.
use vstd::prelude::*;
use crate::inventory::{
    any_name, counted, inventory_slots, inventory_tally, is_tally, entry_type, hero_count,
    inventory_count, logical_at, slot_width, walk_end, walk_stop,
};
use crate::inventory_doc::{
    docs_kept, hero_refs_resolved, kept, lemma_resolved_kept, names_resolved,
};
use crate::inventory_edit::{
    add_item, add_ok, fill_slot, free_at, free_end, inventory_layout, is_empty_entry, item_slot,
    last_slot, null_multiple, ref_entry, remove_item, take_out,
};
use crate::inventory_laws::{
    counts_as, lemma_add_count, lemma_add_document, lemma_add_walk, lemma_first_int_facts,
    lemma_push_walk, lemma_null_multiple_empty, lemma_ref_entry, lemma_remove_count,
    lemma_remove_document, lemma_remove_walk, lemma_removal_positions, lemma_single_width,
    tidy_for_removal, tidy_inventory, lemma_sorted_same,
};
use crate::item_counts::{
    adds_ok, decrement, increment, repeat_add, repeat_remove, set_count, set_count_ok,
    set_inventory_count, set_inventory_count_ok, total_count,
};
use crate::json::JVal;
use crate::save_manager::GRAIL_UPGRADE_CODE;
use crate::save_model::{list_size, record_by_id, records};
use crate::search::{count_where, lemma_first_int_is, lemma_first_int_none};
use crate::text::decimal;
use crate::upgrade_edit::records_writable;

verus! {

/// A save whose inventory is kept in a list and is well kept: the walk over
/// the slots in use stops right after the last one, every entry it reads stands
/// for at least one slot, every item it reads has its name read through
/// records that exist, and every entry past the walk is empty.
pub open spec fn inventory_kept(j: JVal) -> bool {
    match inventory_layout(j) {
        Ok((Some(lid), aid, vs)) => entries_well_kept(j, vs, list_size(j, lid as int)),
        _ => false,
    }
}

/// A save whose inventory is well kept (see [`inventory_kept`]) and whose
/// heroes' upgrades have their names read through records that exist.
pub open spec fn well_kept(j: JVal) -> bool {
    &&& hero_refs_resolved(j)
    &&& inventory_kept(j)
}

/// The entries of a well-kept inventory with `size` slots in use.
pub open spec fn entries_well_kept(j: JVal, vs: Seq<JVal>, size: i32) -> bool {
    let w = walk_end(vs, Some(size));
    &&& logical_at(vs, w) == size
    &&& forall|m: int|
        0 <= m < w ==> slot_width(#[trigger] vs[m]) >= 1 && (entry_type(vs[m]) == Some("Reference"@)
            ==> names_resolved(j, vs[m]))
    &&& forall|m: int| w <= m < vs.len() ==> is_empty_entry(#[trigger] vs[m])
}

/// A well-kept save is tidy for adding and for removing.
pub proof fn lemma_well_kept_tidy(j: JVal)
    requires
        inventory_kept(j),
    ensures
        tidy_inventory(j),
        tidy_for_removal(j),
{
    let (lid0, aid, vs) = inventory_layout(j)->Ok_0;
    let size = list_size(j, lid0.unwrap() as int);
    let w = walk_end(vs, Some(size));
    lemma_first_int_facts(vs.len() as int, walk_stop(vs, Some(size)));
    let f = free_at(vs, size);
    assert forall|k: int| 0 <= k < w implies !#[trigger] f(k) by {
        assert(!walk_stop(vs, Some(size))(k));
    }
    if w < vs.len() {
        lemma_first_int_is(vs.len() as int, f, w);
    } else {
        lemma_first_int_none(vs.len() as int, f);
    }
    assert(free_end(vs, size) == w);
}

/// The entries once a new item `id` takes the first free entry `e` of a
/// well-kept inventory (of its entries grown when they had none) are well kept
/// in the document that holds it, where every record but it is kept.
pub proof fn lemma_add_entries(j: JVal, j2: JVal, vs: Seq<JVal>, vs1: Seq<JVal>, size: i32, e: int, w: i32, id: i64)
    requires
        entries_well_kept(j, vs, size),
        e == walk_end(vs, Some(size)),
        0 <= e < vs1.len(),
        vs1.take(e) == vs.take(e),
        vs1 == vs || (vs1 == vs.push(null_multiple(256)) && e == vs.len()),
        walk_end(fill_slot(vs1, e, w, id), Some((size + 1) as i32)) == e + 1,
        fill_slot(vs1, e, w, id).take(e + 1) == vs.take(e).push(ref_entry(id)),
        logical_at(fill_slot(vs1, e, w, id), e + 1) == size + 1,
        size < i32::MAX,
        docs_kept(j, j2, id),
        forall|y: i64| #[trigger] records(j).has_key(decimal(y as int)) ==> y < id,
        records(j2).has_key(decimal(id as int)),
        forall|i: int|
            0 <= i < crate::hero::members_or_empty(record_by_id(j2, id as int)).len() ==> (
            #[trigger] crate::hero::members_or_empty(record_by_id(j2, id as int))[i]).get("id"@).as_i64() is None,
    ensures
        entries_well_kept(j2, fill_slot(vs1, e, w, id), (size + 1) as i32),
{
    let vs2 = fill_slot(vs1, e, w, id);
    let w2 = e + 1;
    lemma_ref_entry(id);
    lemma_null_multiple_empty((w - 1) as i32);
    assert forall|m: int| w2 <= m < vs2.len() implies is_empty_entry(#[trigger] vs2[m]) by {
        if w > 1 {
            if m > e + 1 {
                assert(vs2[m] == vs1[m - 1]);
                assert(vs1[m - 1] == vs[m - 1]);
            }
        } else {
            assert(vs2[m] == vs1[m]);
            assert(vs1[m] == vs[m]);
        }
    }
    assert forall|m: int| 0 <= m < w2 implies slot_width(#[trigger] vs2[m]) >= 1 && (entry_type(vs2[m]) == Some(
        "Reference"@,
    ) ==> names_resolved(j2, vs2[m])) by {
        assert(vs2[m] == vs2.take(e + 1)[m]);
        if m < e {
            assert(vs2[m] == vs[m]);
            if entry_type(vs[m]) == Some("Reference"@) {
                assert(names_resolved(j, vs[m]));
                if let Some(x) = vs[m].get("id"@).as_i64() {
                    assert(records(j).has_key(decimal(x as int)));
                    assert(x < id);
                }
                lemma_resolved_kept(j, j2, vs[m], vs[m]);
            }
        } else {
            assert(vs2[m] == ref_entry(id));
        }
    }
}

/// Adding an item to a well-kept save keeps it well kept, counts one more
/// under every name the item counts under and as many under every other, and
/// leaves what the heroes carry alone.
pub proof fn lemma_add_keeps(j: JVal, code: Seq<char>, expand: bool)
    requires
        inventory_kept(j),
        add_ok(j, code, expand),
        add_item(j, code, expand).1 is Ok,
    ensures
        inventory_kept(add_item(j, code, expand).0),
        well_kept(j) ==> well_kept(add_item(j, code, expand).0),
        forall|c: Option<Seq<char>>| #[trigger] inventory_count(add_item(j, code, expand).0, c)
            == inventory_count(j, c) + if counts_as(code, c) { 1int } else { 0int },
        well_kept(j) ==> forall|n: Seq<char>| #[trigger] hero_count(add_item(j, code, expand).0, n) == hero_count(j, n),
{
    lemma_well_kept_tidy(j);
    assert forall|c: Option<Seq<char>>| #[trigger] inventory_count(add_item(j, code, expand).0, c)
        == inventory_count(j, c) + if counts_as(code, c) { 1int } else { 0int } by {
        lemma_add_count(j, code, expand, c);
    }
    let (vs1, e, w, id) = lemma_add_document(j, code, expand);
    let (lid0, aid, vs) = inventory_layout(j)->Ok_0;
    let lid = lid0.unwrap();
    let size = list_size(j, lid as int);
    let j2 = add_item(j, code, expand).0;
    let vs2 = fill_slot(vs1, e, w, id);
    if vs1 != vs {
        lemma_push_walk(vs, null_multiple(256), size);
    }
    lemma_add_walk(vs1, size, e, w, id);
    assert(inventory_layout(j2) == Ok::<_, crate::error::SaveErr>((lid0, aid, vs2)));
    assert(list_size(j2, lid as int) == size + 1);
    lemma_add_entries(j, j2, vs, vs1, size, e, w, id);
}

/// Removing an item from a well-kept save keeps it well kept, counts one
/// fewer under every name the item counted under and as many under every
/// other, and leaves what the heroes carry alone.
pub proof fn lemma_remove_keeps(j: JVal, code: Seq<char>)
    requires
        inventory_kept(j),
        remove_item(j, code).1 is Ok,
    ensures
        inventory_kept(remove_item(j, code).0),
        well_kept(j) ==> well_kept(remove_item(j, code).0),
        forall|c: Option<Seq<char>>| #[trigger] inventory_count(remove_item(j, code).0, c)
            == inventory_count(j, c) - if counts_as(code, c) { 1int } else { 0int },
        well_kept(j) ==> forall|n: Seq<char>| #[trigger] hero_count(remove_item(j, code).0, n) == hero_count(j, n),
{
    lemma_well_kept_tidy(j);
    assert forall|c: Option<Seq<char>>| #[trigger] inventory_count(remove_item(j, code).0, c)
        == inventory_count(j, c) - if counts_as(code, c) { 1int } else { 0int } by {
        lemma_remove_count(j, code, c);
    }
    lemma_remove_document(j, code);
    reveal(remove_item);
    let (lid0, aid, vs) = inventory_layout(j)->Ok_0;
    let lid = lid0.unwrap();
    let size = list_size(j, lid as int);
    let i = item_slot(j, vs, size, code).unwrap();
    let k = last_slot(vs, (size - 1) as i32).unwrap();
    let ws = take_out(vs, i, k);
    let j2 = remove_item(j, code).0;
    lemma_removal_positions(j, vs, size, code);
    lemma_single_width(vs[i]);
    lemma_remove_walk(vs, size, i, k);
    assert(inventory_layout(j2) == Ok::<_, crate::error::SaveErr>((lid0, aid, ws)));
    assert(list_size(j2, lid as int) == size - 1);
    lemma_null_multiple_empty(256);
    assert forall|m: int| k <= m < ws.len() implies is_empty_entry(#[trigger] ws[m]) by {
        if m > k {
            assert(ws[m] == vs[m]);
        }
    }
    assert forall|m: int| 0 <= m < k implies slot_width(#[trigger] ws[m]) >= 1 && (entry_type(ws[m]) == Some(
        "Reference"@,
    ) ==> names_resolved(j2, ws[m])) by {
        let q = if m == i { k } else { m };
        assert(ws[m] == vs[q]);
        assert(q < walk_end(vs, Some(size)));
        if entry_type(vs[q]) == Some("Reference"@) {
            assert(names_resolved(j, vs[q]));
            lemma_resolved_kept(j, j2, vs[q], vs[q]);
        }
    }
    assert(entries_well_kept(j2, ws, (size - 1) as i32));
}

/// Adding `n` items one after the other to a well-kept save, when every
/// addition is accepted: the save stays well kept, `n` more items of that name
/// are in the inventory, and the heroes carry what they carried.
pub proof fn lemma_repeat_add(j: JVal, code: Seq<char>, expand: bool, counting: bool, n: nat)
    requires
        well_kept(j),
        adds_ok(j, code, expand, counting, n),
        repeat_add(j, code, expand, n).1 is Ok,
    ensures
        well_kept(repeat_add(j, code, expand, n).0),
        inventory_count(repeat_add(j, code, expand, n).0, Some(code)) == inventory_count(j, Some(code)) + n,
        hero_count(repeat_add(j, code, expand, n).0, code) == hero_count(j, code),
    decreases n,
{
    if n > 0 {
        let j1 = add_item(j, code, expand).0;
        lemma_add_keeps(j, code, expand);
        assert(inventory_count(j1, Some(code)) == inventory_count(j, Some(code)) + 1);
        assert(hero_count(j1, code) == hero_count(j, code));
        lemma_repeat_add(j1, code, expand, counting, (n - 1) as nat);
    }
}

/// Removing `n` items one after the other from a well-kept save, when every
/// removal is accepted: the save stays well kept, `n` fewer items of that name
/// are in the inventory, and the heroes carry what they carried.
pub proof fn lemma_repeat_remove(j: JVal, code: Seq<char>, n: nat)
    requires
        well_kept(j),
        repeat_remove(j, code, n).1 is Ok,
    ensures
        well_kept(repeat_remove(j, code, n).0),
        inventory_count(repeat_remove(j, code, n).0, Some(code)) == inventory_count(j, Some(code)) - n,
        hero_count(repeat_remove(j, code, n).0, code) == hero_count(j, code),
    decreases n,
{
    if n > 0 {
        let j1 = remove_item(j, code).0;
        lemma_remove_keeps(j, code);
        assert(inventory_count(j1, Some(code)) == inventory_count(j, Some(code)) - 1);
        assert(hero_count(j1, code) == hero_count(j, code));
        lemma_repeat_remove(j1, code, (n - 1) as nat);
    }
}

/// Setting the number of items named `code` in a well-kept save, when it is
/// accepted, leaves exactly that many, carried or in the inventory.
pub proof fn law_set_count_reaches(j: JVal, code: Seq<char>, expand: bool, target: i32)
    requires
        well_kept(j),
        set_count_ok(j, code, expand, target),
        set_count(j, code, expand, target).1 is Ok,
    ensures
        total_count(set_count(j, code, expand, target).0, code) == target,
{
    let current = total_count(j, code);
    if target as int > current {
        lemma_repeat_add(j, code, expand, true, (target - current) as nat);
    } else if (target as int) < current {
        lemma_repeat_remove(j, code, (current - target) as nat);
    }
}

/// Setting the number of grails in the inventory of a well-kept save, when it
/// is accepted, leaves exactly that many there.
pub proof fn law_set_inventory_count_reaches(j: JVal, target: i32)
    requires
        well_kept(j),
        set_inventory_count_ok(j, target),
        set_inventory_count(j, target).1 is Ok,
    ensures
        inventory_count(set_inventory_count(j, target).0, Some(GRAIL_UPGRADE_CODE@)) == target,
{
    let code = GRAIL_UPGRADE_CODE@;
    let current = inventory_count(j, Some(code));
    if target as int > current {
        lemma_repeat_add(j, code, false, false, (target - current) as nat);
    } else if (target as int) < current {
        lemma_repeat_remove(j, code, (current - target) as nat);
    }
}

/// Adding an item named `code` to a tidy inventory of a save whose heroes'
/// upgrades are named through existing records, then counting, gives one more
/// than there was.
pub proof fn law_increment_adds_one(j: JVal, code: Seq<char>, expand: bool)
    requires
        tidy_inventory(j),
        hero_refs_resolved(j),
        add_ok(j, code, expand),
        add_item(j, code, expand).1 is Ok,
    ensures
        increment(j, code, expand).1 == Ok::<i32, crate::error::SaveErr>((total_count(j, code) + 1) as i32),
{
    lemma_add_count(j, code, expand, Some(code));
    lemma_add_document(j, code, expand);
}

/// Removing an item named `code` from an inventory whose entries stand for at
/// least one slot each, then counting, gives one fewer than there was.
pub proof fn law_decrement_removes_one(j: JVal, code: Seq<char>)
    requires
        tidy_for_removal(j),
        remove_item(j, code).1 is Ok,
    ensures
        decrement(j, code).1 == Ok::<i32, crate::error::SaveErr>((total_count(j, code) - 1) as i32),
{
    lemma_remove_count(j, code, Some(code));
    lemma_remove_document(j, code);
}

/// Removing an item named `code` just added to a well-kept save is
/// accepted: the walk now reads the new item, and the slot it took is the last
/// one in use.
pub proof fn lemma_remove_after_add(j: JVal, code: Seq<char>, expand: bool)
    requires
        inventory_kept(j),
        add_ok(j, code, expand),
        add_item(j, code, expand).1 is Ok,
    ensures
        remove_item(add_item(j, code, expand).0, code).1 is Ok,
        list_size(add_item(j, code, expand).0, inventory_layout(j)->Ok_0.0.unwrap() as int) == list_size(
            j,
            inventory_layout(j)->Ok_0.0.unwrap() as int,
        ) + 1,
        crate::save_model::inventory_refs(add_item(j, code, expand).0) == crate::save_model::inventory_refs(j),
{
    lemma_well_kept_tidy(j);
    let (vs1, e, w, id) = lemma_add_document(j, code, expand);
    let (lid0, aid, vs) = inventory_layout(j)->Ok_0;
    let lid = lid0.unwrap();
    let size = list_size(j, lid as int);
    let j2 = add_item(j, code, expand).0;
    let vs2 = fill_slot(vs1, e, w, id);
    if vs1 != vs {
        lemma_push_walk(vs, null_multiple(256), size);
    }
    lemma_add_walk(vs1, size, e, w, id);
    assert(inventory_layout(j2) == Ok::<_, crate::error::SaveErr>((lid0, aid, vs2)));
    assert(list_size(j2, lid as int) == size + 1);
    lemma_ref_entry(id);
    lemma_found_after_add(j2, vs, vs2, size, e, id, code);
    lemma_remove_ok(j2, code);
}

/// Removing an item is accepted where it is found among the entries the walk
/// reads, the last slot in use is a single one, and the list has a `_size`.
pub proof fn lemma_remove_ok(j: JVal, code: Seq<char>)
    requires
        records_writable(j),
        inventory_layout(j) is Ok,
        ({
            let (lid, aid, vs) = inventory_layout(j)->Ok_0;
            let size = crate::inventory_edit::used_slots(j, lid);
            &&& lid is Some
            &&& crate::inventory_doc::size_settable(j, lid.unwrap())
            &&& item_slot(j, vs, size, code) is Some
            &&& last_slot(vs, (size - 1) as i32) is Some
        }),
    ensures
        remove_item(j, code).1 is Ok,
{
    reveal(remove_item);
    let (lid0, aid, vs) = inventory_layout(j)->Ok_0;
    let lid = lid0.unwrap();
    let size = crate::inventory_edit::used_slots(j, lid0);
    let i = item_slot(j, vs, size, code).unwrap();
    let k = last_slot(vs, (size - 1) as i32).unwrap();
    let ws = take_out(vs, i, k);
    let j1 = crate::inventory_edit::put_values(j, aid, ws);
    assert(crate::save_model::record(j, decimal(aid as int)) is Object);
    crate::inventory_doc::lemma_stage_values(j, aid, ws, aid);
    assert(kept(record_by_id(j, lid as int), record_by_id(j1, lid as int)));
    crate::inventory_doc::lemma_size_settable_kept(j, j1, lid);
    crate::inventory_doc::lemma_size_settable(j1, lid, (size - 1) as i32);
}

/// After a new item named `code` takes entry `e`, where the walk over `size`
/// slots stopped right after the last slot in use, the walk over one slot more
/// finds an item named `code`, and the last slot in use is `e`.
pub proof fn lemma_found_after_add(
    j2: JVal,
    vs: Seq<JVal>,
    vs2: Seq<JVal>,
    size: i32,
    e: int,
    id: i64,
    code: Seq<char>,
)
    requires
        0 <= e < vs2.len(),
        e <= vs.len(),
        size < i32::MAX,
        walk_end(vs, Some(size)) == e,
        logical_at(vs, e) == size,
        walk_end(vs2, Some((size + 1) as i32)) == e + 1,
        vs2.take(e + 1) == vs.take(e).push(ref_entry(id)),
        entry_type(ref_entry(id)) == Some("Reference"@),
        counted(j2, Some(code))(ref_entry(id)),
    ensures
        item_slot(j2, vs2, (size + 1) as i32, code) is Some,
        last_slot(vs2, size) == Some(e),
{
    let size2 = (size + 1) as i32;
    let pre = vs2.take(e + 1);
    assert(pre[e] == ref_entry(id));
    crate::search::lemma_first_facts(pre, counted(j2, Some(code)));
    assert forall|m: int| 0 <= m < e implies slot_width(#[trigger] vs2[m]) == slot_width(vs[m]) by {
        assert(vs2[m] == pre[m]);
        assert(pre[m] == vs[m]);
    }
    crate::inventory_laws::lemma_logical_same_widths(vs, vs2, e);
    lemma_first_int_facts(vs.len() as int, walk_stop(vs, Some(size)));
    let halt = crate::inventory_edit::last_halt(vs2, size);
    assert forall|m: int| 0 <= m < e implies !#[trigger] halt(m) by {
        assert(!walk_stop(vs, Some(size))(m));
        assert(logical_at(vs, m + 1) == logical_at(vs, m) + slot_width(vs[m]));
        if m + 1 < e {
            assert(!walk_stop(vs, Some(size))(m + 1));
        }
        assert(vs2[m] == pre[m]);
        assert(pre[m] == vs[m]);
    }
    assert(vs2[e] == pre[e]);
    assert(halt(e));
    lemma_first_int_is(vs2.len() as int, halt, e);
}

/// Two tallies of entries that count alike under every name are equal.
pub proof fn lemma_tally_alike(
    r1: Seq<(Seq<char>, i32)>,
    j1: JVal,
    w1: Seq<JVal>,
    r2: Seq<(Seq<char>, i32)>,
    j2: JVal,
    w2: Seq<JVal>,
)
    requires
        is_tally(r1, j1, w1, any_name()),
        is_tally(r2, j2, w2, any_name()),
        forall|n: Seq<char>| #[trigger] count_where(w1, counted(j1, Some(n))) == count_where(w2, counted(j2, Some(n))),
    ensures
        r1 == r2,
{
    assert forall|x: (Seq<char>, i32)| r1.contains(x) implies r2.contains(x) by {
        let a = choose|a: int| 0 <= a < r1.len() && r1[a] == x;
        assert(count_where(w1, counted(j1, Some(r1[a].0))) > 0);
        assert(count_where(w2, counted(j2, Some(x.0))) > 0);
        let b = choose|b: int| 0 <= b < r2.len() && (#[trigger] r2[b]).0 == x.0;
        assert(r2[b] == x);
    }
    assert forall|x: (Seq<char>, i32)| r2.contains(x) implies r1.contains(x) by {
        let a = choose|a: int| 0 <= a < r2.len() && r2[a] == x;
        assert(count_where(w2, counted(j2, Some(r2[a].0))) > 0);
        assert(count_where(w1, counted(j1, Some(x.0))) > 0);
        let b = choose|b: int| 0 <= b < r1.len() && (#[trigger] r1[b]).0 == x.0;
        assert(r1[b] == x);
    }
    lemma_sorted_same(r1, r2);
}

/// Adding an item named `code` to a well-kept save and removing one of that
/// name again: both are accepted, every name counts as it did, and the list's
/// size is what it was.
#[verifier::rlimit(60)]
pub proof fn lemma_round_trip_counts(j: JVal, code: Seq<char>, expand: bool)
    requires
        inventory_kept(j),
        add_ok(j, code, expand),
        add_item(j, code, expand).1 is Ok,
    ensures
        remove_item(add_item(j, code, expand).0, code).1 is Ok,
        forall|n: Seq<char>| #[trigger] inventory_count(remove_item(add_item(j, code, expand).0, code).0, Some(n))
            == inventory_count(j, Some(n)),
        list_size(remove_item(add_item(j, code, expand).0, code).0, inventory_layout(j)->Ok_0.0.unwrap() as int)
            == list_size(j, inventory_layout(j)->Ok_0.0.unwrap() as int),
        inventory_slots(j) is Some,
        inventory_slots(remove_item(add_item(j, code, expand).0, code).0) is Some,
{
    let j2 = add_item(j, code, expand).0;
    let j3 = remove_item(j2, code).0;
    lemma_remove_after_add(j, code, expand);
    lemma_add_keeps(j, code, expand);
    lemma_remove_keeps(j2, code);
    let lid = inventory_layout(j)->Ok_0.0.unwrap();
    lemma_well_kept_tidy(j2);
    lemma_remove_document(j2, code);
    assert(crate::save_model::inventory_refs(j3) == crate::save_model::inventory_refs(j2));
    assert(inventory_layout(j2)->Ok_0.0 == Some(lid));
    assert(list_size(j3, lid as int) == list_size(j2, lid as int) - 1);
    assert forall|n: Seq<char>| #[trigger] inventory_count(j3, Some(n)) == inventory_count(j, Some(n)) by {
        assert(inventory_count(j2, Some(n)) == inventory_count(j, Some(n)) + if counts_as(code, Some(n)) {
            1int
        } else {
            0int
        });
        assert(inventory_count(j3, Some(n)) == inventory_count(j2, Some(n)) - if counts_as(code, Some(n)) {
            1int
        } else {
            0int
        });
    }
}

/// Adding an item named `code` to a save whose inventory is kept (see
/// [`inventory_kept`]) and removing one of that name again: both are accepted,
/// and the inventory's tally of items and its list's size are what they were.
pub proof fn law_add_then_remove(
    j: JVal,
    code: Seq<char>,
    expand: bool,
    r1: Seq<(Seq<char>, i32)>,
    r3: Seq<(Seq<char>, i32)>,
)
    requires
        inventory_kept(j),
        add_ok(j, code, expand),
        add_item(j, code, expand).1 is Ok,
        inventory_tally(j, any_name(), r1),
        inventory_tally(remove_item(add_item(j, code, expand).0, code).0, any_name(), r3),
    ensures
        remove_item(add_item(j, code, expand).0, code).1 is Ok,
        r3 == r1,
        list_size(remove_item(add_item(j, code, expand).0, code).0, inventory_layout(j)->Ok_0.0.unwrap() as int)
            == list_size(j, inventory_layout(j)->Ok_0.0.unwrap() as int),
{
    let j3 = remove_item(add_item(j, code, expand).0, code).0;
    lemma_round_trip_counts(j, code, expand);
    lemma_tally_from_counts(j, j3, r1, r3);
}

/// Two documents whose inventories count alike under every name have equal tallies.
pub proof fn lemma_tally_from_counts(j: JVal, j3: JVal, r1: Seq<(Seq<char>, i32)>, r3: Seq<(Seq<char>, i32)>)
    requires
        inventory_slots(j) is Some,
        inventory_slots(j3) is Some,
        forall|n: Seq<char>| #[trigger] inventory_count(j3, Some(n)) == inventory_count(j, Some(n)),
        inventory_tally(j, any_name(), r1),
        inventory_tally(j3, any_name(), r3),
    ensures
        r3 == r1,
{
    let (vs, l) = inventory_slots(j)->Some_0;
    let (vs3, l3) = inventory_slots(j3)->Some_0;
    let w = vs.take(walk_end(vs, l));
    let w3 = vs3.take(walk_end(vs3, l3));
    assert forall|n: Seq<char>| #[trigger] count_where(w, counted(j, Some(n))) == count_where(w3, counted(j3, Some(n))) by {
        assert(inventory_count(j3, Some(n)) == inventory_count(j, Some(n)));
    }
    lemma_tally_alike(r1, j, w, r3, j3, w3);
}

} // verus!
