//! What adding and removing an item does to the slots in use.
use vstd::prelude::*;
use crate::hero::members_or_empty;
use crate::inventory::{
    any_name, inventory_tally, is_tally, undeclared, counted, hero_count, entry_type,
    inventory_count, inventory_slots, logical_at, slot_width, walk_end, walk_stop,
};
use crate::inventory_doc::{
    all_kept, docs_kept, kept, lemma_all_kept_names, lemma_docs_kept_trans, names_resolved,
    lemma_name_kept, lemma_stage_register, lemma_stage_size, lemma_stage_values, name_kept,
};
use crate::inventory_edit::{
    add_item, add_ok, add_slot, array_values, fill_slot, free_end, inventory_layout, is_empty_entry,
    item_slot, is_single_slot, last_end, last_halt, last_slot, null_multiple, put_values, ref_entry,
    register_item, remove_item, set_size, take_out, used_slots,
};
use crate::json::{JVal, lemma_find_key_is};
use crate::save_model::{
    inventory_refs, list_size, max_record_id, lemma_record_id_bound, record, record_by_id, records,
    upgrade_class_type, upgrade_record_name,
};
use crate::search::{
    count_where, first_int, is_first_int, lemma_count_agree, lemma_first_int_is,
    lemma_first_int_none,
};
use crate::text::{decimal, key_lt, lemma_key_lt_order};
use crate::upgrade_edit::{records_writable, upgrade_record};

verus! {

/// What `first_int` gives: a number in `0..=n` before which `p` fails, and at
/// which it holds unless it is `n`.
pub proof fn lemma_first_int_facts(n: int, p: spec_fn(int) -> bool)
    requires
        0 <= n,
    ensures
        0 <= first_int(n, p) <= n,
        forall|k: int| 0 <= k < first_int(n, p) ==> !#[trigger] p(k),
        first_int(n, p) < n ==> p(first_int(n, p)),
{
    if exists|k: int| is_first_int(n, p, k) {
        let m = choose|m: int| is_first_int(n, p, m);
        assert(is_first_int(n, p, m));
    } else {
        assert forall|k: int| 0 <= k < n implies !#[trigger] p(k) by {
            if p(k) {
                lemma_first_exists(n, p, k);
            }
        }
    }
}

/// Where `p` holds somewhere in `0..n`, it holds first somewhere.
pub proof fn lemma_first_exists(n: int, p: spec_fn(int) -> bool, k: int)
    requires
        0 <= k < n,
        p(k),
    ensures
        exists|m: int| is_first_int(n, p, m),
    decreases k,
{
    if exists|j: int| 0 <= j < k && #[trigger] p(j) {
        let j = choose|j: int| 0 <= j < k && #[trigger] p(j);
        lemma_first_exists(n, p, j);
    } else {
        assert(is_first_int(n, p, k));
    }
}

/// Entries of equal widths up to `n` start at equal slots.
pub proof fn lemma_logical_same_widths(vs: Seq<JVal>, ws: Seq<JVal>, n: int)
    requires
        0 <= n <= vs.len(),
        n <= ws.len(),
        forall|m: int| 0 <= m < n ==> slot_width(#[trigger] vs[m]) == slot_width(ws[m]),
    ensures
        forall|k: int| 0 <= k <= n ==> #[trigger] logical_at(vs, k) == logical_at(ws, k),
    decreases n,
{
    if n > 0 {
        lemma_logical_same_widths(vs, ws, n - 1);
        assert(slot_width(vs[n - 1]) == slot_width(ws[n - 1]));
        assert(logical_at(vs, n - 1) == logical_at(ws, n - 1));
        assert(logical_at(vs, n) == logical_at(vs, n - 1) + slot_width(vs[n - 1]));
        assert(logical_at(ws, n) == logical_at(ws, n - 1) + slot_width(ws[n - 1]));
    }
}

/// Where every entry stands for at least one slot, later entries start at later slots.
pub proof fn lemma_logical_grows(vs: Seq<JVal>, a: int, b: int)
    requires
        0 <= a <= b <= vs.len(),
        forall|m: int| a <= m < b ==> slot_width(#[trigger] vs[m]) >= 1,
    ensures
        logical_at(vs, b) >= logical_at(vs, a) + (b - a),
    decreases b - a,
{
    if a < b {
        lemma_logical_grows(vs, a, b - 1);
    }
}

/// A reference entry stands for one slot and is a reference.
pub proof fn lemma_ref_entry(id: i64)
    ensures
        entry_type(ref_entry(id)) == Some("Reference"@),
        slot_width(ref_entry(id)) == 1,
        ref_entry(id).get("id"@).as_i64() == Some(id),
{
    lemma_find_key_is(ref_entry(id)->Object_0, "id"@, 0);
    reveal_strlit("id");
    reveal_strlit("type");
    reveal_strlit("Reference");
    reveal_strlit("NullMultiple");
    assert("id"@ != "type"@) by {
        assert("id"@.len() != "type"@.len());
    }
    lemma_find_key_is(ref_entry(id)->Object_0, "type"@, 1);
    assert("Reference"@ != "NullMultiple"@) by {
        assert("Reference"@.len() != "NullMultiple"@.len());
    }
}

/// How many elements satisfy `p` once one is replaced.
pub proof fn lemma_count_update<A>(s: Seq<A>, p: spec_fn(A) -> bool, i: int, x: A)
    requires
        0 <= i < s.len(),
    ensures
        count_where(s.update(i, x), p) == count_where(s, p) - (if p(s[i]) { 1int } else { 0int }) + (if p(x) {
            1int
        } else {
            0int
        }),
    decreases s.len(),
{
    let u = s.update(i, x);
    if i < s.len() - 1 {
        assert(u.drop_last() =~= s.drop_last().update(i, x));
        lemma_count_update(s.drop_last(), p, i, x);
    } else {
        assert(u.drop_last() =~= s.drop_last());
    }
}

/// A new item put into the first free entry `e`, where the slots in use end,
/// is read once more by the walk over one more slot, and nothing else is.
pub proof fn lemma_add_walk(vs: Seq<JVal>, size: i32, e: int, w: i32, id: i64)
    requires
        0 <= e < vs.len(),
        walk_end(vs, Some(size)) == e,
        logical_at(vs, e) == size,
        size < i32::MAX,
    ensures
        walk_end(fill_slot(vs, e, w, id), Some((size + 1) as i32)) == e + 1,
        fill_slot(vs, e, w, id).take(e + 1) == vs.take(e).push(ref_entry(id)),
        logical_at(fill_slot(vs, e, w, id), e + 1) == size + 1,
{
    let ws = fill_slot(vs, e, w, id);
    let n = (size + 1) as i32;
    assert(ws.take(e) =~= vs.take(e));
    assert(ws[e] == ref_entry(id));
    assert forall|m: int| 0 <= m < e implies slot_width(#[trigger] vs[m]) == slot_width(ws[m]) by {
        assert(ws[m] == ws.take(e)[m]);
    }
    lemma_logical_same_widths(vs, ws, e);
    lemma_ref_entry(id);
    assert(logical_at(ws, e + 1) == size + 1);
    lemma_first_int_facts(vs.len() as int, walk_stop(vs, Some(size)));
    let stop = walk_stop(ws, Some(n));
    assert forall|k: int| 0 <= k < e + 1 implies !#[trigger] stop(k) by {
        assert(logical_at(ws, k) == logical_at(vs, k));
        if k < e {
            assert(!walk_stop(vs, Some(size))(k));
        }
    }
    if e + 1 < ws.len() {
        lemma_first_int_is(ws.len() as int, stop, e + 1);
    } else {
        lemma_first_int_none(ws.len() as int, stop);
    }
    assert(ws.take(e + 1) =~= vs.take(e).push(ref_entry(id)));
}

/// An item at entry `i` taken out by trading places with the last slot in use
/// `k` leaves the walk over one slot fewer reading the others.
pub proof fn lemma_remove_walk(vs: Seq<JVal>, size: i32, i: int, k: int)
    requires
        0 <= i <= k,
        k + 1 == walk_end(vs, Some(size)),
        k < vs.len(),
        logical_at(vs, k) == size - 1,
        forall|m: int| 0 <= m < k ==> slot_width(#[trigger] vs[m]) >= 1,
        slot_width(vs[i]) == 1,
        slot_width(vs[k]) == 1,
    ensures
        walk_end(take_out(vs, i, k), Some((size - 1) as i32)) == k,
        logical_at(take_out(vs, i, k), k) == size - 1,
        take_out(vs, i, k).take(k) == if i < k {
            vs.take(k).update(i, vs[k])
        } else {
            vs.take(k)
        },
{
    let ws = take_out(vs, i, k);
    let n = (size - 1) as i32;
    assert forall|m: int| 0 <= m < k implies slot_width(#[trigger] vs[m]) == slot_width(ws[m]) by {
        if m == i {
            assert(ws[m] == vs[k]);
        } else {
            assert(ws[m] == vs[m]);
        }
    }
    lemma_logical_same_widths(vs, ws, k);
    lemma_logical_grows(vs, 0, k);
    assert(logical_at(ws, k) == logical_at(vs, k));
    let stop = walk_stop(ws, Some(n));
    assert forall|m: int| 0 <= m < k implies !#[trigger] stop(m) by {
        lemma_logical_grows(vs, m, k);
        assert(logical_at(ws, m) == logical_at(vs, m));
    }
    assert(stop(k));
    lemma_first_int_is(ws.len() as int, stop, k);
    if i < k {
        assert(ws.take(k) =~= vs.take(k).update(i, vs[k]));
    } else {
        assert(ws.take(k) =~= vs.take(k));
    }
}

/// An inventory whose slots in use are tidy: kept in a list, the walk over
/// them stops right after the last one, at the first free entry, and the name
/// of every item it reads is read through records that exist; kept in a bare
/// array, the name of every item in it is.
pub open spec fn tidy_inventory(j: JVal) -> bool {
    match inventory_layout(j) {
        Ok((Some(lid), aid, vs)) => {
            let size = list_size(j, lid as int);
            let e = walk_end(vs, Some(size));
            &&& free_end(vs, size) == e
            &&& logical_at(vs, e) == size
            &&& forall|i: int|
                0 <= i < e ==> entry_type(#[trigger] vs[i]) == Some("Reference"@) ==> names_resolved(j, vs[i])
        },
        Ok((None, aid, vs)) => forall|i: int|
            0 <= i < vs.len() ==> entry_type(#[trigger] vs[i]) == Some("Reference"@) ==> names_resolved(j, vs[i]),
        Err(_) => false,
    }
}

/// A `NullMultiple` entry is empty.
pub proof fn lemma_null_multiple_empty(c: i32)
    ensures
        is_empty_entry(null_multiple(c)),
{
    reveal_strlit("count");
    reveal_strlit("type");
    assert("count"@ != "type"@) by {
        assert("count"@.len() != "type"@.len());
    }
    lemma_find_key_is(null_multiple(c)->Object_0, "type"@, 1);
}

/// The name of a new upgrade record is the name it was made with.
pub proof fn lemma_upgrade_record_name(j: JVal, id: int, ctid: u64, ctn: Seq<char>, code: Seq<char>)
    requires
        record_by_id(j, id) == upgrade_record(ctid, ctn, code, 0),
    ensures
        upgrade_record_name(j, id) == code,
        forall|i: int|
            0 <= i < members_or_empty(record_by_id(j, id)).len() ==> (
            #[trigger] members_or_empty(record_by_id(j, id))[i]).get("id"@).as_i64() is None,
{
    reveal_strlit("name");
    reveal_strlit("level");
    reveal_strlit("members");
    reveal_strlit("class_type_id");
    reveal_strlit("class_type_name");
    reveal_strlit("type");
    reveal_strlit("value");
    reveal_strlit("id");
    let r = upgrade_record(ctid, ctn, code, 0);
    let m0 = crate::hero_edit::member_obj("name"@, "String"@, JVal::Str(code));
    let m1 = crate::hero_edit::member_obj("level"@, "Int32"@, JVal::Num(crate::json::num_of_int(0)));
    let ms = seq![m0, m1];
    assert("members"@ != "class_type_id"@) by {
        assert("members"@.len() != "class_type_id"@.len());
    }
    assert("members"@ != "class_type_name"@) by {
        assert("members"@.len() != "class_type_name"@.len());
    }
    lemma_find_key_is(r->Object_0, "members"@, 2);
    assert(crate::save_model::members_of(r) == Some(ms));
    lemma_find_key_is(m0->Object_0, "name"@, 0);
    assert("value"@ != "name"@) by {
        assert("value"@.len() != "name"@.len());
    }
    assert("value"@ != "type"@) by {
        assert("value"@[0] != "type"@[0]);
    }
    lemma_find_key_is(m0->Object_0, "value"@, 2);
    assert forall|i: int| 0 <= i < ms.len() implies (#[trigger] ms[i]).get("id"@).as_i64() is None by {
        assert("id"@ != "name"@) by {
            assert("id"@.len() != "name"@.len());
        }
        assert("id"@ != "type"@) by {
            assert("id"@.len() != "type"@.len());
        }
        assert("id"@ != "value"@) by {
            assert("id"@.len() != "value"@.len());
        }
        crate::json::lemma_find_key_none(ms[i]->Object_0, "id"@);
    }
    assert(crate::save_model::yields_name(j)(ms[0]));
    crate::search::lemma_first_is(ms, crate::save_model::yields_name(j), 0);
}

/// What adding an item to a tidy inventory does to the document: the item
/// takes the first free entry `e` (of the entries, grown when they had none),
/// as a new record `id` larger than that of any record there was, every other
/// record is kept, and the list counts one slot more.
pub proof fn lemma_add_document(j: JVal, code: Seq<char>, expand: bool) -> (r: (Seq<JVal>, int, i32, i64))
    requires
        add_ok(j, code, expand),
        add_item(j, code, expand).1 is Ok,
    ensures
        ({
            let (vs1, e, w, id) = r;
            let (lid, aid, vs) = inventory_layout(j)->Ok_0;
            let size = used_slots(j, lid);
            let j2 = add_item(j, code, expand).0;
            &&& docs_kept(j, j2, id)
            &&& upgrade_record_name(j2, id as int) == code
            &&& records(j2).has_key(decimal(id as int))
            &&& forall|i: int|
                0 <= i < members_or_empty(record_by_id(j2, id as int)).len() ==> (
                #[trigger] members_or_empty(record_by_id(j2, id as int))[i]).get("id"@).as_i64() is None
            &&& inventory_slots(j2) == Some(
                (
                    fill_slot(vs1, e, w, id),
                    match lid {
                        Some(_) => Some((size + 1) as i32),
                        None => None::<i32>,
                    },
                ),
            )
            &&& lid is Some ==> size < i32::MAX
            &&& tidy_inventory(j) && lid is Some ==> e == walk_end(vs, Some(size))
            &&& e == free_end(vs, size)
            &&& lid is Some ==> crate::inventory_doc::size_settable(j2, lid.unwrap())
            &&& 0 <= e < vs1.len()
            &&& is_empty_entry(vs1[e])
            &&& (vs1 == vs ==> w == slot_width(vs[e]) as i32)
            &&& (vs1 != vs ==> w == 256 && vs1 == vs.push(null_multiple(256)))
            &&& vs1.take(e) == vs.take(e)
            &&& (vs1 == vs || (vs1 == vs.push(null_multiple(256)) && e == vs.len()))
            &&& forall|y: i64| #[trigger] records(j).has_key(decimal(y as int)) ==> y < id
        }),
{
    reveal(add_item);
    let (lid0, aid, vs) = inventory_layout(j)->Ok_0;
    let size = used_slots(j, lid0);
    let e = free_end(vs, size);
    let (j1, vs1, k, w) = add_slot(j, lid0, aid, vs, expand).unwrap();
    assert(k == e);
    lemma_first_int_facts(vs.len() as int, crate::inventory_edit::free_at(vs, size));
    lemma_null_multiple_empty(256);
    assert(is_empty_entry(vs1[e]));
    let (ctid, ctn) = upgrade_class_type(j1).unwrap();
    let id = (max_record_id(j1) + 1) as i64;
    let (j4, rr) = register_item(j1, ctid, ctn, code, id);
    let vs2 = fill_slot(vs1, e, w, id);
    let j5 = put_values(j4, aid, vs2);
    let j6 = add_item(j, code, expand).0;
    let akey = decimal(aid as int);
    assert(record(j, akey) is Object);
    assert(records_writable(j));
    // the first stage: the entries, grown when they had no free one
    if e < vs.len() {
        assert(j1 == j);
        assert(docs_kept(j, j1, id));
    } else {
        lemma_stage_values(j, aid, vs1, id);
    }
    assert(records(j1).has_key(akey));
    lemma_record_id_bound(j1, aid);
    assert forall|y: i64| #[trigger] records(j).has_key(decimal(y as int)) implies y < id by {
        assert(records(j1).has_key(decimal(y as int)));
        lemma_record_id_bound(j1, y);
    }
    if records(j1).has_key(decimal(id as int)) {
        lemma_record_id_bound(j1, id);
    }
    // registering the new record
    lemma_stage_register(j1, ctid, ctn, code, id);
    lemma_docs_kept_trans(j, j1, j4, id);
    assert(kept(record_by_id(j1, aid as int), record_by_id(j4, aid as int)));
    // putting the entries
    lemma_stage_values(j4, aid, vs2, id);
    lemma_stage_values(j4, aid, vs2, aid);
    lemma_docs_kept_trans(j, j4, j5, id);
    // raising the size
    if let Some(lid) = lid0 {
        assert(j6 == set_size(j5, lid, (size + 1) as i32).0);
        lemma_stage_size(j5, lid, (size + 1) as i32, id);
        lemma_stage_size(j5, lid, (size + 1) as i32, aid);
        lemma_docs_kept_trans(j, j5, j6, id);
    } else {
        assert(j6 == j5);
    }
    assert(array_values(j6, aid) == Some(vs2));
    // the new record keeps its name
    lemma_upgrade_record_name(j4, id as int, ctid, ctn, code);
    assert(kept(record_by_id(j4, id as int), record_by_id(j5, id as int)));
    assert(kept(record_by_id(j5, id as int), record_by_id(j6, id as int)));
    crate::inventory_doc::lemma_kept_trans(record_by_id(j4, id as int), record_by_id(j5, id as int), record_by_id(j6, id as int));
    assert(name_kept(j4, j6, id as int));
    lemma_name_kept(j4, j6, id as int);
    let ms4 = members_or_empty(record_by_id(j4, id as int));
    let ms6 = members_or_empty(record_by_id(j6, id as int));
    assert forall|i: int| 0 <= i < ms6.len() implies (#[trigger] ms6[i]).get("id"@).as_i64() is None by {
        assert(ms4[i].get("id"@) == ms6[i].get("id"@));
    }
    assert(record_by_id(j6, id as int) is Object);
    assert(vs1.take(e) =~= vs.take(e));
    (vs1, e, w, id)
}

/// Entries grown past the end of the walk, which stopped right at the last
/// slot in use, leave the walk where it was.
pub proof fn lemma_push_walk(vs: Seq<JVal>, x: JVal, size: i32)
    requires
        walk_end(vs, Some(size)) == vs.len(),
        logical_at(vs, vs.len() as int) == size,
    ensures
        walk_end(vs.push(x), Some(size)) == vs.len(),
        logical_at(vs.push(x), vs.len() as int) == size,
{
    let ws = vs.push(x);
    let n = vs.len() as int;
    assert forall|m: int| 0 <= m < n implies slot_width(#[trigger] vs[m]) == slot_width(ws[m]) by {
        assert(ws[m] == vs[m]);
    }
    lemma_logical_same_widths(vs, ws, n);
    lemma_first_int_facts(n, walk_stop(vs, Some(size)));
    let stop = walk_stop(ws, Some(size));
    assert forall|k: int| 0 <= k < n implies !#[trigger] stop(k) by {
        assert(!walk_stop(vs, Some(size))(k));
    }
    lemma_first_int_is(ws.len() as int, stop, n);
}

/// How many elements satisfy `p` once one more is pushed.
pub proof fn lemma_count_push<A>(s: Seq<A>, x: A, p: spec_fn(A) -> bool)
    ensures
        count_where(s.push(x), p) == count_where(s, p) + if p(x) { 1nat } else { 0nat },
{
    assert(s.push(x).drop_last() =~= s);
}

/// Whether the new item named `code` counts under `c`.
pub open spec fn counts_as(code: Seq<char>, c: Option<Seq<char>>) -> bool {
    match c {
        Some(n) => n == code,
        None => code.len() > 0,
    }
}

/// An item read where every record but a fresh one is kept, whose name is read
/// through records that exist, counts as it did.
pub proof fn lemma_counted_kept(j: JVal, j2: JVal, id: i64, x: JVal, c: Option<Seq<char>>)
    requires
        docs_kept(j, j2, id),
        forall|y: i64| #[trigger] records(j).has_key(decimal(y as int)) ==> y < id,
        entry_type(x) == Some("Reference"@) ==> names_resolved(j, x),
    ensures
        counted(j2, c)(x) == counted(j, c)(x),
{
    if entry_type(x) == Some("Reference"@) && x.get("id"@).as_i64() is Some {
        let xid = x.get("id"@).as_i64().unwrap();
        assert(records(j).has_key(decimal(xid as int)));
        assert(xid < id);
        let ms = members_or_empty(record_by_id(j, xid as int));
        assert forall|k: int| 0 <= k < ms.len() implies ((#[trigger] ms[k]).get("id"@).as_i64() matches Some(
            nid,
        ) ==> kept(record_by_id(j, nid as int), record_by_id(j2, nid as int))) by {
            if let Some(nid) = ms[k].get("id"@).as_i64() {
                assert(records(j).has_key(decimal(nid as int)));
                assert(nid < id);
            }
        }
        lemma_name_kept(j, j2, xid as int);
    }
}

/// An empty entry counts under no name.
pub proof fn lemma_empty_not_counted(j: JVal, c: Option<Seq<char>>, x: JVal)
    requires
        is_empty_entry(x),
    ensures
        !counted(j, c)(x),
{
    reveal_strlit("Reference");
    reveal_strlit("Null");
    reveal_strlit("NullMultiple");
    assert("Reference"@ != "NullMultiple"@) by {
        assert("Reference"@.len() != "NullMultiple"@.len());
    }
    assert("Reference"@ != "Null"@) by {
        assert("Reference"@.len() != "Null"@.len());
    }
}

/// The walk over an inventory with no list reads every entry.
pub proof fn lemma_walk_unlimited(vs: Seq<JVal>)
    ensures
        walk_end(vs, None) == vs.len(),
{
    lemma_first_int_none(vs.len() as int, walk_stop(vs, None));
}

/// Adding an item named `code` to a tidy inventory counts one item more under
/// every name it counts under (its own, and every named item when it has a
/// name), and as many under every other.
pub proof fn lemma_add_count(j: JVal, code: Seq<char>, expand: bool, c: Option<Seq<char>>)
    requires
        tidy_inventory(j),
        add_ok(j, code, expand),
        add_item(j, code, expand).1 is Ok,
    ensures
        inventory_count(add_item(j, code, expand).0, c) == inventory_count(j, c) + if counts_as(code, c) {
            1int
        } else {
            0int
        },
{
    if inventory_layout(j)->Ok_0.0 is Some {
        lemma_add_count_list(j, code, expand, c);
    } else {
        lemma_add_count_array(j, code, expand, c);
    }
}

/// [`lemma_add_count`] for an inventory kept in a list.
pub proof fn lemma_add_count_list(j: JVal, code: Seq<char>, expand: bool, c: Option<Seq<char>>)
    requires
        tidy_inventory(j),
        add_ok(j, code, expand),
        add_item(j, code, expand).1 is Ok,
        inventory_layout(j)->Ok_0.0 is Some,
    ensures
        inventory_count(add_item(j, code, expand).0, c) == inventory_count(j, c) + if counts_as(code, c) {
            1int
        } else {
            0int
        },
{
    let (vs1, e, w, id) = lemma_add_document(j, code, expand);
    let (lid0, aid, vs) = inventory_layout(j)->Ok_0;
    let lid = lid0.unwrap();
    let size = list_size(j, lid as int);
    let j2 = add_item(j, code, expand).0;
    let vs2 = fill_slot(vs1, e, w, id);
    if vs1 != vs {
        lemma_push_walk(vs, null_multiple(256), size);
    }
    lemma_add_walk(vs1, size, e, w, id);
    assert(inventory_slots(j) == Some((vs, Some(size))));
    let p = counted(j, c);
    let p2 = counted(j2, c);
    let pre = vs.take(e);
    assert(vs2.take(e + 1) == pre.push(ref_entry(id)));
    lemma_count_push(pre, ref_entry(id), p2);
    lemma_ref_entry(id);
    assert(p2(ref_entry(id)) == counts_as(code, c));
    assert forall|i: int| 0 <= i < pre.len() implies #[trigger] p2(pre[i]) == p(pre[i]) by {
        assert(pre[i] == vs[i]);
        lemma_counted_kept(j, j2, id, pre[i], c);
    }
    lemma_count_agree(pre, pre, p2, p);
}

/// [`lemma_add_count`] for an inventory kept in a bare array.
pub proof fn lemma_add_count_array(j: JVal, code: Seq<char>, expand: bool, c: Option<Seq<char>>)
    requires
        tidy_inventory(j),
        add_ok(j, code, expand),
        add_item(j, code, expand).1 is Ok,
        inventory_layout(j)->Ok_0.0 is None,
    ensures
        inventory_count(add_item(j, code, expand).0, c) == inventory_count(j, c) + if counts_as(code, c) {
            1int
        } else {
            0int
        },
{
    let (vs1, e, w, id) = lemma_add_document(j, code, expand);
    let (lid0, aid, vs) = inventory_layout(j)->Ok_0;
    let j2 = add_item(j, code, expand).0;
    let vs2 = fill_slot(vs1, e, w, id);
    lemma_walk_unlimited(vs);
    lemma_walk_unlimited(vs2);
    assert(vs.take(vs.len() as int) =~= vs);
    assert(vs2.take(vs2.len() as int) =~= vs2);
    assert(inventory_slots(j) == Some((vs, None::<i32>)));
    let p = counted(j, c);
    let p2 = counted(j2, c);
    lemma_ref_entry(id);
    assert(p2(ref_entry(id)) == counts_as(code, c));
    lemma_null_multiple_empty(256);
    lemma_null_multiple_empty((w - 1) as i32);
    lemma_empty_not_counted(j, c, null_multiple(256));
    lemma_empty_not_counted(j2, c, null_multiple((w - 1) as i32));
    lemma_empty_not_counted(j2, c, vs1[e]);
    // the entries before the item is put in count as they did
    assert forall|i: int| 0 <= i < vs1.len() implies #[trigger] p2(vs1[i]) == p(vs1[i]) by {
        if i < vs.len() {
            assert(vs1[i] == vs[i]);
            lemma_counted_kept(j, j2, id, vs[i], c);
        } else {
            lemma_empty_not_counted(j, c, vs1[i]);
            lemma_empty_not_counted(j2, c, vs1[i]);
        }
    }
    lemma_count_agree(vs1, vs1, p2, p);
    if vs1 != vs {
        lemma_count_push(vs, null_multiple(256), p);
    }
    let u = vs1.update(e, ref_entry(id));
    lemma_count_update(vs1, p2, e, ref_entry(id));
    if w > 1 {
        crate::search::lemma_count_insert(u, e + 1, null_multiple((w - 1) as i32), p2);
    }
}

/// Adding an item named `code` to a tidy inventory: one more item of that
/// name is counted, as many of every other name, and one more named item.
pub proof fn law_add_counts_one(j: JVal, code: Seq<char>, expand: bool, other: Seq<char>)
    requires
        tidy_inventory(j),
        add_ok(j, code, expand),
        add_item(j, code, expand).1 is Ok,
        other != code,
    ensures
        inventory_count(add_item(j, code, expand).0, Some(code)) == inventory_count(j, Some(code)) + 1,
        inventory_count(add_item(j, code, expand).0, Some(other)) == inventory_count(j, Some(other)),
        code.len() > 0 ==> inventory_count(add_item(j, code, expand).0, None) == inventory_count(j, None) + 1,
{
    lemma_add_count(j, code, expand, Some(code));
    lemma_add_count(j, code, expand, Some(other));
    lemma_add_count(j, code, expand, None);
}

/// An inventory kept in a list, each of whose entries that the walk over the
/// slots in use reads stands for at least one slot.
pub open spec fn tidy_for_removal(j: JVal) -> bool {
    match inventory_layout(j) {
        Ok((Some(lid), aid, vs)) => forall|m: int|
            0 <= m < walk_end(vs, Some(list_size(j, lid as int))) ==> slot_width(#[trigger] vs[m]) >= 1,
        _ => false,
    }
}

/// A reference or a single empty slot stands for one slot.
pub proof fn lemma_single_width(e: JVal)
    requires
        is_single_slot(e),
    ensures
        slot_width(e) == 1,
{
    reveal_strlit("Reference");
    reveal_strlit("Null");
    reveal_strlit("NullMultiple");
    assert("Reference"@ != "NullMultiple"@) by {
        assert("Reference"@.len() != "NullMultiple"@.len());
    }
    assert("Null"@ != "NullMultiple"@) by {
        assert("Null"@.len() != "NullMultiple"@.len());
    }
}

/// Where the item to remove and the last slot in use are: the item among the
/// entries the walk reads, which end with the last slot in use.
pub proof fn lemma_removal_positions(j: JVal, vs: Seq<JVal>, size: i32, code: Seq<char>)
    requires
        item_slot(j, vs, size, code) is Some,
        last_slot(vs, (size - 1) as i32) is Some,
    ensures
        ({
            let i = item_slot(j, vs, size, code).unwrap();
            let k = last_slot(vs, (size - 1) as i32).unwrap();
            &&& size >= 1
            &&& walk_end(vs, Some(size)) == k + 1
            &&& 0 <= i <= k < vs.len()
            &&& counted(j, Some(code))(vs[i])
            &&& entry_type(vs[i]) == Some("Reference"@)
            &&& is_single_slot(vs[i])
            &&& logical_at(vs, k) == size - 1
            &&& slot_width(vs[k]) == 1
        }),
{
    let we = walk_end(vs, Some(size));
    let i = item_slot(j, vs, size, code).unwrap();
    let k = last_slot(vs, (size - 1) as i32).unwrap();
    crate::search::lemma_first_facts(vs.take(we), counted(j, Some(code)));
    lemma_first_int_facts(vs.len() as int, walk_stop(vs, Some(size)));
    assert(!walk_stop(vs, Some(size))(0));
    assert(size >= 1);
    let target = (size - 1) as i32;
    assert(target == size - 1);
    lemma_first_int_facts(vs.len() as int, last_halt(vs, target));
    assert(k == last_end(vs, target));
    assert forall|m: int| 0 <= m <= k implies !#[trigger] walk_stop(vs, Some(size))(m) by {
        if m < k {
            assert(!last_halt(vs, target)(m));
        }
    }
    lemma_single_width(vs[k]);
    assert(logical_at(vs, k + 1) == size);
    if k + 1 < vs.len() {
        lemma_first_int_is(vs.len() as int, walk_stop(vs, Some(size)), k + 1);
    } else {
        lemma_first_int_none(vs.len() as int, walk_stop(vs, Some(size)));
    }
    assert(vs.take(we)[i] == vs[i]);
    assert(is_single_slot(vs[i]));
}

/// What removing an item does to the document: the entries trade as
/// [`take_out`] says, the list counts one slot fewer, and every item keeps its name.
#[verifier::rlimit(40)]
pub proof fn lemma_remove_document(j: JVal, code: Seq<char>)
    requires
        tidy_for_removal(j),
        remove_item(j, code).1 is Ok,
    ensures
        ({
            let (lid, aid, vs) = inventory_layout(j)->Ok_0;
            let size = list_size(j, lid.unwrap() as int);
            let i = item_slot(j, vs, size, code).unwrap();
            let k = last_slot(vs, (size - 1) as i32).unwrap();
            let j2 = remove_item(j, code).0;
            &&& inventory_slots(j) == Some((vs, Some(size)))
            &&& inventory_slots(j2) == Some((take_out(vs, i, k), Some((size - 1) as i32)))
            &&& forall|x: i64| #[trigger] upgrade_record_name(j2, x as int) == upgrade_record_name(j, x as int)
            &&& docs_kept(j, j2, aid)
            &&& all_kept(j, j2)
            &&& forall|n: Seq<char>| #[trigger] hero_count(j2, n) == hero_count(j, n)
        }),
{
    reveal(remove_item);
    let (lid0, aid, vs) = inventory_layout(j)->Ok_0;
    let lid = lid0.unwrap();
    let size = list_size(j, lid as int);
    let i = item_slot(j, vs, size, code).unwrap();
    let k = last_slot(vs, (size - 1) as i32).unwrap();
    let target = (size - 1) as i32;
    let ws = take_out(vs, i, k);
    let j1 = put_values(j, aid, ws);
    let j2 = remove_item(j, code).0;
    assert(j2 == set_size(j1, lid, target).0);
    let akey = decimal(aid as int);
    assert(record(j, akey) is Object);
    lemma_stage_values(j, aid, ws, aid);
    lemma_stage_size(j1, lid, target, aid);
    lemma_docs_kept_trans(j, j1, j2, aid);
    assert(inventory_refs(j2) == inventory_refs(j));
    assert(array_values(j2, aid) == Some(ws));
    assert(list_size(j2, lid as int) == target);
    assert(inventory_slots(j) == Some((vs, Some(size))));
    assert(inventory_slots(j2) == Some((ws, Some(target))));
    assert forall|x: i64| #[trigger] upgrade_record_name(j2, x as int) == upgrade_record_name(j, x as int) by {
        lemma_all_kept_names(j, j1, j2, x);
    }
    assert forall|y: i64| #[trigger] kept(record_by_id(j, y as int), record_by_id(j2, y as int)) by {
        crate::inventory_doc::lemma_kept_trans(
            record_by_id(j, y as int),
            record_by_id(j1, y as int),
            record_by_id(j2, y as int),
        );
    }
}

/// Removing an item named `code` from an inventory whose entries stand for at
/// least one slot each counts one item fewer under every name the removed
/// item counted under, and as many under every other.
#[verifier::rlimit(30)]
pub proof fn lemma_remove_count(j: JVal, code: Seq<char>, c: Option<Seq<char>>)
    requires
        tidy_for_removal(j),
        remove_item(j, code).1 is Ok,
    ensures
        inventory_count(remove_item(j, code).0, c) == inventory_count(j, c) - if counts_as(code, c) {
            1int
        } else {
            0int
        },
{
    lemma_remove_document(j, code);
    reveal(remove_item);
    let (lid0, aid, vs) = inventory_layout(j)->Ok_0;
    let lid = lid0.unwrap();
    let size = list_size(j, lid as int);
    let i = item_slot(j, vs, size, code).unwrap();
    let k = last_slot(vs, (size - 1) as i32).unwrap();
    let ws = take_out(vs, i, k);
    let j2 = remove_item(j, code).0;
    lemma_removal_positions(j, vs, size, code);
    lemma_single_width(vs[i]);
    assert forall|m: int| 0 <= m < k implies slot_width(#[trigger] vs[m]) >= 1 by {
        assert(m < walk_end(vs, Some(size)));
    }
    lemma_remove_walk(vs, size, i, k);
    let p = counted(j, c);
    let p2 = counted(j2, c);
    let pre = vs.take(k);
    let post = ws.take(k);
    assert(vs.take(k + 1) == pre.push(vs[k]));
    lemma_count_push(pre, vs[k], p);
    assert(p(vs[i]) == counts_as(code, c));
    if i < k {
        assert(post == pre.update(i, vs[k]));
        assert(pre[i] == vs[i]);
        lemma_count_update(pre, p, i, vs[k]);
    } else {
        assert(post == pre);
    }
    assert forall|m: int| 0 <= m < post.len() implies #[trigger] p2(post[m]) == p(post[m]) by {
        if let Some(xid) = post[m].get("id"@).as_i64() {
            assert(upgrade_record_name(j2, xid as int) == upgrade_record_name(j, xid as int));
        }
    }
    lemma_count_agree(post, post, p2, p);
}

/// Removing an item named `code` from an inventory whose entries stand for at
/// least one slot each: one item fewer of that name is counted, as many of
/// every other name, and one named item fewer.
pub proof fn law_remove_counts_one(j: JVal, code: Seq<char>, other: Seq<char>)
    requires
        tidy_for_removal(j),
        remove_item(j, code).1 is Ok,
        other != code,
    ensures
        inventory_count(remove_item(j, code).0, Some(code)) == inventory_count(j, Some(code)) - 1,
        inventory_count(remove_item(j, code).0, Some(other)) == inventory_count(j, Some(other)),
        code.len() > 0 ==> inventory_count(remove_item(j, code).0, None) == inventory_count(j, None) - 1,
{
    lemma_remove_count(j, code, Some(code));
    lemma_remove_count(j, code, Some(other));
    lemma_remove_count(j, code, None);
}

/// The inventory has a free entry for a new item (or it cannot be found).
pub open spec fn has_free_entry(j: JVal) -> bool {
    match inventory_layout(j) {
        Ok((lid, aid, vs)) => free_end(vs, used_slots(j, lid)) < vs.len(),
        Err(_) => true,
    }
}

/// Where the inventory has a free entry, adding an item without growing the
/// entries does what adding it with growing does: a grail is added as any
/// item named `Hero_Upgrade_Grail` is.
pub proof fn law_add_without_growing(j: JVal, code: Seq<char>)
    requires
        has_free_entry(j),
    ensures
        add_item(j, code, false) == add_item(j, code, true),
{
    reveal(add_item);
}

/// A sequence of named counts in strictly increasing key order.
pub open spec fn names_sorted(r: Seq<(Seq<char>, i32)>) -> bool {
    forall|a: int, b: int| 0 <= a < b < r.len() ==> key_lt(#[trigger] r[a].0, #[trigger] r[b].0)
}

/// Two sequences in strictly increasing key order that hold the same
/// elements are equal.
pub proof fn lemma_sorted_same(r1: Seq<(Seq<char>, i32)>, r2: Seq<(Seq<char>, i32)>)
    requires
        names_sorted(r1),
        names_sorted(r2),
        forall|x: (Seq<char>, i32)| r1.contains(x) <==> r2.contains(x),
    ensures
        r1 == r2,
    decreases r1.len() + r2.len(),
{
    if r1.len() == 0 {
        if r2.len() > 0 {
            assert(r2.contains(r2[0]));
        }
        assert(r1 =~= r2);
    } else if r2.len() == 0 {
        assert(r1.contains(r1[0]));
    } else {
        let x = r1.last();
        let y = r2.last();
        assert(r1.contains(x));
        assert(r2.contains(y));
        let k = choose|k: int| 0 <= k < r2.len() && r2[k] == x;
        let m = choose|m: int| 0 <= m < r1.len() && r1[m] == y;
        if x != y {
            lemma_key_lt_order(x.0, y.0, x.0);
            assert(k < r2.len() - 1);
            assert(m < r1.len() - 1);
            assert(key_lt(x.0, y.0));
            assert(key_lt(y.0, x.0));
        }
        let a1 = r1.drop_last();
        let a2 = r2.drop_last();
        assert forall|z: (Seq<char>, i32)| a1.contains(z) <==> a2.contains(z) by {
            if a1.contains(z) {
                let i = choose|i: int| 0 <= i < a1.len() && a1[i] == z;
                assert(r1[i] == z);
                assert(key_lt(z.0, x.0));
                lemma_key_lt_order(z.0, x.0, z.0);
                assert(r2.contains(z));
                let i2 = choose|i2: int| 0 <= i2 < r2.len() && r2[i2] == z;
                assert(i2 != r2.len() - 1);
                assert(a2[i2] == z);
            }
            if a2.contains(z) {
                let i = choose|i: int| 0 <= i < a2.len() && a2[i] == z;
                assert(r2[i] == z);
                assert(key_lt(z.0, y.0));
                lemma_key_lt_order(z.0, y.0, z.0);
                assert(r1.contains(z));
                let i2 = choose|i2: int| 0 <= i2 < r1.len() && r1[i2] == z;
                assert(i2 != r1.len() - 1);
                assert(a1[i2] == z);
            }
        }
        lemma_sorted_same(a1, a2);
        assert(r1 =~= a1.push(x));
        assert(r2 =~= a2.push(y));
    }
}

/// A tally is the only one: two tallies of the same entries are equal.
pub proof fn lemma_tally_unique(
    r1: Seq<(Seq<char>, i32)>,
    r2: Seq<(Seq<char>, i32)>,
    j: JVal,
    vs: Seq<JVal>,
    keep: spec_fn(Seq<char>) -> bool,
)
    requires
        is_tally(r1, j, vs, keep),
        is_tally(r2, j, vs, keep),
    ensures
        r1 == r2,
{
    assert forall|x: (Seq<char>, i32)| r1.contains(x) implies r2.contains(x) by {
        let a = choose|a: int| 0 <= a < r1.len() && r1[a] == x;
        assert(count_where(vs, counted(j, Some(r1[a].0))) > 0);
        let b = choose|b: int| 0 <= b < r2.len() && (#[trigger] r2[b]).0 == x.0;
        assert(r2[b] == x);
    }
    assert forall|x: (Seq<char>, i32)| r2.contains(x) implies r1.contains(x) by {
        let a = choose|a: int| 0 <= a < r2.len() && r2[a] == x;
        assert(count_where(vs, counted(j, Some(r2[a].0))) > 0);
        let b = choose|b: int| 0 <= b < r1.len() && (#[trigger] r1[b]).0 == x.0;
        assert(r1[b] == x);
    }
    lemma_sorted_same(r1, r2);
}

/// The elements of a sequence in strictly increasing key order kept by a
/// filter are elements of it, still in strictly increasing key order.
pub proof fn lemma_filter_sorted(s: Seq<(Seq<char>, i32)>, p: spec_fn((Seq<char>, i32)) -> bool)
    requires
        names_sorted(s),
    ensures
        names_sorted(s.filter(p)),
        forall|i: int| 0 <= i < s.filter(p).len() ==> s.contains(#[trigger] s.filter(p)[i]),
    decreases s.len(),
{
    reveal(Seq::filter);
    if s.len() > 0 {
        let s0 = s.drop_last();
        lemma_filter_sorted(s0, p);
        let f0 = s0.filter(p);
        let f = s.filter(p);
        assert forall|i: int| 0 <= i < f0.len() implies s.contains(#[trigger] f0[i]) by {
            let k = choose|k: int| 0 <= k < s0.len() && s0[k] == f0[i];
            assert(s[k] == f0[i]);
        }
        if p(s.last()) {
            assert(f == f0.push(s.last()));
            assert forall|i: int| 0 <= i < f.len() implies s.contains(#[trigger] f[i]) by {
                if i < f0.len() {
                    assert(f[i] == f0[i]);
                } else {
                    assert(f[i] == s[s.len() - 1]);
                }
            }
            assert forall|a: int, b: int| 0 <= a < b < f.len() implies key_lt(#[trigger] f[a].0, #[trigger] f[b].0) by {
                if b < f0.len() {
                    assert(f[a] == f0[a] && f[b] == f0[b]);
                } else {
                    assert(f[a] == f0[a]);
                    assert(s0.contains(f0[a]));
                    let k = choose|k: int| 0 <= k < s0.len() && s0[k] == f0[a];
                    assert(s[k] == f0[a]);
                }
            }
        } else {
            assert(f == f0);
        }
    }
}

/// None of the eight items the editor offers by name (the grail, bomb, mine,
/// philosopher's stone, size, warhammer, cornucopia and war horn) is listed
/// among the inventory's undeclared items.
pub proof fn law_undeclared_leaves_out_named_items(j: JVal, und: Seq<(Seq<char>, i32)>)
    requires
        inventory_tally(j, undeclared(), und),
    ensures
        forall|a: int|
            0 <= a < und.len() ==> {
                let n = (#[trigger] und[a]).0;
                &&& n != crate::save_manager::GRAIL_UPGRADE_CODE@
                &&& n != crate::save_manager::BOMB_UPGRADE_CODE@
                &&& n != crate::save_manager::MINE_UPGRADE_CODE@
                &&& n != crate::save_manager::PHILOSOPHERS_STONE_UPGRADE_CODE@
                &&& n != crate::save_manager::SIZE_UPGRADE_CODE@
                &&& n != crate::save_manager::WARHAMMER_UPGRADE_CODE@
                &&& n != crate::save_manager::CORNUCOPIA_UPGRADE_CODE@
                &&& n != crate::save_manager::WAR_HORN_UPGRADE_CODE@
            },
{
    assert forall|a: int| 0 <= a < und.len() implies !crate::inventory::known_item((#[trigger] und[a]).0) by {
        match inventory_slots(j) {
            Some((vs, limit)) => {
                assert(undeclared()(und[a].0));
            },
            None => {},
        }
    }
}

/// The inventory's items not offered by name are its items without those
/// offered by name, in the same order.
pub proof fn law_undeclared_is_filtered(j: JVal, all: Seq<(Seq<char>, i32)>, und: Seq<(Seq<char>, i32)>)
    requires
        inventory_tally(j, any_name(), all),
        inventory_tally(j, undeclared(), und),
    ensures
        und == all.filter(|e: (Seq<char>, i32)| undeclared()(e.0)),
{
    let p = |e: (Seq<char>, i32)| undeclared()(e.0);
    let f = all.filter(p);
    match inventory_slots(j) {
        Some((vs, limit)) => {
            let w = vs.take(walk_end(vs, limit));
            lemma_filter_sorted(all, p);
            assert forall|i: int| 0 <= i < f.len() implies p(#[trigger] f[i]) by {
                all.lemma_filter_pred(p, i);
            }
            assert forall|n: Seq<char>|
                n.len() > 0 && undeclared()(n) && count_where(w, #[trigger] counted(j, Some(n))) > 0 implies exists|
                a: int,
            | 0 <= a < f.len() && (#[trigger] f[a]).0 == n by {
                assert(any_name()(n));
                let b = choose|b: int| 0 <= b < all.len() && (#[trigger] all[b]).0 == n;
                all.lemma_filter_contains(p, b);
                let a = choose|a: int| 0 <= a < f.len() && f[a] == all[b];
                assert(f[a].0 == n);
            }
            assert forall|a: int| 0 <= a < f.len() implies {
                &&& (#[trigger] f[a]).0.len() > 0
                &&& undeclared()(f[a].0)
                &&& f[a].1 > 0
                &&& f[a].1 == count_where(w, counted(j, Some(f[a].0)))
            } by {
                assert(all.contains(f[a]));
                let b = choose|b: int| 0 <= b < all.len() && all[b] == f[a];
                assert(p(f[a]));
            }
            assert(is_tally(f, j, w, undeclared()));
            lemma_tally_unique(und, f, j, w, undeclared());
        },
        None => {
            reveal(Seq::filter);
            assert(all.len() == 0);
            assert(f =~= all);
        },
    }
}

/// Each entry of the tally of all items gives how many items of that name
/// the inventory holds, and no other name has any.
pub proof fn law_tally_counts(j: JVal, all: Seq<(Seq<char>, i32)>, n: Seq<char>)
    requires
        inventory_tally(j, any_name(), all),
    ensures
        forall|a: int| 0 <= a < all.len() ==> (#[trigger] all[a]).1 == inventory_count(j, Some(all[a].0)),
        n.len() > 0 && (forall|a: int| 0 <= a < all.len() ==> (#[trigger] all[a]).0 != n) ==> inventory_count(
            j,
            Some(n),
        ) == 0,
{
    match inventory_slots(j) {
        Some((vs, limit)) => {
            let w = vs.take(walk_end(vs, limit));
            if n.len() > 0 && (forall|a: int| 0 <= a < all.len() ==> (#[trigger] all[a]).0 != n) {
                if count_where(w, counted(j, Some(n))) > 0 {
                    assert(any_name()(n));
                }
            }
        },
        None => {},
    }
}

/// How many slots the entries stand for, all together.
pub open spec fn slot_total(vs: Seq<JVal>) -> int
    decreases vs.len(),
{
    if vs.len() == 0 {
        0
    } else {
        slot_total(vs.drop_last()) + slot_width(vs.last())
    }
}

/// How many slots the entries stand for once one is replaced.
pub proof fn lemma_slot_total_update(s: Seq<JVal>, i: int, x: JVal)
    requires
        0 <= i < s.len(),
    ensures
        slot_total(s.update(i, x)) == slot_total(s) - slot_width(s[i]) + slot_width(x),
    decreases s.len(),
{
    let u = s.update(i, x);
    if i < s.len() - 1 {
        assert(u.drop_last() =~= s.drop_last().update(i, x));
        lemma_slot_total_update(s.drop_last(), i, x);
    } else {
        assert(u.drop_last() =~= s.drop_last());
    }
}

/// How many slots the entries stand for once one more is inserted.
pub proof fn lemma_slot_total_insert(s: Seq<JVal>, i: int, x: JVal)
    requires
        0 <= i <= s.len(),
    ensures
        slot_total(s.insert(i, x)) == slot_total(s) + slot_width(x),
    decreases s.len(),
{
    let t = s.insert(i, x);
    if i == s.len() {
        assert(t.drop_last() =~= s);
    } else {
        assert(t.drop_last() =~= s.drop_last().insert(i, x));
        lemma_slot_total_insert(s.drop_last(), i, x);
    }
}

/// A `NullMultiple` entry stands for as many slots as it counts.
pub proof fn lemma_null_multiple_width(c: i32)
    ensures
        slot_width(null_multiple(c)) == c,
{
    lemma_null_multiple_empty(c);
    reveal_strlit("count");
    reveal_strlit("type");
    reveal_strlit("Null");
    reveal_strlit("NullMultiple");
    assert("Null"@ != "NullMultiple"@) by {
        assert("Null"@.len() != "NullMultiple"@.len());
    }
    lemma_find_key_is(null_multiple(c)->Object_0, "count"@, 0);
    lemma_find_key_is(null_multiple(c)->Object_0, "type"@, 1);
}

/// The slot total after an addition. Adding an item to an inventory each of
/// whose `NullMultiple` entries stands for at least one slot: where there was a
/// free entry the entries stand for as many slots as before and grow by at most
/// one entry; where there was none, the slot total grows by 256.
pub proof fn law_add_slot_total(j: JVal, code: Seq<char>, expand: bool)
    requires
        add_ok(j, code, expand),
        add_item(j, code, expand).1 is Ok,
        forall|i: int|
            0 <= i < inventory_layout(j)->Ok_0.2.len() && entry_type(#[trigger] inventory_layout(j)->Ok_0.2[i])
                == Some("NullMultiple"@) ==> slot_width(inventory_layout(j)->Ok_0.2[i]) >= 1,
    ensures
        ({
            let (lid, aid, vs) = inventory_layout(j)->Ok_0;
            let vs2 = array_values(add_item(j, code, expand).0, aid).unwrap();
            &&& free_end(vs, used_slots(j, lid)) < vs.len() ==> slot_total(vs2) == slot_total(vs) && vs2.len() <= vs.len() + 1
            &&& free_end(vs, used_slots(j, lid)) >= vs.len() ==> slot_total(vs2) == slot_total(vs) + 256
        }),
{
    reveal(add_item);
    let (vs1, e, w, id) = lemma_add_document(j, code, expand);
    let (lid, aid, vs) = inventory_layout(j)->Ok_0;
    let j2 = add_item(j, code, expand).0;
    let vs2 = fill_slot(vs1, e, w, id);
    assert(crate::save_model::inventory_refs(j2) == crate::save_model::inventory_refs(j));
    assert(array_values(j2, aid) == Some(vs2));
    lemma_ref_entry(id);
    lemma_null_multiple_width(256);
    lemma_null_multiple_width((w - 1) as i32);
    if vs1 != vs {
        assert(vs.push(null_multiple(256)).drop_last() =~= vs);
    } else {
        reveal_strlit("Null");
        reveal_strlit("NullMultiple");
        assert("Null"@ != "NullMultiple"@) by {
            assert("Null"@.len() != "NullMultiple"@.len());
        }
        assert(slot_width(vs[e]) >= 1);
    }
    assert(w as int == slot_width(vs1[e]));
    lemma_slot_total_update(vs1, e, ref_entry(id));
    if w > 1 {
        lemma_slot_total_insert(vs1.update(e, ref_entry(id)), e + 1, null_multiple((w - 1) as i32));
    }
}

} // verus!
