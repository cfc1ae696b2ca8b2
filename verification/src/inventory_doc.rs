//! What the edits that add and remove an item keep of the records they do not
//! mean to change: how the inventory is found, and what items are named.
use vstd::prelude::*;
use crate::json::{JVal, lemma_set_other};
use crate::hero::{is_hero_entry, members_or_empty};
use crate::inventory::{carries, hero_count};
use crate::hero_edit::{lemma_put_record_facts, member_obj, put_record, rec_map, rec_root, slot};
use crate::inventory_edit::{array_values, put_values, register_item, set_size};
use crate::json::{num_of_int, lemma_set_then_get};
use crate::text::{decimal, lemma_decimal_injective};
use crate::upgrade_edit::{lemma_set_keeps_records, upgrade_record};
use crate::json::{
    find_key, insert_pos, lemma_find_key_facts, lemma_insert_pos_range, lemma_set_set,
};
use crate::upgrade_edit::{lemma_put_other, lemma_writable, records_writable};
use crate::save_model::{
    campaign_with_inventory, class_type_name, inventory_container, inventory_refs, list_size,
    members_of, name_of, name_source, named, named_int_id, record, record_by_id, records,
    upgrade_record_name, yields_name,
};
use crate::search::first_index;
use crate::search::{lemma_count_agree, lemma_count_insert, lemma_first_agree, lemma_first_insert};

verus! {

/// Members alike in what finding the inventory and naming an item read: their
/// names and ids, and the value of those named `name`.
pub open spec fn same_members(ms: Seq<JVal>, ms2: Seq<JVal>) -> bool {
    &&& ms.len() == ms2.len()
    &&& forall|i: int|
        0 <= i < ms.len() ==> {
            &&& (#[trigger] ms[i]).get("name"@) == ms2[i].get("name"@)
            &&& ms[i].get("id"@) == ms2[i].get("id"@)
            &&& name_of(ms[i]) == Some("name"@) ==> ms[i].get("value"@) == ms2[i].get("value"@)
        }
}

/// Records alike in what finding the inventory and naming an item read.
pub open spec fn kept(r: JVal, r2: JVal) -> bool {
    &&& (r is Str || r2 is Str) ==> r == r2
    &&& r is Object <==> r2 is Object
    &&& class_type_name(r) == class_type_name(r2)
    &&& r.get("type"@) == r2.get("type"@)
    &&& r.get("value"@) == r2.get("value"@)
    &&& members_of(r) is Some <==> members_of(r2) is Some
    &&& members_of(r) is Some ==> same_members(members_of(r).unwrap(), members_of(r2).unwrap())
}

pub proof fn lemma_kept_trans(a: JVal, b: JVal, c: JVal)
    requires
        kept(a, b),
        kept(b, c),
    ensures
        kept(a, c),
{
    if members_of(a) is Some {
        let (ma, mb, mc) = (members_of(a).unwrap(), members_of(b).unwrap(), members_of(c).unwrap());
        assert forall|i: int| 0 <= i < ma.len() implies {
            &&& (#[trigger] ma[i]).get("name"@) == mc[i].get("name"@)
            &&& ma[i].get("id"@) == mc[i].get("id"@)
            &&& name_of(ma[i]) == Some("name"@) ==> ma[i].get("value"@) == mc[i].get("value"@)
        } by {
            assert(mb[i].get("name"@) == ma[i].get("name"@));
        }
    }
}

/// The keys that these records are read by, told apart.
pub proof fn lemma_keys_differ()
    ensures
        "values"@ != "class_type_name"@,
        "values"@ != "type"@,
        "values"@ != "value"@,
        "values"@ != "members"@,
        "members"@ != "class_type_name"@,
        "members"@ != "type"@,
        "members"@ != "value"@,
        "value"@ != "name"@,
        "value"@ != "id"@,
        "_size"@ != "name"@,
{
    reveal_strlit("values");
    reveal_strlit("class_type_name");
    reveal_strlit("type");
    reveal_strlit("value");
    reveal_strlit("members");
    reveal_strlit("name");
    reveal_strlit("id");
    reveal_strlit("_size");
    assert("values"@.len() != "class_type_name"@.len());
    assert("values"@.len() != "type"@.len());
    assert("values"@.len() != "value"@.len());
    assert("values"@.len() != "members"@.len());
    assert("members"@.len() != "class_type_name"@.len());
    assert("members"@.len() != "type"@.len());
    assert("members"@.len() != "value"@.len());
    assert("value"@.len() != "name"@.len());
    assert("value"@.len() != "id"@.len());
    assert("_size"@.len() != "name"@.len());
}

/// An object record whose entries are put in `values` is kept.
pub proof fn lemma_kept_set_values(r: JVal, vs: Seq<JVal>)
    requires
        r is Object,
    ensures
        kept(r, r.set("values"@, JVal::Array(vs))),
{
    lemma_keys_differ();
    let r2 = r.set("values"@, JVal::Array(vs));
    lemma_set_other(r, "values"@, JVal::Array(vs), "class_type_name"@);
    lemma_set_other(r, "values"@, JVal::Array(vs), "type"@);
    lemma_set_other(r, "values"@, JVal::Array(vs), "value"@);
    lemma_set_other(r, "values"@, JVal::Array(vs), "members"@);
}

/// A member given a new `value` keeps its name and id.
pub proof fn lemma_member_value_kept(m: JVal, v: JVal)
    ensures
        m.set("value"@, v).get("name"@) == m.get("name"@),
        m.set("value"@, v).get("id"@) == m.get("id"@),
{
    lemma_keys_differ();
    if m.can_index_mut() {
        lemma_set_other(m, "value"@, v, "name"@);
        lemma_set_other(m, "value"@, v, "id"@);
    }
}

/// An object record whose member `i`, which is not named `name`, gets a new
/// `value` is kept.
pub proof fn lemma_kept_member_value(r: JVal, ms: Seq<JVal>, i: int, v: JVal)
    requires
        r is Object,
        members_of(r) == Some(ms),
        0 <= i < ms.len(),
        name_of(ms[i]) != Some("name"@),
    ensures
        kept(r, r.set("members"@, JVal::Array(ms.update(i, ms[i].set("value"@, v))))),
{
    lemma_keys_differ();
    let ms2 = ms.update(i, ms[i].set("value"@, v));
    let r2 = r.set("members"@, JVal::Array(ms2));
    lemma_set_other(r, "members"@, JVal::Array(ms2), "class_type_name"@);
    lemma_set_other(r, "members"@, JVal::Array(ms2), "type"@);
    lemma_set_other(r, "members"@, JVal::Array(ms2), "value"@);
    crate::json::lemma_set_then_get(r, "members"@, JVal::Array(ms2));
    lemma_member_value_kept(ms[i], v);
    assert(members_of(r2) == Some(ms2));
    assert forall|k: int| 0 <= k < ms.len() implies {
        &&& (#[trigger] ms[k]).get("name"@) == ms2[k].get("name"@)
        &&& ms[k].get("id"@) == ms2[k].get("id"@)
        &&& name_of(ms[k]) == Some("name"@) ==> ms[k].get("value"@) == ms2[k].get("value"@)
    } by {
        if k != i {
            assert(ms2[k] == ms[k]);
        }
    }
}

/// The records an item's name is read through are kept.
pub open spec fn name_kept(j: JVal, j2: JVal, x: int) -> bool {
    &&& kept(record_by_id(j, x), record_by_id(j2, x))
    &&& forall|i: int|
        0 <= i < members_or_empty(record_by_id(j, x)).len() ==> ((
        #[trigger] members_or_empty(record_by_id(j, x))[i]).get("id"@).as_i64() matches Some(nid) ==> kept(
            record_by_id(j, nid as int),
            record_by_id(j2, nid as int),
        ))
}

/// The records an item entry's name is read through exist: the record it
/// refers to, and every record its members refer to.
pub open spec fn names_resolved(j: JVal, e: JVal) -> bool {
    e.get("id"@).as_i64() matches Some(x) ==> {
        &&& records(j).has_key(decimal(x as int))
        &&& forall|i: int|
            0 <= i < members_or_empty(record_by_id(j, x as int)).len() ==> ((
            #[trigger] members_or_empty(record_by_id(j, x as int))[i]).get("id"@).as_i64() matches Some(
                nid,
            ) ==> records(j).has_key(decimal(nid as int)))
    }
}

/// The upgrade a hero record carries has its name read through records that exist.
pub open spec fn hero_upgrade_resolved(j: JVal, r: JVal) -> bool {
    match first_index(members_or_empty(r), named("upgrade"@)) {
        Some(k) => names_resolved(j, members_or_empty(r)[k]),
        None => true,
    }
}

/// The upgrade of every hero has its name read through records that exist.
pub open spec fn hero_refs_resolved(j: JVal) -> bool {
    forall|i: int|
        0 <= i < records(j).as_object().unwrap().len() ==> is_hero_entry(
            #[trigger] records(j).as_object().unwrap()[i],
        ) ==> hero_upgrade_resolved(j, records(j).as_object().unwrap()[i].1)
}

/// A reference whose name records exist, read where those records are kept
/// and none goes, still has its name records there.
pub proof fn lemma_resolved_kept(j: JVal, j2: JVal, e: JVal, e2: JVal)
    requires
        names_resolved(j, e),
        e2.get("id"@) == e.get("id"@),
        forall|y: i64| records(j).has_key(decimal(y as int)) ==> #[trigger] records(j2).has_key(decimal(y as int)),
        e.get("id"@).as_i64() matches Some(x) ==> kept(record_by_id(j, x as int), record_by_id(j2, x as int)),
    ensures
        names_resolved(j2, e2),
{
    if let Some(x) = e.get("id"@).as_i64() {
        assert(records(j2).has_key(decimal(x as int)));
        let ms = members_or_empty(record_by_id(j, x as int));
        let ms2 = members_or_empty(record_by_id(j2, x as int));
        assert forall|i: int| 0 <= i < ms2.len() implies ((#[trigger] ms2[i]).get("id"@).as_i64() matches Some(
            nid,
        ) ==> records(j2).has_key(decimal(nid as int))) by {
            assert(ms2[i].get("id"@) == ms[i].get("id"@));
            if let Some(nid) = ms[i].get("id"@).as_i64() {
                assert(records(j).has_key(decimal(nid as int)));
            }
        }
    }
}

/// An item whose name is read through kept records keeps its name.
pub proof fn lemma_name_kept(j: JVal, j2: JVal, x: int)
    requires
        name_kept(j, j2, x),
    ensures
        upgrade_record_name(j2, x) == upgrade_record_name(j, x),
{
    let r = record_by_id(j, x);
    let r2 = record_by_id(j2, x);
    if let Some(ms) = members_of(r) {
        let ms2 = members_of(r2).unwrap();
        assert forall|i: int| 0 <= i < ms.len() implies #[trigger] yields_name(j)(ms[i]) == yields_name(j2)(ms2[i])
            && (yields_name(j)(ms[i]) ==> name_source(j, ms[i]) == name_source(j2, ms2[i])) by {
            assert(ms[i].get("name"@) == ms2[i].get("name"@));
            assert(ms[i].get("id"@) == ms2[i].get("id"@));
            assert(members_or_empty(r)[i] == ms[i]);
            if let Some(nid) = ms[i].get("id"@).as_i64() {
                assert(kept(record_by_id(j, nid as int), record_by_id(j2, nid as int)));
            }
        }
        lemma_first_agree(ms, ms2, yields_name(j), yields_name(j2));
    }
}

/// Where the list or array that a kept record names is, is where it was.
pub proof fn lemma_container_kept(j: JVal, j2: JVal, cid: i64)
    requires
        kept(record_by_id(j, cid as int), record_by_id(j2, cid as int)),
    ensures
        inventory_container(j2, cid) == inventory_container(j, cid),
{
    let c = record_by_id(j, cid as int);
    let c2 = record_by_id(j2, cid as int);
    if let Some(lms) = members_of(c) {
        let lms2 = members_of(c2).unwrap();
        assert forall|i: int| 0 <= i < lms.len() implies #[trigger] named_int_id("_items"@)(lms[i])
            == named_int_id("_items"@)(lms2[i]) by {
            assert(lms[i].get("name"@) == lms2[i].get("name"@));
            assert(lms[i].get("id"@) == lms2[i].get("id"@));
        }
        lemma_first_agree(lms, lms2, named_int_id("_items"@), named_int_id("_items"@));
        if let Some(k) = first_index(lms, named_int_id("_items"@)) {
            crate::search::lemma_first_facts(lms, named_int_id("_items"@));
            assert(lms[k].get("id"@) == lms2[k].get("id"@));
        }
    }
}

/// A campaign record and its kept form are alike: both have an inventory or
/// neither has, and it names the same container.
pub proof fn lemma_campaign_kept(e: (Seq<char>, JVal), e2: (Seq<char>, JVal))
    requires
        kept(e.1, e2.1),
    ensures
        campaign_with_inventory()(e) == campaign_with_inventory()(e2),
        campaign_with_inventory()(e) ==> ({
            let ms = members_of(e.1).unwrap();
            let ms2 = members_of(e2.1).unwrap();
            ms[first_index(ms, named("inventory"@)).unwrap()].get("id"@) == ms2[first_index(
                ms2,
                named("inventory"@),
            ).unwrap()].get("id"@)
        }),
{
    if let Some(ms) = members_of(e.1) {
        let ms2 = members_of(e2.1).unwrap();
        assert forall|i: int| 0 <= i < ms.len() implies #[trigger] named("inventory"@)(ms[i]) == named(
            "inventory"@,
        )(ms2[i]) by {
            assert(ms[i].get("name"@) == ms2[i].get("name"@));
        }
        lemma_first_agree(ms, ms2, named("inventory"@), named("inventory"@));
        if let Some(k) = first_index(ms, named("inventory"@)) {
            crate::search::lemma_first_facts(ms, named("inventory"@));
            assert(ms[k].get("id"@) == ms2[k].get("id"@));
        }
    }
}

/// Kept records have their first `upgrade` member at one position, with one id.
pub proof fn lemma_upgrade_member_kept(r: JVal, r2: JVal)
    requires
        kept(r, r2),
    ensures
        first_index(members_or_empty(r), named("upgrade"@)) == first_index(members_or_empty(r2), named("upgrade"@)),
        first_index(members_or_empty(r), named("upgrade"@)) matches Some(k) ==> members_or_empty(r)[k].get("id"@)
            == members_or_empty(r2)[k].get("id"@),
{
    let ms = members_or_empty(r);
    let ms2 = members_or_empty(r2);
    assert forall|i: int| 0 <= i < ms.len() implies #[trigger] named("upgrade"@)(ms[i]) == named("upgrade"@)(
        ms2[i],
    ) by {
        assert(ms[i].get("name"@) == ms2[i].get("name"@));
    }
    lemma_first_agree(ms, ms2, named("upgrade"@), named("upgrade"@));
    if let Some(k) = first_index(ms, named("upgrade"@)) {
        crate::search::lemma_first_facts(ms, named("upgrade"@));
        assert(ms[k].get("id"@) == ms2[k].get("id"@));
    }
}

/// A kept hero record carries an upgrade of one name where the name of every
/// upgrade it might carry is kept.
pub proof fn lemma_carries_kept(j: JVal, j2: JVal, e: (Seq<char>, JVal), e2: (Seq<char>, JVal), code: Seq<char>)
    requires
        kept(e.1, e2.1),
        forall|x: i64| #[trigger] upgrade_record_name(j2, x as int) == upgrade_record_name(j, x as int),
    ensures
        carries(j2, code)(e2) == carries(j, code)(e),
        is_hero_entry(e2) == is_hero_entry(e),
{
    lemma_upgrade_member_kept(e.1, e2.1);
    if let Some(k) = first_index(members_or_empty(e.1), named("upgrade"@)) {
        if let Some(x) = members_or_empty(e.1)[k].get("id"@).as_i64() {
            assert(upgrade_record_name(j2, x as int) == upgrade_record_name(j, x as int));
        }
    }
}

/// Where every record is kept, every item keeps its name.
pub proof fn lemma_names_all_kept(j: JVal, j2: JVal)
    requires
        all_kept(j, j2),
    ensures
        forall|x: i64| #[trigger] upgrade_record_name(j2, x as int) == upgrade_record_name(j, x as int),
{
    assert forall|x: i64| #[trigger] upgrade_record_name(j2, x as int) == upgrade_record_name(j, x as int) by {
        lemma_name_kept(j, j2, x as int);
    }
}

/// Storing a kept form of an existing record finds the inventory where it was.
pub proof fn lemma_refs_put_existing(j: JVal, key: Seq<char>, r: JVal)
    requires
        records_writable(j),
        records(j).has_key(key),
        kept(record(j, key), r),
    ensures
        inventory_refs(put_record(j, key, r)) == inventory_refs(j),
        records_writable(put_record(j, key, r)),
        records(put_record(j, key, r)) == records(j).set(key, r),
        all_kept(j, put_record(j, key, r)),
        forall|code: Seq<char>| #[trigger] hero_count(put_record(j, key, r), code) == hero_count(j, code),
        hero_refs_resolved(j) ==> hero_refs_resolved(put_record(j, key, r)),
{
    let j2 = put_record(j, key, r);
    lemma_writable(j, key);
    lemma_put_record_facts(j, key, r);
    assert(rec_root(j) == j);
    assert(rec_map(j, key) == records(j));
    let es = records(j).as_object().unwrap();
    lemma_find_key_facts(es, key);
    let ki = find_key(es, key).unwrap();
    let es2 = es.update(ki, (key, r));
    assert(records(j2) == JVal::Object(es2));
    assert forall|i: int| 0 <= i < es.len() implies #[trigger] campaign_with_inventory()(es[i])
        == campaign_with_inventory()(es2[i]) by {
        if i == ki {
            lemma_campaign_kept(es[i], es2[i]);
        }
    }
    lemma_first_agree(es, es2, campaign_with_inventory(), campaign_with_inventory());
    if let Some(ri) = first_index(es, campaign_with_inventory()) {
        crate::search::lemma_first_facts(es, campaign_with_inventory());
        if ri == ki {
            lemma_campaign_kept(es[ri], es2[ri]);
        }
        let ms = members_of(es[ri].1).unwrap();
        let m = ms[first_index(ms, named("inventory"@)).unwrap()];
        if let Some(cid) = m.get("id"@).as_i64() {
            let ck = crate::text::decimal(cid as int);
            if ck == key {
                assert(record_by_id(j2, cid as int) == r);
            } else {
                lemma_put_other(j, key, r, ck);
            }
            lemma_container_kept(j, j2, cid);
        }
    }
    assert forall|y: i64| #[trigger] kept(record_by_id(j, y as int), record_by_id(j2, y as int)) by {
        if decimal(y as int) != key {
            lemma_put_other(j, key, r, decimal(y as int));
        }
    }
    assert forall|y: i64| records(j).has_key(decimal(y as int)) implies #[trigger] records(j2).has_key(
        decimal(y as int),
    ) by {
        if decimal(y as int) != key {
            lemma_put_other(j, key, r, decimal(y as int));
        }
    }
    lemma_names_all_kept(j, j2);
    assert forall|code: Seq<char>| #[trigger] hero_count(j2, code) == hero_count(j, code) by {
        assert forall|i: int| 0 <= i < es.len() implies #[trigger] carries(j, code)(es[i]) == carries(j2, code)(
            es2[i],
        ) by {
            lemma_carries_kept(j, j2, es[i], es2[i], code);
        }
        lemma_count_agree(es, es2, carries(j, code), carries(j2, code));
    }
    if hero_refs_resolved(j) {
        assert forall|i: int| 0 <= i < es2.len() && is_hero_entry(#[trigger] es2[i]) implies hero_upgrade_resolved(
            j2,
            es2[i].1,
        ) by {
            lemma_carries_kept(j, j2, es[i], es2[i], Seq::empty());
            assert(is_hero_entry(es[i]));
            assert(hero_upgrade_resolved(j, es[i].1));
            lemma_upgrade_member_kept(es[i].1, es2[i].1);
            if let Some(k) = first_index(members_or_empty(es[i].1), named("upgrade"@)) {
                let m = members_or_empty(es[i].1)[k];
                if let Some(x) = m.get("id"@).as_i64() {
                    assert(kept(record_by_id(j, x as int), record_by_id(j2, x as int)));
                }
                lemma_resolved_kept(j, j2, m, members_or_empty(es2[i].1)[k]);
            }
        }
    }
}

/// Storing a record under a new key, where it is no campaign record, finds the
/// inventory where it was.
pub proof fn lemma_refs_put_new(j: JVal, key: Seq<char>, r: JVal)
    requires
        records_writable(j),
        !records(j).has_key(key),
        !campaign_with_inventory()((key, r)),
        first_index(members_or_empty(r), named("upgrade"@)) is None,
        inventory_refs(j) is Ok,
    ensures
        inventory_refs(put_record(j, key, r)) == inventory_refs(j),
        records_writable(put_record(j, key, r)),
        hero_refs_resolved(j) ==> hero_refs_resolved(put_record(j, key, r)),
        hero_refs_resolved(j) ==> forall|code: Seq<char>| #[trigger] hero_count(put_record(j, key, r), code)
            == hero_count(j, code),
{
    let j2 = put_record(j, key, r);
    lemma_writable(j, key);
    lemma_put_record_facts(j, key, r);
    assert(rec_root(j) == j);
    assert(rec_map(j, key) == records(j).set(key, JVal::Null));
    lemma_set_set(records(j), key, JVal::Null, r);
    let es = records(j).as_object().unwrap();
    lemma_find_key_facts(es, key);
    let p = insert_pos(es, key);
    lemma_insert_pos_range(es, key);
    let es2 = es.insert(p, (key, r));
    assert(records(j2) == JVal::Object(es2));
    lemma_first_insert(es, p, (key, r), campaign_with_inventory());
    let ri = first_index(es, campaign_with_inventory()).unwrap();
    crate::search::lemma_first_facts(es, campaign_with_inventory());
    let ri2 = if ri < p { ri } else { ri + 1 };
    assert(es2[ri2] == es[ri]);
    let ms = members_of(es[ri].1).unwrap();
    let m = ms[first_index(ms, named("inventory"@)).unwrap()];
    let cid = m.get("id"@).as_i64().unwrap();
    let ck = crate::text::decimal(cid as int);
    assert(record(j, ck) != JVal::Null);
    assert(records(j).has_key(ck));
    lemma_put_other(j, key, r, ck);
    lemma_container_kept(j, j2, cid);
    if hero_refs_resolved(j) {
        lemma_new_record_heroes(j, key, r);
    }
}

/// A new record that carries no upgrade, stored where the upgrade of every hero
/// has its name read through existing records, leaves every hero carrying the
/// upgrade it carried.
pub proof fn lemma_new_record_heroes(j: JVal, key: Seq<char>, r: JVal)
    requires
        records_writable(j),
        !records(j).has_key(key),
        first_index(members_or_empty(r), named("upgrade"@)) is None,
        hero_refs_resolved(j),
        records(put_record(j, key, r)) == records(j).set(key, r),
    ensures
        hero_refs_resolved(put_record(j, key, r)),
        forall|code: Seq<char>| #[trigger] hero_count(put_record(j, key, r), code) == hero_count(j, code),
{
    let j2 = put_record(j, key, r);
    let es = records(j).as_object().unwrap();
    lemma_find_key_facts(es, key);
    let p = insert_pos(es, key);
    lemma_insert_pos_range(es, key);
    let es2 = es.insert(p, (key, r));
    assert(records(j2) == JVal::Object(es2));
    // every existing record is as it was
    assert forall|y: i64| records(j).has_key(decimal(y as int)) implies #[trigger] kept(
        record_by_id(j, y as int),
        record_by_id(j2, y as int),
    ) && records(j2).has_key(decimal(y as int)) by {
        lemma_put_other(j, key, r, decimal(y as int));
    }
    assert forall|y: i64| records(j).has_key(decimal(y as int)) implies #[trigger] records(j2).has_key(
        decimal(y as int),
    ) by {
        lemma_put_other(j, key, r, decimal(y as int));
    }
    // a hero keeps the name of its upgrade
    assert forall|i: int| 0 <= i < es.len() && is_hero_entry(#[trigger] es[i]) implies ({
        let ms = members_or_empty(es[i].1);
        first_index(ms, named("upgrade"@)) matches Some(k) ==> (ms[k].get("id"@).as_i64() matches Some(x)
            ==> name_kept(j, j2, x as int) && names_resolved(j2, ms[k]))
    }) by {
        assert(hero_upgrade_resolved(j, es[i].1));
        let ms = members_or_empty(es[i].1);
        if let Some(k) = first_index(ms, named("upgrade"@)) {
            if let Some(x) = ms[k].get("id"@).as_i64() {
                assert(records(j).has_key(decimal(x as int)));
                let xs = members_or_empty(record_by_id(j, x as int));
                assert forall|q: int| 0 <= q < xs.len() implies ((#[trigger] xs[q]).get("id"@).as_i64() matches Some(
                    nid,
                ) ==> kept(record_by_id(j, nid as int), record_by_id(j2, nid as int))) by {
                    if let Some(nid) = xs[q].get("id"@).as_i64() {
                        assert(records(j).has_key(decimal(nid as int)));
                    }
                }
                lemma_resolved_kept(j, j2, ms[k], ms[k]);
            }
        }
    }
    assert forall|code: Seq<char>| #[trigger] hero_count(j2, code) == hero_count(j, code) by {
        assert forall|i: int| 0 <= i < es.len() implies #[trigger] carries(j, code)(es[i]) == carries(j2, code)(
            es[i],
        ) by {
            if is_hero_entry(es[i]) {
                let ms = members_or_empty(es[i].1);
                if let Some(k) = first_index(ms, named("upgrade"@)) {
                    if let Some(x) = ms[k].get("id"@).as_i64() {
                        lemma_name_kept(j, j2, x as int);
                    }
                }
            }
        }
        lemma_count_agree(es, es, carries(j, code), carries(j2, code));
        lemma_count_insert(es, p, (key, r), carries(j2, code));
    }
    assert forall|i: int| 0 <= i < es2.len() && is_hero_entry(#[trigger] es2[i]) implies hero_upgrade_resolved(
        j2,
        es2[i].1,
    ) by {
        if i < p {
            assert(es2[i] == es[i]);
        } else if i > p {
            assert(es2[i] == es[i - 1]);
        }
    }
}

/// From `j` to `j2` the records stay writable, the inventory is found where
/// it was, no record goes, and every record but the one with id `fresh` is kept.
pub open spec fn docs_kept(j: JVal, j2: JVal, fresh: i64) -> bool {
    &&& records_writable(j2)
    &&& inventory_refs(j2) == inventory_refs(j)
    &&& forall|y: i64| y != fresh ==> #[trigger] kept(record_by_id(j, y as int), record_by_id(j2, y as int))
    &&& forall|y: i64| records(j).has_key(decimal(y as int)) ==> #[trigger] records(j2).has_key(decimal(y as int))
    &&& hero_refs_resolved(j) ==> hero_refs_resolved(j2) && forall|code: Seq<char>| #[trigger] hero_count(j2, code)
        == hero_count(j, code)
}

/// From `j` to `j2` every record is kept.
pub open spec fn all_kept(j: JVal, j2: JVal) -> bool {
    forall|y: i64| #[trigger] kept(record_by_id(j, y as int), record_by_id(j2, y as int))
}

/// Where every record is kept, every item keeps its name.
pub proof fn lemma_all_kept_names(j: JVal, j2: JVal, j3: JVal, x: i64)
    requires
        all_kept(j, j2),
        all_kept(j2, j3),
    ensures
        upgrade_record_name(j3, x as int) == upgrade_record_name(j, x as int),
{
    assert forall|y: i64| #[trigger] kept(record_by_id(j, y as int), record_by_id(j3, y as int)) by {
        lemma_kept_trans(record_by_id(j, y as int), record_by_id(j2, y as int), record_by_id(j3, y as int));
    }
    lemma_name_kept(j, j3, x as int);
}

pub proof fn lemma_docs_kept_trans(j: JVal, j2: JVal, j3: JVal, fresh: i64)
    requires
        docs_kept(j, j2, fresh),
        docs_kept(j2, j3, fresh),
    ensures
        docs_kept(j, j3, fresh),
{
    assert forall|y: i64| y != fresh implies #[trigger] kept(record_by_id(j, y as int), record_by_id(j3, y as int)) by {
        lemma_kept_trans(record_by_id(j, y as int), record_by_id(j2, y as int), record_by_id(j3, y as int));
    }
    assert forall|y: i64| records(j).has_key(decimal(y as int)) implies #[trigger] records(j3).has_key(
        decimal(y as int),
    ) by {
        assert(records(j2).has_key(decimal(y as int)));
    }
    if hero_refs_resolved(j) {
        assert forall|code: Seq<char>| #[trigger] hero_count(j3, code) == hero_count(j, code) by {
            assert(hero_count(j2, code) == hero_count(j, code));
        }
    }
}

/// Putting entries into an array record keeps every record.
pub proof fn lemma_stage_values(j: JVal, aid: i64, vs: Seq<JVal>, fresh: i64)
    requires
        records_writable(j),
        record(j, decimal(aid as int)) is Object,
    ensures
        docs_kept(j, put_values(j, aid, vs), fresh),
        all_kept(j, put_values(j, aid, vs)),
        forall|code: Seq<char>| #[trigger] hero_count(put_values(j, aid, vs), code) == hero_count(j, code),
        array_values(put_values(j, aid, vs), aid) == Some(vs),
{
    let akey = decimal(aid as int);
    let j2 = put_values(j, aid, vs);
    lemma_writable(j, akey);
    let r = record(j, akey);
    let r2 = r.set("values"@, JVal::Array(vs));
    lemma_kept_set_values(r, vs);
    assert(records(j).has_key(akey));
    lemma_refs_put_existing(j, akey, r2);
    lemma_put_record_facts(j, akey, r2);
    lemma_set_then_get(r, "values"@, JVal::Array(vs));
    assert forall|y: i64| #[trigger] kept(record_by_id(j, y as int), record_by_id(j2, y as int)) by {
        if decimal(y as int) != akey {
            lemma_put_other(j, akey, r2, decimal(y as int));
        }
    }
    assert forall|y: i64| records(j).has_key(decimal(y as int)) implies #[trigger] records(j2).has_key(
        decimal(y as int),
    ) by {
        if decimal(y as int) != akey {
            lemma_put_other(j, akey, r2, decimal(y as int));
        }
    }
}

/// An upgrade record is no campaign record: no member of it is named `inventory`.
pub proof fn lemma_upgrade_record_no_campaign(key: Seq<char>, ctid: u64, ctn: Seq<char>, code: Seq<char>, level: i32)
    ensures
        !campaign_with_inventory()((key, upgrade_record(ctid, ctn, code, level))),
        first_index(members_or_empty(upgrade_record(ctid, ctn, code, level)), named("upgrade"@)) is None,
{
    reveal_strlit("upgrade");
    reveal_strlit("name");
    reveal_strlit("level");
    reveal_strlit("inventory");
    reveal_strlit("members");
    reveal_strlit("class_type_id");
    reveal_strlit("class_type_name");
    reveal_strlit("type");
    let r = upgrade_record(ctid, ctn, code, level);
    let ms = seq![
        member_obj("name"@, "String"@, JVal::Str(code)),
        member_obj("level"@, "Int32"@, JVal::Num(num_of_int(level as int))),
    ];
    assert("members"@ != "class_type_id"@) by {
        assert("members"@.len() != "class_type_id"@.len());
    }
    assert("members"@ != "class_type_name"@) by {
        assert("members"@.len() != "class_type_name"@.len());
    }
    crate::json::lemma_find_key_is(r->Object_0, "members"@, 2);
    assert(members_of(r) == Some(ms));
    assert forall|i: int| 0 <= i < ms.len() implies !named("inventory"@)(#[trigger] ms[i]) by {
        crate::json::lemma_find_key_is(ms[i]->Object_0, "name"@, 0);
        assert("name"@ != "inventory"@) by {
            assert("name"@.len() != "inventory"@.len());
        }
        assert("level"@ != "inventory"@) by {
            assert("level"@.len() != "inventory"@.len());
        }
    }
    crate::search::lemma_first_none(ms, named("inventory"@));
    assert forall|i: int| 0 <= i < ms.len() implies !named("upgrade"@)(#[trigger] ms[i]) by {
        crate::json::lemma_find_key_is(ms[i]->Object_0, "name"@, 0);
        assert("name"@ != "upgrade"@) by {
            assert("name"@.len() != "upgrade"@.len());
        }
        assert("level"@ != "upgrade"@) by {
            assert("level"@.len() != "upgrade"@.len());
        }
    }
    crate::search::lemma_first_none(ms, named("upgrade"@));
}

/// Documents with the same records find the same inventory, name every
/// item alike, and count alike what their heroes carry.
pub proof fn lemma_same_records(j: JVal, j2: JVal)
    requires
        records(j) == records(j2),
    ensures
        inventory_refs(j2) == inventory_refs(j),
        hero_refs_resolved(j2) == hero_refs_resolved(j),
        forall|code: Seq<char>| #[trigger] hero_count(j2, code) == hero_count(j, code),
        forall|x: i64| #[trigger] upgrade_record_name(j2, x as int) == upgrade_record_name(j, x as int),
{
    assert forall|x: i64| #[trigger] upgrade_record_name(j2, x as int) == upgrade_record_name(j, x as int) by {
        assert(name_kept(j, j2, x as int));
        lemma_name_kept(j, j2, x as int);
    }
    assert forall|code: Seq<char>| #[trigger] hero_count(j2, code) == hero_count(j, code) by {
        if let Some(es) = records(j).as_object() {
            assert forall|i: int| 0 <= i < es.len() implies #[trigger] carries(j, code)(es[i]) == carries(j2, code)(
                es[i],
            ) by {
                lemma_carries_kept(j, j2, es[i], es[i], code);
            }
            lemma_count_agree(es, es, carries(j, code), carries(j2, code));
        }
    }
}

/// Registering a record under a new id keeps every other record.
pub proof fn lemma_stage_register(j: JVal, ctid: u64, ctn: Seq<char>, code: Seq<char>, id: i64)
    requires
        records_writable(j),
        !records(j).has_key(decimal(id as int)),
        inventory_refs(j) is Ok,
    ensures
        docs_kept(j, register_item(j, ctid, ctn, code, id).0, id),
        record_by_id(register_item(j, ctid, ctn, code, id).0, id as int) == upgrade_record(ctid, ctn, code, 0),
{
    let key = decimal(id as int);
    let r = upgrade_record(ctid, ctn, code, 0);
    let j2 = put_record(j, key, r);
    lemma_upgrade_record_no_campaign(key, ctid, ctn, code, 0);
    lemma_refs_put_new(j, key, r);
    lemma_writable(j, key);
    lemma_put_record_facts(j, key, r);
    reveal_strlit("records");
    reveal_strlit("record_metadata");
    reveal_strlit("record_order");
    assert("record_metadata"@ != "records"@) by {
        assert("record_metadata"@.len() != "records"@.len());
    }
    assert("record_order"@ != "records"@) by {
        assert("record_order"@.len() != "records"@.len());
    }
    let j3 = if j2.get("record_metadata"@) is Object {
        j2.set("record_metadata"@, j2.get("record_metadata"@).insert(key, crate::upgrade_edit::metadata_template(j2)))
    } else {
        j2
    };
    if j2.get("record_metadata"@) is Object {
        lemma_set_keeps_records(j2, "record_metadata"@, j2.get("record_metadata"@).insert(key, crate::upgrade_edit::metadata_template(j2)));
    }
    assert(records(j3) == records(j2));
    let j4 = register_item(j, ctid, ctn, code, id).0;
    if j3.get("record_order"@) is Array && i32::MIN <= id <= i32::MAX {
        lemma_set_keeps_records(j3, "record_order"@, j3.get("record_order"@).push(JVal::Num(num_of_int(id as int))));
    }
    assert(records(j4) == records(j2));
    assert(inventory_refs(j4) == inventory_refs(j2));
    lemma_same_records(j2, j4);
    assert forall|y: i64| y != id implies #[trigger] kept(record_by_id(j, y as int), record_by_id(j4, y as int)) by {
        if decimal(y as int) == key {
            lemma_decimal_injective(y, id);
        }
        lemma_put_other(j, key, r, decimal(y as int));
    }
    assert forall|y: i64| records(j).has_key(decimal(y as int)) implies #[trigger] records(j4).has_key(
        decimal(y as int),
    ) by {
        lemma_put_other(j, key, r, decimal(y as int));
    }
}

/// The list record `lid` is an object whose members have one named `_size`.
pub open spec fn size_settable(j: JVal, lid: i64) -> bool {
    let r = record_by_id(j, lid as int);
    &&& r is Object
    &&& members_of(r) is Some
    &&& first_index(members_of(r).unwrap(), named("_size"@)) is Some
}

/// The `_size` of a list that has one can be set.
pub proof fn lemma_size_settable(j: JVal, lid: i64, n: i32)
    requires
        records_writable(j),
        size_settable(j, lid),
    ensures
        set_size(j, lid, n).1 is Ok,
{
    lemma_writable(j, decimal(lid as int));
}

/// A kept list record that has a `_size` member still has one.
pub proof fn lemma_size_settable_kept(j: JVal, j2: JVal, lid: i64)
    requires
        size_settable(j, lid),
        kept(record_by_id(j, lid as int), record_by_id(j2, lid as int)),
    ensures
        size_settable(j2, lid),
{
    let ms = members_of(record_by_id(j, lid as int)).unwrap();
    let ms2 = members_of(record_by_id(j2, lid as int)).unwrap();
    assert forall|i: int| 0 <= i < ms.len() implies #[trigger] named("_size"@)(ms[i]) == named("_size"@)(ms2[i]) by {
        assert(ms[i].get("name"@) == ms2[i].get("name"@));
    }
    lemma_first_agree(ms, ms2, named("_size"@), named("_size"@));
}

/// Setting the `_size` of a list keeps every record, and the list then holds that size.
pub proof fn lemma_stage_size(j: JVal, lid: i64, n: i32, fresh: i64)
    requires
        records_writable(j),
        set_size(j, lid, n).1 is Ok,
    ensures
        docs_kept(j, set_size(j, lid, n).0, fresh),
        all_kept(j, set_size(j, lid, n).0),
        size_settable(set_size(j, lid, n).0, lid),
        forall|code: Seq<char>| #[trigger] hero_count(set_size(j, lid, n).0, code) == hero_count(j, code),
        list_size(set_size(j, lid, n).0, lid as int) == n,
        forall|y: i64| #[trigger] array_values(set_size(j, lid, n).0, y) == array_values(j, y),
{
    let key = decimal(lid as int);
    let v = JVal::Num(num_of_int(n as int));
    lemma_writable(j, key);
    let h = slot(j, key);
    let ms = members_of(h).unwrap();
    crate::search::lemma_first_facts(ms, named("_size"@));
    let i = first_index(ms, named("_size"@)).unwrap();
    let ms2 = ms.update(i, ms[i].set("value"@, v));
    let h2 = h.set("members"@, JVal::Array(ms2));
    let j2 = set_size(j, lid, n).0;
    assert(j2 == put_record(j, key, h2));
    lemma_keys_differ();
    assert(name_of(ms[i]) != Some("name"@));
    lemma_kept_member_value(h, ms, i, v);
    assert(records(j).has_key(key));
    lemma_refs_put_existing(j, key, h2);
    lemma_put_record_facts(j, key, h2);
    lemma_set_then_get(h, "members"@, JVal::Array(ms2));
    assert(ms[i] is Object);
    lemma_set_then_get(ms[i], "value"@, v);
    lemma_member_value_kept(ms[i], v);
    assert forall|k: int| 0 <= k < ms.len() implies #[trigger] named("_size"@)(ms[k]) == named("_size"@)(ms2[k]) by {
        if k == i {
            assert(ms2[k].get("name"@) == ms[k].get("name"@));
        }
    }
    lemma_first_agree(ms, ms2, named("_size"@), named("_size"@));
    assert(members_of(record_by_id(j2, lid as int)) == Some(ms2));
    assert(list_size(j2, lid as int) == n);
    assert forall|y: i64| #[trigger] kept(record_by_id(j, y as int), record_by_id(j2, y as int)) by {
        if decimal(y as int) != key {
            lemma_put_other(j, key, h2, decimal(y as int));
        }
    }
    assert forall|y: i64| records(j).has_key(decimal(y as int)) implies #[trigger] records(j2).has_key(
        decimal(y as int),
    ) by {
        if decimal(y as int) != key {
            lemma_put_other(j, key, h2, decimal(y as int));
        }
    }
    assert forall|y: i64| #[trigger] array_values(j2, y) == array_values(j, y) by {
        if decimal(y as int) != key {
            lemma_put_other(j, key, h2, decimal(y as int));
        } else {
            crate::json::lemma_set_other(h, "members"@, JVal::Array(ms2), "values"@);
        }
    }
}

} // verus!
