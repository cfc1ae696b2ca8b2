//! What changing a hero's upgrade gives back when the hero is read again.
use vstd::prelude::*;
use crate::hero::{
    ref_text, hero_view, info_name, info_name_source, last_int_id, last_int_value, members_or_empty,
    sets_info_name, to_i32, upgrade_info, HeroView, UpgradeInfoView,
};
use crate::hero_edit::{clear_field, cleared_member, member_obj, put_record, slot, sync_skill};
use crate::inventory_doc::{lemma_keys_differ, lemma_member_value_kept};
use crate::json::{
    JVal, key_once, num_of_int, lemma_remove_once, lemma_remove_other, lemma_set_key_once,
    lemma_set_then_get, lemma_set_other,
};
use crate::save_model::{
    lemma_record_id_bound, max_record_id, is_named, members_of, named, named_int_id,
    named_int_value, record, record_by_id, records,
};
use crate::search::{
    first_index, last_index, lemma_first_facts, lemma_first_is, lemma_first_none, lemma_last_is,
    lemma_last_none,
};
use crate::save_manager::{class_skill, normalized_type};
use crate::text::decimal;
use crate::upgrade_edit::{
    add_virtual, attached, modify_ok, new_record_class, new_record_id, virtual_record, upgrade_record,
    lemma_set_keeps_records, modify_upgrade, ref_member, attach_member, lemma_put_keeps_writable,
    lemma_put_other, lemma_writable, records_writable, rename_name_record, rename_upgrade,
    set_level,
};

verus! {

/// `k` is the one member of `ms` named `n`.
pub open spec fn only_named_at(ms: Seq<JVal>, n: Seq<char>, k: int) -> bool {
    &&& 0 <= k < ms.len()
    &&& is_named(ms[k], n)
    &&& forall|i: int| 0 <= i < ms.len() && i != k ==> !is_named(#[trigger] ms[i], n)
}

/// At most one member of `ms` is named `n`.
pub open spec fn named_at_most_once(ms: Seq<JVal>, n: Seq<char>) -> bool {
    forall|i: int, i2: int|
        0 <= i < ms.len() && 0 <= i2 < ms.len() && is_named(#[trigger] ms[i], n) && is_named(#[trigger] ms[i2], n)
            ==> i == i2
}

/// A search for members named `n` that hold something finds the one member
/// named `n`, first and last, when it holds that, and nothing otherwise.
pub proof fn lemma_only_named_pick(ms: Seq<JVal>, n: Seq<char>, k: int, p: spec_fn(JVal) -> bool)
    requires
        only_named_at(ms, n, k),
        forall|i: int| 0 <= i < ms.len() && #[trigger] p(ms[i]) ==> is_named(ms[i], n),
    ensures
        p(ms[k]) ==> first_index(ms, p) == Some(k) && last_index(ms, p) == Some(k),
        !p(ms[k]) ==> first_index(ms, p) is None && last_index(ms, p) is None,
{
    assert forall|i: int| 0 <= i < ms.len() && i != k implies !#[trigger] p(ms[i]) by {
        if p(ms[i]) {
            assert(is_named(ms[i], n));
        }
    }
    if p(ms[k]) {
        lemma_first_is(ms, p, k);
        lemma_last_is(ms, p, k);
    } else {
        lemma_first_none(ms, p);
        lemma_last_none(ms, p);
    }
}

/// The upgrade record `uref` as a read of it shows it, when its one `name`
/// member is read through no record under `hero`: a change of the record under
/// `hero` alone does not change what it shows.
pub proof fn lemma_info_apart(j: JVal, j2: JVal, uref: Seq<char>, hero: Seq<char>, q: int, f: Seq<char>)
    requires
        forall|k: Seq<char>| k != hero ==> #[trigger] record(j2, k) == record(j, k),
        uref != hero,
        record(j, uref) is Object,
        members_of(record(j, uref)) is Some,
        only_named_at(members_of(record(j, uref)).unwrap(), "name"@, q),
        members_of(record(j, uref)).unwrap()[q].get("id"@).as_i64() matches Some(nid) ==> decimal(nid as int) != hero,
    ensures
        upgrade_info(j2, Some(uref), f) == upgrade_info(j, Some(uref), f),
{
    let ms = members_of(record(j, uref)).unwrap();
    assert(record(j2, uref) == record(j, uref));
    if let Some(nid) = ms[q].get("id"@).as_i64() {
        assert(record(j2, decimal(nid as int)) == record(j, decimal(nid as int)));
    }
    assert(info_name_source(j2, ms[q]) == info_name_source(j, ms[q]));
    lemma_only_named_pick(ms, "name"@, q, sets_info_name(j));
    lemma_only_named_pick(ms, "name"@, q, sets_info_name(j2));
}

/// A `level` member made anew is named `level` and holds the level.
pub proof fn lemma_level_member(level: i32)
    ensures
        is_named(member_obj("level"@, "Int32"@, JVal::Num(num_of_int(level as int))), "level"@),
        member_obj("level"@, "Int32"@, JVal::Num(num_of_int(level as int))).get("value"@) == JVal::Num(
            num_of_int(level as int),
        ),
{
    let m = member_obj("level"@, "Int32"@, JVal::Num(num_of_int(level as int)));
    reveal_strlit("name");
    reveal_strlit("type");
    reveal_strlit("value");
    assert("value"@ != "name"@) by {
        assert("value"@.len() != "name"@.len());
    }
    assert("value"@ != "type"@) by {
        assert("value"@[0] != "type"@[0]);
    }
    crate::json::lemma_find_key_is(m->Object_0, "name"@, 0);
    crate::json::lemma_find_key_is(m->Object_0, "value"@, 2);
}

/// Setting the level of an upgrade record whose one `name` member is at `q`
/// and that has at most one `level` member: only that record changes, its
/// `name` member stays, and its level reads back.
pub proof fn lemma_level_phase(j: JVal, uref: Seq<char>, level: i32, q: int)
    requires
        records_writable(j),
        record(j, uref) is Object,
        members_of(record(j, uref)) is Some,
        only_named_at(members_of(record(j, uref)).unwrap(), "name"@, q),
        named_at_most_once(members_of(record(j, uref)).unwrap(), "level"@),
    ensures
        ({
            let j3 = set_level(j, uref, level);
            let ms = members_of(record(j, uref)).unwrap();
            &&& records_writable(j3)
            &&& forall|k: Seq<char>| k != uref ==> #[trigger] record(j3, k) == record(j, k)
            &&& record(j3, uref) is Object
            &&& members_of(record(j3, uref)) is Some
            &&& members_of(record(j3, uref)).unwrap()[q] == ms[q]
            &&& only_named_at(members_of(record(j3, uref)).unwrap(), "name"@, q)
            &&& last_int_value(members_of(record(j3, uref)).unwrap(), "level"@) == Some(level as i64)
        }),
{
    let u = record(j, uref);
    lemma_writable(j, uref);
    let ms = members_of(u).unwrap();
    assert(u.has_key("members"@));
    let lv = JVal::Num(num_of_int(level as int));
    lemma_keys_differ();
    reveal_strlit("level");
    reveal_strlit("name");
    assert("level"@ != "name"@) by {
        assert("level"@.len() != "name"@.len());
    }
    lemma_first_facts(ms, named("level"@));
    let ms3 = match first_index(ms, named("level"@)) {
        Some(l) => ms.update(l, ms[l].set("value"@, lv)),
        None => ms.push(member_obj("level"@, "Int32"@, lv)),
    };
    let l = match first_index(ms, named("level"@)) {
        Some(l) => l,
        None => ms.len() as int,
    };
    let u3 = u.set("members"@, JVal::Array(ms3));
    let j3 = set_level(j, uref, level);
    assert(j3 == put_record(j, uref, u3));
    lemma_put_keeps_writable(j, uref, u3);
    assert forall|k: Seq<char>| k != uref implies #[trigger] record(j3, k) == record(j, k) by {
        lemma_put_other(j, uref, u3, k);
    }
    lemma_set_then_get(u, "members"@, JVal::Array(ms3));
    assert(members_of(record(j3, uref)) == Some(ms3));
    if let Some(l0) = first_index(ms, named("level"@)) {
        assert(ms[l0] is Object);
        lemma_set_then_get(ms[l0], "value"@, lv);
        lemma_member_value_kept(ms[l0], lv);
        assert(ms3[l0].get("name"@) == ms[l0].get("name"@));
    } else {
        lemma_level_member(level);
    }
    assert(l != q);
    assert(ms3[q] == ms[q]);
    assert(is_named(ms3[l], "level"@));
    assert(ms3[l].get("value"@) == lv);
    assert forall|i: int| 0 <= i < ms3.len() && i != q implies !is_named(#[trigger] ms3[i], "name"@) by {
        if i != l {
            assert(ms3[i] == ms[i]);
        }
    }
    assert forall|i: int| 0 <= i < ms3.len() && i != l implies !is_named(#[trigger] ms3[i], "level"@) by {
        assert(ms3[i] == ms[i]);
        if is_named(ms[i], "level"@) {
            assert(first_index(ms, named("level"@)) is Some);
        }
    }
    assert(only_named_at(ms3, "level"@, l));
    lemma_only_named_pick(ms3, "level"@, l, named_int_value("level"@));
}

/// How a change of name reads the upgrade record `uref`: through the string
/// record that its `name` member references, or in that member itself.
pub open spec fn renamed(j: JVal, uref: Seq<char>, name: Seq<char>) -> JVal {
    match ref_text(last_int_id(members_of(record(j, uref)).unwrap(), "name"@)) {
        Some(sid) => rename_name_record(j, sid, name),
        None => rename_upgrade(j, uref, name),
    }
}

/// An upgrade record plain to rename and to set the level of: one `name`
/// member, at most one `level` member, and a string record that member may
/// reference apart from the hero and the upgrade, and no object with members.
pub open spec fn plain_upgrade(j: JVal, hero: Seq<char>, uref: Seq<char>) -> bool {
    let ums = members_or_empty(record(j, uref));
    &&& uref != hero
    &&& exists|q: int| only_named_at(ums, "name"@, q)
    &&& named_at_most_once(ums, "level"@)
    &&& last_int_id(ums, "name"@) matches Some(nid) ==> {
        let sid = decimal(nid as int);
        &&& sid != hero
        &&& sid != uref
        &&& !(record(j, sid) is Object && members_of(record(j, sid)) is Some)
    }
}

/// Renaming a plain upgrade record: the hero's record stays, the upgrade
/// record keeps its one `name` member and its `level` members, and that
/// member now reads the new name.
pub proof fn lemma_rename_phase(j: JVal, hero: Seq<char>, uref: Seq<char>, name: Seq<char>, q: int)
    requires
        records_writable(j),
        record(j, uref) is Object,
        members_of(record(j, uref)) is Some,
        only_named_at(members_of(record(j, uref)).unwrap(), "name"@, q),
        plain_upgrade(j, hero, uref),
    ensures
        ({
            let j2 = renamed(j, uref, name);
            let ms = members_of(record(j, uref)).unwrap();
            &&& records_writable(j2)
            &&& record(j2, hero) == record(j, hero)
            &&& record(j2, uref) is Object
            &&& members_of(record(j2, uref)) is Some
            &&& only_named_at(members_of(record(j2, uref)).unwrap(), "name"@, q)
            &&& named_at_most_once(members_of(record(j2, uref)).unwrap(), "level"@)
            &&& members_of(record(j2, uref)).unwrap()[q].get("id"@) == ms[q].get("id"@)
            &&& info_name_source(j2, members_of(record(j2, uref)).unwrap()[q]) == Some(name)
        }),
{
    let u = record(j, uref);
    let ms = members_of(u).unwrap();
    lemma_writable(j, uref);
    lemma_keys_differ();
    lemma_only_named_pick(ms, "name"@, q, named_int_id("name"@));
    let j2 = renamed(j, uref, name);
    if let Some(nid) = last_int_id(ms, "name"@) {
        let sid = decimal(nid as int);
        let sr = record(j, sid);
        let r2 = if sr is Object {
            sr.insert("value"@, JVal::Str(name))
        } else {
            JVal::Str(name)
        };
        assert(j2 == put_record(j, sid, r2));
        lemma_put_keeps_writable(j, sid, r2);
        lemma_put_other(j, sid, r2, uref);
        lemma_put_other(j, sid, r2, hero);
        if sr is Object {
            lemma_set_then_get(sr, "value"@, JVal::Str(name));
            assert(r2 == sr.set("value"@, JVal::Str(name)));
        }
        assert(record_by_id(j2, nid as int) == r2);
    } else {
        assert(u.has_key("members"@));
        lemma_only_named_pick(ms, "name"@, q, named("name"@));
        let ms2 = ms.update(q, ms[q].set("value"@, JVal::Str(name)));
        let u2 = u.set("members"@, JVal::Array(ms2));
        assert(j2 == put_record(j, uref, u2));
        lemma_put_keeps_writable(j, uref, u2);
        lemma_put_other(j, uref, u2, hero);
        lemma_set_then_get(u, "members"@, JVal::Array(ms2));
        assert(ms[q] is Object);
        lemma_set_then_get(ms[q], "value"@, JVal::Str(name));
        lemma_member_value_kept(ms[q], JVal::Str(name));
        assert(members_of(record(j2, uref)) == Some(ms2));
        assert forall|i: int| 0 <= i < ms2.len() && i != q implies !is_named(#[trigger] ms2[i], "name"@) by {
            assert(ms2[i] == ms[i]);
        }
        assert forall|i: int, i2: int|
            0 <= i < ms2.len() && 0 <= i2 < ms2.len() && is_named(#[trigger] ms2[i], "level"@) && is_named(
                #[trigger] ms2[i2],
                "level"@,
            ) implies i == i2 by {
            reveal_strlit("level");
            reveal_strlit("name");
            assert("level"@ != "name"@) by {
                assert("level"@.len() != "name"@.len());
            }
            assert(ms2[i] == ms[i]);
            assert(ms2[i2] == ms[i2]);
        }
        assert(ms[q].get("id"@).as_i64() is None);
    }
}

/// Renaming a plain upgrade record and setting its level: the hero's record
/// stays, and the upgrade reads back with the new name and level.
pub proof fn lemma_name_level(j: JVal, hero: Seq<char>, uref: Seq<char>, name: Seq<char>, level: i32, f: Seq<char>)
    requires
        records_writable(j),
        record(j, uref) is Object,
        members_of(record(j, uref)) is Some,
        plain_upgrade(j, hero, uref),
    ensures
        ({
            let j3 = set_level(renamed(j, uref, name), uref, level);
            &&& records_writable(j3)
            &&& record(j3, hero) == record(j, hero)
            &&& upgrade_info(j3, Some(uref), f) == Some(
                UpgradeInfoView { name: name, level: level, record_id: uref, field_name: f },
            )
            &&& record(j3, uref) is Object
            &&& members_of(record(j3, uref)) is Some
            &&& exists|q: int|
                only_named_at(members_of(record(j3, uref)).unwrap(), "name"@, q) && (members_of(
                    record(j3, uref),
                ).unwrap()[q].get("id"@).as_i64() matches Some(nid) ==> decimal(nid as int) != hero)
        }),
{
    let ums = members_or_empty(record(j, uref));
    let q = choose|q: int| only_named_at(ums, "name"@, q);
    lemma_rename_phase(j, hero, uref, name, q);
    let j2 = renamed(j, uref, name);
    lemma_level_phase(j2, uref, level, q);
    let j3 = set_level(j2, uref, level);
    let ms2 = members_of(record(j2, uref)).unwrap();
    let ms3 = members_of(record(j3, uref)).unwrap();
    lemma_only_named_pick(ums, "name"@, q, named_int_id("name"@));
    if let Some(nid) = ms3[q].get("id"@).as_i64() {
        assert(record(j3, decimal(nid as int)) == record(j2, decimal(nid as int)));
        assert(decimal(nid as int) != hero);
    }
    assert(info_name_source(j3, ms3[q]) == Some(name));
    lemma_only_named_pick(ms3, "name"@, q, sets_info_name(j3));
    assert(info_name(j3, ms3) == name);
    assert(to_i32(last_int_value(ms3, "level"@)) == level);
}

/// The member keys a change of upgrade touches, told apart from its name.
pub proof fn lemma_member_keys_differ()
    ensures
        "type"@ != "name"@,
        "value"@ != "name"@,
        "id"@ != "name"@,
        "value"@ != "id"@,
{
    reveal_strlit("type");
    reveal_strlit("name");
    reveal_strlit("value");
    reveal_strlit("id");
    assert("type"@[0] != "name"@[0]);
    assert("value"@.len() != "name"@.len());
    assert("id"@.len() != "name"@.len());
    assert("value"@.len() != "id"@.len());
}

/// A cleared member keeps its name.
pub proof fn lemma_cleared_name(m: JVal)
    ensures
        cleared_member(m).get("name"@) == m.get("name"@),
{
    lemma_member_keys_differ();
    let a = m.set("type"@, JVal::Str("Null"@));
    let b = a.set("value"@, JVal::Null);
    if m.can_index_mut() {
        lemma_set_other(m, "type"@, JVal::Str("Null"@), "name"@);
        lemma_set_then_get(m, "type"@, JVal::Str("Null"@));
        lemma_set_other(a, "value"@, JVal::Null, "name"@);
    }
    lemma_remove_other(b, "id"@, "name"@);
}

/// A member made a reference keeps its name and, when it is an object, holds the id.
pub proof fn lemma_attached_member(m: JVal, id: i32)
    ensures
        attach_member(m, id).get("name"@) == m.get("name"@),
        m is Object ==> attach_member(m, id).get("id"@) == JVal::Num(num_of_int(id as int)),
{
    lemma_member_keys_differ();
    let v = JVal::Num(num_of_int(id as int));
    let a = m.insert("type"@, JVal::Str("Reference"@));
    let b = a.insert("id"@, v);
    if m is Object {
        assert(a == m.set("type"@, JVal::Str("Reference"@)));
        lemma_set_other(m, "type"@, JVal::Str("Reference"@), "name"@);
        lemma_set_then_get(m, "type"@, JVal::Str("Reference"@));
        assert(b == a.set("id"@, v));
        lemma_set_other(a, "id"@, v, "name"@);
        lemma_set_then_get(a, "id"@, v);
    }
    lemma_remove_other(b, "value"@, "name"@);
    lemma_remove_other(b, "value"@, "id"@);
}

/// A new upgrade record is plain: one `name` member, which references no
/// string record, and one `level` member.
pub proof fn lemma_new_upgrade_plain(j: JVal, hero: Seq<char>, uref: Seq<char>, ctid: u64, ctn: Seq<char>)
    requires
        record(j, uref) == upgrade_record(ctid, ctn, Seq::empty(), 0),
        uref != hero,
    ensures
        plain_upgrade(j, hero, uref),
        record(j, uref) is Object,
        members_of(record(j, uref)) is Some,
{
    reveal_strlit("name");
    reveal_strlit("level");
    reveal_strlit("members");
    reveal_strlit("class_type_id");
    reveal_strlit("class_type_name");
    reveal_strlit("type");
    reveal_strlit("value");
    reveal_strlit("id");
    let r = upgrade_record(ctid, ctn, Seq::empty(), 0);
    let m0 = member_obj("name"@, "String"@, JVal::Str(Seq::empty()));
    let m1 = member_obj("level"@, "Int32"@, JVal::Num(num_of_int(0)));
    let ms = seq![m0, m1];
    assert("members"@ != "class_type_id"@) by {
        assert("members"@.len() != "class_type_id"@.len());
    }
    assert("members"@ != "class_type_name"@) by {
        assert("members"@.len() != "class_type_name"@.len());
    }
    crate::json::lemma_find_key_is(r->Object_0, "members"@, 2);
    assert(members_of(r) == Some(ms));
    crate::json::lemma_find_key_is(m0->Object_0, "name"@, 0);
    crate::json::lemma_find_key_is(m1->Object_0, "name"@, 0);
    assert("level"@ != "name"@) by {
        assert("level"@.len() != "name"@.len());
    }
    assert(only_named_at(ms, "name"@, 0));
    assert forall|i: int| 0 <= i < ms.len() implies (#[trigger] ms[i]).get("id"@).as_i64() is None by {
        assert("id"@ != "name"@) by {
            assert("id"@.len() != "name"@.len());
        }
        assert("id"@ != "type"@) by {
            assert("id"@.len() != "type"@.len());
        }
        assert("id"@ != "value"@) by {
            assert("id"@.len() != "value"@.len());
        }
        crate::json::lemma_find_key_none(ms[i]->Object_0, "id"@);
    }
    lemma_only_named_pick(ms, "name"@, 0, named_int_id("name"@));
    assert(members_or_empty(record(j, uref)) == ms);
}

/// Giving a hero whose one member named `nt` references no upgrade a new
/// upgrade record: the record is stored under a new id, that member now
/// references it, and the hero's other members stay.
pub proof fn lemma_virtual_phase(j: JVal, hero: Seq<char>, nt: Seq<char>, k: int)
    requires
        records_writable(j),
        record(j, hero) is Object,
        members_of(record(j, hero)) is Some,
        only_named_at(members_of(record(j, hero)).unwrap(), nt, k),
        i32::MIN <= max_record_id(j) < i32::MAX,
    ensures
        ({
            let jv = add_virtual(j);
            let id = new_record_id(j);
            let j1 = put_record(jv, hero, attached(slot(jv, hero), nt, id));
            let uref = decimal(id as int);
            let ms = members_of(record(j, hero)).unwrap();
            &&& records_writable(j1)
            &&& record(j1, uref) is Object
            &&& members_of(record(j1, uref)) is Some
            &&& plain_upgrade(j1, hero, uref)
            &&& record(j1, hero) is Object
            &&& members_of(record(j1, hero)) is Some
            &&& members_of(record(j1, hero)).unwrap().len() == ms.len()
            &&& members_of(record(j1, hero)).unwrap()[k].get("name"@) == ms[k].get("name"@)
            &&& members_of(record(j1, hero)).unwrap()[k].get("id"@).as_i64() == Some(id as i64)
            &&& forall|i: int| 0 <= i < ms.len() && i != k ==> #[trigger] members_of(record(j1, hero)).unwrap()[i] == ms[i]
        }),
{
    let id = new_record_id(j);
    assert(id == max_record_id(j) + 1);
    let vkey = decimal(id as int);
    let (ctid, ctn) = new_record_class(j);
    let vr = virtual_record(ctid, ctn);
    if records(j).has_key(vkey) {
        lemma_record_id_bound(j, id as i64);
    }
    assert(records(j).has_key(hero));
    assert(hero != vkey);
    let ja = put_record(j, vkey, vr);
    lemma_put_keeps_writable(j, vkey, vr);
    lemma_put_other(j, vkey, vr, hero);
    reveal_strlit("records");
    reveal_strlit("record_metadata");
    reveal_strlit("record_order");
    assert("record_metadata"@ != "records"@) by {
        assert("record_metadata"@.len() != "records"@.len());
    }
    assert("record_order"@ != "records"@) by {
        assert("record_order"@.len() != "records"@.len());
    }
    let meta = crate::upgrade_edit::metadata_template(ja);
    let jb = if ja.get("record_metadata"@) is Object {
        ja.set("record_metadata"@, ja.get("record_metadata"@).insert(vkey, meta))
    } else {
        ja
    };
    if ja.get("record_metadata"@) is Object {
        lemma_set_keeps_records(ja, "record_metadata"@, ja.get("record_metadata"@).insert(vkey, meta));
    }
    let jv = add_virtual(j);
    if jb.get("record_order"@) is Array {
        lemma_set_keeps_records(jb, "record_order"@, jb.get("record_order"@).push(JVal::Num(num_of_int(id as int))));
    }
    assert(records(jv) == records(ja));
    let h = record(j, hero);
    let ms = members_of(h).unwrap();
    lemma_writable(jv, hero);
    assert(slot(jv, hero) == h);
    lemma_only_named_pick(ms, nt, k, named(nt));
    let ms1 = ms.update(k, attach_member(ms[k], id));
    let h1 = h.set("members"@, JVal::Array(ms1));
    assert(attached(h, nt, id) == h1);
    let j1 = put_record(jv, hero, h1);
    lemma_put_keeps_writable(jv, hero, h1);
    lemma_put_other(jv, hero, h1, vkey);
    lemma_set_then_get(h, "members"@, JVal::Array(ms1));
    assert(ms[k] is Object);
    lemma_attached_member(ms[k], id);
    assert(record(j1, vkey) == upgrade_record(ctid, ctn, Seq::empty(), 0));
    lemma_new_upgrade_plain(j1, hero, vkey, ctid, ctn);
}

/// Clearing a hero's skill changes only the hero's record, and in it only
/// members named `skillUpgrade`, which keep their names.
pub proof fn lemma_clear_phase(j: JVal, hero: Seq<char>)
    requires
        records_writable(j),
        record(j, hero) is Object,
        members_of(record(j, hero)) is Some,
    ensures
        ({
            let j4 = clear_field(j, hero, "skillUpgrade"@).0;
            let ms = members_of(record(j, hero)).unwrap();
            &&& forall|key: Seq<char>| key != hero ==> #[trigger] record(j4, key) == record(j, key)
            &&& record(j4, hero) is Object
            &&& members_of(record(j4, hero)) is Some
            &&& members_of(record(j4, hero)).unwrap().len() == ms.len()
            &&& forall|i: int|
                0 <= i < ms.len() ==> (#[trigger] members_of(record(j4, hero)).unwrap()[i] == ms[i] || (is_named(
                    ms[i],
                    "skillUpgrade"@,
                ) && members_of(record(j4, hero)).unwrap()[i].get("name"@) == ms[i].get("name"@)))
        }),
{
    let h = record(j, hero);
    let ms = members_of(h).unwrap();
    lemma_writable(j, hero);
    assert(slot(j, hero) == h);
    let j4 = clear_field(j, hero, "skillUpgrade"@).0;
    lemma_first_facts(ms, named("skillUpgrade"@));
    if let Some(i) = first_index(ms, named("skillUpgrade"@)) {
        let ms4 = ms.update(i, cleared_member(ms[i]));
        let h4 = h.set("members"@, JVal::Array(ms4));
        assert(j4 == put_record(j, hero, h4));
        lemma_put_keeps_writable(j, hero, h4);
        assert forall|key: Seq<char>| key != hero implies #[trigger] record(j4, key) == record(j, key) by {
            lemma_put_other(j, hero, h4, key);
        }
        lemma_set_then_get(h, "members"@, JVal::Array(ms4));
        lemma_cleared_name(ms[i]);
        assert(members_of(record(j4, hero)) == Some(ms4));
    } else {
        assert(j4 == put_record(j, hero, h));
        lemma_put_keeps_writable(j, hero, h);
        assert forall|key: Seq<char>| key != hero implies #[trigger] record(j4, key) == record(j, key) by {
            lemma_put_other(j, hero, h, key);
        }
    }
}

/// The fields of upgrades that a hero's details show.
pub open spec fn is_shown_field(nt: Seq<char>) -> bool {
    nt == "classUpgrade"@ || nt == "itemUpgrade"@ || nt == "traitUpgrade"@ || nt == "skillUpgrade"@ || nt
        == "upgrade"@
}

/// What a hero's details show of the upgrade of field `nt`.
pub open spec fn shown_field(v: HeroView, nt: Seq<char>) -> Option<UpgradeInfoView> {
    if nt == "classUpgrade"@ {
        v.class_info
    } else if nt == "itemUpgrade"@ {
        v.item_info
    } else if nt == "traitUpgrade"@ {
        v.trait_info
    } else if nt == "skillUpgrade"@ {
        v.skill_info
    } else if nt == "upgrade"@ {
        v.upgrade_info
    } else {
        None
    }
}

/// A hero plain to change the upgrade of field `nt` of: exactly one of its
/// members is named `nt`, and the upgrade record that member references by
/// an integer id, if any, is plain.
pub open spec fn plain_hero_field(j: JVal, hero: Seq<char>, nt: Seq<char>) -> bool {
    let ms = members_or_empty(record(j, hero));
    exists|k: int|
        only_named_at(ms, nt, k) && (ms[k].get("id"@).as_i64() matches Some(uid) ==> plain_upgrade(
            j,
            hero,
            decimal(uid as int),
        ))
}

/// A hero whose one member named `nt` references the upgrade record `uref`,
/// which reads `u`, shows `u` for that field.
pub proof fn lemma_shown(j: JVal, hero: Seq<char>, nt: Seq<char>, k: int, uid: i64, u: UpgradeInfoView)
    requires
        is_shown_field(nt),
        record(j, hero) is Object,
        members_of(record(j, hero)) is Some,
        only_named_at(members_of(record(j, hero)).unwrap(), nt, k),
        members_of(record(j, hero)).unwrap()[k].get("id"@).as_i64() == Some(uid),
        upgrade_info(j, Some(decimal(uid as int)), nt) == Some(u),
    ensures
        hero_view(j, hero) matches Ok(v) && shown_field(v, nt) == Some(u),
{
    reveal(hero_view);
    let ms = members_of(record(j, hero)).unwrap();
    lemma_only_named_pick(ms, nt, k, named_int_id(nt));
    assert(last_int_id(ms, nt) == Some(uid));
}

/// Changing the upgrade of a field that a hero's details show, on a hero plain
/// to change it, then reading the hero: the field shows the new name and level.
/// When a new upgrade record is made, its id is one past the largest as an
/// `i32`, so the largest id must leave room for it there.
pub proof fn law_upgrade_read_back(j: JVal, hero: Seq<char>, t: Seq<char>, name: Seq<char>, level: i32)
    requires
        is_shown_field(normalized_type(t)),
        plain_hero_field(j, hero, normalized_type(t)),
        crate::upgrade_edit::upgrade_ref_index(j, hero, normalized_type(t)) is None ==> i32::MIN <= max_record_id(
            j,
        ) < i32::MAX,
        modify_upgrade(j, hero, t, name, level).1 is Ok,
    ensures
        hero_view(modify_upgrade(j, hero, t, name, level).0, hero) matches Ok(v) && shown_field(
            v,
            normalized_type(t),
        ) matches Some(u) && u.name == name && u.level == level,
{
    let nt = normalized_type(t);
    let h = record(j, hero);
    let ms = members_of(h).unwrap();
    assert(records(j) is Object);
    assert(records_writable(j));
    let k = choose|k: int|
        only_named_at(ms, nt, k) && (ms[k].get("id"@).as_i64() matches Some(uid) ==> plain_upgrade(
            j,
            hero,
            decimal(uid as int),
        ));
    reveal_strlit("classUpgrade");
    reveal_strlit("itemUpgrade");
    reveal_strlit("traitUpgrade");
    reveal_strlit("skillUpgrade");
    reveal_strlit("upgrade");
    assert(nt.len() > 0);
    assert forall|i: int| 0 <= i < ms.len() && #[trigger] ref_member(nt)(ms[i]) implies is_named(ms[i], nt) by {}
    lemma_only_named_pick(ms, nt, k, ref_member(nt));
    let (j1, uref) = match first_index(ms, ref_member(nt)) {
        Some(i) => (j, decimal(ms[i].get("id"@).as_i64().unwrap() as int)),
        None => {
            let jv = add_virtual(j);
            let id = new_record_id(j);
            (put_record(jv, hero, attached(slot(jv, hero), nt, id)), decimal(id as int))
        },
    };
    let uid: i64 = match first_index(ms, ref_member(nt)) {
        Some(i) => ms[i].get("id"@).as_i64().unwrap(),
        None => new_record_id(j) as i64,
    };
    assert(uref == decimal(uid as int));
    if first_index(ms, ref_member(nt)) is None {
        lemma_virtual_phase(j, hero, nt, k);
    }
    let ms1 = members_of(record(j1, hero)).unwrap();
    assert(only_named_at(ms1, nt, k)) by {
        assert forall|i: int| 0 <= i < ms1.len() && i != k implies !is_named(#[trigger] ms1[i], nt) by {
            assert(ms1[i] == ms[i]);
        }
    }
    assert(ms1[k].get("id"@).as_i64() == Some(uid));
    lemma_name_level(j1, hero, uref, name, level, nt);
    let j3 = set_level(renamed(j1, uref, name), uref, level);
    let jr = modify_upgrade(j, hero, t, name, level).0;
    let info = UpgradeInfoView { name: name, level: level, record_id: uref, field_name: nt };
    if nt == "classUpgrade"@ && crate::hero_edit::members_present(j3, hero) {
        assert(jr == clear_field(j3, hero, "skillUpgrade"@).0);
        lemma_clear_phase(j3, hero);
        let q = choose|q: int|
            only_named_at(members_of(record(j3, uref)).unwrap(), "name"@, q) && (members_of(
                record(j3, uref),
            ).unwrap()[q].get("id"@).as_i64() matches Some(nid) ==> decimal(nid as int) != hero);
        lemma_info_apart(j3, jr, uref, hero, q, nt);
        let ms4 = members_of(record(jr, hero)).unwrap();
        assert("classUpgrade"@ != "skillUpgrade"@) by {
            assert("classUpgrade"@[0] != "skillUpgrade"@[0]);
        }
        assert(ms4[k] == ms1[k]);
        assert forall|i: int| 0 <= i < ms4.len() && i != k implies !is_named(#[trigger] ms4[i], nt) by {
            assert(ms4[i].get("name"@) == ms1[i].get("name"@));
        }
        lemma_shown(jr, hero, nt, k, uid, info);
    } else {
        assert(jr == j3);
        lemma_shown(jr, hero, nt, k, uid, info);
    }
}

/// Clearing the upgrade of a field that a hero's details show, on a hero with
/// at most one member named after that field, which holds its `id` in one
/// entry, then reading the hero: the field shows no upgrade.
pub proof fn law_clear_read_back(j: JVal, hero: Seq<char>, t: Seq<char>)
    requires
        records_writable(j),
        is_shown_field(normalized_type(t)),
        named_at_most_once(members_or_empty(record(j, hero)), normalized_type(t)),
        forall|i: int|
            0 <= i < members_or_empty(record(j, hero)).len() && is_named(
                #[trigger] members_or_empty(record(j, hero))[i],
                normalized_type(t),
            ) ==> key_once(members_or_empty(record(j, hero))[i], "id"@),
        clear_field(j, hero, normalized_type(t)).1 is Ok,
    ensures
        hero_view(clear_field(j, hero, normalized_type(t)).0, hero) matches Ok(v) && shown_field(
            v,
            normalized_type(t),
        ) is None,
{
    reveal(hero_view);
    let nt = normalized_type(t);
    lemma_writable(j, hero);
    let h = record(j, hero);
    let ms = members_of(h).unwrap();
    let j2 = clear_field(j, hero, nt).0;
    lemma_first_facts(ms, named(nt));
    lemma_member_keys_differ();
    reveal_strlit("type");
    reveal_strlit("id");
    assert("type"@ != "id"@) by {
        assert("type"@.len() != "id"@.len());
    }
    let ms2 = match first_index(ms, named(nt)) {
        Some(k) => ms.update(k, cleared_member(ms[k])),
        None => ms,
    };
    if let Some(k) = first_index(ms, named(nt)) {
        let h2 = h.set("members"@, JVal::Array(ms2));
        assert(j2 == put_record(j, hero, h2));
        lemma_put_keeps_writable(j, hero, h2);
        lemma_set_then_get(h, "members"@, JVal::Array(ms2));
        let m = ms[k];
        let a = m.set("type"@, JVal::Str("Null"@));
        let b = a.set("value"@, JVal::Null);
        assert(key_once(m, "id"@));
        lemma_set_key_once(m, "type"@, JVal::Str("Null"@), "id"@);
        lemma_set_key_once(a, "value"@, JVal::Null, "id"@);
        lemma_remove_once(b, "id"@);
        assert(cleared_member(m).get("id"@) == JVal::Null);
    } else {
        assert(j2 == put_record(j, hero, h));
        lemma_put_keeps_writable(j, hero, h);
    }
    assert(members_of(record(j2, hero)) == Some(ms2));
    assert forall|i: int| 0 <= i < ms2.len() implies !#[trigger] named_int_id(nt)(ms2[i]) by {
        if let Some(k) = first_index(ms, named(nt)) {
            if i != k {
                assert(ms2[i] == ms[i]);
                if is_named(ms[i], nt) {
                    assert(is_named(ms[k], nt));
                }
            }
        } else {
            assert(!named(nt)(ms[i]));
        }
    }
    lemma_last_none(ms2, named_int_id(nt));
}

/// A hero plain to name the skill of: exactly one member is named
/// `skillUpgrade`, it references a record other than the hero's by an integer
/// id, and that record has exactly one `name` member, which carries its name
/// itself rather than through a string record.
pub open spec fn plain_skill(j: JVal, hero: Seq<char>) -> bool {
    let ms = members_or_empty(record(j, hero));
    exists|k: int| #[trigger] only_named_at(ms, "skillUpgrade"@, k) && plain_skill_ref(j, hero, ms[k])
}

/// A member that references, by an integer id, a record other than the
/// hero's with exactly one `name` member, which carries its name itself.
pub open spec fn plain_skill_ref(j: JVal, hero: Seq<char>, m: JVal) -> bool {
    match m.get("id"@).as_i64() {
        Some(uid) => {
            let sr = record(j, decimal(uid as int));
            &&& decimal(uid as int) != hero
            &&& sr is Object
            &&& members_of(sr) is Some
            &&& exists|q: int|
                #[trigger] only_named_at(members_of(sr).unwrap(), "name"@, q) && members_of(sr).unwrap()[q].get(
                    "id"@,
                ).as_i64() is None
        },
        None => false,
    }
}

/// Naming the skill of a hero after its class, on a hero plain to name the
/// skill of, then reading the hero: the skill shows the class's skill.
pub proof fn law_class_skill_read_back(j: JVal, hero: Seq<char>, class_code: Seq<char>)
    requires
        records_writable(j),
        plain_skill(j, hero),
        sync_skill(j, hero, class_code).1 is Ok,
    ensures
        hero_view(sync_skill(j, hero, class_code).0, hero) matches Ok(v) && v.skill_info matches Some(u)
            && Some(u.name) == class_skill(class_code),
{
    let skill = class_skill(class_code).unwrap();
    let h = record(j, hero);
    lemma_writable(j, hero);
    let ms = members_of(h).unwrap();
    let k = choose|k: int| #[trigger] only_named_at(ms, "skillUpgrade"@, k) && plain_skill_ref(j, hero, ms[k]);
    let uid = ms[k].get("id"@).as_i64().unwrap();
    let sid = decimal(uid as int);
    let sr = record(j, sid);
    let sms = members_of(sr).unwrap();
    let q = choose|q: int| #[trigger] only_named_at(sms, "name"@, q) && sms[q].get("id"@).as_i64() is None;
    lemma_only_named_pick(ms, "skillUpgrade"@, k, named_int_id("skillUpgrade"@));
    let j2 = put_record(j, hero, h);
    lemma_put_keeps_writable(j, hero, h);
    lemma_put_other(j, hero, h, sid);
    lemma_writable(j2, sid);
    assert(slot(j2, sid) == sr);
    lemma_only_named_pick(sms, "name"@, q, named("name"@));
    let sms2 = sms.update(q, sms[q].set("value"@, JVal::Str(skill)));
    let sr2 = sr.set("members"@, JVal::Array(sms2));
    let out = sync_skill(j, hero, class_code).0;
    assert(out == put_record(j2, sid, sr2));
    lemma_put_keeps_writable(j2, sid, sr2);
    lemma_put_other(j2, sid, sr2, hero);
    lemma_set_then_get(sr, "members"@, JVal::Array(sms2));
    assert(sms[q] is Object);
    lemma_set_then_get(sms[q], "value"@, JVal::Str(skill));
    lemma_member_value_kept(sms[q], JVal::Str(skill));
    assert(members_of(record(out, sid)) == Some(sms2));
    assert forall|i: int| 0 <= i < sms2.len() && i != q implies !is_named(#[trigger] sms2[i], "name"@) by {
        assert(sms2[i] == sms[i]);
    }
    assert(only_named_at(sms2, "name"@, q));
    assert(info_name_source(out, sms2[q]) == Some(skill));
    lemma_only_named_pick(sms2, "name"@, q, sets_info_name(out));
    assert(record(out, hero) == h);
    let info = UpgradeInfoView {
        name: skill,
        level: to_i32(last_int_value(sms2, "level"@)),
        record_id: sid,
        field_name: "skillUpgrade"@,
    };
    reveal_strlit("skillUpgrade");
    reveal_strlit("classUpgrade");
    reveal_strlit("itemUpgrade");
    reveal_strlit("traitUpgrade");
    assert(is_shown_field("skillUpgrade"@));
    lemma_shown(out, hero, "skillUpgrade"@, k, uid, info);
    assert("skillUpgrade"@ != "classUpgrade"@) by {
        assert("skillUpgrade"@[0] != "classUpgrade"@[0]);
    }
    assert("skillUpgrade"@ != "itemUpgrade"@) by {
        assert("skillUpgrade"@[0] != "itemUpgrade"@[0]);
    }
    assert("skillUpgrade"@ != "traitUpgrade"@) by {
        assert("skillUpgrade"@[0] != "traitUpgrade"@[0]);
    }
}

/// Every spelling of an upgrade field acts as its normalized form: changing
/// the upgrade of field `t` is accepted on the same documents, and does the
/// same, as changing that of field `normalized_type(t)`.
pub proof fn law_upgrade_any_spelling(j: JVal, hero: Seq<char>, t: Seq<char>, name: Seq<char>, level: i32)
    ensures
        modify_ok(j, hero, t) == modify_ok(j, hero, normalized_type(t)),
        modify_upgrade(j, hero, t, name, level) == modify_upgrade(j, hero, normalized_type(t), name, level),
{
    crate::laws::law_normalize_idempotent(t);
}

} // verus!
