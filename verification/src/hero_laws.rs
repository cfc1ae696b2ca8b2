//! What the list of recruited heroes holds, and what changing one upgrade of a
//! hero leaves alone.
use vstd::prelude::*;
use crate::hero::{
    hero_view, is_hero_entry, is_recruited, members_or_empty, recruited_heroes, recruited_list,
};
use crate::hero_edit::{member_obj, put_record, slot};
use crate::json::{JVal, lemma_find_key_is, lemma_set_other, lemma_set_then_get, num_of_int};
use crate::save_manager::normalized_type;
use crate::save_model::{
    class_type_name, is_named, lemma_record_id_bound, max_record_id, members_of, named, record, records,
};
use crate::search::{first_index, lemma_first_facts, lemma_last_facts};
use crate::text::{decimal, has_substring};
use crate::upgrade_edit::{
    add_virtual, attach_member, attached, lemma_put_keeps_writable, lemma_put_other, lemma_set_keeps_records,
    lemma_writable, modify_upgrade, new_record_class, new_record_id, records_writable, ref_member,
    rename_name_record, rename_upgrade, set_level, upgrade_ref_index, virtual_record,
};
use crate::upgrade_laws::{lemma_attached_member, lemma_member_keys_differ};

verus! {

/// A record whose last member named `recruited` has the value `true`.
pub open spec fn marked_recruited(r: JVal) -> bool {
    let ms = members_or_empty(r);
    exists|m: int|
        0 <= m < ms.len() && (#[trigger] ms[m]).get("name"@) == JVal::Str("recruited"@) && ms[m].get("value"@)
            == JVal::Bool(true) && forall|k: int|
            m < k < ms.len() ==> (#[trigger] ms[k]).get("name"@) != JVal::Str("recruited"@)
}

/// A hero's details carry the key they were read under.
proof fn reveal_hero_key(j: JVal, hero: Seq<char>)
    requires
        hero_view(j, hero) is Ok,
    ensures
        hero_view(j, hero)->Ok_0.key == hero,
{
    reveal(hero_view);
}

/// Every hero listed from the records `es` stands for one of them: a record
/// under the hero's key whose class is a `HeroDefinition` and which is marked
/// recruited.
proof fn lemma_listed_from(j: JVal, es: Seq<(Seq<char>, JVal)>, i: int)
    requires
        0 <= i < recruited_heroes(j, es).len(),
    ensures
        exists|k: int|
            0 <= k < es.len() && (#[trigger] es[k]).0 == recruited_heroes(j, es)[i].key && has_substring(
                class_type_name(es[k].1),
                "HeroDefinition"@,
            ) && marked_recruited(es[k].1),
    decreases es.len(),
{
    let prev = recruited_heroes(j, es.drop_last());
    let e = es.last();
    if i < prev.len() {
        lemma_listed_from(j, es.drop_last(), i);
        let k = choose|k: int|
            0 <= k < es.drop_last().len() && (#[trigger] es.drop_last()[k]).0 == prev[i].key && has_substring(
                class_type_name(es.drop_last()[k].1),
                "HeroDefinition"@,
            ) && marked_recruited(es.drop_last()[k].1);
        assert(es[k] == es.drop_last()[k]);
    } else {
        let k = es.len() - 1;
        assert(es[k] == e);
        assert(is_hero_entry(e) && is_recruited(e.1));
        let ms = members_or_empty(e.1);
        lemma_last_facts(ms, named("recruited"@));
        let m = crate::search::last_index(ms, named("recruited"@)).unwrap();
        assert(ms[m].get("name"@) == JVal::Str("recruited"@));
        assert(ms[m].get("value"@) == JVal::Bool(true));
        assert forall|q: int| m < q < ms.len() implies (#[trigger] ms[q]).get("name"@) != JVal::Str("recruited"@) by {
            assert(!named("recruited"@)(ms[q]));
        }
        assert(marked_recruited(e.1));
        assert(hero_view(j, e.0) is Ok);
        assert(recruited_heroes(j, es)[i] == hero_view(j, e.0)->Ok_0);
        reveal_hero_key(j, e.0);
    }
}

/// Every hero in the list of recruited heroes comes from a record under its
/// key whose class is a `HeroDefinition` and whose last `recruited` member is
/// `true`: a hero whose record says it is not recruited is never listed.
pub proof fn law_listed_heroes_are_recruited(j: JVal, i: int)
    requires
        recruited_list(j) is Ok,
        0 <= i < recruited_list(j)->Ok_0.len(),
    ensures
        exists|k: int|
            0 <= k < records(j).as_object().unwrap().len() && (#[trigger] records(j).as_object().unwrap()[k]).0
                == recruited_list(j)->Ok_0[i].key && has_substring(
                class_type_name(records(j).as_object().unwrap()[k].1),
                "HeroDefinition"@,
            ) && marked_recruited(records(j).as_object().unwrap()[k].1),
{
    lemma_listed_from(j, records(j).as_object().unwrap(), i);
}

/// Every record of `es` that is a `HeroDefinition` marked recruited, and
/// whose details can be read, has its hero listed.
proof fn lemma_recruited_listed(j: JVal, es: Seq<(Seq<char>, JVal)>, k: int)
    requires
        0 <= k < es.len(),
        has_substring(class_type_name(es[k].1), "HeroDefinition"@),
        marked_recruited(es[k].1),
        hero_view(j, es[k].0) is Ok,
    ensures
        exists|i: int| 0 <= i < recruited_heroes(j, es).len() && (#[trigger] recruited_heroes(j, es)[i]).key == es[k].0,
    decreases es.len(),
{
    let prev = recruited_heroes(j, es.drop_last());
    if k < es.len() - 1 {
        assert(es.drop_last()[k] == es[k]);
        lemma_recruited_listed(j, es.drop_last(), k);
        let i = choose|i: int| 0 <= i < prev.len() && (#[trigger] prev[i]).key == es[k].0;
        assert(recruited_heroes(j, es)[i] == prev[i]);
    } else {
        let e = es.last();
        let ms = members_or_empty(e.1);
        let m = choose|m: int|
            0 <= m < ms.len() && (#[trigger] ms[m]).get("name"@) == JVal::Str("recruited"@) && ms[m].get("value"@)
                == JVal::Bool(true) && forall|q: int| m < q < ms.len() ==> (#[trigger] ms[q]).get("name"@) != JVal::Str("recruited"@);
        assert(crate::search::is_last(ms, named("recruited"@), m));
        lemma_last_facts(ms, named("recruited"@));
        let l = crate::search::last_index(ms, named("recruited"@)).unwrap();
        if l != m {
            assert(crate::search::is_last(ms, named("recruited"@), l));
            if l < m {
                assert(!named("recruited"@)(ms[m]));
            } else {
                assert(!named("recruited"@)(ms[l]));
            }
        }
        assert(is_recruited(e.1));
        assert(is_hero_entry(e));
        reveal_hero_key(j, e.0);
        assert(recruited_heroes(j, es)[prev.len() as int] == hero_view(j, e.0)->Ok_0);
    }
}

/// Every hero record that is a `HeroDefinition` whose last `recruited` member
/// is `true`, and whose details can be read, is in the list of recruited heroes.
pub proof fn law_recruited_heroes_are_listed(j: JVal, k: int)
    requires
        records(j).as_object() is Some,
        0 <= k < records(j).as_object().unwrap().len(),
        has_substring(class_type_name(records(j).as_object().unwrap()[k].1), "HeroDefinition"@),
        marked_recruited(records(j).as_object().unwrap()[k].1),
        hero_view(j, records(j).as_object().unwrap()[k].0) is Ok,
    ensures
        exists|i: int|
            0 <= i < recruited_list(j)->Ok_0.len() && (#[trigger] recruited_list(j)->Ok_0[i]).key
                == records(j).as_object().unwrap()[k].0,
{
    let es = records(j).as_object().unwrap();
    lemma_recruited_listed(j, es, k);
    assert(recruited_list(j)->Ok_0 == recruited_heroes(j, es));
    let i = choose|i: int| 0 <= i < recruited_heroes(j, es).len() && (#[trigger] recruited_heroes(j, es)[i]).key == es[k].0;
    assert(recruited_list(j)->Ok_0[i].key == es[k].0);
}

/// The `skillUpgrade` members of record `r1` are those of `r0`, where they
/// were: none is changed, none comes and none goes.
pub open spec fn skill_members_kept(r0: JVal, r1: JVal) -> bool {
    let a = members_or_empty(r0);
    let b = members_or_empty(r1);
    &&& a.len() <= b.len()
    &&& forall|i: int| 0 <= i < a.len() && is_named(#[trigger] a[i], "skillUpgrade"@) ==> b[i] == a[i]
    &&& forall|i: int|
        0 <= i < b.len() && is_named(#[trigger] b[i], "skillUpgrade"@) ==> i < a.len() && b[i] == a[i]
}

proof fn lemma_kept_trans(r0: JVal, r1: JVal, r2: JVal)
    requires
        skill_members_kept(r0, r1),
        skill_members_kept(r1, r2),
    ensures
        skill_members_kept(r0, r2),
{
    let a = members_or_empty(r0);
    let b = members_or_empty(r1);
    let c = members_or_empty(r2);
    assert forall|i: int| 0 <= i < a.len() && is_named(#[trigger] a[i], "skillUpgrade"@) implies c[i] == a[i] by {
        assert(b[i] == a[i]);
    }
    assert forall|i: int| 0 <= i < c.len() && is_named(#[trigger] c[i], "skillUpgrade"@) implies i < a.len() && c[i]
        == a[i] by {
        assert(c[i] == b[i]);
        assert(is_named(b[i], "skillUpgrade"@));
    }
}

/// Replacing one member that is not a `skillUpgrade` member by another that
/// is not, or adding one that is not, keeps the `skillUpgrade` members.
proof fn lemma_members_edit(r: JVal, s: Seq<JVal>)
    requires
        r is Object,
        members_of(r) is Some,
        members_of(r).unwrap().len() <= s.len(),
        forall|i: int|
            0 <= i < members_of(r).unwrap().len() && #[trigger] s[i] != members_of(r).unwrap()[i] ==> !is_named(
                members_of(r).unwrap()[i],
                "skillUpgrade"@,
            ) && !is_named(s[i], "skillUpgrade"@),
        forall|i: int| members_of(r).unwrap().len() <= i < s.len() ==> !is_named(#[trigger] s[i], "skillUpgrade"@),
    ensures
        skill_members_kept(r, r.set("members"@, JVal::Array(s))),
        r.set("members"@, JVal::Array(s)) is Object,
        members_of(r.set("members"@, JVal::Array(s))) == Some(s),
{
    lemma_set_then_get(r, "members"@, JVal::Array(s));
}

/// Names that are not `skillUpgrade`.
proof fn lemma_other_names()
    ensures
        "value"@ != "skillUpgrade"@,
        "name"@ != "skillUpgrade"@,
        "level"@ != "skillUpgrade"@,
{
    reveal_strlit("value");
    reveal_strlit("name");
    reveal_strlit("level");
    reveal_strlit("skillUpgrade");
    assert("value"@.len() != "skillUpgrade"@.len());
    assert("name"@.len() != "skillUpgrade"@.len());
    assert("level"@.len() != "skillUpgrade"@.len());
}

/// A member whose `value` is set keeps its name.
proof fn lemma_value_set_name(m: JVal, v: JVal)
    requires
        m is Object,
    ensures
        m.set("value"@, v).get("name"@) == m.get("name"@),
{
    lemma_member_keys_differ();
    lemma_set_other(m, "value"@, v, "name"@);
}

/// Storing under `key` a record whose `skillUpgrade` members are those the
/// hero's record had, when `key` is the hero's: the hero's record keeps them.
proof fn lemma_put_keeps_skill(j: JVal, key: Seq<char>, r: JVal, hero: Seq<char>)
    requires
        records_writable(j),
        key == hero ==> skill_members_kept(record(j, hero), r) && r is Object && members_of(r) is Some,
    ensures
        records_writable(put_record(j, key, r)),
        skill_members_kept(record(j, hero), record(put_record(j, key, r), hero)),
        record(j, hero) is Object && members_of(record(j, hero)) is Some ==> record(put_record(j, key, r), hero) is Object
            && members_of(record(put_record(j, key, r), hero)) is Some,
{
    lemma_put_keeps_writable(j, key, r);
    if key != hero {
        lemma_put_other(j, key, r, hero);
    }
}

/// A new upgrade record goes under a key that no record had, so the hero's
/// record stays as it was.
proof fn lemma_add_virtual_keeps(j: JVal, hero: Seq<char>)
    requires
        records_writable(j),
        records(j).has_key(hero),
        i32::MIN <= max_record_id(j) < i32::MAX,
    ensures
        records_writable(add_virtual(j)),
        record(add_virtual(j), hero) == record(j, hero),
{
    let id = new_record_id(j);
    assert(id == max_record_id(j) + 1);
    let vkey = decimal(id as int);
    let (ctid, ctn) = new_record_class(j);
    let vr = virtual_record(ctid, ctn);
    if records(j).has_key(vkey) {
        lemma_record_id_bound(j, id as i64);
    }
    assert(hero != vkey);
    let ja = put_record(j, vkey, vr);
    lemma_put_keeps_writable(j, vkey, vr);
    lemma_put_other(j, vkey, vr, hero);
    reveal_strlit("records");
    reveal_strlit("record_metadata");
    reveal_strlit("record_order");
    assert("record_metadata"@ != "records"@) by {
        assert("record_metadata"@.len() != "records"@.len());
    }
    assert("record_order"@ != "records"@) by {
        assert("record_order"@.len() != "records"@.len());
    }
    let meta = crate::upgrade_edit::metadata_template(ja);
    let jb = if ja.get("record_metadata"@) is Object {
        ja.set("record_metadata"@, ja.get("record_metadata"@).insert(vkey, meta))
    } else {
        ja
    };
    if ja.get("record_metadata"@) is Object {
        lemma_set_keeps_records(ja, "record_metadata"@, ja.get("record_metadata"@).insert(vkey, meta));
    }
    if jb.get("record_order"@) is Array {
        lemma_set_keeps_records(jb, "record_order"@, jb.get("record_order"@).push(JVal::Num(num_of_int(id as int))));
    }
}

/// Pointing the hero's first member named `nt` at a new record keeps its
/// `skillUpgrade` members when `nt` is another field.
proof fn lemma_attached_keeps(h: JVal, nt: Seq<char>, id: i32)
    requires
        h is Object,
        members_of(h) is Some,
        nt != "skillUpgrade"@,
    ensures
        skill_members_kept(h, attached(h, nt, id)),
        attached(h, nt, id) is Object,
        members_of(attached(h, nt, id)) is Some,
{
    let ms = members_of(h).unwrap();
    lemma_first_facts(ms, named(nt));
    match first_index(ms, named(nt)) {
        Some(k) => {
            let s = ms.update(k, attach_member(ms[k], id));
            lemma_attached_member(ms[k], id);
            assert(is_named(ms[k], nt));
            lemma_members_edit(h, s);
        },
        None => {},
    }
}

/// Renaming the string record `sid` keeps the hero's `skillUpgrade` members.
proof fn lemma_rename_name_keeps(j: JVal, sid: Seq<char>, name: Seq<char>, hero: Seq<char>)
    requires
        records_writable(j),
        record(j, hero) is Object,
        members_of(record(j, hero)) is Some,
    ensures
        records_writable(rename_name_record(j, sid, name)),
        skill_members_kept(record(j, hero), record(rename_name_record(j, sid, name), hero)),
        record(rename_name_record(j, sid, name), hero) is Object,
        members_of(record(rename_name_record(j, sid, name), hero)) is Some,
{
    let sr = record(j, sid);
    lemma_other_names();
    if sid == hero {
        let sms = members_of(sr).unwrap();
        lemma_first_facts(sms, named("value"@));
        match first_index(sms, named("value"@)) {
            Some(k) => {
                let s = sms.update(k, sms[k].set("value"@, JVal::Str(name)));
                if !(sms[k] is Object) {
                    assert(sms[k].get("name"@) == JVal::Null);
                }
                if sms[k] is Object {
                    lemma_value_set_name(sms[k], JVal::Str(name));
                }
                lemma_members_edit(sr, s);
                lemma_put_keeps_skill(j, sid, sr.set("members"@, JVal::Array(s)), hero);
            },
            None => {
                lemma_members_edit(sr, sms);
                lemma_put_keeps_skill(j, sid, sr, hero);
            },
        }
    } else {
        let r2 = if sr is Object {
            match members_of(sr) {
                Some(sms) => match first_index(sms, named("value"@)) {
                    Some(k) => sr.set("members"@, JVal::Array(sms.update(k, sms[k].set("value"@, JVal::Str(name))))),
                    None => sr,
                },
                None => sr.insert("value"@, JVal::Str(name)),
            }
        } else {
            JVal::Str(name)
        };
        lemma_put_keeps_skill(j, sid, r2, hero);
    }
}

/// Editing the member named `n` (not `skillUpgrade`) of record `uref`, as
/// renaming an upgrade and setting its level do, keeps the hero's
/// `skillUpgrade` members.
proof fn lemma_named_edit_keeps(j: JVal, uref: Seq<char>, n: Seq<char>, v: JVal, hero: Seq<char>, grow: bool)
    requires
        records_writable(j),
        record(j, hero) is Object,
        members_of(record(j, hero)) is Some,
        n != "skillUpgrade"@,
        grow ==> n == "level"@,
    ensures
        ({
            let u = slot(j, uref);
            let j2 = if u is Object && u.has_key("members"@) && members_of(u) is Some {
                let ums = members_of(u).unwrap();
                match first_index(ums, named(n)) {
                    Some(k) => crate::hero_edit::put_members(j, uref, ums.update(k, ums[k].set("value"@, v))),
                    None => if grow {
                        crate::hero_edit::put_members(j, uref, ums.push(member_obj("level"@, "Int32"@, v)))
                    } else {
                        put_record(j, uref, u)
                    },
                }
            } else {
                put_record(j, uref, u)
            };
            &&& records_writable(j2)
            &&& skill_members_kept(record(j, hero), record(j2, hero))
            &&& record(j2, hero) is Object
            &&& members_of(record(j2, hero)) is Some
        }),
{
    lemma_writable(j, uref);
    let u = slot(j, uref);
    lemma_other_names();
    if u is Object && u.has_key("members"@) && members_of(u) is Some && uref == hero {
        let ums = members_of(u).unwrap();
        lemma_first_facts(ums, named(n));
        match first_index(ums, named(n)) {
            Some(k) => {
                let s = ums.update(k, ums[k].set("value"@, v));
                if ums[k] is Object {
                    lemma_value_set_name(ums[k], v);
                }
                lemma_members_edit(u, s);
                lemma_put_keeps_skill(j, uref, u.set("members"@, JVal::Array(s)), hero);
            },
            None => {
                if grow {
                    let x = member_obj("level"@, "Int32"@, v);
                    lemma_find_key_is(x->Object_0, "name"@, 0);
                    let s = ums.push(x);
                    assert(s[ums.len() as int] == x);
                    lemma_members_edit(u, s);
                    lemma_put_keeps_skill(j, uref, u.set("members"@, JVal::Array(s)), hero);
                } else {
                    lemma_members_edit(u, ums);
                    lemma_put_keeps_skill(j, uref, u, hero);
                }
            },
        }
    } else if u is Object && u.has_key("members"@) && members_of(u) is Some {
        let ums = members_of(u).unwrap();
        match first_index(ums, named(n)) {
            Some(k) => {
                lemma_put_keeps_skill(j, uref, slot(j, uref).set("members"@, JVal::Array(ums.update(k, ums[k].set("value"@, v)))), hero);
            },
            None => {
                if grow {
                    lemma_put_keeps_skill(j, uref, slot(j, uref).set("members"@, JVal::Array(ums.push(member_obj("level"@, "Int32"@, v)))), hero);
                } else {
                    lemma_put_keeps_skill(j, uref, u, hero);
                }
            },
        }
    } else {
        if uref == hero {
            lemma_members_edit(u, members_of(u).unwrap());
        }
        lemma_put_keeps_skill(j, uref, u, hero);
    }
}

/// Changing the upgrade of any field of a hero but its class and its skill
/// leaves every `skillUpgrade` member of the hero where and as it was: the
/// hero keeps its skill. (Where a new upgrade record is made, its id must not
/// wrap past the `i32` ids, or the new record could take the hero's key.)
#[verifier::rlimit(100)]
pub proof fn law_other_upgrades_keep_skill(j: JVal, hero: Seq<char>, t: Seq<char>, name: Seq<char>, level: i32)
    requires
        normalized_type(t) != "classUpgrade"@,
        normalized_type(t) != "skillUpgrade"@,
        record(j, hero) is Object && members_of(record(j, hero)) is Some && upgrade_ref_index(
            j,
            hero,
            normalized_type(t),
        ) is None ==> i32::MIN <= max_record_id(j) < i32::MAX,
    ensures
        skill_members_kept(record(j, hero), record(modify_upgrade(j, hero, t, name, level).0, hero)),
{
    let nt = normalized_type(t);
    let h = record(j, hero);
    if !(h is Object) || members_of(h) is None {
        return;
    }
    assert(records_writable(j));
    let ms = members_of(h).unwrap();
    let j1 = match first_index(ms, ref_member(nt)) {
        Some(i) => j,
        None => {
            let jv = add_virtual(j);
            let id = new_record_id(j);
            put_record(jv, hero, attached(slot(jv, hero), nt, id))
        },
    };
    match first_index(ms, ref_member(nt)) {
        Some(i) => {
            lemma_members_edit(h, ms);
        },
        None => {
            let jv = add_virtual(j);
            let id = new_record_id(j);
            lemma_add_virtual_keeps(j, hero);
            lemma_writable(jv, hero);
            lemma_attached_keeps(h, nt, id);
            lemma_put_keeps_skill(jv, hero, attached(slot(jv, hero), nt, id), hero);
        },
    }
    assert(skill_members_kept(h, record(j1, hero)));
    let r = modify_upgrade(j, hero, t, name, level);
    let uref = match first_index(ms, ref_member(nt)) {
        Some(i) => decimal(ms[i].get("id"@).as_i64().unwrap() as int),
        None => decimal(new_record_id(j) as int),
    };
    let u = record(j1, uref);
    if !(u is Object) || members_of(u) is None {
        assert(r.0 == j1);
        return;
    }
    let sref = crate::hero::ref_text(crate::hero::last_int_id(members_of(u).unwrap(), "name"@));
    let j2 = match sref {
        Some(sid) => rename_name_record(j1, sid, name),
        None => rename_upgrade(j1, uref, name),
    };
    lemma_other_names();
    match sref {
        Some(sid) => lemma_rename_name_keeps(j1, sid, name, hero),
        None => lemma_named_edit_keeps(j1, uref, "name"@, JVal::Str(name), hero, false),
    }
    lemma_named_edit_keeps(j2, uref, "level"@, JVal::Num(num_of_int(level as int)), hero, true);
    let j3 = set_level(j2, uref, level);
    lemma_kept_trans(h, record(j1, hero), record(j2, hero));
    lemma_kept_trans(h, record(j2, hero), record(j3, hero));
    assert(r.0 == j3);
}

} // verus!
