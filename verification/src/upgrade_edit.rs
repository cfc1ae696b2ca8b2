//! Changing the upgrade a hero references: its name and level, creating the
//! upgrade record when the hero references none.
use vstd::prelude::*;
use crate::error::{SaveError, SaveErr, unit_result};
use crate::hero::{last_int_id, ref_text, scan_last_int_id};
use crate::hero_edit::{
    clear_field, close_record, find_member_in, lemma_put_record_facts, make_member, member_obj,
    members_present, open_record, put_members, put_record, slot, slot_ok,
};
use crate::json::{
    JVal, Json, JsonNum, Entries, entry_views, find_key, num_of_int, views, lemma_find_key_facts,
    lemma_set_same, lemma_set_set, lemma_set_then_get, lemma_ensure_key_get, lemma_set_other,
};
use crate::save_manager::{SaveManager, normalized_type};
use crate::save_model::{
    class_name_has, class_type_name, get_i64, id_key, max_record_id, members_of, members_vec,
    name_of, named, record, record_of, records, text_or_empty, upgrade_class_type,
};
use crate::search::{first_index, lemma_first_facts, lemma_first_is, lemma_first_none};
use crate::text::{decimal, has_substring, owned, str_eq};

verus! {

/// The metadata a new record is registered with when no upgrade record has any.
pub open spec fn default_metadata() -> JVal {
    JVal::Object(
        seq![
            ("end_offset"@, JVal::Num(JsonNum::PosInt(50))),
            ("original_byte_length"@, JVal::Num(JsonNum::PosInt(50))),
            ("original_record_type"@, JVal::Num(JsonNum::PosInt(5))),
            ("start_offset"@, JVal::Num(JsonNum::PosInt(0))),
        ],
    )
}

/// A hero-upgrade record that has metadata.
pub open spec fn template_record(metas: Entries) -> spec_fn((Seq<char>, JVal)) -> bool {
    |e: (Seq<char>, JVal)|
        has_substring(class_type_name(e.1), "SerializableHeroUpgrade"@) && find_key(metas, e.0) is Some
}

/// The metadata of the first hero-upgrade record that has some, or the default.
pub open spec fn metadata_template(j: JVal) -> JVal {
    match (records(j).as_object(), j.get("record_metadata"@).as_object()) {
        (Some(recs), Some(metas)) => match first_index(recs, template_record(metas)) {
            Some(i) => JVal::Object(metas).get(recs[i].0),
            None => default_metadata(),
        },
        _ => default_metadata(),
    }
}

/// A hero-upgrade record of the given class, with a name and a level.
pub open spec fn upgrade_record(ctid: u64, ctn: Seq<char>, name: Seq<char>, level: i32) -> JVal {
    JVal::Object(
        seq![
            ("class_type_id"@, JVal::Num(JsonNum::PosInt(ctid))),
            ("class_type_name"@, JVal::Str(ctn)),
            (
                "members"@,
                JVal::Array(
                    seq![
                        member_obj("name"@, "String"@, JVal::Str(name)),
                        member_obj("level"@, "Int32"@, JVal::Num(num_of_int(level as int))),
                    ],
                ),
            ),
            ("type"@, JVal::Str("Class"@)),
        ],
    )
}

/// An empty hero-upgrade record of the given class.
pub open spec fn virtual_record(ctid: u64, ctn: Seq<char>) -> JVal {
    upgrade_record(ctid, ctn, Seq::empty(), 0)
}

/// The id a new record gets: one past the largest, as an `i32`.
pub open spec fn new_record_id(j: JVal) -> i32 {
    (max_record_id(j) + 1) as i32
}

/// The class of a new upgrade record: that of the first hero-upgrade record, or the default.
pub open spec fn new_record_class(j: JVal) -> (u64, Seq<char>) {
    match upgrade_class_type(j) {
        Some(p) => p,
        None => (0, "Voxels.TowerDefense.SerializableHeroUpgrade"@),
    }
}

/// The document with a new empty upgrade record: stored under the new id,
/// registered in `record_metadata` with the template metadata, and appended to
/// `record_order`.
pub open spec fn add_virtual(j: JVal) -> JVal {
    let id = new_record_id(j);
    let key = decimal(id as int);
    let (ctid, ctn) = new_record_class(j);
    let j1 = put_record(j, key, virtual_record(ctid, ctn));
    let meta = metadata_template(j1);
    let j2 = if j1.get("record_metadata"@) is Object {
        j1.set("record_metadata"@, j1.get("record_metadata"@).insert(key, meta))
    } else {
        j1
    };
    if j2.get("record_order"@) is Array {
        j2.set("record_order"@, j2.get("record_order"@).push(JVal::Num(num_of_int(id as int))))
    } else {
        j2
    }
}

/// A member that becomes a reference to record `id`.
pub open spec fn attach_member(m: JVal, id: i32) -> JVal {
    m.insert("type"@, JVal::Str("Reference"@)).insert("id"@, JVal::Num(num_of_int(id as int))).remove(
        "value"@,
    )
}

/// A hero record whose first member named `nt` becomes a reference to record `id`.
pub open spec fn attached(h: JVal, nt: Seq<char>, id: i32) -> JVal {
    if h is Object && members_of(h) is Some {
        let ms = members_of(h).unwrap();
        match first_index(ms, named(nt)) {
            Some(k) => h.set("members"@, JVal::Array(ms.update(k, attach_member(ms[k], id)))),
            None => h,
        }
    } else {
        h
    }
}

/// The member that references the hero's upgrade of field `nt`.
pub open spec fn ref_member(nt: Seq<char>) -> spec_fn(JVal) -> bool {
    |m: JVal| text_or_empty(name_of(m)) == nt && m.get("id"@).as_i64() is Some
}

/// The string record `sid` renamed to `name`: its `value` member, or its own
/// `value`, or, when it is not an object, the record itself becomes the text.
pub open spec fn rename_name_record(j: JVal, sid: Seq<char>, name: Seq<char>) -> JVal {
    let sr = record(j, sid);
    if sr is Object {
        let r2 = match members_of(sr) {
            Some(sms) => match first_index(sms, named("value"@)) {
                Some(k) => sr.set("members"@, JVal::Array(sms.update(k, sms[k].set("value"@, JVal::Str(name))))),
                None => sr,
            },
            None => sr.insert("value"@, JVal::Str(name)),
        };
        put_record(j, sid, r2)
    } else {
        put_record(j, sid, JVal::Str(name))
    }
}

/// The upgrade record `uref` whose first `name` member takes `name`.
pub open spec fn rename_upgrade(j: JVal, uref: Seq<char>, name: Seq<char>) -> JVal {
    let u = slot(j, uref);
    if u is Object && u.has_key("members"@) && members_of(u) is Some {
        let ums = members_of(u).unwrap();
        match first_index(ums, named("name"@)) {
            Some(k) => put_members(j, uref, ums.update(k, ums[k].set("value"@, JVal::Str(name)))),
            None => put_record(j, uref, u),
        }
    } else {
        put_record(j, uref, u)
    }
}

/// The upgrade record `uref` whose first `level` member takes `level`, or that
/// gets a `level` member when it has none.
pub open spec fn set_level(j: JVal, uref: Seq<char>, level: i32) -> JVal {
    let u = slot(j, uref);
    let lv = JVal::Num(num_of_int(level as int));
    if u is Object && u.has_key("members"@) && members_of(u) is Some {
        let ums = members_of(u).unwrap();
        match first_index(ums, named("level"@)) {
            Some(k) => put_members(j, uref, ums.update(k, ums[k].set("value"@, lv))),
            None => put_members(j, uref, ums.push(member_obj("level"@, "Int32"@, lv))),
        }
    } else {
        put_record(j, uref, u)
    }
}

/// The id of the upgrade record that the hero's field `nt` references, when
/// it references one; the hero record must be an object with members.
pub open spec fn upgrade_ref_index(j: JVal, hero: Seq<char>, nt: Seq<char>) -> Option<int> {
    first_index(members_of(record(j, hero)).unwrap(), ref_member(nt))
}

/// Changing the upgrade of field `t` of a hero to `name` at `level`.
pub open spec fn modify_upgrade(j: JVal, hero: Seq<char>, t: Seq<char>, name: Seq<char>, level: i32) -> (
    JVal,
    Result<(), SaveErr>,
) {
    let nt = normalized_type(t);
    let h = record(j, hero);
    if !(h is Object) {
        (j, Err(SaveErr::HeroRecordNotFound(hero)))
    } else if members_of(h) is None {
        (j, Err(SaveErr::HeroMembersNotFound(hero)))
    } else {
        let ms = members_of(h).unwrap();
        let (j1, uref) = match first_index(ms, ref_member(nt)) {
            Some(i) => (j, decimal(ms[i].get("id"@).as_i64().unwrap() as int)),
            None => {
                let jv = add_virtual(j);
                let id = new_record_id(j);
                (put_record(jv, hero, attached(slot(jv, hero), nt, id)), decimal(id as int))
            },
        };
        let u = record(j1, uref);
        if !(u is Object) {
            (j1, Err(SaveErr::UpgradeRecordNotFound(uref)))
        } else if members_of(u) is None {
            (j1, Err(SaveErr::UpgradeMembersNotFound(uref)))
        } else {
            let sref = ref_text(last_int_id(members_of(u).unwrap(), "name"@));
            let j2 = match sref {
                Some(sid) => rename_name_record(j1, sid, name),
                None => rename_upgrade(j1, uref, name),
            };
            let j3 = set_level(j2, uref, level);
            let j4 = if nt == "classUpgrade"@ && members_present(j3, hero) {
                clear_field(j3, hero, "skillUpgrade"@).0
            } else {
                j3
            };
            (j4, Ok(()))
        }
    }
}

/// Changing the upgrade of field `t` of a hero reads records that have the
/// entries it reads: the hero's `members`, and those of the upgrade record
/// that the hero references; a new record's id does not overflow.
pub open spec fn modify_ok(j: JVal, hero: Seq<char>, t: Seq<char>) -> bool {
    let h = record(j, hero);
    &&& modify_reads_ok(j, hero, t)
    &&& h is Object && members_of(h) is Some && upgrade_ref_index(j, hero, normalized_type(t)) is None
        ==> max_record_id(j) < i64::MAX
}

/// Changing the upgrade of field `t` of a hero reads records that have the
/// entries it reads: the hero's `members`, and those of the upgrade record
/// that the hero references.
pub open spec fn modify_reads_ok(j: JVal, hero: Seq<char>, t: Seq<char>) -> bool {
    let h = record(j, hero);
    &&& members_present(j, hero)
    &&& h is Object && members_of(h) is Some ==> match upgrade_ref_index(j, hero, normalized_type(t)) {
        Some(i) => members_present(j, decimal(members_of(h).unwrap()[i].get("id"@).as_i64().unwrap() as int)),
        None => true,
    }
}

/// A document whose records can be written: an object with a `records` object.
pub open spec fn records_writable(j: JVal) -> bool {
    j is Object && records(j) is Object
}

pub proof fn lemma_writable(j: JVal, key: Seq<char>)
    requires
        records_writable(j),
    ensures
        slot_ok(j),
        slot(j, key) == record(j, key),
        j.has_key("records"@),
{
    lemma_ensure_key_get(j, "records"@);
    assert(j.has_key("records"@));
    assert(j.ensure_key("records"@) == j);
    lemma_ensure_key_get(records(j), key);
}

pub proof fn lemma_put_keeps_writable(j: JVal, key: Seq<char>, r: JVal)
    requires
        records_writable(j),
    ensures
        records_writable(put_record(j, key, r)),
        records(put_record(j, key, r)).get(key) == r,
{
    lemma_writable(j, key);
    lemma_put_record_facts(j, key, r);
}

/// Storing a record under `key` leaves the record under every other key as it was.
pub proof fn lemma_put_other(j: JVal, key: Seq<char>, r: JVal, other: Seq<char>)
    requires
        records_writable(j),
        other != key,
    ensures
        record(put_record(j, key, r), other) == record(j, other),
        records(put_record(j, key, r)).has_key(other) == records(j).has_key(other),
{
    lemma_writable(j, key);
    lemma_put_record_facts(j, key, r);
    let rs = records(j);
    lemma_ensure_key_get(j, "records"@);
    assert(crate::hero_edit::rec_root(j) == j);
    let m = crate::hero_edit::rec_map(j, key);
    if !rs.has_key(key) {
        lemma_set_other(rs, key, JVal::Null, other);
    }
    assert(m.get(other) == rs.get(other));
    assert(m.has_key(other) == rs.has_key(other));
    lemma_set_other(m, key, r, other);
}

/// Setting a top-level entry other than `records` leaves the records as they are.
pub proof fn lemma_set_keeps_records(j: JVal, k: Seq<char>, v: JVal)
    requires
        records_writable(j),
        k != "records"@,
    ensures
        records(j.set(k, v)) == records(j),
        records_writable(j.set(k, v)),
{
    lemma_set_other(j, k, v, "records"@);
    lemma_set_then_get(j, k, v);
}

impl SaveManager {
    /// The metadata a new upgrade record is registered with (see [`metadata_template`]).
    pub fn get_upgrade_record_metadata_template(json: &Json) -> (r: Json)
        ensures
            r@ == metadata_template(json@),
    {
        let recs = match json.get("records") {
            Some(rs) => rs.as_object(),
            None => None,
        };
        let metas = match json.get("record_metadata") {
            Some(m) => m.as_object(),
            None => None,
        };
        match (recs, metas) {
            (Some(es), Some(ms)) => {
                let ghost ev = entry_views(es@);
                let ghost mv = entry_views(ms@);
                let mut i: usize = 0;
                while i < es.len()
                    invariant
                        ev == entry_views(es@),
                        mv == entry_views(ms@),
                        records(json@).as_object() == Some(ev),
                        json@.get("record_metadata"@).as_object() == Some(mv),
                        0 <= i <= es.len(),
                        forall|j: int| 0 <= j < i ==> !template_record(mv)(#[trigger] ev[j]),
                    decreases es.len() - i,
                {
                    if class_name_has(&es[i].1, "SerializableHeroUpgrade") {
                        match Json::key_index(ms, es[i].0.as_str()) {
                            Some(k) => {
                                proof {
                                    lemma_first_is(ev, template_record(mv), i as int);
                                    lemma_find_key_facts(mv, ev[i as int].0);
                                }
                                return ms[k].1.deep_copy();
                            },
                            None => {},
                        }
                    }
                    i += 1;
                }
                proof {
                    lemma_first_none(ev, template_record(mv));
                }
                Self::default_metadata_value()
            },
            _ => Self::default_metadata_value(),
        }
    }

    fn default_metadata_value() -> (r: Json)
        ensures
            r@ == default_metadata(),
    {
        let mut es: Vec<(String, Json)> = Vec::new();
        es.push((owned("end_offset"), Json::from_u64(50)));
        es.push((owned("original_byte_length"), Json::from_u64(50)));
        es.push((owned("original_record_type"), Json::from_u64(5)));
        es.push((owned("start_offset"), Json::from_u64(0)));
        let r = Json::Object(es);
        assert(entry_views(es@) =~= default_metadata()->Object_0);
        r
    }

    /// Builds a hero-upgrade record (see [`upgrade_record`]), with `extra`
    /// members after its name and level.
    pub(crate) fn upgrade_record_value(
        ctid: u64,
        ctn: String,
        name: &str,
        level: i32,
        extra: Vec<(&'static str, Json)>,
    ) -> (r: Json)
        requires
            extra@.len() == 0,
        ensures
            r@ == upgrade_record(ctid, ctn@, name@, level),
    {
        let ghost cv = ctn@;
        let mut ms: Vec<Json> = Vec::new();
        ms.push(make_member("name", "String", Json::from_str(name)));
        ms.push(make_member("level", "Int32", Json::from_i64(level as i64)));
        let ghost msv = views(ms@);
        let mut extra = extra;
        while extra.len() > 0
            invariant
                extra@.len() == 0,
                views(ms@) == msv,
            decreases extra@.len(),
        {
            let (_, field_value) = extra.remove(0);
            ms.push(field_value);
        }
        assert(msv =~= seq![
            member_obj("name"@, "String"@, JVal::Str(name@)),
            member_obj("level"@, "Int32"@, JVal::Num(num_of_int(level as int))),
        ]);
        let mut es: Vec<(String, Json)> = Vec::new();
        es.push((owned("class_type_id"), Json::from_u64(ctid)));
        es.push((owned("class_type_name"), Json::from_string(ctn)));
        es.push((owned("members"), Json::Array(ms)));
        es.push((owned("type"), Json::from_str("Class")));
        let r = Json::Object(es);
        assert(entry_views(es@) =~= upgrade_record(ctid, cv, name@, level)->Object_0);
        r
    }

    /// Adds an empty upgrade record (see [`add_virtual`]); gives its key and
    /// id. A document without a `records` object is refused.
    pub(crate) fn create_virtual_upgrade_record(json: &mut Json) -> (r: Result<(String, i32), SaveError>)
        requires
            records(old(json)@) is Object ==> max_record_id(old(json)@) < i64::MAX,
        ensures
            records(old(json)@) is Object ==> {
                &&& r matches Ok(p) && p.1 == new_record_id(old(json)@) && p.0@ == decimal(p.1 as int)
                &&& final(json)@ == add_virtual(old(json)@)
                &&& records_writable(final(json)@)
            },
            !(records(old(json)@) is Object) ==> final(json)@ == old(json)@ && (r matches Err(e) && e@
                == SaveErr::RecordsNotFound),
    {
        let records_obj = match json.get("records") {
            Some(rs) => rs.is_object(),
            None => false,
        };
        if !records_obj {
            return Err(SaveError::RecordsNotFound);
        }
        let ghost j0 = json@;
        proof {
            reveal_strlit("records");
            reveal_strlit("record_metadata");
            reveal_strlit("record_order");
            assert("records"@.len() != "record_metadata"@.len());
            assert("records"@.len() != "record_order"@.len());
        }
        let max_id = Self::find_max_record_id(json);
        let new_id = (max_id + 1) as i32;
        let key = id_key(new_id as i64);
        let (ctid, ctn) = match Self::find_serializable_hero_upgrade_class_type(json) {
            Some(p) => p,
            None => (0u64, owned("Voxels.TowerDefense.SerializableHeroUpgrade")),
        };
        let empty = "";
        proof {
            reveal_strlit("");
            assert(empty@ =~= Seq::<char>::empty());
        }
        let rec = Self::upgrade_record_value(ctid, ctn, empty, 0, Vec::new());
        proof {
            lemma_writable(j0, key@);
        }
        let (recs, _old) = open_record(json, key.as_str());
        close_record(json, recs, key.as_str(), rec, Ghost(j0));
        let ghost j1 = json@;
        proof {
            lemma_put_keeps_writable(j0, key@, virtual_record(ctid, ctn@));
        }
        let meta = Self::get_upgrade_record_metadata_template(json);
        let has_meta = match json.get("record_metadata") {
            Some(m) => m.is_object(),
            None => false,
        };
        if has_meta {
            let mut m = json.take("record_metadata");
            let ghost mv0 = m@;
            m.insert(key.as_str(), meta);
            let ghost mv1 = m@;
            json.set("record_metadata", m);
            proof {
                lemma_set_set(j1, "record_metadata"@, JVal::Null, mv1);
                lemma_set_other(j1, "record_metadata"@, mv1, "records"@);
            }
        }
        let ghost j2 = json@;
        assert(records(j2) == records(j1));
        let has_order = match json.get("record_order") {
            Some(o) => o.as_array().is_some(),
            None => false,
        };
        if has_order {
            let mut o = json.take("record_order");
            o.push(Json::from_i64(new_id as i64));
            let ghost ov = o@;
            json.set("record_order", o);
            proof {
                lemma_set_set(j2, "record_order"@, JVal::Null, ov);
                lemma_set_other(j2, "record_order"@, ov, "records"@);
            }
        }
        assert(records(json@) == records(j2));
        Ok((key, new_id))
    }

    /// The first member that references the upgrade of field `nt`.
    fn find_ref_member(ms: &Vec<Json>, nt: &str) -> (r: Option<usize>)
        ensures
            r matches Some(i) ==> first_index(views(ms@), ref_member(nt@)) == Some(i as int),
            r is None ==> first_index(views(ms@), ref_member(nt@)) is None,
    {
        let ghost mv = views(ms@);
        let mut i: usize = 0;
        while i < ms.len()
            invariant
                mv == views(ms@),
                0 <= i <= ms.len(),
                forall|j: int| 0 <= j < i ==> !ref_member(nt@)(#[trigger] mv[j]),
            decreases ms.len() - i,
        {
            let name_matches = match crate::save_model::get_str(&ms[i], "name") {
                Some(s) => str_eq(s, nt),
                None => {
                    let e = "";
                    proof {
                        reveal_strlit("");
                        assert(e@ =~= Seq::<char>::empty());
                    }
                    str_eq(e, nt)
                },
            };
            if name_matches && get_i64(&ms[i], "id").is_some() {
                proof {
                    lemma_first_is(mv, ref_member(nt@), i as int);
                }
                return Some(i);
            }
            i += 1;
        }
        proof {
            lemma_first_none(mv, ref_member(nt@));
        }
        None
    }

    /// Makes the first member named `nt` of the hero a reference to record `id`
    /// (see [`attached`]).
    fn attach_reference(json: &mut Json, hero_record_id: &str, nt: &str, id: i32)
        requires
            records_writable(old(json)@),
        ensures
            final(json)@ == put_record(old(json)@, hero_record_id@, attached(slot(old(json)@, hero_record_id@), nt@, id)),
            records_writable(final(json)@),
    {
        let ghost j0 = json@;
        proof {
            lemma_writable(j0, hero_record_id@);
        }
        let (recs, mut h) = open_record(json, hero_record_id);
        let ghost hv = h@;
        if h.is_object() {
            let is_arr = match h.get("members") {
                Some(m) => m.as_array().is_some(),
                None => false,
            };
            if is_arr {
                let mut ms = h.take("members");
                let ghost msv = ms@.as_array().unwrap();
                match find_member_in(&ms, nt) {
                    Some(k) => {
                        proof {
                            lemma_first_facts(msv, named(nt@));
                        }
                        let mut m = ms.take_at(k);
                        m.insert("type", Json::from_str("Reference"));
                        m.insert("id", Json::from_i64(id as i64));
                        m.remove("value");
                        let ghost mv = m@;
                        ms.put_at(k, m);
                        assert(ms@.as_array().unwrap() =~= msv.update(k as int, mv));
                        let ghost msv2 = ms@;
                        h.set("members", ms);
                        proof {
                            lemma_set_set(hv, "members"@, JVal::Null, msv2);
                        }
                    },
                    None => {
                        h.set("members", ms);
                        proof {
                            lemma_set_set(hv, "members"@, JVal::Null, hv.get("members"@));
                            lemma_set_same(hv, "members"@);
                        }
                    },
                }
            }
        }
        assert(h@ == attached(hv, nt@, id));
        close_record(json, recs, hero_record_id, h, Ghost(j0));
        proof {
            lemma_put_keeps_writable(j0, hero_record_id@, h@);
        }
    }

    /// Renames the string record `sid` (see [`rename_name_record`]).
    fn rename_name_record_value(json: &mut Json, sid: &str, name: &str)
        requires
            records_writable(old(json)@),
        ensures
            final(json)@ == rename_name_record(old(json)@, sid@, name@),
            records_writable(final(json)@),
    {
        let ghost j0 = json@;
        proof {
            lemma_writable(j0, sid@);
        }
        let is_obj = match record_of(json, sid) {
            Some(r) => r.is_object(),
            None => false,
        };
        let (recs, mut r) = open_record(json, sid);
        let ghost rv = r@;
        if is_obj {
            let is_arr = match r.get("members") {
                Some(m) => m.as_array().is_some(),
                None => false,
            };
            if is_arr {
                let mut ms = r.take("members");
                let ghost msv = ms@.as_array().unwrap();
                match find_member_in(&ms, "value") {
                    Some(k) => {
                        proof {
                            lemma_first_facts(msv, named("value"@));
                        }
                        let mut m = ms.take_at(k);
                        m.set("value", Json::from_str(name));
                        let ghost mv = m@;
                        ms.put_at(k, m);
                        assert(ms@.as_array().unwrap() =~= msv.update(k as int, mv));
                        let ghost msv2 = ms@;
                        r.set("members", ms);
                        proof {
                            lemma_set_set(rv, "members"@, JVal::Null, msv2);
                        }
                    },
                    None => {
                        r.set("members", ms);
                        proof {
                            lemma_set_set(rv, "members"@, JVal::Null, rv.get("members"@));
                            lemma_set_same(rv, "members"@);
                        }
                    },
                }
            } else {
                r.insert("value", Json::from_str(name));
            }
        } else {
            r = Json::from_str(name);
        }
        close_record(json, recs, sid, r, Ghost(j0));
        proof {
            lemma_put_keeps_writable(j0, sid@, r@);
        }
    }

    /// Edits the upgrade record `uref`: its first `name` member takes `name`
    /// when `level` is `None` (see [`rename_upgrade`]); otherwise its first
    /// `level` member takes the level, or one is added (see [`set_level`]).
    fn edit_upgrade_record(json: &mut Json, uref: &str, name: &str, level: Option<i32>)
        requires
            records_writable(old(json)@),
        ensures
            final(json)@ == match level {
                None => rename_upgrade(old(json)@, uref@, name@),
                Some(l) => set_level(old(json)@, uref@, l),
            },
            records_writable(final(json)@),
    {
        let ghost j0 = json@;
        proof {
            lemma_writable(j0, uref@);
        }
        let (recs, mut u) = open_record(json, uref);
        let ghost uv = u@;
        let ok = u.is_object() && u.get("members").is_some() && match u.get("members") {
            Some(m) => m.as_array().is_some(),
            None => false,
        };
        if ok {
            let mut ms = u.take("members");
            let ghost msv = ms@.as_array().unwrap();
            match level {
                None => match find_member_in(&ms, "name") {
                    Some(k) => {
                        proof {
                            lemma_first_facts(msv, named("name"@));
                        }
                        let mut m = ms.take_at(k);
                        m.set("value", Json::from_str(name));
                        let ghost mv = m@;
                        ms.put_at(k, m);
                        assert(ms@.as_array().unwrap() =~= msv.update(k as int, mv));
                    },
                    None => {},
                },
                Some(l) => match find_member_in(&ms, "level") {
                    Some(k) => {
                        proof {
                            lemma_first_facts(msv, named("level"@));
                        }
                        let mut m = ms.take_at(k);
                        m.set("value", Json::from_i64(l as i64));
                        let ghost mv = m@;
                        ms.put_at(k, m);
                        assert(ms@.as_array().unwrap() =~= msv.update(k as int, mv));
                    },
                    None => {
                        ms.push(make_member("level", "Int32", Json::from_i64(l as i64)));
                    },
                },
            }
            let ghost msv2 = ms@;
            u.set("members", ms);
            proof {
                lemma_set_set(uv, "members"@, JVal::Null, msv2);
                if msv2 == uv.get("members"@) {
                    lemma_set_same(uv, "members"@);
                }
            }
        }
        close_record(json, recs, uref, u, Ghost(j0));
        proof {
            lemma_put_keeps_writable(j0, uref@, u@);
        }
    }

    /// Whether the hero record, when it is an object, has `members`.
    fn members_present_at(json: &Json, hero_record_id: &str) -> (r: bool)
        requires
            records_writable(json@),
        ensures
            r == members_present(json@, hero_record_id@),
    {
        proof {
            lemma_writable(json@, hero_record_id@);
        }
        match record_of(json, hero_record_id) {
            Some(h) => !h.is_object() || h.get("members").is_some(),
            None => true,
        }
    }

    /// Whether changing the upgrade of field `upgrade_type` of a hero reads
    /// only records that have the entries it reads (see [`modify_reads_ok`]).
    pub fn upgrade_edit_readable(json: &Json, hero_record_id: &str, upgrade_type: &str) -> (r: bool)
        ensures
            r == modify_reads_ok(json@, hero_record_id@, upgrade_type@),
    {
        if !Self::members_present_in(json, hero_record_id) {
            return false;
        }
        let nt = Self::normalize_upgrade_type(upgrade_type);
        let h = match record_of(json, hero_record_id) {
            Some(h) => h,
            None => return true,
        };
        if !h.is_object() {
            return true;
        }
        let ms = match members_vec(h) {
            Some(m) => m,
            None => return true,
        };
        match Self::find_ref_member(ms, nt.as_str()) {
            Some(i) => {
                proof {
                    lemma_first_facts(views(ms@), ref_member(nt@));
                }
                let id = get_i64(&ms[i], "id").unwrap();
                let key = id_key(id);
                Self::members_present_in(json, key.as_str())
            },
            None => true,
        }
    }

    /// Whether changing the upgrade of field `upgrade_type` of a hero is
    /// admitted (see [`modify_ok`]).
    pub fn upgrade_edit_ok(json: &Json, hero_record_id: &str, upgrade_type: &str) -> (r: bool)
        ensures
            r == modify_ok(json@, hero_record_id@, upgrade_type@),
    {
        if !Self::upgrade_edit_readable(json, hero_record_id, upgrade_type) {
            return false;
        }
        let nt = Self::normalize_upgrade_type(upgrade_type);
        let creates = match record_of(json, hero_record_id) {
            Some(h) => match members_vec(h) {
                Some(ms) => h.is_object() && Self::find_ref_member(ms, nt.as_str()).is_none(),
                None => false,
            },
            None => false,
        };
        !creates || Self::find_max_record_id(json) < 9223372036854775807i64
    }

    /// Changes the upgrade of a hero as [`SaveManager::modify_hero_upgrade`]
    /// does, refusing with `EditTooLarge` where a new upgrade record's id would
    /// not fit an `i64` (see [`modify_upgrade`]).
    pub fn try_modify_hero_upgrade(
        json: &mut Json,
        hero_record_id: &str,
        upgrade_type: &str,
        new_name: &str,
        new_level: i32,
    ) -> (r: Result<(), SaveError>)
        requires
            modify_reads_ok(old(json)@, hero_record_id@, upgrade_type@),
        ensures
            !(r matches Err(SaveError::EditTooLarge)) ==> (final(json)@, unit_result(r)) == modify_upgrade(
                old(json)@,
                hero_record_id@,
                upgrade_type@,
                new_name@,
                new_level,
            ),
    {
        let nt = Self::normalize_upgrade_type(upgrade_type);
        let creates = match record_of(json, hero_record_id) {
            Some(h) => match members_vec(h) {
                Some(ms) => h.is_object() && Self::find_ref_member(ms, nt.as_str()).is_none(),
                None => false,
            },
            None => false,
        };
        if creates && Self::find_max_record_id(json) == 9223372036854775807i64 {
            return Err(SaveError::EditTooLarge);
        }
        Self::modify_hero_upgrade(json, hero_record_id, upgrade_type, new_name, new_level)
    }

    /// Sets the upgrade of field `upgrade_type` (in any of its spellings) of a
    /// hero to `new_name` at `new_level`, creating the upgrade record when the
    /// hero references none; changing the class clears the skill (see [`modify_upgrade`]).
    pub fn modify_hero_upgrade(
        json: &mut Json,
        hero_record_id: &str,
        upgrade_type: &str,
        new_name: &str,
        new_level: i32,
    ) -> (r: Result<(), SaveError>)
        requires
            modify_ok(old(json)@, hero_record_id@, upgrade_type@),
        ensures
            (final(json)@, unit_result(r)) == modify_upgrade(
                old(json)@,
                hero_record_id@,
                upgrade_type@,
                new_name@,
                new_level,
            ),
    {
        let ghost j0 = json@;
        let nt = Self::normalize_upgrade_type(upgrade_type);
        let ref_id: Option<i64> = {
            let h = match record_of(json, hero_record_id) {
                Some(h) => h,
                None => return Err(SaveError::HeroRecordNotFound(owned(hero_record_id))),
            };
            if !h.is_object() {
                return Err(SaveError::HeroRecordNotFound(owned(hero_record_id)));
            }
            let ms = match members_vec(h) {
                Some(m) => m,
                None => return Err(SaveError::HeroMembersNotFound(owned(hero_record_id))),
            };
            match Self::find_ref_member(ms, nt.as_str()) {
                Some(i) => {
                    proof {
                        lemma_first_facts(views(ms@), ref_member(nt@));
                    }
                    Some(get_i64(&ms[i], "id").unwrap())
                },
                None => None,
            }
        };
        assert(records_writable(j0));
        let uref: String = match ref_id {
            Some(id) => id_key(id),
            None => {
                let (key, id) = match Self::create_virtual_upgrade_record(json) {
                    Ok(p) => p,
                    Err(e) => return Err(e),
                };
                Self::attach_reference(json, hero_record_id, nt.as_str(), id);
                key
            },
        };
        let ghost j1 = json@;
        let sref: Option<String> = {
            let u = match record_of(json, uref.as_str()) {
                Some(u) => u,
                None => return Err(SaveError::UpgradeRecordNotFound(uref)),
            };
            if !u.is_object() {
                return Err(SaveError::UpgradeRecordNotFound(uref));
            }
            let ums = match members_vec(u) {
                Some(m) => m,
                None => return Err(SaveError::UpgradeMembersNotFound(uref)),
            };
            match scan_last_int_id(ums, "name") {
                Some(id) => Some(id_key(id)),
                None => None,
            }
        };
        match sref {
            Some(sid) => Self::rename_name_record_value(json, sid.as_str(), new_name),
            None => Self::edit_upgrade_record(json, uref.as_str(), new_name, None),
        }
        Self::edit_upgrade_record(json, uref.as_str(), new_name, Some(new_level));
        if str_eq(nt.as_str(), "classUpgrade") && Self::members_present_at(json, hero_record_id) {
            proof {
                lemma_writable(json@, hero_record_id@);
            }
            let _ = Self::clear_skill_upgrade(json, hero_record_id);
        }
        Ok(())
    }
}

} // verus!
