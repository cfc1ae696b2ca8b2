//! Editing a hero record: its coins, helmet hue, crown, and the upgrades it references.
//!
//! A hero is reached as `json["records"][hero]` for writing, which gives a
//! missing key a `Null` record; the record's `members` must then be present.
use vstd::prelude::*;
use crate::error::{SaveError, SaveErr, unit_result};
use crate::json::{
    JVal, Json, JsonNum, num_of_int, lemma_ensure_key_get, lemma_set_set, lemma_set_then_get, lemma_set_same,
};
use crate::save_manager::{SaveManager, class_skill};
use crate::save_model::{
    find_named, find_named_int_id, get_i64, id_key, is_named, members_of, members_vec, name_is,
    named, named_int_id,
};
use crate::search::first_index;
use crate::text::{decimal, owned};

verus! {

/// The document after `json["records"]` is used for writing.
pub open spec fn rec_root(j: JVal) -> JVal {
    j.ensure_key("records"@)
}

/// The records object after `json["records"][key]` is used for writing.
pub open spec fn rec_map(j: JVal, key: Seq<char>) -> JVal {
    rec_root(j).get("records"@).ensure_key(key)
}

/// The record reached by `json["records"][key]` used for writing.
pub open spec fn slot(j: JVal, key: Seq<char>) -> JVal {
    rec_map(j, key).get(key)
}

/// The document once the record reached by `json["records"][key]` holds `r`.
pub open spec fn put_record(j: JVal, key: Seq<char>, r: JVal) -> JVal {
    rec_root(j).set("records"@, rec_map(j, key).set(key, r))
}

/// `json["records"][key]` can be used for writing: the document and its
/// `records` are objects (or `Null`, which become objects).
pub open spec fn slot_ok(j: JVal) -> bool {
    j.can_index_mut() && rec_root(j).get("records"@).can_index_mut()
}

/// A hero record that is an object has a `members` entry (the record's
/// `members` is read by map indexing, which needs the key).
pub open spec fn members_present(j: JVal, hero: Seq<char>) -> bool {
    slot(j, hero) is Object ==> slot(j, hero).has_key("members"@)
}

/// The record reached for writing with its `members` replaced.
pub open spec fn put_members(j: JVal, key: Seq<char>, ms: Seq<JVal>) -> JVal {
    put_record(j, key, slot(j, key).set("members"@, JVal::Array(ms)))
}

/// A member whose upgrade reference is cleared: its type becomes `Null`, its
/// value `null`, and its `id` goes.
pub open spec fn cleared_member(m: JVal) -> JVal {
    m.set("type"@, JVal::Str("Null"@)).set("value"@, JVal::Null).remove("id"@)
}

/// A member object with a name, a type and a value.
pub open spec fn member_obj(n: Seq<char>, t: Seq<char>, v: JVal) -> JVal {
    JVal::Object(seq![("name"@, JVal::Str(n)), ("type"@, JVal::Str(t)), ("value"@, v)])
}

/// What an edit of the first member named `field` of the record under `key`
/// gives: the edited document and the result. `edit` tells what becomes of that
/// member; `not_found` is the error when the record is no object, `no_members`
/// when it has no `members` array, and `missing` the result when no member has
/// that name.
pub open spec fn edit_member_of(
    j: JVal,
    key: Seq<char>,
    field: Seq<char>,
    edit: spec_fn(JVal) -> JVal,
    not_found: SaveErr,
    no_members: SaveErr,
    missing: Result<(), SaveErr>,
) -> (JVal, Result<(), SaveErr>) {
    let h = slot(j, key);
    if !(h is Object) {
        (put_record(j, key, h), Err(not_found))
    } else {
        match members_of(h) {
            None => (put_record(j, key, h), Err(no_members)),
            Some(ms) => match first_index(ms, named(field)) {
                Some(i) => (put_members(j, key, ms.update(i, edit(ms[i]))), Ok(())),
                None => (put_record(j, key, h), missing),
            },
        }
    }
}

/// What an edit of the first member named `field` of a hero gives (see [`edit_member_of`]).
pub open spec fn edit_first_member(
    j: JVal,
    hero: Seq<char>,
    field: Seq<char>,
    edit: spec_fn(JVal) -> JVal,
    missing: Result<(), SaveErr>,
) -> (JVal, Result<(), SaveErr>) {
    edit_member_of(
        j,
        hero,
        field,
        edit,
        SaveErr::HeroRecordNotFound(hero),
        SaveErr::HeroMembersNotFound(hero),
        missing,
    )
}

pub open spec fn clear_edit() -> spec_fn(JVal) -> JVal {
    |m: JVal| cleared_member(m)
}

pub open spec fn value_edit(v: JVal) -> spec_fn(JVal) -> JVal {
    |m: JVal| m.set("value"@, v)
}

/// Clearing the upgrade field `field` of a hero.
pub open spec fn clear_field(j: JVal, hero: Seq<char>, field: Seq<char>) -> (JVal, Result<(), SaveErr>) {
    edit_first_member(j, hero, field, clear_edit(), Ok(()))
}

/// Setting the coins of a hero.
pub open spec fn set_coins(j: JVal, hero: Seq<char>, coins: i32) -> (JVal, Result<(), SaveErr>) {
    edit_first_member(
        j,
        hero,
        "_coins"@,
        value_edit(JVal::Num(num_of_int(coins as int))),
        Err(SaveErr::CoinsFieldNotFound(hero)),
    )
}

/// The bits of an `f64` that is neither infinite nor NaN.
pub open spec fn finite_bits(b: u64) -> bool {
    (b >> 52u64) & 0x7ffu64 != 0x7ffu64
}

/// Setting the helmet hue of a hero, given the bits of the `f64` it becomes.
pub open spec fn set_hue(j: JVal, hero: Seq<char>, bits: u64) -> (JVal, Result<(), SaveErr>) {
    let (j2, r) = edit_first_member(
        j,
        hero,
        "hue"@,
        value_edit(JVal::Num(JsonNum::Float(bits))),
        Err(SaveErr::HueFieldNotFound(hero)),
    );
    if r is Ok && !finite_bits(bits) {
        (put_record(j, hero, slot(j, hero)), Err(SaveErr::InvalidHue))
    } else {
        (j2, r)
    }
}

/// The crown style a crowned hero is given.
pub open spec fn default_crown_style() -> Seq<char> {
    "Heroes2_Spriteshop_Crown_0"@
}

pub open spec fn crown_style_value(has: bool) -> JVal {
    if has {
        JVal::Str(default_crown_style())
    } else {
        JVal::Null
    }
}

/// A member after the crown is set: `hasCrown` takes the flag, `crownStyle`
/// the default style or `null`.
pub open spec fn crown_member(m: JVal, has: bool) -> JVal {
    if is_named(m, "hasCrown"@) {
        m.set("value"@, JVal::Bool(has))
    } else if is_named(m, "crownStyle"@) {
        m.set("value"@, crown_style_value(has))
    } else {
        m
    }
}

/// The members after the crown is set: every crown member updated, and a
/// `hasCrown` and a `crownStyle` member added when there was none.
pub open spec fn crown_members(ms: Seq<JVal>, has: bool) -> Seq<JVal> {
    let ms1 = ms.map_values(|m: JVal| crown_member(m, has));
    let ms2 = if first_index(ms, named("hasCrown"@)) is None {
        ms1.push(member_obj("hasCrown"@, "Boolean"@, JVal::Bool(has)))
    } else {
        ms1
    };
    if first_index(ms, named("crownStyle"@)) is None {
        ms2.push(member_obj("crownStyle"@, "String"@, crown_style_value(has)))
    } else {
        ms2
    }
}

/// Setting whether a hero wears a crown.
pub open spec fn set_crown(j: JVal, hero: Seq<char>, has: bool) -> (JVal, Result<(), SaveErr>) {
    let h = slot(j, hero);
    if !(h is Object) {
        (put_record(j, hero, h), Err(SaveErr::HeroRecordNotFound(hero)))
    } else {
        match members_of(h) {
            None => (put_record(j, hero, h), Err(SaveErr::HeroMembersNotFound(hero))),
            Some(ms) => (put_members(j, hero, crown_members(ms, has)), Ok(())),
        }
    }
}

/// Renaming the skill upgrade record of a hero after the skill of a class.
pub open spec fn sync_skill(j: JVal, hero: Seq<char>, class_code: Seq<char>) -> (JVal, Result<(), SaveErr>) {
    match class_skill(class_code) {
        None => (j, Err(SaveErr::UnknownClassCode(class_code))),
        Some(skill) => {
            let h = slot(j, hero);
            let j2 = put_record(j, hero, h);
            if !(h is Object) {
                (j2, Err(SaveErr::HeroRecordNotFound(hero)))
            } else {
                match members_of(h) {
                    None => (j2, Err(SaveErr::HeroMembersNotFound(hero))),
                    Some(ms) => match first_index(ms, named_int_id("skillUpgrade"@)) {
                        None => (j2, Ok(())),
                        Some(i) => {
                            let sid = decimal(ms[i].get("id"@).as_i64().unwrap() as int);
                            let sr = slot(j2, sid);
                            let j3 = put_record(j2, sid, sr);
                            let out = match members_of(sr) {
                                Some(sms) => if sr is Object {
                                    match first_index(sms, named("name"@)) {
                                        Some(k) => put_members(
                                            j2,
                                            sid,
                                            sms.update(k, sms[k].set("value"@, JVal::Str(skill))),
                                        ),
                                        None => j3,
                                    }
                                } else {
                                    j3
                                },
                                None => j3,
                            };
                            (out, Ok(()))
                        },
                    },
                }
            }
        },
    }
}

// ---------------------------------------------------------------------------
// Executable access to a record for writing.
// ---------------------------------------------------------------------------

pub proof fn lemma_ensure_key_object(j: JVal, k: Seq<char>)
    requires
        j.can_index_mut(),
    ensures
        j.ensure_key(k) is Object,
        j.ensure_key(k).has_key(k),
{
    if !j.has_key(k) {
        lemma_set_then_get(j, k, JVal::Null);
    }
}

pub proof fn lemma_put_record_facts(j: JVal, key: Seq<char>, r: JVal)
    requires
        slot_ok(j),
    ensures
        put_record(j, key, r) is Object,
        put_record(j, key, r).has_key("records"@),
        rec_root(put_record(j, key, r)) == put_record(j, key, r),
        put_record(j, key, r).get("records"@) == rec_map(j, key).set(key, r),
        slot_ok(put_record(j, key, r)),
        put_record(j, key, r).get("records"@).get(key) == r,
        put_record(j, key, r).get("records"@).has_key(key),
{
    lemma_ensure_key_object(j, "records"@);
    lemma_ensure_key_object(rec_root(j).get("records"@), key);
    let m = rec_map(j, key).set(key, r);
    lemma_set_then_get(rec_map(j, key), key, r);
    lemma_set_then_get(rec_root(j), "records"@, m);
}

/// Takes the record reached by `json["records"][key]` out of the document:
/// the document keeps `Null` for its records, and the records keep `Null` for it.
pub fn open_record(json: &mut Json, key: &str) -> (r: (Json, Json))
    requires
        slot_ok(old(json)@),
    ensures
        final(json)@ == rec_root(old(json)@).set("records"@, JVal::Null),
        r.0@ == rec_map(old(json)@, key@).set(key@, JVal::Null),
        r.1@ == slot(old(json)@, key@),
        rec_root(old(json)@) is Object && rec_root(old(json)@).has_key("records"@),
        rec_map(old(json)@, key@) is Object && rec_map(old(json)@, key@).has_key(key@),
{
    let ghost j0 = json@;
    proof {
        lemma_ensure_key_object(j0, "records"@);
        lemma_ensure_key_object(rec_root(j0).get("records"@), key@);
    }
    json.ensure_key("records");
    let mut recs = json.take("records");
    recs.ensure_key(key);
    let rec = recs.take(key);
    (recs, rec)
}

/// Puts a record taken by [`open_record`] back, holding `rec`.
pub fn close_record(json: &mut Json, recs: Json, key: &str, rec: Json, Ghost(j0): Ghost<JVal>)
    requires
        old(json)@ == rec_root(j0).set("records"@, JVal::Null),
        recs@ == rec_map(j0, key@).set(key@, JVal::Null),
        rec_root(j0) is Object && rec_root(j0).has_key("records"@),
        rec_map(j0, key@) is Object && rec_map(j0, key@).has_key(key@),
    ensures
        final(json)@ == put_record(j0, key@, rec@),
{
    let ghost rv = rec@;
    let mut recs = recs;
    recs.set(key, rec);
    let ghost rs = recs@;
    json.set("records", recs);
    proof {
        lemma_set_set(rec_map(j0, key@), key@, JVal::Null, rv);
        lemma_set_set(rec_root(j0), "records"@, JVal::Null, rs);
    }
}

/// The first member named `n` of a members array value, with its position.
pub fn find_member_in(ms: &Json, n: &str) -> (r: Option<usize>)
    ensures
        ms@.as_array() is Some ==> (match r {
            Some(i) => first_index(ms@.as_array().unwrap(), named(n@)) == Some(i as int),
            None => first_index(ms@.as_array().unwrap(), named(n@)) is None,
        }),
        ms@.as_array() is None ==> r is None,
{
    match ms.as_array() {
        Some(v) => find_named(v, n),
        None => None,
    }
}

/// Builds `{"name": n, "type": t, "value": v}`.
pub fn make_member(n: &str, t: &str, v: Json) -> (r: Json)
    ensures
        r@ == member_obj(n@, t@, v@),
{
    let ghost vv = v@;
    let mut es: Vec<(String, Json)> = Vec::new();
    es.push((owned("name"), Json::from_str(n)));
    es.push((owned("type"), Json::from_str(t)));
    es.push((owned("value"), v));
    let r = Json::Object(es);
    assert(crate::json::entry_views(es@) =~= seq![
        ("name"@, JVal::Str(n@)),
        ("type"@, JVal::Str(t@)),
        ("value"@, vv),
    ]);
    r
}

impl SaveManager {
    /// Whether the record under `key`, when it is an object, has `members`
    /// (see [`members_present`]).
    pub fn members_present_in(json: &Json, key: &str) -> (r: bool)
        ensures
            r == members_present(json@, key@),
    {
        let ghost j = json@;
        match json.get("records") {
            Some(rs) => {
                if rs.is_object() {
                    proof {
                        crate::upgrade_edit::lemma_writable(j, key@);
                    }
                    match rs.get(key) {
                        Some(h) => !h.is_object() || h.get("members").is_some(),
                        None => true,
                    }
                } else {
                    proof {
                        lemma_ensure_key_get(j, "records"@);
                        if rs@ is Null {
                            lemma_ensure_key_get(rs@, key@);
                        }
                    }
                    true
                }
            },
            None => {
                proof {
                    if j.can_index_mut() {
                        lemma_ensure_key_get(j, "records"@);
                    }
                    lemma_ensure_key_get(JVal::Null, key@);
                }
                true
            },
        }
    }

    /// Whether the record under `hero_record_id` can be edited without a
    /// panic: the document and its `records` can be indexed for writing, and
    /// the record, when it is an object, has `members`.
    pub fn hero_record_editable(json: &Json, hero_record_id: &str) -> (r: bool)
        ensures
            r == (slot_ok(json@) && members_present(json@, hero_record_id@)),
    {
        let ghost j = json@;
        if !(json.is_object() || json.is_null()) {
            return false;
        }
        proof {
            lemma_ensure_key_get(j, "records"@);
        }
        let records_ok = match json.get("records") {
            Some(rs) => rs.is_object() || rs.is_null(),
            None => true,
        };
        records_ok && Self::members_present_in(json, hero_record_id)
    }

    /// Edits the first member named `field` of the record under `key` with
    /// `value`: the value is set, or the upgrade reference cleared when `value`
    /// is `None` (see [`edit_member_of`]).
    pub(crate) fn edit_record_member(
        json: &mut Json,
        key: &str,
        field: &str,
        value: Option<Json>,
        not_found: SaveError,
        no_members: SaveError,
        missing: Result<(), SaveError>,
    ) -> (r: Result<(), SaveError>)
        requires
            slot_ok(old(json)@),
            members_present(old(json)@, key@),
        ensures
            ({
                let edit = match value {
                    Some(v) => value_edit(v@),
                    None => clear_edit(),
                };
                let (j2, res) = edit_member_of(
                    old(json)@,
                    key@,
                    field@,
                    edit,
                    not_found@,
                    no_members@,
                    unit_result(missing),
                );
                final(json)@ == j2 && unit_result(r) == res
            }),
    {
        let ghost j0 = json@;
        let ghost edit = match value {
            Some(ref v) => value_edit(v@),
            None => clear_edit(),
        };
        let (recs, mut rec) = open_record(json, key);
        if !rec.is_object() {
            close_record(json, recs, key, rec, Ghost(j0));
            return Err(not_found);
        }
        let ghost hv = rec@;
        let mut ms = rec.take("members");
        match find_member_in(&ms, field) {
            Some(i) => {
                let ghost msv = ms@.as_array().unwrap();
                let mut m = ms.take_at(i);
                proof {
                    crate::search::lemma_first_facts(msv, named(field@));
                }
                let ghost m0 = m@;
                assert(m0 == msv[i as int]);
                match value {
                    Some(v) => {
                        m.set("value", v);
                        assert(m@ == edit(m0));
                    },
                    None => {
                        m.set("type", Json::from_str("Null"));
                        m.set("value", Json::Null);
                        m.remove("id");
                        assert(m@ == edit(m0));
                    },
                }
                let ghost mv = m@;
                ms.put_at(i, m);
                assert(msv.update(i as int, JVal::Null).update(i as int, mv) =~= msv.update(i as int, mv));
                let ghost msv2 = ms@;
                rec.set("members", ms);
                proof {
                    assert(msv2 == JVal::Array(msv.update(i as int, edit(msv[i as int]))));
                    lemma_set_set(hv, "members"@, JVal::Null, msv2);
                }
                close_record(json, recs, key, rec, Ghost(j0));
                Ok(())
            },
            None => {
                let is_arr = ms.as_array().is_some();
                rec.set("members", ms);
                proof {
                    lemma_set_set(hv, "members"@, JVal::Null, hv.get("members"@));
                    lemma_set_same(hv, "members"@);
                }
                close_record(json, recs, key, rec, Ghost(j0));
                if is_arr {
                    missing
                } else {
                    Err(no_members)
                }
            },
        }
    }

    /// Edits the first member named `field` of a hero (see [`edit_first_member`]).
    fn edit_hero_member(
        json: &mut Json,
        hero_record_id: &str,
        field: &str,
        value: Option<Json>,
        missing: Result<(), SaveError>,
    ) -> (r: Result<(), SaveError>)
        requires
            slot_ok(old(json)@),
            members_present(old(json)@, hero_record_id@),
        ensures
            ({
                let edit = match value {
                    Some(v) => value_edit(v@),
                    None => clear_edit(),
                };
                let (j2, res) = edit_first_member(
                    old(json)@,
                    hero_record_id@,
                    field@,
                    edit,
                    unit_result(missing),
                );
                final(json)@ == j2 && unit_result(r) == res
            }),
    {
        Self::edit_record_member(
            json,
            hero_record_id,
            field,
            value,
            SaveError::HeroRecordNotFound(owned(hero_record_id)),
            SaveError::HeroMembersNotFound(owned(hero_record_id)),
            missing,
        )
    }

    /// Clears the skill upgrade of a hero (see [`clear_field`]).
    pub fn clear_skill_upgrade(json: &mut Json, hero_record_id: &str) -> (r: Result<(), SaveError>)
        requires
            slot_ok(old(json)@),
            members_present(old(json)@, hero_record_id@),
        ensures
            (final(json)@, unit_result(r)) == clear_field(old(json)@, hero_record_id@, "skillUpgrade"@),
    {
        Self::edit_hero_member(json, hero_record_id, "skillUpgrade", None, Ok(()))
    }

    /// Clears the upgrade field `upgrade_type` (in any of its spellings) of a
    /// hero (see [`clear_field`]).
    pub fn clear_hero_upgrade(json: &mut Json, hero_record_id: &str, upgrade_type: &str) -> (r: Result<
        (),
        SaveError,
    >)
        requires
            slot_ok(old(json)@),
            members_present(old(json)@, hero_record_id@),
        ensures
            (final(json)@, unit_result(r)) == clear_field(
                old(json)@,
                hero_record_id@,
                crate::save_manager::normalized_type(upgrade_type@),
            ),
    {
        let normalized = Self::normalize_upgrade_type(upgrade_type);
        Self::edit_hero_member(json, hero_record_id, normalized.as_str(), None, Ok(()))
    }

    /// Sets the coins of a hero (see [`set_coins`]).
    pub fn modify_hero_coins(json: &mut Json, hero_record_id: &str, new_coins: i32) -> (r: Result<
        (),
        SaveError,
    >)
        requires
            slot_ok(old(json)@),
            members_present(old(json)@, hero_record_id@),
        ensures
            (final(json)@, unit_result(r)) == set_coins(old(json)@, hero_record_id@, new_coins),
    {
        Self::edit_hero_member(
            json,
            hero_record_id,
            "_coins",
            Some(Json::from_i64(new_coins as i64)),
            Err(SaveError::CoinsFieldNotFound(owned(hero_record_id))),
        )
    }

    /// Sets the helmet hue of a hero to the `f64` whose bits are `new_hue_bits`
    /// (see [`set_hue`]).
    pub fn modify_hero_helmet(json: &mut Json, hero_record_id: &str, new_hue_bits: u64) -> (r: Result<
        (),
        SaveError,
    >)
        requires
            slot_ok(old(json)@),
            members_present(old(json)@, hero_record_id@),
        ensures
            (final(json)@, unit_result(r)) == set_hue(old(json)@, hero_record_id@, new_hue_bits),
    {
        let finite = (new_hue_bits >> 52u64) & 0x7ffu64 != 0x7ffu64;
        if finite {
            Self::edit_hero_member(
                json,
                hero_record_id,
                "hue",
                Some(Json::Num(JsonNum::Float(new_hue_bits))),
                Err(SaveError::HueFieldNotFound(owned(hero_record_id))),
            )
        } else {
            let ghost j0 = json@;
            let (recs, rec) = open_record(json, hero_record_id);
            let found = match rec.get("members") {
                Some(ms) => match find_member_in(ms, "hue") {
                    Some(_) => true,
                    None => false,
                },
                None => false,
            };
            let is_obj = rec.is_object();
            let has_arr = match rec.get("members") {
                Some(ms) => ms.as_array().is_some(),
                None => false,
            };
            close_record(json, recs, hero_record_id, rec, Ghost(j0));
            if !is_obj {
                Err(SaveError::HeroRecordNotFound(owned(hero_record_id)))
            } else if !has_arr {
                Err(SaveError::HeroMembersNotFound(owned(hero_record_id)))
            } else if found {
                Err(SaveError::InvalidHue)
            } else {
                Err(SaveError::HueFieldNotFound(owned(hero_record_id)))
            }
        }
    }

    /// Sets whether a hero wears a crown (see [`set_crown`]).
    pub fn modify_hero_crown(json: &mut Json, hero_record_id: &str, has_crown: bool) -> (r: Result<
        (),
        SaveError,
    >)
        requires
            slot_ok(old(json)@),
            members_present(old(json)@, hero_record_id@),
        ensures
            (final(json)@, unit_result(r)) == set_crown(old(json)@, hero_record_id@, has_crown),
    {
        let ghost j0 = json@;
        let (recs, mut rec) = open_record(json, hero_record_id);
        if !rec.is_object() {
            close_record(json, recs, hero_record_id, rec, Ghost(j0));
            return Err(SaveError::HeroRecordNotFound(owned(hero_record_id)));
        }
        let ghost hv = rec@;
        let mut ms = rec.take("members");
        if ms.as_array().is_none() {
            rec.set("members", ms);
            proof {
                lemma_set_set(hv, "members"@, JVal::Null, hv.get("members"@));
                lemma_set_same(hv, "members"@);
            }
            close_record(json, recs, hero_record_id, rec, Ghost(j0));
            return Err(SaveError::HeroMembersNotFound(owned(hero_record_id)));
        }
        let ghost msv = ms@.as_array().unwrap();
        let ghost style = crown_style_value(has_crown);
        let n = ms.as_array().unwrap().len();
        let mut has_found = false;
        let mut style_found = false;
        let mut i: usize = 0;
        while i < n
            invariant
                n == msv.len(),
                style == crown_style_value(has_crown),
                0 <= i <= n,
                ms@ is Array,
                ms@.as_array().unwrap().len() == n,
                forall|k: int| 0 <= k < i ==> ms@.as_array().unwrap()[k] == crown_member(#[trigger] msv[k], has_crown),
                forall|k: int| i <= k < n ==> ms@.as_array().unwrap()[k] == #[trigger] msv[k],
                has_found == (exists|k: int| 0 <= k < i && is_named(#[trigger] msv[k], "hasCrown"@)),
                style_found == (exists|k: int| 0 <= k < i && is_named(#[trigger] msv[k], "crownStyle"@)),
            decreases n - i,
        {
            let ghost before = ms@.as_array().unwrap();
            proof {
                reveal_strlit("hasCrown");
                reveal_strlit("crownStyle");
                assert("hasCrown"@[0] != "crownStyle"@[0]);
            }
            let mut m = ms.take_at(i);
            let ghost m0 = m@;
            assert(m0 == msv[i as int]);
            if name_is(&m, "hasCrown") {
                m.set("value", Json::from_bool(has_crown));
                has_found = true;
            } else if name_is(&m, "crownStyle") {
                let v = if has_crown {
                    Json::from_str("Heroes2_Spriteshop_Crown_0")
                } else {
                    Json::Null
                };
                m.set("value", v);
                style_found = true;
            }
            assert(m@ == crown_member(m0, has_crown));
            let ghost mv = m@;
            ms.put_at(i, m);
            assert(ms@.as_array().unwrap() =~= before.update(i as int, mv));
            i += 1;
        }
        let ghost ms1 = ms@.as_array().unwrap();
        assert(ms1 =~= msv.map_values(|m: JVal| crown_member(m, has_crown)));
        proof {
            crate::search::lemma_first_facts(msv, named("hasCrown"@));
            crate::search::lemma_first_facts(msv, named("crownStyle"@));
            if !has_found {
                assert forall|k: int| 0 <= k < msv.len() implies !named("hasCrown"@)(#[trigger] msv[k]) by {}
                crate::search::lemma_first_none(msv, named("hasCrown"@));
            } else {
                assert(first_index(msv, named("hasCrown"@)) is Some);
            }
            if !style_found {
                assert forall|k: int| 0 <= k < msv.len() implies !named("crownStyle"@)(#[trigger] msv[k]) by {}
                crate::search::lemma_first_none(msv, named("crownStyle"@));
            } else {
                assert(first_index(msv, named("crownStyle"@)) is Some);
            }
        }
        if !has_found {
            ms.push(make_member("hasCrown", "Boolean", Json::from_bool(has_crown)));
        }
        if !style_found {
            let v = if has_crown {
                Json::from_str("Heroes2_Spriteshop_Crown_0")
            } else {
                Json::Null
            };
            ms.push(make_member("crownStyle", "String", v));
        }
        let ghost msv2 = ms@;
        assert(msv2 == JVal::Array(crown_members(msv, has_crown)));
        rec.set("members", ms);
        proof {
            lemma_set_set(hv, "members"@, JVal::Null, msv2);
        }
        close_record(json, recs, hero_record_id, rec, Ghost(j0));
        Ok(())
    }

    /// Renames the skill upgrade record of a hero after the skill of its class
    /// (see [`sync_skill`]).
    pub fn sync_class_skill(json: &mut Json, hero_record_id: &str, class_code: &str) -> (r: Result<
        (),
        SaveError,
    >)
        requires
            slot_ok(old(json)@),
            members_present(old(json)@, hero_record_id@),
        ensures
            (final(json)@, unit_result(r)) == sync_skill(old(json)@, hero_record_id@, class_code@),
    {
        let skill = match Self::get_class_skill_upgrade(class_code) {
            Some(s) => s,
            None => return Err(SaveError::UnknownClassCode(owned(class_code))),
        };
        let ghost j0 = json@;
        let (recs, rec) = open_record(json, hero_record_id);
        if !rec.is_object() {
            close_record(json, recs, hero_record_id, rec, Ghost(j0));
            return Err(SaveError::HeroRecordNotFound(owned(hero_record_id)));
        }
        let sid_opt = match members_vec(&rec) {
            None => {
                close_record(json, recs, hero_record_id, rec, Ghost(j0));
                return Err(SaveError::HeroMembersNotFound(owned(hero_record_id)));
            },
            Some(ms) => match find_named_int_id(ms, "skillUpgrade") {
                Some(i) => Some(get_i64(&ms[i], "id").unwrap()),
                None => None,
            },
        };
        let ghost hv = rec@;
        close_record(json, recs, hero_record_id, rec, Ghost(j0));
        let ghost j2 = json@;
        proof {
            lemma_put_record_facts(j0, hero_record_id@, hv);
        }
        let sid = match sid_opt {
            Some(sid) => sid,
            None => return Ok(()),
        };
        let key = id_key(sid);
        let (recs2, mut srec) = open_record(json, key.as_str());
        let ghost sv = srec@;
        if srec.is_object() {
            let has_arr = match srec.get("members") {
                Some(m) => m.as_array().is_some(),
                None => false,
            };
            if has_arr {
                let mut sms = srec.take("members");
                match find_member_in(&sms, "name") {
                    Some(k) => {
                        let ghost smsv = sms@.as_array().unwrap();
                        proof {
                            crate::search::lemma_first_facts(smsv, named("name"@));
                        }
                        let mut m = sms.take_at(k);
                        m.set("value", Json::from_str(skill));
                        let ghost mv = m@;
                        sms.put_at(k, m);
                        assert(sms@.as_array().unwrap() =~= smsv.update(k as int, mv));
                        let ghost smsv2 = sms@;
                        srec.set("members", sms);
                        proof {
                            lemma_set_set(sv, "members"@, JVal::Null, smsv2);
                        }
                    },
                    None => {
                        srec.set("members", sms);
                        proof {
                            lemma_set_set(sv, "members"@, JVal::Null, sv.get("members"@));
                            lemma_set_same(sv, "members"@);
                        }
                    },
                }
            }
        }
        close_record(json, recs2, key.as_str(), srec, Ghost(j2));
        Ok(())
    }
}

} // verus!
