//! The layout of a decoded save, in the words the contracts use.
//!
//! A save document holds a `records` object whose keys are record ids in
//! decimal. A class record is an object with a `class_type_name` and a
//! `members` array; a member is an object with a `name` and either a `value`
//! or, for a reference, the `id` of another record.
use vstd::prelude::*;
use crate::json::{JVal, Json, views, find_key, lemma_find_key_facts};
use crate::search::{first_index, lemma_first_is, lemma_first_none};
use crate::text::{
    decimal, has_substring, i64_to_text, lemma_parse_decimal, parse_i64, str_contains, str_eq,
};

verus! {

pub open spec fn records(j: JVal) -> JVal {
    j.get("records"@)
}

/// The record stored under `key`.
pub open spec fn record(j: JVal, key: Seq<char>) -> JVal {
    records(j).get(key)
}

/// The record whose id is `id`.
pub open spec fn record_by_id(j: JVal, id: int) -> JVal {
    record(j, decimal(id))
}

pub open spec fn members_of(r: JVal) -> Option<Seq<JVal>> {
    r.get("members"@).as_array()
}

pub open spec fn name_of(m: JVal) -> Option<Seq<char>> {
    m.get("name"@).as_str()
}

pub open spec fn is_named(m: JVal, n: Seq<char>) -> bool {
    name_of(m) == Some(n)
}

pub open spec fn named(n: Seq<char>) -> spec_fn(JVal) -> bool {
    |m: JVal| is_named(m, n)
}

/// The `class_type_name` of a record, or the empty text.
pub open spec fn class_type_name(r: JVal) -> Seq<char> {
    match r.get("class_type_name"@).as_str() {
        Some(s) => s,
        None => Seq::empty(),
    }
}

pub open spec fn opt_text(o: Option<String>) -> Option<Seq<char>> {
    match o {
        Some(s) => Some(s@),
        None => None,
    }
}

pub open spec fn text_or_empty(o: Option<Seq<char>>) -> Seq<char> {
    match o {
        Some(s) => s,
        None => Seq::empty(),
    }
}

/// The text a `name` member of an upgrade record carries: through the string
/// record that its `id` names (the record itself, or the `value` of an object
/// record), or its own `value`.
pub open spec fn name_source(j: JVal, m: JVal) -> Option<Seq<char>> {
    match m.get("id"@).as_i64() {
        Some(nid) => {
            let nr = record_by_id(j, nid as int);
            match nr {
                JVal::Str(s) => Some(s),
                JVal::Object(_) => Some(text_or_empty(nr.get("value"@).as_str())),
                _ => None,
            }
        },
        None => m.get("value"@).as_str(),
    }
}

pub open spec fn yields_name(j: JVal) -> spec_fn(JVal) -> bool {
    |m: JVal| is_named(m, "name"@) && name_source(j, m) is Some
}

/// The name of the upgrade record with this id: what its first `name` member
/// that carries a name carries, or the empty text.
pub open spec fn upgrade_record_name(j: JVal, id: int) -> Seq<char> {
    match members_of(record_by_id(j, id)) {
        Some(ms) => match first_index(ms, yields_name(j)) {
            Some(i) => name_source(j, ms[i]).unwrap(),
            None => Seq::empty(),
        },
        None => Seq::empty(),
    }
}

/// A member named `n` whose `value` is an integer.
pub open spec fn named_int_value(n: Seq<char>) -> spec_fn(JVal) -> bool {
    |m: JVal| is_named(m, n) && m.get("value"@).as_i64() is Some
}

/// A member named `n` that references a record by an integer `id`.
pub open spec fn named_int_id(n: Seq<char>) -> spec_fn(JVal) -> bool {
    |m: JVal| is_named(m, n) && m.get("id"@).as_i64() is Some
}

pub open spec fn opt_to_i32(v: Option<i64>) -> i32 {
    match v {
        Some(x) => x as i32,
        None => 0,
    }
}

/// The `_size` of a `List` record: the value of its first `_size` member (0
/// when that is not an integer or there is none).
pub open spec fn list_size(j: JVal, list_id: int) -> i32 {
    match members_of(record_by_id(j, list_id)) {
        Some(ms) => match first_index(ms, named("_size"@)) {
            Some(i) => opt_to_i32(ms[i].get("value"@).as_i64()),
            None => 0,
        },
        None => 0,
    }
}

/// The larger of two optional ids.
pub open spec fn max_opt(a: Option<i64>, b: Option<i64>) -> Option<i64> {
    match (a, b) {
        (Some(x), Some(y)) => if x >= y { Some(x) } else { Some(y) },
        (Some(x), None) => Some(x),
        (None, y) => y,
    }
}

/// The largest key of the entries that reads as an `i64`.
pub open spec fn max_key_id(es: Seq<(Seq<char>, JVal)>) -> Option<i64>
    decreases es.len(),
{
    if es.len() == 0 {
        None
    } else {
        max_opt(max_key_id(es.drop_last()), crate::text::parse_i64(es.last().0))
    }
}

/// The largest record id of the document, 0 when there is none.
pub open spec fn max_record_id(j: JVal) -> i64 {
    match records(j).as_object() {
        Some(es) => match max_key_id(es) {
            Some(m) => m,
            None => 0,
        },
        None => 0,
    }
}

/// A record of the hero-upgrade class that tells its class id.
pub open spec fn upgrade_class_record() -> spec_fn((Seq<char>, JVal)) -> bool {
    |e: (Seq<char>, JVal)|
        has_substring(class_type_name(e.1), "SerializableHeroUpgrade"@) && e.1.get(
            "class_type_id"@,
        ).as_u64() is Some
}

/// The class id and class name of the first hero-upgrade record.
pub open spec fn upgrade_class_type(j: JVal) -> Option<(u64, Seq<char>)> {
    match records(j).as_object() {
        Some(es) => match first_index(es, upgrade_class_record()) {
            Some(i) => Some((es[i].1.get("class_type_id"@).as_u64().unwrap(), class_type_name(es[i].1))),
            None => None,
        },
        None => None,
    }
}

/// A `coinBank` member holding an integer.
pub open spec fn coin_member() -> spec_fn(JVal) -> bool {
    named_int_value("coinBank"@)
}

/// A record with a `coinBank` member holding an integer.
pub open spec fn has_coin_member() -> spec_fn((Seq<char>, JVal)) -> bool {
    |e: (Seq<char>, JVal)|
        members_of(e.1) is Some && first_index(members_of(e.1).unwrap(), coin_member()) is Some
}

/// The coin bank: the integer of the first `coinBank` member of the first
/// record that has one, as an `i32`.
pub open spec fn coin_bank(j: JVal) -> Option<i32> {
    match records(j).as_object() {
        Some(es) => match first_index(es, has_coin_member()) {
            Some(r) => {
                let ms = members_of(es[r].1).unwrap();
                let k = first_index(ms, coin_member()).unwrap();
                Some(ms[k].get("value"@).as_i64().unwrap() as i32)
            },
            None => None,
        },
        None => None,
    }
}

/// A campaign save record that has an `inventory` member.
pub open spec fn campaign_with_inventory() -> spec_fn((Seq<char>, JVal)) -> bool {
    |e: (Seq<char>, JVal)|
        has_substring(class_type_name(e.1), "CampaignSave"@) && members_of(e.1) is Some
            && first_index(members_of(e.1).unwrap(), named("inventory"@)) is Some
}

/// Where the inventory is kept, given the id its reference names: a `List`
/// record (its id, then the id of the array its `_items` references), or an
/// array record directly.
pub open spec fn inventory_container(j: JVal, cid: i64) -> Result<(Option<i64>, i64), crate::error::SaveErr> {
    let c = record_by_id(j, cid as int);
    let items = match members_of(c) {
        Some(lms) => match first_index(lms, named_int_id("_items"@)) {
            Some(k) => lms[k].get("id"@).as_i64(),
            None => None,
        },
        None => None,
    };
    match items {
        Some(aid) => Ok((Some(cid), aid)),
        None => if c.get("type"@).as_str() == Some("BinaryArray"@) {
            Ok((None, cid))
        } else {
            Err(crate::error::SaveErr::InventoryNotList(cid))
        },
    }
}

/// The inventory of the first campaign save record that has one: the id of
/// its list record, if it has one, and the id of the array that holds the slots.
pub open spec fn inventory_refs(j: JVal) -> Result<(Option<i64>, i64), crate::error::SaveErr> {
    match records(j).as_object() {
        None => Err(crate::error::SaveErr::RecordsNotFound),
        Some(es) => match first_index(es, campaign_with_inventory()) {
            None => Err(crate::error::SaveErr::InventoryNotFound),
            Some(r) => {
                let ms = members_of(es[r].1).unwrap();
                let m = ms[first_index(ms, named("inventory"@)).unwrap()];
                match m.get("id"@).as_i64() {
                    None => Err(crate::error::SaveErr::InventoryWithoutId),
                    Some(cid) => inventory_container(j, cid),
                }
            },
        },
    }
}

/// Every key that reads as an `i64` is at most the largest one.
pub proof fn lemma_max_key_id_bound(es: Seq<(Seq<char>, JVal)>, i: int, x: i64)
    requires
        0 <= i < es.len(),
        parse_i64(es[i].0) == Some(x),
    ensures
        max_key_id(es) matches Some(m) && x <= m,
    decreases es.len(),
{
    if i < es.len() - 1 {
        assert(es.drop_last()[i] == es[i]);
        lemma_max_key_id_bound(es.drop_last(), i, x);
    }
}

/// A record stored under the decimal text of `id` has an id no larger than the largest.
pub proof fn lemma_record_id_bound(j: JVal, id: i64)
    requires
        records(j).has_key(decimal(id as int)),
    ensures
        id <= max_record_id(j),
{
    let es = records(j).as_object().unwrap();
    lemma_find_key_facts(es, decimal(id as int));
    let i = find_key(es, decimal(id as int)).unwrap();
    lemma_parse_decimal(id);
    lemma_max_key_id_bound(es, i, id);
}

// ---------------------------------------------------------------------------
// Executable access to the layout.
// ---------------------------------------------------------------------------

/// `json["records"][key]` for reading.
pub fn record_of<'a>(json: &'a Json, key: &str) -> (r: Option<&'a Json>)
    ensures
        r matches Some(v) ==> v@ == record(json@, key@),
        r is None ==> record(json@, key@) == JVal::Null,
{
    match json.get("records") {
        Some(rs) => rs.get(key),
        None => None,
    }
}

/// `record["members"].as_array()`.
pub fn members_vec(r: &Json) -> (m: Option<&Vec<Json>>)
    ensures
        m is Some == members_of(r@) is Some,
        m matches Some(v) ==> members_of(r@) == Some(views(v@)),
{
    match r.get("members") {
        Some(v) => v.as_array(),
        None => None,
    }
}

/// The members of an optional record.
pub fn members_opt(r: Option<&Json>, Ghost(rv): Ghost<JVal>) -> (m: Option<&Vec<Json>>)
    requires
        r matches Some(x) ==> x@ == rv,
        r is None ==> rv == JVal::Null,
    ensures
        m is Some == members_of(rv) is Some,
        m matches Some(v) ==> members_of(rv) == Some(views(v@)),
{
    match r {
        Some(x) => members_vec(x),
        None => None,
    }
}

/// `member["name"].as_str() == Some(n)`.
pub fn name_is(m: &Json, n: &str) -> (r: bool)
    ensures
        r == is_named(m@, n@),
{
    match m.get("name") {
        Some(v) => match v.as_str() {
            Some(s) => str_eq(s, n),
            None => false,
        },
        None => false,
    }
}

/// `value[key].as_i64()`.
pub fn get_i64(v: &Json, key: &str) -> (r: Option<i64>)
    ensures
        r == v@.get(key@).as_i64(),
{
    match v.get(key) {
        Some(x) => x.as_i64(),
        None => None,
    }
}

/// `value[key].as_u64()`.
pub fn get_u64(v: &Json, key: &str) -> (r: Option<u64>)
    ensures
        r == v@.get(key@).as_u64(),
{
    match v.get(key) {
        Some(x) => x.as_u64(),
        None => None,
    }
}

/// `value[key].as_bool()`.
pub fn get_bool(v: &Json, key: &str) -> (r: Option<bool>)
    ensures
        r == v@.get(key@).as_bool(),
{
    match v.get(key) {
        Some(x) => x.as_bool(),
        None => None,
    }
}

/// `value[key].as_str()`.
pub fn get_str<'a>(v: &'a Json, key: &str) -> (r: Option<&'a str>)
    ensures
        r is Some == v@.get(key@).as_str() is Some,
        r matches Some(s) ==> v@.get(key@).as_str() == Some(s@),
{
    match v.get(key) {
        Some(x) => x.as_str(),
        None => None,
    }
}

/// `record["class_type_name"].as_str().unwrap_or("").contains(p)`.
pub fn class_name_has(r: &Json, p: &str) -> (b: bool)
    ensures
        b == has_substring(class_type_name(r@), p@),
{
    match get_str(r, "class_type_name") {
        Some(s) => str_contains(s, p),
        None => {
            let e = "";
            proof {
                reveal_strlit("");
                assert(e@ =~= Seq::<char>::empty());
            }
            str_contains(e, p)
        },
    }
}

/// The record id `id` as the key it is stored under.
pub fn id_key(id: i64) -> (k: String)
    ensures
        k@ == decimal(id as int),
{
    i64_to_text(id)
}

/// The first member with name `n`.
pub fn find_named(ms: &Vec<Json>, n: &str) -> (r: Option<usize>)
    ensures
        r matches Some(i) ==> first_index(views(ms@), named(n@)) == Some(i as int),
        r is None ==> first_index(views(ms@), named(n@)) is None,
{
    let ghost mv = views(ms@);
    let mut i: usize = 0;
    while i < ms.len()
        invariant
            mv == views(ms@),
            0 <= i <= ms.len(),
            forall|j: int| 0 <= j < i ==> !named(n@)(#[trigger] mv[j]),
        decreases ms.len() - i,
    {
        if name_is(&ms[i], n) {
            proof {
                lemma_first_is(mv, named(n@), i as int);
            }
            return Some(i);
        }
        i += 1;
    }
    proof {
        lemma_first_none(mv, named(n@));
    }
    None
}

/// The first member named `n` whose `value` is an integer.
pub fn find_named_int_value(ms: &Vec<Json>, n: &str) -> (r: Option<usize>)
    ensures
        r matches Some(i) ==> first_index(views(ms@), named_int_value(n@)) == Some(i as int),
        r is None ==> first_index(views(ms@), named_int_value(n@)) is None,
{
    let ghost mv = views(ms@);
    let mut i: usize = 0;
    while i < ms.len()
        invariant
            mv == views(ms@),
            0 <= i <= ms.len(),
            forall|j: int| 0 <= j < i ==> !named_int_value(n@)(#[trigger] mv[j]),
        decreases ms.len() - i,
    {
        if name_is(&ms[i], n) && get_i64(&ms[i], "value").is_some() {
            proof {
                lemma_first_is(mv, named_int_value(n@), i as int);
            }
            return Some(i);
        }
        i += 1;
    }
    proof {
        lemma_first_none(mv, named_int_value(n@));
    }
    None
}

/// The first member named `n` that holds an integer `id`.
pub fn find_named_int_id(ms: &Vec<Json>, n: &str) -> (r: Option<usize>)
    ensures
        r matches Some(i) ==> first_index(views(ms@), named_int_id(n@)) == Some(i as int),
        r is None ==> first_index(views(ms@), named_int_id(n@)) is None,
{
    let ghost mv = views(ms@);
    let mut i: usize = 0;
    while i < ms.len()
        invariant
            mv == views(ms@),
            0 <= i <= ms.len(),
            forall|j: int| 0 <= j < i ==> !named_int_id(n@)(#[trigger] mv[j]),
        decreases ms.len() - i,
    {
        if name_is(&ms[i], n) && get_i64(&ms[i], "id").is_some() {
            proof {
                lemma_first_is(mv, named_int_id(n@), i as int);
            }
            return Some(i);
        }
        i += 1;
    }
    proof {
        lemma_first_none(mv, named_int_id(n@));
    }
    None
}

} // verus!
