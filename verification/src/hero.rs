//! Reading heroes: the details of a hero record, the upgrades it references,
//! and the list of recruited heroes.
use vstd::prelude::*;
use crate::error::{SaveError, SaveErr};
use crate::json::{JVal, Json, JsonNum, views, entry_views};
use crate::save_manager::SaveManager;
use crate::save_model::{
    class_name_has, class_type_name, get_bool, get_i64, get_str, id_key, is_named, members_of,
    members_vec, name_is, named, named_int_id, named_int_value, record, record_by_id, record_of,
    records,
};
use crate::search::{last_index, lemma_last_extend, lemma_last_facts};
use crate::text::{decimal, has_substring, i64_to_text, owned};

verus! {

/// One upgrade that a hero references.
#[derive(Clone, Debug)]
pub struct UpgradeInfo {
    pub name: String,
    pub level: i32,
    pub record_id: String,
    pub field_name: String,
}

pub struct UpgradeInfoView {
    pub name: Seq<char>,
    pub level: i32,
    pub record_id: Seq<char>,
    pub field_name: Seq<char>,
}

impl View for UpgradeInfo {
    type V = UpgradeInfoView;

    open spec fn view(&self) -> UpgradeInfoView {
        UpgradeInfoView {
            name: self.name@,
            level: self.level,
            record_id: self.record_id@,
            field_name: self.field_name@,
        }
    }
}

pub open spec fn opt_info(o: Option<UpgradeInfo>) -> Option<UpgradeInfoView> {
    match o {
        Some(i) => Some(i@),
        None => None,
    }
}

/// What a hero record tells. The helmet hue is kept as the number the save holds.
#[derive(Clone, Debug)]
pub struct HeroDetails {
    pub key: String,
    pub id: i32,
    pub coins: i32,
    pub hue: Option<JsonNum>,
    pub has_crown: bool,
    pub crown_style: Option<String>,
    pub soldiers_lost: i32,
    pub max_soldiers: i32,
    pub class_upgrade_ref: Option<String>,
    pub item_upgrade_ref: Option<String>,
    pub trait_upgrade_ref: Option<String>,
    pub skill_upgrade_ref: Option<String>,
    pub upgrade_ref: Option<String>,
    pub class_info: Option<UpgradeInfo>,
    pub item_info: Option<UpgradeInfo>,
    pub trait_info: Option<UpgradeInfo>,
    pub skill_info: Option<UpgradeInfo>,
    pub upgrade_info: Option<UpgradeInfo>,
}

pub struct HeroView {
    pub key: Seq<char>,
    pub id: i32,
    pub coins: i32,
    pub hue: Option<JsonNum>,
    pub has_crown: bool,
    pub crown_style: Option<Seq<char>>,
    pub soldiers_lost: i32,
    pub max_soldiers: i32,
    pub class_upgrade_ref: Option<Seq<char>>,
    pub item_upgrade_ref: Option<Seq<char>>,
    pub trait_upgrade_ref: Option<Seq<char>>,
    pub skill_upgrade_ref: Option<Seq<char>>,
    pub upgrade_ref: Option<Seq<char>>,
    pub class_info: Option<UpgradeInfoView>,
    pub item_info: Option<UpgradeInfoView>,
    pub trait_info: Option<UpgradeInfoView>,
    pub skill_info: Option<UpgradeInfoView>,
    pub upgrade_info: Option<UpgradeInfoView>,
}

pub open spec fn opt_str(o: Option<String>) -> Option<Seq<char>> {
    match o {
        Some(s) => Some(s@),
        None => None,
    }
}

impl View for HeroDetails {
    type V = HeroView;

    open spec fn view(&self) -> HeroView {
        HeroView {
            key: self.key@,
            id: self.id,
            coins: self.coins,
            hue: self.hue,
            has_crown: self.has_crown,
            crown_style: opt_str(self.crown_style),
            soldiers_lost: self.soldiers_lost,
            max_soldiers: self.max_soldiers,
            class_upgrade_ref: opt_str(self.class_upgrade_ref),
            item_upgrade_ref: opt_str(self.item_upgrade_ref),
            trait_upgrade_ref: opt_str(self.trait_upgrade_ref),
            skill_upgrade_ref: opt_str(self.skill_upgrade_ref),
            upgrade_ref: opt_str(self.upgrade_ref),
            class_info: opt_info(self.class_info),
            item_info: opt_info(self.item_info),
            trait_info: opt_info(self.trait_info),
            skill_info: opt_info(self.skill_info),
            upgrade_info: opt_info(self.upgrade_info),
        }
    }
}

// ---------------------------------------------------------------------------
// What a member list says, read from its last matching member.
// ---------------------------------------------------------------------------

/// The integer `value` of the last member named `n` that holds one.
pub open spec fn last_int_value(ms: Seq<JVal>, n: Seq<char>) -> Option<i64> {
    match last_index(ms, named_int_value(n)) {
        Some(i) => ms[i].get("value"@).as_i64(),
        None => None,
    }
}

/// The integer `id` of the last member named `n` that holds one.
pub open spec fn last_int_id(ms: Seq<JVal>, n: Seq<char>) -> Option<i64> {
    match last_index(ms, named_int_id(n)) {
        Some(i) => ms[i].get("id"@).as_i64(),
        None => None,
    }
}

pub open spec fn named_num_value(n: Seq<char>) -> spec_fn(JVal) -> bool {
    |m: JVal| is_named(m, n) && m.get("value"@).as_num() is Some
}

/// The number `value` of the last member named `n` that holds one.
pub open spec fn last_num_value(ms: Seq<JVal>, n: Seq<char>) -> Option<JsonNum> {
    match last_index(ms, named_num_value(n)) {
        Some(i) => ms[i].get("value"@).as_num(),
        None => None,
    }
}

pub open spec fn named_str_value(n: Seq<char>) -> spec_fn(JVal) -> bool {
    |m: JVal| is_named(m, n) && m.get("value"@).as_str() is Some
}

/// The text `value` of the last member named `n` that holds one.
pub open spec fn last_str_value(ms: Seq<JVal>, n: Seq<char>) -> Option<Seq<char>> {
    match last_index(ms, named_str_value(n)) {
        Some(i) => ms[i].get("value"@).as_str(),
        None => None,
    }
}

/// The truth of the last member named `n`: its boolean `value`, false when it
/// has none, and false when there is no such member.
pub open spec fn last_flag(ms: Seq<JVal>, n: Seq<char>) -> bool {
    match last_index(ms, named(n)) {
        Some(i) => ms[i].get("value"@).as_bool() == Some(true),
        None => false,
    }
}

pub open spec fn to_i32(o: Option<i64>) -> i32 {
    match o {
        Some(v) => v as i32,
        None => 0,
    }
}

pub open spec fn ref_text(o: Option<i64>) -> Option<Seq<char>> {
    match o {
        Some(v) => Some(decimal(v as int)),
        None => None,
    }
}

/// The name an upgrade record's `name` member gives it, read through the
/// string record that its `id` names or from its own `value`.
pub open spec fn info_name_source(j: JVal, m: JVal) -> Option<Seq<char>> {
    match m.get("id"@).as_i64() {
        Some(nid) => {
            let nr = record_by_id(j, nid as int);
            match nr {
                JVal::Str(s) => Some(s),
                JVal::Object(_) => nr.get("value"@).as_str(),
                _ => None,
            }
        },
        None => m.get("value"@).as_str(),
    }
}

pub open spec fn sets_info_name(j: JVal) -> spec_fn(JVal) -> bool {
    |m: JVal| is_named(m, "name"@) && info_name_source(j, m) is Some
}

/// The name of an upgrade record as the hero editor shows it: from its last
/// `name` member that gives one, the empty text otherwise.
pub open spec fn info_name(j: JVal, ms: Seq<JVal>) -> Seq<char> {
    match last_index(ms, sets_info_name(j)) {
        Some(i) => info_name_source(j, ms[i]).unwrap(),
        None => Seq::empty(),
    }
}

/// The upgrade record `ref_id` refers to, as the hero editor shows it.
pub open spec fn upgrade_info(j: JVal, ref_id: Option<Seq<char>>, field: Seq<char>) -> Option<
    UpgradeInfoView,
> {
    match ref_id {
        None => None,
        Some(id) => {
            let rec = record(j, id);
            if rec is Object && members_of(rec) is Some {
                let ms = members_of(rec).unwrap();
                Some(
                    UpgradeInfoView {
                        name: info_name(j, ms),
                        level: to_i32(last_int_value(ms, "level"@)),
                        record_id: id,
                        field_name: field,
                    },
                )
            } else {
                None
            }
        },
    }
}

/// The details of the hero record stored under `hero`.
#[verifier::opaque]
pub open spec fn hero_view(j: JVal, hero: Seq<char>) -> Result<HeroView, SaveErr> {
    let rec = record(j, hero);
    if !(rec is Object) {
        Err(SaveErr::HeroRecordNotFound(hero))
    } else if members_of(rec) is None {
        Err(SaveErr::HeroMembersNotFound(hero))
    } else {
        let ms = members_of(rec).unwrap();
        let class_ref = ref_text(last_int_id(ms, "classUpgrade"@));
        let item_ref = ref_text(last_int_id(ms, "itemUpgrade"@));
        let trait_ref = ref_text(last_int_id(ms, "traitUpgrade"@));
        let skill_ref = ref_text(last_int_id(ms, "skillUpgrade"@));
        let upgrade_ref = ref_text(last_int_id(ms, "upgrade"@));
        Ok(
            HeroView {
                key: hero,
                id: to_i32(last_int_value(ms, "id"@)),
                coins: to_i32(last_int_value(ms, "_coins"@)),
                hue: last_num_value(ms, "hue"@),
                has_crown: last_flag(ms, "hasCrown"@),
                crown_style: last_str_value(ms, "crownStyle"@),
                soldiers_lost: to_i32(last_int_value(ms, "soldiersLost"@)),
                max_soldiers: to_i32(last_int_value(ms, "maxSoldiers"@)),
                class_upgrade_ref: class_ref,
                item_upgrade_ref: item_ref,
                trait_upgrade_ref: trait_ref,
                skill_upgrade_ref: skill_ref,
                upgrade_ref: upgrade_ref,
                class_info: upgrade_info(j, class_ref, "classUpgrade"@),
                item_info: upgrade_info(j, item_ref, "itemUpgrade"@),
                trait_info: upgrade_info(j, trait_ref, "traitUpgrade"@),
                skill_info: upgrade_info(j, skill_ref, "skillUpgrade"@),
                upgrade_info: upgrade_info(j, upgrade_ref, "upgrade"@),
            },
        )
    }
}

/// A record whose class is a hero definition.
pub open spec fn is_hero_entry(e: (Seq<char>, JVal)) -> bool {
    has_substring(class_type_name(e.1), "HeroDefinition"@)
}

/// The members of a record, or none when it has no `members` array.
pub open spec fn members_or_empty(r: JVal) -> Seq<JVal> {
    match members_of(r) {
        Some(ms) => ms,
        None => Seq::empty(),
    }
}

/// A hero record whose last `recruited` member is true.
pub open spec fn is_recruited(r: JVal) -> bool {
    last_flag(members_or_empty(r), "recruited"@)
}

/// The details of the recruited heroes among the entries, in order.
pub open spec fn recruited_heroes(j: JVal, es: Seq<(Seq<char>, JVal)>) -> Seq<HeroView>
    decreases es.len(),
{
    if es.len() == 0 {
        Seq::empty()
    } else {
        let prev = recruited_heroes(j, es.drop_last());
        let e = es.last();
        if is_hero_entry(e) && is_recruited(e.1) && hero_view(j, e.0) is Ok {
            prev.push(hero_view(j, e.0)->Ok_0)
        } else {
            prev
        }
    }
}

/// The recruited heroes of the document.
pub open spec fn recruited_list(j: JVal) -> Result<Seq<HeroView>, SaveErr> {
    match records(j).as_object() {
        Some(es) => Ok(recruited_heroes(j, es)),
        None => Err(SaveErr::RecordsNotFound),
    }
}

pub open spec fn heroes_view(v: Seq<HeroDetails>) -> Seq<HeroView> {
    Seq::new(v.len(), |i: int| v[i]@)
}

// ---------------------------------------------------------------------------
// Executable readers.
// ---------------------------------------------------------------------------

/// The integer `value` of the last member named `n` that holds one.
pub fn scan_last_int_value(ms: &Vec<Json>, n: &str) -> (r: Option<i64>)
    ensures
        r == last_int_value(views(ms@), n@),
{
    let ghost mv = views(ms@);
    let mut r: Option<i64> = None;
    let mut i: usize = 0;
    while i < ms.len()
        invariant
            mv == views(ms@),
            0 <= i <= ms.len(),
            r == last_int_value(mv.take(i as int), n@),
        decreases ms.len() - i,
    {
        proof {
            lemma_last_extend(mv, named_int_value(n@), i as int);
            lemma_last_facts(mv.take(i as int), named_int_value(n@));
        }
        if name_is(&ms[i], n) {
            match get_i64(&ms[i], "value") {
                Some(v) => {
                    r = Some(v);
                },
                None => {},
            }
        }
        i += 1;
    }
    proof {
        assert(mv.take(ms.len() as int) =~= mv);
    }
    r
}

/// The integer `id` of the last member named `n` that holds one.
pub fn scan_last_int_id(ms: &Vec<Json>, n: &str) -> (r: Option<i64>)
    ensures
        r == last_int_id(views(ms@), n@),
{
    let ghost mv = views(ms@);
    let mut r: Option<i64> = None;
    let mut i: usize = 0;
    while i < ms.len()
        invariant
            mv == views(ms@),
            0 <= i <= ms.len(),
            r == last_int_id(mv.take(i as int), n@),
        decreases ms.len() - i,
    {
        proof {
            lemma_last_extend(mv, named_int_id(n@), i as int);
            lemma_last_facts(mv.take(i as int), named_int_id(n@));
        }
        if name_is(&ms[i], n) {
            match get_i64(&ms[i], "id") {
                Some(v) => {
                    r = Some(v);
                },
                None => {},
            }
        }
        i += 1;
    }
    proof {
        assert(mv.take(ms.len() as int) =~= mv);
    }
    r
}

/// The number `value` of the last member named `n` that holds one.
pub fn scan_last_num_value(ms: &Vec<Json>, n: &str) -> (r: Option<JsonNum>)
    ensures
        r == last_num_value(views(ms@), n@),
{
    let ghost mv = views(ms@);
    let mut r: Option<JsonNum> = None;
    let mut i: usize = 0;
    while i < ms.len()
        invariant
            mv == views(ms@),
            0 <= i <= ms.len(),
            r == last_num_value(mv.take(i as int), n@),
        decreases ms.len() - i,
    {
        proof {
            lemma_last_extend(mv, named_num_value(n@), i as int);
            lemma_last_facts(mv.take(i as int), named_num_value(n@));
        }
        if name_is(&ms[i], n) {
            match ms[i].get("value") {
                Some(v) => match v.as_num() {
                    Some(x) => {
                        r = Some(x);
                    },
                    None => {},
                },
                None => {},
            }
        }
        i += 1;
    }
    proof {
        assert(mv.take(ms.len() as int) =~= mv);
    }
    r
}

/// The text `value` of the last member named `n` that holds one.
pub fn scan_last_str_value(ms: &Vec<Json>, n: &str) -> (r: Option<String>)
    ensures
        opt_str(r) == last_str_value(views(ms@), n@),
{
    let ghost mv = views(ms@);
    let mut r: Option<String> = None;
    let mut i: usize = 0;
    while i < ms.len()
        invariant
            mv == views(ms@),
            0 <= i <= ms.len(),
            opt_str(r) == last_str_value(mv.take(i as int), n@),
        decreases ms.len() - i,
    {
        proof {
            lemma_last_extend(mv, named_str_value(n@), i as int);
            lemma_last_facts(mv.take(i as int), named_str_value(n@));
        }
        if name_is(&ms[i], n) {
            match get_str(&ms[i], "value") {
                Some(s) => {
                    r = Some(owned(s));
                },
                None => {},
            }
        }
        i += 1;
    }
    proof {
        assert(mv.take(ms.len() as int) =~= mv);
    }
    r
}

/// The truth of the last member named `n` (see [`last_flag`]).
pub fn scan_last_flag(ms: &Vec<Json>, n: &str) -> (r: bool)
    ensures
        r == last_flag(views(ms@), n@),
{
    let ghost mv = views(ms@);
    let mut r: bool = false;
    let mut i: usize = 0;
    while i < ms.len()
        invariant
            mv == views(ms@),
            0 <= i <= ms.len(),
            r == last_flag(mv.take(i as int), n@),
        decreases ms.len() - i,
    {
        proof {
            lemma_last_extend(mv, named(n@), i as int);
            lemma_last_facts(mv.take(i as int), named(n@));
        }
        if name_is(&ms[i], n) {
            r = match get_bool(&ms[i], "value") {
                Some(b) => b,
                None => false,
            };
        }
        i += 1;
    }
    proof {
        assert(mv.take(ms.len() as int) =~= mv);
    }
    r
}

impl SaveManager {
    /// What a `name` member gives the hero editor (see [`info_name_source`]).
    fn info_name_source_of(json: &Json, m: &Json) -> (r: Option<String>)
        ensures
            opt_str(r) == info_name_source(json@, m@),
    {
        match get_i64(m, "id") {
            Some(nid) => {
                let key = id_key(nid);
                match record_of(json, key.as_str()) {
                    Some(nr) => match nr {
                        Json::Str(s) => Some(s.clone()),
                        Json::Object(_) => match get_str(nr, "value") {
                            Some(s) => Some(owned(s)),
                            None => None,
                        },
                        _ => None,
                    },
                    None => None,
                }
            },
            None => match get_str(m, "value") {
                Some(s) => Some(owned(s)),
                None => None,
            },
        }
    }

    fn scan_info_name(json: &Json, ms: &Vec<Json>) -> (r: String)
        ensures
            r@ == info_name(json@, views(ms@)),
    {
        let ghost mv = views(ms@);
        let ghost p = sets_info_name(json@);
        let mut r: String = String::new();
        let mut i: usize = 0;
        while i < ms.len()
            invariant
                mv == views(ms@),
                p == sets_info_name(json@),
                0 <= i <= ms.len(),
                r@ == info_name(json@, mv.take(i as int)),
            decreases ms.len() - i,
        {
            proof {
                lemma_last_extend(mv, p, i as int);
                lemma_last_facts(mv.take(i as int), p);
            }
            if name_is(&ms[i], "name") {
                match Self::info_name_source_of(json, &ms[i]) {
                    Some(s) => {
                        r = s;
                    },
                    None => {},
                }
            }
            i += 1;
        }
        proof {
            assert(mv.take(ms.len() as int) =~= mv);
        }
        r
    }

    /// The upgrade record that `ref_id` refers to (see [`upgrade_info`]).
    pub fn get_upgrade_info(json: &Json, ref_id: &Option<String>, field_name: &str) -> (r: Option<
        UpgradeInfo,
    >)
        ensures
            opt_info(r) == upgrade_info(json@, opt_str(*ref_id), field_name@),
    {
        let id = match ref_id {
            Some(id) => id,
            None => return None,
        };
        let rec = match record_of(json, id.as_str()) {
            Some(r) => r,
            None => return None,
        };
        if !rec.is_object() {
            return None;
        }
        let ms = match members_vec(rec) {
            Some(m) => m,
            None => return None,
        };
        let name = Self::scan_info_name(json, ms);
        let level = match scan_last_int_value(ms, "level") {
            Some(l) => l as i32,
            None => 0,
        };
        Some(UpgradeInfo { name, level, record_id: id.clone(), field_name: owned(field_name) })
    }

    fn ref_of(ms: &Vec<Json>, n: &str) -> (r: Option<String>)
        ensures
            opt_str(r) == ref_text(last_int_id(views(ms@), n@)),
    {
        match scan_last_int_id(ms, n) {
            Some(id) => Some(i64_to_text(id)),
            None => None,
        }
    }

    /// The details of the hero record `hero_record_id` (see [`hero_view`]).
    pub fn get_hero_details(json: &Json, hero_record_id: &str) -> (r: Result<HeroDetails, SaveError>)
        ensures
            match r {
                Ok(d) => hero_view(json@, hero_record_id@) == Ok::<HeroView, SaveErr>(d@),
                Err(e) => hero_view(json@, hero_record_id@) == Err::<HeroView, SaveErr>(e@),
            },
    {
        reveal(hero_view);
        let rec = match record_of(json, hero_record_id) {
            Some(r) => r,
            None => return Err(SaveError::HeroRecordNotFound(owned(hero_record_id))),
        };
        if !rec.is_object() {
            return Err(SaveError::HeroRecordNotFound(owned(hero_record_id)));
        }
        let ms = match members_vec(rec) {
            Some(m) => m,
            None => return Err(SaveError::HeroMembersNotFound(owned(hero_record_id))),
        };
        let class_upgrade_ref = Self::ref_of(ms, "classUpgrade");
        let item_upgrade_ref = Self::ref_of(ms, "itemUpgrade");
        let trait_upgrade_ref = Self::ref_of(ms, "traitUpgrade");
        let skill_upgrade_ref = Self::ref_of(ms, "skillUpgrade");
        let upgrade_ref = Self::ref_of(ms, "upgrade");
        let class_info = Self::get_upgrade_info(json, &class_upgrade_ref, "classUpgrade");
        let item_info = Self::get_upgrade_info(json, &item_upgrade_ref, "itemUpgrade");
        let trait_info = Self::get_upgrade_info(json, &trait_upgrade_ref, "traitUpgrade");
        let skill_info = Self::get_upgrade_info(json, &skill_upgrade_ref, "skillUpgrade");
        let upgrade_info = Self::get_upgrade_info(json, &upgrade_ref, "upgrade");
        let id = match scan_last_int_value(ms, "id") {
            Some(v) => v as i32,
            None => 0,
        };
        let coins = match scan_last_int_value(ms, "_coins") {
            Some(v) => v as i32,
            None => 0,
        };
        let soldiers_lost = match scan_last_int_value(ms, "soldiersLost") {
            Some(v) => v as i32,
            None => 0,
        };
        let max_soldiers = match scan_last_int_value(ms, "maxSoldiers") {
            Some(v) => v as i32,
            None => 0,
        };
        Ok(
            HeroDetails {
                key: owned(hero_record_id),
                id,
                coins,
                hue: scan_last_num_value(ms, "hue"),
                has_crown: scan_last_flag(ms, "hasCrown"),
                crown_style: scan_last_str_value(ms, "crownStyle"),
                soldiers_lost,
                max_soldiers,
                class_upgrade_ref,
                item_upgrade_ref,
                trait_upgrade_ref,
                skill_upgrade_ref,
                upgrade_ref,
                class_info,
                item_info,
                trait_info,
                skill_info,
                upgrade_info,
            },
        )
    }

    /// Whether a hero record is recruited (see [`is_recruited`]).
    fn recruited_flag(rec: &Json) -> (r: bool)
        ensures
            r == is_recruited(rec@),
    {
        match members_vec(rec) {
            Some(ms) => scan_last_flag(ms, "recruited"),
            None => {
                proof {
                    lemma_last_facts(Seq::<JVal>::empty(), named("recruited"@));
                }
                false
            },
        }
    }

    /// The details of every recruited hero, in record order (see [`recruited_list`]).
    pub fn get_recruited_heroes(json: &Json) -> (r: Result<Vec<HeroDetails>, SaveError>)
        ensures
            match r {
                Ok(v) => recruited_list(json@) == Ok::<Seq<HeroView>, SaveErr>(heroes_view(v@)),
                Err(e) => recruited_list(json@) == Err::<Seq<HeroView>, SaveErr>(e@),
            },
    {
        let rs = match json.get("records") {
            Some(rs) => rs,
            None => return Err(SaveError::RecordsNotFound),
        };
        let es = match rs.as_object() {
            Some(es) => es,
            None => return Err(SaveError::RecordsNotFound),
        };
        let ghost ev = entry_views(es@);
        let mut heroes: Vec<HeroDetails> = Vec::new();
        let mut i: usize = 0;
        while i < es.len()
            invariant
                ev == entry_views(es@),
                records(json@).as_object() == Some(ev),
                0 <= i <= es.len(),
                heroes_view(heroes@) == recruited_heroes(json@, ev.take(i as int)),
            decreases es.len() - i,
        {
            proof {
                assert(ev.take(i + 1).drop_last() =~= ev.take(i as int));
                assert(ev.take(i + 1).last() == ev[i as int]);
            }
            let ghost before = heroes@;
            let rec = &es[i].1;
            if class_name_has(rec, "HeroDefinition") && Self::recruited_flag(rec) {
                match Self::get_hero_details(json, es[i].0.as_str()) {
                    Ok(d) => {
                        heroes.push(d);
                        proof {
                            assert(heroes_view(heroes@) =~= heroes_view(before).push(d@));
                        }
                    },
                    Err(_) => {},
                }
            }
            i += 1;
        }
        proof {
            assert(ev.take(es.len() as int) =~= ev);
        }
        Ok(heroes)
    }
}

/// How the editor shows an upgrade with its level: `name(Llevel)`.
pub open spec fn leveled(u: UpgradeInfoView) -> Seq<char> {
    u.name + "(L"@ + decimal(u.level as int) + ")"@
}

/// How the editor shows an upgrade: its name with its level when `with_level`,
/// or `none` when there is no upgrade.
pub open spec fn shown(o: Option<UpgradeInfoView>, with_level: bool, none: Seq<char>) -> Seq<char> {
    match o {
        Some(u) => if with_level {
            leveled(u)
        } else {
            u.name
        },
        None => none,
    }
}

/// Builds the text an upgrade is shown as (see [`shown`]).
fn show_info(o: &Option<UpgradeInfo>, with_level: bool, none: &str) -> (r: String)
    ensures
        r@ == shown(opt_info(*o), with_level, none@),
{
    match o {
        Some(u) => {
            let mut s = u.name.clone();
            if with_level {
                s.append("(L");
                let lv = i64_to_text(u.level as i64);
                s.append(lv.as_str());
                s.append(")");
            }
            s
        },
        None => owned(none),
    }
}

impl HeroDetails {
    /// The hero's class with its level, or `No Class`.
    pub fn class_display(&self) -> (r: String)
        ensures
            r@ == shown(opt_info(self.class_info), true, "No Class"@),
    {
        show_info(&self.class_info, true, "No Class")
    }

    /// The hero's item with its level, or `No Item`.
    pub fn item_display(&self) -> (r: String)
        ensures
            r@ == shown(opt_info(self.item_info), true, "No Item"@),
    {
        show_info(&self.item_info, true, "No Item")
    }

    /// The hero's trait, or `No Trait`.
    pub fn trait_display(&self) -> (r: String)
        ensures
            r@ == shown(opt_info(self.trait_info), false, "No Trait"@),
    {
        show_info(&self.trait_info, false, "No Trait")
    }

    /// The hero's skill with its level, or `No Skill`.
    pub fn skill_display(&self) -> (r: String)
        ensures
            r@ == shown(opt_info(self.skill_info), true, "No Skill"@),
    {
        show_info(&self.skill_info, true, "No Skill")
    }

    /// The hero's upgrade, or `No Upgrade`.
    pub fn upgrade_display(&self) -> (r: String)
        ensures
            r@ == shown(opt_info(self.upgrade_info), false, "No Upgrade"@),
    {
        show_info(&self.upgrade_info, false, "No Upgrade")
    }

    /// Whether the hero wears a crown, as the editor shows it.
    pub fn crown_display(&self) -> (r: String)
        ensures
            r@ == if self.has_crown {
                "✔已启用"@
            } else {
                "✗未启用"@
            },
    {
        if self.has_crown {
            owned("✔已启用")
        } else {
            owned("✗未启用")
        }
    }
}

} // verus!
