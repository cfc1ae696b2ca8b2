//! Reading a save: names of upgrade records, the inventory location, the coin bank.
use vstd::prelude::*;
use crate::error::{SaveError, SaveErr};
use crate::json::{Json, views, entry_views};
use crate::save_manager::SaveManager;
use crate::save_model::{
    campaign_with_inventory, class_name_has, coin_bank, find_named, find_named_int_id,
    find_named_int_value, get_i64, get_str, get_u64, has_coin_member, id_key, inventory_container,
    inventory_refs, list_size, max_key_id, max_record_id, members_opt, members_vec, name_is,
    name_source, opt_text, record_by_id, record_of, records, upgrade_class_record,
    upgrade_class_type, upgrade_record_name, yields_name, members_of,
};
use crate::search::{lemma_first_is, lemma_first_none};
use crate::text::{owned, parse_i64_text, str_eq};

verus! {

impl SaveManager {
    /// What a `name` member carries (see [`name_source`]).
    pub(crate) fn name_source_of(json: &Json, m: &Json) -> (r: Option<String>)
        ensures
            opt_text(r) == name_source(json@, m@),
    {
        match get_i64(m, "id") {
            Some(nid) => {
                let key = id_key(nid);
                match record_of(json, key.as_str()) {
                    Some(nr) => match nr {
                        Json::Str(s) => Some(s.clone()),
                        Json::Object(_) => match get_str(nr, "value") {
                            Some(s) => Some(owned(s)),
                            None => Some(String::new()),
                        },
                        _ => None,
                    },
                    None => None,
                }
            },
            None => match get_str(m, "value") {
                Some(s) => Some(owned(s)),
                None => None,
            },
        }
    }

    /// The name of the upgrade record with id `record_id` (see [`upgrade_record_name`]).
    pub fn read_upgrade_record_name(json: &Json, record_id: i64) -> (r: String)
        ensures
            r@ == upgrade_record_name(json@, record_id as int),
    {
        let key = id_key(record_id);
        let rec = record_of(json, key.as_str());
        let ms = match members_opt(rec, Ghost(record_by_id(json@, record_id as int))) {
            Some(m) => m,
            None => return String::new(),
        };
        let ghost mv = views(ms@);
        let mut i: usize = 0;
        while i < ms.len()
            invariant
                mv == views(ms@),
                members_of(record_by_id(json@, record_id as int)) == Some(mv),
                0 <= i <= ms.len(),
                forall|j: int| 0 <= j < i ==> !yields_name(json@)(#[trigger] mv[j]),
            decreases ms.len() - i,
        {
            if name_is(&ms[i], "name") {
                match Self::name_source_of(json, &ms[i]) {
                    Some(s) => {
                        proof {
                            lemma_first_is(mv, yields_name(json@), i as int);
                        }
                        return s;
                    },
                    None => {},
                }
            }
            i += 1;
        }
        proof {
            lemma_first_none(mv, yields_name(json@));
        }
        String::new()
    }

    /// The `_size` of the list record `list_id` (see [`list_size`]).
    pub fn get_list_size(json: &Json, list_id: i64) -> (r: i32)
        ensures
            r == list_size(json@, list_id as int),
    {
        let key = id_key(list_id);
        let rec = record_of(json, key.as_str());
        match members_opt(rec, Ghost(record_by_id(json@, list_id as int))) {
            Some(ms) => match find_named(ms, "_size") {
                Some(i) => match get_i64(&ms[i], "value") {
                    Some(v) => v as i32,
                    None => 0,
                },
                None => 0,
            },
            None => 0,
        }
    }

    /// The largest record id (see [`max_record_id`]).
    pub fn find_max_record_id(json: &Json) -> (r: i64)
        ensures
            r == max_record_id(json@),
    {
        let rs = match json.get("records") {
            Some(rs) => rs,
            None => return 0,
        };
        let es = match rs.as_object() {
            Some(es) => es,
            None => return 0,
        };
        let ghost ev = entry_views(es@);
        let mut best: Option<i64> = None;
        let mut i: usize = 0;
        while i < es.len()
            invariant
                ev == entry_views(es@),
                records(json@).as_object() == Some(ev),
                0 <= i <= es.len(),
                best == max_key_id(ev.take(i as int)),
            decreases es.len() - i,
        {
            let p = parse_i64_text(es[i].0.as_str());
            proof {
                assert(ev.take(i + 1).drop_last() =~= ev.take(i as int));
                assert(ev.take(i + 1).last() == ev[i as int]);
            }
            best = match (best, p) {
                (Some(x), Some(y)) => if x >= y {
                    Some(x)
                } else {
                    Some(y)
                },
                (Some(x), None) => Some(x),
                (None, y) => y,
            };
            i += 1;
        }
        proof {
            assert(ev.take(es.len() as int) =~= ev);
        }
        match best {
            Some(m) => m,
            None => 0,
        }
    }

    /// The class id and class name of the first hero-upgrade record (see [`upgrade_class_type`]).
    pub fn find_serializable_hero_upgrade_class_type(json: &Json) -> (r: Option<(u64, String)>)
        ensures
            r is Some == upgrade_class_type(json@) is Some,
            r matches Some(p) ==> upgrade_class_type(json@) == Some((p.0, p.1@)),
    {
        let rs = match json.get("records") {
            Some(rs) => rs,
            None => return None,
        };
        let es = match rs.as_object() {
            Some(es) => es,
            None => return None,
        };
        let ghost ev = entry_views(es@);
        let mut i: usize = 0;
        while i < es.len()
            invariant
                ev == entry_views(es@),
                records(json@).as_object() == Some(ev),
                0 <= i <= es.len(),
                forall|j: int| 0 <= j < i ==> !upgrade_class_record()(#[trigger] ev[j]),
            decreases es.len() - i,
        {
            let rec = &es[i].1;
            if class_name_has(rec, "SerializableHeroUpgrade") {
                match get_u64(rec, "class_type_id") {
                    Some(type_id) => {
                        let name = match get_str(rec, "class_type_name") {
                            Some(s) => owned(s),
                            None => String::new(),
                        };
                        proof {
                            lemma_first_is(ev, upgrade_class_record(), i as int);
                        }
                        return Some((type_id, name));
                    },
                    None => {},
                }
            }
            i += 1;
        }
        proof {
            lemma_first_none(ev, upgrade_class_record());
        }
        None
    }

    /// Where the inventory is kept (see [`inventory_refs`]).
    pub fn find_inventory_refs(json: &Json) -> (r: Result<(Option<i64>, i64), SaveError>)
        ensures
            match r {
                Ok(p) => inventory_refs(json@) == Ok::<(Option<i64>, i64), SaveErr>(p),
                Err(e) => inventory_refs(json@) == Err::<(Option<i64>, i64), SaveErr>(e@),
            },
    {
        let rs = match json.get("records") {
            Some(rs) => rs,
            None => return Err(SaveError::RecordsNotFound),
        };
        let es = match rs.as_object() {
            Some(es) => es,
            None => return Err(SaveError::RecordsNotFound),
        };
        let ghost ev = entry_views(es@);
        let mut i: usize = 0;
        while i < es.len()
            invariant
                ev == entry_views(es@),
                records(json@).as_object() == Some(ev),
                0 <= i <= es.len(),
                forall|j: int| 0 <= j < i ==> !campaign_with_inventory()(#[trigger] ev[j]),
            decreases es.len() - i,
        {
            let rec = &es[i].1;
            if class_name_has(rec, "CampaignSave") {
                match members_vec(rec) {
                    Some(ms) => match find_named(ms, "inventory") {
                        Some(k) => {
                            proof {
                                lemma_first_is(ev, campaign_with_inventory(), i as int);
                            }
                            let cid = match get_i64(&ms[k], "id") {
                                Some(c) => c,
                                None => return Err(SaveError::InventoryWithoutId),
                            };
                            return Self::inventory_container_of(json, cid);
                        },
                        None => {},
                    },
                    None => {},
                }
            }
            i += 1;
        }
        proof {
            lemma_first_none(ev, campaign_with_inventory());
        }
        Err(SaveError::InventoryNotFound)
    }

    fn inventory_container_of(json: &Json, cid: i64) -> (r: Result<(Option<i64>, i64), SaveError>)
        ensures
            match r {
                Ok(p) => inventory_container(json@, cid) == Ok::<(Option<i64>, i64), SaveErr>(p),
                Err(e) => inventory_container(json@, cid) == Err::<(Option<i64>, i64), SaveErr>(e@),
            },
    {
        let key = id_key(cid);
        let c = record_of(json, key.as_str());
        let ghost cv = record_by_id(json@, cid as int);
        match members_opt(c, Ghost(cv)) {
            Some(lms) => match find_named_int_id(lms, "_items") {
                Some(k) => {
                    let aid = get_i64(&lms[k], "id").unwrap();
                    return Ok((Some(cid), aid));
                },
                None => {},
            },
            None => {},
        }
        let is_array = match c {
            Some(cr) => match get_str(cr, "type") {
                Some(t) => str_eq(t, "BinaryArray"),
                None => false,
            },
            None => false,
        };
        if is_array {
            Ok((None, cid))
        } else {
            Err(SaveError::InventoryNotList(cid))
        }
    }

    /// The coin bank (see [`coin_bank`]).
    pub fn get_coin_bank(json: &Json) -> (r: Option<i32>)
        ensures
            r == coin_bank(json@),
    {
        let rs = match json.get("records") {
            Some(rs) => rs,
            None => return None,
        };
        let es = match rs.as_object() {
            Some(es) => es,
            None => return None,
        };
        let ghost ev = entry_views(es@);
        let mut i: usize = 0;
        while i < es.len()
            invariant
                ev == entry_views(es@),
                records(json@).as_object() == Some(ev),
                0 <= i <= es.len(),
                forall|j: int| 0 <= j < i ==> !has_coin_member()(#[trigger] ev[j]),
            decreases es.len() - i,
        {
            match members_vec(&es[i].1) {
                Some(ms) => match find_named_int_value(ms, "coinBank") {
                    Some(k) => {
                        proof {
                            lemma_first_is(ev, has_coin_member(), i as int);
                        }
                        let v = get_i64(&ms[k], "value").unwrap();
                        return Some(v as i32);
                    },
                    None => {},
                },
                None => {},
            }
            i += 1;
        }
        proof {
            lemma_first_none(ev, has_coin_member());
        }
        None
    }
}

} // verus!
