//! Giving a grail to a recruited hero, and taking it back, through the hero's
//! `upgrade` field.
use vstd::prelude::*;
use crate::error::{SaveError, SaveErr, unit_result};
use crate::hero::{HeroDetails, HeroView, heroes_view, hero_view, recruited_heroes, recruited_list};
use crate::hero_edit::{clear_edit, edit_member_of};
use crate::json::{JVal, Json};
use crate::save_manager::{SaveManager, GRAIL_UPGRADE_CODE};
use crate::save_model::{members_of, record, records};
use crate::search::{first_index, lemma_first_is, lemma_first_none};
use crate::text::{owned, str_eq};
use crate::upgrade_edit::{lemma_writable, modify_ok, modify_upgrade};

verus! {

/// A hero whose `upgrade` holds a named item other than a grail.
pub open spec fn grail_slot() -> spec_fn(HeroView) -> bool {
    |h: HeroView|
        h.upgrade_info matches Some(info) && info.name.len() > 0 && info.name != GRAIL_UPGRADE_CODE@
}

/// A hero whose `upgrade` is a grail.
pub open spec fn grail_holder() -> spec_fn(HeroView) -> bool {
    |h: HeroView| h.upgrade_info matches Some(info) && info.name == GRAIL_UPGRADE_CODE@
}

/// Turning the `upgrade` of the first recruited hero that holds some other
/// named item into a grail, at that item's level.
pub open spec fn add_hero_grail(j: JVal) -> (JVal, Result<(), SaveErr>) {
    match recruited_list(j) {
        Err(e) => (j, Err(e)),
        Ok(hs) => match first_index(hs, grail_slot()) {
            None => (j, Err(SaveErr::NoHeroForGrail)),
            Some(i) => modify_upgrade(
                j,
                hs[i].key,
                "upgrade"@,
                GRAIL_UPGRADE_CODE@,
                hs[i].upgrade_info.unwrap().level,
            ),
        },
    }
}

/// Turning a hero's `upgrade` into a grail reads records that have the
/// entries it reads, and does not overflow the new record id (see [`modify_ok`]).
pub open spec fn add_hero_grail_ok(j: JVal) -> bool {
    match recruited_list(j) {
        Ok(hs) => match first_index(hs, grail_slot()) {
            Some(i) => modify_ok(j, hs[i].key, "upgrade"@),
            None => true,
        },
        Err(_) => true,
    }
}

/// Clearing the `upgrade` of the first recruited hero that holds a grail.
pub open spec fn remove_hero_grail(j: JVal) -> (JVal, Result<(), SaveErr>) {
    match recruited_list(j) {
        Err(e) => (j, Err(e)),
        Ok(hs) => match first_index(hs, grail_holder()) {
            None => (j, Err(SaveErr::NoHeroWithGrail)),
            Some(i) => edit_member_of(
                j,
                hs[i].key,
                "upgrade"@,
                clear_edit(),
                SaveErr::HeroRecordNotFound(hs[i].key),
                SaveErr::HeroMembersNotFound(hs[i].key),
                Err(SaveErr::HeroHasNoUpgradeMember(hs[i].key)),
            ),
        },
    }
}

/// Every recruited hero is the hero its key reads as.
pub proof fn lemma_recruited_heroes_valid(j: JVal, es: Seq<(Seq<char>, JVal)>, i: int)
    requires
        0 <= i < recruited_heroes(j, es).len(),
    ensures
        hero_view(j, recruited_heroes(j, es)[i].key) == Ok::<HeroView, SaveErr>(recruited_heroes(j, es)[i]),
    decreases es.len(),
{
    let prev = recruited_heroes(j, es.drop_last());
    if i < prev.len() {
        lemma_recruited_heroes_valid(j, es.drop_last(), i);
    } else {
        let e = es.last();
        reveal(hero_view);
        assert(hero_view(j, e.0)->Ok_0.key == e.0);
    }
}

/// A hero that reads as a hero has a record with members.
pub proof fn lemma_hero_view_record(j: JVal, key: Seq<char>)
    requires
        hero_view(j, key) is Ok,
    ensures
        record(j, key) is Object,
        members_of(record(j, key)) is Some,
{
    reveal(hero_view);
}

impl SaveManager {
    /// The first hero matching `grail` (a slot for a grail when `true`, a
    /// grail holder when `false`).
    fn find_grail_hero(heroes: &Vec<HeroDetails>, slot: bool) -> (r: Option<usize>)
        ensures
            ({
                let p = if slot { grail_slot() } else { grail_holder() };
                match r {
                    Some(i) => first_index(heroes_view(heroes@), p) == Some(i as int),
                    None => first_index(heroes_view(heroes@), p) is None,
                }
            }),
    {
        let ghost hv = heroes_view(heroes@);
        let ghost p = if slot { grail_slot() } else { grail_holder() };
        let mut i: usize = 0;
        while i < heroes.len()
            invariant
                hv == heroes_view(heroes@),
                p == (if slot { grail_slot() } else { grail_holder() }),
                0 <= i <= heroes.len(),
                forall|k: int| 0 <= k < i ==> !p(#[trigger] hv[k]),
            decreases heroes.len() - i,
        {
            let hit = match &heroes[i].upgrade_info {
                Some(info) => if slot {
                    !info.name.as_str().is_empty() && !str_eq(info.name.as_str(), GRAIL_UPGRADE_CODE)
                } else {
                    str_eq(info.name.as_str(), GRAIL_UPGRADE_CODE)
                },
                None => false,
            };
            if hit {
                proof {
                    lemma_first_is(hv, p, i as int);
                }
                return Some(i);
            }
            i += 1;
        }
        proof {
            lemma_first_none(hv, p);
        }
        None
    }

    /// Gives a grail to the first recruited hero whose `upgrade` holds some
    /// other named item (see [`add_hero_grail`]).
    pub fn add_grail(json: &mut Json) -> (r: Result<(), SaveError>)
        requires
            add_hero_grail_ok(old(json)@),
        ensures
            (final(json)@, unit_result(r)) == add_hero_grail(old(json)@),
    {
        let heroes = match Self::get_recruited_heroes(json) {
            Ok(h) => h,
            Err(e) => return Err(e),
        };
        match Self::find_grail_hero(&heroes, true) {
            Some(k) => {
                let level = match &heroes[k].upgrade_info {
                    Some(info) => info.level,
                    None => 0,
                };
                Self::modify_hero_upgrade(json, heroes[k].key.as_str(), "upgrade", GRAIL_UPGRADE_CODE, level)
            },
            None => Err(SaveError::NoHeroForGrail),
        }
    }

    /// Takes the grail from the first recruited hero that holds one: its
    /// `upgrade` member is cleared (see [`remove_hero_grail`]).
    pub fn remove_grail(json: &mut Json) -> (r: Result<(), SaveError>)
        ensures
            (final(json)@, unit_result(r)) == remove_hero_grail(old(json)@),
    {
        let heroes = match Self::get_recruited_heroes(json) {
            Ok(h) => h,
            Err(e) => return Err(e),
        };
        match Self::find_grail_hero(&heroes, false) {
            Some(k) => {
                let key = heroes[k].key.as_str();
                proof {
                    let hs = recruited_list(json@)->Ok_0;
                    lemma_recruited_heroes_valid(json@, records(json@).as_object().unwrap(), k as int);
                    lemma_hero_view_record(json@, key@);
                    lemma_writable(json@, key@);
                }
                Self::edit_record_member(
                    json,
                    key,
                    "upgrade",
                    None,
                    SaveError::HeroRecordNotFound(owned(key)),
                    SaveError::HeroMembersNotFound(owned(key)),
                    Err(SaveError::HeroHasNoUpgradeMember(owned(key))),
                )
            },
            None => Err(SaveError::NoHeroWithGrail),
        }
    }
}

} // verus!
