//! What holds of the save operations taken together: what a read gives back
//! after a write, and what a refusal leaves.
use vstd::prelude::*;
use crate::bank::{bank_entries, bank_set, coin_target, set_coin_bank, touched};
use crate::error::SaveErr;
use crate::inventory::inventory_count;
use crate::item_counts::{add_custom, capped_increment, inventory_capacity};
use crate::json::{JVal, JsonNum, num_of_int, lemma_set_then_get, lemma_set_other};
use crate::save_manager::normalized_type;
use crate::save_model::{coin_bank, coin_member, has_coin_member, members_of, named, records};
use crate::search::{first_index, lemma_first_facts, lemma_first_is, lemma_last_facts};
use crate::hero::{hero_view, named_str_value, named_num_value};
use crate::hero_edit::{
    crown_member, crown_members, crown_style_value, default_crown_style, lemma_put_record_facts,
    member_obj, set_coins, set_crown, set_hue, slot, slot_ok, value_edit, edit_member_of,
};
use crate::save_model::{is_named, named_int_value, record};

verus! {

/// Two member keys that differ.
proof fn lemma_value_not_name()
    ensures
        "value"@ != "name"@,
{
    reveal_strlit("value");
    reveal_strlit("name");
    assert("value"@.len() != "name"@.len());
}

/// A member named `coinBank` keeps its name when its value is set, and then
/// holds the amount.
proof fn lemma_coin_member_set(m: JVal, coins: i32)
    requires
        named("coinBank"@)(m),
    ensures
        coin_member()(m.set("value"@, JVal::Num(num_of_int(coins as int)))),
        m.set("value"@, JVal::Num(num_of_int(coins as int))).get("value"@).as_i64() == Some(coins as i64),
{
    lemma_value_not_name();
    lemma_set_other(m, "value"@, JVal::Num(num_of_int(coins as int)), "name"@);
    lemma_set_then_get(m, "value"@, JVal::Num(num_of_int(coins as int)));
}

/// Setting the coin bank, when it succeeds, is what reading it gives back.
pub proof fn law_coin_bank_round_trip(j: JVal, coins: i32)
    requires
        set_coin_bank(j, coins).1 is Ok,
    ensures
        coin_bank(set_coin_bank(j, coins).0) == Some(coins),
{
    let j1 = j.ensure_key("records"@);
    let es = j1.get("records"@).as_object().unwrap();
    lemma_first_facts(es, coin_target());
    let t = first_index(es, coin_target()).unwrap();
    let be = bank_entries(es, t, coins);
    if !(j is Object) && !(j is Null) {
        assert(j1 == j);
        assert(false);
    }
    lemma_set_then_get(j1, "records"@, JVal::Object(be));
    let j2 = set_coin_bank(j, coins).0;
    assert(records(j2) == JVal::Object(be));
    // no record before `t` has a `coinBank` member
    assert forall|k: int| 0 <= k < t implies !has_coin_member()(#[trigger] be[k]) by {
        assert(!coin_target()(es[k]));
        let r = es[k].1;
        assert(be[k] == touched(es[k]));
        if r.has_key("members"@) {
            assert(r.ensure_key("members"@) == r);
            if let Some(ms) = members_of(r) {
                lemma_first_facts(ms, named("coinBank"@));
                lemma_first_facts(ms, coin_member());
                if let Some(q) = first_index(ms, coin_member()) {
                    assert(named("coinBank"@)(ms[q]));
                }
            }
        } else if r is Object || r is Null {
            lemma_set_then_get(r, "members"@, JVal::Null);
        }
    }
    // record `t` has its first `coinBank` member set to the amount
    let r = es[t].1;
    let ms = members_of(r).unwrap();
    lemma_first_facts(ms, named("coinBank"@));
    let i = first_index(ms, named("coinBank"@)).unwrap();
    let m2 = ms[i].set("value"@, JVal::Num(num_of_int(coins as int)));
    let ms2 = ms.update(i, m2);
    lemma_coin_member_set(ms[i], coins);
    assert(r is Object);
    lemma_set_then_get(r, "members"@, JVal::Array(ms2));
    assert(be[t].1 == bank_set(r, coins));
    assert(members_of(be[t].1) == Some(ms2));
    assert forall|q: int| 0 <= q < i implies !coin_member()(#[trigger] ms2[q]) by {
        assert(ms2[q] == ms[q]);
        assert(!named("coinBank"@)(ms[q]));
    }
    assert(coin_member()(ms2[i]));
    lemma_first_is(ms2, coin_member(), i);
    assert(has_coin_member()(be[t]));
    lemma_first_is(be, has_coin_member(), t);
}

/// A full inventory refuses another item, by code or by count, and is left
/// as it was.
pub proof fn law_full_inventory_refuses(j: JVal, code: Seq<char>)
    requires
        inventory_count(j, None) >= inventory_capacity(),
    ensures
        capped_increment(j, code) == (j, Err::<i32, SaveErr>(SaveErr::InventoryFull(inventory_count(j, None) as i32))),
        add_custom(j, code) == (j, Err::<(), SaveErr>(SaveErr::InventoryFull(inventory_count(j, None) as i32))),
{
}

/// Normalizing an upgrade field's name twice gives what normalizing it once gives.
pub proof fn law_normalize_idempotent(t: Seq<char>)
    ensures
        normalized_type(normalized_type(t)) == normalized_type(t),
{
    reveal_strlit("classUpgrade");
    reveal_strlit("classUpgrades");
    reveal_strlit("class_upgrade");
    reveal_strlit("class_upgrades");
    reveal_strlit("itemUpgrade");
    reveal_strlit("itemUpgrades");
    reveal_strlit("item_upgrade");
    reveal_strlit("item_upgrades");
    reveal_strlit("traitUpgrade");
    reveal_strlit("traitUpgrades");
    reveal_strlit("trait_upgrade");
    reveal_strlit("trait_upgrades");
    reveal_strlit("skillUpgrade");
    reveal_strlit("skillUpgrades");
    reveal_strlit("skill_upgrade");
    reveal_strlit("skill_upgrades");
    reveal_strlit("upgrade");
    reveal_strlit("upgrades");
    let n = normalized_type(t);
    if n != t {
        assert(n.len() == 12 || n.len() == 11 || n.len() == 7);
        if n == "classUpgrade"@ || n == "skillUpgrade"@ {
            assert(n[5] == 'U');
        } else if n == "traitUpgrade"@ {
            assert(n[5] == 'U');
        } else if n == "itemUpgrade"@ {
            assert(n[4] == 'U');
        }
    }
}

/// Two member names that differ.
proof fn lemma_crown_names()
    ensures
        "hasCrown"@ != "crownStyle"@,
        "value"@ != "name"@,
{
    reveal_strlit("hasCrown");
    reveal_strlit("crownStyle");
    assert("hasCrown"@.len() != "crownStyle"@.len());
    lemma_value_not_name();
}

/// Setting a member's value keeps its name.
proof fn lemma_set_value_keeps_name(m: JVal, v: JVal, n: Seq<char>)
    requires
        is_named(m, n),
    ensures
        is_named(m.set("value"@, v), n),
        m.set("value"@, v).get("value"@) == v,
{
    lemma_value_not_name();
    lemma_set_other(m, "value"@, v, "name"@);
    lemma_set_then_get(m, "value"@, v);
}

/// After the crown is set, each member named `hasCrown` holds the flag and
/// each member named `crownStyle` the style it goes with; there is one of each.
proof fn lemma_crown_members(ms: Seq<JVal>, has: bool)
    ensures
        forall|k: int|
            0 <= k < crown_members(ms, has).len() && is_named(#[trigger] crown_members(ms, has)[k], "hasCrown"@)
                ==> crown_members(ms, has)[k].get("value"@) == JVal::Bool(has),
        forall|k: int|
            0 <= k < crown_members(ms, has).len() && is_named(#[trigger] crown_members(ms, has)[k], "crownStyle"@)
                ==> crown_members(ms, has)[k].get("value"@) == crown_style_value(has),
        exists|k: int| 0 <= k < crown_members(ms, has).len() && is_named(#[trigger] crown_members(ms, has)[k], "hasCrown"@),
        exists|k: int| 0 <= k < crown_members(ms, has).len() && is_named(#[trigger] crown_members(ms, has)[k], "crownStyle"@),
{
    lemma_crown_names();
    let ms1 = ms.map_values(|m: JVal| crown_member(m, has));
    let out = crown_members(ms, has);
    assert forall|k: int| 0 <= k < ms1.len() implies {
        &&& is_named(#[trigger] ms1[k], "hasCrown"@) <==> is_named(ms[k], "hasCrown"@)
        &&& is_named(ms1[k], "crownStyle"@) <==> is_named(ms[k], "crownStyle"@)
        &&& is_named(ms1[k], "hasCrown"@) ==> ms1[k].get("value"@) == JVal::Bool(has)
        &&& is_named(ms1[k], "crownStyle"@) ==> ms1[k].get("value"@) == crown_style_value(has)
    } by {
        let m = ms[k];
        if is_named(m, "hasCrown"@) {
            lemma_set_value_keeps_name(m, JVal::Bool(has), "hasCrown"@);
        } else if is_named(m, "crownStyle"@) {
            lemma_set_value_keeps_name(m, crown_style_value(has), "crownStyle"@);
        }
    }
    let hm = member_obj("hasCrown"@, "Boolean"@, JVal::Bool(has));
    let sm = member_obj("crownStyle"@, "String"@, crown_style_value(has));
    reveal_strlit("name");
    reveal_strlit("type");
    reveal_strlit("value");
    crate::json::lemma_find_key_is(hm->Object_0, "name"@, 0);
    crate::json::lemma_find_key_is(sm->Object_0, "name"@, 0);
    assert("name"@ != "value"@);
    assert("type"@ != "value"@) by {
        assert("type"@.len() != "value"@.len());
    }
    crate::json::lemma_find_key_is(hm->Object_0, "value"@, 2);
    crate::json::lemma_find_key_is(sm->Object_0, "value"@, 2);
    assert(is_named(hm, "hasCrown"@));
    assert(is_named(sm, "crownStyle"@));
    assert(!is_named(sm, "hasCrown"@));
    assert(!is_named(hm, "crownStyle"@));
    lemma_first_facts(ms, named("hasCrown"@));
    lemma_first_facts(ms, named("crownStyle"@));
    let ms2 = if first_index(ms, named("hasCrown"@)) is None {
        ms1.push(hm)
    } else {
        ms1
    };
    assert forall|k: int| 0 <= k < out.len() && is_named(#[trigger] out[k], "hasCrown"@) implies out[k].get("value"@)
        == JVal::Bool(has) by {
        if k < ms1.len() {
            assert(out[k] == ms1[k]);
        } else if k == ms1.len() && first_index(ms, named("hasCrown"@)) is None {
            assert(out[k] == hm);
        } else {
            assert(out[k] == sm);
        }
    }
    assert forall|k: int| 0 <= k < out.len() && is_named(#[trigger] out[k], "crownStyle"@) implies out[k].get("value"@)
        == crown_style_value(has) by {
        if k < ms1.len() {
            assert(out[k] == ms1[k]);
        } else if k == ms1.len() && first_index(ms, named("hasCrown"@)) is None {
            assert(out[k] == hm);
        } else {
            assert(out[k] == sm);
        }
    }
    match first_index(ms, named("hasCrown"@)) {
        Some(q) => {
            assert(is_named(out[q], "hasCrown"@));
        },
        None => {
            assert(out[ms1.len() as int] == hm);
        },
    }
    match first_index(ms, named("crownStyle"@)) {
        Some(q) => {
            assert(is_named(out[q], "crownStyle"@));
        },
        None => {
            assert(out[ms2.len() as int] == sm);
        },
    }
}

/// Setting whether a hero wears a crown, when it succeeds, is what the hero's
/// details give back: the flag, with the default style or none.
pub proof fn law_crown_round_trip(j: JVal, hero: Seq<char>, has: bool)
    requires
        slot_ok(j),
        set_crown(j, hero, has).1 is Ok,
    ensures
        hero_view(set_crown(j, hero, has).0, hero) is Ok,
        hero_view(set_crown(j, hero, has).0, hero)->Ok_0.has_crown == has,
        hero_view(set_crown(j, hero, has).0, hero)->Ok_0.crown_style == if has {
            Some(default_crown_style())
        } else {
            None
        },
{
    let h = slot(j, hero);
    let ms = members_of(h).unwrap();
    let out = crown_members(ms, has);
    let h2 = h.set("members"@, JVal::Array(out));
    lemma_put_record_facts(j, hero, h2);
    lemma_set_then_get(h, "members"@, JVal::Array(out));
    let j2 = set_crown(j, hero, has).0;
    assert(record(j2, hero) == h2);
    lemma_crown_members(ms, has);
    reveal(hero_view);
    lemma_last_facts(out, named("hasCrown"@));
    let wk = choose|k: int| 0 <= k < out.len() && is_named(#[trigger] out[k], "hasCrown"@);
    assert(named("hasCrown"@)(out[wk]));
    lemma_last_facts(out, named_str_value("crownStyle"@));
    if has {
        let sk = choose|k: int| 0 <= k < out.len() && is_named(#[trigger] out[k], "crownStyle"@);
        assert(named_str_value("crownStyle"@)(out[sk]));
    } else {
        assert forall|k: int| 0 <= k < out.len() implies !named_str_value("crownStyle"@)(#[trigger] out[k]) by {
            if is_named(out[k], "crownStyle"@) {
                assert(out[k].get("value"@) == JVal::Null);
            }
        }
        crate::search::lemma_last_none(out, named_str_value("crownStyle"@));
    }
}

/// The hero record has at most one member named `n`.
pub open spec fn one_member_named(j: JVal, hero: Seq<char>, n: Seq<char>) -> bool {
    members_of(slot(j, hero)) matches Some(ms) ==> forall|a: int, b: int|
        0 <= a < ms.len() && 0 <= b < ms.len() && is_named(#[trigger] ms[a], n) && is_named(#[trigger] ms[b], n)
            ==> a == b
}

/// After the member named `n` of a hero is given the value `v`, the hero
/// record holds the edited members, and the member at the place given is the
/// last one named `n` and holds `v`.
proof fn lemma_member_edit_read_back(j: JVal, hero: Seq<char>, n: Seq<char>, v: JVal, missing: SaveErr) -> (i: int)
    requires
        slot_ok(j),
        one_member_named(j, hero, n),
        edit_member_of(
            j,
            hero,
            n,
            value_edit(v),
            SaveErr::HeroRecordNotFound(hero),
            SaveErr::HeroMembersNotFound(hero),
            Err(missing),
        ).1 is Ok,
    ensures
        ({
            let j2 = edit_member_of(
                j,
                hero,
                n,
                value_edit(v),
                SaveErr::HeroRecordNotFound(hero),
                SaveErr::HeroMembersNotFound(hero),
                Err(missing),
            ).0;
            let ms2 = members_of(record(j2, hero)).unwrap();
            &&& record(j2, hero) is Object
            &&& members_of(record(j2, hero)) is Some
            &&& 0 <= i < ms2.len()
            &&& is_named(ms2[i], n)
            &&& ms2[i].get("value"@) == v
            &&& forall|k: int| i < k < ms2.len() ==> !is_named(#[trigger] ms2[k], n)
        }),
{
    let h = slot(j, hero);
    let ms = members_of(h).unwrap();
    lemma_first_facts(ms, named(n));
    let i = first_index(ms, named(n)).unwrap();
    let ms2 = ms.update(i, ms[i].set("value"@, v));
    let h2 = h.set("members"@, JVal::Array(ms2));
    lemma_put_record_facts(j, hero, h2);
    lemma_set_then_get(h, "members"@, JVal::Array(ms2));
    lemma_set_value_keeps_name(ms[i], v, n);
    assert forall|k: int| i < k < ms2.len() implies !is_named(#[trigger] ms2[k], n) by {
        assert(ms2[k] == ms[k]);
        if is_named(ms[k], n) {
            assert(is_named(ms[i], n));
        }
    }
    assert(value_edit(v)(ms[i]) == ms[i].set("value"@, v));
    i
}

/// Setting a hero's coins, when it succeeds and the hero has one `_coins`
/// member, is what the hero's details give back.
pub proof fn law_coins_round_trip(j: JVal, hero: Seq<char>, coins: i32)
    requires
        slot_ok(j),
        one_member_named(j, hero, "_coins"@),
        set_coins(j, hero, coins).1 is Ok,
    ensures
        hero_view(set_coins(j, hero, coins).0, hero) is Ok,
        hero_view(set_coins(j, hero, coins).0, hero)->Ok_0.coins == coins,
{
    let v = JVal::Num(num_of_int(coins as int));
    let i = lemma_member_edit_read_back(j, hero, "_coins"@, v, SaveErr::CoinsFieldNotFound(hero));
    let j2 = set_coins(j, hero, coins).0;
    let ms2 = members_of(record(j2, hero)).unwrap();
    assert forall|k: int| i < k < ms2.len() implies !named_int_value("_coins"@)(#[trigger] ms2[k]) by {
        assert(!is_named(ms2[k], "_coins"@));
    }
    crate::search::lemma_last_is(ms2, named_int_value("_coins"@), i);
    reveal(hero_view);
}

/// Setting a hero's helmet hue, when it succeeds and the hero has one `hue`
/// member, is what the hero's details give back.
pub proof fn law_hue_round_trip(j: JVal, hero: Seq<char>, bits: u64)
    requires
        slot_ok(j),
        one_member_named(j, hero, "hue"@),
        set_hue(j, hero, bits).1 is Ok,
    ensures
        hero_view(set_hue(j, hero, bits).0, hero) is Ok,
        hero_view(set_hue(j, hero, bits).0, hero)->Ok_0.hue == Some(JsonNum::Float(bits)),
{
    let v = JVal::Num(JsonNum::Float(bits));
    let i = lemma_member_edit_read_back(j, hero, "hue"@, v, SaveErr::HueFieldNotFound(hero));
    let j2 = set_hue(j, hero, bits).0;
    let ms2 = members_of(record(j2, hero)).unwrap();
    assert forall|k: int| i < k < ms2.len() implies !named_num_value("hue"@)(#[trigger] ms2[k]) by {
        assert(!is_named(ms2[k], "hue"@));
    }
    crate::search::lemma_last_is(ms2, named_num_value("hue"@), i);
    reveal(hero_view);
}

} // verus!
