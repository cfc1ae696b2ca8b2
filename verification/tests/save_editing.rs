use bad_north_save_modifier::editor_steps::TypedEdit;
use bad_north_save_modifier::error::SaveError;
use bad_north_save_modifier::json::{Json, JsonNum};
use bad_north_save_modifier::save_manager::{SaveManager, BOMB_UPGRADE_CODE, GRAIL_UPGRADE_CODE, MINE_UPGRADE_CODE};

fn to_json(v: &serde_json::Value) -> Json {
    match v {
        serde_json::Value::Null => Json::Null,
        serde_json::Value::Bool(b) => Json::Bool(*b),
        serde_json::Value::Number(n) => {
            if let Some(u) = n.as_u64() {
                Json::Num(JsonNum::PosInt(u))
            } else if let Some(i) = n.as_i64() {
                Json::Num(JsonNum::NegInt(i))
            } else {
                Json::Num(JsonNum::Float(n.as_f64().unwrap().to_bits()))
            }
        }
        serde_json::Value::String(s) => Json::Str(s.clone()),
        serde_json::Value::Array(a) => Json::Array(a.iter().map(to_json).collect()),
        serde_json::Value::Object(m) => Json::Object(m.iter().map(|(k, v)| (k.clone(), to_json(v))).collect()),
    }
}

fn parse(text: &str) -> Json {
    to_json(&serde_json::from_str::<serde_json::Value>(text).unwrap())
}

fn upgrade(name: &str, level: i64) -> String {
    format!(
        r#"{{"type":"Class","class_type_id":7,"class_type_name":"Voxels.TowerDefense.SerializableHeroUpgrade","members":[{{"name":"name","type":"String","value":"{}"}},{{"name":"level","type":"Int32","value":{}}}]}}"#,
        name, level
    )
}

/// A save with a campaign record, an inventory list of `size` slots in use
/// over an array with the given entries, a recruited hero and its upgrades.
fn save(size: i64, entries: &str) -> Json {
    let text = format!(
        r#"{{
        "records": {{
            "1": {{"class_type_name":"Voxels.TowerDefense.CampaignSave","members":[
                {{"name":"inventory","type":"Reference","id":2}},
                {{"name":"coinBank","type":"Int32","value":150}}]}},
            "2": {{"class_type_name":"System.Collections.Generic.List","members":[
                {{"name":"_items","type":"Reference","id":3}},
                {{"name":"_size","type":"Int32","value":{size}}}]}},
            "3": {{"type":"BinaryArray","values":[{entries}]}},
            "10": {bomb},
            "11": {grail},
            "12": {mine},
            "13": {class},
            "14": {skill},
            "15": {bomb2},
            "20": {{"class_type_name":"Voxels.TowerDefense.HeroDefinition","members":[
                {{"name":"id","type":"Int32","value":5}},
                {{"name":"_coins","type":"Int32","value":30}},
                {{"name":"hue","type":"Single","value":0.5}},
                {{"name":"hasCrown","type":"Boolean","value":false}},
                {{"name":"soldiersLost","type":"Int32","value":2}},
                {{"name":"maxSoldiers","type":"Int32","value":9}},
                {{"name":"recruited","type":"Boolean","value":true}},
                {{"name":"upgrade","type":"Reference","id":12}},
                {{"name":"itemUpgrade","type":"Null","value":null}},
                {{"name":"traitUpgrade","type":"Null","value":null}},
                {{"name":"classUpgrade","type":"Reference","id":13}},
                {{"name":"skillUpgrade","type":"Reference","id":14}}]}}
        }},
        "record_metadata": {{"10": {{"start_offset":1,"end_offset":9}}}},
        "record_order": [1,2,3,10,11,12,13,14,15,20]
    }}"#,
        size = size,
        entries = entries,
        bomb = upgrade("Hero_Upgrade_Bomb", 0),
        grail = upgrade("Hero_Upgrade_Grail", 0),
        mine = upgrade("Hero_Upgrade_Mine", 2),
        class = upgrade("Hero_Class_Infantry", 1),
        skill = upgrade("Hero_Upgrade_Plunge", 1),
        bomb2 = upgrade("Hero_Upgrade_Bomb", 0),
    );
    parse(&text)
}

fn standard() -> Json {
    save(
        3,
        r#"{"type":"Reference","id":10},{"type":"Reference","id":11},{"type":"Reference","id":15},{"type":"NullMultiple","count":13}"#,
    )
}

fn record<'a>(json: &'a Json, key: &str) -> &'a Json {
    json.get("records").unwrap().get(key).unwrap()
}

fn member_value<'a>(json: &'a Json, key: &str, name: &str) -> &'a Json {
    let ms = record(json, key).get("members").unwrap().as_array().unwrap();
    for m in ms {
        if m.get("name").and_then(|n| n.as_str()) == Some(name) {
            return m.get("value").unwrap();
        }
    }
    panic!("no member {}", name)
}

#[test]
fn normalizes_upgrade_field_spellings() {
    assert_eq!(SaveManager::normalize_upgrade_type("classUpgrades"), "classUpgrade");
    assert_eq!(SaveManager::normalize_upgrade_type("item_upgrade"), "itemUpgrade");
    assert_eq!(SaveManager::normalize_upgrade_type("trait_upgrades"), "traitUpgrade");
    assert_eq!(SaveManager::normalize_upgrade_type("skillUpgrade"), "skillUpgrade");
    assert_eq!(SaveManager::normalize_upgrade_type("upgrades"), "upgrade");
    assert_eq!(SaveManager::normalize_upgrade_type("somethingElse"), "somethingElse");
    let once = SaveManager::normalize_upgrade_type("class_upgrades");
    assert_eq!(SaveManager::normalize_upgrade_type(&once), once);
}

#[test]
fn class_skills() {
    assert_eq!(SaveManager::get_class_skill_upgrade("Hero_Class_Infantry"), Some("Hero_Upgrade_Plunge"));
    assert_eq!(SaveManager::get_class_skill_upgrade("Hero_Class_Archers"), Some("Hero_Upgrade_ArcheryFocus"));
    assert_eq!(SaveManager::get_class_skill_upgrade("Hero_Class_Pikemen"), Some("Hero_Upgrade_PikeCharge"));
    assert_eq!(SaveManager::get_class_skill_upgrade("Hero_Class_Wizard"), None);
    assert_eq!(SaveManager::get_item_initial_level("Hero_Upgrade_Bomb"), 0);
    assert!(SaveManager::get_item_required_fields("Hero_Upgrade_Bomb").is_empty());
}

#[test]
fn coin_bank_round_trip() {
    let mut j = standard();
    assert_eq!(SaveManager::get_coin_bank(&j), Some(150));
    assert!(SaveManager::modify_coin_bank(&mut j, 999).is_ok());
    assert_eq!(SaveManager::get_coin_bank(&j), Some(999));
}

#[test]
fn coin_bank_missing() {
    let mut j = parse(r#"{"records":{"1":{"members":[{"name":"x","value":1}]}}}"#);
    assert_eq!(SaveManager::get_coin_bank(&j), None);
    assert!(matches!(SaveManager::modify_coin_bank(&mut j, 5), Err(SaveError::CoinBankNotFound)));
    let mut empty = parse(r#"{}"#);
    assert!(matches!(SaveManager::modify_coin_bank(&mut empty, 5), Err(SaveError::RecordsNotFound)));
}

#[test]
fn hero_details_read() {
    let j = standard();
    let h = SaveManager::get_hero_details(&j, "20").unwrap();
    assert_eq!(h.key, "20");
    assert_eq!(h.id, 5);
    assert_eq!(h.coins, 30);
    assert_eq!(h.hue, Some(JsonNum::Float(0.5f64.to_bits())));
    assert!(!h.has_crown);
    assert_eq!(h.soldiers_lost, 2);
    assert_eq!(h.max_soldiers, 9);
    assert_eq!(h.upgrade_ref.as_deref(), Some("12"));
    let up = h.upgrade_info.as_ref().unwrap();
    assert_eq!(up.name, "Hero_Upgrade_Mine");
    assert_eq!(up.level, 2);
    assert_eq!(up.record_id, "12");
    assert_eq!(up.field_name, "upgrade");
    assert_eq!(h.class_display(), "Hero_Class_Infantry(L1)");
    assert_eq!(h.skill_display(), "Hero_Upgrade_Plunge(L1)");
    assert_eq!(h.upgrade_display(), "Hero_Upgrade_Mine");
    assert_eq!(h.item_display(), "No Item");
    assert_eq!(h.trait_display(), "No Trait");
    assert_eq!(h.crown_display(), "✗未启用");
}

#[test]
fn hero_details_errors() {
    let j = standard();
    assert!(matches!(SaveManager::get_hero_details(&j, "99"), Err(SaveError::HeroRecordNotFound(k)) if k == "99"));
    let j2 = parse(r#"{"records":{"1":{"class_type_name":"X"}}}"#);
    assert!(matches!(SaveManager::get_hero_details(&j2, "1"), Err(SaveError::HeroMembersNotFound(_))));
}

#[test]
fn recruited_heroes_listed() {
    let j = standard();
    let heroes = SaveManager::get_recruited_heroes(&j).unwrap();
    assert_eq!(heroes.len(), 1);
    assert_eq!(heroes[0].key, "20");
    let none = parse(r#"{"x":1}"#);
    assert!(matches!(SaveManager::get_recruited_heroes(&none), Err(SaveError::RecordsNotFound)));
}

#[test]
fn hero_coins_crown_and_hue_read_back() {
    let mut j = standard();
    assert!(SaveManager::modify_hero_coins(&mut j, "20", 77).is_ok());
    assert!(SaveManager::modify_hero_crown(&mut j, "20", true).is_ok());
    assert!(SaveManager::modify_hero_helmet(&mut j, "20", 0.25f64.to_bits()).is_ok());
    let h = SaveManager::get_hero_details(&j, "20").unwrap();
    assert_eq!(h.coins, 77);
    assert!(h.has_crown);
    assert_eq!(h.crown_style.as_deref(), Some("Heroes2_Spriteshop_Crown_0"));
    assert_eq!(h.hue, Some(JsonNum::Float(0.25f64.to_bits())));
    assert_eq!(h.crown_display(), "✔已启用");
    assert!(SaveManager::modify_hero_crown(&mut j, "20", false).is_ok());
    let h = SaveManager::get_hero_details(&j, "20").unwrap();
    assert!(!h.has_crown);
    assert_eq!(h.crown_style, None);
}

#[test]
fn hero_edit_errors() {
    let mut j = parse(r#"{"records":{"5":{"members":[{"name":"x","value":1}]}}}"#);
    assert!(matches!(SaveManager::modify_hero_coins(&mut j, "5", 1), Err(SaveError::CoinsFieldNotFound(_))));
    assert!(matches!(SaveManager::modify_hero_helmet(&mut j, "5", 0.5f64.to_bits()), Err(SaveError::HueFieldNotFound(_))));
    assert!(matches!(SaveManager::modify_hero_coins(&mut j, "7", 1), Err(SaveError::HeroRecordNotFound(_))));
    let mut h = standard();
    assert!(matches!(SaveManager::modify_hero_helmet(&mut h, "20", f64::NAN.to_bits()), Err(SaveError::InvalidHue)));
}

#[test]
fn clearing_an_upgrade() {
    let mut j = standard();
    assert!(SaveManager::clear_hero_upgrade(&mut j, "20", "upgrades").is_ok());
    let h = SaveManager::get_hero_details(&j, "20").unwrap();
    assert_eq!(h.upgrade_ref, None);
    assert!(h.upgrade_info.is_none());
    assert!(SaveManager::clear_skill_upgrade(&mut j, "20").is_ok());
    let h = SaveManager::get_hero_details(&j, "20").unwrap();
    assert!(h.skill_info.is_none());
}

#[test]
fn modify_existing_upgrade() {
    let mut j = standard();
    assert!(SaveManager::modify_hero_upgrade(&mut j, "20", "upgrade", "Hero_Upgrade_Bomb", 3).is_ok());
    let h = SaveManager::get_hero_details(&j, "20").unwrap();
    let up = h.upgrade_info.unwrap();
    assert_eq!(up.name, "Hero_Upgrade_Bomb");
    assert_eq!(up.level, 3);
}

#[test]
fn modify_without_member_still_creates_record() {
    let mut j = parse(
        r#"{"records":{"20":{"members":[{"name":"id","value":1}]}},"record_order":[20]}"#,
    );
    assert!(SaveManager::modify_hero_upgrade(&mut j, "20", "itemUpgrade", "Hero_Item_Charge", 1).is_ok());
    let h = SaveManager::get_hero_details(&j, "20").unwrap();
    assert_eq!(h.item_upgrade_ref, None);
    assert_eq!(member_value(&j, "21", "name").as_str(), Some("Hero_Item_Charge"));
    assert_eq!(member_value(&j, "21", "level").as_i64(), Some(1));
}

#[test]
fn modify_creates_missing_upgrade() {
    let mut j = standard();
    assert!(SaveManager::modify_hero_upgrade(&mut j, "20", "itemUpgrades", "Hero_Item_Charge", 1).is_ok());
    let h = SaveManager::get_hero_details(&j, "20").unwrap();
    assert_eq!(h.item_upgrade_ref.as_deref(), Some("21"));
    let item = h.item_info.unwrap();
    assert_eq!(item.name, "Hero_Item_Charge");
    assert_eq!(item.level, 1);
    assert!(j.get("record_metadata").unwrap().get("21").is_some());
    let order = j.get("record_order").unwrap().as_array().unwrap();
    assert_eq!(order.last().unwrap().as_i64(), Some(21));
}

#[test]
fn changing_class_clears_skill() {
    let mut j = standard();
    assert!(SaveManager::modify_hero_upgrade(&mut j, "20", "classUpgrade", "Hero_Class_Archers", 1).is_ok());
    let h = SaveManager::get_hero_details(&j, "20").unwrap();
    assert_eq!(h.class_info.unwrap().name, "Hero_Class_Archers");
    assert!(h.skill_info.is_none());
}

#[test]
fn sync_skill_with_class() {
    let mut j = standard();
    assert!(SaveManager::sync_class_skill(&mut j, "20", "Hero_Class_Pikemen").is_ok());
    let h = SaveManager::get_hero_details(&j, "20").unwrap();
    assert_eq!(h.skill_info.unwrap().name, "Hero_Upgrade_PikeCharge");
    assert!(matches!(SaveManager::sync_class_skill(&mut j, "20", "Nope"), Err(SaveError::UnknownClassCode(_))));
}

#[test]
fn inventory_counts() {
    let j = standard();
    assert_eq!(SaveManager::get_inventory_item_count(&j, BOMB_UPGRADE_CODE), 2);
    assert_eq!(SaveManager::get_inventory_grail_count(&j), 1);
    assert_eq!(SaveManager::get_hero_item_count(&j, MINE_UPGRADE_CODE), 1);
    assert_eq!(SaveManager::get_total_item_count(&j, MINE_UPGRADE_CODE), 1);
    assert_eq!(SaveManager::get_total_grail_count(&j), 1);
    assert_eq!(SaveManager::get_grail_count(&j), 1);
    assert_eq!(SaveManager::get_hero_grail_count(&j), 0);
    assert_eq!(SaveManager::get_total_inventory_count(&j), 3);
    assert_eq!(SaveManager::get_inventory_bomb_count(&j), 2);
    assert_eq!(SaveManager::get_hero_mine_count(&j), 1);
    assert_eq!(SaveManager::get_total_bomb_count(&j), 2);
}

#[test]
fn inventory_walk_stops_at_size() {
    let j = save(
        1,
        r#"{"type":"Reference","id":10},{"type":"Reference","id":11},{"type":"NullMultiple","count":14}"#,
    );
    assert_eq!(SaveManager::get_inventory_item_count(&j, BOMB_UPGRADE_CODE), 1);
    assert_eq!(SaveManager::get_inventory_grail_count(&j), 0);
}

#[test]
fn all_items_tallied_in_name_order() {
    let j = standard();
    let all = SaveManager::get_all_inventory_items(&j);
    assert_eq!(all, vec![("Hero_Upgrade_Bomb".to_string(), 2), ("Hero_Upgrade_Grail".to_string(), 1)]);
    let sum: i32 = all.iter().map(|(_, c)| *c).sum();
    assert_eq!(sum, SaveManager::get_total_inventory_count(&j));
    assert!(SaveManager::get_undeclared_inventory_items(&j).is_empty());
}

#[test]
fn undeclared_items_listed() {
    let mut j = standard();
    assert!(SaveManager::add_custom_item_to_inventory(&mut j, "Hero_Upgrade_ModWeapon").is_ok());
    let und = SaveManager::get_undeclared_inventory_items(&j);
    assert_eq!(und, vec![("Hero_Upgrade_ModWeapon".to_string(), 1)]);
}

#[test]
fn adding_an_item() {
    let mut j = standard();
    assert!(SaveManager::add_item_to_inventory(&mut j, MINE_UPGRADE_CODE).is_ok());
    assert_eq!(SaveManager::get_inventory_item_count(&j, MINE_UPGRADE_CODE), 1);
    assert_eq!(member_value(&j, "2", "_size").as_i64(), Some(4));
    let values = record(&j, "3").get("values").unwrap().as_array().unwrap();
    assert_eq!(values.len(), 5);
    assert_eq!(values[3].get("id").unwrap().as_i64(), Some(21));
    assert_eq!(values[4].get("count").unwrap().as_i64(), Some(12));
    assert_eq!(member_value(&j, "21", "name").as_str(), Some(MINE_UPGRADE_CODE));
}

#[test]
fn adding_grows_a_full_array() {
    let mut j = save(1, r#"{"type":"Reference","id":10}"#);
    assert!(SaveManager::add_item_to_inventory(&mut j, GRAIL_UPGRADE_CODE).is_ok());
    let values = record(&j, "3").get("values").unwrap().as_array().unwrap();
    assert_eq!(values.len(), 3);
    assert_eq!(values[2].get("count").unwrap().as_i64(), Some(255));
    assert_eq!(SaveManager::get_inventory_grail_count(&j), 1);
    let mut g = save(1, r#"{"type":"Reference","id":10}"#);
    assert!(matches!(SaveManager::add_grail_to_inventory(&mut g), Err(SaveError::NoFreeSlot)));
}

#[test]
fn removing_an_item() {
    let mut j = standard();
    assert!(SaveManager::remove_item_from_inventory(&mut j, BOMB_UPGRADE_CODE).is_ok());
    assert_eq!(SaveManager::get_inventory_item_count(&j, BOMB_UPGRADE_CODE), 1);
    assert_eq!(SaveManager::get_inventory_grail_count(&j), 1);
    assert_eq!(member_value(&j, "2", "_size").as_i64(), Some(2));
    assert!(matches!(
        SaveManager::remove_item_from_inventory(&mut j, MINE_UPGRADE_CODE),
        Err(SaveError::NothingToRemove(c)) if c == MINE_UPGRADE_CODE
    ));
    assert!(SaveManager::remove_grail_from_inventory(&mut j).is_ok());
    assert_eq!(SaveManager::get_inventory_grail_count(&j), 0);
}

#[test]
fn counting_up_and_down() {
    let mut j = standard();
    assert_eq!(SaveManager::increment_item_count(&mut j, BOMB_UPGRADE_CODE).unwrap(), 3);
    assert_eq!(SaveManager::decrement_item_count(&mut j, BOMB_UPGRADE_CODE).unwrap(), 2);
    assert_eq!(SaveManager::increment_bomb_count(&mut j).unwrap(), 3);
    assert_eq!(SaveManager::decrement_bomb_count(&mut j).unwrap(), 2);
    assert_eq!(SaveManager::increment_grail_count(&mut j).unwrap(), 2);
    assert_eq!(SaveManager::decrement_grail_count(&mut j).unwrap(), 1);
}

#[test]
fn setting_a_count() {
    let mut j = standard();
    assert!(SaveManager::set_item_count(&mut j, BOMB_UPGRADE_CODE, 5).is_ok());
    assert_eq!(SaveManager::get_total_item_count(&j, BOMB_UPGRADE_CODE), 5);
    assert!(SaveManager::set_bomb_count(&mut j, 1).is_ok());
    assert_eq!(SaveManager::get_total_bomb_count(&j), 1);
    assert!(SaveManager::set_grail_count(&mut j, 3).is_ok());
    assert_eq!(SaveManager::get_grail_count(&j), 3);
    assert!(SaveManager::set_inventory_grail_count(&mut j, 0).is_ok());
    assert_eq!(SaveManager::get_inventory_grail_count(&j), 0);
    assert!(matches!(SaveManager::set_item_count(&mut j, BOMB_UPGRADE_CODE, -1), Err(SaveError::NegativeCount(_))));
}

#[test]
fn full_inventory_refuses() {
    let mut entries = String::new();
    for _ in 0..20 {
        entries.push_str(r#"{"type":"Reference","id":10},"#);
    }
    entries.push_str(r#"{"type":"NullMultiple","count":4}"#);
    let mut j = save(20, &entries);
    assert_eq!(SaveManager::get_total_inventory_count(&j), 20);
    assert!(matches!(SaveManager::increment_mine_count(&mut j), Err(SaveError::InventoryFull(20))));
    assert!(matches!(SaveManager::add_custom_item_to_inventory(&mut j, "X"), Err(SaveError::InventoryFull(20))));
    assert_eq!(SaveManager::get_inventory_mine_count(&j), 0);
}

#[test]
fn replacing_items() {
    let mut j = standard();
    assert_eq!(SaveManager::replace_inventory_item(&mut j, BOMB_UPGRADE_CODE, MINE_UPGRADE_CODE).unwrap(), 2);
    assert_eq!(SaveManager::get_inventory_item_count(&j, MINE_UPGRADE_CODE), 2);
    assert!(matches!(
        SaveManager::replace_inventory_item(&mut j, "Hero_Upgrade_Nothing", BOMB_UPGRADE_CODE),
        Err(SaveError::ItemNotFound(_))
    ));
}

#[test]
fn grails_through_heroes() {
    let mut j = standard();
    assert!(SaveManager::add_grail(&mut j).is_ok());
    assert_eq!(SaveManager::get_hero_grail_count(&j), 1);
    assert!(SaveManager::remove_grail(&mut j).is_ok());
    assert_eq!(SaveManager::get_hero_grail_count(&j), 0);
    assert!(matches!(SaveManager::remove_grail(&mut j), Err(SaveError::NoHeroWithGrail)));
}

#[test]
fn inventory_errors() {
    let mut j = parse(r#"{"records":{"1":{"class_type_name":"Other","members":[]}}}"#);
    assert_eq!(SaveManager::get_inventory_item_count(&j, BOMB_UPGRADE_CODE), 0);
    assert!(matches!(SaveManager::add_item_to_inventory(&mut j, BOMB_UPGRADE_CODE), Err(SaveError::InventoryNotFound)));
    let mut k = parse(
        r#"{"records":{"1":{"class_type_name":"CampaignSave","members":[{"name":"inventory","type":"Reference","id":3}]},"3":{"type":"BinaryArray"}}}"#,
    );
    assert!(matches!(SaveManager::add_item_to_inventory(&mut k, BOMB_UPGRADE_CODE), Err(SaveError::NoValuesArray(3))));
    let mut n = parse(r#"{"records":{"1":{"class_type_name":"CampaignSave","members":[{"name":"inventory","type":"Null"}]}}}"#);
    assert!(matches!(SaveManager::add_item_to_inventory(&mut n, BOMB_UPGRADE_CODE), Err(SaveError::InventoryWithoutId)));
    let mut l = parse(
        r#"{"records":{"1":{"class_type_name":"CampaignSave","members":[{"name":"inventory","type":"Reference","id":4}]},"4":{"type":"Other"}}}"#,
    );
    assert!(matches!(SaveManager::add_item_to_inventory(&mut l, BOMB_UPGRADE_CODE), Err(SaveError::InventoryNotList(4))));
}

#[test]
fn checked_edits_match_the_plain_ones() {
    let mut a = standard();
    let mut b = standard();
    assert_eq!(SaveManager::try_increment_item_count(&mut a, BOMB_UPGRADE_CODE).unwrap(), 3);
    assert_eq!(SaveManager::increment_item_count(&mut b, BOMB_UPGRADE_CODE).unwrap(), 3);
    assert_eq!(SaveManager::try_decrement_grail_count(&mut a).unwrap(), 0);
    assert_eq!(SaveManager::try_increment_grail_count(&mut a).unwrap(), 1);
    assert!(SaveManager::try_set_item_count(&mut a, MINE_UPGRADE_CODE, 4).is_ok());
    assert_eq!(SaveManager::get_total_item_count(&a, MINE_UPGRADE_CODE), 4);
    assert!(SaveManager::try_set_grail_count(&mut a, 2).is_ok());
    assert_eq!(SaveManager::get_grail_count(&a), 2);
    assert!(matches!(SaveManager::try_set_item_count(&mut a, MINE_UPGRADE_CODE, -2), Err(SaveError::NegativeCount(_))));
    assert!(SaveManager::try_add_custom_item_to_inventory(&mut a, "Hero_Upgrade_ModWeapon").is_ok());
    assert_eq!(SaveManager::get_inventory_item_count(&a, "Hero_Upgrade_ModWeapon"), 1);
    assert!(SaveManager::try_modify_hero_upgrade(&mut a, "20", "itemUpgrade", "Hero_Item_Charge", 1).is_ok());
}

#[test]
fn checked_edits_refuse_past_the_integers() {
    let mut j = save(3, r#"{"type":"Reference","id":10},{"type":"NullMultiple","count":2147483647}"#);
    assert!(matches!(SaveManager::try_increment_item_count(&mut j, BOMB_UPGRADE_CODE), Err(SaveError::EditTooLarge)));
    assert!(matches!(SaveManager::try_set_item_count(&mut j, BOMB_UPGRADE_CODE, 9), Err(SaveError::EditTooLarge)));
}

#[test]
fn adding_then_removing_restores_the_tally() {
    let mut j = standard();
    let before = SaveManager::get_all_inventory_items(&j);
    assert!(SaveManager::add_item_to_inventory(&mut j, BOMB_UPGRADE_CODE).is_ok());
    assert!(SaveManager::remove_item_from_inventory(&mut j, BOMB_UPGRADE_CODE).is_ok());
    assert_eq!(SaveManager::get_all_inventory_items(&j), before);
    assert_eq!(member_value(&j, "2", "_size").as_i64(), Some(3));
}

#[test]
fn adding_keeps_the_slots_in_number() {
    let weight = |j: &Json| -> i64 {
        record(j, "3")
            .get("values")
            .unwrap()
            .as_array()
            .unwrap()
            .iter()
            .map(|e| e.get("count").and_then(|c| c.as_i64()).unwrap_or(1))
            .sum()
    };
    let mut j = standard();
    let w = weight(&j);
    assert!(SaveManager::add_item_to_inventory(&mut j, MINE_UPGRADE_CODE).is_ok());
    assert_eq!(weight(&j), w);
    let mut g = save(1, r#"{"type":"Reference","id":10}"#);
    let wg = weight(&g);
    assert!(SaveManager::add_item_to_inventory(&mut g, MINE_UPGRADE_CODE).is_ok());
    assert_eq!(weight(&g), wg + 256);
}

#[test]
fn object_keys_kept_in_byte_order() {
    let mut j = Json::Null;
    for k in ["b", "ab", "\u{e9}", "a", "Z", "abc", "b"] {
        j.set(k, Json::Bool(true));
    }
    match &j {
        Json::Object(es) => {
            let keys: Vec<&str> = es.iter().map(|(k, _)| k.as_str()).collect();
            assert_eq!(keys, vec!["Z", "a", "ab", "abc", "b", "\u{e9}"]);
        }
        _ => panic!("expected an object"),
    }
}

#[test]
fn round_trip_fails_on_untidy_inventories() {
    // An item stands past the slots in use: the new item goes after it, where
    // removal does not look.
    let mut j = save(1, r#"{"type":"Reference","id":10},{"type":"Reference","id":11},{"type":"NullMultiple","count":14}"#);
    assert!(SaveManager::add_item_to_inventory(&mut j, MINE_UPGRADE_CODE).is_ok());
    assert!(matches!(
        SaveManager::remove_item_from_inventory(&mut j, MINE_UPGRADE_CODE),
        Err(SaveError::NothingToRemove(_))
    ));
    // A slot refers to the record id that the new item will get.
    let mut j = save(2, r#"{"type":"Reference","id":10},{"type":"Reference","id":21},{"type":"NullMultiple","count":14}"#);
    let before = SaveManager::get_all_inventory_items(&j);
    assert!(SaveManager::add_item_to_inventory(&mut j, MINE_UPGRADE_CODE).is_ok());
    assert!(SaveManager::remove_item_from_inventory(&mut j, MINE_UPGRADE_CODE).is_ok());
    assert_ne!(SaveManager::get_all_inventory_items(&j), before);
    // The list counts more slots than the entries hold.
    let mut j = save(3, r#"{"type":"Reference","id":10}"#);
    assert!(SaveManager::add_item_to_inventory(&mut j, MINE_UPGRADE_CODE).is_ok());
    assert!(matches!(
        SaveManager::remove_item_from_inventory(&mut j, MINE_UPGRADE_CODE),
        Err(SaveError::LastSlotNotFound)
    ));
    // The inventory is a bare array, with no list that counts the slots in use.
    let mut j = parse(
        r#"{"records":{
            "1":{"class_type_name":"Voxels.TowerDefense.CampaignSave","members":[{"name":"inventory","type":"Reference","id":3}]},
            "3":{"type":"BinaryArray","values":[{"type":"NullMultiple","count":16}]},
            "11":{"type":"Class","class_type_id":7,"class_type_name":"Voxels.TowerDefense.SerializableHeroUpgrade","members":[]}}}"#,
    );
    assert!(SaveManager::add_item_to_inventory(&mut j, MINE_UPGRADE_CODE).is_ok());
    assert!(matches!(
        SaveManager::remove_item_from_inventory(&mut j, MINE_UPGRADE_CODE),
        Err(SaveError::NothingToRemove(_))
    ));
}

fn to_value(j: &Json) -> serde_json::Value {
    match j {
        Json::Null => serde_json::Value::Null,
        Json::Bool(b) => serde_json::Value::Bool(*b),
        Json::Num(JsonNum::PosInt(u)) => serde_json::Value::from(*u),
        Json::Num(JsonNum::NegInt(i)) => serde_json::Value::from(*i),
        Json::Num(JsonNum::Float(bits)) => serde_json::Value::from(f64::from_bits(*bits)),
        Json::Str(s) => serde_json::Value::String(s.clone()),
        Json::Array(a) => serde_json::Value::Array(a.iter().map(to_value).collect()),
        Json::Object(es) => serde_json::Value::Object(es.iter().map(|(k, v)| (k.clone(), to_value(v))).collect()),
    }
}

#[test]
fn grail_shortcuts_act_as_the_grail_code() {
    let mut a = standard();
    let mut b = standard();
    assert!(SaveManager::remove_grail_from_inventory(&mut a).is_ok());
    assert!(SaveManager::remove_item_from_inventory(&mut b, GRAIL_UPGRADE_CODE).is_ok());
    assert_eq!(to_value(&a), to_value(&b));
    assert!(SaveManager::add_grail_to_inventory(&mut a).is_ok());
    assert!(SaveManager::add_item_to_inventory(&mut b, GRAIL_UPGRADE_CODE).is_ok());
    assert_eq!(to_value(&a), to_value(&b));
    let mut c = save(0, r#"{"type":"Reference","id":10}"#);
    assert!(matches!(SaveManager::remove_grail_from_inventory(&mut c), Err(SaveError::NothingToRemove(_))));
}

#[test]
fn upgrade_field_spellings_act_alike() {
    for spelling in ["item_upgrades", "itemUpgrades", "item_upgrade"] {
        let mut a = standard();
        let mut b = standard();
        let ra = SaveManager::modify_hero_upgrade(&mut a, "20", spelling, "Hero_Upgrade_Bomb", 2);
        let rb = SaveManager::modify_hero_upgrade(&mut b, "20", "itemUpgrade", "Hero_Upgrade_Bomb", 2);
        assert_eq!(ra.is_ok(), rb.is_ok());
        assert_eq!(to_value(&a), to_value(&b));
    }
}

#[test]
fn error_messages() {
    assert_eq!(SaveError::InventoryFull(20).message(), "❌背包已满（20/20），无法继续添加装备");
    assert_eq!(SaveError::HeroRecordNotFound("7".to_string()).message(), "Hero record 7 not found");
    assert_eq!(SaveError::ListSizeNotFound(-3).message(), "_size member not found in List record -3");
    assert_eq!(
        SaveError::NothingToRemove("Hero_Upgrade_Bomb".to_string()).message(),
        "背包中没有Hero_Upgrade_Bomb 可移除"
    );
    assert_eq!(SaveError::NothingToRemove(GRAIL_UPGRADE_CODE.to_string()).message(), "背包中没有圣杯可移除");
    assert_eq!(SaveError::NegativeCount("Hero_Upgrade_Mine".to_string()).message(), "Hero_Upgrade_Mine 数量不能为负数");
    assert_eq!(SaveError::NegativeCount(GRAIL_UPGRADE_CODE.to_string()).message(), "圣杯数量不能为负数");
    assert_eq!(SaveError::RecordIdOutOfRange(2147483648).message(), "record ID 2147483648 exceeds i32 range");
    assert_eq!(SaveError::CoinBankNotFound.message(), "coinBank field not found in save");
}

#[test]
fn edit_checks_before_the_calls() {
    let j = standard();
    assert!(SaveManager::hero_record_editable(&j, "20"));
    assert!(SaveManager::hero_record_editable(&j, "404"));
    assert!(SaveManager::members_present_in(&j, "20"));
    let no_members = parse(r#"{"records":{"20":{"class_type_name":"X"}}}"#);
    assert!(!SaveManager::hero_record_editable(&no_members, "20"));
    assert!(!SaveManager::members_present_in(&no_members, "20"));
    assert!(!SaveManager::hero_record_editable(&parse("[1]"), "20"));
    assert!(!SaveManager::hero_record_editable(&parse(r#"{"records":[1]}"#), "20"));
    assert!(SaveManager::hero_record_editable(&parse(r#"{"records":null}"#), "20"));
    assert!(SaveManager::coin_bank_editable(&j));
    assert!(!SaveManager::coin_bank_editable(&parse(r#"{"records":{"1":[1],"2":{"members":[{"name":"coinBank","value":1}]}}}"#)));
    assert!(SaveManager::coin_bank_editable(&parse(r#"{"records":{"1":{"members":[{"name":"coinBank","value":1}]},"2":[1]}}"#)));
    assert!(!SaveManager::coin_bank_editable(&parse("7")));
    assert!(SaveManager::upgrade_edit_readable(&j, "20", "upgrades"));
    assert!(SaveManager::upgrade_edit_ok(&j, "20", "itemUpgrade"));
    let dangling = parse(r#"{"records":{"20":{"members":[{"name":"upgrade","type":"Reference","id":12}]},"12":{"class_type_name":"X"}}}"#);
    assert!(!SaveManager::upgrade_edit_readable(&dangling, "20", "upgrade"));
    assert!(SaveManager::upgrade_edit_readable(&dangling, "20", "itemUpgrade"));
    let full = parse(r#"{"records":{"20":{"members":[]},"9223372036854775807":{"members":[]}}}"#);
    assert!(SaveManager::upgrade_edit_readable(&full, "20", "itemUpgrade"));
    assert!(!SaveManager::upgrade_edit_ok(&full, "20", "itemUpgrade"));
    assert!(SaveManager::records_count_fits(&j));
}

#[test]
fn typed_upgrade_codes_applied() {
    let mut j = standard();
    assert!(matches!(
        SaveManager::apply_typed_upgrade(&mut j, "20", "itemUpgrade", "装备", "  \t", &None),
        TypedEdit::Blank
    ));
    match SaveManager::apply_typed_upgrade(&mut j, "20", "itemUpgrade", "装备", "  Hero_Item_Charge \n", &None) {
        TypedEdit::Applied(line) => {
            assert_eq!(line, "✔装备已修改  →Hero_Item_Charge")
        }
        _ => panic!("expected the item to be applied"),
    }
    let h = SaveManager::get_hero_details(&j, "20").unwrap();
    let item = h.item_info.clone().unwrap();
    assert_eq!(item.name, "Hero_Item_Charge");
    assert_eq!(item.level, 0);
    match SaveManager::apply_typed_upgrade(&mut j, "20", "classUpgrade", "兵种", "Hero_Class_Archers", &h.class_info) {
        TypedEdit::Applied(line) => {
            assert_eq!(line, "✔兵种已修改 Hero_Class_Infantry →Hero_Class_Archers")
        }
        _ => panic!("expected the class to be applied"),
    }
    let h = SaveManager::get_hero_details(&j, "20").unwrap();
    assert_eq!(h.class_display(), "Hero_Class_Archers(L1)");
    let mut lost = parse(r#"{"records":{"1":{"class_type_name":"X","members":[]}}}"#);
    match SaveManager::apply_typed_upgrade(&mut lost, "20", "traitUpgrade", "特质", "Hero_Trait_Yuri", &None) {
        TypedEdit::Refused(line) => {
            assert_eq!(line, "修改失败: Hero record 20 not found")
        }
        _ => panic!("expected a refusal"),
    }
}

#[test]
fn record_ids_read_as_integers() {
    let ids = |keys: &[&str]| -> i64 {
        let body: Vec<String> = keys.iter().map(|k| format!("\"{}\":{{}}", k)).collect();
        SaveManager::find_max_record_id(&parse(&format!("{{\"records\":{{{}}}}}", body.join(","))))
    };
    assert_eq!(ids(&["+12", "-4", "7"]), 12);
    assert_eq!(ids(&["-4", "-9"]), -4);
    assert_eq!(ids(&["9223372036854775807"]), i64::MAX);
    assert_eq!(ids(&["9223372036854775808", "3"]), 3);
    assert_eq!(ids(&["-9223372036854775808"]), i64::MIN);
    assert_eq!(ids(&["-9223372036854775809", "1a", "", "+", "-", " 5", "٣"]), 0);
    assert_eq!(ids(&["0007"]), 7);
    assert_eq!(SaveError::ListSizeNotFound(i64::MIN).message(), "_size member not found in List record -9223372036854775808");
    assert_eq!(SaveError::NoValuesArray(0).message(), "BinaryArray 0 has no values array");
}
