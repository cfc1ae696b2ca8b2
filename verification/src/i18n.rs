//! The editor's texts in its two languages.
use vstd::prelude::*;
use crate::settings::Language;
use crate::text::str_eq;

verus! {

/// A text in the language asked for.
pub open spec fn pick(zh: Seq<char>, en: Seq<char>, lang: Language) -> Seq<char> {
    match lang {
        Language::Chinese => zh,
        Language::English => en,
    }
}

/// The text of a key in a language; empty for a key the editor does not know.
pub open spec fn translation(key: Seq<char>, lang: Language) -> Seq<char> {
    if key == "field"@ {
        pick("字段"@, "Field"@, lang)
    } else if key == "id"@ {
        pick("ID"@, "ID"@, lang)
    } else if key == "current"@ {
        pick("当前"@, "Current"@, lang)
    } else if key == "level"@ {
        pick("等级"@, "Level"@, lang)
    } else if key == "new_value"@ {
        pick("新值"@, "New Value"@, lang)
    } else if key == "quick_select"@ {
        pick("快速应用"@, "Quick Apply"@, lang)
    } else if key == "apply_change"@ {
        pick("✔应用变更"@, "✔Apply"@, lang)
    } else if key == "no_class"@ {
        pick("( 无兵种)"@, "( No Class )"@, lang)
    } else if key == "no_item"@ {
        pick("当前: ( 无装备)"@, "Current: ( No Item )"@, lang)
    } else if key == "no_trait"@ {
        pick("当前: ( 无特质)"@, "Current: ( No Trait )"@, lang)
    } else if key == "app_settings"@ {
        pick("应用设置"@, "App Settings"@, lang)
    } else if key == "color_mode"@ {
        pick("色彩模式："@, "Color Mode:"@, lang)
    } else if key == "dark_mode"@ {
        pick("黑色"@, "Dark"@, lang)
    } else if key == "colorful_mode"@ {
        pick("彩色"@, "Colorful"@, lang)
    } else if key == "follow_system"@ {
        pick("跟随系统"@, "Follow System"@, lang)
    } else if key == "language"@ {
        pick("语言："@, "Language:"@, lang)
    } else if key == "chinese"@ {
        pick("中文 CN"@, "中文 CN"@, lang)
    } else if key == "english"@ {
        pick("English EN"@, "English EN"@, lang)
    } else if key == "auto_save"@ {
        pick("设置已自动保存"@, "Settings auto-saved"@, lang)
    } else if key == "select_exe"@ {
        pick("请选择 BadNorthSaveEditorRust.exe 的位置"@, "Select BadNorthSaveEditorRust.exe location"@, lang)
    } else if key == "browse_exe"@ {
        pick("浏览并选择编辑器EXE"@, "Browse & Select Editor EXE"@, lang)
    } else if key == "select_save"@ {
        pick("请选择游戏存档文件："@, "Select save file:"@, lang)
    } else if key == "browse_save"@ {
        pick("浏览并选择存档文件"@, "Browse & Select Save File"@, lang)
    } else if key == "editor_label"@ {
        pick("编辑器："@, "Editor:"@, lang)
    } else if key == "reselect_exe"@ {
        pick("重新选择编辑器EXE"@, "Re-select Editor EXE"@, lang)
    } else if key == "editor_exe_found"@ {
        pick("已识别到指定exe文件"@, "Editor exe file detected"@, lang)
    } else if key == "editor_exe_hint"@ {
        pick("如需修改BadNorthSaveRustEditor.exe或BadNorthSaveconverter.exe的地址，请去\"设置\"内修改或重置"@, "To change the address of BadNorthSaveRustEditor.exe or BadNorthSaveconverter.exe, go to \"Settings\" to modify or reset"@, lang)
    } else if key == "show_logs"@ {
        pick("显示日志"@, "Show Logs"@, lang)
    } else if key == "hide_logs"@ {
        pick("隐藏日志"@, "Hide Logs"@, lang)
    } else if key == "export_json"@ {
        pick("导出 JSON"@, "Export JSON"@, lang)
    } else if key == "load_save"@ {
        pick("加载其他存档"@, "Load Save"@, lang)
    } else if key == "save_file"@ {
        pick("备份并替换存档"@, "Save & Backup"@, lang)
    } else if key == "refresh"@ {
        pick("刷新"@, "Refresh"@, lang)
    } else if key == "heroes"@ {
        pick("英雄"@, "Heroes"@, lang)
    } else if key == "coin_bank"@ {
        pick("货币 (coinBank) 修改"@, "Currency (coinBank) Edit"@, lang)
    } else if key == "grail_count"@ {
        pick("圣杯(Grail)"@, "Grail (Grail)"@, lang)
    } else if key == "total_grails"@ {
        pick("总数:"@, "Total:"@, lang)
    } else if key == "grail_on_hero"@ {
        pick("已被装备数"@, "Equipped:"@, lang)
    } else if key == "grail_in_inv"@ {
        pick("未被装备数"@, "Unequipped:"@, lang)
    } else if key == "grail_code"@ {
        pick("圣杯代码:"@, "Grail Code:"@, lang)
    } else if key == "set_count"@ {
        pick("设置数量:"@, "Set Count:"@, lang)
    } else if key == "copy_code"@ {
        pick("复制 Hero_Upgrade_Grail 到剪贴板"@, "Copy Hero_Upgrade_Grail to clipboard"@, lang)
    } else if key == "current_value"@ {
        pick("当前值"@, "Current:"@, lang)
    } else if key == "new_value_label"@ {
        pick("新值"@, "New:"@, lang)
    } else if key == "apply_modify"@ {
        pick("应用修改"@, "Apply"@, lang)
    } else if key == "apply_btn"@ {
        pick("应用"@, "Apply"@, lang)
    } else if key == "clear_logs"@ {
        pick("清空"@, "Clear"@, lang)
    } else if key == "copy_logs"@ {
        pick("全选并复制"@, "Select All & Copy"@, lang)
    } else if key == "select_hero"@ {
        pick("从左侧列表选择修改功能"@, "→Select a function from the left"@, lang)
    } else if key == "abnormal_data"@ {
        pick("英雄数据异常"@, "Hero data is abnormal"@, lang)
    } else if key == "grail_wip"@ {
        pick("背包装备管理功能完善中，敬请期待"@, "Inventory equipment management coming soon, stay tuned"@, lang)
    } else if key == "inv_panel_title"@ {
        pick("背包装备修改"@, "Inventory Equipment Edit"@, lang)
    } else if key == "inv_item_code"@ {
        pick("代码:"@, "Code:"@, lang)
    } else if key == "inv_total"@ {
        pick("总数:"@, "Total:"@, lang)
    } else if key == "inv_on_hero"@ {
        pick("已装备"@, "Equipped:"@, lang)
    } else if key == "inv_in_inv"@ {
        pick("背包中"@, "In Inventory:"@, lang)
    } else if key == "inv_set_count"@ {
        pick("设置数量:"@, "Set Count:"@, lang)
    } else if key == "inv_bomb_title"@ {
        pick("炸弹 (Bomb)"@, "Bomb"@, lang)
    } else if key == "inv_mine_title"@ {
        pick("地雷 (Mine)"@, "Mine"@, lang)
    } else if key == "inv_stone_title"@ {
        pick("贤者之石(Philosophers Stone)"@, "Philosophers Stone"@, lang)
    } else if key == "inv_size_title"@ {
        pick("指挥之戒 (Size)"@, "Command Ring (Size)"@, lang)
    } else if key == "inv_warhammer_title"@ {
        pick("战锤 (Warhammer)"@, "Warhammer"@, lang)
    } else if key == "inv_cornucopia_title"@ {
        pick("雅贝那(Cornucopia)"@, "Cornucopia"@, lang)
    } else if key == "inv_warhorn_title"@ {
        pick("战争号角 (War Horn)"@, "War Horn"@, lang)
    } else if key == "menu_settings"@ {
        pick("设置"@, "Settings"@, lang)
    } else if key == "menu_commanders"@ {
        pick("指挥官修改"@, "Commanders"@, lang)
    } else if key == "menu_currency"@ {
        pick("货币和物品修改"@, "Currency & Items"@, lang)
    } else if key == "menu_coinbank"@ {
        pick("  coinBank 修改"@, "  CoinBank Edit"@, lang)
    } else if key == "menu_grail"@ {
        pick("  背包内装备修改"@, "  Inventory Equipment"@, lang)
    } else if key == "inv_capacity_hint"@ {
        pick("提示：背包最多可存放 20 个物品（所有装备之和）"@, "Tip: Inventory can hold max 20 items (total of all equipment)"@, lang)
    } else if key == "inv_overview_title"@ {
        pick("背包内装备总览"@, "Inventory Overview"@, lang)
    } else if key == "inv_overview_total"@ {
        pick("背包总数"@, "Total in Inventory"@, lang)
    } else if key == "inv_overview_limit"@ {
        pick("（上限20）"@, "(max 20)"@, lang)
    } else if key == "inv_overview_items"@ {
        pick("当前物品"@, "Current Items"@, lang)
    } else if key == "inv_overview_mod"@ {
        pick("Mod 物品"@, "Mod Items"@, lang)
    } else if key == "inv_overview_empty"@ {
        pick("（背包为空）"@, "(inventory empty)"@, lang)
    } else if key == "inv_custom_label"@ {
        pick("添加自定义物品"@, "Add Custom Item"@, lang)
    } else if key == "inv_custom_hint"@ {
        pick("输入物品字段名称，如 Hero_Upgrade_ModWeapon"@, "Enter field name, e.g. Hero_Upgrade_ModWeapon"@, lang)
    } else if key == "inv_custom_apply"@ {
        pick("应用"@, "Apply"@, lang)
    } else if key == "inv_custom_empty"@ {
        pick("请输入物品字段名称"@, "Please enter an item field name"@, lang)
    } else if key == "warhorn_wip"@ {
        pick("战争号角修改功能完善中，请移步于'指挥官修改的装备修改'实现战争号角修改"@, "War Horn modification coming soon, stay tuned"@, lang)
    } else if key == "cornucopia_wip"@ {
        pick("雅贝那修改功能完善中，敬请期待"@, "Cornucopia modification coming soon, stay tuned"@, lang)
    } else if key == "yabena_wip"@ {
        pick("雅贝那修改功能完善中，请移步于背包内装备修改实现雅贝那修改"@, "The Cornucopia editor is under construction. Please use \"Inventory Equipment Editor\" to edit the Cornucopia."@, lang)
    } else if key == "no_upgrade"@ {
        pick("( 无消耗型升级 )"@, "( No consumable upgrade )"@, lang)
    } else if key == "remove_item"@ {
        pick("移除装备"@, "Remove Equipment"@, lang)
    } else if key == "remove_trait"@ {
        pick("移除特质"@, "Remove Trait"@, lang)
    } else if key == "keep_logs_visible"@ {
        pick("日志显示"@, "Log Display"@, lang)
    } else if key == "keep_logs_label"@ {
        pick("保持日志显示"@, "Keep Logs Visible"@, lang)
    } else if key == "class_editor_title"@ {
        pick("兵种修改 (Class)"@, "Class"@, lang)
    } else if key == "item_editor_title"@ {
        pick("装备修改 (Item)"@, "Item"@, lang)
    } else if key == "trait_editor_title"@ {
        pick("特质修改 (Trait)"@, "Trait"@, lang)
    } else if key == "log_heading"@ {
        pick("操作日志"@, "Logs"@, lang)
    } else if key == "apply_hint"@ {
        pick("输入后点击【应用】"@, "Type then click Apply"@, lang)
    } else if key == "quick_apply"@ {
        pick("快速应用"@, "Quick Apply"@, lang)
    } else if key == "collapse_label"@ {
        pick("▼ 收起"@, "▼ Collapse"@, lang)
    } else if key == "expand_label"@ {
        pick("▶ 展开"@, "▶ Expand"@, lang)
    } else if key == "quick_apply_hint"@ {
        pick("快速应用"@, "Quick Apply"@, lang)
    } else if key == "mod_items_title"@ {
        pick("魔改版- 专属装备"@, "Mod - Exclusive Equipment"@, lang)
    } else if key == "mod_traits_title"@ {
        pick("魔改版- 专属特质"@, "Mod - Exclusive Traits"@, lang)
    } else if key == "fusion_items_title"@ {
        pick("融合版- 专属装备"@, "Fusion - Exclusive Equipment"@, lang)
    } else if key == "fusion_traits_title"@ {
        pick("融合版- 专属特质"@, "Fusion - Exclusive Traits"@, lang)
    } else if key == "oldgrey_flag_traits_title"@ {
        pick("旧灰复燃的战旗- 专属特质"@, "Rebirth Flag - Exclusive Traits"@, lang)
    } else if key == "converter_builtin"@ {
        pick("✓ 转换器已内置（无需外部EXE）"@, "✓ Converter is built-in (no external EXE needed)"@, lang)
    } else {
        Seq::empty()
    }
}

/// The keys the editor has texts for.
pub open spec fn text_key(key: Seq<char>) -> bool {
    key == "field"@
        || key == "id"@
        || key == "current"@
        || key == "level"@
        || key == "new_value"@
        || key == "quick_select"@
        || key == "apply_change"@
        || key == "no_class"@
        || key == "no_item"@
        || key == "no_trait"@
        || key == "app_settings"@
        || key == "color_mode"@
        || key == "dark_mode"@
        || key == "colorful_mode"@
        || key == "follow_system"@
        || key == "language"@
        || key == "chinese"@
        || key == "english"@
        || key == "auto_save"@
        || key == "select_exe"@
        || key == "browse_exe"@
        || key == "select_save"@
        || key == "browse_save"@
        || key == "editor_label"@
        || key == "reselect_exe"@
        || key == "editor_exe_found"@
        || key == "editor_exe_hint"@
        || key == "show_logs"@
        || key == "hide_logs"@
        || key == "export_json"@
        || key == "load_save"@
        || key == "save_file"@
        || key == "refresh"@
        || key == "heroes"@
        || key == "coin_bank"@
        || key == "grail_count"@
        || key == "total_grails"@
        || key == "grail_on_hero"@
        || key == "grail_in_inv"@
        || key == "grail_code"@
        || key == "set_count"@
        || key == "copy_code"@
        || key == "current_value"@
        || key == "new_value_label"@
        || key == "apply_modify"@
        || key == "apply_btn"@
        || key == "clear_logs"@
        || key == "copy_logs"@
        || key == "select_hero"@
        || key == "abnormal_data"@
        || key == "grail_wip"@
        || key == "inv_panel_title"@
        || key == "inv_item_code"@
        || key == "inv_total"@
        || key == "inv_on_hero"@
        || key == "inv_in_inv"@
        || key == "inv_set_count"@
        || key == "inv_bomb_title"@
        || key == "inv_mine_title"@
        || key == "inv_stone_title"@
        || key == "inv_size_title"@
        || key == "inv_warhammer_title"@
        || key == "inv_cornucopia_title"@
        || key == "inv_warhorn_title"@
        || key == "menu_settings"@
        || key == "menu_commanders"@
        || key == "menu_currency"@
        || key == "menu_coinbank"@
        || key == "menu_grail"@
        || key == "inv_capacity_hint"@
        || key == "inv_overview_title"@
        || key == "inv_overview_total"@
        || key == "inv_overview_limit"@
        || key == "inv_overview_items"@
        || key == "inv_overview_mod"@
        || key == "inv_overview_empty"@
        || key == "inv_custom_label"@
        || key == "inv_custom_hint"@
        || key == "inv_custom_apply"@
        || key == "inv_custom_empty"@
        || key == "warhorn_wip"@
        || key == "cornucopia_wip"@
        || key == "yabena_wip"@
        || key == "no_upgrade"@
        || key == "remove_item"@
        || key == "remove_trait"@
        || key == "keep_logs_visible"@
        || key == "keep_logs_label"@
        || key == "class_editor_title"@
        || key == "item_editor_title"@
        || key == "trait_editor_title"@
        || key == "log_heading"@
        || key == "apply_hint"@
        || key == "quick_apply"@
        || key == "collapse_label"@
        || key == "expand_label"@
        || key == "quick_apply_hint"@
        || key == "mod_items_title"@
        || key == "mod_traits_title"@
        || key == "fusion_items_title"@
        || key == "fusion_traits_title"@
        || key == "oldgrey_flag_traits_title"@
        || key == "converter_builtin"@
}

/// Both languages have a text for the same keys: a key's text is empty in one
/// exactly when it is empty in the other, and every key the editor knows has one.
pub proof fn law_texts_in_both_languages(key: Seq<char>)
    ensures
        (translation(key, Language::Chinese).len() > 0) == text_key(key),
        (translation(key, Language::English).len() > 0) == text_key(key),
{
    reveal_strlit("字段");
    reveal_strlit("Field");
    reveal_strlit("ID");
    reveal_strlit("当前");
    reveal_strlit("Current");
    reveal_strlit("等级");
    reveal_strlit("Level");
    reveal_strlit("新值");
    reveal_strlit("New Value");
    reveal_strlit("快速应用");
    reveal_strlit("Quick Apply");
    reveal_strlit("✔应用变更");
    reveal_strlit("✔Apply");
    reveal_strlit("( 无兵种)");
    reveal_strlit("( No Class )");
    reveal_strlit("当前: ( 无装备)");
    reveal_strlit("Current: ( No Item )");
    reveal_strlit("当前: ( 无特质)");
    reveal_strlit("Current: ( No Trait )");
    reveal_strlit("应用设置");
    reveal_strlit("App Settings");
    reveal_strlit("色彩模式：");
    reveal_strlit("Color Mode:");
    reveal_strlit("黑色");
    reveal_strlit("Dark");
    reveal_strlit("彩色");
    reveal_strlit("Colorful");
    reveal_strlit("跟随系统");
    reveal_strlit("Follow System");
    reveal_strlit("语言：");
    reveal_strlit("Language:");
    reveal_strlit("中文 CN");
    reveal_strlit("English EN");
    reveal_strlit("设置已自动保存");
    reveal_strlit("Settings auto-saved");
    reveal_strlit("请选择 BadNorthSaveEditorRust.exe 的位置");
    reveal_strlit("Select BadNorthSaveEditorRust.exe location");
    reveal_strlit("浏览并选择编辑器EXE");
    reveal_strlit("Browse & Select Editor EXE");
    reveal_strlit("请选择游戏存档文件：");
    reveal_strlit("Select save file:");
    reveal_strlit("浏览并选择存档文件");
    reveal_strlit("Browse & Select Save File");
    reveal_strlit("编辑器：");
    reveal_strlit("Editor:");
    reveal_strlit("重新选择编辑器EXE");
    reveal_strlit("Re-select Editor EXE");
    reveal_strlit("已识别到指定exe文件");
    reveal_strlit("Editor exe file detected");
    reveal_strlit("如需修改BadNorthSaveRustEditor.exe或BadNorthSaveconverter.exe的地址，请去\"设置\"内修改或重置");
    reveal_strlit("To change the address of BadNorthSaveRustEditor.exe or BadNorthSaveconverter.exe, go to \"Settings\" to modify or reset");
    reveal_strlit("显示日志");
    reveal_strlit("Show Logs");
    reveal_strlit("隐藏日志");
    reveal_strlit("Hide Logs");
    reveal_strlit("导出 JSON");
    reveal_strlit("Export JSON");
    reveal_strlit("加载其他存档");
    reveal_strlit("Load Save");
    reveal_strlit("备份并替换存档");
    reveal_strlit("Save & Backup");
    reveal_strlit("刷新");
    reveal_strlit("Refresh");
    reveal_strlit("英雄");
    reveal_strlit("Heroes");
    reveal_strlit("货币 (coinBank) 修改");
    reveal_strlit("Currency (coinBank) Edit");
    reveal_strlit("圣杯(Grail)");
    reveal_strlit("Grail (Grail)");
    reveal_strlit("总数:");
    reveal_strlit("Total:");
    reveal_strlit("已被装备数");
    reveal_strlit("Equipped:");
    reveal_strlit("未被装备数");
    reveal_strlit("Unequipped:");
    reveal_strlit("圣杯代码:");
    reveal_strlit("Grail Code:");
    reveal_strlit("设置数量:");
    reveal_strlit("Set Count:");
    reveal_strlit("复制 Hero_Upgrade_Grail 到剪贴板");
    reveal_strlit("Copy Hero_Upgrade_Grail to clipboard");
    reveal_strlit("当前值");
    reveal_strlit("Current:");
    reveal_strlit("New:");
    reveal_strlit("应用修改");
    reveal_strlit("Apply");
    reveal_strlit("应用");
    reveal_strlit("清空");
    reveal_strlit("Clear");
    reveal_strlit("全选并复制");
    reveal_strlit("Select All & Copy");
    reveal_strlit("从左侧列表选择修改功能");
    reveal_strlit("→Select a function from the left");
    reveal_strlit("英雄数据异常");
    reveal_strlit("Hero data is abnormal");
    reveal_strlit("背包装备管理功能完善中，敬请期待");
    reveal_strlit("Inventory equipment management coming soon, stay tuned");
    reveal_strlit("背包装备修改");
    reveal_strlit("Inventory Equipment Edit");
    reveal_strlit("代码:");
    reveal_strlit("Code:");
    reveal_strlit("已装备");
    reveal_strlit("背包中");
    reveal_strlit("In Inventory:");
    reveal_strlit("炸弹 (Bomb)");
    reveal_strlit("Bomb");
    reveal_strlit("地雷 (Mine)");
    reveal_strlit("Mine");
    reveal_strlit("贤者之石(Philosophers Stone)");
    reveal_strlit("Philosophers Stone");
    reveal_strlit("指挥之戒 (Size)");
    reveal_strlit("Command Ring (Size)");
    reveal_strlit("战锤 (Warhammer)");
    reveal_strlit("Warhammer");
    reveal_strlit("雅贝那(Cornucopia)");
    reveal_strlit("Cornucopia");
    reveal_strlit("战争号角 (War Horn)");
    reveal_strlit("War Horn");
    reveal_strlit("设置");
    reveal_strlit("Settings");
    reveal_strlit("指挥官修改");
    reveal_strlit("Commanders");
    reveal_strlit("货币和物品修改");
    reveal_strlit("Currency & Items");
    reveal_strlit("  coinBank 修改");
    reveal_strlit("  CoinBank Edit");
    reveal_strlit("  背包内装备修改");
    reveal_strlit("  Inventory Equipment");
    reveal_strlit("提示：背包最多可存放 20 个物品（所有装备之和）");
    reveal_strlit("Tip: Inventory can hold max 20 items (total of all equipment)");
    reveal_strlit("背包内装备总览");
    reveal_strlit("Inventory Overview");
    reveal_strlit("背包总数");
    reveal_strlit("Total in Inventory");
    reveal_strlit("（上限20）");
    reveal_strlit("(max 20)");
    reveal_strlit("当前物品");
    reveal_strlit("Current Items");
    reveal_strlit("Mod 物品");
    reveal_strlit("Mod Items");
    reveal_strlit("（背包为空）");
    reveal_strlit("(inventory empty)");
    reveal_strlit("添加自定义物品");
    reveal_strlit("Add Custom Item");
    reveal_strlit("输入物品字段名称，如 Hero_Upgrade_ModWeapon");
    reveal_strlit("Enter field name, e.g. Hero_Upgrade_ModWeapon");
    reveal_strlit("请输入物品字段名称");
    reveal_strlit("Please enter an item field name");
    reveal_strlit("战争号角修改功能完善中，请移步于'指挥官修改的装备修改'实现战争号角修改");
    reveal_strlit("War Horn modification coming soon, stay tuned");
    reveal_strlit("雅贝那修改功能完善中，敬请期待");
    reveal_strlit("Cornucopia modification coming soon, stay tuned");
    reveal_strlit("雅贝那修改功能完善中，请移步于背包内装备修改实现雅贝那修改");
    reveal_strlit("The Cornucopia editor is under construction. Please use \"Inventory Equipment Editor\" to edit the Cornucopia.");
    reveal_strlit("( 无消耗型升级 )");
    reveal_strlit("( No consumable upgrade )");
    reveal_strlit("移除装备");
    reveal_strlit("Remove Equipment");
    reveal_strlit("移除特质");
    reveal_strlit("Remove Trait");
    reveal_strlit("日志显示");
    reveal_strlit("Log Display");
    reveal_strlit("保持日志显示");
    reveal_strlit("Keep Logs Visible");
    reveal_strlit("兵种修改 (Class)");
    reveal_strlit("Class");
    reveal_strlit("装备修改 (Item)");
    reveal_strlit("Item");
    reveal_strlit("特质修改 (Trait)");
    reveal_strlit("Trait");
    reveal_strlit("操作日志");
    reveal_strlit("Logs");
    reveal_strlit("输入后点击【应用】");
    reveal_strlit("Type then click Apply");
    reveal_strlit("▼ 收起");
    reveal_strlit("▼ Collapse");
    reveal_strlit("▶ 展开");
    reveal_strlit("▶ Expand");
    reveal_strlit("魔改版- 专属装备");
    reveal_strlit("Mod - Exclusive Equipment");
    reveal_strlit("魔改版- 专属特质");
    reveal_strlit("Mod - Exclusive Traits");
    reveal_strlit("融合版- 专属装备");
    reveal_strlit("Fusion - Exclusive Equipment");
    reveal_strlit("融合版- 专属特质");
    reveal_strlit("Fusion - Exclusive Traits");
    reveal_strlit("旧灰复燃的战旗- 专属特质");
    reveal_strlit("Rebirth Flag - Exclusive Traits");
    reveal_strlit("✓ 转换器已内置（无需外部EXE）");
    reveal_strlit("✓ Converter is built-in (no external EXE needed)");
}

/// Gives the text of the language asked for.
fn choose_text(zh: &'static str, en: &'static str, lang: &Language) -> (r: &'static str)
    ensures
        r@ == pick(zh@, en@, *lang),
{
    match lang {
        Language::Chinese => zh,
        Language::English => en,
    }
}

/// The text of `key` in `lang` (see [`translation`]).
pub fn t(key: &str, lang: &Language) -> (r: &'static str)
    ensures
        r@ == translation(key@, *lang),
{
    if str_eq(key, "field") {
        choose_text("字段", "Field", lang)
    } else if str_eq(key, "id") {
        choose_text("ID", "ID", lang)
    } else if str_eq(key, "current") {
        choose_text("当前", "Current", lang)
    } else if str_eq(key, "level") {
        choose_text("等级", "Level", lang)
    } else if str_eq(key, "new_value") {
        choose_text("新值", "New Value", lang)
    } else if str_eq(key, "quick_select") {
        choose_text("快速应用", "Quick Apply", lang)
    } else if str_eq(key, "apply_change") {
        choose_text("✔应用变更", "✔Apply", lang)
    } else if str_eq(key, "no_class") {
        choose_text("( 无兵种)", "( No Class )", lang)
    } else if str_eq(key, "no_item") {
        choose_text("当前: ( 无装备)", "Current: ( No Item )", lang)
    } else if str_eq(key, "no_trait") {
        choose_text("当前: ( 无特质)", "Current: ( No Trait )", lang)
    } else if str_eq(key, "app_settings") {
        choose_text("应用设置", "App Settings", lang)
    } else if str_eq(key, "color_mode") {
        choose_text("色彩模式：", "Color Mode:", lang)
    } else if str_eq(key, "dark_mode") {
        choose_text("黑色", "Dark", lang)
    } else if str_eq(key, "colorful_mode") {
        choose_text("彩色", "Colorful", lang)
    } else if str_eq(key, "follow_system") {
        choose_text("跟随系统", "Follow System", lang)
    } else if str_eq(key, "language") {
        choose_text("语言：", "Language:", lang)
    } else if str_eq(key, "chinese") {
        choose_text("中文 CN", "中文 CN", lang)
    } else if str_eq(key, "english") {
        choose_text("English EN", "English EN", lang)
    } else if str_eq(key, "auto_save") {
        choose_text("设置已自动保存", "Settings auto-saved", lang)
    } else if str_eq(key, "select_exe") {
        choose_text("请选择 BadNorthSaveEditorRust.exe 的位置", "Select BadNorthSaveEditorRust.exe location", lang)
    } else if str_eq(key, "browse_exe") {
        choose_text("浏览并选择编辑器EXE", "Browse & Select Editor EXE", lang)
    } else if str_eq(key, "select_save") {
        choose_text("请选择游戏存档文件：", "Select save file:", lang)
    } else if str_eq(key, "browse_save") {
        choose_text("浏览并选择存档文件", "Browse & Select Save File", lang)
    } else if str_eq(key, "editor_label") {
        choose_text("编辑器：", "Editor:", lang)
    } else if str_eq(key, "reselect_exe") {
        choose_text("重新选择编辑器EXE", "Re-select Editor EXE", lang)
    } else if str_eq(key, "editor_exe_found") {
        choose_text("已识别到指定exe文件", "Editor exe file detected", lang)
    } else if str_eq(key, "editor_exe_hint") {
        choose_text("如需修改BadNorthSaveRustEditor.exe或BadNorthSaveconverter.exe的地址，请去\"设置\"内修改或重置", "To change the address of BadNorthSaveRustEditor.exe or BadNorthSaveconverter.exe, go to \"Settings\" to modify or reset", lang)
    } else if str_eq(key, "show_logs") {
        choose_text("显示日志", "Show Logs", lang)
    } else if str_eq(key, "hide_logs") {
        choose_text("隐藏日志", "Hide Logs", lang)
    } else if str_eq(key, "export_json") {
        choose_text("导出 JSON", "Export JSON", lang)
    } else if str_eq(key, "load_save") {
        choose_text("加载其他存档", "Load Save", lang)
    } else if str_eq(key, "save_file") {
        choose_text("备份并替换存档", "Save & Backup", lang)
    } else if str_eq(key, "refresh") {
        choose_text("刷新", "Refresh", lang)
    } else if str_eq(key, "heroes") {
        choose_text("英雄", "Heroes", lang)
    } else if str_eq(key, "coin_bank") {
        choose_text("货币 (coinBank) 修改", "Currency (coinBank) Edit", lang)
    } else if str_eq(key, "grail_count") {
        choose_text("圣杯(Grail)", "Grail (Grail)", lang)
    } else if str_eq(key, "total_grails") {
        choose_text("总数:", "Total:", lang)
    } else if str_eq(key, "grail_on_hero") {
        choose_text("已被装备数", "Equipped:", lang)
    } else if str_eq(key, "grail_in_inv") {
        choose_text("未被装备数", "Unequipped:", lang)
    } else if str_eq(key, "grail_code") {
        choose_text("圣杯代码:", "Grail Code:", lang)
    } else if str_eq(key, "set_count") {
        choose_text("设置数量:", "Set Count:", lang)
    } else if str_eq(key, "copy_code") {
        choose_text("复制 Hero_Upgrade_Grail 到剪贴板", "Copy Hero_Upgrade_Grail to clipboard", lang)
    } else if str_eq(key, "current_value") {
        choose_text("当前值", "Current:", lang)
    } else if str_eq(key, "new_value_label") {
        choose_text("新值", "New:", lang)
    } else if str_eq(key, "apply_modify") {
        choose_text("应用修改", "Apply", lang)
    } else if str_eq(key, "apply_btn") {
        choose_text("应用", "Apply", lang)
    } else if str_eq(key, "clear_logs") {
        choose_text("清空", "Clear", lang)
    } else if str_eq(key, "copy_logs") {
        choose_text("全选并复制", "Select All & Copy", lang)
    } else if str_eq(key, "select_hero") {
        choose_text("从左侧列表选择修改功能", "→Select a function from the left", lang)
    } else if str_eq(key, "abnormal_data") {
        choose_text("英雄数据异常", "Hero data is abnormal", lang)
    } else if str_eq(key, "grail_wip") {
        choose_text("背包装备管理功能完善中，敬请期待", "Inventory equipment management coming soon, stay tuned", lang)
    } else if str_eq(key, "inv_panel_title") {
        choose_text("背包装备修改", "Inventory Equipment Edit", lang)
    } else if str_eq(key, "inv_item_code") {
        choose_text("代码:", "Code:", lang)
    } else if str_eq(key, "inv_total") {
        choose_text("总数:", "Total:", lang)
    } else if str_eq(key, "inv_on_hero") {
        choose_text("已装备", "Equipped:", lang)
    } else if str_eq(key, "inv_in_inv") {
        choose_text("背包中", "In Inventory:", lang)
    } else if str_eq(key, "inv_set_count") {
        choose_text("设置数量:", "Set Count:", lang)
    } else if str_eq(key, "inv_bomb_title") {
        choose_text("炸弹 (Bomb)", "Bomb", lang)
    } else if str_eq(key, "inv_mine_title") {
        choose_text("地雷 (Mine)", "Mine", lang)
    } else if str_eq(key, "inv_stone_title") {
        choose_text("贤者之石(Philosophers Stone)", "Philosophers Stone", lang)
    } else if str_eq(key, "inv_size_title") {
        choose_text("指挥之戒 (Size)", "Command Ring (Size)", lang)
    } else if str_eq(key, "inv_warhammer_title") {
        choose_text("战锤 (Warhammer)", "Warhammer", lang)
    } else if str_eq(key, "inv_cornucopia_title") {
        choose_text("雅贝那(Cornucopia)", "Cornucopia", lang)
    } else if str_eq(key, "inv_warhorn_title") {
        choose_text("战争号角 (War Horn)", "War Horn", lang)
    } else if str_eq(key, "menu_settings") {
        choose_text("设置", "Settings", lang)
    } else if str_eq(key, "menu_commanders") {
        choose_text("指挥官修改", "Commanders", lang)
    } else if str_eq(key, "menu_currency") {
        choose_text("货币和物品修改", "Currency & Items", lang)
    } else if str_eq(key, "menu_coinbank") {
        choose_text("  coinBank 修改", "  CoinBank Edit", lang)
    } else if str_eq(key, "menu_grail") {
        choose_text("  背包内装备修改", "  Inventory Equipment", lang)
    } else if str_eq(key, "inv_capacity_hint") {
        choose_text("提示：背包最多可存放 20 个物品（所有装备之和）", "Tip: Inventory can hold max 20 items (total of all equipment)", lang)
    } else if str_eq(key, "inv_overview_title") {
        choose_text("背包内装备总览", "Inventory Overview", lang)
    } else if str_eq(key, "inv_overview_total") {
        choose_text("背包总数", "Total in Inventory", lang)
    } else if str_eq(key, "inv_overview_limit") {
        choose_text("（上限20）", "(max 20)", lang)
    } else if str_eq(key, "inv_overview_items") {
        choose_text("当前物品", "Current Items", lang)
    } else if str_eq(key, "inv_overview_mod") {
        choose_text("Mod 物品", "Mod Items", lang)
    } else if str_eq(key, "inv_overview_empty") {
        choose_text("（背包为空）", "(inventory empty)", lang)
    } else if str_eq(key, "inv_custom_label") {
        choose_text("添加自定义物品", "Add Custom Item", lang)
    } else if str_eq(key, "inv_custom_hint") {
        choose_text("输入物品字段名称，如 Hero_Upgrade_ModWeapon", "Enter field name, e.g. Hero_Upgrade_ModWeapon", lang)
    } else if str_eq(key, "inv_custom_apply") {
        choose_text("应用", "Apply", lang)
    } else if str_eq(key, "inv_custom_empty") {
        choose_text("请输入物品字段名称", "Please enter an item field name", lang)
    } else if str_eq(key, "warhorn_wip") {
        choose_text("战争号角修改功能完善中，请移步于'指挥官修改的装备修改'实现战争号角修改", "War Horn modification coming soon, stay tuned", lang)
    } else if str_eq(key, "cornucopia_wip") {
        choose_text("雅贝那修改功能完善中，敬请期待", "Cornucopia modification coming soon, stay tuned", lang)
    } else if str_eq(key, "yabena_wip") {
        choose_text("雅贝那修改功能完善中，请移步于背包内装备修改实现雅贝那修改", "The Cornucopia editor is under construction. Please use \"Inventory Equipment Editor\" to edit the Cornucopia.", lang)
    } else if str_eq(key, "no_upgrade") {
        choose_text("( 无消耗型升级 )", "( No consumable upgrade )", lang)
    } else if str_eq(key, "remove_item") {
        choose_text("移除装备", "Remove Equipment", lang)
    } else if str_eq(key, "remove_trait") {
        choose_text("移除特质", "Remove Trait", lang)
    } else if str_eq(key, "keep_logs_visible") {
        choose_text("日志显示", "Log Display", lang)
    } else if str_eq(key, "keep_logs_label") {
        choose_text("保持日志显示", "Keep Logs Visible", lang)
    } else if str_eq(key, "class_editor_title") {
        choose_text("兵种修改 (Class)", "Class", lang)
    } else if str_eq(key, "item_editor_title") {
        choose_text("装备修改 (Item)", "Item", lang)
    } else if str_eq(key, "trait_editor_title") {
        choose_text("特质修改 (Trait)", "Trait", lang)
    } else if str_eq(key, "log_heading") {
        choose_text("操作日志", "Logs", lang)
    } else if str_eq(key, "apply_hint") {
        choose_text("输入后点击【应用】", "Type then click Apply", lang)
    } else if str_eq(key, "quick_apply") {
        choose_text("快速应用", "Quick Apply", lang)
    } else if str_eq(key, "collapse_label") {
        choose_text("▼ 收起", "▼ Collapse", lang)
    } else if str_eq(key, "expand_label") {
        choose_text("▶ 展开", "▶ Expand", lang)
    } else if str_eq(key, "quick_apply_hint") {
        choose_text("快速应用", "Quick Apply", lang)
    } else if str_eq(key, "mod_items_title") {
        choose_text("魔改版- 专属装备", "Mod - Exclusive Equipment", lang)
    } else if str_eq(key, "mod_traits_title") {
        choose_text("魔改版- 专属特质", "Mod - Exclusive Traits", lang)
    } else if str_eq(key, "fusion_items_title") {
        choose_text("融合版- 专属装备", "Fusion - Exclusive Equipment", lang)
    } else if str_eq(key, "fusion_traits_title") {
        choose_text("融合版- 专属特质", "Fusion - Exclusive Traits", lang)
    } else if str_eq(key, "oldgrey_flag_traits_title") {
        choose_text("旧灰复燃的战旗- 专属特质", "Rebirth Flag - Exclusive Traits", lang)
    } else if str_eq(key, "converter_builtin") {
        choose_text("✓ 转换器已内置（无需外部EXE）", "✓ Converter is built-in (no external EXE needed)", lang)
    } else {
        let empty = "";
        proof {
            reveal_strlit("");
            assert(empty@ =~= Seq::<char>::empty());
        }
        empty
    }
}

} // verus!
