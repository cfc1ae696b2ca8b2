//! What sets the editor's two languages apart: its English texts are written
//! without Chinese characters, and its Chinese texts with them.
use vstd::prelude::*;
use crate::i18n::translation;
use crate::settings::Language;

verus! {

/// A Han ideograph: a character of the CJK Unified Ideographs block.
pub open spec fn is_han(c: char) -> bool {
    '\u{4e00}' <= c && c <= '\u{9fff}'
}

/// A Han ideograph stands in the text at position `i` or after it.
pub open spec fn han_from(s: Seq<char>, i: int) -> bool
    decreases s.len() - i,
{
    if i < 0 || i >= s.len() {
        false
    } else {
        is_han(s[i]) || han_from(s, i + 1)
    }
}

/// The text holds a Han ideograph.
#[verifier::opaque]
pub open spec fn has_han(s: Seq<char>) -> bool {
    han_from(s, 0)
}

/// No English text of the editor holds a Han ideograph, but for the name of
/// the Chinese language itself (`中文 CN`), which each language writes alike.
#[verifier::rlimit(100)]
pub proof fn law_english_texts_without_han(key: Seq<char>)
    ensures
        key != "chinese"@ ==> !has_han(translation(key, Language::English)),
{
    assert(!has_han(Seq::<char>::empty())) by {
        reveal(has_han);
    }
    assert(!has_han("Field"@)) by {
        reveal(has_han);
        reveal_strlit("Field");
        reveal_with_fuel(han_from, 6);
    }
    assert(!has_han("ID"@)) by {
        reveal(has_han);
        reveal_strlit("ID");
        reveal_with_fuel(han_from, 3);
    }
    assert(!has_han("Current"@)) by {
        reveal(has_han);
        reveal_strlit("Current");
        reveal_with_fuel(han_from, 8);
    }
    assert(!has_han("Level"@)) by {
        reveal(has_han);
        reveal_strlit("Level");
        reveal_with_fuel(han_from, 6);
    }
    assert(!has_han("New Value"@)) by {
        reveal(has_han);
        reveal_strlit("New Value");
        reveal_with_fuel(han_from, 10);
    }
    assert(!has_han("Quick Apply"@)) by {
        reveal(has_han);
        reveal_strlit("Quick Apply");
        reveal_with_fuel(han_from, 12);
    }
    assert(!has_han("✔Apply"@)) by {
        reveal(has_han);
        reveal_strlit("✔Apply");
        reveal_with_fuel(han_from, 7);
    }
    assert(!has_han("( No Class )"@)) by {
        reveal(has_han);
        reveal_strlit("( No Class )");
        reveal_with_fuel(han_from, 13);
    }
    assert(!has_han("Current: ( No Item )"@)) by {
        reveal(has_han);
        reveal_strlit("Current: ( No Item )");
        reveal_with_fuel(han_from, 21);
    }
    assert(!has_han("Current: ( No Trait )"@)) by {
        reveal(has_han);
        reveal_strlit("Current: ( No Trait )");
        reveal_with_fuel(han_from, 22);
    }
    assert(!has_han("App Settings"@)) by {
        reveal(has_han);
        reveal_strlit("App Settings");
        reveal_with_fuel(han_from, 13);
    }
    assert(!has_han("Color Mode:"@)) by {
        reveal(has_han);
        reveal_strlit("Color Mode:");
        reveal_with_fuel(han_from, 12);
    }
    assert(!has_han("Dark"@)) by {
        reveal(has_han);
        reveal_strlit("Dark");
        reveal_with_fuel(han_from, 5);
    }
    assert(!has_han("Colorful"@)) by {
        reveal(has_han);
        reveal_strlit("Colorful");
        reveal_with_fuel(han_from, 9);
    }
    assert(!has_han("Follow System"@)) by {
        reveal(has_han);
        reveal_strlit("Follow System");
        reveal_with_fuel(han_from, 14);
    }
    assert(!has_han("Language:"@)) by {
        reveal(has_han);
        reveal_strlit("Language:");
        reveal_with_fuel(han_from, 10);
    }
    assert(!has_han("English EN"@)) by {
        reveal(has_han);
        reveal_strlit("English EN");
        reveal_with_fuel(han_from, 11);
    }
    assert(!has_han("Settings auto-saved"@)) by {
        reveal(has_han);
        reveal_strlit("Settings auto-saved");
        reveal_with_fuel(han_from, 20);
    }
    assert(!has_han("Select BadNorthSaveEditorRust.exe location"@)) by {
        reveal(has_han);
        reveal_strlit("Select BadNorthSaveEditorRust.exe location");
        reveal_with_fuel(han_from, 43);
    }
    assert(!has_han("Browse & Select Editor EXE"@)) by {
        reveal(has_han);
        reveal_strlit("Browse & Select Editor EXE");
        reveal_with_fuel(han_from, 27);
    }
    assert(!has_han("Select save file:"@)) by {
        reveal(has_han);
        reveal_strlit("Select save file:");
        reveal_with_fuel(han_from, 18);
    }
    assert(!has_han("Browse & Select Save File"@)) by {
        reveal(has_han);
        reveal_strlit("Browse & Select Save File");
        reveal_with_fuel(han_from, 26);
    }
    assert(!has_han("Editor:"@)) by {
        reveal(has_han);
        reveal_strlit("Editor:");
        reveal_with_fuel(han_from, 8);
    }
    assert(!has_han("Re-select Editor EXE"@)) by {
        reveal(has_han);
        reveal_strlit("Re-select Editor EXE");
        reveal_with_fuel(han_from, 21);
    }
    assert(!has_han("Editor exe file detected"@)) by {
        reveal(has_han);
        reveal_strlit("Editor exe file detected");
        reveal_with_fuel(han_from, 25);
    }
    assert(!has_han("To change the address of BadNorthSaveRustEditor.exe or BadNorthSaveconverter.exe, go to \"Settings\" to modify or reset"@)) by {
        reveal(has_han);
        reveal_strlit("To change the address of BadNorthSaveRustEditor.exe or BadNorthSaveconverter.exe, go to \"Settings\" to modify or reset");
        assert(!han_from("To change the address of BadNorthSaveRustEditor.exe or BadNorthSaveconverter.exe, go to \"Settings\" to modify or reset"@, 100)) by {
            reveal_with_fuel(han_from, 18);
        }
        assert(!han_from("To change the address of BadNorthSaveRustEditor.exe or BadNorthSaveconverter.exe, go to \"Settings\" to modify or reset"@, 50)) by {
            reveal_with_fuel(han_from, 51);
        }
        reveal_with_fuel(han_from, 51);
    }
    assert(!has_han("Show Logs"@)) by {
        reveal(has_han);
        reveal_strlit("Show Logs");
        reveal_with_fuel(han_from, 10);
    }
    assert(!has_han("Hide Logs"@)) by {
        reveal(has_han);
        reveal_strlit("Hide Logs");
        reveal_with_fuel(han_from, 10);
    }
    assert(!has_han("Export JSON"@)) by {
        reveal(has_han);
        reveal_strlit("Export JSON");
        reveal_with_fuel(han_from, 12);
    }
    assert(!has_han("Load Save"@)) by {
        reveal(has_han);
        reveal_strlit("Load Save");
        reveal_with_fuel(han_from, 10);
    }
    assert(!has_han("Save & Backup"@)) by {
        reveal(has_han);
        reveal_strlit("Save & Backup");
        reveal_with_fuel(han_from, 14);
    }
    assert(!has_han("Refresh"@)) by {
        reveal(has_han);
        reveal_strlit("Refresh");
        reveal_with_fuel(han_from, 8);
    }
    assert(!has_han("Heroes"@)) by {
        reveal(has_han);
        reveal_strlit("Heroes");
        reveal_with_fuel(han_from, 7);
    }
    assert(!has_han("Currency (coinBank) Edit"@)) by {
        reveal(has_han);
        reveal_strlit("Currency (coinBank) Edit");
        reveal_with_fuel(han_from, 25);
    }
    assert(!has_han("Grail (Grail)"@)) by {
        reveal(has_han);
        reveal_strlit("Grail (Grail)");
        reveal_with_fuel(han_from, 14);
    }
    assert(!has_han("Total:"@)) by {
        reveal(has_han);
        reveal_strlit("Total:");
        reveal_with_fuel(han_from, 7);
    }
    assert(!has_han("Equipped:"@)) by {
        reveal(has_han);
        reveal_strlit("Equipped:");
        reveal_with_fuel(han_from, 10);
    }
    assert(!has_han("Unequipped:"@)) by {
        reveal(has_han);
        reveal_strlit("Unequipped:");
        reveal_with_fuel(han_from, 12);
    }
    assert(!has_han("Grail Code:"@)) by {
        reveal(has_han);
        reveal_strlit("Grail Code:");
        reveal_with_fuel(han_from, 12);
    }
    assert(!has_han("Set Count:"@)) by {
        reveal(has_han);
        reveal_strlit("Set Count:");
        reveal_with_fuel(han_from, 11);
    }
    assert(!has_han("Copy Hero_Upgrade_Grail to clipboard"@)) by {
        reveal(has_han);
        reveal_strlit("Copy Hero_Upgrade_Grail to clipboard");
        reveal_with_fuel(han_from, 37);
    }
    assert(!has_han("Current:"@)) by {
        reveal(has_han);
        reveal_strlit("Current:");
        reveal_with_fuel(han_from, 9);
    }
    assert(!has_han("New:"@)) by {
        reveal(has_han);
        reveal_strlit("New:");
        reveal_with_fuel(han_from, 5);
    }
    assert(!has_han("Apply"@)) by {
        reveal(has_han);
        reveal_strlit("Apply");
        reveal_with_fuel(han_from, 6);
    }
    assert(!has_han("Clear"@)) by {
        reveal(has_han);
        reveal_strlit("Clear");
        reveal_with_fuel(han_from, 6);
    }
    assert(!has_han("Select All & Copy"@)) by {
        reveal(has_han);
        reveal_strlit("Select All & Copy");
        reveal_with_fuel(han_from, 18);
    }
    assert(!has_han("→Select a function from the left"@)) by {
        reveal(has_han);
        reveal_strlit("→Select a function from the left");
        reveal_with_fuel(han_from, 33);
    }
    assert(!has_han("Hero data is abnormal"@)) by {
        reveal(has_han);
        reveal_strlit("Hero data is abnormal");
        reveal_with_fuel(han_from, 22);
    }
    assert(!has_han("Inventory equipment management coming soon, stay tuned"@)) by {
        reveal(has_han);
        reveal_strlit("Inventory equipment management coming soon, stay tuned");
        assert(!han_from("Inventory equipment management coming soon, stay tuned"@, 50)) by {
            reveal_with_fuel(han_from, 5);
        }
        reveal_with_fuel(han_from, 51);
    }
    assert(!has_han("Inventory Equipment Edit"@)) by {
        reveal(has_han);
        reveal_strlit("Inventory Equipment Edit");
        reveal_with_fuel(han_from, 25);
    }
    assert(!has_han("Code:"@)) by {
        reveal(has_han);
        reveal_strlit("Code:");
        reveal_with_fuel(han_from, 6);
    }
    assert(!has_han("In Inventory:"@)) by {
        reveal(has_han);
        reveal_strlit("In Inventory:");
        reveal_with_fuel(han_from, 14);
    }
    assert(!has_han("Bomb"@)) by {
        reveal(has_han);
        reveal_strlit("Bomb");
        reveal_with_fuel(han_from, 5);
    }
    assert(!has_han("Mine"@)) by {
        reveal(has_han);
        reveal_strlit("Mine");
        reveal_with_fuel(han_from, 5);
    }
    assert(!has_han("Philosophers Stone"@)) by {
        reveal(has_han);
        reveal_strlit("Philosophers Stone");
        reveal_with_fuel(han_from, 19);
    }
    assert(!has_han("Command Ring (Size)"@)) by {
        reveal(has_han);
        reveal_strlit("Command Ring (Size)");
        reveal_with_fuel(han_from, 20);
    }
    assert(!has_han("Warhammer"@)) by {
        reveal(has_han);
        reveal_strlit("Warhammer");
        reveal_with_fuel(han_from, 10);
    }
    assert(!has_han("Cornucopia"@)) by {
        reveal(has_han);
        reveal_strlit("Cornucopia");
        reveal_with_fuel(han_from, 11);
    }
    assert(!has_han("War Horn"@)) by {
        reveal(has_han);
        reveal_strlit("War Horn");
        reveal_with_fuel(han_from, 9);
    }
    assert(!has_han("Settings"@)) by {
        reveal(has_han);
        reveal_strlit("Settings");
        reveal_with_fuel(han_from, 9);
    }
    assert(!has_han("Commanders"@)) by {
        reveal(has_han);
        reveal_strlit("Commanders");
        reveal_with_fuel(han_from, 11);
    }
    assert(!has_han("Currency & Items"@)) by {
        reveal(has_han);
        reveal_strlit("Currency & Items");
        reveal_with_fuel(han_from, 17);
    }
    assert(!has_han("  CoinBank Edit"@)) by {
        reveal(has_han);
        reveal_strlit("  CoinBank Edit");
        reveal_with_fuel(han_from, 16);
    }
    assert(!has_han("  Inventory Equipment"@)) by {
        reveal(has_han);
        reveal_strlit("  Inventory Equipment");
        reveal_with_fuel(han_from, 22);
    }
    assert(!has_han("Tip: Inventory can hold max 20 items (total of all equipment)"@)) by {
        reveal(has_han);
        reveal_strlit("Tip: Inventory can hold max 20 items (total of all equipment)");
        assert(!han_from("Tip: Inventory can hold max 20 items (total of all equipment)"@, 50)) by {
            reveal_with_fuel(han_from, 12);
        }
        reveal_with_fuel(han_from, 51);
    }
    assert(!has_han("Inventory Overview"@)) by {
        reveal(has_han);
        reveal_strlit("Inventory Overview");
        reveal_with_fuel(han_from, 19);
    }
    assert(!has_han("Total in Inventory"@)) by {
        reveal(has_han);
        reveal_strlit("Total in Inventory");
        reveal_with_fuel(han_from, 19);
    }
    assert(!has_han("(max 20)"@)) by {
        reveal(has_han);
        reveal_strlit("(max 20)");
        reveal_with_fuel(han_from, 9);
    }
    assert(!has_han("Current Items"@)) by {
        reveal(has_han);
        reveal_strlit("Current Items");
        reveal_with_fuel(han_from, 14);
    }
    assert(!has_han("Mod Items"@)) by {
        reveal(has_han);
        reveal_strlit("Mod Items");
        reveal_with_fuel(han_from, 10);
    }
    assert(!has_han("(inventory empty)"@)) by {
        reveal(has_han);
        reveal_strlit("(inventory empty)");
        reveal_with_fuel(han_from, 18);
    }
    assert(!has_han("Add Custom Item"@)) by {
        reveal(has_han);
        reveal_strlit("Add Custom Item");
        reveal_with_fuel(han_from, 16);
    }
    assert(!has_han("Enter field name, e.g. Hero_Upgrade_ModWeapon"@)) by {
        reveal(has_han);
        reveal_strlit("Enter field name, e.g. Hero_Upgrade_ModWeapon");
        reveal_with_fuel(han_from, 46);
    }
    assert(!has_han("Please enter an item field name"@)) by {
        reveal(has_han);
        reveal_strlit("Please enter an item field name");
        reveal_with_fuel(han_from, 32);
    }
    assert(!has_han("War Horn modification coming soon, stay tuned"@)) by {
        reveal(has_han);
        reveal_strlit("War Horn modification coming soon, stay tuned");
        reveal_with_fuel(han_from, 46);
    }
    assert(!has_han("Cornucopia modification coming soon, stay tuned"@)) by {
        reveal(has_han);
        reveal_strlit("Cornucopia modification coming soon, stay tuned");
        reveal_with_fuel(han_from, 48);
    }
    assert(!has_han("The Cornucopia editor is under construction. Please use \"Inventory Equipment Editor\" to edit the Cornucopia."@)) by {
        reveal(has_han);
        reveal_strlit("The Cornucopia editor is under construction. Please use \"Inventory Equipment Editor\" to edit the Cornucopia.");
        assert(!han_from("The Cornucopia editor is under construction. Please use \"Inventory Equipment Editor\" to edit the Cornucopia."@, 100)) by {
            reveal_with_fuel(han_from, 9);
        }
        assert(!han_from("The Cornucopia editor is under construction. Please use \"Inventory Equipment Editor\" to edit the Cornucopia."@, 50)) by {
            reveal_with_fuel(han_from, 51);
        }
        reveal_with_fuel(han_from, 51);
    }
    assert(!has_han("( No consumable upgrade )"@)) by {
        reveal(has_han);
        reveal_strlit("( No consumable upgrade )");
        reveal_with_fuel(han_from, 26);
    }
    assert(!has_han("Remove Equipment"@)) by {
        reveal(has_han);
        reveal_strlit("Remove Equipment");
        reveal_with_fuel(han_from, 17);
    }
    assert(!has_han("Remove Trait"@)) by {
        reveal(has_han);
        reveal_strlit("Remove Trait");
        reveal_with_fuel(han_from, 13);
    }
    assert(!has_han("Log Display"@)) by {
        reveal(has_han);
        reveal_strlit("Log Display");
        reveal_with_fuel(han_from, 12);
    }
    assert(!has_han("Keep Logs Visible"@)) by {
        reveal(has_han);
        reveal_strlit("Keep Logs Visible");
        reveal_with_fuel(han_from, 18);
    }
    assert(!has_han("Class"@)) by {
        reveal(has_han);
        reveal_strlit("Class");
        reveal_with_fuel(han_from, 6);
    }
    assert(!has_han("Item"@)) by {
        reveal(has_han);
        reveal_strlit("Item");
        reveal_with_fuel(han_from, 5);
    }
    assert(!has_han("Trait"@)) by {
        reveal(has_han);
        reveal_strlit("Trait");
        reveal_with_fuel(han_from, 6);
    }
    assert(!has_han("Logs"@)) by {
        reveal(has_han);
        reveal_strlit("Logs");
        reveal_with_fuel(han_from, 5);
    }
    assert(!has_han("Type then click Apply"@)) by {
        reveal(has_han);
        reveal_strlit("Type then click Apply");
        reveal_with_fuel(han_from, 22);
    }
    assert(!has_han("▼ Collapse"@)) by {
        reveal(has_han);
        reveal_strlit("▼ Collapse");
        reveal_with_fuel(han_from, 11);
    }
    assert(!has_han("▶ Expand"@)) by {
        reveal(has_han);
        reveal_strlit("▶ Expand");
        reveal_with_fuel(han_from, 9);
    }
    assert(!has_han("Mod - Exclusive Equipment"@)) by {
        reveal(has_han);
        reveal_strlit("Mod - Exclusive Equipment");
        reveal_with_fuel(han_from, 26);
    }
    assert(!has_han("Mod - Exclusive Traits"@)) by {
        reveal(has_han);
        reveal_strlit("Mod - Exclusive Traits");
        reveal_with_fuel(han_from, 23);
    }
    assert(!has_han("Fusion - Exclusive Equipment"@)) by {
        reveal(has_han);
        reveal_strlit("Fusion - Exclusive Equipment");
        reveal_with_fuel(han_from, 29);
    }
    assert(!has_han("Fusion - Exclusive Traits"@)) by {
        reveal(has_han);
        reveal_strlit("Fusion - Exclusive Traits");
        reveal_with_fuel(han_from, 26);
    }
    assert(!has_han("Rebirth Flag - Exclusive Traits"@)) by {
        reveal(has_han);
        reveal_strlit("Rebirth Flag - Exclusive Traits");
        reveal_with_fuel(han_from, 32);
    }
    assert(!has_han("✓ Converter is built-in (no external EXE needed)"@)) by {
        reveal(has_han);
        reveal_strlit("✓ Converter is built-in (no external EXE needed)");
        reveal_with_fuel(han_from, 49);
    }
}

/// Every Chinese text of the editor holds a Han ideograph, but for the `ID`
/// label and the name of the English language (`English EN`), which each
/// language writes alike.
#[verifier::rlimit(100)]
pub proof fn law_chinese_texts_with_han(key: Seq<char>)
    ensures
        translation(key, Language::Chinese).len() > 0 && key != "id"@ && key != "english"@ ==> has_han(
            translation(key, Language::Chinese),
        ),
{
    assert(has_han("字段"@)) by {
        reveal(has_han);
        reveal_strlit("字段");
        reveal_with_fuel(han_from, 1);
    }
    assert(has_han("当前"@)) by {
        reveal(has_han);
        reveal_strlit("当前");
        reveal_with_fuel(han_from, 1);
    }
    assert(has_han("等级"@)) by {
        reveal(has_han);
        reveal_strlit("等级");
        reveal_with_fuel(han_from, 1);
    }
    assert(has_han("新值"@)) by {
        reveal(has_han);
        reveal_strlit("新值");
        reveal_with_fuel(han_from, 1);
    }
    assert(has_han("快速应用"@)) by {
        reveal(has_han);
        reveal_strlit("快速应用");
        reveal_with_fuel(han_from, 1);
    }
    assert(has_han("✔应用变更"@)) by {
        reveal(has_han);
        reveal_strlit("✔应用变更");
        reveal_with_fuel(han_from, 2);
    }
    assert(has_han("( 无兵种)"@)) by {
        reveal(has_han);
        reveal_strlit("( 无兵种)");
        reveal_with_fuel(han_from, 3);
    }
    assert(has_han("当前: ( 无装备)"@)) by {
        reveal(has_han);
        reveal_strlit("当前: ( 无装备)");
        reveal_with_fuel(han_from, 1);
    }
    assert(has_han("当前: ( 无特质)"@)) by {
        reveal(has_han);
        reveal_strlit("当前: ( 无特质)");
        reveal_with_fuel(han_from, 1);
    }
    assert(has_han("应用设置"@)) by {
        reveal(has_han);
        reveal_strlit("应用设置");
        reveal_with_fuel(han_from, 1);
    }
    assert(has_han("色彩模式："@)) by {
        reveal(has_han);
        reveal_strlit("色彩模式：");
        reveal_with_fuel(han_from, 1);
    }
    assert(has_han("黑色"@)) by {
        reveal(has_han);
        reveal_strlit("黑色");
        reveal_with_fuel(han_from, 1);
    }
    assert(has_han("彩色"@)) by {
        reveal(has_han);
        reveal_strlit("彩色");
        reveal_with_fuel(han_from, 1);
    }
    assert(has_han("跟随系统"@)) by {
        reveal(has_han);
        reveal_strlit("跟随系统");
        reveal_with_fuel(han_from, 1);
    }
    assert(has_han("语言："@)) by {
        reveal(has_han);
        reveal_strlit("语言：");
        reveal_with_fuel(han_from, 1);
    }
    assert(has_han("中文 CN"@)) by {
        reveal(has_han);
        reveal_strlit("中文 CN");
        reveal_with_fuel(han_from, 1);
    }
    assert(has_han("设置已自动保存"@)) by {
        reveal(has_han);
        reveal_strlit("设置已自动保存");
        reveal_with_fuel(han_from, 1);
    }
    assert(has_han("请选择 BadNorthSaveEditorRust.exe 的位置"@)) by {
        reveal(has_han);
        reveal_strlit("请选择 BadNorthSaveEditorRust.exe 的位置");
        reveal_with_fuel(han_from, 1);
    }
    assert(has_han("浏览并选择编辑器EXE"@)) by {
        reveal(has_han);
        reveal_strlit("浏览并选择编辑器EXE");
        reveal_with_fuel(han_from, 1);
    }
    assert(has_han("请选择游戏存档文件："@)) by {
        reveal(has_han);
        reveal_strlit("请选择游戏存档文件：");
        reveal_with_fuel(han_from, 1);
    }
    assert(has_han("浏览并选择存档文件"@)) by {
        reveal(has_han);
        reveal_strlit("浏览并选择存档文件");
        reveal_with_fuel(han_from, 1);
    }
    assert(has_han("编辑器："@)) by {
        reveal(has_han);
        reveal_strlit("编辑器：");
        reveal_with_fuel(han_from, 1);
    }
    assert(has_han("重新选择编辑器EXE"@)) by {
        reveal(has_han);
        reveal_strlit("重新选择编辑器EXE");
        reveal_with_fuel(han_from, 1);
    }
    assert(has_han("已识别到指定exe文件"@)) by {
        reveal(has_han);
        reveal_strlit("已识别到指定exe文件");
        reveal_with_fuel(han_from, 1);
    }
    assert(has_han("如需修改BadNorthSaveRustEditor.exe或BadNorthSaveconverter.exe的地址，请去\"设置\"内修改或重置"@)) by {
        reveal(has_han);
        reveal_strlit("如需修改BadNorthSaveRustEditor.exe或BadNorthSaveconverter.exe的地址，请去\"设置\"内修改或重置");
        reveal_with_fuel(han_from, 1);
    }
    assert(has_han("显示日志"@)) by {
        reveal(has_han);
        reveal_strlit("显示日志");
        reveal_with_fuel(han_from, 1);
    }
    assert(has_han("隐藏日志"@)) by {
        reveal(has_han);
        reveal_strlit("隐藏日志");
        reveal_with_fuel(han_from, 1);
    }
    assert(has_han("导出 JSON"@)) by {
        reveal(has_han);
        reveal_strlit("导出 JSON");
        reveal_with_fuel(han_from, 1);
    }
    assert(has_han("加载其他存档"@)) by {
        reveal(has_han);
        reveal_strlit("加载其他存档");
        reveal_with_fuel(han_from, 1);
    }
    assert(has_han("备份并替换存档"@)) by {
        reveal(has_han);
        reveal_strlit("备份并替换存档");
        reveal_with_fuel(han_from, 1);
    }
    assert(has_han("刷新"@)) by {
        reveal(has_han);
        reveal_strlit("刷新");
        reveal_with_fuel(han_from, 1);
    }
    assert(has_han("英雄"@)) by {
        reveal(has_han);
        reveal_strlit("英雄");
        reveal_with_fuel(han_from, 1);
    }
    assert(has_han("货币 (coinBank) 修改"@)) by {
        reveal(has_han);
        reveal_strlit("货币 (coinBank) 修改");
        reveal_with_fuel(han_from, 1);
    }
    assert(has_han("圣杯(Grail)"@)) by {
        reveal(has_han);
        reveal_strlit("圣杯(Grail)");
        reveal_with_fuel(han_from, 1);
    }
    assert(has_han("总数:"@)) by {
        reveal(has_han);
        reveal_strlit("总数:");
        reveal_with_fuel(han_from, 1);
    }
    assert(has_han("已被装备数"@)) by {
        reveal(has_han);
        reveal_strlit("已被装备数");
        reveal_with_fuel(han_from, 1);
    }
    assert(has_han("未被装备数"@)) by {
        reveal(has_han);
        reveal_strlit("未被装备数");
        reveal_with_fuel(han_from, 1);
    }
    assert(has_han("圣杯代码:"@)) by {
        reveal(has_han);
        reveal_strlit("圣杯代码:");
        reveal_with_fuel(han_from, 1);
    }
    assert(has_han("设置数量:"@)) by {
        reveal(has_han);
        reveal_strlit("设置数量:");
        reveal_with_fuel(han_from, 1);
    }
    assert(has_han("复制 Hero_Upgrade_Grail 到剪贴板"@)) by {
        reveal(has_han);
        reveal_strlit("复制 Hero_Upgrade_Grail 到剪贴板");
        reveal_with_fuel(han_from, 1);
    }
    assert(has_han("当前值"@)) by {
        reveal(has_han);
        reveal_strlit("当前值");
        reveal_with_fuel(han_from, 1);
    }
    assert(has_han("应用修改"@)) by {
        reveal(has_han);
        reveal_strlit("应用修改");
        reveal_with_fuel(han_from, 1);
    }
    assert(has_han("应用"@)) by {
        reveal(has_han);
        reveal_strlit("应用");
        reveal_with_fuel(han_from, 1);
    }
    assert(has_han("清空"@)) by {
        reveal(has_han);
        reveal_strlit("清空");
        reveal_with_fuel(han_from, 1);
    }
    assert(has_han("全选并复制"@)) by {
        reveal(has_han);
        reveal_strlit("全选并复制");
        reveal_with_fuel(han_from, 1);
    }
    assert(has_han("从左侧列表选择修改功能"@)) by {
        reveal(has_han);
        reveal_strlit("从左侧列表选择修改功能");
        reveal_with_fuel(han_from, 1);
    }
    assert(has_han("英雄数据异常"@)) by {
        reveal(has_han);
        reveal_strlit("英雄数据异常");
        reveal_with_fuel(han_from, 1);
    }
    assert(has_han("背包装备管理功能完善中，敬请期待"@)) by {
        reveal(has_han);
        reveal_strlit("背包装备管理功能完善中，敬请期待");
        reveal_with_fuel(han_from, 1);
    }
    assert(has_han("背包装备修改"@)) by {
        reveal(has_han);
        reveal_strlit("背包装备修改");
        reveal_with_fuel(han_from, 1);
    }
    assert(has_han("代码:"@)) by {
        reveal(has_han);
        reveal_strlit("代码:");
        reveal_with_fuel(han_from, 1);
    }
    assert(has_han("已装备"@)) by {
        reveal(has_han);
        reveal_strlit("已装备");
        reveal_with_fuel(han_from, 1);
    }
    assert(has_han("背包中"@)) by {
        reveal(has_han);
        reveal_strlit("背包中");
        reveal_with_fuel(han_from, 1);
    }
    assert(has_han("炸弹 (Bomb)"@)) by {
        reveal(has_han);
        reveal_strlit("炸弹 (Bomb)");
        reveal_with_fuel(han_from, 1);
    }
    assert(has_han("地雷 (Mine)"@)) by {
        reveal(has_han);
        reveal_strlit("地雷 (Mine)");
        reveal_with_fuel(han_from, 1);
    }
    assert(has_han("贤者之石(Philosophers Stone)"@)) by {
        reveal(has_han);
        reveal_strlit("贤者之石(Philosophers Stone)");
        reveal_with_fuel(han_from, 1);
    }
    assert(has_han("指挥之戒 (Size)"@)) by {
        reveal(has_han);
        reveal_strlit("指挥之戒 (Size)");
        reveal_with_fuel(han_from, 1);
    }
    assert(has_han("战锤 (Warhammer)"@)) by {
        reveal(has_han);
        reveal_strlit("战锤 (Warhammer)");
        reveal_with_fuel(han_from, 1);
    }
    assert(has_han("雅贝那(Cornucopia)"@)) by {
        reveal(has_han);
        reveal_strlit("雅贝那(Cornucopia)");
        reveal_with_fuel(han_from, 1);
    }
    assert(has_han("战争号角 (War Horn)"@)) by {
        reveal(has_han);
        reveal_strlit("战争号角 (War Horn)");
        reveal_with_fuel(han_from, 1);
    }
    assert(has_han("设置"@)) by {
        reveal(has_han);
        reveal_strlit("设置");
        reveal_with_fuel(han_from, 1);
    }
    assert(has_han("指挥官修改"@)) by {
        reveal(has_han);
        reveal_strlit("指挥官修改");
        reveal_with_fuel(han_from, 1);
    }
    assert(has_han("货币和物品修改"@)) by {
        reveal(has_han);
        reveal_strlit("货币和物品修改");
        reveal_with_fuel(han_from, 1);
    }
    assert(has_han("  coinBank 修改"@)) by {
        reveal(has_han);
        reveal_strlit("  coinBank 修改");
        reveal_with_fuel(han_from, 12);
    }
    assert(has_han("  背包内装备修改"@)) by {
        reveal(has_han);
        reveal_strlit("  背包内装备修改");
        reveal_with_fuel(han_from, 3);
    }
    assert(has_han("提示：背包最多可存放 20 个物品（所有装备之和）"@)) by {
        reveal(has_han);
        reveal_strlit("提示：背包最多可存放 20 个物品（所有装备之和）");
        reveal_with_fuel(han_from, 1);
    }
    assert(has_han("背包内装备总览"@)) by {
        reveal(has_han);
        reveal_strlit("背包内装备总览");
        reveal_with_fuel(han_from, 1);
    }
    assert(has_han("背包总数"@)) by {
        reveal(has_han);
        reveal_strlit("背包总数");
        reveal_with_fuel(han_from, 1);
    }
    assert(has_han("（上限20）"@)) by {
        reveal(has_han);
        reveal_strlit("（上限20）");
        reveal_with_fuel(han_from, 2);
    }
    assert(has_han("当前物品"@)) by {
        reveal(has_han);
        reveal_strlit("当前物品");
        reveal_with_fuel(han_from, 1);
    }
    assert(has_han("Mod 物品"@)) by {
        reveal(has_han);
        reveal_strlit("Mod 物品");
        reveal_with_fuel(han_from, 5);
    }
    assert(has_han("（背包为空）"@)) by {
        reveal(has_han);
        reveal_strlit("（背包为空）");
        reveal_with_fuel(han_from, 2);
    }
    assert(has_han("添加自定义物品"@)) by {
        reveal(has_han);
        reveal_strlit("添加自定义物品");
        reveal_with_fuel(han_from, 1);
    }
    assert(has_han("输入物品字段名称，如 Hero_Upgrade_ModWeapon"@)) by {
        reveal(has_han);
        reveal_strlit("输入物品字段名称，如 Hero_Upgrade_ModWeapon");
        reveal_with_fuel(han_from, 1);
    }
    assert(has_han("请输入物品字段名称"@)) by {
        reveal(has_han);
        reveal_strlit("请输入物品字段名称");
        reveal_with_fuel(han_from, 1);
    }
    assert(has_han("战争号角修改功能完善中，请移步于'指挥官修改的装备修改'实现战争号角修改"@)) by {
        reveal(has_han);
        reveal_strlit("战争号角修改功能完善中，请移步于'指挥官修改的装备修改'实现战争号角修改");
        reveal_with_fuel(han_from, 1);
    }
    assert(has_han("雅贝那修改功能完善中，敬请期待"@)) by {
        reveal(has_han);
        reveal_strlit("雅贝那修改功能完善中，敬请期待");
        reveal_with_fuel(han_from, 1);
    }
    assert(has_han("雅贝那修改功能完善中，请移步于背包内装备修改实现雅贝那修改"@)) by {
        reveal(has_han);
        reveal_strlit("雅贝那修改功能完善中，请移步于背包内装备修改实现雅贝那修改");
        reveal_with_fuel(han_from, 1);
    }
    assert(has_han("( 无消耗型升级 )"@)) by {
        reveal(has_han);
        reveal_strlit("( 无消耗型升级 )");
        reveal_with_fuel(han_from, 3);
    }
    assert(has_han("移除装备"@)) by {
        reveal(has_han);
        reveal_strlit("移除装备");
        reveal_with_fuel(han_from, 1);
    }
    assert(has_han("移除特质"@)) by {
        reveal(has_han);
        reveal_strlit("移除特质");
        reveal_with_fuel(han_from, 1);
    }
    assert(has_han("日志显示"@)) by {
        reveal(has_han);
        reveal_strlit("日志显示");
        reveal_with_fuel(han_from, 1);
    }
    assert(has_han("保持日志显示"@)) by {
        reveal(has_han);
        reveal_strlit("保持日志显示");
        reveal_with_fuel(han_from, 1);
    }
    assert(has_han("兵种修改 (Class)"@)) by {
        reveal(has_han);
        reveal_strlit("兵种修改 (Class)");
        reveal_with_fuel(han_from, 1);
    }
    assert(has_han("装备修改 (Item)"@)) by {
        reveal(has_han);
        reveal_strlit("装备修改 (Item)");
        reveal_with_fuel(han_from, 1);
    }
    assert(has_han("特质修改 (Trait)"@)) by {
        reveal(has_han);
        reveal_strlit("特质修改 (Trait)");
        reveal_with_fuel(han_from, 1);
    }
    assert(has_han("操作日志"@)) by {
        reveal(has_han);
        reveal_strlit("操作日志");
        reveal_with_fuel(han_from, 1);
    }
    assert(has_han("输入后点击【应用】"@)) by {
        reveal(has_han);
        reveal_strlit("输入后点击【应用】");
        reveal_with_fuel(han_from, 1);
    }
    assert(has_han("▼ 收起"@)) by {
        reveal(has_han);
        reveal_strlit("▼ 收起");
        reveal_with_fuel(han_from, 3);
    }
    assert(has_han("▶ 展开"@)) by {
        reveal(has_han);
        reveal_strlit("▶ 展开");
        reveal_with_fuel(han_from, 3);
    }
    assert(has_han("魔改版- 专属装备"@)) by {
        reveal(has_han);
        reveal_strlit("魔改版- 专属装备");
        reveal_with_fuel(han_from, 1);
    }
    assert(has_han("魔改版- 专属特质"@)) by {
        reveal(has_han);
        reveal_strlit("魔改版- 专属特质");
        reveal_with_fuel(han_from, 1);
    }
    assert(has_han("融合版- 专属装备"@)) by {
        reveal(has_han);
        reveal_strlit("融合版- 专属装备");
        reveal_with_fuel(han_from, 1);
    }
    assert(has_han("融合版- 专属特质"@)) by {
        reveal(has_han);
        reveal_strlit("融合版- 专属特质");
        reveal_with_fuel(han_from, 1);
    }
    assert(has_han("旧灰复燃的战旗- 专属特质"@)) by {
        reveal(has_han);
        reveal_strlit("旧灰复燃的战旗- 专属特质");
        reveal_with_fuel(han_from, 1);
    }
    assert(has_han("✓ 转换器已内置（无需外部EXE）"@)) by {
        reveal(has_han);
        reveal_strlit("✓ 转换器已内置（无需外部EXE）");
        reveal_with_fuel(han_from, 3);
    }
}

} // verus!
