use bad_north_save_modifier::i18n::t;
use bad_north_save_modifier::settings::{AppSettings, ColorMode, Language, PluginDirEntry, PluginInfo};
use bad_north_save_modifier::theme::{dark_from_defaults_output, dark_from_lowered_settings, dark_from_registry_output, is_system_dark_mode};
use bad_north_save_modifier::upgrade_dictionary::{
    class_dictionary, item_dictionary_original, skill_dictionary, trait_dictionary, trait_dictionary_fusion_new,
    upgrade_dictionary,
};

fn plugin(folder: &str, files: &[&str]) -> PluginInfo {
    PluginInfo { folder_name: folder.to_string(), png_files: files.iter().map(|f| f.to_string()).collect() }
}

fn entry(name: &str, is_dir: Option<bool>, children: &[&str]) -> PluginDirEntry {
    PluginDirEntry {
        name: name.to_string(),
        is_dir,
        children: children.iter().map(|c| c.to_string()).collect(),
    }
}

#[test]
fn settings_defaults() {
    let s = AppSettings::default();
    assert!(s.color_mode == ColorMode::Black);
    assert!(s.language == Language::Chinese);
    assert!(s.editor_exe_path.is_none());
    assert!(s.game_folder_path.is_none());
    assert!(!s.keep_logs_visible);
    assert!(s.plugins_info.is_empty());
    assert!(!s.is_editor_exe_valid());
    assert!(ColorMode::default() == ColorMode::Black);
    assert!(Language::default() == Language::Chinese);
}

#[test]
fn editor_exe_missing_file() {
    let mut s = AppSettings::default();
    s.editor_exe_path = Some(std::path::PathBuf::from("/definitely/not/here/editor.exe"));
    assert!(!s.is_editor_exe_valid());
}

#[test]
fn png_lookup_ignores_case() {
    let ps = vec![plugin("a", &["Trait_Axe.PNG", "other.png"]), plugin("b", &["Jump.png"])];
    assert!(AppSettings::has_png(&ps, "trait_axe.png"));
    assert!(AppSettings::has_png(&ps, "JUMP.PNG"));
    assert!(!AppSettings::has_png(&ps, "titan.png"));
    assert!(!AppSettings::has_png(&[], "titan.png"));
}

#[test]
fn trait_codes_from_mixed_case_pictures() {
    let ps = vec![plugin("p", &["TrueAxe.PNG", "trait_axe.png", "Jump.png", "other.png"])];
    assert_eq!(
        AppSettings::get_detected_trait_codes(&ps),
        vec!["Hero_Trait_AxeThrower".to_string(), "Hero_Trait_Jumper".to_string()]
    );
}

#[test]
fn trait_codes_from_fancy_pictures() {
    let ps = vec![plugin(
        "f",
        &["$$FancyTraits_Hero_Trait_Yuri", "charge.png", "$$fancytraits_Hero_Item_Charge"],
    )];
    assert_eq!(
        AppSettings::get_detected_trait_codes(&ps),
        vec!["Hero_Trait_Yuri".to_string(), "Hero_Item_Charge".to_string()]
    );
}

#[test]
fn trait_codes_detected_once_in_order() {
    let ps = vec![
        plugin("a", &["jump.png", "TRAIT_THORNS.png", "unknown.png"]),
        plugin("b", &["trait_thorns.png", "$$fancytraits_Hero_Trait_Yuri", "Charge.png"]),
    ];
    let codes = AppSettings::get_detected_trait_codes(&ps);
    assert_eq!(
        codes,
        vec![
            "Hero_Trait_Jumper".to_string(),
            "Hero_Trait_Thorns".to_string(),
            "Hero_Trait_Yuri".to_string(),
            "Hero_Item_Charge".to_string(),
        ]
    );
    assert!(AppSettings::get_detected_trait_codes(&[]).is_empty());
}

#[test]
fn plugins_collected_from_folder() {
    let entries = vec![
        entry("Root.PNG", Some(false), &[]),
        entry("MyTraits", Some(true), &["a.png", "b.dll", "C.Png"]),
        entry("Other", Some(true), &["x.png"]),
        entry("TraitFile.dll", Some(false), &[]),
        entry("FancyTraits.dll", Some(false), &[]),
        entry("fancytraits2.dll", Some(false), &[]),
    ];
    let ps = AppSettings::collect_plugins(&entries).unwrap();
    assert_eq!(ps.len(), 3);
    assert_eq!(ps[0].folder_name, "(plugins 根目录)");
    assert_eq!(ps[0].png_files, vec!["Root.PNG".to_string()]);
    assert_eq!(ps[1].folder_name, "MyTraits");
    assert_eq!(ps[1].png_files, vec!["a.png".to_string(), "C.Png".to_string()]);
    assert_eq!(ps[2].folder_name, "FancyTraits (魔改版: FancyTraits.dll)");
    assert_eq!(ps[2].png_files.len(), 6);
    assert_eq!(ps[2].png_files[0], "$$fancytraits_Hero_Trait_UltimateSquad");
}

#[test]
fn empty_plugin_folder_refused() {
    let entries = vec![entry("readme.txt", Some(false), &[]), entry("Other", None, &[])];
    assert_eq!(
        AppSettings::collect_plugins(&entries).unwrap_err(),
        "未找到任何 PNG 图片或含 Trait 的插件文件夹"
    );
}

#[test]
fn texts_in_both_languages() {
    assert_eq!(t("field", &Language::Chinese), "字段");
    assert_eq!(t("field", &Language::English), "Field");
    assert_eq!(t("inv_overview_limit", &Language::English), "(max 20)");
    assert_eq!(t("converter_builtin", &Language::Chinese), "✓ 转换器已内置（无需外部EXE）");
    assert_eq!(t("no_such_key", &Language::Chinese), "");
    assert_eq!(t("no_such_key", &Language::English), "");
}

#[test]
fn dark_mode_from_environment() {
    assert!(is_system_dark_mode(Some("Adwaita:DARK"), None));
    assert!(!is_system_dark_mode(Some("Adwaita"), None));
    assert!(is_system_dark_mode(None, Some("15;0")));
    assert!(is_system_dark_mode(None, Some("15;default; 0 ")));
    assert!(!is_system_dark_mode(None, Some("0;15")));
    assert!(is_system_dark_mode(None, Some("0")));
    assert!(!is_system_dark_mode(None, None));
    assert!(dark_from_registry_output(" 0\r\n"));
    assert!(!dark_from_registry_output("1"));
    assert!(dark_from_defaults_output("Dark\n"));
    assert!(!dark_from_defaults_output("Light"));
}

#[test]
fn dictionaries() {
    let items = item_dictionary_original();
    assert_eq!(items.len(), 8);
    assert_eq!(items[0].code, "Hero_Upgrade_Bomb");
    assert_eq!(items[0].chinese_name, "炸弹");
    assert_eq!(upgrade_dictionary().len(), 8);
    assert_eq!(trait_dictionary().len(), 13);
    assert_eq!(trait_dictionary_fusion_new().len(), 20);
    let skills = skill_dictionary();
    assert_eq!(skills.len(), 6);
    assert_eq!(skills[0].initial_level, 1);
    let classes = class_dictionary();
    assert_eq!(classes.len(), 3);
    assert_eq!(classes[2].code, "Hero_Class_Pikemen");
}

#[test]
fn registry_output_trimmed_of_all_white_space() {
    assert!(dark_from_registry_output("\u{3000}\t0\u{a0}\n"));
    assert!(!dark_from_registry_output(" 0 0 "));
    assert!(!dark_from_registry_output("   "));
    assert!(!dark_from_registry_output(""));
    assert!(is_system_dark_mode(Some("Adwaita-DARK"), None));
    assert!(!is_system_dark_mode(Some("dar"), Some("15;x")));
    assert!(is_system_dark_mode(None, Some("15; 0 ")));
}

#[test]
fn lowered_names_decide() {
    assert!(AppSettings::lowered_is_png("trait_axe.png"));
    assert!(!AppSettings::lowered_is_png("trait_axe.PNG"));
    assert!(!AppSettings::lowered_is_png("png"));
    assert!(AppSettings::lowered_is_trait_folder("mytraits"));
    assert!(!AppSettings::lowered_is_trait_folder("Traits"));
    assert!(AppSettings::lowered_is_fancy("xfancytraitsy"));
    assert!(!AppSettings::lowered_is_fancy("fancy_traits"));
    let mut codes: Vec<String> = Vec::new();
    AppSettings::add_picture_codes(&mut codes, "TrueAxe.PNG", "trueaxe.png");
    AppSettings::add_picture_codes(&mut codes, "Trait_Axe.png", "trait_axe.png");
    AppSettings::add_picture_codes(&mut codes, "$$FancyTraits_Hero_Trait_Yuri", "$$fancytraits_hero_trait_yuri");
    AppSettings::add_picture_codes(&mut codes, "whatever", "jump.png");
    AppSettings::add_picture_codes(&mut codes, "other.png", "other.png");
    assert_eq!(codes, vec!["Hero_Trait_AxeThrower", "Hero_Trait_Yuri", "Hero_Trait_Jumper"]);
    let ps = vec![plugin("p", &["Jump.PNG", "a.png"])];
    assert!(AppSettings::has_lowered_png(&ps, "jump.png"));
    assert!(!AppSettings::has_lowered_png(&ps, "Jump.PNG"));
    assert!(AppSettings::has_png(&ps, "JUMP.png"));
    assert_eq!(AppSettings::missing_plugins_dir("C:\\game\\BepInEx\\plugins"), "未找到 BepInEx\\plugins 目录: C:\\game\\BepInEx\\plugins");
}

#[test]
fn lowered_theme_settings_decide() {
    assert!(dark_from_lowered_settings(Some("adwaita-dark"), None));
    assert!(!dark_from_lowered_settings(Some("Adwaita-DARK"), None));
    assert!(dark_from_lowered_settings(None, Some("15;0")));
    assert!(!dark_from_lowered_settings(None, Some("0;15")));
    assert!(!dark_from_lowered_settings(None, None));
}
