//! The editor's settings, and what it learns from the game's plugin folder:
//! which plugins add pictures, and which trait codes those pictures stand for.
use std::path::PathBuf;
use vstd::prelude::*;
use vstd::utf8::{decode_utf8, encode_utf8};
use crate::error::prefixed;
use crate::search::{first_index, lemma_first_is, lemma_first_none};
use crate::text::{
    has_prefix, has_substring, has_suffix, lowercase, owned, str_contains, str_ends_with, str_eq,
    str_starts_with, to_lower,
};

verus! {

#[verifier::external_type_specification]
#[verifier::external_body]
pub struct ExPathBuf(PathBuf);

/// `Path::is_file` on a `PathBuf`. Whether a file is there depends on the
/// file system when the call is made, so nothing is stated of the answer.
#[verifier::external_body]
fn path_is_file(p: &PathBuf) -> bool {
    p.is_file()
}

/// A plugin folder and the pictures it holds.
#[derive(Clone, Debug)]
pub struct PluginInfo {
    pub folder_name: String,
    pub png_files: Vec<String>,
}

pub struct PluginView {
    pub folder_name: Seq<char>,
    pub png_files: Seq<Seq<char>>,
}

pub open spec fn texts(v: Seq<String>) -> Seq<Seq<char>> {
    Seq::new(v.len(), |i: int| v[i]@)
}

impl View for PluginInfo {
    type V = PluginView;

    open spec fn view(&self) -> PluginView {
        PluginView { folder_name: self.folder_name@, png_files: texts(self.png_files@) }
    }
}

pub open spec fn plugin_views(v: Seq<PluginInfo>) -> Seq<PluginView> {
    Seq::new(v.len(), |i: int| v[i]@)
}

/// The colors of the editor.
#[derive(Clone, Copy, Debug, PartialEq, Eq, Structural)]
pub enum ColorMode {
    Black,
    Colorful,
    FollowSystem,
}

impl Default for ColorMode {
    fn default() -> (r: Self)
        ensures
            r == ColorMode::Black,
    {
        ColorMode::Black
    }
}

/// The language of the editor.
#[derive(Clone, Copy, Debug, PartialEq, Eq, Structural)]
pub enum Language {
    Chinese,
    English,
}

impl Default for Language {
    fn default() -> (r: Self)
        ensures
            r == Language::Chinese,
    {
        Language::Chinese
    }
}

/// What the editor remembers between runs.
#[derive(Clone, Debug)]
pub struct AppSettings {
    pub color_mode: ColorMode,
    pub language: Language,
    pub editor_exe_path: Option<PathBuf>,
    pub keep_logs_visible: bool,
    pub game_folder_path: Option<PathBuf>,
    pub plugins_info: Vec<PluginInfo>,
}

impl Default for AppSettings {
    fn default() -> (r: Self)
        ensures
            r.color_mode == ColorMode::Black,
            r.language == Language::Chinese,
            r.editor_exe_path is None,
            !r.keep_logs_visible,
            r.game_folder_path is None,
            r.plugins_info@.len() == 0,
    {
        AppSettings {
            color_mode: ColorMode::default(),
            language: Language::default(),
            editor_exe_path: None,
            keep_logs_visible: false,
            game_folder_path: None,
            plugins_info: Vec::new(),
        }
    }
}

/// An entry of the game's plugin folder, as read from the file system: its
/// name, whether it is a folder (`None` when that could not be told), and the
/// names of the entries inside it when it is a folder that could be read.
#[derive(Clone, Debug)]
pub struct PluginDirEntry {
    pub name: String,
    pub is_dir: Option<bool>,
    pub children: Vec<String>,
}

pub struct PluginDirEntryView {
    pub name: Seq<char>,
    pub is_dir: Option<bool>,
    pub children: Seq<Seq<char>>,
}

impl View for PluginDirEntry {
    type V = PluginDirEntryView;

    open spec fn view(&self) -> PluginDirEntryView {
        PluginDirEntryView { name: self.name@, is_dir: self.is_dir, children: texts(self.children@) }
    }
}

pub open spec fn dir_entry_views(v: Seq<PluginDirEntry>) -> Seq<PluginDirEntryView> {
    Seq::new(v.len(), |i: int| v[i]@)
}

/// A lowercase file name that ends with `.png`.
pub open spec fn lowered_png(lower: Seq<char>) -> bool {
    has_suffix(lower, ".png"@)
}

/// A picture's file name: it ends with `.png` in any case.
pub open spec fn is_png(n: Seq<char>) -> bool {
    lowered_png(lowercase(n))
}

/// The names that are pictures, in order.
pub open spec fn png_names(ns: Seq<Seq<char>>) -> Seq<Seq<char>>
    decreases ns.len(),
{
    if ns.len() == 0 {
        Seq::empty()
    } else if is_png(ns.last()) {
        png_names(ns.drop_last()).push(ns.last())
    } else {
        png_names(ns.drop_last())
    }
}

/// A lowercase folder name with `trait` in it.
pub open spec fn lowered_trait_name(lower: Seq<char>) -> bool {
    has_substring(lower, "trait"@)
}

/// A folder whose name has `trait` in it, in any case.
pub open spec fn is_trait_folder(e: PluginDirEntryView) -> bool {
    e.is_dir == Some(true) && lowered_trait_name(lowercase(e.name))
}

/// The trait folders, in order, each with its pictures.
pub open spec fn trait_folders(es: Seq<PluginDirEntryView>) -> Seq<PluginView>
    decreases es.len(),
{
    if es.len() == 0 {
        Seq::empty()
    } else if is_trait_folder(es.last()) {
        trait_folders(es.drop_last()).push(
            PluginView { folder_name: es.last().name, png_files: png_names(es.last().children) },
        )
    } else {
        trait_folders(es.drop_last())
    }
}

/// A lowercase entry name with `fancytraits` in it.
pub open spec fn lowered_fancy_name(lower: Seq<char>) -> bool {
    has_substring(lower, "fancytraits"@)
}

/// An entry whose name has `fancytraits` in it, in any case.
pub open spec fn is_fancy_entry() -> spec_fn(PluginDirEntryView) -> bool {
    |e: PluginDirEntryView| lowered_fancy_name(lowercase(e.name))
}

/// The upgrades the FancyTraits plugin adds, as the codes the pictures list stands for.
pub open spec fn fancy_codes() -> Seq<Seq<char>> {
    seq![
        "$$fancytraits_Hero_Trait_UltimateSquad"@,
        "$$fancytraits_Hero_Trait_Yuri"@,
        "$$fancytraits_Hero_Trait_Slash"@,
        "$$fancytraits_Hero_Item_Charge"@,
        "$$fancytraits_Hero_Item_FrontArmor"@,
        "$$fancytraits_Hero_Item_SpeedUp"@,
    ]
}

/// The name of the root folder's entry.
pub open spec fn root_folder_name() -> Seq<char> {
    "(plugins 根目录)"@
}

/// The plugins the folder's entries show: the root folder's pictures (when it
/// has any), the trait folders, and the first FancyTraits entry.
pub open spec fn plugins_found(es: Seq<PluginDirEntryView>) -> Seq<PluginView> {
    let names = Seq::new(es.len(), |i: int| es[i].name);
    let roots = png_names(names);
    let root = if roots.len() > 0 {
        seq![PluginView { folder_name: root_folder_name(), png_files: roots }]
    } else {
        Seq::empty()
    };
    let fancy = match first_index(es, is_fancy_entry()) {
        Some(i) => seq![
            PluginView {
                folder_name: "FancyTraits (魔改版: "@ + es[i].name + ")"@,
                png_files: fancy_codes(),
            },
        ],
        None => Seq::empty(),
    };
    root + trait_folders(es) + fancy
}

/// The message when the folder shows no plugin.
pub open spec fn no_plugins_message() -> Seq<char> {
    "未找到任何 PNG 图片或含 Trait 的插件文件夹"@
}

/// The message when the game has no plugin folder at `dir`.
pub open spec fn no_plugins_dir_message(dir: Seq<char>) -> Seq<char> {
    "未找到 BepInEx\\plugins 目录: "@ + dir
}

/// The trait codes the simply named pictures stand for, in the order they are looked up.
pub open spec fn png_code_map() -> Seq<(Seq<char>, Seq<char>)> {
    seq![
        ("trait_axe.png"@, "Hero_Trait_AxeThrower"@),
        ("trait_cheaperclass.png"@, "Hero_Trait_CheaperClass"@),
        ("trait_regenerative.png"@, "Hero_Trait_Regenerative"@),
        ("trait_thorns.png"@, "Hero_Trait_Thorns"@),
        ("trueaxe.png"@, "Hero_Trait_AxeThrower"@),
        ("trait_thorns.png"@, "Hero_Trait_Thorns"@),
        ("mesugaki.png"@, "Hero_Trait_CheaperClass"@),
        ("trait_regenerative.png"@, "Hero_Trait_Regenerative"@),
        ("jump.png"@, "Hero_Trait_Jumper"@),
        ("creeper.png"@, "Hero_Trait_Creeper"@),
        ("mystory.png"@, "Hero_Trait_Flyer"@),
        ("titan.png"@, "Hero_Trait_Titan"@),
        ("charge.png"@, "Hero_Item_Charge"@),
    ]
}

/// The prefix of the codes FancyTraits pictures stand for.
pub open spec fn fancy_prefix() -> Seq<char> {
    "$$fancytraits_"@
}

/// The code a FancyTraits picture entry names: what follows its first 14 bytes.
pub open spec fn fancy_code(f: Seq<char>) -> Seq<char> {
    decode_utf8(encode_utf8(f).subrange(14, encode_utf8(f).len() as int))
}

/// `codes` with `c` added at the end unless it is there.
pub open spec fn add_code(codes: Seq<Seq<char>>, c: Seq<char>) -> Seq<Seq<char>> {
    if codes.contains(c) {
        codes
    } else {
        codes.push(c)
    }
}

/// `codes` with the codes of the first `k` entries of the map whose picture is `lower`.
pub open spec fn map_codes(codes: Seq<Seq<char>>, lower: Seq<char>, k: nat) -> Seq<Seq<char>>
    decreases k,
{
    if k == 0 {
        codes
    } else {
        let prev = map_codes(codes, lower, (k - 1) as nat);
        let (png, code) = png_code_map()[k - 1];
        if lower == png {
            add_code(prev, code)
        } else {
            prev
        }
    }
}

/// `codes` with the code of picture entry `f`, whose lowercase form is
/// `lower`: where `lower` starts with the FancyTraits prefix, what follows the
/// first 14 bytes of `f` (no code where `f` cannot be cut there); else the
/// codes the map pairs with `lower`.
pub open spec fn picture_codes(codes: Seq<Seq<char>>, f: Seq<char>, lower: Seq<char>) -> Seq<Seq<char>> {
    if has_prefix(lower, fancy_prefix()) {
        if vstd::utf8::is_char_boundary(encode_utf8(f), 14) {
            add_code(codes, fancy_code(f))
        } else {
            codes
        }
    } else {
        map_codes(codes, lower, png_code_map().len())
    }
}

/// `codes` with the code of one picture entry (see [`picture_codes`]).
pub open spec fn file_codes(codes: Seq<Seq<char>>, f: Seq<char>) -> Seq<Seq<char>> {
    picture_codes(codes, f, lowercase(f))
}

/// `codes` with the codes of the picture entries, in order.
pub open spec fn files_codes(codes: Seq<Seq<char>>, fs: Seq<Seq<char>>) -> Seq<Seq<char>>
    decreases fs.len(),
{
    if fs.len() == 0 {
        codes
    } else {
        file_codes(files_codes(codes, fs.drop_last()), fs.last())
    }
}

/// The trait codes the plugins' pictures stand for, each once, in the order found.
pub open spec fn detected_codes(ps: Seq<PluginView>) -> Seq<Seq<char>>
    decreases ps.len(),
{
    if ps.len() == 0 {
        Seq::empty()
    } else {
        files_codes(detected_codes(ps.drop_last()), ps.last().png_files)
    }
}

/// Whether any plugin has a picture whose lowercase form is `lower`.
pub open spec fn lowered_png_present(ps: Seq<PluginView>, lower: Seq<char>) -> bool {
    exists|i: int, k: int|
        0 <= i < ps.len() && 0 <= k < ps[i].png_files.len() && lowercase(#[trigger] ps[i].png_files[k]) == lower
}

/// Whether any plugin has a picture of this name, in any case.
pub open spec fn png_present(ps: Seq<PluginView>, png_name: Seq<char>) -> bool {
    lowered_png_present(ps, lowercase(png_name))
}

/// Whether the text is a trait code the editor already holds.
fn contains_text(codes: &Vec<String>, c: &str) -> (r: bool)
    ensures
        r == texts(codes@).contains(c@),
{
    let mut i: usize = 0;
    while i < codes.len()
        invariant
            0 <= i <= codes.len(),
            forall|k: int| 0 <= k < i ==> texts(codes@)[k] != c@,
        decreases codes.len() - i,
    {
        if str_eq(codes[i].as_str(), c) {
            assert(texts(codes@)[i as int] == c@);
            return true;
        }
        i += 1;
    }
    false
}

/// Adds a code unless it is there (see [`add_code`]).
fn push_code(codes: &mut Vec<String>, c: &str)
    ensures
        texts(final(codes)@) == add_code(texts(old(codes)@), c@),
{
    if !contains_text(codes, c) {
        let ghost before = texts(codes@);
        codes.push(owned(c));
        assert(texts(codes@) =~= before.push(c@));
    }
}

/// The names among `ns` that are pictures (see [`png_names`]).
fn collect_pngs(ns: &Vec<String>) -> (r: Vec<String>)
    ensures
        texts(r@) == png_names(texts(ns@)),
{
    let ghost nv = texts(ns@);
    let mut r: Vec<String> = Vec::new();
    let mut i: usize = 0;
    while i < ns.len()
        invariant
            nv == texts(ns@),
            0 <= i <= ns.len(),
            texts(r@) == png_names(nv.take(i as int)),
        decreases ns.len() - i,
    {
        proof {
            assert(nv.take(i + 1).drop_last() =~= nv.take(i as int));
            assert(nv.take(i + 1).last() == nv[i as int]);
        }
        let lower = to_lower(ns[i].as_str());
        if AppSettings::lowered_is_png(lower.as_str()) {
            let ghost before = texts(r@);
            r.push(ns[i].clone());
            assert(texts(r@) =~= before.push(nv[i as int]));
        }
        i += 1;
    }
    proof {
        assert(nv.take(ns.len() as int) =~= nv);
    }
    r
}

/// The first entry whose name has `fancytraits` in it (see [`is_fancy_entry`]).
fn find_fancy(entries: &Vec<PluginDirEntry>) -> (r: Option<usize>)
    ensures
        match r {
            Some(i) => first_index(dir_entry_views(entries@), is_fancy_entry()) == Some(i as int),
            None => first_index(dir_entry_views(entries@), is_fancy_entry()) is None,
        },
{
    let ghost ev = dir_entry_views(entries@);
    let mut i: usize = 0;
    while i < entries.len()
        invariant
            ev == dir_entry_views(entries@),
            0 <= i <= entries.len(),
            forall|k: int| 0 <= k < i ==> !is_fancy_entry()(#[trigger] ev[k]),
        decreases entries.len() - i,
    {
        let lower = to_lower(entries[i].name.as_str());
        if AppSettings::lowered_is_fancy(lower.as_str()) {
            proof {
                lemma_first_is(ev, is_fancy_entry(), i as int);
            }
            return Some(i);
        }
        i += 1;
    }
    proof {
        lemma_first_none(ev, is_fancy_entry());
    }
    None
}

/// The table of simply named pictures and the trait codes they stand for
/// (see [`png_code_map`]).
fn png_code_table() -> (r: Vec<(&'static str, &'static str)>)
    ensures
        Seq::new(r@.len(), |k: int| (r@[k].0@, r@[k].1@)) == png_code_map(),
{
    let mut png_map: Vec<(&str, &str)> = Vec::new();
    png_map.push(("trait_axe.png", "Hero_Trait_AxeThrower"));
    png_map.push(("trait_cheaperclass.png", "Hero_Trait_CheaperClass"));
    png_map.push(("trait_regenerative.png", "Hero_Trait_Regenerative"));
    png_map.push(("trait_thorns.png", "Hero_Trait_Thorns"));
    png_map.push(("trueaxe.png", "Hero_Trait_AxeThrower"));
    png_map.push(("trait_thorns.png", "Hero_Trait_Thorns"));
    png_map.push(("mesugaki.png", "Hero_Trait_CheaperClass"));
    png_map.push(("trait_regenerative.png", "Hero_Trait_Regenerative"));
    png_map.push(("jump.png", "Hero_Trait_Jumper"));
    png_map.push(("creeper.png", "Hero_Trait_Creeper"));
    png_map.push(("mystory.png", "Hero_Trait_Flyer"));
    png_map.push(("titan.png", "Hero_Trait_Titan"));
    png_map.push(("charge.png", "Hero_Item_Charge"));
    assert(Seq::new(png_map@.len(), |k: int| (png_map@[k].0@, png_map@[k].1@)) =~= png_code_map());
    png_map
}

impl AppSettings {
    /// Whether a lowercase file name is a picture's: it ends with `.png`.
    pub fn lowered_is_png(lower: &str) -> (r: bool)
        ensures
            r == lowered_png(lower@),
    {
        str_ends_with(lower, ".png")
    }

    /// Whether a lowercase folder name marks a trait folder: it has `trait` in it.
    pub fn lowered_is_trait_folder(lower: &str) -> (r: bool)
        ensures
            r == lowered_trait_name(lower@),
    {
        str_contains(lower, "trait")
    }

    /// Whether a lowercase entry name marks the FancyTraits plugin: it has
    /// `fancytraits` in it.
    pub fn lowered_is_fancy(lower: &str) -> (r: bool)
        ensures
            r == lowered_fancy_name(lower@),
    {
        str_contains(lower, "fancytraits")
    }

    /// Adds to `codes` the codes of the picture `png_file`, whose lowercase
    /// form is `lower` (see [`picture_codes`]).
    pub fn add_picture_codes(codes: &mut Vec<String>, png_file: &str, lower: &str)
        ensures
            texts(final(codes)@) == picture_codes(texts(old(codes)@), png_file@, lower@),
    {
        if str_starts_with(lower, "$$fancytraits_") {
            if png_file.is_char_boundary(14) {
                let (_, code) = png_file.split_at(14);
                proof {
                    vstd::utf8::encode_utf8_decode_utf8(code@);
                }
                push_code(codes, code);
            }
        } else {
            let png_map = png_code_table();
            let ghost mv = Seq::new(png_map@.len(), |k: int| (png_map@[k].0@, png_map@[k].1@));
            let ghost before = texts(codes@);
            let mut k: usize = 0;
            while k < png_map.len()
                invariant
                    mv == png_code_map(),
                    mv == Seq::new(png_map@.len(), |k: int| (png_map@[k].0@, png_map@[k].1@)),
                    before == texts(old(codes)@),
                    0 <= k <= png_map.len(),
                    texts(codes@) == map_codes(before, lower@, k as nat),
                decreases png_map.len() - k,
            {
                let (png_name, trait_code) = png_map[k];
                assert(mv[k as int] == (png_name@, trait_code@));
                if str_eq(lower, png_name) {
                    push_code(codes, trait_code);
                }
                k += 1;
            }
        }
    }

    /// Whether any plugin has a picture whose lowercase form is `lower` (see
    /// [`lowered_png_present`]).
    pub fn has_lowered_png(plugins_info: &[PluginInfo], lower: &str) -> (r: bool)
        ensures
            r == lowered_png_present(plugin_views(plugins_info@), lower@),
    {
        let ghost ps = plugin_views(plugins_info@);
        let mut p: usize = 0;
        while p < plugins_info.len()
            invariant
                ps == plugin_views(plugins_info@),
                0 <= p <= plugins_info.len(),
                forall|i: int, k: int|
                    0 <= i < p && 0 <= k < ps[i].png_files.len() ==> lowercase(#[trigger] ps[i].png_files[k]) != lower@,
            decreases plugins_info.len() - p,
        {
            let files = &plugins_info[p].png_files;
            assert(texts(files@) == ps[p as int].png_files);
            let mut f: usize = 0;
            while f < files.len()
                invariant
                    ps == plugin_views(plugins_info@),
                    0 <= p < plugins_info.len(),
                    texts(files@) == ps[p as int].png_files,
                    0 <= f <= files.len(),
                    forall|k: int| 0 <= k < f ==> lowercase(#[trigger] ps[p as int].png_files[k]) != lower@,
                decreases files.len() - f,
            {
                let l = to_lower(files[f].as_str());
                if str_eq(l.as_str(), lower) {
                    assert(ps[p as int].png_files[f as int] == files@[f as int]@);
                    return true;
                }
                f += 1;
            }
            p += 1;
        }
        false
    }

    /// Whether an editor program is set and is a file. Only that no path
    /// gives `false` is stated; a set path is asked of the file system.
    pub fn is_editor_exe_valid(&self) -> (r: bool)
        ensures
            self.editor_exe_path is None ==> !r,
    {
        match &self.editor_exe_path {
            Some(path) => path_is_file(path),
            None => false,
        }
    }

    /// The message when the game has no plugin folder at `dir` (see [`no_plugins_dir_message`]).
    pub fn missing_plugins_dir(dir: &str) -> (r: String)
        ensures
            r@ == no_plugins_dir_message(dir@),
    {
        prefixed("未找到 BepInEx\\plugins 目录: ", dir)
    }

    /// The plugins that the entries of the game's plugin folder show (see
    /// [`plugins_found`]), or a message when they show none.
    pub fn collect_plugins(entries: &Vec<PluginDirEntry>) -> (r: Result<Vec<PluginInfo>, String>)
        ensures
            match r {
                Ok(v) => plugins_found(dir_entry_views(entries@)) == plugin_views(v@) && v@.len() > 0,
                Err(m) => plugins_found(dir_entry_views(entries@)).len() == 0 && m@ == no_plugins_message(),
            },
    {
        let ghost ev = dir_entry_views(entries@);
        let mut result: Vec<PluginInfo> = Vec::new();
        let mut names: Vec<String> = Vec::new();
        let mut i: usize = 0;
        while i < entries.len()
            invariant
                ev == dir_entry_views(entries@),
                0 <= i <= entries.len(),
                texts(names@) == Seq::new(i as nat, |k: int| ev[k].name),
            decreases entries.len() - i,
        {
            let ghost before = texts(names@);
            assert(ev[i as int].name == entries@[i as int].name@);
            let nm = owned(entries[i].name.as_str());
            names.push(nm);
            assert(texts(names@) =~= before.push(ev[i as int].name));
            assert(texts(names@) =~= Seq::new((i + 1) as nat, |k: int| ev[k].name));
            i += 1;
        }
        let root_pngs = collect_pngs(&names);
        if root_pngs.len() > 0 {
            result.push(PluginInfo { folder_name: owned("(plugins 根目录)"), png_files: root_pngs });
        }
        let ghost root_part = plugin_views(result@);
        let mut i: usize = 0;
        while i < entries.len()
            invariant
                ev == dir_entry_views(entries@),
                0 <= i <= entries.len(),
                root_part.len() <= result@.len(),
                plugin_views(result@) == root_part + trait_folders(ev.take(i as int)),
            decreases entries.len() - i,
        {
            proof {
                assert(ev.take(i + 1).drop_last() =~= ev.take(i as int));
                assert(ev.take(i + 1).last() == ev[i as int]);
            }
            let e = &entries[i];
            let is_dir = match e.is_dir {
                Some(d) => d,
                None => false,
            };
            if is_dir {
                let lower = to_lower(e.name.as_str());
                if AppSettings::lowered_is_trait_folder(lower.as_str()) {
                    let pngs = collect_pngs(&e.children);
                    let ghost before = plugin_views(result@);
                    let p = PluginInfo { folder_name: e.name.clone(), png_files: pngs };
                    let ghost pv = p@;
                    result.push(p);
                    assert(plugin_views(result@) =~= before.push(pv));
                    assert(before.push(pv) =~= root_part + trait_folders(ev.take(i + 1)));
                }
            }
            i += 1;
        }
        proof {
            assert(ev.take(entries.len() as int) =~= ev);
        }
        let ghost mid = plugin_views(result@);
        match find_fancy(entries) {
            Some(i) => {
                let mut folder = owned("FancyTraits (魔改版: ");
                folder.append(entries[i].name.as_str());
                folder.append(")");
                let mut pngs: Vec<String> = Vec::new();
                pngs.push(owned("$$fancytraits_Hero_Trait_UltimateSquad"));
                pngs.push(owned("$$fancytraits_Hero_Trait_Yuri"));
                pngs.push(owned("$$fancytraits_Hero_Trait_Slash"));
                pngs.push(owned("$$fancytraits_Hero_Item_Charge"));
                pngs.push(owned("$$fancytraits_Hero_Item_FrontArmor"));
                pngs.push(owned("$$fancytraits_Hero_Item_SpeedUp"));
                assert(texts(pngs@) =~= fancy_codes());
                let p = PluginInfo { folder_name: folder, png_files: pngs };
                let ghost pv = p@;
                result.push(p);
                assert(plugin_views(result@) =~= mid.push(pv));
            },
            None => {},
        }
        proof {
            let names_v = Seq::new(ev.len(), |k: int| ev[k].name);
            assert(texts(names@) =~= names_v);
        }
        if result.len() == 0 {
            return Err(owned("未找到任何 PNG 图片或含 Trait 的插件文件夹"));
        }
        Ok(result)
    }

    /// The trait codes that the plugins' pictures stand for, each once, in the
    /// order they are found (see [`detected_codes`]).
    pub fn get_detected_trait_codes(plugins_info: &[PluginInfo]) -> (r: Vec<String>)
        ensures
            texts(r@) == detected_codes(plugin_views(plugins_info@)),
    {
        let ghost ps = plugin_views(plugins_info@);
        let mut codes: Vec<String> = Vec::new();
        let mut p: usize = 0;
        while p < plugins_info.len()
            invariant
                ps == plugin_views(plugins_info@),
                0 <= p <= plugins_info.len(),
                texts(codes@) == detected_codes(ps.take(p as int)),
            decreases plugins_info.len() - p,
        {
            proof {
                assert(ps.take(p + 1).drop_last() =~= ps.take(p as int));
                assert(ps.take(p + 1).last() == ps[p as int]);
            }
            let files = &plugins_info[p].png_files;
            let ghost fv = texts(files@);
            let ghost start = texts(codes@);
            assert(fv == ps[p as int].png_files);
            let mut f: usize = 0;
            while f < files.len()
                invariant
                    ps == plugin_views(plugins_info@),
                    0 <= p < plugins_info.len(),
                    fv == texts(files@),
                    fv == ps[p as int].png_files,
                    0 <= f <= files.len(),
                    texts(codes@) == files_codes(start, fv.take(f as int)),
                decreases files.len() - f,
            {
                proof {
                    assert(fv.take(f + 1).drop_last() =~= fv.take(f as int));
                    assert(fv.take(f + 1).last() == fv[f as int]);
                }
                let png_file = files[f].as_str();
                let lower = to_lower(png_file);
                Self::add_picture_codes(&mut codes, png_file, lower.as_str());
                f += 1;
            }
            proof {
                assert(fv.take(files.len() as int) =~= fv);
            }
            p += 1;
        }
        proof {
            assert(ps.take(plugins_info.len() as int) =~= ps);
        }
        codes
    }

    /// Whether any plugin has a picture of this name, in any case (see [`png_present`]).
    pub fn has_png(plugins_info: &[PluginInfo], png_name: &str) -> (r: bool)
        ensures
            r == png_present(plugin_views(plugins_info@), png_name@),
    {
        let lower = to_lower(png_name);
        Self::has_lowered_png(plugins_info, lower.as_str())
    }
}

} // verus!
