//! Whether the system asks for dark colors, from what the system says.
use vstd::prelude::*;
use crate::search::{last_index, lemma_last_extend, lemma_last_facts};
use crate::text::{has_substring, lowercase, str_contains, str_eq, to_lower, trim_text, trimmed};

verus! {

/// A `;`.
pub open spec fn is_semicolon() -> spec_fn(char) -> bool {
    |c: char| c == ';'
}

/// What follows the last `;` of the text (the whole text when it has none).
pub open spec fn last_segment(s: Seq<char>) -> Seq<char> {
    match last_index(s, is_semicolon()) {
        Some(k) => s.subrange(k + 1, s.len() as int),
        None => s,
    }
}

/// Dark colors, as a desktop's `GTK_THEME` and `COLORFGBG` settings tell
/// them: a theme whose name has `dark` in it, in any case, or a background
/// color 0.
pub open spec fn dark_from_env(gtk_theme: Option<Seq<char>>, colorfgbg: Option<Seq<char>>) -> bool {
    dark_from_lowered_env(
        match gtk_theme {
            Some(t) => Some(lowercase(t)),
            None => None,
        },
        colorfgbg,
    )
}

/// Dark colors, as the lowercase form of a desktop's `GTK_THEME` and its
/// `COLORFGBG` setting tell them: a theme whose lowercase name has `dark` in
/// it, or a background color 0.
pub open spec fn dark_from_lowered_env(gtk_lower: Option<Seq<char>>, colorfgbg: Option<Seq<char>>) -> bool {
    (gtk_lower matches Some(t) && has_substring(t, "dark"@)) || (colorfgbg matches Some(c) && trimmed(
        last_segment(c),
    ) == "0"@)
}

pub open spec fn opt_view(o: Option<&str>) -> Option<Seq<char>> {
    match o {
        Some(s) => Some(s@),
        None => None,
    }
}

/// What follows the last `;` of the text (see [`last_segment`]).
fn last_segment_of(s: &str) -> (r: &str)
    ensures
        r@ == last_segment(s@),
{
    let n = s.unicode_len();
    let mut start: usize = 0;
    let mut i: usize = 0;
    while i < n
        invariant
            n == s@.len(),
            0 <= i <= n,
            start <= i,
            match last_index(s@.take(i as int), is_semicolon()) {
                Some(k) => start == k + 1,
                None => start == 0,
            },
        decreases n - i,
    {
        proof {
            lemma_last_extend(s@, is_semicolon(), i as int);
        }
        if s.get_char(i) == ';' {
            start = i + 1;
        }
        i += 1;
    }
    proof {
        assert(s@.take(n as int) =~= s@);
        lemma_last_facts(s@, is_semicolon());
        if last_index(s@, is_semicolon()) is None {
            assert(s@.subrange(0, n as int) =~= s@);
        }
    }
    s.substring_char(start, n)
}

/// Whether the desktop asks for dark colors, given its `GTK_THEME` and
/// `COLORFGBG` settings when they are set (see [`dark_from_env`]).
pub fn is_system_dark_mode(gtk_theme: Option<&str>, colorfgbg: Option<&str>) -> (r: bool)
    ensures
        r == dark_from_env(opt_view(gtk_theme), opt_view(colorfgbg)),
{
    match gtk_theme {
        Some(theme) => {
            let lower = to_lower(theme);
            dark_from_lowered_settings(Some(lower.as_str()), colorfgbg)
        },
        None => dark_from_lowered_settings(None, colorfgbg),
    }
}

/// Whether the desktop asks for dark colors, given the lowercase form of its
/// `GTK_THEME` setting and its `COLORFGBG` setting, when they are set (see
/// [`dark_from_lowered_env`]).
pub fn dark_from_lowered_settings(gtk_lower: Option<&str>, colorfgbg: Option<&str>) -> (r: bool)
    ensures
        r == dark_from_lowered_env(opt_view(gtk_lower), opt_view(colorfgbg)),
{
    if let Some(lower) = gtk_lower {
        if str_contains(lower, "dark") {
            return true;
        }
    }
    if let Some(theme) = colorfgbg {
        let bg = last_segment_of(theme);
        if str_eq(trim_text(bg), "0") {
            return true;
        }
    }
    false
}

/// Whether the Windows registry value read for the theme asks for dark
/// colors: it is `0` once trimmed.
pub fn dark_from_registry_output(stdout: &str) -> (r: bool)
    ensures
        r == (trimmed(stdout@) == "0"@),
{
    str_eq(trim_text(stdout), "0")
}

/// Whether the macOS interface style read asks for dark colors: it has `Dark` in it.
pub fn dark_from_defaults_output(stdout: &str) -> (r: bool)
    ensures
        r == has_substring(stdout@, "Dark"@),
{
    str_contains(stdout, "Dark")
}

} // verus!
