//! What the editor does when a code typed for a hero's item or trait is
//! applied: the typed text is trimmed, a blank one is ignored, the upgrade
//! keeps the level it had, and the outcome is a line for the log.
use vstd::prelude::*;
use crate::error::{SaveErr, error_text, prefixed};
use crate::hero::{UpgradeInfo, UpgradeInfoView};
use crate::json::{JVal, Json};
use crate::save_manager::SaveManager;
use crate::text::{owned, trim_text, trimmed};
use crate::upgrade_edit::{modify_ok, modify_reads_ok, modify_upgrade};

verus! {

/// What applying a typed upgrade code gave.
pub enum TypedEdit {
    /// The typed text was blank: nothing was done.
    Blank,
    /// The upgrade was changed; the line to log. The input is then cleared
    /// and the heroes read again.
    Applied(String),
    /// The change was refused; the line to log.
    Refused(String),
}

/// The mathematical view of a [`TypedEdit`].
pub enum TypedEditView {
    Blank,
    Applied(Seq<char>),
    Refused(Seq<char>),
}

impl View for TypedEdit {
    type V = TypedEditView;

    open spec fn view(&self) -> TypedEditView {
        match self {
            TypedEdit::Blank => TypedEditView::Blank,
            TypedEdit::Applied(s) => TypedEditView::Applied(s@),
            TypedEdit::Refused(s) => TypedEditView::Refused(s@),
        }
    }
}

/// The line logged when the upgrade `what` (装备 or 特质) named `old_name`
/// became `code`.
pub open spec fn changed_line(what: Seq<char>, old_name: Seq<char>, code: Seq<char>) -> Seq<char> {
    "✔"@ + what + "已修改 "@ + old_name + " →"@ + code
}

/// The line logged when a change was refused.
pub open spec fn refused_line(e: SaveErr) -> Seq<char> {
    "修改失败: "@ + error_text(e)
}

/// Applying the text `typed` as the new upgrade of field `field` of a hero
/// whose current upgrade there is `current`: a blank text does nothing; else
/// the trimmed text becomes the upgrade's name at the level it had (0 where
/// there was none), and the outcome is logged.
pub open spec fn typed_edit(
    j: JVal,
    hero: Seq<char>,
    field: Seq<char>,
    what: Seq<char>,
    typed: Seq<char>,
    current: Option<UpgradeInfoView>,
) -> (JVal, TypedEditView) {
    let code = trimmed(typed);
    let (old_name, old_level) = match current {
        Some(u) => (u.name, u.level),
        None => (Seq::empty(), 0i32),
    };
    if code.len() == 0 {
        (j, TypedEditView::Blank)
    } else if !modify_ok(j, hero, field) {
        (j, TypedEditView::Refused(refused_line(SaveErr::EditTooLarge)))
    } else {
        let (j2, r) = modify_upgrade(j, hero, field, code, old_level);
        match r {
            Ok(_) => (j2, TypedEditView::Applied(changed_line(what, old_name, code))),
            Err(e) => (j2, TypedEditView::Refused(refused_line(e))),
        }
    }
}

/// The view of an optional upgrade.
pub open spec fn info_view(o: Option<UpgradeInfo>) -> Option<UpgradeInfoView> {
    match o {
        Some(u) => Some(u@),
        None => None,
    }
}

impl SaveManager {
    /// Applies the text `typed` as the new upgrade of field `field` of a hero
    /// (see [`typed_edit`]).
    pub fn apply_typed_upgrade(
        json: &mut Json,
        hero_record_id: &str,
        field: &str,
        what: &str,
        typed: &str,
        current: &Option<UpgradeInfo>,
    ) -> (r: TypedEdit)
        requires
            modify_reads_ok(old(json)@, hero_record_id@, field@),
        ensures
            (final(json)@, r@) == typed_edit(
                old(json)@,
                hero_record_id@,
                field@,
                what@,
                typed@,
                info_view(*current),
            ),
    {
        let code = trim_text(typed);
        if code.unicode_len() == 0 {
            return TypedEdit::Blank;
        }
        if !Self::upgrade_edit_ok(json, hero_record_id, field) {
            return TypedEdit::Refused(prefixed("修改失败: ", crate::error::SaveError::EditTooLarge.message().as_str()));
        }
        let (old_name, old_level): (&str, i32) = match current {
            Some(u) => (u.name.as_str(), u.level),
            None => ("", 0i32),
        };
        proof {
            reveal_strlit("");
        }
        match Self::modify_hero_upgrade(json, hero_record_id, field, code, old_level) {
            Ok(()) => {
                let mut line = owned("✔");
                line.append(what);
                line.append("已修改 ");
                line.append(old_name);
                line.append(" →");
                line.append(code);
                TypedEdit::Applied(line)
            },
            Err(e) => TypedEdit::Refused(prefixed("修改失败: ", e.message().as_str())),
        }
    }
}

} // verus!
