//! The tray icon: its text, its menu, and whether it is shown.
use vstd::prelude::*;

use crate::model;
use crate::model::FolderId;
use crate::number;
use crate::number::decimal_text;
use crate::text;
use crate::text::{contains, str_eq};

verus! {

/// The setting that shows or hides the icon.
pub const KEY_TRAY_ENABLED: &'static str = "appearance.tray_enabled";

/// Does the news of a changed setting concern the icon?
pub fn payload_matches_tray_key(payload: &str) -> (r: bool)
    ensures
        r == text::holds_text(payload@, KEY_TRAY_ENABLED@),
{
    contains(payload, KEY_TRAY_ENABLED)
}

/// Is the icon shown? It is, unless it was switched off.
pub fn tray_enabled(setting: &Option<String>) -> (r: bool)
    ensures
        r == (model::opt_text(*setting) != Some("false"@)),
{
    match setting {
        Some(v) => !str_eq(v.as_str(), "false"),
        None => true,
    }
}

/// The icon's text for a number of unread messages.
pub open spec fn tooltip_text(unread: nat) -> Seq<char> {
    if unread == 0 {
        "QSL"@
    } else if unread == 1 {
        "QSL · 1 unread"@
    } else {
        "QSL · "@ + number::decimal(unread) + " unread"@
    }
}

/// See [`tooltip_text`].
pub fn tooltip(unread: u32) -> (r: String)
    ensures
        r@ == tooltip_text(unread as nat),
{
    if unread == 0 {
        "QSL".to_owned()
    } else if unread == 1 {
        "QSL · 1 unread".to_owned()
    } else {
        let mut r = "QSL · ".to_owned();
        let n = decimal_text(unread as u64);
        r.append(n.as_str());
        r.append(" unread");
        r
    }
}

/// The unread messages that the icon counts: those of the inboxes. Without an
/// inbox there are none.
pub fn counted_unread(inboxes: &Vec<FolderId>, unread: u32) -> (r: u32)
    ensures
        r == if inboxes@.len() == 0 {
            0
        } else {
            unread
        },
{
    if inboxes.len() == 0 {
        0
    } else {
        unread
    }
}

/// What an entry of the icon's menu does.
#[derive(Debug, Clone, Copy, PartialEq, Eq, Structural)]
pub enum TrayAction {
    Show,
    Compose,
    Quit,
    Nothing,
}

/// What the menu entry with the given id does.
pub fn menu_action(id: &str) -> (r: TrayAction)
    ensures
        r == if id@ == "tray-show"@ {
            TrayAction::Show
        } else if id@ == "tray-compose"@ {
            TrayAction::Compose
        } else if id@ == "tray-quit"@ {
            TrayAction::Quit
        } else {
            TrayAction::Nothing
        },
{
    if str_eq(id, "tray-show") {
        TrayAction::Show
    } else if str_eq(id, "tray-compose") {
        TrayAction::Compose
    } else if str_eq(id, "tray-quit") {
        TrayAction::Quit
    } else {
        TrayAction::Nothing
    }
}

/// Does a click on the icon hide the main window? A window whose state cannot
/// be told is shown.
pub fn click_hides(visible: Option<bool>) -> (r: bool)
    ensures
        r == (visible == Some(true)),
{
    match visible {
        Some(v) => v,
        None => false,
    }
}

/// The icon tells how many messages are unread, if any.
pub proof fn law_the_icon_counts_unread_mail(unread: nat)
    ensures
        tooltip_text(0) == "QSL"@,
        unread > 0 ==> tooltip_text(unread) == "QSL · "@ + number::decimal(unread) + " unread"@,
{
    reveal_strlit("QSL · 1 unread");
    reveal_strlit("QSL · ");
    reveal_strlit(" unread");
    if unread == 1 {
        assert(number::decimal(1) == seq!['1']);
        assert(tooltip_text(1) =~= "QSL · "@ + number::decimal(1) + " unread"@);
    }
}

/// The icon's setting is kept under its own name.
pub proof fn law_the_icon_has_its_setting()
    ensures
        KEY_TRAY_ENABLED@ == "appearance.tray_enabled"@,
{
}

} // verus!
