//! Keyboard shortcuts: which command a keystroke stands for.
use vstd::prelude::*;

use crate::text;
use crate::text::{contains, eq_ignore_ascii_case, str_eq, to_ascii_lower};

verus! {

/// What a keystroke asks for.
#[derive(Debug, Clone, Copy, PartialEq, Eq, Structural)]
pub enum KeyboardCommand {
    /// Open an empty compose pane.
    Compose,
    /// Undo one layer: a pending send, a menu, an overlay, the compose pane,
    /// the search or the selection.
    Cancel,
    /// Archive the selected message.
    Archive,
    /// Delete the selected message.
    Delete,
    /// Answer the sender of the selected message.
    Reply,
    /// Answer everyone that the selected message names.
    ReplyAll,
    /// Forward the selected message.
    Forward,
    /// Show or hide the list of shortcuts.
    ToggleHelp,
    /// Put the cursor into the search field.
    FocusSearch,
    /// Select the next message; after the last comes the first.
    NextMessage,
    /// Select the previous message; before the first comes the last.
    PrevMessage,
    /// Select the next unread message; after the last unread comes the first.
    NextUnread,
    /// Show or hide the command palette.
    TogglePalette,
}

/// The command for a keystroke. With Ctrl or Cmd held only the palette is
/// claimed; every other such keystroke is left to the system.
pub open spec fn command_for(key: Seq<char>, ctrl_or_meta: bool) -> Option<KeyboardCommand> {
    if ctrl_or_meta {
        if key == "k"@ || key == "K"@ {
            Some(KeyboardCommand::TogglePalette)
        } else {
            None
        }
    } else if key == "c"@ {
        Some(KeyboardCommand::Compose)
    } else if key == "Escape"@ {
        Some(KeyboardCommand::Cancel)
    } else if key == "e"@ {
        Some(KeyboardCommand::Archive)
    } else if key == "#"@ {
        Some(KeyboardCommand::Delete)
    } else if key == "r"@ {
        Some(KeyboardCommand::Reply)
    } else if key == "a"@ {
        Some(KeyboardCommand::ReplyAll)
    } else if key == "f"@ {
        Some(KeyboardCommand::Forward)
    } else if key == "?"@ {
        Some(KeyboardCommand::ToggleHelp)
    } else if key == "/"@ {
        Some(KeyboardCommand::FocusSearch)
    } else if key == "j"@ {
        Some(KeyboardCommand::NextMessage)
    } else if key == "k"@ {
        Some(KeyboardCommand::PrevMessage)
    } else if key == "n"@ {
        Some(KeyboardCommand::NextUnread)
    } else {
        None
    }
}

/// See [`command_for`]. `key` is the key as a browser reports it.
pub fn parse(key: &str, ctrl_or_meta: bool) -> (r: Option<KeyboardCommand>)
    ensures
        r == command_for(key@, ctrl_or_meta),
{
    if ctrl_or_meta {
        return if str_eq(key, "k") || str_eq(key, "K") {
            Some(KeyboardCommand::TogglePalette)
        } else {
            None
        };
    }
    if str_eq(key, "c") {
        Some(KeyboardCommand::Compose)
    } else if str_eq(key, "Escape") {
        Some(KeyboardCommand::Cancel)
    } else if str_eq(key, "e") {
        Some(KeyboardCommand::Archive)
    } else if str_eq(key, "#") {
        Some(KeyboardCommand::Delete)
    } else if str_eq(key, "r") {
        Some(KeyboardCommand::Reply)
    } else if str_eq(key, "a") {
        Some(KeyboardCommand::ReplyAll)
    } else if str_eq(key, "f") {
        Some(KeyboardCommand::Forward)
    } else if str_eq(key, "?") {
        Some(KeyboardCommand::ToggleHelp)
    } else if str_eq(key, "/") {
        Some(KeyboardCommand::FocusSearch)
    } else if str_eq(key, "j") {
        Some(KeyboardCommand::NextMessage)
    } else if str_eq(key, "k") {
        Some(KeyboardCommand::PrevMessage)
    } else if str_eq(key, "n") {
        Some(KeyboardCommand::NextUnread)
    } else {
        None
    }
}

/// Is the element with this tag and this `contenteditable` attribute one that
/// the user types into?
pub fn is_typing_target(tag: &str, contenteditable: Option<&str>) -> (r: bool)
    ensures
        r == (text::same_ignoring_ascii_case(tag@, "INPUT"@) || text::same_ignoring_ascii_case(
            tag@,
            "TEXTAREA"@,
        ) || text::same_ignoring_ascii_case(tag@, "SELECT"@) || match contenteditable {
            Some(v) => v@ == "true"@ || v@.len() == 0,
            None => false,
        }),
{
    if eq_ignore_ascii_case(tag, "INPUT") || eq_ignore_ascii_case(tag, "TEXTAREA")
        || eq_ignore_ascii_case(tag, "SELECT") {
        return true;
    }
    match contenteditable {
        Some(v) => str_eq(v, "true") || v.is_empty(),
        None => false,
    }
}

/// The command that a keystroke runs: none while the user types, unless a
/// modifier is held or Escape cancels a pending send.
pub fn keystroke_command(
    key: &str,
    ctrl_or_meta: bool,
    typing: bool,
    send_pending: bool,
) -> (r: Option<KeyboardCommand>)
    ensures
        r == if typing && !ctrl_or_meta && !(key@ == "Escape"@ && send_pending) {
            None
        } else {
            command_for(key@, ctrl_or_meta)
        },
{
    let allowed = ctrl_or_meta || (send_pending && str_eq(key, "Escape"));
    if typing && !allowed {
        return None;
    }
    parse(key, ctrl_or_meta)
}

/// How the palette's shortcut reads on this platform; texts are compared
/// without regard to the case of ASCII letters.
pub fn palette_shortcut_label(platform: &str, user_agent: &str) -> (r: &'static str)
    ensures
        r@ == if text::holds_text(text::ascii_lowered(platform@), "mac"@) || text::holds_text(
            text::ascii_lowered(user_agent@),
            "mac os x"@,
        ) {
            "⌘K"@
        } else {
            "Ctrl K"@
        },
{
    let p = to_ascii_lower(platform);
    let u = to_ascii_lower(user_agent);
    if contains(&p, "mac") || contains(&u, "mac os x") {
        "⌘K"
    } else {
        "Ctrl K"
    }
}

/// Each key has its command; with Ctrl or Meta only the palette has one.
pub proof fn law_keys_have_their_commands(key: Seq<char>)
    ensures
        command_for("c"@, false) == Some(KeyboardCommand::Compose),
        command_for("Escape"@, false) == Some(KeyboardCommand::Cancel),
        command_for("e"@, false) == Some(KeyboardCommand::Archive),
        command_for("#"@, false) == Some(KeyboardCommand::Delete),
        command_for("r"@, false) == Some(KeyboardCommand::Reply),
        command_for("a"@, false) == Some(KeyboardCommand::ReplyAll),
        command_for("f"@, false) == Some(KeyboardCommand::Forward),
        command_for("?"@, false) == Some(KeyboardCommand::ToggleHelp),
        command_for("/"@, false) == Some(KeyboardCommand::FocusSearch),
        command_for("j"@, false) == Some(KeyboardCommand::NextMessage),
        command_for("k"@, false) == Some(KeyboardCommand::PrevMessage),
        command_for("n"@, false) == Some(KeyboardCommand::NextUnread),
        command_for("k"@, true) == Some(KeyboardCommand::TogglePalette),
        command_for("K"@, true) == Some(KeyboardCommand::TogglePalette),
        key != "k"@ && key != "K"@ ==> command_for(key, true) is None,
        command_for(key, false) != Some(KeyboardCommand::TogglePalette),
        command_for(key, false) is Some ==> key == "Escape"@ || (key.len() == 1 && (key[0] == 'c'
            || key[0] == 'e' || key[0] == '#' || key[0] == 'r' || key[0] == 'a' || key[0] == 'f'
            || key[0] == '?' || key[0] == '/' || key[0] == 'j' || key[0] == 'k' || key[0] == 'n')),
{
    reveal_strlit("c");
    reveal_strlit("Escape");
    reveal_strlit("e");
    reveal_strlit("#");
    reveal_strlit("r");
    reveal_strlit("a");
    reveal_strlit("f");
    reveal_strlit("?");
    reveal_strlit("/");
    reveal_strlit("j");
    reveal_strlit("k");
    reveal_strlit("n");
    assert("c"@[0] == 'c' && "e"@[0] == 'e' && "#"@[0] == '#' && "r"@[0] == 'r' && "a"@[0] == 'a'
        && "f"@[0] == 'f' && "?"@[0] == '?' && "/"@[0] == '/' && "j"@[0] == 'j' && "k"@[0] == 'k'
        && "n"@[0] == 'n');
    assert("Escape"@.len() == 6);
}

} // verus!
