//! Keyboard shortcuts.
use qsl_desktop::keyboard::{parse, KeyboardCommand};

#[test]
fn parses_unmodified_letters() {
    assert_eq!(parse("c", false), Some(KeyboardCommand::Compose));
    assert_eq!(parse("e", false), Some(KeyboardCommand::Archive));
    assert_eq!(parse("r", false), Some(KeyboardCommand::Reply));
    assert_eq!(parse("a", false), Some(KeyboardCommand::ReplyAll));
    assert_eq!(parse("f", false), Some(KeyboardCommand::Forward));
}

#[test]
fn parses_special_keys() {
    assert_eq!(parse("Escape", false), Some(KeyboardCommand::Cancel));
    // Browsers report Shift+/ as `key = "?"`, Shift+3 as `key = "#"` —
    // we match on the produced glyph, not raw codes.
    assert_eq!(parse("?", false), Some(KeyboardCommand::ToggleHelp));
    assert_eq!(parse("#", false), Some(KeyboardCommand::Delete));
    assert_eq!(parse("/", false), Some(KeyboardCommand::FocusSearch));
}

#[test]
fn ctrl_or_meta_swallows_everything_except_palette() {
    // Ctrl+C / Cmd+R should reach the OS, not us — every modified
    // keystroke except `k` (palette toggle) passes through.
    for key in ["c", "e", "r", "a", "f", "j", "n", "Escape", "?", "#", "/"] {
        assert_eq!(
            parse(key, true),
            None,
            "Ctrl/Cmd+{key} must not produce a KeyboardCommand"
        );
    }
}

#[test]
fn parses_n_for_next_unread() {
    assert_eq!(parse("n", false), Some(KeyboardCommand::NextUnread));
}

#[test]
fn ctrl_or_meta_k_toggles_palette() {
    assert_eq!(parse("k", true), Some(KeyboardCommand::TogglePalette));
    assert_eq!(parse("K", true), Some(KeyboardCommand::TogglePalette));
    // Unmodified `k` still navigates messages.
    assert_eq!(parse("k", false), Some(KeyboardCommand::PrevMessage));
}

#[test]
fn parses_j_k_navigation() {
    assert_eq!(parse("j", false), Some(KeyboardCommand::NextMessage));
    assert_eq!(parse("k", false), Some(KeyboardCommand::PrevMessage));
}

#[test]
fn unknown_keys_yield_none() {
    for key in ["x", "z", "Enter", "Tab", "ArrowUp", " "] {
        assert_eq!(parse(key, false), None, "{key} should not be ours");
    }
}

#[test]
fn n_is_claimed_for_next_unread() {
    // Sanity: `n` is in our keymap so it doesn't fall through
    // to the unknown-keys list above.
    assert!(parse("n", false).is_some());
}

#[test]
fn uppercase_letters_do_not_match() {
    // Caps-lock or Shift+letter sends the uppercase form. We don't
    // claim any uppercase shortcuts in v0.1; falling through to
    // None lets the user type capitals into a focused field with
    // no surprise side effect even if `is_typing` misses the
    // focus check for some reason.
    assert_eq!(parse("C", false), None);
    assert_eq!(parse("E", false), None);
}
