//! Dates, folder names, flags and what is selected after a move.
use chrono::{DateTime, TimeZone, Utc};
use qsl_desktop::calendar;
use qsl_desktop::display::{
    display_name_for_folder, display_name_for_folder_with_role, flag_glyph, is_drop_blocked,
    next_selection_after_move,
};
use qsl_desktop::model::{FolderRole, MessageFlags, MessageId};

fn at(y: i32, m: u32, d: u32, hh: u32, mm: u32) -> DateTime<Utc> {
    Utc.with_ymd_and_hms(y, m, d, hh, mm, 0).unwrap()
}

fn format_relative_date(sent: DateTime<Utc>, now: DateTime<Utc>) -> String {
    calendar::format_relative_date(sent.timestamp(), now.timestamp())
}

#[test]
fn same_day_uses_hh_mm() {
    let now = at(2026, 4, 25, 14, 0);
    let sent = at(2026, 4, 25, 9, 30);
    // Format depends on the test runner's local TZ; we assert
    // shape rather than exact string.
    let out = format_relative_date(sent, now);
    assert_eq!(out.len(), 5, "expected HH:MM, got {out:?}");
    assert!(out.chars().nth(2) == Some(':'), "got {out:?}");
}

#[test]
fn yesterday_renders_as_yest() {
    let now = at(2026, 4, 25, 14, 0);
    let sent = now - chrono::Duration::days(1);
    assert_eq!(format_relative_date(sent, now), "yest");
}

#[test]
fn two_through_six_days_ago_uses_weekday() {
    let now = at(2026, 4, 25, 14, 0);
    for days in 2..=6 {
        let sent = now - chrono::Duration::days(days);
        let out = format_relative_date(sent, now);
        assert_eq!(
            out.len(),
            3,
            "expected three-letter weekday for d={days}, got {out:?}"
        );
    }
}

#[test]
fn earlier_this_year_uses_month_day() {
    let now = at(2026, 4, 25, 14, 0);
    let sent = at(2026, 1, 3, 9, 0);
    // `%b %-d` → e.g. "Jan 3". Allow a leading-zero variant too
    // in case the platform's strftime ignores `%-d`.
    let out = format_relative_date(sent, now);
    assert!(
        out.starts_with("Jan ") && (out.ends_with(" 3") || out.ends_with(" 03")),
        "got {out:?}"
    );
}

#[test]
fn last_year_or_older_uses_two_digit_year_with_apostrophe() {
    let now = at(2026, 4, 25, 14, 0);
    let sent = at(2024, 12, 8, 9, 0);
    assert_eq!(format_relative_date(sent, now), "Dec '24");
    let earlier = at(2025, 3, 15, 9, 0);
    assert_eq!(format_relative_date(earlier, now), "Mar '25");
}

#[test]
fn flag_glyph_precedence_draft_wins() {
    let f = MessageFlags {
        draft: true,
        flagged: true,
        answered: true,
        ..Default::default()
    };
    assert_eq!(flag_glyph(&f), ("D", "msg-flag-draft"));
}

#[test]
fn flag_glyph_flagged_beats_replied_and_unread() {
    let f = MessageFlags {
        flagged: true,
        answered: true,
        seen: false,
        ..Default::default()
    };
    assert_eq!(flag_glyph(&f), ("F", "msg-flag-flagged"));
}

#[test]
fn flag_glyph_replied_beats_unread() {
    let f = MessageFlags {
        answered: true,
        seen: false,
        ..Default::default()
    };
    assert_eq!(flag_glyph(&f), ("R", "msg-flag-replied"));
}

#[test]
fn flag_glyph_unread_when_unseen() {
    // `seen` defaults to false; everything else default → "unread".
    let f = MessageFlags::default();
    assert_eq!(flag_glyph(&f), ("!", "msg-flag-unread"));
}

#[test]
fn flag_glyph_read_dot_when_seen() {
    let f = MessageFlags {
        seen: true,
        ..Default::default()
    };
    assert_eq!(flag_glyph(&f), ("·", "msg-flag-read"));
}

#[test]
fn display_name_uppercases_inbox() {
    assert_eq!(display_name_for_folder("INBOX"), "Inbox");
    assert_eq!(display_name_for_folder("inbox"), "Inbox");
    assert_eq!(display_name_for_folder("Inbox"), "Inbox");
}

#[test]
fn display_name_remaps_junk_variants_to_spam() {
    assert_eq!(display_name_for_folder("Junk"), "Spam");
    assert_eq!(display_name_for_folder("Junk E-mail"), "Spam");
    assert_eq!(display_name_for_folder("Junk Email"), "Spam");
    assert_eq!(display_name_for_folder("JUNK"), "Spam");
}

#[test]
fn display_name_passes_through_other_names() {
    // Gmail-style leaf names are already presentable.
    assert_eq!(display_name_for_folder("Sent Mail"), "Sent Mail");
    assert_eq!(display_name_for_folder("All Mail"), "All Mail");
    assert_eq!(display_name_for_folder("Drafts"), "Drafts");
    assert_eq!(display_name_for_folder("Newsletters"), "Newsletters");
    // Unknown / user-defined names too.
    assert_eq!(display_name_for_folder("Receipts/2026"), "Receipts/2026");
}

#[test]
fn display_name_with_role_canonicalizes_unfriendly_names() {
    // Self-hosted IMAP / Microsoft 365 conventions: ALL CAPS leaf
    // names with a SPECIAL-USE role attached. Map to canonical.
    assert_eq!(
        display_name_for_folder_with_role("DRAFTS", Some(&FolderRole::Drafts)),
        "Drafts"
    );
    assert_eq!(
        display_name_for_folder_with_role("SENT", Some(&FolderRole::Sent)),
        "Sent"
    );
    assert_eq!(
        display_name_for_folder_with_role("TRASH", Some(&FolderRole::Trash)),
        "Trash"
    );
    // INBOX always maps to Inbox even with no role attached
    // (IMAP RFC 3501 §5.1 mandate).
    assert_eq!(
        display_name_for_folder_with_role("INBOX", Some(&FolderRole::Inbox)),
        "Inbox"
    );
    assert_eq!(display_name_for_folder_with_role("INBOX", None), "Inbox");
}

#[test]
fn display_name_with_role_keeps_friendly_server_names() {
    // Gmail / Fastmail return mixed-case display names that the
    // user already recognizes from the official client. Don't
    // override even when a role is set.
    assert_eq!(
        display_name_for_folder_with_role("Sent Mail", Some(&FolderRole::Sent)),
        "Sent Mail"
    );
    assert_eq!(
        display_name_for_folder_with_role("All Mail", Some(&FolderRole::All)),
        "All Mail"
    );
    assert_eq!(
        display_name_for_folder_with_role("Drafts", Some(&FolderRole::Drafts)),
        "Drafts"
    );
    // User-defined folders pass through.
    assert_eq!(
        display_name_for_folder_with_role("Receipts/2026", None),
        "Receipts/2026"
    );
}

fn mid(s: &str) -> MessageId {
    MessageId(s.to_string())
}

#[test]
fn next_after_move_picks_next_visible() {
    let visible = vec![mid("a"), mid("b"), mid("c"), mid("d")];
    let cur = mid("b");
    let moved = vec![mid("b")];
    assert_eq!(
        next_selection_after_move(&visible, Some(&cur), &moved),
        Some(mid("c"))
    );
}

#[test]
fn next_after_move_skips_other_moved() {
    let visible = vec![mid("a"), mid("b"), mid("c"), mid("d")];
    let cur = mid("b");
    let moved = vec![mid("b"), mid("c")];
    assert_eq!(
        next_selection_after_move(&visible, Some(&cur), &moved),
        Some(mid("d"))
    );
}

#[test]
fn next_after_move_falls_back_to_previous_at_end() {
    let visible = vec![mid("a"), mid("b"), mid("c")];
    let cur = mid("c");
    let moved = vec![mid("c")];
    assert_eq!(
        next_selection_after_move(&visible, Some(&cur), &moved),
        Some(mid("b"))
    );
}

#[test]
fn next_after_move_returns_none_when_list_empties() {
    let visible = vec![mid("a"), mid("b")];
    let cur = mid("a");
    let moved = vec![mid("a"), mid("b")];
    assert_eq!(
        next_selection_after_move(&visible, Some(&cur), &moved),
        None
    );
}

#[test]
fn next_after_move_handles_missing_current() {
    let visible = vec![mid("a"), mid("b")];
    assert_eq!(next_selection_after_move(&visible, None, &[]), None);
    // Selection points at something not in the list (race) → None.
    let stranger = mid("z");
    let moved = vec![mid("z")];
    assert_eq!(
        next_selection_after_move(&visible, Some(&stranger), &moved),
        None
    );
}

#[test]
fn drop_blocked_for_label_view_roles() {
    // Gmail label-views: Important / Flagged / All are read-only
    // from a "move into me" perspective.
    assert!(is_drop_blocked(Some(&FolderRole::Important)));
    assert!(is_drop_blocked(Some(&FolderRole::Flagged)));
    assert!(is_drop_blocked(Some(&FolderRole::All)));
}

#[test]
fn drop_allowed_for_real_folders() {
    // Real mailbox folders: drops should land normally.
    assert!(!is_drop_blocked(Some(&FolderRole::Inbox)));
    assert!(!is_drop_blocked(Some(&FolderRole::Sent)));
    assert!(!is_drop_blocked(Some(&FolderRole::Drafts)));
    assert!(!is_drop_blocked(Some(&FolderRole::Trash)));
    assert!(!is_drop_blocked(Some(&FolderRole::Spam)));
    assert!(!is_drop_blocked(Some(&FolderRole::Archive)));
    // User-defined folders (no role) are always allowed too.
    assert!(!is_drop_blocked(None));
}

#[test]
fn display_name_with_role_falls_back_when_role_missing() {
    // ALL CAPS leaf name without a role tag: we don't know what
    // it should map to, so let the string-based helper do its
    // existing INBOX / Junk handling and pass everything else
    // through untouched.
    assert_eq!(display_name_for_folder_with_role("DRAFTS", None), "DRAFTS");
    assert_eq!(display_name_for_folder_with_role("URGENT", None), "URGENT");
}
