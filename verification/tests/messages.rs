//! Archiving messages and saving attachments.
use qsl_desktop::attachments::{sanitize_attachment_filename, unique_path};
use qsl_desktop::messages::resolve_archive_target;
use qsl_desktop::model::{AccountId, Folder, FolderId, FolderRole};

fn folder(id: &str, role: Option<FolderRole>) -> Folder {
    Folder {
        id: FolderId(id.into()),
        account_id: AccountId("acct".into()),
        name: id.rsplit('/').next().unwrap_or(id).into(),
        path: id.into(),
        role,
        unread_count: 0,
        total_count: 0,
        parent: None,
    }
}

#[test]
fn resolve_archive_target_prefers_archive_role() {
    let folders = vec![
        folder("INBOX", Some(FolderRole::Inbox)),
        folder("Archive", Some(FolderRole::Archive)),
        folder("[Gmail]/All Mail", Some(FolderRole::All)),
    ];
    assert_eq!(
        resolve_archive_target(&folders),
        Some(FolderId("Archive".into())),
    );
}

#[test]
fn resolve_archive_target_falls_back_to_all() {
    let folders = vec![
        folder("INBOX", Some(FolderRole::Inbox)),
        folder("[Gmail]/All Mail", Some(FolderRole::All)),
        folder("[Gmail]/Sent Mail", Some(FolderRole::Sent)),
    ];
    assert_eq!(
        resolve_archive_target(&folders),
        Some(FolderId("[Gmail]/All Mail".into())),
    );
}

#[test]
fn resolve_archive_target_returns_none_without_archive_or_all() {
    let folders = vec![
        folder("INBOX", Some(FolderRole::Inbox)),
        folder("Trash", Some(FolderRole::Trash)),
    ];
    assert_eq!(resolve_archive_target(&folders), None);
}

#[test]
fn sanitize_attachment_filename_strips_path_separators() {
    // Path traversal hardening: `/` → `_`, leading dots trimmed.
    // `../../etc/passwd` becomes `.._.._etc_passwd` after `/` →
    // `_`, then leading dot/whitespace trim drops the leading
    // double-dot for `_.._etc_passwd`.
    assert_eq!(
        sanitize_attachment_filename("../../etc/passwd"),
        "_.._etc_passwd"
    );
}

#[test]
fn sanitize_attachment_filename_strips_backslash_and_colon() {
    assert_eq!(
        sanitize_attachment_filename(r"C:\Windows\evil.exe"),
        "C__Windows_evil.exe"
    );
}

#[test]
fn sanitize_attachment_filename_strips_control_chars() {
    assert_eq!(sanitize_attachment_filename("foo\nbar\tbaz"), "foo_bar_baz");
}

#[test]
fn sanitize_attachment_filename_falls_back_when_empty() {
    assert_eq!(sanitize_attachment_filename(""), "attachment.bin");
    assert_eq!(sanitize_attachment_filename("   .  "), "attachment.bin");
}

fn names(list: &[&str]) -> Vec<String> {
    list.iter().map(|s| s.to_string()).collect()
}

#[test]
fn unique_path_returns_input_when_absent() {
    assert_eq!(unique_path(&names(&[]), "fresh.bin"), "fresh.bin");
}

#[test]
fn unique_path_appends_counter_on_collision() {
    assert_eq!(unique_path(&names(&["doc.pdf"]), "doc.pdf"), "doc (1).pdf");
}

#[test]
fn unique_path_handles_no_extension() {
    assert_eq!(unique_path(&names(&["README"]), "README"), "README (1)");
}
