//! The sync engine.
use qsl_desktop::model::{AccountId, Folder, FolderId, FolderRole};
use qsl_desktop::sync_engine::{prioritize_imap_folders, MAX_IMAP_WATCHERS_PER_ACCOUNT};

fn folder(path: &str, role: Option<FolderRole>) -> Folder {
    Folder {
        id: FolderId(path.to_string()),
        account_id: AccountId("acct".to_string()),
        name: path.to_string(),
        path: path.to_string(),
        role,
        unread_count: 0,
        total_count: 0,
        parent: None,
    }
}

#[test]
fn small_account_keeps_everything_active() {
    let folders = vec![
        folder("INBOX", Some(FolderRole::Inbox)),
        folder("Sent", Some(FolderRole::Sent)),
        folder("user/projects", None),
    ];
    let (active, polled) = prioritize_imap_folders(folders);
    assert_eq!(active.len(), 3);
    assert!(polled.is_empty());
}

#[test]
fn cap_at_max_and_keep_well_known_roles() {
    let mut folders: Vec<Folder> = (0..30)
        .map(|i| folder(&format!("user/{i:02}"), None))
        .collect();
    folders.push(folder("INBOX", Some(FolderRole::Inbox)));
    folders.push(folder("[Gmail]/All Mail", Some(FolderRole::All)));
    folders.push(folder("[Gmail]/Sent Mail", Some(FolderRole::Sent)));
    folders.push(folder("Drafts", Some(FolderRole::Drafts)));

    let (active, polled) = prioritize_imap_folders(folders);

    assert_eq!(active.len(), MAX_IMAP_WATCHERS_PER_ACCOUNT);
    assert_eq!(polled.len(), 30 + 4 - MAX_IMAP_WATCHERS_PER_ACCOUNT);

    // Inbox / All / Sent / Drafts must always make the cut.
    let active_paths: Vec<_> = active.iter().map(|f| f.path.as_str()).collect();
    assert!(active_paths.contains(&"INBOX"));
    assert!(active_paths.contains(&"[Gmail]/All Mail"));
    assert!(active_paths.contains(&"[Gmail]/Sent Mail"));
    assert!(active_paths.contains(&"Drafts"));
}

#[test]
fn untagged_split_is_alphabetical_and_stable() {
    let folders: Vec<Folder> = ["delta", "alpha", "charlie", "bravo"]
        .iter()
        .map(|p| folder(p, None))
        .collect();
    let (active, _) = prioritize_imap_folders(folders);
    let paths: Vec<_> = active.iter().map(|f| f.path.as_str()).collect();
    assert_eq!(paths, vec!["alpha", "bravo", "charlie", "delta"]);
}
