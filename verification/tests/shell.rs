//! The main window: selection, keys, menus, the palette and the panes.
use qsl_desktop::compose::ComposeState;
use qsl_desktop::keyboard::{
    is_typing_target, keystroke_command, palette_shortcut_label, KeyboardCommand,
};
use qsl_desktop::model::{
    Account, AccountId, BackendKind, Folder, FolderId, FolderRole, MessageFlags, MessageHeaders,
    MessageId, SyncEvent,
};
use qsl_desktop::palette::{
    choose_entry, filter_entries, palette_entries, palette_key, AccountFolders, PaletteAction,
    PaletteCommand, PaletteEntry, PaletteKey,
};
use qsl_desktop::reply::ReplyKind;
use qsl_desktop::shell::{
    appearance_change, grid_style, list_title, list_view, pane_width, remember_search,
    root_density, root_theme, root_view, AppearanceChange, ListView, MenuItem, MenuRequest,
    MessageContextMenu, RootView, Selection, Shell, ShellAction, SplitTarget, VisibleMessage,
};
use qsl_desktop::sync_status::{account_chip_label, SyncStatus};

fn mid(s: &str) -> MessageId {
    MessageId(s.to_string())
}

fn fid(s: &str) -> FolderId {
    FolderId(s.to_string())
}

fn headers(id: &str) -> MessageHeaders {
    MessageHeaders {
        id: mid(id),
        account_id: AccountId("a".into()),
        folder_id: fid("f"),
        thread_id: None,
        rfc822_message_id: None,
        in_reply_to: None,
        references: vec![],
        from: vec![],
        reply_to: vec![],
        to: vec![],
        cc: vec![],
        bcc: vec![],
        subject: String::new(),
        snippet: String::new(),
        date: 0,
        flags: MessageFlags::default(),
        labels: vec![],
        size: 0,
        has_attachments: false,
    }
}

fn folder(id: &str, name: &str, role: Option<FolderRole>) -> Folder {
    Folder {
        id: fid(id),
        account_id: AccountId("a".into()),
        name: name.to_string(),
        path: name.to_string(),
        role,
        unread_count: 0,
        total_count: 0,
        parent: None,
    }
}

fn account(id: &str, email: &str) -> Account {
    Account {
        id: AccountId(id.to_string()),
        kind: BackendKind::ImapSmtp,
        display_name: email.to_string(),
        email_address: email.to_string(),
        created_at: 0,
        signature: None,
        notify_enabled: true,
    }
}

fn shell_with(ids: &[(&str, bool)]) -> Shell {
    let mut s = Shell::new();
    s.visible =
        ids.iter().map(|(i, unread)| VisibleMessage { id: mid(i), unread: *unread }).collect();
    s
}

#[test]
fn the_selection_follows_clicks() {
    let mut s = Selection::default();
    s.preselect_inbox(&AccountId("a".into()), &vec![folder("x", "X", None)]);
    assert_eq!(s.folder, None);
    let all = vec![folder("x", "X", None), folder("in", "INBOX", Some(FolderRole::Inbox))];
    s.preselect_inbox(&AccountId("a".into()), &all);
    assert_eq!(s.folder, Some(fid("in")));
    s.preselect(&vec![headers("m1"), headers("m2")]);
    assert_eq!(s.message, Some(mid("m1")));
    s.open_message(mid("m2"));
    s.preselect(&vec![headers("m1")]);
    assert_eq!(s.message, Some(mid("m2")));
    s.open_folder(AccountId("b".into()), fid("y"));
    assert_eq!((s.folder, s.message, s.unified), (Some(fid("y")), None, false));
}

#[test]
fn next_and_previous_wrap_around() {
    let mut s = shell_with(&[("1", false), ("2", true), ("3", false)]);
    assert_eq!(s.dispatch(KeyboardCommand::NextMessage), ShellAction::Nothing);
    assert_eq!(s.selection.message, Some(mid("1")));
    s.dispatch(KeyboardCommand::PrevMessage);
    assert_eq!(s.selection.message, Some(mid("3")));
    s.dispatch(KeyboardCommand::NextMessage);
    assert_eq!(s.selection.message, Some(mid("1")));
}

#[test]
fn next_and_previous_undo_each_other() {
    let mut s = shell_with(&[("1", false), ("2", true), ("3", false)]);
    s.selection.message = Some(mid("2"));
    s.dispatch(KeyboardCommand::NextMessage);
    s.dispatch(KeyboardCommand::PrevMessage);
    assert_eq!(s.selection.message, Some(mid("2")));
}

#[test]
fn unread_messages_are_found() {
    let mut s = shell_with(&[("1", true), ("2", false), ("3", false)]);
    s.selection.message = Some(mid("2"));
    s.dispatch(KeyboardCommand::NextUnread);
    assert_eq!(s.selection.message, Some(mid("1")));
    let mut t = shell_with(&[("1", false)]);
    t.dispatch(KeyboardCommand::NextUnread);
    assert_eq!(t.selection.message, None);
}

#[test]
fn cancel_undoes_one_layer_at_a_time() {
    let mut s = Shell::new();
    s.undo_send_pending = Some(5);
    s.context_menu = Some(MessageContextMenu { message_id: mid("m"), is_unread: true });
    s.palette_visible = true;
    s.help_visible = true;
    s.compose = Some(ComposeState { default_account: None, draft_id: None });
    s.search_query = " mail ".into();
    s.selection.message = Some(mid("m"));
    s.dispatch(KeyboardCommand::Cancel);
    assert_eq!(s.undo_send_pending, None);
    assert!(s.compose.is_some() && s.context_menu.is_some());
    s.dispatch(KeyboardCommand::Cancel);
    assert!(s.context_menu.is_none() && s.palette_visible);
    s.dispatch(KeyboardCommand::Cancel);
    assert!(!s.palette_visible && s.help_visible);
    s.dispatch(KeyboardCommand::Cancel);
    assert!(!s.help_visible && s.compose.is_some());
    s.dispatch(KeyboardCommand::Cancel);
    assert!(s.compose.is_none() && s.search_query == " mail ");
    s.dispatch(KeyboardCommand::Cancel);
    assert_eq!(s.search_query, "");
    assert_eq!(s.recent_searches, vec!["mail".to_string()]);
    assert_eq!(s.selection.message, Some(mid("m")));
    s.dispatch(KeyboardCommand::Cancel);
    assert_eq!(s.selection.message, None);
}

#[test]
fn keys_ask_for_what_the_selection_allows() {
    let mut s = Shell::new();
    assert_eq!(s.dispatch(KeyboardCommand::Archive), ShellAction::Nothing);
    assert_eq!(s.dispatch(KeyboardCommand::FocusSearch), ShellAction::FocusSearch);
    s.selection.message = Some(mid("m"));
    assert_eq!(s.dispatch(KeyboardCommand::Archive), ShellAction::Archive(mid("m")));
    assert_eq!(s.dispatch(KeyboardCommand::Delete), ShellAction::Delete(mid("m")));
    assert_eq!(
        s.dispatch(KeyboardCommand::ReplyAll),
        ShellAction::Answer(mid("m"), ReplyKind::ReplyAll)
    );
    assert_eq!(
        s.dispatch(KeyboardCommand::Forward),
        ShellAction::Answer(mid("m"), ReplyKind::Forward)
    );
    s.selected_message_gone();
    assert_eq!((s.selection.message.clone(), s.sync_tick), (None, 1));
    s.selection.message = Some(mid("m"));
    s.message_gone(&mid("other"));
    assert_eq!((s.selection.message.clone(), s.sync_tick), (Some(mid("m")), 2));
    s.message_gone(&mid("m"));
    assert_eq!((s.selection.message.clone(), s.sync_tick), (None, 3));
    s.refresh();
    assert_eq!(s.sync_tick, 4);
}

#[test]
fn a_menu_entry_is_about_its_message() {
    let open = |s: &mut Shell| {
        s.context_menu = Some(MessageContextMenu { message_id: mid("m"), is_unread: true });
    };
    let mut s = Shell::new();
    assert_eq!(s.choose_menu_item(MenuItem::Delete), None);
    open(&mut s);
    assert_eq!(s.context_menu.as_ref().unwrap().toggle(), ("Mark as read", true));
    assert_eq!(
        s.choose_menu_item(MenuItem::ToggleRead),
        Some(MenuRequest::MarkRead(mid("m"), true))
    );
    assert_eq!(s.context_menu, None);
    open(&mut s);
    assert_eq!(
        s.choose_menu_item(MenuItem::ReplyAll),
        Some(MenuRequest::Answer(mid("m"), ReplyKind::ReplyAll))
    );
    open(&mut s);
    assert_eq!(s.choose_menu_item(MenuItem::Archive), Some(MenuRequest::Archive(mid("m"))));
    open(&mut s);
    assert_eq!(
        s.choose_menu_item(MenuItem::OpenInWindow),
        Some(MenuRequest::OpenInWindow(mid("m")))
    );
}

#[test]
fn escape_clears_the_search() {
    let mut s = Shell::new();
    s.search("ann".into());
    assert!(!s.search_key("a"));
    assert_eq!(s.search_query, "ann");
    assert!(s.search_key("Escape"));
    assert_eq!(s.search_query, "");
    assert_eq!(s.recent_searches, vec!["ann".to_string()]);
}

#[test]
fn recent_searches_are_few_and_differ() {
    let mut list: Vec<String> = vec![];
    for i in 0..10 {
        list = remember_search(&list, &format!("q{i}"));
    }
    assert_eq!(list.len(), 8);
    list = remember_search(&list, &"q5".to_string());
    assert_eq!(list[0], "q5");
    assert_eq!(list.iter().filter(|q| *q == "q5").count(), 1);
    assert_eq!(list.len(), 8);
}

#[test]
fn the_surface_hides_behind_compose_and_palette() {
    let mut s = Shell::new();
    assert!(!s.surface_shown());
    s.selection.message = Some(mid("m"));
    assert!(s.surface_shown());
    s.palette_visible = true;
    assert!(!s.surface_shown());
    s.palette_visible = false;
    s.compose = Some(ComposeState { default_account: None, draft_id: None });
    assert!(!s.surface_shown());
}

#[test]
fn a_sync_report_touches_its_folder_only() {
    let mut s = Shell::new();
    s.sync_reported(Some(SyncEvent::FolderError {
        account: AccountId("a".into()),
        folder: fid("imap:INBOX"),
        error: "timeout".into(),
    }));
    assert_eq!(s.folder_tokens.get(&fid("imap:INBOX")), 1);
    assert_eq!(s.folder_tokens.get(&fid("imap:Sent")), 0);
    assert_eq!(s.sync_tick, 1);
    assert_eq!(
        s.status.bar(),
        ("status-dot error", "Sync failed: INBOX — timeout".to_string())
    );
    s.sync_reported(None);
    assert_eq!(s.sync_tick, 2);
    assert_eq!(s.folder_tokens.get(&fid("imap:INBOX")), 1);
}

#[test]
fn the_status_bar_counts_messages() {
    let synced = |added: u32, updated: u32, live: bool| {
        SyncStatus::Synced { folder: "INBOX".into(), added, updated, live }.bar().1
    };
    assert_eq!(SyncStatus::Initializing.bar(), ("status-dot working", "Initializing…".into()));
    assert_eq!(synced(0, 0, true), "Synced INBOX");
    assert_eq!(synced(2, 0, true), "Synced INBOX · 2 new");
    assert_eq!(synced(0, 3, false), "Loaded INBOX · 3 updated");
    assert_eq!(synced(2, 3, true), "Synced INBOX · 2 new · 3 updated");
}

#[test]
fn the_account_chip_names_the_filter() {
    let all = Some(vec![account("gmail:me@x", "me@x")]);
    assert_eq!(account_chip_label(&None, &all), "all accounts");
    assert_eq!(account_chip_label(&None, &Some(vec![])), "no accounts");
    assert_eq!(account_chip_label(&Some(AccountId("gmail:me@x".into())), &all), "me@x");
    assert_eq!(account_chip_label(&Some(AccountId("other".into())), &all), "other");
    assert_eq!(account_chip_label(&Some(AccountId("other".into())), &None), "other");
}

#[test]
fn each_window_shows_its_view() {
    assert_eq!(root_view(Some("m".into()), Some("settings".into())), RootView::Reader(mid("m")));
    assert_eq!(root_view(None, Some("settings".into())), RootView::Settings);
    assert_eq!(root_view(None, Some("oauth-add".into())), RootView::OAuthAdd);
    assert_eq!(root_view(None, Some("other".into())), RootView::Main);
    assert_eq!(root_view(None, None), RootView::Main);
}

#[test]
fn the_list_pane_shows_search_before_folders() {
    let mut s = Selection::default();
    assert_eq!(list_view(&s, &String::new()), ListView::Empty);
    s.folder = Some(fid("acct:INBOX"));
    let v = list_view(&s, &String::new());
    assert_eq!(v, ListView::Folder(fid("acct:INBOX")));
    s.unified = true;
    assert_eq!(list_title(&list_view(&s, &String::new())).as_deref(), Some("Unified Inbox"));
    let q = list_view(&s, &"ann".to_string());
    assert_eq!(list_title(&q).as_deref(), Some("Search: ann"));
    assert_eq!(list_title(&ListView::Empty), None);
    assert_eq!(list_title(&v).as_deref(), Some("Inbox"));
}

#[test]
fn panes_stay_within_their_bounds() {
    assert_eq!(pane_width(SplitTarget::Sidebar, -5), 160);
    assert_eq!(pane_width(SplitTarget::Sidebar, 300), 300);
    assert_eq!(pane_width(SplitTarget::Sidebar, 9_999), 480);
    assert_eq!(pane_width(SplitTarget::List, 0), 220);
    assert_eq!(pane_width(SplitTarget::List, 721), 720);
    assert_eq!(grid_style(220, 360), "grid-template-columns: 220px 5px 360px 5px 1fr;");
}

#[test]
fn appearance_follows_the_settings() {
    assert_eq!(root_theme(&Some("dark".into())), "dark");
    assert_eq!(root_theme(&Some("neon".into())), "system");
    assert_eq!(root_density(&Some("compact".into())), "compact");
    assert_eq!(root_density(&None), "comfortable");
    assert_eq!(
        appearance_change("appearance.theme", "light".into()),
        AppearanceChange::Theme("light")
    );
    assert_eq!(
        appearance_change("appearance.density", "compact".into()),
        AppearanceChange::Density("compact")
    );
    assert_eq!(appearance_change("other", "dark".into()), AppearanceChange::Nothing);
}

#[test]
fn keys_are_left_to_fields() {
    assert!(is_typing_target("INPUT", None));
    assert!(is_typing_target("DIV", Some("true")));
    assert!(!is_typing_target("DIV", None));
    assert_eq!(keystroke_command("c", false, false, false), Some(KeyboardCommand::Compose));
    assert_eq!(keystroke_command("c", false, true, false), None);
    assert_eq!(keystroke_command("Escape", false, true, true), Some(KeyboardCommand::Cancel));
    assert_eq!(palette_shortcut_label("MacIntel", ""), "⌘K");
    assert_eq!(palette_shortcut_label("Linux x86_64", "X11"), "Ctrl K");
}

#[test]
fn the_palette_offers_commands_folders_and_searches() {
    let groups = vec![AccountFolders {
        account: account("gmail:me@x", "me@x"),
        folders: vec![folder("gmail:INBOX", "INBOX", Some(FolderRole::Inbox))],
    }];
    let all = palette_entries(&groups, &vec!["ann".to_string()]);
    assert_eq!(all.len(), 7);
    assert_eq!(all[5].kind_label(), "jump");
    assert_eq!(all[5].primary_label(), "Inbox");
    assert_eq!(all[5].secondary_label().as_deref(), Some("me@x"));
    assert_eq!(all[5].search_text(), "Inbox me@x");
    assert_eq!(all[6].kind_label(), "recent");
    let found = filter_entries(palette_entries(&groups, &vec![]), "SETTINGS");
    assert_eq!(found, vec![PaletteEntry::Command(PaletteCommand::OpenSettings)]);
    let umlaut = vec![PaletteEntry::RecentSearch("ÄRGER".into())];
    assert_eq!(filter_entries(umlaut, "ärger").len(), 1);
}

#[test]
fn palette_keys_move_and_choose() {
    assert_eq!(palette_key("Escape", 0, 0), PaletteKey::Close);
    assert_eq!(palette_key("ArrowDown", 2, 3), PaletteKey::Highlight(0));
    assert_eq!(palette_key("ArrowUp", 0, 3), PaletteKey::Highlight(2));
    assert_eq!(palette_key("Enter", 9, 3), PaletteKey::Choose(2));
    assert_eq!(palette_key("Enter", 0, 0), PaletteKey::Swallowed);
    assert_eq!(palette_key("x", 0, 3), PaletteKey::Ignored);
}

#[test]
fn a_chosen_palette_entry_is_carried_out() {
    let mut s = Shell::new();
    s.palette_visible = true;
    s.selection.message = Some(mid("m"));
    let entry = PaletteEntry::Folder {
        account_id: AccountId("a".into()),
        folder_id: fid("f"),
        folder_label: "F".into(),
        account_label: "me@x".into(),
    };
    assert_eq!(choose_entry(&mut s, entry), PaletteAction::Nothing);
    assert!(!s.palette_visible);
    assert_eq!((s.selection.folder.clone(), s.selection.message.clone()), (Some(fid("f")), None));
    assert_eq!(
        choose_entry(&mut s, PaletteEntry::Command(PaletteCommand::AddAccount)),
        PaletteAction::AddAccount
    );
    choose_entry(&mut s, PaletteEntry::Command(PaletteCommand::Compose));
    assert_eq!(s.compose.as_ref().unwrap().default_account, Some(AccountId("a".into())));
    choose_entry(&mut s, PaletteEntry::RecentSearch("ann".into()));
    assert_eq!(s.search_query, "ann");
}
