//! The message list, the sidebar and conversations.
use qsl_desktop::message_list::{
    bulk_request, class_of_row, expanded_members, filter_by_account, header_counts, list_rows,
    message_row, row_subject, shown_sender, thread_hint, thread_row, visible_messages, BulkAction, BulkRequest,
    CheckedMessages, Pager,
};
use qsl_desktop::model::{
    AccountId, EmailAddress, Folder, FolderId, FolderRole, MessageFlags, MessageHeaders, MessageId,
    ThreadId,
};
use qsl_desktop::order::{sort_folders, stable_order, text_less, SortKey};
use qsl_desktop::shell::{ListView, Selection};
use qsl_desktop::sidebar::{
    label_color, sidebar_row, split_mailboxes_labels, with_live_counts, FolderCounts, MailboxIcon,
    RowMark,
};
use qsl_desktop::threading::MessageListItem;

fn header(id: &str, account: &str, seen: bool) -> MessageHeaders {
    MessageHeaders {
        id: MessageId(id.to_string()),
        account_id: AccountId(account.to_string()),
        folder_id: FolderId("f".into()),
        thread_id: None,
        rfc822_message_id: None,
        in_reply_to: None,
        references: vec![],
        from: vec![EmailAddress { address: "ann@x".into(), display_name: Some("Ann".into()) }],
        reply_to: vec![],
        to: vec![],
        cc: vec![],
        bcc: vec![],
        subject: "Hi".into(),
        snippet: "there".into(),
        date: 0,
        flags: MessageFlags { seen, ..MessageFlags::default() },
        labels: vec![],
        size: 0,
        has_attachments: false,
    }
}

fn box_of(id: &str, name: &str, role: Option<FolderRole>, unread: u32) -> Folder {
    Folder {
        id: FolderId(id.to_string()),
        account_id: AccountId("a".into()),
        name: name.to_string(),
        path: name.to_string(),
        role,
        unread_count: unread,
        total_count: 0,
        parent: None,
    }
}

#[test]
fn the_list_can_be_filtered_by_account() {
    let all = vec![header("1", "a", true), header("2", "b", false)];
    assert_eq!(filter_by_account(&all, &None).len(), 2);
    let b = filter_by_account(&all, &Some(AccountId("b".into())));
    assert_eq!(b, vec![header("2", "b", false)]);
    let seen: Vec<bool> = visible_messages(&all).iter().map(|v| v.unread).collect();
    assert_eq!(seen, vec![false, true]);
}

#[test]
fn a_row_shows_its_message() {
    let mut checked = CheckedMessages::new();
    let mut selection = Selection::default();
    let row = message_row(&header("1", "a", false), &selection, &checked);
    assert_eq!(row.class, "msg-row unread");
    assert_eq!(row.from_name, "Ann");
    assert_eq!(row.subject_line, "Hi · there");
    selection.message = Some(MessageId("1".into()));
    checked.check(&MessageId("1".into()));
    let row = message_row(&header("1", "a", true), &selection, &checked);
    assert_eq!(row.class, "msg-row selected");
    assert!(row.checked);
    assert_eq!(class_of_row(false, false, true, true), "msg-row checked unread");
    assert_eq!(row_subject(&String::new(), &String::new()), "(no subject)");
    assert_eq!(shown_sender(&vec![]), "");
    assert_eq!(header_counts(3, 10, 2), "3 of 10 · 2 unread");
}

#[test]
fn a_conversation_is_unread_while_one_message_is() {
    let members = vec![header("1", "a", true), header("2", "a", false)];
    let mut checked = CheckedMessages::new();
    checked.check(&MessageId("1".into()));
    let row = thread_row(&members[0], &members, &Selection::default(), &checked);
    assert_eq!(row.class, "msg-row thread-row unread");
    assert!(!row.checked);
    checked.toggle_all(&members, false);
    let row = thread_row(&members[0], &members, &Selection::default(), &checked);
    assert!(row.checked);
    assert_eq!(expanded_members(&members), vec![header("2", "a", false)]);
    assert_eq!(expanded_members(&vec![]), vec![]);
    assert_eq!(thread_hint(2), "2 messages in thread");
}

#[test]
fn checking_twice_changes_nothing() {
    let mut c = CheckedMessages::new();
    let id = MessageId("1".into());
    c.toggle(&id);
    assert!(c.contains(&id));
    c.toggle(&id);
    assert!(!c.contains(&id));
    assert_eq!(c.len(), 0);
}

#[test]
fn a_conversation_is_checked_as_a_whole() {
    let members = vec![header("1", "a", true), header("2", "a", true)];
    let mut c = CheckedMessages::new();
    c.check(&MessageId("9".into()));
    c.toggle_all(&members, false);
    assert_eq!(c.len(), 3);
    assert_eq!(c.label(), "3 selected");
    c.toggle_all(&members, true);
    assert_eq!(c.to_ids(), vec![MessageId("9".into())]);
    c.uncheck(&MessageId("9".into()));
    c.clear();
    assert_eq!(c.len(), 0);
}

#[test]
fn bulk_actions_reach_the_checked_messages() {
    let mut c = CheckedMessages::new();
    assert_eq!(bulk_request(&c, BulkAction::Archive), None);
    c.check(&MessageId("1".into()));
    c.check(&MessageId("2".into()));
    match bulk_request(&c, BulkAction::MarkUnread) {
        Some(BulkRequest::MarkRead(i)) => {
            assert!(!i.seen);
            assert_eq!(i.ids.len(), 2);
        }
        other => panic!("{other:?}"),
    }
    match bulk_request(&c, BulkAction::MarkRead) {
        Some(BulkRequest::MarkRead(i)) => assert!(i.seen),
        other => panic!("{other:?}"),
    }
    assert!(matches!(bulk_request(&c, BulkAction::Archive), Some(BulkRequest::Archive(_))));
    assert!(matches!(bulk_request(&c, BulkAction::Delete), Some(BulkRequest::Delete(_))));
}

#[test]
fn older_messages_are_loaded_until_there_are_none() {
    let mut p = Pager::new();
    let start = p.limit;
    assert_eq!(p.footer(), "");
    assert!(!p.scrolled(false));
    assert!(p.scrolled(true));
    assert!(!p.scrolled(true));
    assert_eq!(p.footer(), "Loading more…");
    assert!(p.answered(Ok(3)));
    assert_eq!(p.limit, start + 50);
    assert!(p.scrolled(true));
    assert!(!p.answered(Err("offline".into())));
    assert!(p.scrolled(true));
    assert!(!p.answered(Ok(0)));
    assert_eq!(p.footer(), "All older messages loaded.");
    assert!(!p.scrolled(true));
}

#[test]
fn the_sidebar_separates_mailboxes_and_labels() {
    let (mail, labels) = split_mailboxes_labels(vec![
        box_of("1", "zeta", None, 0),
        box_of("2", "Trash", Some(FolderRole::Trash), 0),
        box_of("3", "Alpha", None, 0),
        box_of("4", "INBOX", Some(FolderRole::Inbox), 0),
        box_of("5", "Important", Some(FolderRole::Important), 0),
    ]);
    let ids = |v: &Vec<Folder>| v.iter().map(|f| f.id.0.clone()).collect::<Vec<String>>();
    assert_eq!(ids(&mail), vec!["4", "2"]);
    assert_eq!(ids(&labels), vec!["3", "5", "1"]);
}

#[test]
fn a_sidebar_row_shows_its_folder() {
    let mut s = Selection::default();
    let inbox = box_of("in", "INBOX", Some(FolderRole::Inbox), 3);
    let row = sidebar_row(&inbox, true, &s);
    assert_eq!(row.class, "sidebar-row");
    assert_eq!(row.name, "Inbox");
    assert_eq!(row.mark, RowMark::Icon(MailboxIcon::Tray));
    assert_eq!(row.unread, Some((3, "sidebar-unread-inactive")));
    s.folder = Some(FolderId("in".into()));
    let row = sidebar_row(&inbox, true, &s);
    assert_eq!(row.class, "sidebar-row selected");
    assert_eq!(row.unread, Some((3, "sidebar-unread-active")));
    let label = sidebar_row(&box_of("l", "Work", None, 0), false, &s);
    assert_eq!(label.mark, RowMark::Dot(label_color("Work")));
    assert_eq!(label.unread, None);
}

#[test]
fn a_label_keeps_its_colour() {
    let mut hash: u32 = 5381;
    for b in "Größe".bytes() {
        hash = hash.wrapping_mul(33).wrapping_add(b as u32);
    }
    let palette = ["#D85A30", "#378ADD", "#1D9E75", "#A858C8", "#D8A030", "#30A0C8"];
    assert_eq!(label_color("Größe"), palette[(hash % 6) as usize]);
    assert_eq!(label_color(""), palette[(5381 % 6) as usize]);
}

#[test]
fn live_counts_replace_stored_ones() {
    let folders = vec![box_of("1", "A", None, 9), box_of("2", "B", None, 9)];
    let counts = vec![
        FolderCounts { unread: Some(1), total: Some(5) },
        FolderCounts { unread: None, total: None },
    ];
    let live = with_live_counts(folders, &counts);
    assert_eq!((live[0].unread_count, live[0].total_count), (1, 5));
    assert_eq!((live[1].unread_count, live[1].total_count), (0, 0));
}

#[test]
fn sorting_is_stable() {
    assert!(text_less("a", "b") && !text_less("b", "a") && !text_less("a", "a"));
    assert!(text_less("a", "aa"));
    let keys = vec![
        SortKey { band: 1, text: "x".into() },
        SortKey { band: 0, text: "y".into() },
        SortKey { band: 1, text: "x".into() },
        SortKey { band: 0, text: "b".into() },
    ];
    assert_eq!(stable_order(&keys), vec![3, 1, 0, 2]);
    let folders: Vec<Folder> = (0..4).map(|i| box_of(&i.to_string(), "f", None, 0)).collect();
    let sorted = sort_folders(&folders, &keys);
    assert_eq!(sorted[0].id, FolderId("3".into()));
}

#[test]
fn only_folders_show_conversations() {
    let threaded = |id: &str| {
        let mut h = header(id, "a", true);
        h.thread_id = Some(ThreadId("t".into()));
        h
    };
    let page = || vec![threaded("1"), threaded("2"), header("3", "a", true)];
    let rows = list_rows(&ListView::Folder(FolderId("f".into())), page());
    assert_eq!(rows.len(), 2);
    assert!(matches!(&rows[0], MessageListItem::Thread { members, .. } if members.len() == 2));
    for view in [ListView::Unified, ListView::Search("x".into())] {
        let rows = list_rows(&view, page());
        assert_eq!(rows.len(), 3);
        assert!(matches!(&rows[1], MessageListItem::Single(h) if h.id.0 == "2"));
    }
}
