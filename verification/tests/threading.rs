//! Conversations in a message list.
use qsl_desktop::model::{
    AccountId, EmailAddress, FolderId, MessageFlags, MessageHeaders, MessageId, ThreadId,
};
use qsl_desktop::threading::{group_by_thread, MessageListItem};

fn header(id: &str, thread: Option<&str>, secs_since_epoch: i64) -> MessageHeaders {
    MessageHeaders {
        id: MessageId(id.into()),
        account_id: AccountId("acct".into()),
        folder_id: FolderId("INBOX".into()),
        thread_id: thread.map(|t| ThreadId(t.into())),
        rfc822_message_id: None,
        in_reply_to: None,
        references: vec![],
        from: vec![EmailAddress {
            address: "alice@example.com".into(),
            display_name: Some("Alice".into()),
        }],
        to: vec![],
        cc: vec![],
        bcc: vec![],
        reply_to: vec![],
        subject: format!("Subject {id}"),
        snippet: String::new(),
        date: secs_since_epoch,
        flags: MessageFlags::default(),
        labels: vec![],
        size: 0,
        has_attachments: false,
    }
}

#[test]
fn empty_input_yields_empty_output() {
    let groups = group_by_thread(vec![]);
    assert!(groups.is_empty());
}

#[test]
fn singletons_stay_single() {
    let msgs = vec![
        header("m1", None, 100),
        header("m2", Some("t2"), 90),
        header("m3", None, 80),
    ];
    let groups = group_by_thread(msgs);
    assert_eq!(groups.len(), 3);
    for g in &groups {
        assert!(
            matches!(g, MessageListItem::Single(_)),
            "expected all singletons, got {g:?}"
        );
    }
}

#[test]
fn adjacent_same_thread_collapses() {
    let msgs = vec![
        header("m1", Some("t1"), 100),
        header("m2", Some("t1"), 90),
        header("m3", Some("t1"), 80),
        header("m4", Some("t2"), 70),
    ];
    let groups = group_by_thread(msgs);
    assert_eq!(groups.len(), 2);
    match &groups[0] {
        MessageListItem::Thread { head, members } => {
            assert_eq!(head.id.0, "m1", "head should be the newest (first) member");
            assert_eq!(members.len(), 3);
            assert_eq!(members[0].id.0, "m1");
            assert_eq!(members[1].id.0, "m2");
            assert_eq!(members[2].id.0, "m3");
        }
        other => panic!("expected Thread, got {other:?}"),
    }
    assert!(matches!(groups[1], MessageListItem::Single(_)));
}

#[test]
fn non_adjacent_same_thread_does_not_join() {
    let msgs = vec![
        header("m1", Some("t1"), 100),
        header("m2", Some("t2"), 90),
        header("m3", Some("t1"), 80),
    ];
    let groups = group_by_thread(msgs);
    assert_eq!(
        groups.len(),
        3,
        "t1 split by t2 should produce three singletons, not be re-joined"
    );
}

#[test]
fn consecutive_nones_remain_separate() {
    // Two messages with no thread_id are NOT a thread — `None`
    // breaks the run on both sides.
    let msgs = vec![header("m1", None, 100), header("m2", None, 90)];
    let groups = group_by_thread(msgs);
    assert_eq!(groups.len(), 2);
    for g in &groups {
        assert!(matches!(g, MessageListItem::Single(_)));
    }
}

#[test]
fn single_thread_member_still_emits_single() {
    // A run of length 1 against a different next thread must come
    // out as Single, not as a one-member Thread.
    let msgs = vec![
        header("m1", Some("t1"), 100),
        header("m2", Some("t2"), 90),
        header("m3", Some("t2"), 80),
    ];
    let groups = group_by_thread(msgs);
    assert_eq!(groups.len(), 2);
    assert!(matches!(groups[0], MessageListItem::Single(_)));
    assert!(matches!(groups[1], MessageListItem::Thread { .. }));
}
