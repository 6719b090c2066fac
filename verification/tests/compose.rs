//! The compose pane, address lines and drafts.
use qsl_desktop::addresses::{
    active_segment, format_addrs, format_contact, parse_addrs, replace_active_segment,
    try_parse_addrs,
};
use qsl_desktop::autocomplete::{
    contacts_query, line_with_contact, prefix_to_look_up, FieldKey, Suggestions,
};
use qsl_desktop::compose::{
    account_option_label, compose_signature_key, countdown_seconds, hold_seconds, hold_step,
    is_send_key, undo_deadline, ComposeForm, ComposeState, Field, HoldStep, SaveStatus, SendStart,
};
use qsl_desktop::drafts::{draft_upload, saved_draft, wants_upload};
use qsl_desktop::inputs::ContactsQueryInput;
use qsl_desktop::model::{
    Account, AccountId, BackendKind, Contact, Draft, DraftAttachment, DraftBodyKind, DraftId,
    DraftInput, EmailAddress,
};

fn address(name: Option<&str>, email: &str) -> EmailAddress {
    EmailAddress { address: email.to_string(), display_name: name.map(str::to_string) }
}

fn contact(name: Option<&str>, email: &str) -> Contact {
    Contact {
        address: email.to_string(),
        display_name: name.map(str::to_string),
        last_seen_at: 0,
        seen_count: 1,
    }
}

fn attachment(path: &str) -> DraftAttachment {
    DraftAttachment {
        path: path.to_string(),
        filename: path.to_string(),
        mime_type: "text/plain".to_string(),
        size_bytes: 3,
        inline: false,
    }
}

fn draft() -> Draft {
    Draft {
        id: DraftId("d1".into()),
        account_id: AccountId("gmail:me@x".into()),
        in_reply_to: Some("<a@x>".into()),
        references: vec!["<a@x>".into()],
        to: vec![address(Some("Ann"), "ann@x")],
        cc: vec![],
        bcc: vec![address(None, "bob@x")],
        subject: "Hi".into(),
        body: "text".into(),
        body_kind: DraftBodyKind::Markdown,
        attachments: vec![attachment("/tmp/a")],
        created_at: 1,
        updated_at: 2,
    }
}

fn empty_form() -> ComposeForm {
    ComposeForm::open(&ComposeState {
        default_account: Some(AccountId("gmail:me@x".into())),
        draft_id: None,
    })
}

fn form_to(to: &str) -> ComposeForm {
    let mut f = empty_form();
    f.edit(Field::To, to.to_string());
    f
}

#[test]
fn a_new_form_is_shown_at_once_and_saves_nothing() {
    let f = empty_form();
    assert!(f.loaded);
    assert_eq!(f.autosave(), None);
    assert_eq!(f.status.label(), ("compose-status muted", String::new()));
    assert_eq!(f.subject_label(), "(no subject)");
}

#[test]
fn a_draft_is_loaded_into_the_form() {
    let mut f = ComposeForm::open(&ComposeState {
        default_account: None,
        draft_id: Some(DraftId("d1".into())),
    });
    assert!(!f.loaded);
    assert_eq!(f.signature_wanted(), None);
    f.hydrate(Ok(draft()));
    assert!(f.loaded && f.bcc_revealed);
    assert_eq!(f.to, "Ann <ann@x>");
    assert_eq!(f.bcc, "bob@x");
    assert_eq!(f.autosave(), None);
    let saved = f.snapshot().unwrap();
    assert_eq!(saved.to, vec![address(None, "ann@x")]);
    assert_eq!(saved.in_reply_to.as_deref(), Some("<a@x>"));
    assert_eq!(saved.body_kind, DraftBodyKind::Plain);
    assert_eq!(saved.attachments, vec![attachment("/tmp/a")]);
}

#[test]
fn a_failed_load_shows_an_empty_form() {
    let mut f = ComposeForm::open(&ComposeState {
        default_account: None,
        draft_id: Some(DraftId("d1".into())),
    });
    f.hydrate(Err("gone".into()));
    assert!(f.loaded);
    assert_eq!(f.body, "");
    f.apply_signature(Some("Me".into()));
    assert_eq!(f.body, "");
}

#[test]
fn a_signature_is_appended_once() {
    let mut f = empty_form();
    assert_eq!(f.signature_wanted().as_deref(), Some("compose.signature.gmail:me@x"));
    f.apply_signature(Some("  ".into()));
    assert_eq!(f.body, "");
    f.apply_signature(Some("Me".into()));
    assert_eq!(f.body, "\n\n-- \nMe");
    f.edit(Field::Body, String::new());
    f.apply_signature(Some("Again".into()));
    assert_eq!(f.body, "");
    assert_eq!(compose_signature_key(&AccountId("a".into())), "compose.signature.a");
}

#[test]
fn edits_are_counted_and_saved() {
    let mut f = form_to("ann@x");
    assert_eq!(f.last_change, 1);
    assert!(f.autosave_is_current(1) && !f.autosave_is_current(0));
    assert_eq!(f.status.label(), ("compose-status dirty", "Unsaved changes".to_string()));
    let d = f.autosave().unwrap();
    assert_eq!(d.id, None);
    assert_eq!(f.manual_save(), Some(d));
    assert_eq!(f.status, SaveStatus::Saving);
    assert!(f.save_answered(Ok(DraftId("d9".into()))));
    assert_eq!(f.discard(), Some(DraftId("d9".into())));
    assert!(!f.save_answered(Err("disk full".into())));
    assert_eq!(
        f.status.label(),
        ("compose-status error", "Save failed: disk full".to_string())
    );
}

#[test]
fn without_an_account_nothing_is_saved() {
    let mut f = form_to("ann@x");
    f.choose_account(String::new());
    assert_eq!(f.manual_save(), None);
    assert_eq!(f.status, SaveStatus::Dirty);
    assert_eq!(f.start_send(false), SendStart::Ignored);
    f.choose_account("jmap:me@y".into());
    assert_eq!(f.snapshot().unwrap().account_id, AccountId("jmap:me@y".into()));
}

#[test]
fn attachments_come_and_go() {
    let mut f = empty_form();
    f.add_attachments(vec![]);
    assert_eq!(f.last_change, 0);
    f.add_attachments(vec![attachment("/a"), attachment("/b")]);
    f.remove_attachment(0);
    f.remove_attachment(7);
    assert_eq!(f.attachments, vec![attachment("/b")]);
    assert_eq!(f.last_change, 3);
}

#[test]
fn a_message_without_recipients_is_not_sent() {
    let mut f = form_to(" , ;");
    assert_eq!(f.start_send(false), SendStart::Refused);
    assert_eq!(f.status, SaveStatus::Error("Add at least one recipient".into()));
    f.edit(Field::Bcc, "bob@x".into());
    assert_eq!(f.start_send(true), SendStart::Ignored);
    assert_eq!(f.start_send(false), SendStart::Accepted);
}

#[test]
fn sending_saves_first() {
    let mut f = form_to("ann@x");
    let d = f.submit().unwrap();
    assert_eq!(d.to, vec![address(None, "ann@x")]);
    assert!(f.send_in_flight);
    assert_eq!(f.start_send(false), SendStart::Ignored);
    assert_eq!(f.submit_saved(Ok(DraftId("d2".into()))), Some(DraftId("d2".into())));
    assert!(!f.send_answered(Err("offline".into())));
    assert!(!f.send_in_flight);
    assert_eq!(f.status, SaveStatus::Error("Send failed: offline".into()));
    assert!(f.send_answered(Ok(())));
    let mut g = form_to("ann@x");
    let _ = g.submit();
    assert_eq!(g.submit_saved(Err("full".into())), None);
    assert!(!g.send_in_flight);
}

#[test]
fn a_held_send_can_be_cancelled() {
    let mut f = form_to("ann@x");
    assert_eq!(f.cancel_undo_send(None), None);
    assert_eq!(f.status, SaveStatus::Dirty);
    assert_eq!(f.cancel_undo_send(Some(10)), None);
    assert_eq!(f.status, SaveStatus::Idle);
}

#[test]
fn the_undo_window_runs_down() {
    assert_eq!(hold_seconds(&Some("10".into())), 10);
    assert_eq!(hold_seconds(&Some("5".into())), 5);
    assert_eq!(hold_seconds(&Some("30".into())), 30);
    assert_eq!(hold_seconds(&Some("7".into())), 0);
    assert_eq!(hold_seconds(&None), 0);
    assert_eq!(undo_deadline(1_000, 0), None);
    assert_eq!(undo_deadline(1_000, 5), Some(6_000));
    assert_eq!(hold_step(Some(6_000), 6_000, 5_999), HoldStep::Waiting);
    assert_eq!(hold_step(Some(6_000), 6_000, 6_000), HoldStep::Due);
    assert_eq!(hold_step(None, 6_000, 6_000), HoldStep::Dropped);
    assert_eq!(hold_step(Some(9_000), 6_000, 6_000), HoldStep::Dropped);
    assert_eq!(countdown_seconds(6_000, 1_000), 5);
    assert_eq!(countdown_seconds(6_000, 1_001), 5);
    assert_eq!(countdown_seconds(6_000, 5_999), 1);
    assert_eq!(countdown_seconds(6_000, 6_500), 0);
}

#[test]
fn ctrl_enter_sends() {
    assert!(is_send_key("Enter", true));
    assert!(!is_send_key("Enter", false));
    assert!(!is_send_key("a", true));
}

#[test]
fn words_and_characters_are_counted() {
    let mut f = empty_form();
    f.edit(Field::Body, " zwölf  Boxkämpfer\n".into());
    assert_eq!(f.body_counts(), (2, 19));
    let a = Account {
        id: AccountId("a".into()),
        kind: BackendKind::ImapSmtp,
        display_name: "Me".into(),
        email_address: "me@x".into(),
        created_at: 0,
        signature: None,
        notify_enabled: true,
    };
    assert_eq!(account_option_label(&a), "Me — me@x");
}

#[test]
fn address_lines_are_read() {
    assert_eq!(
        parse_addrs(" ann@x ; Bob <bob@x>,, Carl < carl@x > "),
        vec![address(None, "ann@x"), address(None, "bob@x"), address(None, "carl@x")]
    );
    assert_eq!(parse_addrs("half <open"), vec![address(None, "half <open")]);
    assert_eq!(try_parse_addrs("> backwards <"), None);
    assert_eq!(try_parse_addrs("ann@x").unwrap().len(), 1);
    assert!(form_to("ann@x").is_readable());
    assert!(!form_to("> backwards <").is_readable());
}

#[test]
fn written_addresses_are_read_back() {
    let all = vec![address(Some("Ann"), "ann@x"), address(Some(""), "b@x"), address(None, "c@x")];
    let line = format_addrs(&all);
    assert_eq!(line, "Ann <ann@x>, b@x, c@x");
    let back: Vec<String> = parse_addrs(&line).into_iter().map(|a| a.address).collect();
    assert_eq!(back, vec!["ann@x", "b@x", "c@x"]);
}

#[test]
fn the_typed_segment_is_completed() {
    assert_eq!(active_segment("ann@x,  bo"), "bo");
    assert_eq!(prefix_to_look_up("ann@x, b "), None);
    assert_eq!(prefix_to_look_up("ann@x; bo "), Some("bo".to_string()));
    assert_eq!(prefix_to_look_up("éé"), Some("éé".to_string()));
    assert_eq!(replace_active_segment("bo", "bob@x"), "bob@x, ");
    let c = contact(Some("Bob"), "bob@x");
    assert_eq!(format_contact(&c), "Bob <bob@x>");
    let line = line_with_contact("ann@x, bo", &c);
    assert_eq!(line, "ann@x, Bob <bob@x>, ");
    assert_eq!(parse_addrs(&line), vec![address(None, "ann@x"), address(None, "bob@x")]);
}

#[test]
fn suggestions_follow_the_keys() {
    let mut s = Suggestions::new();
    assert_eq!(s.key("Enter"), FieldKey::Ignored);
    s.answered(Ok(vec![contact(None, "a@x"), contact(None, "b@x")]));
    assert!(s.open);
    assert_eq!(s.key("ArrowUp"), FieldKey::Handled);
    assert_eq!(s.highlighted, 1);
    assert_eq!(s.key("ArrowDown"), FieldKey::Handled);
    assert_eq!(s.highlighted, 0);
    assert_eq!(s.key("x"), FieldKey::Ignored);
    assert_eq!(s.key("Tab"), FieldKey::Picked(contact(None, "a@x")));
    assert!(!s.open);
    s.open = true;
    assert_eq!(s.key("Escape"), FieldKey::Handled);
    assert_eq!(s.pick(1), Some(contact(None, "b@x")));
    assert_eq!(s.pick(2), None);
    s.answered(Err("offline".into()));
    assert!(!s.open && s.contacts.is_empty());
    s.clear();
    s.close();
    assert_eq!(s, Suggestions::new());
}

#[test]
fn a_contact_lookup_is_bounded() {
    let ask = |prefix: &str, limit: u32| {
        contacts_query(ContactsQueryInput { prefix: prefix.to_string(), limit })
    };
    assert_eq!(ask("", 5), None);
    assert_eq!(ask("bo", 0).unwrap().limit, 1);
    assert_eq!(ask("bo", 5).unwrap().limit, 5);
    assert_eq!(ask("bo", 500).unwrap().limit, 32);
    assert_eq!(ask("bo", 5).unwrap().prefix, "bo");
}

fn input(id: Option<&str>) -> DraftInput {
    let d = draft();
    DraftInput {
        id: id.map(|s| DraftId(s.to_string())),
        account_id: d.account_id,
        in_reply_to: d.in_reply_to,
        references: d.references,
        to: d.to,
        cc: d.cc,
        bcc: d.bcc,
        subject: d.subject,
        body: d.body,
        body_kind: d.body_kind,
        attachments: d.attachments,
    }
}

#[test]
fn saving_a_draft_again_keeps_when_it_was_made() {
    let first = saved_draft(input(None), None, DraftId("new".into()), 100);
    assert_eq!((first.created_at, first.updated_at), (100, 100));
    assert_eq!(first.id, DraftId("new".into()));
    let again = saved_draft(input(Some("new")), Some(first.created_at), DraftId("x".into()), 200);
    assert_eq!((again.created_at, again.updated_at), (100, 200));
    assert_eq!(again.id, DraftId("new".into()));
    let lost = saved_draft(input(Some("new")), None, DraftId("x".into()), 300);
    assert_eq!((lost.created_at, lost.updated_at), (300, 300));
}

#[test]
fn a_draft_with_recipients_is_copied_to_the_server() {
    let d = draft();
    let up = draft_upload(&d, true, &Some(b"Subject: Hi\r\n".to_vec())).unwrap();
    assert_eq!(up.message.raw_b64, "U3ViamVjdDogSGkNCg==");
    assert_eq!(up.message.reference, "d1");
    assert_eq!(up.dedup_key, "d1");
    assert_eq!(draft_upload(&d, false, &Some(vec![])), None);
    assert_eq!(draft_upload(&d, true, &None), None);
    let mut nobody = draft();
    nobody.to.clear();
    nobody.bcc.clear();
    assert!(!wants_upload(&nobody));
    assert_eq!(draft_upload(&nobody, true, &Some(vec![])), None);
}
