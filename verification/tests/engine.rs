//! Sync, connections, history jobs, the outbox and the tray.
use qsl_desktop::backend::{
    fresh_imap_params, fresh_jmap_params, load_failed, open, provider_slug_from_id, slot_step,
    with_auth_retry, AttemptEnd, DialPlan, LookupError, MailError, RetryStep, Slot, SlotStep,
};
use qsl_desktop::history_sync::{
    compute_start_metrics, driver_start, history_sync_list, row_progress, DriverStart, HistoryJobs,
    HistoryRow, HistoryStatus, JobKey, ProgressGate, ResumeStep, StartMetrics, StartPlan,
};
use qsl_desktop::changes::{archive_groups, ChangeEvent, ChangeKind, ChangeRun, ChangeStep};
use qsl_desktop::messages::{
    archive_target, correspondents, count_new, delete_message, empty_page, fetched_body,
    flag_action, folder_ids, lowest_imap_uid, mark_read, mark_read_action, move_to, not_built, older_limit,
    page_query, render_message, search_page, sender_of, sender_trust, set_flagged, LocalChange,
    MessageRow, ParsedBody, Trust,
};
use qsl_desktop::model::{
    Account, AccountId, BackendKind, Draft, DraftBodyKind, DraftId, EmailAddress, Folder, FolderId,
    FolderRole, IpcErrorKind, MessageFlags, MessageHeaders, MessageId, SyncEvent,
};
use qsl_desktop::outbox::{
    outbox_entries, raw_message, AccountGroups, GroupAction, OutboxPayload,
};
use qsl_desktop::sync_engine::{
    announcement_for, dead_letter, due_folders, folder_outcome, known_folders,
    new_mail_notification, notifications_on, synced_folders, watch_plan, Announcement, BackendEvent, Bootstrap,
    Debouncer, FolderOutcome, SyncReport,
};
use qsl_desktop::table::Table;
use qsl_desktop::tray::{
    click_hides, counted_unread, menu_action, payload_matches_tray_key, tooltip, tray_enabled,
    TrayAction,
};
use qsl_desktop::watcher::{spread_by, Watcher, WatcherAction, WatcherEvent};

fn aid(s: &str) -> AccountId {
    AccountId(s.to_string())
}

fn fid(s: &str) -> FolderId {
    FolderId(s.to_string())
}

fn mid(s: &str) -> MessageId {
    MessageId(s.to_string())
}

fn folder(id: &str, role: Option<FolderRole>) -> Folder {
    Folder {
        id: fid(id),
        account_id: aid("a"),
        name: id.to_string(),
        path: id.to_string(),
        role,
        unread_count: 0,
        total_count: 0,
        parent: None,
    }
}

fn account(id: &str, kind: BackendKind) -> Account {
    Account {
        id: aid(id),
        kind,
        display_name: "Me".into(),
        email_address: "me@x".into(),
        created_at: 0,
        signature: None,
        notify_enabled: true,
    }
}

fn headers(id: &str, seen: bool) -> MessageHeaders {
    MessageHeaders {
        id: mid(id),
        account_id: aid("a"),
        folder_id: fid("in"),
        thread_id: None,
        rfc822_message_id: None,
        in_reply_to: None,
        references: vec![],
        from: vec![EmailAddress { address: "ann@x".into(), display_name: Some("Ann".into()) }],
        reply_to: vec![],
        to: vec![],
        cc: vec![],
        bcc: vec![],
        subject: "Hi".into(),
        snippet: String::new(),
        date: 0,
        flags: MessageFlags { seen, ..MessageFlags::default() },
        labels: vec![],
        size: 0,
        has_attachments: false,
    }
}

#[test]
fn a_kept_connection_is_used_for_half_an_hour() {
    assert_eq!(slot_step(Slot::Absent), SlotStep::Renew);
    assert_eq!(slot_step(Slot::Empty), SlotStep::Share);
    assert_eq!(slot_step(Slot::Filled { age_ms: 1_799_999 }), SlotStep::UseCached);
    assert_eq!(slot_step(Slot::Filled { age_ms: 1_800_000 }), SlotStep::Renew);
}

#[test]
fn refused_credentials_are_renewed_once() {
    assert_eq!(with_auth_retry(0, AttemptEnd::AuthFailed), RetryStep::EvictAndRetry);
    assert_eq!(with_auth_retry(1, AttemptEnd::AuthFailed), RetryStep::Finish);
    assert_eq!(with_auth_retry(0, AttemptEnd::Failed), RetryStep::Finish);
    assert_eq!(with_auth_retry(0, AttemptEnd::Succeeded), RetryStep::Finish);
}

#[test]
fn accounts_connect_by_their_provider() {
    let ok = Ok("tok".to_string());
    match open(&account("gmail:me@x", BackendKind::ImapSmtp), true, &ok) {
        Ok(DialPlan::Imap(p)) => {
            assert_eq!((p.host.as_str(), p.port), ("imap.gmail.com", 993));
            assert_eq!((p.email.as_str(), p.access_token.as_str()), ("me@x", "tok"));
        }
        other => panic!("{other:?}"),
    }
    match open(&account("fastmail:me@x", BackendKind::Jmap), true, &ok) {
        Ok(DialPlan::Jmap(p)) => {
            assert_eq!(p.session_url, "https://api.fastmail.com/.well-known/jmap");
        }
        other => panic!("{other:?}"),
    }
    let fails = |a: Account, known: bool, token: &Result<String, String>| {
        open(&a, known, token).unwrap_err()
    };
    assert_eq!(
        fails(account("plain", BackendKind::Jmap), true, &ok),
        MailError::Other("account id plain does not follow `<provider>:<email>`".into())
    );
    assert_eq!(
        fails(account("acme:me@x", BackendKind::Jmap), false, &ok),
        MailError::Other("unknown provider: acme".into())
    );
    assert_eq!(
        fails(account("gmail:me@x", BackendKind::ImapSmtp), true, &Err("expired".into())),
        MailError::Auth("refresh access token: expired".into())
    );
    assert_eq!(
        fails(account("acme:me@x", BackendKind::ImapSmtp), true, &ok),
        MailError::Other("no hardcoded IMAP host for provider acme".into())
    );
    assert_eq!(
        fails(account("acme:me@x", BackendKind::Jmap), true, &ok),
        MailError::Other("no hardcoded JMAP session URL for provider acme".into())
    );
    assert_eq!(
        fails(account("acme:me@x", BackendKind::Other), true, &ok),
        MailError::Other("account acme:me@x uses an unsupported backend kind".into())
    );
}

#[test]
fn watchers_connect_to_their_own_kind() {
    let ok = Ok("tok".to_string());
    let id = aid("gmail:me@x");
    let gmail = Ok(account("gmail:me@x", BackendKind::ImapSmtp));
    let fast = Ok(account("fastmail:me@x", BackendKind::Jmap));
    assert_eq!(fresh_imap_params(&id, &gmail, true, &ok).unwrap().host, "imap.gmail.com");
    assert_eq!(
        fresh_imap_params(&id, &fast, true, &ok).unwrap_err(),
        MailError::Other("account fastmail:me@x is not IMAP-backed; IDLE doesn't apply".into())
    );
    assert_eq!(
        fresh_jmap_params(&id, &gmail, true, &ok).unwrap_err(),
        MailError::Other(
            "account gmail:me@x is not JMAP-backed; EventSource doesn't apply".into()
        )
    );
    assert_eq!(fresh_jmap_params(&id, &fast, true, &ok).unwrap().access_token, "tok");
    assert_eq!(
        fresh_imap_params(&id, &Err(LookupError::NotFound), true, &ok).unwrap_err(),
        MailError::NotFound
    );
    assert_eq!(
        fresh_imap_params(&id, &Err(LookupError::Failed("io".into())), true, &ok).unwrap_err(),
        MailError::Other("loading account gmail:me@x for IDLE: io".into())
    );
    assert_eq!(
        fresh_jmap_params(&id, &Err(LookupError::Failed("io".into())), true, &ok).unwrap_err(),
        MailError::Other("loading account gmail:me@x for JMAP push: io".into())
    );
    assert_eq!(
        load_failed(&id, "io"),
        MailError::Other("loading account gmail:me@x for backend factory: io".into())
    );
    assert_eq!(provider_slug_from_id(&id).as_deref(), Some("gmail"));
    assert_eq!(provider_slug_from_id(&aid("nocolon")), None);
}

fn row(anchor: Option<i64>, status: HistoryStatus) -> HistoryRow {
    HistoryRow {
        account: aid("a"),
        folder: fid("f"),
        anchor_uid: anchor,
        total_estimate: Some(100),
        fetched: 7,
        status,
        last_error: None,
        started_at: 1,
        updated_at: 2,
        completed_at: None,
    }
}

fn key(account: &str, folder: &str) -> JobKey {
    JobKey { account: aid(account), folder: fid(folder) }
}

#[test]
fn a_history_job_starts_below_the_oldest_message() {
    let uids = vec![Some(40), None, Some(12)];
    assert_eq!(
        compute_start_metrics(&None, &uids),
        Ok(StartMetrics { anchor: 12, estimate: Some(11) })
    );
    assert_eq!(
        compute_start_metrics(&Some(row(Some(9), HistoryStatus::Canceled)), &uids),
        Ok(StartMetrics { anchor: 9, estimate: Some(100) })
    );
    assert_eq!(
        compute_start_metrics(&Some(row(Some(9), HistoryStatus::Completed)), &uids),
        Ok(StartMetrics { anchor: 12, estimate: Some(11) })
    );
    let e = compute_start_metrics(&None, &vec![None]).unwrap_err();
    assert_eq!(e.kind, IpcErrorKind::Internal);
    assert_eq!(
        e.message,
        "no local messages in this folder yet — wait for the bootstrap sync to finish"
    );
}

#[test]
fn a_history_job_is_not_started_twice() {
    let mut jobs = HistoryJobs::new();
    let k = key("a", "f");
    assert!(matches!(
        jobs.history_sync_start(&k, &None, &vec![Some(12)]),
        Ok(StartPlan::Run(_))
    ));
    let e = jobs.history_sync_start(&k, &None, &vec![Some(12)]).unwrap_err();
    assert_eq!(e.message, "history sync already running for this folder");
    assert!(!jobs.is_canceled(&k));
    assert!(jobs.history_sync_cancel(&k));
    assert!(jobs.is_canceled(&k));
    jobs.drop_canceller(&k);
    assert!(!jobs.is_running(&k));
    assert!(!jobs.history_sync_cancel(&k));
    assert!(matches!(
        jobs.history_sync_start(&k, &None, &vec![Some(1)]),
        Ok(StartPlan::Complete(_))
    ));
    assert!(!jobs.is_running(&k));
}

#[test]
fn history_jobs_are_resumed_and_removed() {
    let mut jobs = HistoryJobs::new();
    assert_eq!(jobs.resume(&row(None, HistoryStatus::Running)), ResumeStep::Skip);
    assert_eq!(jobs.resume(&row(Some(1), HistoryStatus::Running)), ResumeStep::Complete);
    assert_eq!(
        jobs.resume(&row(Some(9), HistoryStatus::Running)),
        ResumeStep::Run(StartMetrics { anchor: 9, estimate: Some(100) })
    );
    assert_eq!(jobs.resume(&row(Some(9), HistoryStatus::Running)), ResumeStep::Skip);
    let _ = jobs.history_sync_start(&key("b", "f"), &None, &vec![Some(12)]);
    let removed = jobs.remove_account(&aid("a"));
    assert_eq!(removed.len(), 1);
    assert_eq!(removed[0].folder, fid("f"));
    assert!(!jobs.is_running(&key("a", "f")));
    assert!(jobs.is_running(&key("b", "f")));
}

#[test]
fn history_rows_are_shown_with_their_folder() {
    let mut folders = vec![folder("f", None)];
    folders[0].name = "Archive 2020".into();
    let mut other = row(None, HistoryStatus::Error);
    other.folder = fid("gone");
    other.last_error = Some("boom".into());
    let list = history_sync_list(&vec![row(Some(9), HistoryStatus::Running), other], &folders);
    assert_eq!(list[0].folder_label, "Archive 2020");
    assert_eq!((list[0].status.as_str(), list[0].total_estimate), ("running", Some(100)));
    assert_eq!(list[1].folder_label, "gone");
    assert_eq!(list[1].last_error.as_deref(), Some("boom"));
    let p = row_progress(&row(None, HistoryStatus::Canceled));
    assert_eq!((p.status.as_str(), p.fetched), ("canceled", 7));
}

#[test]
fn a_driver_reports_what_changed() {
    assert_eq!(driver_start(true, &Ok(())), DriverStart::Canceled);
    assert_eq!(driver_start(false, &Err("x".into())), DriverStart::Failed("x".into()));
    assert_eq!(driver_start(false, &Ok(())), DriverStart::Run);
    let mut g = ProgressGate::new();
    let k = key("a", "f");
    assert_eq!(g.report(&k, 5, false, Some(10)).unwrap().status, "running");
    assert_eq!(g.report(&k, 5, false, Some(10)), None);
    let last = g.report(&k, 5, true, None).unwrap();
    assert_eq!((last.status.as_str(), last.total_estimate), ("in-flight", None));
}

#[test]
fn bursts_of_changes_are_gathered() {
    let mut d = Debouncer::new();
    assert_eq!(d.next_deadline(), None);
    d.report(&aid("a"), BackendEvent::FolderChanged(fid("in")), 1_000);
    d.report(&aid("a"), BackendEvent::FolderChanged(fid("in")), 1_200);
    d.report(&aid("b"), BackendEvent::AccountChanged, 1_100);
    d.report(&aid("b"), BackendEvent::ConnectionLost, 0);
    assert_eq!(d.next_deadline(), Some(1_600));
    let (folders, accounts) = d.take_due(1_600);
    assert!(folders.is_empty());
    assert_eq!(accounts.len(), 1);
    assert_eq!(accounts[0].account, aid("b"));
    let (folders, accounts) = d.take_due(1_700);
    assert_eq!((folders.len(), accounts.len()), (1, 0));
    assert_eq!(d.next_deadline(), None);
}

#[test]
fn due_folders_are_those_that_are_known() {
    let all = vec![
        Bootstrap {
            account: aid("a"),
            kind: BackendKind::ImapSmtp,
            folders: Some(vec![folder("in", Some(FolderRole::Inbox)), folder("x", None)]),
        },
        Bootstrap { account: aid("b"), kind: BackendKind::Jmap, folders: None },
        Bootstrap { account: aid("c"), kind: BackendKind::Jmap, folders: Some(vec![]) },
    ];
    let known = known_folders(&all);
    assert_eq!(known.len(), 2);
    let mut d = Debouncer::new();
    d.report(&aid("a"), BackendEvent::FolderChanged(fid("in")), 0);
    d.report(&aid("a"), BackendEvent::FolderChanged(fid("new")), 0);
    let (due, _) = d.take_due(500);
    let found = due_folders(&known, &due);
    assert_eq!(found.len(), 1);
    assert_eq!(found[0].folder.id, fid("in"));
    let plan = watch_plan(all);
    assert_eq!(plan.imap.len(), 1);
    assert_eq!(plan.imap[0].active.len(), 2);
    assert_eq!(plan.jmap, vec![aid("c")]);
    assert!(!plan.is_empty());
    assert!(watch_plan(vec![]).is_empty());
}

#[test]
fn sync_outcomes_become_events() {
    let report = SyncReport { added: 2, updated: 1, flag_updates: 0, removed: 3 };
    let e = folder_outcome(&aid("a"), &fid("in"), &Ok(report), 4, true);
    assert_eq!(
        e,
        SyncEvent::FolderSynced {
            account: aid("a"),
            folder: fid("in"),
            added: 2,
            updated: 1,
            flag_updates: 0,
            removed: 3,
            unread_count: 4,
            live: true,
        }
    );
    let e = folder_outcome(&aid("a"), &fid("in"), &Err("x".into()), 0, true);
    assert_eq!(
        e,
        SyncEvent::FolderError { account: aid("a"), folder: fid("in"), error: "x".into() }
    );
    assert_eq!(
        dead_letter("move", "denied"),
        SyncEvent::FolderError {
            account: aid(""),
            folder: fid("outbox:move"),
            error: "queued mutation failed: denied".into(),
        }
    );
    let done = synced_folders(vec![
        FolderOutcome { folder: folder("1", None), outcome: Err("x".into()) },
        FolderOutcome {
            folder: folder("2", None),
            outcome: Ok(SyncReport { added: 0, updated: 0, flag_updates: 0, removed: 0 }),
        },
    ]);
    assert_eq!(done, vec![folder("2", None)]);
}

#[test]
fn new_mail_in_the_inbox_is_announced() {
    let inbox = Some(folder("in", Some(FolderRole::Inbox)));
    assert_eq!(announcement_for(true, false, 1, &inbox), Announcement::Nothing);
    assert_eq!(announcement_for(true, true, 0, &inbox), Announcement::Nothing);
    assert_eq!(announcement_for(true, true, 1, &Some(folder("x", None))), Announcement::Nothing);
    assert_eq!(announcement_for(true, true, 1, &None), Announcement::Nothing);
    assert_eq!(announcement_for(true, true, 1, &inbox), Announcement::Preview);
    assert_eq!(announcement_for(true, true, 2, &inbox), Announcement::Count);
    assert_eq!(announcement_for(false, true, 1, &inbox), Announcement::Nothing);
    assert_eq!(announcement_for(false, true, 2, &inbox), Announcement::Nothing);
    let mut a = Some(account("a", BackendKind::ImapSmtp));
    assert!(notifications_on(&a, &None));
    assert!(notifications_on(&a, &Some("true".into())));
    assert!(!notifications_on(&a, &Some("false".into())));
    if let Some(a) = &mut a {
        a.notify_enabled = false;
    }
    assert!(!notifications_on(&a, &None));
    assert!(!notifications_on(&a, &Some("true".into())));
    assert!(!notifications_on(&None, &None));
    let h = headers("m", false);
    assert_eq!(
        new_mail_notification(&aid("a"), &fid("in"), 1, Some(&h)),
        ("New from Ann".to_string(), "Ann — Hi".to_string())
    );
    assert_eq!(
        new_mail_notification(&aid("a"), &fid("in"), 1, None),
        ("New message".to_string(), "a · in".to_string())
    );
    assert_eq!(
        new_mail_notification(&aid("a"), &fid("in"), 3, None),
        ("3 new messages".to_string(), "a · in".to_string())
    );
}

#[test]
fn a_watcher_pauses_longer_each_time() {
    let mut w = Watcher::new();
    assert_eq!(w.step(WatcherEvent::Started), WatcherAction::OpenSession);
    let mut pauses = vec![];
    for _ in 0..10 {
        assert_eq!(w.step(WatcherEvent::SessionFailed), WatcherAction::ReportLoss);
        match w.step(WatcherEvent::LossReported(true)) {
            WatcherAction::Pause(p) => pauses.push(p),
            other => panic!("{other:?}"),
        }
        assert_eq!(w.step(WatcherEvent::PauseOver), WatcherAction::ReportRecovery);
        assert_eq!(w.step(WatcherEvent::RecoveryReported(true)), WatcherAction::OpenSession);
    }
    assert_eq!(&pauses[..4], &[2_000, 4_000, 8_000, 16_000]);
    assert_eq!(pauses[9], 300_000);
    assert_eq!(w.step(WatcherEvent::LossReported(false)), WatcherAction::Stop);
    assert_eq!(w.step(WatcherEvent::RecoveryReported(false)), WatcherAction::Stop);
    assert_eq!(w.step(WatcherEvent::SessionEnded), WatcherAction::Stop);
}

#[test]
fn a_pause_is_spread_around_its_base() {
    assert_eq!(spread_by(10_000, 0), 5_000);
    assert_eq!(spread_by(10_000, 0x8000_0000), 10_000);
    assert_eq!(spread_by(10_000, u32::MAX), 14_999);
    assert_eq!(spread_by(1, 0), 1);
    assert_eq!(spread_by(1, u32::MAX), 1);
    assert_eq!(spread_by(7, 0), 4);
    assert_eq!(spread_by(0, u32::MAX), 0);
}

#[test]
fn pages_are_bounded() {
    assert_eq!((page_query(50, 7).limit, page_query(50, 7).offset), (50, 7));
    assert_eq!(page_query(9_999, 0).limit, 500);
    assert_eq!((older_limit(0), older_limit(20), older_limit(9_999)), (1, 20, 500));
    let page = search_page(vec![Some(headers("1", true)), None, Some(headers("2", false))]);
    assert_eq!((page.messages.len(), page.total_count, page.unread_count), (2, 2, 1));
    assert_eq!(empty_page().total_count, 0);
    assert_eq!(folder_ids(&vec![folder("1", None), folder("2", None)]), vec![fid("1"), fid("2")]);
}

#[test]
fn remote_content_is_shown_to_trusted_senders() {
    let from = vec![EmailAddress { address: "ann@x".into(), display_name: None }];
    assert_eq!(sender_trust(true, &None, &from), Trust::Trusted);
    assert_eq!(sender_trust(false, &Some("true".into()), &from), Trust::Trusted);
    assert_eq!(sender_trust(false, &Some("1".into()), &from), Trust::Ask("ann@x".into()));
    assert_eq!(sender_trust(false, &None, &vec![]), Trust::Untrusted);
    let body = ParsedBody {
        body_text: Some("t".into()),
        sanitized_html: Some("<p>".into()),
        attachments: vec![],
    };
    let m = render_message(headers("1", true), Some(body), false);
    assert!(m.remote_content_blocked && !m.sender_is_trusted);
    assert_eq!(m.body_text.as_deref(), Some("t"));
    let m = render_message(headers("1", true), None, true);
    assert!(!m.remote_content_blocked && m.sender_is_trusted);
    assert_eq!(m.body_text, None);
    assert_eq!(fetched_body(Some(vec![1]), true), Some(vec![1]));
    assert_eq!(fetched_body(Some(vec![1]), false), None);
}

#[test]
fn flags_change_one_at_a_time() {
    let mut r = MessageRow {
        account_id: aid("a"),
        folder_id: fid("in"),
        flags: MessageFlags { answered: true, ..MessageFlags::default() },
    };
    assert_eq!(mark_read(&None, true), LocalChange::Skip);
    let row = |r: &MessageRow| {
        Some(MessageRow {
            account_id: r.account_id.clone(),
            folder_id: r.folder_id.clone(),
            flags: r.flags,
        })
    };
    assert_eq!(mark_read(&row(&r), false), LocalChange::Skip);
    match mark_read(&row(&r), true) {
        LocalChange::SetFlags(f) => {
            assert!(f.seen && f.answered && !f.flagged);
            r.flags = f;
        }
        other => panic!("{other:?}"),
    }
    match set_flagged(&row(&r), true) {
        LocalChange::SetFlags(f) => assert!(f.seen && f.answered && f.flagged),
        other => panic!("{other:?}"),
    }
    assert_eq!(set_flagged(&row(&r), false), LocalChange::Skip);
    assert_eq!(move_to(&row(&r), &fid("in")), LocalChange::Skip);
    assert_eq!(move_to(&row(&r), &fid("x")), LocalChange::SetFolder(fid("x")));
    assert_eq!(delete_message(&row(&r)), LocalChange::Delete);
    assert_eq!(delete_message(&None), LocalChange::Skip);
    let e = archive_target(&aid("a"), &vec![]).unwrap_err();
    assert_eq!(e.kind, IpcErrorKind::NotFound);
    assert_eq!(
        e.message,
        "messages_archive: no archive target for account a (need Archive- or All-role folder)"
    );
}

#[test]
fn changes_are_queued_once_per_account() {
    let mut g = AccountGroups::new();
    g.add_message(&aid("a"), &mid("1"));
    g.add_message(&aid("b"), &mid("2"));
    g.add_message(&aid("a"), &mid("3"));
    let all = outbox_entries(&g, &mark_read_action(true));
    assert_eq!(all.len(), 2);
    assert_eq!(all[0].account, aid("a"));
    assert_eq!(all[0].payload.op_name(), "update_flags");
    match &all[0].payload {
        OutboxPayload::UpdateFlags { ids, set, cleared } => {
            assert_eq!(ids, &vec![mid("1"), mid("3")]);
            assert!(set.seen && !cleared.seen);
        }
        other => panic!("{other:?}"),
    }
    match &outbox_entries(&g, &flag_action(false))[0].payload {
        OutboxPayload::UpdateFlags { set, cleared, .. } => {
            assert!(!set.flagged && cleared.flagged)
        }
        other => panic!("{other:?}"),
    }
    let moved = outbox_entries(&g, &GroupAction::Move(fid("x")));
    assert_eq!(moved[1].payload, OutboxPayload::MoveMessages { ids: vec![mid("2")], target: fid("x") });
    let gone = outbox_entries(&g, &GroupAction::Delete);
    assert_eq!(gone[1].payload, OutboxPayload::DeleteMessages { ids: vec![mid("2")] });
}

#[test]
fn what_was_changed_is_queued() {
    let row = |account: &str, folder: &str| {
        Some(MessageRow {
            account_id: aid(account),
            folder_id: fid(folder),
            flags: MessageFlags::default(),
        })
    };
    let ids = || vec![mid("1"), mid("2"), mid("3"), mid("4"), mid("5")];
    let (mut run, first) = ChangeRun::new(ids(), ChangeKind::Move(fid("x")));
    assert_eq!(first, ChangeStep::Load(mid("1")));
    assert_eq!(
        run.step(ChangeEvent::Found(row("a", "in"))),
        ChangeStep::Apply(mid("1"), LocalChange::SetFolder(fid("x")))
    );
    assert_eq!(run.step(ChangeEvent::Applied(true)), ChangeStep::Load(mid("2")));
    // Unknown, already there, and not to be moved: each is passed over.
    assert_eq!(run.step(ChangeEvent::Found(None)), ChangeStep::Load(mid("3")));
    assert_eq!(run.step(ChangeEvent::Found(row("a", "x"))), ChangeStep::Load(mid("4")));
    run.step(ChangeEvent::Found(row("b", "in")));
    assert_eq!(run.step(ChangeEvent::Applied(false)), ChangeStep::Load(mid("5")));
    run.step(ChangeEvent::Found(row("b", "in")));
    match run.step(ChangeEvent::Applied(true)) {
        ChangeStep::Queue(entries) => {
            assert_eq!(entries.len(), 2);
            assert_eq!(entries[0].account, aid("a"));
            assert_eq!(
                entries[0].payload,
                OutboxPayload::MoveMessages { ids: vec![mid("1")], target: fid("x") }
            );
            assert_eq!(entries[1].account, aid("b"));
            assert_eq!(
                entries[1].payload,
                OutboxPayload::MoveMessages { ids: vec![mid("5")], target: fid("x") }
            );
        }
        other => panic!("{other:?}"),
    }
    assert_eq!(run.step(ChangeEvent::Applied(true)), ChangeStep::Done);

    let (_, nothing) = ChangeRun::new(vec![], ChangeKind::Delete);
    assert_eq!(nothing, ChangeStep::Queue(vec![]));
    let (mut run, _) = ChangeRun::new(vec![mid("1")], ChangeKind::Flag(true));
    let flagged = MessageFlags { flagged: true, ..MessageFlags::default() };
    assert_eq!(
        run.step(ChangeEvent::Found(row("a", "in"))),
        ChangeStep::Apply(mid("1"), LocalChange::SetFlags(flagged))
    );
    let (mut run, _) = ChangeRun::new(vec![mid("1")], ChangeKind::MarkRead(false));
    assert_eq!(run.step(ChangeEvent::Found(row("a", "in"))), ChangeStep::Queue(vec![]));

    let rows = vec![row("a", "in"), None, row("b", "in"), row("a", "in"), None];
    let groups = archive_groups(&ids(), &rows).groups;
    assert_eq!(groups.len(), 2);
    assert_eq!((&groups[0].account, &groups[0].ids), (&aid("a"), &vec![mid("1"), mid("4")]));
    assert_eq!((&groups[1].account, &groups[1].ids), (&aid("b"), &vec![mid("3")]));
}

#[test]
fn a_message_is_queued_in_base64() {
    let m = raw_message(&"d1".to_string(), &vec![0, 255, 16]);
    assert_eq!((m.reference.as_str(), m.raw_b64.as_str()), ("d1", "AP8Q"));
    assert_eq!(raw_message(&"d1".to_string(), &vec![]).raw_b64, "");
    assert_eq!(raw_message(&"d1".to_string(), &vec![1]).raw_b64, "AQ==");
}

#[test]
fn a_sent_message_collects_its_correspondents() {
    let a = |s: &str| EmailAddress { address: s.to_string(), display_name: None };
    let d = Draft {
        id: DraftId("d".into()),
        account_id: aid("a"),
        in_reply_to: None,
        references: vec![],
        to: vec![a("1")],
        cc: vec![a("2")],
        bcc: vec![a("3")],
        subject: String::new(),
        body: String::new(),
        body_kind: DraftBodyKind::Plain,
        attachments: vec![],
        created_at: 0,
        updated_at: 0,
    };
    assert_eq!(correspondents(&d), vec![a("1"), a("2"), a("3")]);
    assert_eq!(not_built("no sender").message, "messages_send: build RFC 5322: no sender");
    let s = sender_of(&account("a", BackendKind::ImapSmtp));
    assert_eq!((s.address.as_str(), s.display_name.as_deref()), ("me@x", Some("Me")));
}

#[test]
fn the_lowest_uid_and_the_new_ones_are_found() {
    assert_eq!(lowest_imap_uid(&vec![Some(9), None, Some(4), Some(7)]), Some(4));
    assert_eq!(lowest_imap_uid(&vec![None]), None);
    assert_eq!(count_new(&vec![true, false, false]), 2);
}

#[test]
fn a_table_keeps_one_value_per_key() {
    let mut t: Table<String, u32> = Table::new();
    t.insert("a".into(), 1);
    t.insert("b".into(), 2);
    t.insert("a".into(), 3);
    assert_eq!(t.get(&"a".to_string()), Some(&3));
    assert!(t.remove(&"b".to_string()));
    assert!(!t.remove(&"b".to_string()));
    assert_eq!(t.drain().len(), 1);
    assert_eq!(t.get(&"a".to_string()), None);
}

#[test]
fn the_tray_counts_unread_mail() {
    assert_eq!(tooltip(0), "QSL");
    assert_eq!(tooltip(1), "QSL · 1 unread");
    assert_eq!(tooltip(12), "QSL · 12 unread");
    assert_eq!(counted_unread(&vec![], 5), 0);
    assert_eq!(counted_unread(&vec![fid("in")], 5), 5);
    assert!(tray_enabled(&None) && tray_enabled(&Some("true".into())));
    assert!(!tray_enabled(&Some("false".into())));
    assert!(payload_matches_tray_key("{\"key\":\"appearance.tray_enabled\"}"));
    assert!(!payload_matches_tray_key("{\"key\":\"appearance.theme\"}"));
    assert_eq!(menu_action("tray-show"), TrayAction::Show);
    assert_eq!(menu_action("tray-compose"), TrayAction::Compose);
    assert_eq!(menu_action("tray-quit"), TrayAction::Quit);
    assert_eq!(menu_action("x"), TrayAction::Nothing);
    assert!(click_hides(Some(true)) && !click_hides(Some(false)) && !click_hides(None));
}
