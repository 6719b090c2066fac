//! Windows, links, settings, signing in, the reader and the log.
use qsl_desktop::accounts::{
    account_write, accounts_add_oauth, drops_contacts, map_auth_error, revocation_provider,
    signature_to_keep, token_not_kept, AuthError, AuthErrorKind, ProviderKind, RowWrite, SignIn,
};
use qsl_desktop::calendar::{
    day_count, is_locally_representable, is_representable, is_rfc2822_representable, relative_date,
    LocalTime,
};
use qsl_desktop::history_sync::HistorySyncStatus;
use qsl_desktop::host_log::{log_payload, ui_log, FieldCollector, HostLevel, Level};
use qsl_desktop::inputs::{
    AccountsAddOauthInput, MessagesOpenInWindowInput, OauthProviderInfo, OpenExternalUrlInput,
    UiLogInput,
};
use qsl_desktop::mailto::{is_mailto, parse_mailto};
use qsl_desktop::model::{
    Account, AccountId, Attachment, AttachmentRef, BackendKind, EmailAddress, Folder, FolderId,
    FolderRole, IpcErrorKind, MessageFlags, MessageHeaders, MessageId, RenderedMessage,
};
use qsl_desktop::oauth_add::OauthFlow;
use qsl_desktop::reader::{
    attachment_text, flag_button, reader_head, read_button, recipient_chip, sender_label,
    RemoteContent,
};
use qsl_desktop::reply::{reply_draft, self_email, ReplyKind};
use qsl_desktop::settings::{
    choice_value, concerns_account, default_history_folder, fetched_text, folder_label,
    history_candidates, is_checked, job_view, status_line, switch_to_keep, switch_value, JobAction,
    ProgressText, Tab,
};
use qsl_desktop::surface::{
    cursor_to_css_name, wheel_notch, Cursor, LinuxGtkParent, ScrollDirection,
};
use qsl_desktop::urls::{checked_link, external_url, is_followed, open_failed, ExternalUrl};
use qsl_desktop::windows::{
    keeps_window_state, messages_open_in_window, open_view_window, reader_label_of, window_failed,
    RenderCache, ViewWindow, WindowStep,
};

fn address(name: Option<&str>, email: &str) -> EmailAddress {
    EmailAddress { address: email.to_string(), display_name: name.map(str::to_string) }
}

fn rendered(id: &str) -> RenderedMessage {
    RenderedMessage {
        headers: MessageHeaders {
            id: MessageId(id.to_string()),
            account_id: AccountId("gmail:me@x".into()),
            folder_id: FolderId("in".into()),
            thread_id: None,
            rfc822_message_id: Some("<m@x>".into()),
            in_reply_to: None,
            references: vec!["<l@x>".into()],
            from: vec![address(Some("Ann"), "ann@x")],
            reply_to: vec![],
            to: vec![address(None, "ME@x"), address(None, "bob@x")],
            cc: vec![address(None, "Bob@x")],
            bcc: vec![],
            subject: "Hi".into(),
            snippet: String::new(),
            date: 1_700_000_000,
            flags: MessageFlags::default(),
            labels: vec![],
            size: 0,
            has_attachments: false,
        },
        sanitized_html: None,
        body_text: Some("one\ntwo".into()),
        attachments: vec![],
        sender_is_trusted: false,
        remote_content_blocked: true,
    }
}

fn account(id: &str) -> Account {
    Account {
        id: AccountId(id.to_string()),
        kind: BackendKind::ImapSmtp,
        display_name: "Me".into(),
        email_address: "me@x".into(),
        created_at: 0,
        signature: None,
        notify_enabled: true,
    }
}

#[test]
fn a_reader_window_is_opened_once_per_message() {
    let id = MessageId("imap:INBOX/1".into());
    assert_eq!(reader_label_of(&id), "reader-imap_INBOX_1");
    let input = MessagesOpenInWindowInput { id };
    assert_eq!(messages_open_in_window(&input, true, &None), WindowStep::Focus);
    match messages_open_in_window(&input, false, &None) {
        WindowStep::Create(w) => {
            assert_eq!(w.label, "reader-imap_INBOX_1");
            assert_eq!(w.title, "QSL — imap:INBOX/1");
            assert_eq!(
                w.script,
                "window.__QSL_READER_ID__ = \"imap:INBOX/1\";\n\
                 window.__QSL_READER_PRELOAD__ = null;"
            );
        }
        other => panic!("{other:?}"),
    }
    let control = "\u{8}\t\n\u{b}\u{c}\r\u{1f}\u{7f}é/".to_string();
    match messages_open_in_window(&MessagesOpenInWindowInput { id: MessageId(control) }, false, &None) {
        WindowStep::Create(w) => {
            assert!(w.script.contains("= \"\\b\\t\\n\\u000b\\f\\r\\u001f\u{7f}é/\";"));
        }
        other => panic!("{other:?}"),
    }
    let tricky = MessagesOpenInWindowInput { id: MessageId("a\"b\\".into()) };
    match messages_open_in_window(&tricky, false, &Some("{}".into())) {
        WindowStep::Create(w) => {
            assert!(w.script.contains("= \"a\\\"b\\\\\";"));
            assert!(w.script.ends_with("PRELOAD__ = {};"));
            assert!(w.label.chars().all(|c| c.is_ascii_alphanumeric() || c == '-' || c == '_'));
        }
        other => panic!("{other:?}"),
    }
}

#[test]
fn view_windows_are_opened_once() {
    assert_eq!(open_view_window(ViewWindow::Settings, true), WindowStep::Focus);
    match open_view_window(ViewWindow::AddAccount, false) {
        WindowStep::Create(w) => {
            assert_eq!((w.label.as_str(), w.title.as_str()), ("oauth-add", "QSL — Add account"));
            assert_eq!(w.script, "window.__QSL_VIEW__ = \"oauth-add\";");
        }
        other => panic!("{other:?}"),
    }
    assert_eq!(ViewWindow::Settings.size(), (720, 560));
    assert_eq!(window_failed("settings", "gone").message, "create settings window: gone");
    assert!(keeps_window_state("main") && keeps_window_state("settings"));
    assert!(!keeps_window_state("reader-1"));
}

#[test]
fn the_last_rendered_message_is_kept() {
    let mut c = RenderCache::new();
    assert_eq!(c.get(&MessageId("1".into())), None);
    c.put(MessageId("1".into()), rendered("1"));
    assert_eq!(c.get(&MessageId("1".into())), Some(&rendered("1")));
    c.put(MessageId("2".into()), rendered("2"));
    assert_eq!(c.get(&MessageId("1".into())), None);
}

#[test]
fn only_web_and_mail_links_are_followed() {
    let open = |s: &str| external_url(&OpenExternalUrlInput { url: s.to_string() });
    assert_eq!(open(" https://x.org/a "), Ok(ExternalUrl::Web("https://x.org/a".into())));
    assert_eq!(open("HTTP://x.org"), Ok(ExternalUrl::Web("HTTP://x.org".into())));
    assert_eq!(open("http://["), Ok(ExternalUrl::AsIs("http://[".into())));
    assert_eq!(open("mailto:a@x"), Ok(ExternalUrl::AsIs("mailto:a@x".into())));
    for bad in ["file:///etc/passwd", "javascript:alert(1)", "ftp://x", ""] {
        let e = open(bad).unwrap_err();
        assert_eq!(e.kind, IpcErrorKind::Permission);
        assert_eq!(e.message, format!("unsupported URL scheme: {bad}"));
    }
    assert_eq!(checked_link("https://x", false), Ok(ExternalUrl::AsIs("https://x".into())));
    assert_eq!(open_failed("no browser").message, "failed to open URL: no browser");
    assert!(is_followed("https") && is_followed("mailto") && !is_followed("file"));
}

#[test]
fn mailto_errors_say_what_is_wrong() {
    assert!(parse_mailto("not a url").is_err());
    assert!(is_mailto("mailto") && !is_mailto("http"));
    let p = parse_mailto("mailto:a@x?to=b@x&to=c@x&In-Reply-To=%3Cm%40x%3E").unwrap();
    assert_eq!(p.to.as_deref(), Some("a@x, b@x, c@x"));
    assert_eq!(p.in_reply_to.as_deref(), Some("<m@x>"));
}

fn sign_in(token: bool) -> Result<SignIn, AuthError> {
    Ok(SignIn { has_refresh_token: token })
}

#[test]
fn an_account_is_added_after_signing_in() {
    let input = AccountsAddOauthInput { provider: "gmail".into(), email: "me@x".into() };
    let a = accounts_add_oauth(&input, Some(ProviderKind::ImapSmtp), &sign_in(true), 9).unwrap();
    assert_eq!(a.id, AccountId("gmail:me@x".into()));
    assert_eq!((a.kind, a.created_at, a.notify_enabled), (BackendKind::ImapSmtp, 9, true));
    assert_eq!(revocation_provider(&a.id).as_deref(), Some("gmail"));
    let fails = |known: Option<ProviderKind>, s: Result<SignIn, AuthError>| {
        let e = accounts_add_oauth(&input, known, &s, 9).unwrap_err();
        (e.kind, e.message)
    };
    assert_eq!(
        fails(None, sign_in(true)),
        (IpcErrorKind::NotFound, "unknown provider: gmail".to_string())
    );
    assert_eq!(
        fails(Some(ProviderKind::Jmap), sign_in(false)),
        (
            IpcErrorKind::Internal,
            "provider returned no refresh_token (user must include offline_access scope)"
                .to_string()
        )
    );
    assert_eq!(
        fails(Some(ProviderKind::Other), sign_in(true)),
        (
            IpcErrorKind::Internal,
            "provider gmail uses an unsupported backend kind".to_string()
        )
    );
    let denied = AuthError { kind: AuthErrorKind::AuthResponse, text: "denied".into() };
    assert_eq!(
        fails(Some(ProviderKind::Jmap), Err(denied)),
        (IpcErrorKind::Permission, "OAuth flow: denied".to_string())
    );
    let browser = AuthError { kind: AuthErrorKind::Browser, text: "none".into() };
    assert_eq!(map_auth_error(&browser).kind, IpcErrorKind::Internal);
    let exchange = AuthError { kind: AuthErrorKind::TokenExchange, text: "x".into() };
    assert_eq!(map_auth_error(&exchange).kind, IpcErrorKind::Permission);
    assert_eq!(token_not_kept("locked").message, "persist refresh token: locked");
    assert_eq!(account_write(true), RowWrite::Update);
    assert_eq!(account_write(false), RowWrite::Insert);
    assert_eq!(signature_to_keep(Some(String::new())), None);
    assert_eq!(signature_to_keep(Some("Me".into())).as_deref(), Some("Me"));
    assert!(drops_contacts(0) && !drops_contacts(1));
}

#[test]
fn the_sign_in_flow_keeps_what_was_entered() {
    let mut f = OauthFlow::new();
    assert_eq!(f.status_text(), None);
    assert_eq!(f.submit(), None);
    f.email = "  me@x ".into();
    assert!(!f.can_submit());
    f.selected = Some(OauthProviderInfo { slug: "gmail".into(), name: "Gmail".into() });
    assert!(f.can_submit());
    assert!(f.is_selected(&OauthProviderInfo { slug: "gmail".into(), name: "x".into() }));
    let input = f.submit().unwrap();
    assert_eq!((input.provider.as_str(), input.email.as_str()), ("gmail", "me@x"));
    assert_eq!(f.status_text().as_deref(), Some("Waiting for browser approval at Gmail…"));
    assert!(!f.answered(Err("denied".into())));
    assert_eq!(f.status_text().as_deref(), Some("denied"));
    f.try_again();
    assert_eq!(f.email, "  me@x ");
    assert!(f.can_submit());
    assert!(f.answered(Ok(account("gmail:me@x"))));
    assert_eq!(f.status_text().as_deref(), Some("Added me@x."));
}

#[test]
fn switches_and_choices_are_kept() {
    assert_eq!(Tab::all().len(), 6);
    assert_eq!(Tab::all()[1].label(), "Appearance");
    assert_eq!(choice_value(&None, "system"), "system");
    assert_eq!(choice_value(&Some("dark".into()), "system"), "dark");
    for on in [true, false] {
        for usually in [true, false] {
            assert_eq!(switch_value(&Some(switch_to_keep(on).to_string()), usually), on);
            assert_eq!(switch_value(&None, usually), usually);
        }
    }
    assert!(is_checked("on") && is_checked("true") && !is_checked("off"));
    let a = AccountId("a".into());
    assert!(concerns_account("history_sync_progress", "a", &a));
    assert!(!concerns_account("history_sync_progress", "b", &a));
    assert!(!concerns_account("folder_synced", "a", &a));
}

fn folder(id: &str, role: Option<FolderRole>) -> Folder {
    Folder {
        id: FolderId(id.to_string()),
        account_id: AccountId("a".into()),
        name: id.to_string(),
        path: id.to_string(),
        role,
        unread_count: 0,
        total_count: 0,
        parent: None,
    }
}

fn job(folder: &str, status: &str, fetched: u32, total: Option<u32>) -> HistorySyncStatus {
    HistorySyncStatus {
        account: AccountId("a".into()),
        folder: FolderId(folder.to_string()),
        folder_label: folder.to_string(),
        status: status.to_string(),
        fetched,
        total_estimate: total,
        last_error: None,
        started_at: 0,
        updated_at: 0,
        completed_at: None,
    }
}

#[test]
fn history_is_offered_for_folders_without_a_job() {
    let folders = vec![
        folder("x", None),
        folder("in", Some(FolderRole::Inbox)),
        folder("all", Some(FolderRole::All)),
    ];
    let none = history_candidates(&folders, &vec![]);
    assert_eq!(default_history_folder(&none), Some(FolderId("all".into())));
    let some = history_candidates(&folders, &vec![job("all", "canceled", 3, None)]);
    assert_eq!(some.len(), 2);
    assert_eq!(default_history_folder(&some), Some(FolderId("in".into())));
    assert_eq!(default_history_folder(&vec![folder("x", None)]), Some(FolderId("x".into())));
    assert_eq!(default_history_folder(&vec![]), None);
    assert_eq!(folder_label(&folders[2]), "All Mail");
    assert_eq!(folder_label(&folders[0]), "x");
}

#[test]
fn jobs_are_shown_with_what_can_be_done() {
    let v = job_view(&job("x", "running", 5, Some(10)));
    assert_eq!(v.status, "Running");
    assert_eq!(v.progress, ProgressText::OfTotal { fetched: 5, total: 10 });
    assert_eq!(v.action, JobAction::Cancel);
    assert!(v.shows_bar);
    let v = job_view(&job("x", "completed", 0, Some(10)));
    assert_eq!((v.status.as_str(), v.shows_bar), ("Already up to date", false));
    assert_eq!(v.progress, ProgressText::Nothing);
    let v = job_view(&job("x", "error", 5, None));
    assert_eq!(v.progress, ProgressText::Fetched(5));
    assert_eq!(v.action, JobAction::Resume);
    assert_eq!(job_view(&job("x", "pending", 0, None)).status, "Queued");
    assert_eq!(job_view(&job("x", "canceled", 1, None)).action, JobAction::Resume);
    assert_eq!(job_view(&job("x", "odd", 1, None)).status, "odd");
    assert_eq!(status_line("Running", &fetched_text(5)), "Running · 5 fetched");
    assert_eq!(status_line("Queued", ""), "Queued");
}

#[test]
fn the_reader_shows_a_message() {
    let m = rendered("1");
    let h = reader_head(&m);
    assert_eq!((h.subject.as_str(), h.from_name.as_str()), ("Hi", "Ann"));
    assert_eq!(h.from_addr, "ann@x");
    assert!(h.shows_to && h.shows_cc && !h.shows_attachments && h.shows_remote_banner);
    assert_eq!(h.date_full, "Tue, 14 Nov 2023 22:13:20 +0000");
    let b = flag_button(&MessageFlags::default());
    assert_eq!((b.title, b.text, b.next), ("Flag (s)", " flag", true));
    let seen = MessageFlags { seen: true, ..MessageFlags::default() };
    let b = read_button(&seen);
    assert_eq!((b.title, b.text, b.next), ("Mark unread (u)", " unread", false));
    let c = recipient_chip(&address(Some("Ann"), "ann@x"));
    assert_eq!((c.title.as_str(), c.text.as_str()), ("Ann <ann@x>", "Ann"));
    let c = recipient_chip(&address(None, "ann@x"));
    assert_eq!((c.title.as_str(), c.text.as_str()), ("ann@x", "ann@x"));
    let a = Attachment { id: AttachmentRef("part/1".into()), filename: String::new(), size: 2_048 };
    assert_eq!(attachment_text(&a), "(untitled) · 2.0 KiB");
}

#[test]
fn remote_content_can_be_let_through() {
    let mut r = RemoteContent::new();
    let a = AccountId("a".into());
    assert_eq!(r.trust_sender(&a, ""), None);
    assert_eq!(r.trust_label(), "Always load from this sender");
    let input = r.trust_sender(&a, "ann@x").unwrap();
    assert_eq!(input.email_address, "ann@x");
    assert_eq!(r.trust_label(), "Saving…");
    assert_eq!(r.trust_sender(&a, "ann@x"), None);
    r.trust_answered(true);
    assert!(r.force_trusted && !r.trusting);
    r.message_changed();
    assert!(!r.force_trusted);
    r.load_once();
    assert!(r.force_trusted);
    assert_eq!(sender_label(""), "this sender");
}

#[test]
fn an_answer_names_no_one_twice() {
    let m = rendered("1");
    let own = self_email(&vec![account("gmail:me@x")], &AccountId("gmail:me@x".into()));
    assert_eq!(own, "me@x");
    let d = reply_draft(&m, ReplyKind::ReplyAll, &own);
    assert_eq!(d.to, vec![address(Some("Ann"), "ann@x")]);
    assert_eq!(d.cc, vec![address(None, "bob@x")]);
    assert_eq!(d.subject, "Re: Hi");
    assert_eq!(d.in_reply_to.as_deref(), Some("<m@x>"));
    assert_eq!(d.references, vec!["<l@x>", "<m@x>"]);
    assert!(d.body.contains("2023-11-14 22:13"));
    assert!(d.body.contains("> one\n> two"));
    let d = reply_draft(&m, ReplyKind::Reply, &own);
    assert!(d.cc.is_empty());
    let d = reply_draft(&m, ReplyKind::Forward, &own);
    assert_eq!(d.subject, "Fwd: Hi");
    assert!(d.to.is_empty() && d.references.is_empty());
    assert!(d.body.contains("one\ntwo"));
}

fn at(year: i32, month: u32, day: u32) -> LocalTime {
    LocalTime { year, month, day, hour: 9, minute: 5 }
}

#[test]
fn dates_are_shown_relative_to_today() {
    let now = at(2024, 3, 1);
    assert_eq!(relative_date(&at(2024, 3, 1), &now), "09:05");
    assert_eq!(relative_date(&at(2024, 2, 29), &now), "yest");
    assert_eq!(relative_date(&at(2024, 2, 27), &now), "Tue");
    assert_eq!(relative_date(&at(2024, 1, 5), &now), "Jan 5");
    assert_eq!(relative_date(&at(2009, 12, 31), &now), "Dec '09");
    assert_eq!(day_count(&at(1, 1, 1)), 1);
    assert_eq!(day_count(&at(1970, 1, 1)), 719_163);
    for (a, b) in [
        (at(2023, 2, 28), at(2023, 3, 1)),
        (at(2024, 2, 28), at(2024, 2, 29)),
        (at(2024, 2, 29), at(2024, 3, 1)),
        (at(1900, 2, 28), at(1900, 3, 1)),
        (at(2000, 2, 29), at(2000, 3, 1)),
        (at(1999, 12, 31), at(2000, 1, 1)),
        (at(-1, 12, 31), at(0, 1, 1)),
    ] {
        assert_eq!(day_count(&b), day_count(&a) + 1);
    }
}

#[test]
fn log_lines_hold_their_fields() {
    let mut f = FieldCollector::default();
    f.record_debug("message", "hello");
    f.record_str("who", "ann");
    f.record_u64("n", 3);
    f.record_i64("d", -4);
    f.record_bool("ok", true);
    f.push_field("x", "1.5".into());
    let p = log_payload(Level::Warn, "ui".into(), f).unwrap();
    assert_eq!((p.level, p.target.as_str()), ("warn", "ui"));
    assert_eq!(p.message, "hello who=ann n=3 d=-4 ok=true x=1.5");
    let mut f = FieldCollector::default();
    f.record_u64("n", 3);
    assert_eq!(f.into_string(), "n=3");
    assert_eq!(log_payload(Level::Debug, "ui".into(), FieldCollector::default()), None);
    assert_eq!(log_payload(Level::Trace, "ui".into(), FieldCollector::default()), None);
    let level = |s: &str| {
        ui_log(&UiLogInput { level: s.into(), target: "t".into(), message: "m".into() })
    };
    assert_eq!(level("error"), HostLevel::Error);
    assert_eq!(level("warn"), HostLevel::Warn);
    assert_eq!(level("info"), HostLevel::Info);
    assert_eq!(level("debug"), HostLevel::InfoWithLevel);
}

#[test]
fn a_hidden_surface_lies_off_screen() {
    let mut p = LinuxGtkParent::install(800, 600);
    assert_eq!((p.margin_start, p.width, p.height), (10_000, 800, 600));
    p.set_position(-3, 5, 0, 40);
    assert_eq!((p.margin_start, p.margin_top, p.width, p.height), (0, 5, 1, 40));
    p.set_webview_id(7);
    p.conceal();
    assert_eq!((p.margin_start, p.margin_top, p.width, p.webview_id), (10_000, 0, 1, 7));
    assert_eq!(wheel_notch(ScrollDirection::Up), (0, 1));
    assert_eq!(wheel_notch(ScrollDirection::Right), (-1, 0));
    assert_eq!(cursor_to_css_name(Cursor::Hidden), "none");
    assert_eq!(cursor_to_css_name(Cursor::NwseResize), "nwse-resize");
}

#[test]
fn full_dates_are_written_for_four_digit_years() {
    let on = |date: i64| {
        let mut m = rendered("m");
        m.headers.date = date;
        reader_head(&m).date_full
    };
    assert_eq!(on(0), "Thu, 1 Jan 1970 00:00:00 +0000");
    assert_eq!(on(-62_167_219_200), "Sat, 1 Jan 0000 00:00:00 +0000");
    assert_eq!(on(253_402_300_799), "Fri, 31 Dec 9999 23:59:59 +0000");
    assert!(is_rfc2822_representable(0) && !is_rfc2822_representable(253_402_300_800));
    assert!(is_representable(253_402_300_800) && !is_representable(i64::MAX));
    assert!(is_locally_representable(0) && !is_locally_representable(8_210_266_790_400));
}
