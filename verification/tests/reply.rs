//! Answering and forwarding.
use chrono::{TimeZone, Utc};
use qsl_desktop::model::{
    AccountId, Attachment, EmailAddress, FolderId, MessageFlags, MessageHeaders, MessageId,
    RenderedMessage,
};
use qsl_desktop::reply::{
    forward_body, forward_subject, quote_body_for_reply, reply_all_cc, reply_references,
    reply_subject, reply_to_recipients,
};

fn addr(name: Option<&str>, email: &str) -> EmailAddress {
    EmailAddress {
        display_name: name.map(str::to_string),
        address: email.to_string(),
    }
}

fn fixture(subject: &str, from: Vec<EmailAddress>) -> MessageHeaders {
    MessageHeaders {
        id: MessageId("m1".into()),
        account_id: AccountId("a1".into()),
        folder_id: FolderId("INBOX".into()),
        thread_id: None,
        rfc822_message_id: Some("<orig@example.com>".to_string()),
        subject: subject.to_string(),
        from,
        reply_to: vec![],
        to: vec![],
        cc: vec![],
        bcc: vec![],
        date: Utc.with_ymd_and_hms(2026, 4, 27, 14, 32, 0).unwrap().timestamp(),
        flags: MessageFlags::default(),
        labels: vec![],
        snippet: String::new(),
        size: 0,
        has_attachments: false,
        in_reply_to: None,
        references: vec![],
    }
}

fn rendered_with_body(headers: MessageHeaders, body: Option<&str>) -> RenderedMessage {
    RenderedMessage {
        headers,
        sanitized_html: None,
        body_text: body.map(str::to_string),
        attachments: Vec::<Attachment>::new(),
        sender_is_trusted: false,
        remote_content_blocked: false,
    }
}

#[test]
fn reply_subject_adds_re_when_absent() {
    assert_eq!(reply_subject("Hello"), "Re: Hello");
    assert_eq!(reply_subject("  Hello"), "Re: Hello");
}

#[test]
fn reply_subject_keeps_existing_re_prefix() {
    assert_eq!(reply_subject("Re: Hello"), "Re: Hello");
    assert_eq!(reply_subject("RE: Hello"), "RE: Hello");
    assert_eq!(reply_subject("re: Hello"), "re: Hello");
    // Spaces preserved exactly when prefix matches.
    assert_eq!(reply_subject("  Re: Hello"), "  Re: Hello");
}

#[test]
fn forward_subject_adds_fwd_when_absent_and_not_fw() {
    assert_eq!(forward_subject("Hello"), "Fwd: Hello");
    assert_eq!(forward_subject("Re: Hello"), "Fwd: Re: Hello");
}

#[test]
fn forward_subject_treats_outlook_fw_prefix_as_already_forwarded() {
    assert_eq!(forward_subject("Fw: Hello"), "Fw: Hello");
    assert_eq!(forward_subject("Fwd: Hello"), "Fwd: Hello");
}

#[test]
fn reply_to_recipients_prefers_reply_to_over_from() {
    let mut h = fixture("Hi", vec![addr(Some("From"), "from@example.com")]);
    h.reply_to = vec![addr(Some("Reply"), "reply@example.com")];
    let recipients = reply_to_recipients(&h);
    assert_eq!(recipients.len(), 1);
    assert_eq!(recipients[0].address, "reply@example.com");
}

#[test]
fn reply_to_recipients_falls_back_to_from() {
    let h = fixture("Hi", vec![addr(Some("From"), "from@example.com")]);
    let recipients = reply_to_recipients(&h);
    assert_eq!(recipients.len(), 1);
    assert_eq!(recipients[0].address, "from@example.com");
}

#[test]
fn reply_all_cc_excludes_self_and_primary() {
    let mut h = fixture("Hi", vec![addr(Some("Sender"), "sender@example.com")]);
    h.to = vec![
        addr(None, "me@example.com"),
        addr(None, "alice@example.com"),
    ];
    h.cc = vec![
        addr(None, "BOB@example.com"),
        addr(None, "sender@example.com"), // already covered by reply To
    ];
    let primary_to = reply_to_recipients(&h);
    let cc = reply_all_cc(&h, &primary_to, "me@example.com");
    let emails: Vec<&str> = cc.iter().map(|a| a.address.as_str()).collect();
    assert_eq!(emails, vec!["alice@example.com", "BOB@example.com"]);
}

#[test]
fn reply_references_chain_appends_message_id() {
    let mut h = fixture("Hi", vec![]);
    h.references = vec!["<a@x>".into(), "<b@x>".into()];
    h.rfc822_message_id = Some("<c@x>".to_string());
    assert_eq!(
        reply_references(&h),
        vec!["<a@x>".to_string(), "<b@x>".into(), "<c@x>".into()]
    );
}

#[test]
fn reply_references_falls_back_to_in_reply_to_when_chain_empty() {
    let mut h = fixture("Hi", vec![]);
    h.references = vec![];
    h.in_reply_to = Some("<parent@x>".to_string());
    h.rfc822_message_id = Some("<c@x>".to_string());
    assert_eq!(
        reply_references(&h),
        vec!["<parent@x>".to_string(), "<c@x>".into()]
    );
}

#[test]
fn reply_references_handles_no_message_id() {
    let mut h = fixture("Hi", vec![]);
    h.references = vec!["<a@x>".into()];
    h.rfc822_message_id = None;
    assert_eq!(reply_references(&h), vec!["<a@x>".to_string()]);
}

#[test]
fn quote_body_includes_attribution_and_quoted_lines() {
    let h = fixture("Hi", vec![addr(Some("Jane Doe"), "jane@example.com")]);
    let r = rendered_with_body(h, Some("line 1\nline 2\n\nline 4"));
    let quoted = quote_body_for_reply(&r, None);
    assert!(quoted.contains("Jane Doe <jane@example.com> wrote:"));
    assert!(quoted.contains("> line 1"));
    assert!(quoted.contains("> line 2"));
    assert!(quoted.contains("\n>\n> line 4"));
}

#[test]
fn quote_body_handles_missing_plaintext() {
    let h = fixture("Hi", vec![addr(None, "from@example.com")]);
    let r = rendered_with_body(h, None);
    let quoted = quote_body_for_reply(&r, None);
    assert!(quoted.contains("(no plaintext body"));
}

#[test]
fn forward_body_includes_header_block_and_original_body() {
    let mut h = fixture("Subj", vec![addr(Some("Sender"), "sender@example.com")]);
    h.to = vec![addr(None, "me@example.com")];
    h.cc = vec![addr(None, "alice@example.com")];
    let r = rendered_with_body(h, Some("body content"));
    let fwd = forward_body(&r);
    assert!(fwd.contains("---------- Forwarded message ----------"));
    assert!(fwd.contains("From: Sender <sender@example.com>"));
    assert!(fwd.contains("To: me@example.com"));
    assert!(fwd.contains("Cc: alice@example.com"));
    assert!(fwd.contains("Subject: Subj"));
    assert!(fwd.contains("body content"));
}

#[test]
fn a_reply_starts_with_the_quoted_message() {
    let mut h = fixture("Hi", vec![addr(Some("Jane Doe"), "jane@example.com")]);
    h.date = 1_777_300_320;
    let r = rendered_with_body(h, Some("line 1\nline 2\n\nline 4"));
    assert_eq!(
        quote_body_for_reply(&r, None),
        "\n\nOn 2026-04-27 14:32, Jane Doe <jane@example.com> wrote:\n\
         > line 1\n> line 2\n>\n> line 4\n"
    );
    assert!(forward_body(&r).contains("Date: 2026-04-27 14:32 UTC\n"));
}

#[test]
fn years_beyond_four_digits_keep_their_sign() {
    let on = |date: i64| {
        let mut h = fixture("Hi", vec![]);
        h.date = date;
        quote_body_for_reply(&rendered_with_body(h, Some("x")), None)
    };
    assert!(on(-62_167_219_200).contains("On 0000-01-01 00:00, (unknown sender) wrote:"));
    assert!(on(-62_167_219_201).contains("On -0001-12-31 23:59, "));
    assert!(on(253_402_300_800).contains("On +10000-01-01 00:00, "));
    assert!(on(951_782_400 + 59).contains("On 2000-02-29 00:00, "));
    assert!(on(-8_334_601_228_800).contains("On -262143-01-01 00:00, "));
    assert!(on(8_210_266_876_799).contains("On +262142-12-31 23:59, "));
}
