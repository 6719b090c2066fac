//! The compose pane: its form, draft saving, and sending with an undo window.
use vstd::prelude::*;

use crate::addresses;
use crate::addresses::{format_addrs, parse_addrs, try_parse_addrs};
use crate::model;
use crate::model::{
    Account, AccountId, AddressModel, Draft, DraftAttachment, DraftBodyKind, DraftId, DraftInput,
    DraftModel, clone_attachments, clone_texts,
};
use crate::number;
use crate::number::bump_revision;
use crate::text;
use crate::text::{count_words, str_eq, trim};

verus! {

/// Which draft the compose pane opens with.
#[derive(Debug, PartialEq, Eq)]
pub struct ComposeState {
    /// The account to compose from, where one is selected.
    pub default_account: Option<AccountId>,
    /// The draft to load; none opens an empty form.
    pub draft_id: Option<DraftId>,
}

impl View for ComposeState {
    type V = (Option<Seq<char>>, Option<Seq<char>>);

    open spec fn view(&self) -> (Option<Seq<char>>, Option<Seq<char>>) {
        (model::opt_account(self.default_account), model::opt_draft(self.draft_id))
    }
}

/// What the compose pane says about saving.
#[derive(Debug, PartialEq, Eq)]
pub enum SaveStatus {
    Idle,
    Dirty,
    Saving,
    Saved,
    Error(String),
}

/// The contents of a [`SaveStatus`].
pub enum StatusModel {
    Idle,
    Dirty,
    Saving,
    Saved,
    Error(Seq<char>),
}

impl View for SaveStatus {
    type V = StatusModel;

    open spec fn view(&self) -> StatusModel {
        match self {
            SaveStatus::Idle => StatusModel::Idle,
            SaveStatus::Dirty => StatusModel::Dirty,
            SaveStatus::Saving => StatusModel::Saving,
            SaveStatus::Saved => StatusModel::Saved,
            SaveStatus::Error(e) => StatusModel::Error(e@),
        }
    }
}

impl SaveStatus {
    /// The CSS class and the text of the status label.
    pub fn label(&self) -> (r: (&'static str, String))
        ensures
            r.0@ == self@.label_class(),
            r.1@ == self@.label_text(),
    {
        match self {
            SaveStatus::Idle => ("compose-status muted", "".to_owned()),
            SaveStatus::Dirty => ("compose-status dirty", "Unsaved changes".to_owned()),
            SaveStatus::Saving => ("compose-status muted", "Saving…".to_owned()),
            SaveStatus::Saved => ("compose-status muted", "Saved".to_owned()),
            SaveStatus::Error(e) => {
                let mut t = "Save failed: ".to_owned();
                t.append(e);
                ("compose-status error", t)
            },
        }
    }
}

impl StatusModel {
    /// The CSS class of the status label.
    pub open spec fn label_class(self) -> Seq<char> {
        match self {
            StatusModel::Dirty => "compose-status dirty"@,
            StatusModel::Error(_) => "compose-status error"@,
            _ => "compose-status muted"@,
        }
    }

    /// The text of the status label.
    pub open spec fn label_text(self) -> Seq<char> {
        match self {
            StatusModel::Idle => ""@,
            StatusModel::Dirty => "Unsaved changes"@,
            StatusModel::Saving => "Saving…"@,
            StatusModel::Saved => "Saved"@,
            StatusModel::Error(e) => "Save failed: "@ + e,
        }
    }
}

/// The text fields of the form.
#[derive(Debug, Clone, Copy, PartialEq, Eq, Structural)]
pub enum Field {
    To,
    Cc,
    Bcc,
    Subject,
    Body,
}

/// The state of the compose pane.
#[derive(Debug, PartialEq, Eq)]
pub struct ComposeForm {
    pub draft_id: Option<DraftId>,
    pub account_id: Option<AccountId>,
    pub to: String,
    pub cc: String,
    pub bcc: String,
    pub subject: String,
    pub body: String,
    pub in_reply_to: Option<String>,
    pub references: Vec<String>,
    pub attachments: Vec<DraftAttachment>,
    /// The fields may be shown: nothing is left to load.
    pub loaded: bool,
    /// The form was opened on a saved draft.
    pub opened_draft: bool,
    pub bcc_revealed: bool,
    pub signature_applied: bool,
    /// Counts the user's edits; 0 before the first.
    pub last_change: u64,
    pub status: SaveStatus,
    pub send_in_flight: bool,
}

/// The contents of a [`ComposeForm`].
pub struct ComposeModel {
    pub draft_id: Option<Seq<char>>,
    pub account_id: Option<Seq<char>>,
    pub to: Seq<char>,
    pub cc: Seq<char>,
    pub bcc: Seq<char>,
    pub subject: Seq<char>,
    pub body: Seq<char>,
    pub in_reply_to: Option<Seq<char>>,
    pub references: Seq<Seq<char>>,
    pub attachments: Seq<DraftAttachment>,
    pub loaded: bool,
    pub opened_draft: bool,
    pub bcc_revealed: bool,
    pub signature_applied: bool,
    pub last_change: u64,
    pub status: StatusModel,
    pub send_in_flight: bool,
}

impl View for ComposeForm {
    type V = ComposeModel;

    open spec fn view(&self) -> ComposeModel {
        ComposeModel {
            draft_id: model::opt_draft(self.draft_id),
            account_id: model::opt_account(self.account_id),
            to: self.to@,
            cc: self.cc@,
            bcc: self.bcc@,
            subject: self.subject@,
            body: self.body@,
            in_reply_to: model::opt_text(self.in_reply_to),
            references: model::texts(self.references@),
            attachments: self.attachments@,
            loaded: self.loaded,
            opened_draft: self.opened_draft,
            bcc_revealed: self.bcc_revealed,
            signature_applied: self.signature_applied,
            last_change: self.last_change,
            status: self.status@,
            send_in_flight: self.send_in_flight,
        }
    }
}

/// The setting that holds an account's signature.
pub open spec fn signature_key(account: Seq<char>) -> Seq<char> {
    "compose.signature."@ + account
}

/// The setting that holds an account's signature, for example
/// `compose.signature.gmail:me@example.com`.
pub fn compose_signature_key(account_id: &AccountId) -> (r: String)
    ensures
        r@ == signature_key(account_id@),
{
    let mut r = "compose.signature.".to_owned();
    r.append(&account_id.0);
    r
}

/// What precedes a signature in a message body: a blank line and the
/// conventional delimiter, two hyphens and a space on a line of their own.
pub open spec fn signature_lead() -> Seq<char> {
    "\n\n-- \n"@
}

impl ComposeModel {
    /// An empty form.
    pub open spec fn fresh(account: Option<Seq<char>>, draft: Option<Seq<char>>) -> ComposeModel {
        ComposeModel {
            draft_id: draft,
            account_id: account,
            to: Seq::empty(),
            cc: Seq::empty(),
            bcc: Seq::empty(),
            subject: Seq::empty(),
            body: Seq::empty(),
            in_reply_to: None,
            references: Seq::empty(),
            attachments: Seq::empty(),
            loaded: draft is None,
            opened_draft: draft is Some,
            bcc_revealed: false,
            signature_applied: false,
            last_change: 0,
            status: StatusModel::Idle,
            send_in_flight: false,
        }
    }

    /// The form after the draft `d` was loaded into it.
    pub open spec fn hydrated(self, d: DraftModel) -> ComposeModel {
        ComposeModel {
            account_id: Some(d.account_id),
            to: addresses::address_line(d.to),
            cc: addresses::address_line(d.cc),
            bcc: addresses::address_line(d.bcc),
            bcc_revealed: self.bcc_revealed || text::trimmed(addresses::address_line(d.bcc)).len() > 0,
            subject: d.subject,
            body: d.body,
            in_reply_to: d.in_reply_to,
            references: d.references,
            attachments: d.attachments,
            loaded: true,
            ..self
        }
    }

    /// The form after one more edit.
    pub open spec fn bumped(self) -> ComposeModel {
        ComposeModel {
            last_change: number::next_revision(self.last_change),
            status: StatusModel::Dirty,
            ..self
        }
    }

    /// The form with one text field replaced.
    pub open spec fn with_field(self, field: Field, value: Seq<char>) -> ComposeModel {
        match field {
            Field::To => ComposeModel { to: value, ..self },
            Field::Cc => ComposeModel { cc: value, ..self },
            Field::Bcc => ComposeModel { bcc: value, ..self },
            Field::Subject => ComposeModel { subject: value, ..self },
            Field::Body => ComposeModel { body: value, ..self },
        }
    }

    /// A signature may still be appended: the form was opened empty, its body
    /// is still empty, and none was appended before.
    pub open spec fn open_to_signature(self) -> bool {
        !self.opened_draft && !self.signature_applied && self.body.len() == 0
    }

    /// The form after the signature lookup answered `setting`.
    pub open spec fn signed(self, setting: Option<Seq<char>>) -> ComposeModel {
        match setting {
            Some(sig) if text::trimmed(sig).len() > 0 && self.open_to_signature() => ComposeModel {
                body: signature_lead() + sig,
                signature_applied: true,
                ..self
            },
            _ => self,
        }
    }

    /// The three address lines can be read.
    pub open spec fn readable(self) -> bool {
        addresses::well_bracketed(self.to) && addresses::well_bracketed(self.cc) && addresses::well_bracketed(self.bcc)
    }

    /// The draft that the form stands for, written from `account`.
    pub open spec fn draft_for(self, account: Seq<char>) -> DraftModel {
        DraftModel {
            id: self.draft_id,
            account_id: account,
            in_reply_to: self.in_reply_to,
            references: self.references,
            to: addresses::parsed_addresses(self.to),
            cc: addresses::parsed_addresses(self.cc),
            bcc: addresses::parsed_addresses(self.bcc),
            subject: self.subject,
            body: self.body,
            body_kind: DraftBodyKind::Plain,
            attachments: self.attachments,
        }
    }

    /// The form names no recipient.
    pub open spec fn addressless(self) -> bool {
        addresses::parsed_addresses(self.to).len() == 0 && addresses::parsed_addresses(self.cc).len() == 0
            && addresses::parsed_addresses(self.bcc).len() == 0
    }
}

/// A signature is appended at most once, and never to a body that holds text.
pub proof fn law_signature_is_appended_once(
    m: ComposeModel,
    first: Option<Seq<char>>,
    second: Option<Seq<char>>,
)
    ensures
        m.body.len() > 0 ==> m.signed(first) == m,
        m.signed(first).signature_applied ==> m.signed(first).signed(second) == m.signed(first),
{
}

/// What a message answers stays with the form through every edit and with the
/// draft that is made of it.
pub proof fn law_edits_keep_what_is_answered(
    m: ComposeModel,
    field: Field,
    value: Seq<char>,
    setting: Option<Seq<char>>,
    account: Seq<char>,
)
    ensures
        ({
            let edited = m.with_field(field, value).bumped().signed(setting);
            &&& edited.in_reply_to == m.in_reply_to
            &&& edited.references == m.references
            &&& edited.draft_for(account).in_reply_to == m.in_reply_to
            &&& edited.draft_for(account).references == m.references
        }),
{
}

/// A draft that is opened and saved again is the same draft, as long as its
/// addresses can be read back; their names are not.
pub proof fn law_reopened_draft_is_kept(m: ComposeModel, d: DraftModel)
    requires
        forall|i: int| 0 <= i < d.to.len() ==> addresses::is_readable(#[trigger] d.to[i]),
        forall|i: int| 0 <= i < d.cc.len() ==> addresses::is_readable(#[trigger] d.cc[i]),
        forall|i: int| 0 <= i < d.bcc.len() ==> addresses::is_readable(#[trigger] d.bcc[i]),
    ensures
        m.hydrated(d).readable(),
        m.hydrated(d).draft_for(d.account_id) == (DraftModel {
            id: m.draft_id,
            to: d.to.map_values(|a: AddressModel| addresses::nameless(a)),
            cc: d.cc.map_values(|a: AddressModel| addresses::nameless(a)),
            bcc: d.bcc.map_values(|a: AddressModel| addresses::nameless(a)),
            body_kind: DraftBodyKind::Plain,
            ..d
        }),
{
    addresses::law_written_addresses_read_back(d.to);
    addresses::law_written_addresses_read_back(d.cc);
    addresses::law_written_addresses_read_back(d.bcc);
}

/// What a click on Send leads to.
#[derive(Debug, Clone, Copy, PartialEq, Eq, Structural)]
pub enum SendStart {
    /// A send is under way, or no account is chosen: nothing happens.
    Ignored,
    /// No recipient is given.
    Refused,
    /// The undo window may start.
    Accepted,
}

impl ComposeForm {
    /// The form that `initial` opens.
    pub fn open(initial: &ComposeState) -> (f: ComposeForm)
        ensures
            f@ == ComposeModel::fresh(
                model::opt_account(initial.default_account),
                model::opt_draft(initial.draft_id),
            ),
    {
        let f = ComposeForm {
            draft_id: initial.draft_id.clone(),
            account_id: initial.default_account.clone(),
            to: String::new(),
            cc: String::new(),
            bcc: String::new(),
            subject: String::new(),
            body: String::new(),
            in_reply_to: None,
            references: Vec::new(),
            attachments: Vec::new(),
            loaded: initial.draft_id.is_none(),
            opened_draft: initial.draft_id.is_some(),
            bcc_revealed: false,
            signature_applied: false,
            last_change: 0,
            status: SaveStatus::Idle,
            send_in_flight: false,
        };
        assert(model::texts(f.references@) =~= Seq::<Seq<char>>::empty());
        f
    }

    /// Takes the answer to loading the draft that the form was opened on. A
    /// failed load leaves the form empty, and shows it.
    pub fn hydrate(&mut self, loaded: Result<Draft, String>)
        ensures
            final(self)@ == match loaded {
                Ok(d) => old(self)@.hydrated(d@),
                Err(_) => (ComposeModel { loaded: true, ..old(self)@ }),
            },
    {
        match loaded {
            Ok(d) => {
                self.account_id = Some(d.account_id);
                self.to = format_addrs(&d.to);
                self.cc = format_addrs(&d.cc);
                let bcc = format_addrs(&d.bcc);
                if !trim(&bcc).as_str().is_empty() {
                    self.bcc_revealed = true;
                }
                self.bcc = bcc;
                self.subject = d.subject;
                self.body = d.body;
                self.in_reply_to = d.in_reply_to;
                self.references = d.references;
                self.attachments = d.attachments;
                self.loaded = true;
            },
            Err(_) => {
                self.loaded = true;
            },
        }
    }

    /// The setting to read for a signature: none where the form was opened on
    /// a draft, has a signature or a body, or no account.
    pub fn signature_wanted(&self) -> (r: Option<String>)
        ensures
            r is Some <==> self@.open_to_signature() && self.account_id is Some,
            r matches Some(k) ==> k@ == signature_key(self.account_id->0@),
    {
        if self.opened_draft || self.signature_applied || !self.body.as_str().is_empty() {
            return None;
        }
        match &self.account_id {
            Some(a) => Some(compose_signature_key(a)),
            None => None,
        }
    }

    /// Takes the answer to the signature lookup.
    pub fn apply_signature(&mut self, setting: Option<String>)
        ensures
            final(self)@ == old(self)@.signed(model::opt_text(setting)),
    {
        if let Some(sig) = setting {
            if !trim(&sig).as_str().is_empty() && self.body.as_str().is_empty()
                && !self.signature_applied && !self.opened_draft {
                let mut b = "\n\n-- \n".to_owned();
                b.append(&sig);
                self.body = b;
                self.signature_applied = true;
            }
        }
    }

    /// Counts an edit and marks the form unsaved.
    pub fn bump(&mut self)
        ensures
            final(self)@ == old(self)@.bumped(),
    {
        self.last_change = bump_revision(self.last_change);
        self.status = SaveStatus::Dirty;
    }

    /// The user edited a text field.
    pub fn edit(&mut self, field: Field, value: String)
        ensures
            final(self)@ == old(self)@.with_field(field, value@).bumped(),
    {
        match field {
            Field::To => {
                self.to = value;
            },
            Field::Cc => {
                self.cc = value;
            },
            Field::Bcc => {
                self.bcc = value;
            },
            Field::Subject => {
                self.subject = value;
            },
            Field::Body => {
                self.body = value;
            },
        }
        self.bump();
    }

    /// The user chose an account; the empty text chooses none.
    pub fn choose_account(&mut self, raw: String)
        ensures
            final(self)@ == (ComposeModel {
                account_id: if raw@.len() == 0 {
                    None
                } else {
                    Some(raw@)
                },
                ..old(self)@
            }).bumped(),
    {
        if raw.as_str().is_empty() {
            self.account_id = None;
        } else {
            self.account_id = Some(AccountId(raw));
        }
        self.bump();
    }

    /// Shows the Bcc field for the rest of the session.
    pub fn reveal_bcc(&mut self)
        ensures
            final(self)@ == (ComposeModel { bcc_revealed: true, ..old(self)@ }),
    {
        self.bcc_revealed = true;
    }

    /// Takes the files that the user picked. An empty pick (the dialog was
    /// cancelled) changes nothing.
    pub fn add_attachments(&mut self, picked: Vec<DraftAttachment>)
        ensures
            final(self)@ == if picked@.len() == 0 {
                old(self)@
            } else {
                (ComposeModel {
                    attachments: old(self)@.attachments + picked@,
                    ..old(self)@
                }).bumped()
            },
    {
        if picked.len() == 0 {
            return;
        }
        let mut more = picked;
        self.attachments.append(&mut more);
        self.bump();
    }

    /// Drops the attachment at `index`, where there is one.
    pub fn remove_attachment(&mut self, index: usize)
        ensures
            final(self)@ == (ComposeModel {
                attachments: if index < old(self)@.attachments.len() {
                    old(self)@.attachments.remove(index as int)
                } else {
                    old(self)@.attachments
                },
                ..old(self)@
            }).bumped(),
    {
        if index < self.attachments.len() {
            let _ = self.attachments.remove(index);
        }
        self.bump();
    }

    /// Can the three address lines be read?
    pub fn is_readable(&self) -> (r: bool)
        ensures
            r == self@.readable(),
    {
        try_parse_addrs(&self.to).is_some() && try_parse_addrs(&self.cc).is_some()
            && try_parse_addrs(&self.bcc).is_some()
    }

    /// The draft that the form stands for; none where no account is chosen.
    pub fn snapshot(&self) -> (r: Option<DraftInput>)
        requires
            self@.readable(),
        ensures
            r is Some <==> self.account_id is Some,
            r matches Some(d) ==> d@ == self@.draft_for(self.account_id->0@),
    {
        match &self.account_id {
            None => None,
            Some(account) => Some(
                DraftInput {
                    id: self.draft_id.clone(),
                    account_id: account.clone(),
                    in_reply_to: self.in_reply_to.clone(),
                    references: clone_texts(&self.references),
                    to: parse_addrs(&self.to),
                    cc: parse_addrs(&self.cc),
                    bcc: parse_addrs(&self.bcc),
                    subject: self.subject.clone(),
                    body: self.body.clone(),
                    body_kind: DraftBodyKind::Plain,
                    attachments: clone_attachments(&self.attachments),
                },
            ),
        }
    }

    /// The draft to save when the form rests: none before the first edit, or
    /// without an account.
    pub fn autosave(&self) -> (r: Option<DraftInput>)
        requires
            self@.readable(),
        ensures
            r is Some <==> self.last_change != 0 && self.account_id is Some,
            r matches Some(d) ==> d@ == self@.draft_for(self.account_id->0@),
    {
        if self.last_change == 0 {
            return None;
        }
        self.snapshot()
    }

    /// An automatic save that was scheduled at revision `scheduled_at` still
    /// holds the latest text.
    pub fn autosave_is_current(&self, scheduled_at: u64) -> (r: bool)
        ensures
            r == (self.last_change == scheduled_at),
    {
        self.last_change == scheduled_at
    }

    /// The user asked to save now: the draft to save, where an account is
    /// chosen.
    pub fn manual_save(&mut self) -> (r: Option<DraftInput>)
        requires
            old(self)@.readable(),
        ensures
            r is Some <==> old(self).account_id is Some,
            r matches Some(d) ==> d@ == old(self)@.draft_for(old(self).account_id->0@),
            final(self)@ == if r is Some {
                (ComposeModel { status: StatusModel::Saving, ..old(self)@ })
            } else {
                old(self)@
            },
    {
        let r = self.snapshot();
        if r.is_some() {
            self.status = SaveStatus::Saving;
        }
        r
    }

    /// Takes the answer to a save; whether the lists must be refreshed.
    pub fn save_answered(&mut self, answer: Result<DraftId, String>) -> (refresh: bool)
        ensures
            refresh == (answer is Ok),
            final(self)@ == match answer {
                Ok(id) => (ComposeModel {
                    draft_id: Some(id@),
                    status: StatusModel::Saved,
                    ..old(self)@
                }),
                Err(e) => (ComposeModel { status: StatusModel::Error(e@), ..old(self)@ }),
            },
    {
        match answer {
            Ok(id) => {
                self.draft_id = Some(id);
                self.status = SaveStatus::Saved;
                true
            },
            Err(e) => {
                self.status = SaveStatus::Error(e);
                false
            },
        }
    }

    /// The user clicked Send while `undo_pending` tells whether an earlier
    /// click still waits.
    pub fn start_send(&mut self, undo_pending: bool) -> (r: SendStart)
        requires
            old(self)@.readable(),
        ensures
            r == if old(self).send_in_flight || undo_pending || old(self).account_id is None {
                SendStart::Ignored
            } else if old(self)@.addressless() {
                SendStart::Refused
            } else {
                SendStart::Accepted
            },
            final(self)@ == if r == SendStart::Refused {
                (ComposeModel {
                    status: StatusModel::Error("Add at least one recipient"@),
                    ..old(self)@
                })
            } else {
                old(self)@
            },
    {
        if self.send_in_flight || undo_pending || self.account_id.is_none() {
            return SendStart::Ignored;
        }
        let to = parse_addrs(&self.to);
        let cc = parse_addrs(&self.cc);
        let bcc = parse_addrs(&self.bcc);
        if to.len() == 0 && cc.len() == 0 && bcc.len() == 0 {
            self.status = SaveStatus::Error("Add at least one recipient".to_owned());
            return SendStart::Refused;
        }
        SendStart::Accepted
    }

    /// The undo window has passed: the draft to save before it is sent. Edits
    /// that were made during the window are in it.
    pub fn submit(&mut self) -> (r: Option<DraftInput>)
        requires
            old(self)@.readable(),
        ensures
            r is Some <==> old(self).account_id is Some,
            r matches Some(d) ==> d@ == old(self)@.draft_for(old(self).account_id->0@),
            final(self)@ == if r is Some {
                (ComposeModel {
                    status: StatusModel::Saving,
                    send_in_flight: true,
                    ..old(self)@
                })
            } else {
                old(self)@
            },
    {
        let r = self.snapshot();
        if r.is_some() {
            self.send_in_flight = true;
            self.status = SaveStatus::Saving;
        }
        r
    }

    /// Takes the answer to the save that precedes a send: the draft to send.
    pub fn submit_saved(&mut self, answer: Result<DraftId, String>) -> (r: Option<DraftId>)
        ensures
            model::opt_draft(r) == match answer {
                Ok(id) => Some(id@),
                Err(_) => None,
            },
            final(self)@ == match answer {
                Ok(id) => (ComposeModel { draft_id: Some(id@), ..old(self)@ }),
                Err(e) => (ComposeModel {
                    status: StatusModel::Error(e@),
                    send_in_flight: false,
                    ..old(self)@
                }),
            },
    {
        match answer {
            Ok(id) => {
                self.draft_id = Some(id.clone());
                Some(id)
            },
            Err(e) => {
                self.status = SaveStatus::Error(e);
                self.send_in_flight = false;
                None
            },
        }
    }

    /// Takes the answer to the send; whether the pane closes and the lists are
    /// refreshed.
    pub fn send_answered(&mut self, answer: Result<(), String>) -> (close: bool)
        ensures
            close == (answer is Ok),
            final(self)@ == match answer {
                Ok(_) => old(self)@,
                Err(e) => (ComposeModel {
                    status: StatusModel::Error("Send failed: "@ + e@),
                    send_in_flight: false,
                    ..old(self)@
                }),
            },
    {
        match answer {
            Ok(_) => true,
            Err(e) => {
                let mut t = "Send failed: ".to_owned();
                t.append(&e);
                self.status = SaveStatus::Error(t);
                self.send_in_flight = false;
                false
            },
        }
    }

    /// Cancels a send that waits in the undo window. Where none waits, nothing
    /// changes.
    pub fn cancel_undo_send(&mut self, pending: Option<u64>) -> (r: Option<u64>)
        ensures
            r is None,
            final(self)@ == if pending is Some {
                (ComposeModel { status: StatusModel::Idle, ..old(self)@ })
            } else {
                old(self)@
            },
    {
        if pending.is_some() {
            self.status = SaveStatus::Idle;
        }
        None
    }

    /// The draft to delete when the form is discarded.
    pub fn discard(&self) -> (r: Option<DraftId>)
        ensures
            r == self.draft_id,
    {
        self.draft_id.clone()
    }

    /// The subject as the head of the pane shows it.
    pub fn subject_label(&self) -> (r: String)
        ensures
            r@ == subject_or_placeholder(self.subject@),
    {
        shown_subject(&self.subject)
    }

    /// How many words and how many characters the body holds.
    pub fn body_counts(&self) -> (r: (usize, usize))
        ensures
            r.0 == text::word_count(self.body@),
            r.1 == self.body@.len(),
    {
        (count_words(&self.body), self.body.as_str().unicode_len())
    }
}

/// A subject as it is shown: an empty one is named.
pub open spec fn subject_or_placeholder(subject: Seq<char>) -> Seq<char> {
    if subject.len() == 0 {
        "(no subject)"@
    } else {
        subject
    }
}

/// See [`subject_or_placeholder`].
pub fn shown_subject(subject: &String) -> (r: String)
    ensures
        r@ == subject_or_placeholder(subject@),
{
    if subject.as_str().is_empty() {
        "(no subject)".to_owned()
    } else {
        subject.clone()
    }
}

/// How an account reads in the list of senders.
pub fn account_option_label(a: &Account) -> (r: String)
    ensures
        r@ == a.display_name@ + " — "@ + a.email_address@,
{
    let mut r = a.display_name.clone();
    r.append(" — ");
    r.append(&a.email_address);
    r
}

// ---------------------------------------------------------------------
// The undo window
// ---------------------------------------------------------------------

/// How many seconds a send is held, by the setting `compose.undo_send`.
pub open spec fn undo_seconds(setting: Option<Seq<char>>) -> u64 {
    if setting == Some("5"@) {
        5
    } else if setting == Some("10"@) {
        10
    } else if setting == Some("30"@) {
        30
    } else {
        0
    }
}

/// See [`undo_seconds`].
pub fn hold_seconds(setting: &Option<String>) -> (r: u64)
    ensures
        r == undo_seconds(model::opt_text(*setting)),
{
    proof {
        reveal_strlit("5");
        reveal_strlit("10");
        reveal_strlit("30");
        assert("5"@ != "10"@ && "5"@ != "30"@) by {
            assert("5"@.len() != "10"@.len());
            assert("5"@.len() != "30"@.len());
        }
        assert("10"@ != "30"@) by {
            assert("10"@[0] != "30"@[0]);
        }
    }
    match setting {
        Some(s) => {
            if str_eq(s, "5") {
                5
            } else if str_eq(s, "10") {
                10
            } else if str_eq(s, "30") {
                30
            } else {
                0
            }
        },
        None => 0,
    }
}

/// See [`held_until`].
pub fn undo_deadline(now_ms: u64, hold_secs: u64) -> (r: Option<u64>)
    requires
        now_ms + hold_secs * 1000 <= u64::MAX,
    ensures
        match r {
            Some(d) => held_until(now_ms, hold_secs) == Some(d as int),
            None => held_until(now_ms, hold_secs) is None,
        },
{
    if hold_secs == 0 {
        None
    } else {
        Some(now_ms + hold_secs * 1000)
    }
}

/// What a tick of the undo window finds.
#[derive(Debug, Clone, Copy, PartialEq, Eq, Structural)]
pub enum HoldStep {
    /// The send was cancelled, or armed anew by another click.
    Dropped,
    /// The deadline is still ahead.
    Waiting,
    /// The message goes out.
    Due,
}

/// What a tick finds in the window that `deadline` ends, while `pending` is the
/// deadline that is armed now.
pub open spec fn hold_found(pending: Option<u64>, deadline: u64, now_ms: u64) -> HoldStep {
    if pending != Some(deadline) {
        HoldStep::Dropped
    } else if now_ms >= deadline {
        HoldStep::Due
    } else {
        HoldStep::Waiting
    }
}

/// The moment at which a send that is held from `now_ms` goes out; none where it
/// is not held.
pub open spec fn held_until(now_ms: u64, hold_secs: u64) -> Option<int> {
    if hold_secs == 0 {
        None
    } else {
        Some(now_ms + hold_secs * 1000)
    }
}

/// A send that is held goes out no earlier than its time is over, and not at all
/// once it was cancelled or another was armed in its place.
pub proof fn law_held_send_goes_out_in_time(
    armed_ms: u64,
    hold_secs: u64,
    pending: Option<u64>,
    deadline: u64,
    now_ms: u64,
)
    requires
        held_until(armed_ms, hold_secs) == Some(deadline as int),
    ensures
        hold_found(pending, deadline, now_ms) == HoldStep::Due ==> pending == Some(deadline)
            && now_ms >= armed_ms + hold_secs * 1000,
        hold_found(None, deadline, now_ms) == HoldStep::Dropped,
{
}

/// See [`hold_found`].
pub fn hold_step(pending: Option<u64>, deadline: u64, now_ms: u64) -> (r: HoldStep)
    ensures
        r == hold_found(pending, deadline, now_ms),
{
    match pending {
        Some(p) if p == deadline => {
            if now_ms >= deadline {
                HoldStep::Due
            } else {
                HoldStep::Waiting
            }
        },
        _ => HoldStep::Dropped,
    }
}

/// The whole seconds that the countdown shows, rounded up; 0 once the
/// deadline is past.
pub fn countdown_seconds(deadline: u64, now_ms: u64) -> (r: u64)
    ensures
        now_ms >= deadline ==> r == 0,
        now_ms < deadline ==> (r - 1) * 1000 < deadline - now_ms <= r * 1000,
{
    if now_ms >= deadline {
        0
    } else {
        let left: u64 = deadline - now_ms;
        if left % 1000 == 0 {
            left / 1000
        } else {
            left / 1000 + 1
        }
    }
}

/// The key that sends from the body field.
pub fn is_send_key(key: &str, ctrl_or_meta: bool) -> (r: bool)
    ensures
        r == (ctrl_or_meta && key@ == "Enter"@),
{
    ctrl_or_meta && str_eq(key, "Enter")
}

// ---------------------------------------------------------------------
// What becomes of what was written
// ---------------------------------------------------------------------

/// A signature that says anything is appended to an untouched form, below the
/// line that sets signatures off, and changes nothing else.
pub proof fn law_signatures_are_appended(m: ComposeModel, sig: Seq<char>)
    requires
        !m.opened_draft,
        !m.signature_applied,
        m.body.len() == 0,
    ensures
        text::trimmed(sig).len() > 0 ==> m.signed(Some(sig)) == (ComposeModel {
            body: "\n\n-- \n"@ + sig,
            signature_applied: true,
            ..m
        }),
        text::trimmed(sig).len() == 0 ==> m.signed(Some(sig)) == m,
        m.signed(None) == m,
{
}

/// Drafts are never signed again, nor what has a body or a signature.
pub proof fn law_what_is_written_is_not_signed(m: ComposeModel, setting: Option<Seq<char>>)
    requires
        m.opened_draft || m.signature_applied || m.body.len() > 0,
    ensures
        m.signed(setting) == m,
        !m.open_to_signature(),
{
}

/// The draft holds what the form holds: the addresses of its three lines, its
/// subject and body, what it answers and its attachments, under the draft's own
/// id. It is sent only where it has an address.
pub proof fn law_the_draft_holds_the_form(m: ComposeModel, account: Seq<char>)
    ensures
        m.draft_for(account).id == m.draft_id,
        m.draft_for(account).account_id == account,
        m.draft_for(account).to == addresses::parsed_addresses(m.to),
        m.draft_for(account).cc == addresses::parsed_addresses(m.cc),
        m.draft_for(account).bcc == addresses::parsed_addresses(m.bcc),
        m.draft_for(account).subject == m.subject,
        m.draft_for(account).body == m.body,
        m.draft_for(account).body_kind == DraftBodyKind::Plain,
        m.draft_for(account).in_reply_to == m.in_reply_to,
        m.draft_for(account).references == m.references,
        m.draft_for(account).attachments == m.attachments,
        m.addressless() <==> m.draft_for(account).to.len() + m.draft_for(account).cc.len()
            + m.draft_for(account).bcc.len() == 0,
        m.readable() <==> addresses::well_bracketed(m.to) && addresses::well_bracketed(m.cc)
            && addresses::well_bracketed(m.bcc),
{
}

/// An edit changes the field that it is made in and no other, and is not saved
/// yet.
pub proof fn law_an_edit_changes_one_field(m: ComposeModel, value: Seq<char>)
    ensures
        m.with_field(Field::To, value) == (ComposeModel { to: value, ..m }),
        m.with_field(Field::Cc, value) == (ComposeModel { cc: value, ..m }),
        m.with_field(Field::Bcc, value) == (ComposeModel { bcc: value, ..m }),
        m.with_field(Field::Subject, value) == (ComposeModel { subject: value, ..m }),
        m.with_field(Field::Body, value) == (ComposeModel { body: value, ..m }),
        m.bumped().last_change != m.last_change,
        m.bumped().status == StatusModel::Dirty,
        m.bumped() == (ComposeModel {
            last_change: m.bumped().last_change,
            status: StatusModel::Dirty,
            ..m
        }),
{
    number::law_revisions_differ(m.last_change);
}

/// A form starts empty, for the account it was opened for; on a draft it waits
/// for the draft.
pub proof fn law_a_form_starts_empty(account: Option<Seq<char>>, draft: Option<Seq<char>>)
    ensures
        ({
            let m = ComposeModel::fresh(account, draft);
            &&& m.account_id == account
            &&& m.draft_id == draft
            &&& m.loaded <==> draft is None
            &&& m.opened_draft <==> draft is Some
            &&& m.to.len() == 0 && m.cc.len() == 0 && m.bcc.len() == 0
            &&& m.subject.len() == 0 && m.body.len() == 0
            &&& m.in_reply_to is None && m.references.len() == 0 && m.attachments.len() == 0
            &&& !m.signature_applied && !m.bcc_revealed && !m.send_in_flight
            &&& m.status == StatusModel::Idle && m.last_change == 0
        }),
{
}

/// A draft that is opened is shown whole: its addresses with their names, its
/// subject and body, what it answers and its attachments. A blind copy is shown
/// where it has one.
pub proof fn law_an_opened_draft_is_shown(m: ComposeModel, d: DraftModel)
    ensures
        m.hydrated(d).account_id == Some(d.account_id),
        m.hydrated(d).draft_id == m.draft_id,
        m.hydrated(d).to == addresses::address_line(d.to),
        m.hydrated(d).cc == addresses::address_line(d.cc),
        m.hydrated(d).bcc == addresses::address_line(d.bcc),
        m.hydrated(d).subject == d.subject,
        m.hydrated(d).body == d.body,
        m.hydrated(d).in_reply_to == d.in_reply_to,
        m.hydrated(d).references == d.references,
        m.hydrated(d).attachments == d.attachments,
        m.hydrated(d).loaded,
        m.hydrated(d).opened_draft == m.opened_draft,
        m.hydrated(d).last_change == m.last_change,
        m.bcc_revealed ==> m.hydrated(d).bcc_revealed,
        text::trimmed(addresses::address_line(d.bcc)).len() > 0 ==> m.hydrated(d).bcc_revealed,
        !m.bcc_revealed && text::trimmed(addresses::address_line(d.bcc)).len() == 0
            ==> !m.hydrated(d).bcc_revealed,
        m.hydrated(d).signature_applied == m.signature_applied,
        m.hydrated(d).status == m.status,
        m.hydrated(d).send_in_flight == m.send_in_flight,
{
}

/// A send is held for as long as the setting says, five, ten or thirty seconds,
/// or not at all. Within that time it waits, unless it was taken back, and then
/// it goes out.
pub proof fn law_sends_are_held_as_set(
    now_ms: u64,
    deadline: u64,
    at: u64,
    secs: u64,
    other: Seq<char>,
)
    ensures
        undo_seconds(Some("5"@)) == 5,
        undo_seconds(Some("10"@)) == 10,
        undo_seconds(Some("30"@)) == 30,
        undo_seconds(None) == 0,
        other != "5"@ && other != "10"@ && other != "30"@ ==> undo_seconds(Some(other)) == 0,
        held_until(now_ms, 0) is None,
        secs > 0 ==> held_until(now_ms, secs) == Some(now_ms + 1000 * secs),
        at < deadline ==> hold_found(Some(deadline), deadline, at) == HoldStep::Waiting,
        at >= deadline ==> hold_found(Some(deadline), deadline, at) == HoldStep::Due,
        hold_found(None, deadline, at) == HoldStep::Dropped,
        now_ms != deadline ==> hold_found(Some(now_ms), deadline, at) == HoldStep::Dropped,
{
    reveal_strlit("5");
    reveal_strlit("10");
    reveal_strlit("30");
    assert("5"@[0] == '5');
    assert("10"@[0] == '1');
    assert("30"@[0] == '3');
}

/// The form says how its draft stands.
pub proof fn law_the_form_says_how_it_stands(e: Seq<char>, subject: Seq<char>)
    ensures
        StatusModel::Dirty.label_text() == "Unsaved changes"@,
        StatusModel::Dirty.label_class() == "compose-status dirty"@,
        StatusModel::Saving.label_text() == "Saving…"@,
        StatusModel::Saved.label_text() == "Saved"@,
        StatusModel::Idle.label_text() == ""@,
        StatusModel::Error(e).label_text() == "Save failed: "@ + e,
        StatusModel::Error(e).label_class() == "compose-status error"@,
        StatusModel::Saved.label_class() == "compose-status muted"@,
        StatusModel::Saving.label_class() == "compose-status muted"@,
        StatusModel::Idle.label_class() == "compose-status muted"@,
        subject.len() > 0 ==> subject_or_placeholder(subject) == subject,
        subject.len() == 0 ==> subject_or_placeholder(subject) == "(no subject)"@,
{
}

/// Each account has a signature of its own.
pub proof fn law_signatures_are_kept_by_account(a: Seq<char>, b: Seq<char>)
    ensures
        signature_key(a) == signature_key(b) ==> a == b,
        signature_key(a) == "compose.signature."@ + a,
{
    let n = "compose.signature."@.len() as int;
    assert(signature_key(a).skip(n) =~= a);
    assert(signature_key(b).skip(n) =~= b);
}

} // verus!
