//! The mail data that the rest of the library works on.
use vstd::prelude::*;

verus! {

/// Identifies an account, as `provider:email`.
#[derive(Debug, PartialEq, Eq, Hash)]
pub struct AccountId(pub String);

impl View for AccountId {
    type V = Seq<char>;

    open spec fn view(&self) -> Seq<char> {
        self.0@
    }
}

impl DeepView for AccountId {
    type V = Seq<char>;

    open spec fn deep_view(&self) -> Seq<char> {
        self.0@
    }
}

impl Clone for AccountId {
    fn clone(&self) -> (r: Self)
        ensures
            r == *self,
    {
        AccountId(self.0.clone())
    }
}

impl AccountId {
    /// Do both name the same thing?
    pub fn same(&self, other: &AccountId) -> (r: bool)
        ensures
            r == (self@ == other@),
    {
        self.0 == other.0
    }
}

/// Identifies a folder of an account.
#[derive(Debug, PartialEq, Eq, Hash)]
pub struct FolderId(pub String);

impl View for FolderId {
    type V = Seq<char>;

    open spec fn view(&self) -> Seq<char> {
        self.0@
    }
}

impl DeepView for FolderId {
    type V = Seq<char>;

    open spec fn deep_view(&self) -> Seq<char> {
        self.0@
    }
}

impl Clone for FolderId {
    fn clone(&self) -> (r: Self)
        ensures
            r == *self,
    {
        FolderId(self.0.clone())
    }
}

impl FolderId {
    /// Do both name the same thing?
    pub fn same(&self, other: &FolderId) -> (r: bool)
        ensures
            r == (self@ == other@),
    {
        self.0 == other.0
    }
}

/// Identifies a message.
#[derive(Debug, PartialEq, Eq, Hash)]
pub struct MessageId(pub String);

impl View for MessageId {
    type V = Seq<char>;

    open spec fn view(&self) -> Seq<char> {
        self.0@
    }
}

impl DeepView for MessageId {
    type V = Seq<char>;

    open spec fn deep_view(&self) -> Seq<char> {
        self.0@
    }
}

impl Clone for MessageId {
    fn clone(&self) -> (r: Self)
        ensures
            r == *self,
    {
        MessageId(self.0.clone())
    }
}

impl MessageId {
    /// Do both name the same thing?
    pub fn same(&self, other: &MessageId) -> (r: bool)
        ensures
            r == (self@ == other@),
    {
        self.0 == other.0
    }
}

/// Identifies a conversation.
#[derive(Debug, PartialEq, Eq, Hash)]
pub struct ThreadId(pub String);

impl View for ThreadId {
    type V = Seq<char>;

    open spec fn view(&self) -> Seq<char> {
        self.0@
    }
}

impl DeepView for ThreadId {
    type V = Seq<char>;

    open spec fn deep_view(&self) -> Seq<char> {
        self.0@
    }
}

impl Clone for ThreadId {
    fn clone(&self) -> (r: Self)
        ensures
            r == *self,
    {
        ThreadId(self.0.clone())
    }
}

impl ThreadId {
    /// Do both name the same thing?
    pub fn same(&self, other: &ThreadId) -> (r: bool)
        ensures
            r == (self@ == other@),
    {
        self.0 == other.0
    }
}

/// Identifies a saved draft.
#[derive(Debug, PartialEq, Eq, Hash)]
pub struct DraftId(pub String);

impl View for DraftId {
    type V = Seq<char>;

    open spec fn view(&self) -> Seq<char> {
        self.0@
    }
}

impl DeepView for DraftId {
    type V = Seq<char>;

    open spec fn deep_view(&self) -> Seq<char> {
        self.0@
    }
}

impl Clone for DraftId {
    fn clone(&self) -> (r: Self)
        ensures
            r == *self,
    {
        DraftId(self.0.clone())
    }
}

impl DraftId {
    /// Do both name the same thing?
    pub fn same(&self, other: &DraftId) -> (r: bool)
        ensures
            r == (self@ == other@),
    {
        self.0 == other.0
    }
}

/// Identifies one part of a message, as `part/` and its index.
#[derive(Debug, PartialEq, Eq, Hash)]
pub struct AttachmentRef(pub String);

impl View for AttachmentRef {
    type V = Seq<char>;

    open spec fn view(&self) -> Seq<char> {
        self.0@
    }
}

impl DeepView for AttachmentRef {
    type V = Seq<char>;

    open spec fn deep_view(&self) -> Seq<char> {
        self.0@
    }
}

impl Clone for AttachmentRef {
    fn clone(&self) -> (r: Self)
        ensures
            r == *self,
    {
        AttachmentRef(self.0.clone())
    }
}

impl AttachmentRef {
    /// Do both name the same thing?
    pub fn same(&self, other: &AttachmentRef) -> (r: bool)
        ensures
            r == (self@ == other@),
    {
        self.0 == other.0
    }
}

/// What an optional text holds.
pub open spec fn opt_text(o: Option<String>) -> Option<Seq<char>> {
    match o {
        Some(s) => Some(s@),
        None => None,
    }
}

/// The texts that a list of strings holds.
pub open spec fn texts(v: Seq<String>) -> Seq<Seq<char>> {
    v.map_values(|s: String| s@)
}

/// A mailbox with an optional display name.
#[derive(Debug, PartialEq, Eq)]
pub struct EmailAddress {
    pub address: String,
    pub display_name: Option<String>,
}

/// The contents of an [`EmailAddress`].
pub struct AddressModel {
    pub address: Seq<char>,
    pub display_name: Option<Seq<char>>,
}

impl View for EmailAddress {
    type V = AddressModel;

    open spec fn view(&self) -> AddressModel {
        AddressModel { address: self.address@, display_name: opt_text(self.display_name) }
    }
}

impl Clone for EmailAddress {
    fn clone(&self) -> (r: Self)
        ensures
            r == *self,
    {
        EmailAddress { address: self.address.clone(), display_name: self.display_name.clone() }
    }
}

/// The contents of a list of addresses.
pub open spec fn addresses(v: Seq<EmailAddress>) -> Seq<AddressModel> {
    v.map_values(|a: EmailAddress| a@)
}

/// The IMAP state of a message.
#[derive(Debug, Clone, Copy, PartialEq, Eq, Structural)]
pub struct MessageFlags {
    pub seen: bool,
    pub flagged: bool,
    pub answered: bool,
    pub draft: bool,
}

impl MessageFlags {
    /// No flag is set.
    pub open spec fn none() -> MessageFlags {
        MessageFlags { seen: false, flagged: false, answered: false, draft: false }
    }
}

impl Default for MessageFlags {
    fn default() -> (r: Self)
        ensures
            r == MessageFlags::none(),
    {
        MessageFlags { seen: false, flagged: false, answered: false, draft: false }
    }
}

/// What a message list shows of a message. `date` is in seconds since the
/// Unix epoch.
#[derive(Debug, PartialEq, Eq)]
pub struct MessageHeaders {
    pub id: MessageId,
    pub account_id: AccountId,
    pub folder_id: FolderId,
    pub thread_id: Option<ThreadId>,
    pub rfc822_message_id: Option<String>,
    pub in_reply_to: Option<String>,
    pub references: Vec<String>,
    pub from: Vec<EmailAddress>,
    pub reply_to: Vec<EmailAddress>,
    pub to: Vec<EmailAddress>,
    pub cc: Vec<EmailAddress>,
    pub bcc: Vec<EmailAddress>,
    pub subject: String,
    pub snippet: String,
    pub date: i64,
    pub flags: MessageFlags,
    pub labels: Vec<String>,
    pub size: u64,
    pub has_attachments: bool,
}

/// The contents of [`MessageHeaders`].
pub struct HeadersModel {
    pub id: Seq<char>,
    pub account_id: Seq<char>,
    pub folder_id: Seq<char>,
    pub thread_id: Option<Seq<char>>,
    pub rfc822_message_id: Option<Seq<char>>,
    pub in_reply_to: Option<Seq<char>>,
    pub references: Seq<Seq<char>>,
    pub from: Seq<AddressModel>,
    pub reply_to: Seq<AddressModel>,
    pub to: Seq<AddressModel>,
    pub cc: Seq<AddressModel>,
    pub bcc: Seq<AddressModel>,
    pub subject: Seq<char>,
    pub snippet: Seq<char>,
    pub date: i64,
    pub flags: MessageFlags,
    pub labels: Seq<Seq<char>>,
    pub size: u64,
    pub has_attachments: bool,
}

/// The text of an optional conversation id.
pub open spec fn opt_thread(o: Option<ThreadId>) -> Option<Seq<char>> {
    match o {
        Some(t) => Some(t@),
        None => None,
    }
}

impl View for MessageHeaders {
    type V = HeadersModel;

    open spec fn view(&self) -> HeadersModel {
        HeadersModel {
            id: self.id@,
            account_id: self.account_id@,
            folder_id: self.folder_id@,
            thread_id: opt_thread(self.thread_id),
            rfc822_message_id: opt_text(self.rfc822_message_id),
            in_reply_to: opt_text(self.in_reply_to),
            references: texts(self.references@),
            from: addresses(self.from@),
            reply_to: addresses(self.reply_to@),
            to: addresses(self.to@),
            cc: addresses(self.cc@),
            bcc: addresses(self.bcc@),
            subject: self.subject@,
            snippet: self.snippet@,
            date: self.date,
            flags: self.flags,
            labels: texts(self.labels@),
            size: self.size,
            has_attachments: self.has_attachments,
        }
    }
}

/// A copy of a list of addresses.
pub fn clone_addresses(v: &Vec<EmailAddress>) -> (r: Vec<EmailAddress>)
    ensures
        r@ == v@,
{
    let r = v.clone();
    assert(r@ =~= v@);
    r
}

/// A copy of a list of texts.
pub fn clone_texts(v: &Vec<String>) -> (r: Vec<String>)
    ensures
        r@ == v@,
{
    let r = v.clone();
    assert(r@ =~= v@);
    r
}

impl Clone for MessageHeaders {
    fn clone(&self) -> (r: Self)
        ensures
            r@ == self@,
    {
        MessageHeaders {
            id: self.id.clone(),
            account_id: self.account_id.clone(),
            folder_id: self.folder_id.clone(),
            thread_id: self.thread_id.clone(),
            rfc822_message_id: self.rfc822_message_id.clone(),
            in_reply_to: self.in_reply_to.clone(),
            references: clone_texts(&self.references),
            from: clone_addresses(&self.from),
            reply_to: clone_addresses(&self.reply_to),
            to: clone_addresses(&self.to),
            cc: clone_addresses(&self.cc),
            bcc: clone_addresses(&self.bcc),
            subject: self.subject.clone(),
            snippet: self.snippet.clone(),
            date: self.date,
            flags: self.flags,
            labels: clone_texts(&self.labels),
            size: self.size,
            has_attachments: self.has_attachments,
        }
    }
}

/// The contents of a list of headers.
pub open spec fn headers_of(v: Seq<MessageHeaders>) -> Seq<HeadersModel> {
    v.map_values(|h: MessageHeaders| h@)
}

/// One part of a message that can be saved.
#[derive(Debug, PartialEq, Eq)]
pub struct Attachment {
    pub id: AttachmentRef,
    pub filename: String,
    pub size: u64,
}

/// A message as the reader shows it.
#[derive(Debug, PartialEq, Eq)]
pub struct RenderedMessage {
    pub headers: MessageHeaders,
    pub sanitized_html: Option<String>,
    pub body_text: Option<String>,
    pub attachments: Vec<Attachment>,
    pub sender_is_trusted: bool,
    pub remote_content_blocked: bool,
}

/// What a folder is for.
#[derive(Debug, Clone, Copy, PartialEq, Eq, Structural)]
pub enum FolderRole {
    Inbox,
    Sent,
    Drafts,
    Trash,
    Spam,
    Archive,
    Important,
    Flagged,
    All,
}

/// A folder of an account.
#[derive(Debug, PartialEq, Eq)]
pub struct Folder {
    pub id: FolderId,
    pub account_id: AccountId,
    pub name: String,
    pub path: String,
    pub role: Option<FolderRole>,
    pub unread_count: u32,
    pub total_count: u32,
    pub parent: Option<FolderId>,
}

impl Clone for Folder {
    fn clone(&self) -> (r: Self)
        ensures
            r == *self,
    {
        Folder {
            id: self.id.clone(),
            account_id: self.account_id.clone(),
            name: self.name.clone(),
            path: self.path.clone(),
            role: self.role,
            unread_count: self.unread_count,
            total_count: self.total_count,
            parent: self.parent.clone(),
        }
    }
}

/// Which protocol an account speaks.
#[derive(Debug, Clone, Copy, PartialEq, Eq, Structural)]
pub enum BackendKind {
    ImapSmtp,
    Jmap,
    Other,
}

/// A configured account. `created_at` is in seconds since the Unix epoch.
#[derive(Debug, PartialEq, Eq)]
pub struct Account {
    pub id: AccountId,
    pub kind: BackendKind,
    pub display_name: String,
    pub email_address: String,
    pub created_at: i64,
    pub signature: Option<String>,
    pub notify_enabled: bool,
}

impl Clone for Account {
    fn clone(&self) -> (r: Self)
        ensures
            r == *self,
    {
        Account {
            id: self.id.clone(),
            kind: self.kind,
            display_name: self.display_name.clone(),
            email_address: self.email_address.clone(),
            created_at: self.created_at,
            signature: self.signature.clone(),
            notify_enabled: self.notify_enabled,
        }
    }
}

/// A correspondent that autocompletion offers.
#[derive(Debug, PartialEq, Eq)]
pub struct Contact {
    pub address: String,
    pub display_name: Option<String>,
    pub last_seen_at: i64,
    pub seen_count: u32,
}

impl Clone for Contact {
    fn clone(&self) -> (r: Self)
        ensures
            r == *self,
    {
        Contact {
            address: self.address.clone(),
            display_name: self.display_name.clone(),
            last_seen_at: self.last_seen_at,
            seen_count: self.seen_count,
        }
    }
}

/// How the body of a draft is written.
#[derive(Debug, Clone, Copy, PartialEq, Eq, Structural)]
pub enum DraftBodyKind {
    Plain,
    Markdown,
}

/// A file that a draft carries.
#[derive(Debug, PartialEq, Eq)]
pub struct DraftAttachment {
    pub path: String,
    pub filename: String,
    pub mime_type: String,
    pub size_bytes: u64,
    pub inline: bool,
}

impl Clone for DraftAttachment {
    fn clone(&self) -> (r: Self)
        ensures
            r == *self,
    {
        DraftAttachment {
            path: self.path.clone(),
            filename: self.filename.clone(),
            mime_type: self.mime_type.clone(),
            size_bytes: self.size_bytes,
            inline: self.inline,
        }
    }
}

/// A copy of a list of attachments.
pub fn clone_attachments(v: &Vec<DraftAttachment>) -> (r: Vec<DraftAttachment>)
    ensures
        r@ == v@,
{
    let r = v.clone();
    assert(r@ =~= v@);
    r
}

/// A saved draft. The two times are in seconds since the Unix epoch.
#[derive(Debug, PartialEq, Eq)]
pub struct Draft {
    pub id: DraftId,
    pub account_id: AccountId,
    pub in_reply_to: Option<String>,
    pub references: Vec<String>,
    pub to: Vec<EmailAddress>,
    pub cc: Vec<EmailAddress>,
    pub bcc: Vec<EmailAddress>,
    pub subject: String,
    pub body: String,
    pub body_kind: DraftBodyKind,
    pub attachments: Vec<DraftAttachment>,
    pub created_at: i64,
    pub updated_at: i64,
}

/// A draft as the compose pane hands it over: without times, and without an
/// id until the first save.
#[derive(Debug, PartialEq, Eq)]
pub struct DraftInput {
    pub id: Option<DraftId>,
    pub account_id: AccountId,
    pub in_reply_to: Option<String>,
    pub references: Vec<String>,
    pub to: Vec<EmailAddress>,
    pub cc: Vec<EmailAddress>,
    pub bcc: Vec<EmailAddress>,
    pub subject: String,
    pub body: String,
    pub body_kind: DraftBodyKind,
    pub attachments: Vec<DraftAttachment>,
}

/// The contents of a [`DraftInput`].
pub struct DraftModel {
    pub id: Option<Seq<char>>,
    pub account_id: Seq<char>,
    pub in_reply_to: Option<Seq<char>>,
    pub references: Seq<Seq<char>>,
    pub to: Seq<AddressModel>,
    pub cc: Seq<AddressModel>,
    pub bcc: Seq<AddressModel>,
    pub subject: Seq<char>,
    pub body: Seq<char>,
    pub body_kind: DraftBodyKind,
    pub attachments: Seq<DraftAttachment>,
}

/// The text of an optional draft id.
pub open spec fn opt_draft(o: Option<DraftId>) -> Option<Seq<char>> {
    match o {
        Some(d) => Some(d@),
        None => None,
    }
}

/// The text of an optional account id.
pub open spec fn opt_account(o: Option<AccountId>) -> Option<Seq<char>> {
    match o {
        Some(a) => Some(a@),
        None => None,
    }
}

/// The text of an optional folder id.
pub open spec fn opt_folder(o: Option<FolderId>) -> Option<Seq<char>> {
    match o {
        Some(f) => Some(f@),
        None => None,
    }
}

/// The text of an optional message id.
pub open spec fn opt_message(o: Option<MessageId>) -> Option<Seq<char>> {
    match o {
        Some(m) => Some(m@),
        None => None,
    }
}

/// The texts of a list of message ids.
pub open spec fn message_ids(v: Seq<MessageId>) -> Seq<Seq<char>> {
    v.map_values(|m: MessageId| m@)
}

/// A copy of a list of message ids.
pub fn clone_message_ids(v: &Vec<MessageId>) -> (r: Vec<MessageId>)
    ensures
        r@ == v@,
{
    let r = v.clone();
    assert(r@ =~= v@);
    r
}

impl View for DraftInput {
    type V = DraftModel;

    open spec fn view(&self) -> DraftModel {
        DraftModel {
            id: opt_draft(self.id),
            account_id: self.account_id@,
            in_reply_to: opt_text(self.in_reply_to),
            references: texts(self.references@),
            to: addresses(self.to@),
            cc: addresses(self.cc@),
            bcc: addresses(self.bcc@),
            subject: self.subject@,
            body: self.body@,
            body_kind: self.body_kind,
            attachments: self.attachments@,
        }
    }
}

impl View for Draft {
    type V = DraftModel;

    open spec fn view(&self) -> DraftModel {
        DraftModel {
            id: Some(self.id@),
            account_id: self.account_id@,
            in_reply_to: opt_text(self.in_reply_to),
            references: texts(self.references@),
            to: addresses(self.to@),
            cc: addresses(self.cc@),
            bcc: addresses(self.bcc@),
            subject: self.subject@,
            body: self.body@,
            body_kind: self.body_kind,
            attachments: self.attachments@,
        }
    }
}

/// One page of a message list.
#[derive(Debug, PartialEq, Eq)]
pub struct MessagePage {
    pub messages: Vec<MessageHeaders>,
    pub total_count: u32,
    pub unread_count: u32,
}

/// What the sync engine reports of a folder.
#[derive(Debug, PartialEq, Eq)]
pub enum SyncEvent {
    FolderSynced {
        account: AccountId,
        folder: FolderId,
        added: u32,
        updated: u32,
        flag_updates: u32,
        removed: u32,
        unread_count: u32,
        live: bool,
    },
    FolderError { account: AccountId, folder: FolderId, error: String },
}

impl SyncEvent {
    /// The folder that the event is about.
    pub open spec fn folder_text(self) -> Seq<char> {
        match self {
            SyncEvent::FolderSynced { folder, .. } => folder@,
            SyncEvent::FolderError { folder, .. } => folder@,
        }
    }

    /// See [`SyncEvent::folder_text`].
    pub fn folder(&self) -> (r: &FolderId)
        ensures
            r@ == self.folder_text(),
    {
        match self {
            SyncEvent::FolderSynced { folder, .. } => folder,
            SyncEvent::FolderError { folder, .. } => folder,
        }
    }
}

/// What kind of failure a command reports.
#[derive(Debug, Clone, Copy, PartialEq, Eq, Structural)]
pub enum IpcErrorKind {
    NotFound,
    Permission,
    Auth,
    Network,
    Storage,
    Internal,
}

/// A failure that a command reports to the user interface.
#[derive(Debug, PartialEq, Eq)]
pub struct IpcError {
    pub kind: IpcErrorKind,
    pub message: String,
}

/// Nothing of a message or an address is left out of its contents.
pub proof fn law_contents_are_complete(h: MessageHeaders, a: EmailAddress)
    ensures
        a@.address == a.address@,
        a.display_name matches Some(n) ==> a@.display_name == Some(n@),
        a.display_name is None ==> a@.display_name is None,
        h@.id == h.id@,
        h@.account_id == h.account_id@,
        h@.folder_id == h.folder_id@,
        h.thread_id matches Some(t) ==> h@.thread_id == Some(t@),
        h.thread_id is None ==> h@.thread_id is None,
        h.rfc822_message_id matches Some(m) ==> h@.rfc822_message_id == Some(m@),
        h.rfc822_message_id is None ==> h@.rfc822_message_id is None,
        h.in_reply_to matches Some(m) ==> h@.in_reply_to == Some(m@),
        h.in_reply_to is None ==> h@.in_reply_to is None,
        h@.references.len() == h.references@.len(),
        h@.from.len() == h.from@.len(),
        h@.reply_to.len() == h.reply_to@.len(),
        h@.to.len() == h.to@.len(),
        h@.cc.len() == h.cc@.len(),
        h@.bcc.len() == h.bcc@.len(),
        h@.subject == h.subject@,
        h@.snippet == h.snippet@,
        h@.date == h.date,
        h@.flags == h.flags,
        h@.size == h.size,
        h@.has_attachments == h.has_attachments,
        forall|i: int|
            0 <= i < h.references@.len() ==> #[trigger] h@.references[i] == h.references@[i]@,
        forall|i: int| 0 <= i < h.from@.len() ==> #[trigger] h@.from[i] == h.from@[i]@,
        forall|i: int| 0 <= i < h.reply_to@.len() ==> #[trigger] h@.reply_to[i] == h.reply_to@[i]@,
        forall|i: int| 0 <= i < h.to@.len() ==> #[trigger] h@.to[i] == h.to@[i]@,
        forall|i: int| 0 <= i < h.cc@.len() ==> #[trigger] h@.cc[i] == h.cc@[i]@,
        forall|i: int| 0 <= i < h.bcc@.len() ==> #[trigger] h@.bcc[i] == h.bcc@[i]@,
{
}

/// Lists are read item by item, in order, and what is left out is left out.
pub proof fn law_lists_are_read_in_order(
    names: Seq<String>,
    people: Seq<EmailAddress>,
    mail: Seq<MessageHeaders>,
    ids: Seq<MessageId>,
    text: Option<String>,
    i: int,
)
    ensures
        texts(names).len() == names.len(),
        0 <= i < names.len() ==> texts(names)[i] == names[i]@,
        addresses(people).len() == people.len(),
        0 <= i < people.len() ==> addresses(people)[i] == people[i]@,
        headers_of(mail).len() == mail.len(),
        0 <= i < mail.len() ==> headers_of(mail)[i] == mail[i]@,
        message_ids(ids).len() == ids.len(),
        0 <= i < ids.len() ==> message_ids(ids)[i] == ids[i]@,
        text matches Some(t) ==> opt_text(text) == Some(t@),
        text is None ==> opt_text(text) is None,
{
}

/// A fresh set of flags has none set.
pub proof fn law_fresh_flags_are_clear()
    ensures
        !MessageFlags::none().seen,
        !MessageFlags::none().flagged,
        !MessageFlags::none().answered,
        !MessageFlags::none().draft,
{
}

/// Every event names its folder.
pub proof fn law_events_name_their_folder(e: SyncEvent)
    ensures
        e matches SyncEvent::FolderSynced { folder, .. } ==> e.folder_text() == folder@,
        e matches SyncEvent::FolderError { folder, .. } ==> e.folder_text() == folder@,
{
}

} // verus!
