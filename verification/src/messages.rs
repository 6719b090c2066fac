//! Reading, changing and sending messages: what each command decides.
use vstd::prelude::*;

use crate::model;
use crate::model::{
    Account, AccountId, Attachment, Draft, EmailAddress, Folder, FolderId, FolderRole, HeadersModel,
    IpcError, IpcErrorKind, MessageFlags, MessageHeaders, MessagePage, RenderedMessage,
    clone_addresses,
};
use crate::outbox::GroupAction;
use crate::shell;
use crate::shell::find_role;
use crate::text::str_eq;

verus! {

// ---------------------------------------------------------------------
// Pages
// ---------------------------------------------------------------------

/// How many messages a page holds at most.
pub const MAX_PAGE_LIMIT: u32 = 500;

/// The page size for a requested one.
pub open spec fn page_limit(limit: u32) -> u32 {
    if limit > MAX_PAGE_LIMIT {
        MAX_PAGE_LIMIT
    } else {
        limit
    }
}

/// A page of rows to read.
#[derive(Debug, Clone, Copy, PartialEq, Eq, Structural)]
pub struct PageQuery {
    pub limit: u32,
    pub offset: u32,
}

/// The page to read for a request.
pub fn page_query(limit: u32, offset: u32) -> (r: PageQuery)
    ensures
        r == (PageQuery { limit: page_limit(limit), offset }),
{
    PageQuery {
        limit: if limit > MAX_PAGE_LIMIT {
            MAX_PAGE_LIMIT
        } else {
            limit
        },
        offset,
    }
}

/// How many older messages a request asks for: at least one.
pub fn older_limit(limit: u32) -> (r: u32)
    ensures
        r == if limit == 0 {
            1
        } else {
            page_limit(limit)
        },
{
    if limit == 0 {
        1
    } else if limit > MAX_PAGE_LIMIT {
        MAX_PAGE_LIMIT
    } else {
        limit
    }
}

/// The ids of a list of folders.
pub fn folder_ids(folders: &Vec<Folder>) -> (r: Vec<FolderId>)
    ensures
        r@ == folders@.map_values(|f: Folder| f.id),
{
    let mut r: Vec<FolderId> = Vec::new();
    let mut i: usize = 0;
    while i < folders.len()
        invariant
            i <= folders@.len(),
            r@.len() == i,
            forall|j: int| 0 <= j < i ==> #[trigger] r@[j] == folders@[j].id,
        decreases folders@.len() - i,
    {
        r.push(folders[i].id.clone());
        i = i + 1;
    }
    assert(r@ =~= folders@.map_values(|f: Folder| f.id));
    r
}

/// How many of the messages are unread.
pub open spec fn unread_among(list: Seq<HeadersModel>) -> nat
    decreases list.len(),
{
    if list.len() == 0 {
        0
    } else {
        unread_among(list.drop_last()) + if list.last().flags.seen {
            0nat
        } else {
            1nat
        }
    }
}

/// A count as it is reported: at most the greatest 32-bit number.
pub open spec fn capped(n: nat) -> u32 {
    if n > u32::MAX {
        u32::MAX
    } else {
        n as u32
    }
}

/// See [`capped`].
fn cap_count(n: usize) -> (r: u32)
    ensures
        r == capped(n as nat),
{
    if n as u64 > u32::MAX as u64 {
        u32::MAX
    } else {
        n as u32
    }
}

/// The rows that could be read; the others are left out.
pub open spec fn readable_rows(rows: Seq<Option<MessageHeaders>>) -> Seq<MessageHeaders>
    decreases rows.len(),
{
    if rows.len() == 0 {
        Seq::empty()
    } else {
        match rows.last() {
            Some(h) => readable_rows(rows.drop_last()).push(h),
            None => readable_rows(rows.drop_last()),
        }
    }
}

/// The page of a search keeps the order of its hits and leaves out none that
/// could be read: each message of the page is a hit, later messages are later
/// hits, and every hit that could be read has its place on the page.
pub proof fn law_hits_keep_their_order(rows: Seq<Option<MessageHeaders>>) -> (at: Seq<int>)
    ensures
        at.len() == readable_rows(rows).len(),
        forall|i: int, j: int| 0 <= i < j < at.len() ==> #[trigger] at[i] < #[trigger] at[j],
        forall|i: int|
            0 <= i < at.len() ==> 0 <= #[trigger] at[i] < rows.len() && rows[at[i]] == Some(
                readable_rows(rows)[i],
            ),
        forall|k: int| 0 <= k < rows.len() && (#[trigger] rows[k]) is Some ==> at.contains(k),
        (forall|k: int| 0 <= k < rows.len() ==> (#[trigger] rows[k]) is Some)
            ==> readable_rows(rows) == rows.map_values(|row: Option<MessageHeaders>| row->0),
    decreases rows.len(),
{
    if rows.len() == 0 {
        let at = Seq::<int>::empty();
        assert(readable_rows(rows) =~= rows.map_values(|row: Option<MessageHeaders>| row->0));
        at
    } else {
        let init = rows.drop_last();
        let n = rows.len() - 1;
        let before = law_hits_keep_their_order(init);
        let at = if rows.last() is Some {
            before.push(n)
        } else {
            before
        };
        assert forall|i: int| 0 <= i < at.len() implies 0 <= #[trigger] at[i] < rows.len()
            && rows[at[i]] == Some(readable_rows(rows)[i]) by {
            if i < before.len() {
                assert(at[i] == before[i]);
                assert(init[before[i]] == rows[before[i]]);
            }
        }
        assert forall|k: int| 0 <= k < rows.len() && (
        #[trigger] rows[k]) is Some implies at.contains(k) by {
            if k < n {
                assert(init[k] == rows[k]);
                let i = choose|i: int| 0 <= i < before.len() && before[i] == k;
                assert(at[i] == k);
            } else {
                assert(at[at.len() - 1] == k);
            }
        }
        if forall|k: int| 0 <= k < rows.len() ==> (#[trigger] rows[k]) is Some {
            assert forall|k: int| 0 <= k < init.len() implies (#[trigger] init[k]) is Some by {
                assert(init[k] == rows[k]);
            }
            assert(rows[n] is Some);
            assert(readable_rows(rows) =~= rows.map_values(|row: Option<MessageHeaders>| row->0));
        }
        at
    }
}

/// The unread messages of a page are counted one by one.
pub proof fn law_unread_are_counted(list: Seq<HeadersModel>)
    ensures
        unread_among(list) == list.filter(|h: HeadersModel| !h.flags.seen).len(),
    decreases list.len(),
{
    reveal(Seq::filter);
    if list.len() > 0 {
        law_unread_are_counted(list.drop_last());
    }
}

/// The page of a search, of the rows that its hits were read as. The counts are
/// those of the page.
pub fn search_page(rows: Vec<Option<MessageHeaders>>) -> (r: MessagePage)
    ensures
        r.messages@ == readable_rows(rows@),
        r.total_count == capped(readable_rows(rows@).len()),
        r.unread_count == capped(unread_among(model::headers_of(readable_rows(rows@)))),
{
    let ghost all = rows@;
    let mut messages: Vec<MessageHeaders> = Vec::new();
    let mut unread: usize = 0;
    for row in it: rows
        invariant
            it.seq() == all,
            messages@ == readable_rows(all.take(it.index())),
            unread == unread_among(model::headers_of(messages@)),
            unread <= messages@.len(),
    {
        let ghost k = it.index();
        assert(all.take(k + 1).drop_last() =~= all.take(k));
        assert(all.take(k + 1).last() == row);
        if let Some(h) = row {
            let ghost before = model::headers_of(messages@);
            let seen = h.flags.seen;
            messages.push(h);
            assert(model::headers_of(messages@) =~= before.push(h@));
            assert(model::headers_of(messages@).drop_last() =~= before);
            let count: usize = messages.len();
            if !seen {
                assert(unread < count);
                unread = unread + 1;
            }
        }
    }
    assert(all.take(all.len() as int) =~= all);
    let total_count = cap_count(messages.len());
    let unread_count = cap_count(unread);
    MessagePage { messages, total_count, unread_count }
}

/// The page of a search that asks for nothing.
pub fn empty_page() -> (r: MessagePage)
    ensures
        r.messages@.len() == 0,
        r.total_count == 0,
        r.unread_count == 0,
{
    MessagePage { messages: Vec::new(), total_count: 0, unread_count: 0 }
}

// ---------------------------------------------------------------------
// Remote content
// ---------------------------------------------------------------------

/// The setting that lets all remote content through.
pub const KEY_REMOTE_IMAGES: &'static str = "privacy.remote_images_always";

/// Whether a sender is trusted, as far as it is known without a lookup.
#[derive(Debug, PartialEq, Eq)]
pub enum Trust {
    Trusted,
    Untrusted,
    /// The sender with this address must be looked up.
    Ask(String),
}

/// Whether the sender of a message is trusted: where it is forced or the
/// setting lets everything through, and else by the first sender, if any.
pub fn sender_trust(
    force_trusted: bool,
    setting: &Option<String>,
    from: &Vec<EmailAddress>,
) -> (r: Trust)
    ensures
        match r {
            Trust::Trusted => force_trusted || model::opt_text(*setting) == Some("true"@),
            Trust::Untrusted => !force_trusted && model::opt_text(*setting) != Some("true"@) && (
            from@.len() == 0 || from@[0].address@.len() == 0),
            Trust::Ask(a) => !force_trusted && model::opt_text(*setting) != Some("true"@) && from@.len()
                > 0 && from@[0].address@.len() > 0 && a@ == from@[0].address@,
        },
{
    if force_trusted {
        return Trust::Trusted;
    }
    if let Some(s) = setting {
        if str_eq(s, "true") {
            return Trust::Trusted;
        }
    }
    if from.len() > 0 && !from[0].address.as_str().is_empty() {
        Trust::Ask(from[0].address.clone())
    } else {
        Trust::Untrusted
    }
}

/// What a message's bytes held.
#[derive(Debug, PartialEq, Eq)]
pub struct ParsedBody {
    pub body_text: Option<String>,
    pub sanitized_html: Option<String>,
    pub attachments: Vec<Attachment>,
}

/// The message as the reader shows it. Remote content is blocked unless the
/// sender is trusted; without a readable body only the headers are shown.
pub fn render_message(headers: MessageHeaders, body: Option<ParsedBody>, trusted: bool) -> (r:
    RenderedMessage)
    ensures
        r.headers == headers,
        r.sender_is_trusted == trusted,
        r.remote_content_blocked == !trusted,
        match body {
            Some(b) => r.body_text == b.body_text && r.sanitized_html == b.sanitized_html
                && r.attachments == b.attachments,
            None => r.body_text is None && r.sanitized_html is None && r.attachments@.len() == 0,
        },
{
    match body {
        Some(b) => RenderedMessage {
            headers,
            sanitized_html: b.sanitized_html,
            body_text: b.body_text,
            attachments: b.attachments,
            sender_is_trusted: trusted,
            remote_content_blocked: !trusted,
        },
        None => RenderedMessage {
            headers,
            sanitized_html: None,
            body_text: None,
            attachments: Vec::new(),
            sender_is_trusted: trusted,
            remote_content_blocked: !trusted,
        },
    }
}

/// The bytes of a message that was fetched from its server: none where the
/// fetch failed or the bytes could not be stored.
pub fn fetched_body(fetched: Option<Vec<u8>>, stored: bool) -> (r: Option<Vec<u8>>)
    ensures
        r == if stored {
            fetched
        } else {
            None
        },
{
    if stored {
        fetched
    } else {
        None
    }
}

// ---------------------------------------------------------------------
// Changing messages
// ---------------------------------------------------------------------

/// What is known of a message that is to be changed.
#[derive(Debug, PartialEq, Eq)]
pub struct MessageRow {
    pub account_id: AccountId,
    pub folder_id: FolderId,
    pub flags: MessageFlags,
}

/// What is done locally with one message.
#[derive(Debug, PartialEq, Eq)]
pub enum LocalChange {
    /// Nothing: the message is unknown, or already as wanted.
    Skip,
    SetFlags(MessageFlags),
    SetFolder(FolderId),
    Delete,
}

/// What marking a message as read or unread changes.
pub open spec fn mark_read_change(row: Option<MessageRow>, seen: bool) -> LocalChange {
    match row {
        Some(m) if m.flags.seen != seen => LocalChange::SetFlags(MessageFlags { seen, ..m.flags }),
        _ => LocalChange::Skip,
    }
}

/// See [`mark_read_change`].
pub fn mark_read(row: &Option<MessageRow>, seen: bool) -> (r: LocalChange)
    ensures
        r == mark_read_change(*row, seen),
{
    match row {
        Some(m) => {
            if m.flags.seen == seen {
                LocalChange::Skip
            } else {
                LocalChange::SetFlags(
                    MessageFlags {
                        seen,
                        flagged: m.flags.flagged,
                        answered: m.flags.answered,
                        draft: m.flags.draft,
                    },
                )
            }
        },
        None => LocalChange::Skip,
    }
}

/// What flagging a message, or unflagging it, changes.
pub open spec fn flag_change(row: Option<MessageRow>, flagged: bool) -> LocalChange {
    match row {
        Some(m) if m.flags.flagged != flagged => LocalChange::SetFlags(
            MessageFlags { flagged, ..m.flags },
        ),
        _ => LocalChange::Skip,
    }
}

/// See [`flag_change`].
pub fn set_flagged(row: &Option<MessageRow>, flagged: bool) -> (r: LocalChange)
    ensures
        r == flag_change(*row, flagged),
{
    match row {
        Some(m) => {
            if m.flags.flagged == flagged {
                LocalChange::Skip
            } else {
                LocalChange::SetFlags(
                    MessageFlags {
                        seen: m.flags.seen,
                        flagged,
                        answered: m.flags.answered,
                        draft: m.flags.draft,
                    },
                )
            }
        },
        None => LocalChange::Skip,
    }
}

/// The message after a change of its flags.
pub open spec fn with_change(row: MessageRow, change: LocalChange) -> MessageRow {
    match change {
        LocalChange::SetFlags(flags) => MessageRow { flags, ..row },
        _ => row,
    }
}

/// Once a message is marked or flagged as asked, asking again changes nothing,
/// and asking for the opposite restores what was there.
pub proof fn law_flag_changes(row: MessageRow, seen: bool, flagged: bool)
    ensures
        mark_read_change(
            Some(with_change(row, mark_read_change(Some(row), seen))),
            seen,
        ) is Skip,
        flag_change(Some(with_change(row, flag_change(Some(row), flagged))), flagged) is Skip,
        row.flags.seen != seen ==> ({
            let next = with_change(row, mark_read_change(Some(row), seen));
            with_change(next, mark_read_change(Some(next), !seen)) == row
        }),
        row.flags.flagged != flagged ==> ({
            let next = with_change(row, flag_change(Some(row), flagged));
            with_change(next, flag_change(Some(next), !flagged)) == row
        }),
{
}

/// What moving a message into `target` changes.
pub open spec fn move_change(row: Option<MessageRow>, target: FolderId) -> LocalChange {
    match row {
        Some(m) if m.folder_id@ != target@ => LocalChange::SetFolder(target),
        _ => LocalChange::Skip,
    }
}

/// See [`move_change`].
pub fn move_to(row: &Option<MessageRow>, target: &FolderId) -> (r: LocalChange)
    ensures
        r == move_change(*row, *target),
{
    match row {
        Some(m) => {
            if m.folder_id.same(target) {
                LocalChange::Skip
            } else {
                LocalChange::SetFolder(target.clone())
            }
        },
        None => LocalChange::Skip,
    }
}

/// What deleting a message changes.
pub open spec fn delete_change(row: Option<MessageRow>) -> LocalChange {
    match row {
        Some(_) => LocalChange::Delete,
        None => LocalChange::Skip,
    }
}

/// See [`delete_change`].
pub fn delete_message(row: &Option<MessageRow>) -> (r: LocalChange)
    ensures
        r == delete_change(*row),
{
    match row {
        Some(_) => LocalChange::Delete,
        None => LocalChange::Skip,
    }
}

/// What the servers are told after messages were marked: the one flag is set,
/// or it is cleared.
pub fn mark_read_action(seen: bool) -> (r: GroupAction)
    ensures
        r == (GroupAction::SetFlags {
            set: MessageFlags { seen, ..MessageFlags::none() },
            cleared: MessageFlags { seen: !seen, ..MessageFlags::none() },
        }),
{
    GroupAction::SetFlags {
        set: MessageFlags { seen, flagged: false, answered: false, draft: false },
        cleared: MessageFlags { seen: !seen, flagged: false, answered: false, draft: false },
    }
}

/// What the servers are told after messages were flagged or unflagged.
pub fn flag_action(flagged: bool) -> (r: GroupAction)
    ensures
        r == (GroupAction::SetFlags {
            set: MessageFlags { flagged, ..MessageFlags::none() },
            cleared: MessageFlags { flagged: !flagged, ..MessageFlags::none() },
        }),
{
    GroupAction::SetFlags {
        set: MessageFlags { seen: false, flagged, answered: false, draft: false },
        cleared: MessageFlags { seen: false, flagged: !flagged, answered: false, draft: false },
    }
}

// ---------------------------------------------------------------------
// Archiving
// ---------------------------------------------------------------------

/// Where an account's messages are archived: its archive, else the folder that
/// holds all mail.
pub open spec fn archive_folder(folders: Seq<Folder>) -> Option<Folder> {
    match shell::first_with_role(folders, FolderRole::Archive) {
        Some(f) => Some(f),
        None => shell::first_with_role(folders, FolderRole::All),
    }
}

/// See [`archive_folder`].
pub fn resolve_archive_target(folders: &Vec<Folder>) -> (r: Option<FolderId>)
    ensures
        r == match archive_folder(folders@) {
            Some(f) => Some(f.id),
            None => None,
        },
{
    if let Some(i) = find_role(folders, FolderRole::Archive) {
        return Some(folders[i].id.clone());
    }
    if let Some(i) = find_role(folders, FolderRole::All) {
        return Some(folders[i].id.clone());
    }
    None
}

/// The archive of `account`, or the error where it has none.
pub fn archive_target(account: &AccountId, folders: &Vec<Folder>) -> (r: Result<FolderId, IpcError>)
    ensures
        match r {
            Ok(f) => archive_folder(folders@) is Some && f == archive_folder(folders@)->0.id,
            Err(e) => {
                &&& archive_folder(folders@) is None
                &&& e.kind == IpcErrorKind::NotFound
                &&& e.message@ == "messages_archive: no archive target for account "@ + account@
                    + " (need Archive- or All-role folder)"@
            },
        },
{
    match resolve_archive_target(folders) {
        Some(f) => Ok(f),
        None => {
            let mut m = "messages_archive: no archive target for account ".to_owned();
            m.append(&account.0);
            m.append(" (need Archive- or All-role folder)");
            Err(IpcError { kind: IpcErrorKind::NotFound, message: m })
        },
    }
}

// ---------------------------------------------------------------------
// Sending
// ---------------------------------------------------------------------

/// The sender of an account's messages.
pub fn sender_of(account: &Account) -> (r: EmailAddress)
    ensures
        r == (EmailAddress {
            address: account.email_address,
            display_name: Some(account.display_name),
        }),
{
    EmailAddress {
        address: account.email_address.clone(),
        display_name: Some(account.display_name.clone()),
    }
}

/// The error where a draft could not be made into a message.
pub fn not_built(reason: &str) -> (e: IpcError)
    ensures
        e.kind == IpcErrorKind::Internal,
        e.message@ == "messages_send: build RFC 5322: "@ + reason@,
{
    let mut m = "messages_send: build RFC 5322: ".to_owned();
    m.append(reason);
    IpcError { kind: IpcErrorKind::Internal, message: m }
}

/// Those whom a draft is sent to, who become known correspondents: the
/// recipients, those in copy and those in blind copy, in this order.
pub fn correspondents(draft: &Draft) -> (r: Vec<EmailAddress>)
    ensures
        r@ == draft.to@ + draft.cc@ + draft.bcc@,
{
    let mut r = clone_addresses(&draft.to);
    let mut cc = clone_addresses(&draft.cc);
    let mut bcc = clone_addresses(&draft.bcc);
    r.append(&mut cc);
    r.append(&mut bcc);
    r
}

// ---------------------------------------------------------------------
// Older messages
// ---------------------------------------------------------------------

/// The least of the numbers that are there.
pub open spec fn least(uids: Seq<Option<u32>>) -> Option<u32>
    decreases uids.len(),
{
    if uids.len() == 0 {
        None
    } else {
        let before = least(uids.drop_last());
        match (before, uids.last()) {
            (Some(a), Some(b)) => if b < a {
                Some(b)
            } else {
                Some(a)
            },
            (Some(a), None) => Some(a),
            (None, b) => b,
        }
    }
}

/// [`least`] is one of the numbers, and none is less.
pub proof fn law_least_is_least(uids: Seq<Option<u32>>)
    ensures
        match least(uids) {
            Some(m) => uids.contains(Some(m)) && forall|i: int|
                0 <= i < uids.len() && (#[trigger] uids[i]) is Some ==> m <= uids[i]->0,
            None => forall|i: int| 0 <= i < uids.len() ==> (#[trigger] uids[i]) is None,
        },
    decreases uids.len(),
{
    if uids.len() > 0 {
        let init = uids.drop_last();
        law_least_is_least(init);
        let m = least(uids);
        if m is Some {
            if least(init) == m {
                let k = choose|k: int| 0 <= k < init.len() && init[k] == m;
                assert(uids[k] == m);
            } else {
                assert(uids[uids.len() - 1] == m);
            }
            assert forall|i: int| 0 <= i < uids.len() && (#[trigger] uids[i]) is Some implies m->0
                <= uids[i]->0 by {
                if i < init.len() {
                    assert(init[i] == uids[i]);
                }
            }
        } else {
            assert forall|i: int| 0 <= i < uids.len() implies (#[trigger] uids[i]) is None by {
                if i < init.len() {
                    assert(init[i] == uids[i]);
                }
            }
        }
    }
}

/// Where paging back starts: the least of the messages' numbers on their
/// server. `uids` holds none for a message whose id names no such number.
pub fn lowest_imap_uid(uids: &Vec<Option<u32>>) -> (r: Option<u64>)
    ensures
        r == match least(uids@) {
            Some(m) => Some(m as u64),
            None => None,
        },
{
    let mut best: Option<u32> = None;
    let mut i: usize = 0;
    while i < uids.len()
        invariant
            i <= uids@.len(),
            best == least(uids@.take(i as int)),
        decreases uids@.len() - i,
    {
        assert(uids@.take(i + 1).drop_last() =~= uids@.take(i as int));
        match (best, uids[i]) {
            (Some(a), Some(b)) => {
                if b < a {
                    best = Some(b);
                }
            },
            (None, b) => {
                best = b;
            },
            _ => {},
        }
        i = i + 1;
    }
    assert(uids@.take(uids@.len() as int) =~= uids@);
    match best {
        Some(m) => Some(m as u64),
        None => None,
    }
}

/// How many of the messages were not known before.
pub open spec fn new_among(known: Seq<bool>) -> nat
    decreases known.len(),
{
    if known.len() == 0 {
        0
    } else {
        new_among(known.drop_last()) + if known.last() {
            0nat
        } else {
            1nat
        }
    }
}

/// See [`new_among`].
pub fn count_new(known: &Vec<bool>) -> (r: u32)
    requires
        known@.len() <= u32::MAX,
    ensures
        r == new_among(known@),
{
    let mut n: u32 = 0;
    let mut i: usize = 0;
    while i < known.len()
        invariant
            i <= known@.len() <= u32::MAX,
            n == new_among(known@.take(i as int)),
            n <= i,
        decreases known@.len() - i,
    {
        assert(known@.take(i + 1).drop_last() =~= known@.take(i as int));
        if !known[i] {
            n = n + 1;
        }
        i = i + 1;
    }
    assert(known@.take(known@.len() as int) =~= known@);
    n
}

// ---------------------------------------------------------------------
// What the commands do
// ---------------------------------------------------------------------

/// A page holds as many messages as are asked for, up to 500; counts are given
/// as they are, as long as they fit.
pub proof fn law_pages_are_as_large_as_asked(limit: u32, n: nat)
    ensures
        limit <= 500 ==> page_limit(limit) == limit,
        limit > 500 ==> page_limit(limit) == 500,
        n <= 0xffff_ffff ==> capped(n) == n,
        n > 0xffff_ffff ==> capped(n) == 0xffff_ffff,
{
}

/// Marking a message changes that it was read and nothing else, and flagging it
/// that it is flagged and nothing else. What is unknown, or already as wanted,
/// is left alone.
pub proof fn law_one_flag_is_changed(row: MessageRow, value: bool)
    ensures
        row.flags.seen != value ==> mark_read_change(Some(row), value) == LocalChange::SetFlags(
            MessageFlags {
                seen: value,
                flagged: row.flags.flagged,
                answered: row.flags.answered,
                draft: row.flags.draft,
            },
        ),
        row.flags.seen == value ==> mark_read_change(Some(row), value) is Skip,
        row.flags.flagged != value ==> flag_change(Some(row), value) == LocalChange::SetFlags(
            MessageFlags {
                seen: row.flags.seen,
                flagged: value,
                answered: row.flags.answered,
                draft: row.flags.draft,
            },
        ),
        row.flags.flagged == value ==> flag_change(Some(row), value) is Skip,
        mark_read_change(None, value) is Skip,
        flag_change(None, value) is Skip,
{
}

/// A message is moved into the folder that is asked for, unless it is there,
/// and one that is deleted is.
pub proof fn law_messages_go_where_they_are_sent(row: MessageRow, target: FolderId)
    ensures
        row.folder_id@ != target@ ==> move_change(Some(row), target) == LocalChange::SetFolder(
            target,
        ),
        row.folder_id@ == target@ ==> move_change(Some(row), target) is Skip,
        delete_change(Some(row)) is Delete,
        move_change(None, target) is Skip,
        delete_change(None) is Skip,
{
}

/// Messages are archived in the first archive of the account, where it has one,
/// else in its first folder of all mail; there is no other place for them.
pub proof fn law_archive_goes_before_all_mail(folders: Seq<Folder>, i: int)
    requires
        0 <= i < folders.len(),
    ensures
        folders[i].role == Some(FolderRole::Archive) && (forall|j: int|
            0 <= j < i ==> (#[trigger] folders[j]).role != Some(FolderRole::Archive))
            ==> archive_folder(folders) == Some(folders[i]),
        folders[i].role == Some(FolderRole::All) && (forall|j: int|
            0 <= j < i ==> (#[trigger] folders[j]).role != Some(FolderRole::All)) && (forall|
            j: int,
        |
            0 <= j < folders.len() ==> (#[trigger] folders[j]).role != Some(FolderRole::Archive))
            ==> archive_folder(folders) == Some(folders[i]),
        (forall|j: int|
            0 <= j < folders.len() ==> (#[trigger] folders[j]).role != Some(FolderRole::Archive)
                && folders[j].role != Some(FolderRole::All)) ==> archive_folder(folders) is None,
{
    shell::law_first_with_role(folders, FolderRole::Archive);
    shell::law_first_with_role(folders, FolderRole::All);
}

/// The messages that were not known before are counted one by one.
pub proof fn law_new_messages_are_counted(known: Seq<bool>)
    ensures
        new_among(known) == known.filter(|k: bool| !k).len(),
    decreases known.len(),
{
    reveal(Seq::filter);
    if known.len() > 0 {
        law_new_messages_are_counted(known.drop_last());
    }
}

/// The setting for remote images is kept under its own name.
pub proof fn law_remote_images_have_their_setting()
    ensures
        KEY_REMOTE_IMAGES@ == "privacy.remote_images_always"@,
{
}

} // verus!
