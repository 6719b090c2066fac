//! The message list: its rows, the checked messages, and paging.
use vstd::prelude::*;

use crate::compose;
use crate::compose::shown_subject;
use crate::display;
use crate::display::flag_glyph;
use crate::inputs::{MessagesArchiveInput, MessagesDeleteInput, MessagesMarkReadInput};
use crate::model;
use crate::model::{
    AccountId, AddressModel, EmailAddress, Folder, HeadersModel, MessageHeaders, MessageId,
    clone_message_ids,
};
use crate::number;
use crate::number::decimal_text;
use crate::shell;
use crate::shell::{ListView, Selection, VisibleMessage};
use crate::threading;
use crate::threading::{ItemModel, MessageListItem, group_by_thread};

verus! {

// ---------------------------------------------------------------------
// Which messages are shown
// ---------------------------------------------------------------------

/// The messages of the account that the filter names; all of them without a
/// filter.
pub open spec fn of_account(list: Seq<HeadersModel>, filter: Option<Seq<char>>) -> Seq<HeadersModel>
    decreases list.len(),
{
    match filter {
        None => list,
        Some(a) => if list.len() == 0 {
            list
        } else {
            let before = of_account(list.drop_last(), filter);
            if list.last().account_id == a {
                before.push(list.last())
            } else {
                before
            }
        },
    }
}

/// See [`of_account`].
pub fn filter_by_account(messages: &Vec<MessageHeaders>, filter: &Option<AccountId>) -> (r: Vec<
    MessageHeaders,
>)
    ensures
        model::headers_of(r@) == of_account(model::headers_of(messages@), model::opt_account(*filter)),
{
    let ghost all = model::headers_of(messages@);
    let ghost f = model::opt_account(*filter);
    let mut r: Vec<MessageHeaders> = Vec::new();
    let mut i: usize = 0;
    assert(model::headers_of(r@) =~= of_account(all.take(0), f));
    while i < messages.len()
        invariant
            i <= messages@.len(),
            all == model::headers_of(messages@),
            f == model::opt_account(*filter),
            model::headers_of(r@) == of_account(all.take(i as int), f),
        decreases messages@.len() - i,
    {
        let keep = match filter {
            None => true,
            Some(a) => messages[i].account_id.same(a),
        };
        assert(all.take(i + 1).drop_last() =~= all.take(i as int));
        assert(all.take(i + 1).last() == messages@[i as int]@);
        assert(all.take(i + 1) =~= all.take(i as int).push(messages@[i as int]@));
        if keep {
            let ghost before = r@;
            r.push(messages[i].clone());
            assert(model::headers_of(r@) =~= model::headers_of(before).push(messages@[i as int]@));
        }
        i = i + 1;
    }
    assert(all.take(all.len() as int) =~= all);
    r
}

/// What the keyboard walks through: the messages that are shown.
pub fn visible_messages(shown: &Vec<MessageHeaders>) -> (r: Vec<VisibleMessage>)
    ensures
        shell::visible_of(r@) == model::headers_of(shown@).map_values(
            |h: HeadersModel| (h.id, !h.flags.seen),
        ),
{
    let mut r: Vec<VisibleMessage> = Vec::new();
    let mut i: usize = 0;
    while i < shown.len()
        invariant
            i <= shown@.len(),
            r@.len() == i,
            forall|j: int|
                0 <= j < i ==> (#[trigger] r@[j]).id@ == shown@[j].id@ && r@[j].unread
                    == !shown@[j].flags.seen,
        decreases shown@.len() - i,
    {
        r.push(VisibleMessage { id: shown[i].id.clone(), unread: !shown[i].flags.seen });
        i = i + 1;
    }
    assert(shell::visible_of(r@) =~= model::headers_of(shown@).map_values(
        |h: HeadersModel| (h.id, !h.flags.seen),
    ));
    r
}

/// The counts above the list.
pub fn header_counts(shown: u32, total: u32, unread: u32) -> (r: String)
    ensures
        r@ == number::decimal(shown as nat) + " of "@ + number::decimal(total as nat) + " · "@ + number::decimal(
            unread as nat,
        ) + " unread"@,
{
    let mut r = decimal_text(shown as u64);
    r.append(" of ");
    let t = decimal_text(total as u64);
    r.append(&t);
    r.append(" · ");
    let u = decimal_text(unread as u64);
    r.append(&u);
    r.append(" unread");
    r
}

// ---------------------------------------------------------------------
// Rows
// ---------------------------------------------------------------------

/// How the first of a list of senders is named: by name where there is one,
/// else by address; nobody is the empty text.
pub open spec fn sender_name(from: Seq<AddressModel>) -> Seq<char> {
    if from.len() == 0 {
        Seq::empty()
    } else {
        match from[0].display_name {
            Some(n) if n.len() > 0 => n,
            _ => from[0].address,
        }
    }
}

/// See [`sender_name`].
pub fn shown_sender(from: &Vec<EmailAddress>) -> (r: String)
    ensures
        r@ == sender_name(model::addresses(from@)),
{
    if from.len() == 0 {
        return String::new();
    }
    if let Some(n) = &from[0].display_name {
        if !n.as_str().is_empty() {
            return n.clone();
        }
    }
    from[0].address.clone()
}

/// The subject and the start of the text, on one line.
pub open spec fn subject_line(subject: Seq<char>, snippet: Seq<char>) -> Seq<char> {
    if snippet.len() == 0 {
        compose::subject_or_placeholder(subject)
    } else {
        compose::subject_or_placeholder(subject) + " · "@ + snippet
    }
}

/// See [`subject_line`].
pub fn row_subject(subject: &String, snippet: &String) -> (r: String)
    ensures
        r@ == subject_line(subject@, snippet@),
{
    let mut r = shown_subject(subject);
    if !snippet.as_str().is_empty() {
        r.append(" · ");
        r.append(snippet);
    }
    r
}

/// The CSS class of a row. A selected row shows no check mark; an unread one
/// is marked in any case.
pub open spec fn row_class(thread: bool, selected: bool, checked: bool, unread: bool) -> Seq<char> {
    if thread {
        if selected {
            if unread {
                "msg-row thread-row selected unread"@
            } else {
                "msg-row thread-row selected"@
            }
        } else if checked {
            if unread {
                "msg-row thread-row checked unread"@
            } else {
                "msg-row thread-row checked"@
            }
        } else if unread {
            "msg-row thread-row unread"@
        } else {
            "msg-row thread-row"@
        }
    } else {
        if selected {
            if unread {
                "msg-row selected unread"@
            } else {
                "msg-row selected"@
            }
        } else if checked {
            if unread {
                "msg-row checked unread"@
            } else {
                "msg-row checked"@
            }
        } else if unread {
            "msg-row unread"@
        } else {
            "msg-row"@
        }
    }
}

/// See [`row_class`].
pub fn class_of_row(thread: bool, selected: bool, checked: bool, unread: bool) -> (r: &'static str)
    ensures
        r@ == row_class(thread, selected, checked, unread),
{
    match (thread, selected, checked, unread) {
        (true, true, _, true) => "msg-row thread-row selected unread",
        (true, true, _, false) => "msg-row thread-row selected",
        (true, false, true, true) => "msg-row thread-row checked unread",
        (true, false, true, false) => "msg-row thread-row checked",
        (true, false, false, true) => "msg-row thread-row unread",
        (true, false, false, false) => "msg-row thread-row",
        (false, true, _, true) => "msg-row selected unread",
        (false, true, _, false) => "msg-row selected",
        (false, false, true, true) => "msg-row checked unread",
        (false, false, true, false) => "msg-row checked",
        (false, false, false, true) => "msg-row unread",
        (false, false, false, false) => "msg-row",
    }
}

/// What a row shows.
#[derive(Debug, PartialEq, Eq)]
pub struct RowView {
    pub class: String,
    pub flag_glyph: String,
    pub flag_class: String,
    pub from_name: String,
    pub subject_line: String,
    pub checked: bool,
    pub unread: bool,
}

/// The row `r` shows the message `h`, with these marks.
pub open spec fn row_shows(
    r: RowView,
    h: HeadersModel,
    thread: bool,
    selected: bool,
    checked: bool,
    unread: bool,
) -> bool {
    &&& r.class@ == row_class(thread, selected, checked, unread)
    &&& r.flag_glyph@ == display::dominant_flag(h.flags).0
    &&& r.flag_class@ == "msg-row-flag "@ + display::dominant_flag(h.flags).1
    &&& r.from_name@ == sender_name(h.from)
    &&& r.subject_line@ == subject_line(h.subject, h.snippet)
    &&& r.checked == checked
    &&& r.unread == unread
}

/// The row that shows `msg`, with these marks.
fn build_row(msg: &MessageHeaders, thread: bool, selected: bool, checked: bool, unread: bool) -> (r:
    RowView)
    ensures
        row_shows(r, msg@, thread, selected, checked, unread),
{
    let (glyph, class) = flag_glyph(&msg.flags);
    let mut flag_class = "msg-row-flag ".to_owned();
    flag_class.append(class);
    RowView {
        class: class_of_row(thread, selected, checked, unread).to_owned(),
        flag_glyph: glyph.to_owned(),
        flag_class,
        from_name: shown_sender(&msg.from),
        subject_line: row_subject(&msg.subject, &msg.snippet),
        checked,
        unread,
    }
}

/// Is `id` the selected message?
pub fn is_selected(selection: &Selection, id: &MessageId) -> (r: bool)
    ensures
        r == (selection@.message == Some(id@)),
{
    match &selection.message {
        Some(m) => m.same(id),
        None => false,
    }
}

/// The row of a message on its own.
pub fn message_row(msg: &MessageHeaders, selection: &Selection, checked: &CheckedMessages) -> (r:
    RowView)
    ensures
        row_shows(
            r,
            msg@,
            false,
            selection@.message == Some(msg.id@),
            checked@.contains(msg.id@),
            !msg.flags.seen,
        ),
{
    build_row(
        msg,
        false,
        is_selected(selection, &msg.id),
        checked.contains(&msg.id),
        !msg.flags.seen,
    )
}

/// Some member is unread.
pub open spec fn any_unread(members: Seq<HeadersModel>) -> bool {
    exists|i: int| 0 <= i < members.len() && !(#[trigger] members[i]).flags.seen
}

/// There are members, and each is checked.
pub open spec fn all_checked(members: Seq<HeadersModel>, checked: Set<Seq<char>>) -> bool {
    members.len() > 0 && forall|i: int|
        0 <= i < members.len() ==> checked.contains((#[trigger] members[i]).id)
}

/// The row of a conversation. It counts as unread where a member is, and as
/// checked where every member is.
pub fn thread_row(
    head: &MessageHeaders,
    members: &Vec<MessageHeaders>,
    selection: &Selection,
    checked: &CheckedMessages,
) -> (r: RowView)
    ensures
        row_shows(
            r,
            head@,
            true,
            selection@.message == Some(head.id@),
            all_checked(model::headers_of(members@), checked@),
            any_unread(model::headers_of(members@)),
        ),
{
    let ghost ms = model::headers_of(members@);
    let mut unread = false;
    let mut all = members.len() > 0;
    let mut i: usize = 0;
    while i < members.len()
        invariant
            i <= members@.len(),
            ms == model::headers_of(members@),
            unread <==> exists|j: int| 0 <= j < i && !(#[trigger] ms[j]).flags.seen,
            all <==> members@.len() > 0 && forall|j: int|
                0 <= j < i ==> checked@.contains((#[trigger] ms[j]).id),
        decreases members@.len() - i,
    {
        assert(ms[i as int] == members@[i as int]@);
        if !members[i].flags.seen {
            unread = true;
        }
        if !checked.contains(&members[i].id) {
            all = false;
        }
        i = i + 1;
    }
    build_row(head, true, is_selected(selection, &head.id), all, unread)
}

// ---------------------------------------------------------------------
// The rows of a list
// ---------------------------------------------------------------------

/// What the list shows: conversations in a folder, each message on its own in a
/// search and in the unified inbox.
pub open spec fn listed(view: ListView, messages: Seq<HeadersModel>) -> Seq<ItemModel> {
    if view is Folder {
        threading::rows_of(messages)
    } else {
        messages.map_values(|m: HeadersModel| ItemModel::Single(m))
    }
}

/// See [`listed`].
pub fn list_rows(view: &ListView, messages: Vec<MessageHeaders>) -> (r: Vec<MessageListItem>)
    ensures
        threading::items_of(r@) == listed(*view, model::headers_of(messages@)),
{
    if let ListView::Folder(_) = view {
        return group_by_thread(messages);
    }
    let ghost all = messages@;
    let mut r: Vec<MessageListItem> = Vec::with_capacity(messages.len());
    for m in it: messages
        invariant
            it.seq() == all,
            r@.len() == it.index(),
            forall|j: int| 0 <= j < it.index() ==> (#[trigger] r@[j])@ == ItemModel::Single(all[j]@),
    {
        r.push(MessageListItem::Single(m));
    }
    assert(threading::items_of(r@) =~= listed(*view, model::headers_of(all)));
    r
}

// ---------------------------------------------------------------------
// Checked messages
// ---------------------------------------------------------------------

/// The messages that are checked for an action on all of them.
#[derive(Debug)]
pub struct CheckedMessages {
    ids: Vec<MessageId>,
}

impl View for CheckedMessages {
    type V = Set<Seq<char>>;

    closed spec fn view(&self) -> Set<Seq<char>> {
        model::message_ids(self.ids@).to_set()
    }
}

impl CheckedMessages {
    /// No message is listed twice.
    #[verifier::type_invariant]
    spec fn wf(self) -> bool {
        shell::all_different(model::message_ids(self.ids@))
    }

    /// Nothing is checked.
    pub fn new() -> (r: CheckedMessages)
        ensures
            r@ == Set::<Seq<char>>::empty(),
    {
        let r = CheckedMessages { ids: Vec::new() };
        assert(r@ =~= Set::<Seq<char>>::empty());
        r
    }

    /// The place of `id`, or the number of checked messages.
    fn place(&self, id: &MessageId) -> (i: usize)
        ensures
            i <= self.ids@.len(),
            i < self.ids@.len() ==> self.ids@[i as int]@ == id@,
            (i < self.ids@.len()) == self@.contains(id@),
    {
        let ghost ids = model::message_ids(self.ids@);
        let mut i: usize = 0;
        while i < self.ids.len() && !self.ids[i].same(id)
            invariant
                i <= self.ids@.len(),
                ids == model::message_ids(self.ids@),
                forall|j: int| 0 <= j < i ==> #[trigger] ids[j] != id@,
            decreases self.ids@.len() - i,
        {
            assert(ids[i as int] == self.ids@[i as int]@);
            i = i + 1;
        }
        proof {
            if i < self.ids@.len() {
                assert(ids[i as int] == id@);
                assert(ids.contains(id@));
            }
        }
        i
    }

    /// Is `id` checked?
    pub fn contains(&self, id: &MessageId) -> (r: bool)
        ensures
            r == self@.contains(id@),
    {
        self.place(id) < self.ids.len()
    }

    /// How many messages are checked.
    pub fn len(&self) -> (n: usize)
        ensures
            n == self@.len(),
            self@.finite(),
    {
        proof {
            use_type_invariant(self);
            let ids = model::message_ids(self.ids@);
            assert(ids.no_duplicates());
            ids.unique_seq_to_set();
        }
        self.ids.len()
    }

    /// Checks `id`.
    pub fn check(&mut self, id: &MessageId)
        ensures
            final(self)@ == old(self)@.insert(id@),
    {
        proof {
            use_type_invariant(&*self);
        }
        if !self.contains(id) {
            let ghost before = model::message_ids(self.ids@);
            let ghost set = self@;
            let mut ids: Vec<MessageId> = Vec::new();
            core::mem::swap(&mut ids, &mut self.ids);
            ids.push(id.clone());
            proof {
                let after = model::message_ids(ids@);
                assert(after =~= before.push(id@));
                assert forall|i: int, j: int| 0 <= i < j < after.len() implies #[trigger] after[i]
                    != #[trigger] after[j] by {
                    if j == before.len() {
                        assert(before.contains(before[i]));
                    } else {
                        assert(before[i] != before[j]);
                    }
                }
                assert forall|x: Seq<char>| after.contains(x) <==> before.contains(x) || x == id@ by {
                    if before.contains(x) {
                        let k = choose|k: int| 0 <= k < before.len() && before[k] == x;
                        assert(after[k] == x);
                    }
                    if x == id@ {
                        assert(after[before.len() as int] == x);
                    }
                }
                assert(after.to_set() =~= set.insert(id@));
            }
            self.ids = ids;
        } else {
            assert(self@ =~= old(self)@.insert(id@));
        }
    }

    /// Unchecks `id`.
    pub fn uncheck(&mut self, id: &MessageId)
        ensures
            final(self)@ == old(self)@.remove(id@),
    {
        proof {
            use_type_invariant(&*self);
        }
        let p = self.place(id);
        if p < self.ids.len() {
            let ghost before = model::message_ids(self.ids@);
            let ghost set = self@;
            let mut ids: Vec<MessageId> = Vec::new();
            core::mem::swap(&mut ids, &mut self.ids);
            let _ = ids.remove(p);
            proof {
                let after = model::message_ids(ids@);
                assert(after =~= before.remove(p as int));
                assert forall|i: int, j: int| 0 <= i < j < after.len() implies #[trigger] after[i]
                    != #[trigger] after[j] by {
                    let a = if i < p {
                        i
                    } else {
                        i + 1
                    };
                    let b = if j < p {
                        j
                    } else {
                        j + 1
                    };
                    assert(before[a] != before[b]);
                }
                assert forall|x: Seq<char>| after.contains(x) <==> before.contains(x) && x != id@ by {
                    if after.contains(x) {
                        let k = choose|k: int| 0 <= k < after.len() && after[k] == x;
                        let a = if k < p {
                            k
                        } else {
                            k + 1
                        };
                        assert(before[a] == x);
                        assert(before[p as int] == id@);
                        if a < p {
                            assert(before[a] != before[p as int]);
                        } else {
                            assert(before[p as int] != before[a]);
                        }
                    }
                    if before.contains(x) && x != id@ {
                        let k = choose|k: int| 0 <= k < before.len() && before[k] == x;
                        let a = if k < p {
                            k
                        } else {
                            k - 1
                        };
                        assert(after[a] == x);
                    }
                }
                assert(after.to_set() =~= set.remove(id@));
            }
            self.ids = ids;
        } else {
            assert(self@ =~= old(self)@.remove(id@));
        }
    }

    /// The user clicked the check box of a message.
    pub fn toggle(&mut self, id: &MessageId)
        ensures
            final(self)@ == if old(self)@.contains(id@) {
                old(self)@.remove(id@)
            } else {
                old(self)@.insert(id@)
            },
    {
        if self.contains(id) {
            self.uncheck(id);
        } else {
            self.check(id);
        }
    }

    /// The user clicked the check box of a conversation, which `all` tells was
    /// checked: all its members are unchecked, or else all are checked.
    pub fn toggle_all(&mut self, members: &Vec<MessageHeaders>, all: bool)
        ensures
            final(self)@ == if all {
                old(self)@.difference(ids_in(model::headers_of(members@)))
            } else {
                old(self)@.union(ids_in(model::headers_of(members@)))
            },
    {
        let ghost ms = model::headers_of(members@);
        let ghost start = self@;
        let mut i: usize = 0;
        assert(start.difference(ids_in(ms.take(0))) =~= start);
        assert(start.union(ids_in(ms.take(0))) =~= start);
        while i < members.len()
            invariant
                i <= members@.len(),
                ms == model::headers_of(members@),
                self@ == if all {
                    start.difference(ids_in(ms.take(i as int)))
                } else {
                    start.union(ids_in(ms.take(i as int)))
                },
            decreases members@.len() - i,
        {
            assert(ms[i as int] == members@[i as int]@);
            proof {
                lemma_ids_in_next(ms, i as int);
            }
            if all {
                self.uncheck(&members[i].id);
                assert(self@ =~= start.difference(ids_in(ms.take(i + 1))));
            } else {
                self.check(&members[i].id);
                assert(self@ =~= start.union(ids_in(ms.take(i + 1))));
            }
            i = i + 1;
        }
        assert(ms.take(ms.len() as int) =~= ms);
    }

    /// Unchecks everything.
    pub fn clear(&mut self)
        ensures
            final(self)@ == Set::<Seq<char>>::empty(),
    {
        self.ids = Vec::new();
        assert(self@ =~= Set::<Seq<char>>::empty());
    }

    /// The checked messages, each once.
    pub fn to_ids(&self) -> (r: Vec<MessageId>)
        ensures
            model::message_ids(r@).to_set() == self@,
            shell::all_different(model::message_ids(r@)),
    {
        proof {
            use_type_invariant(self);
        }
        clone_message_ids(&self.ids)
    }

    /// How the bar above the list counts.
    pub fn label(&self) -> (r: String)
        ensures
            r@ == number::decimal(self@.len()) + " selected"@,
    {
        let n = self.len();
        let mut r = decimal_text(n as u64);
        r.append(" selected");
        r
    }
}

/// The ids of a list of messages.
pub open spec fn ids_in(members: Seq<HeadersModel>) -> Set<Seq<char>> {
    members.map_values(|h: HeadersModel| h.id).to_set()
}

/// One more message adds its id.
proof fn lemma_ids_in_next(members: Seq<HeadersModel>, i: int)
    requires
        0 <= i < members.len(),
    ensures
        ids_in(members.take(i + 1)) == ids_in(members.take(i)).insert(members[i].id),
{
    let a = members.take(i).map_values(|h: HeadersModel| h.id);
    let b = members.take(i + 1).map_values(|h: HeadersModel| h.id);
    assert(b =~= a.push(members[i].id));
    assert forall|x: Seq<char>| b.contains(x) <==> a.contains(x) || x == members[i].id by {
        if a.contains(x) {
            let k = choose|k: int| 0 <= k < a.len() && a[k] == x;
            assert(b[k] == x);
        }
        if x == members[i].id {
            assert(b[i] == x);
        }
    }
    assert(b.to_set() =~= a.to_set().insert(members[i].id));
}

/// Clicking the check box of a message twice changes nothing.
pub proof fn law_toggle_twice(s: Set<Seq<char>>, id: Seq<char>)
    ensures
        ({
            let once = if s.contains(id) {
                s.remove(id)
            } else {
                s.insert(id)
            };
            let twice = if once.contains(id) {
                once.remove(id)
            } else {
                once.insert(id)
            };
            twice == s
        }),
{
    if s.contains(id) {
        assert(s.remove(id).insert(id) =~= s);
    } else {
        assert(s.insert(id).remove(id) =~= s);
    }
}

/// Clicking the check box of a conversation that is not checked checks every
/// member; clicking it again unchecks every member.
pub proof fn law_thread_check_is_all_or_nothing(s: Set<Seq<char>>, members: Seq<HeadersModel>)
    requires
        members.len() > 0,
        !all_checked(members, s),
    ensures
        all_checked(members, s.union(ids_in(members))),
        forall|i: int|
            0 <= i < members.len() ==> !s.union(ids_in(members)).difference(
                ids_in(members),
            ).contains((#[trigger] members[i]).id),
{
    let ids = members.map_values(|h: HeadersModel| h.id);
    assert forall|i: int| 0 <= i < members.len() implies ids_in(members).contains(
        (#[trigger] members[i]).id,
    ) by {
        assert(ids[i] == members[i].id);
    }
}

/// An action on all checked messages.
#[derive(Debug, Clone, Copy, PartialEq, Eq, Structural)]
pub enum BulkAction {
    Archive,
    MarkRead,
    MarkUnread,
    Delete,
}

/// The request for an action on all checked messages.
#[derive(Debug, PartialEq, Eq)]
pub enum BulkRequest {
    Archive(MessagesArchiveInput),
    MarkRead(MessagesMarkReadInput),
    Delete(MessagesDeleteInput),
}

impl BulkRequest {
    /// The messages that the request is about.
    pub open spec fn ids(self) -> Seq<Seq<char>> {
        match self {
            BulkRequest::Archive(i) => model::message_ids(i.ids@),
            BulkRequest::MarkRead(i) => model::message_ids(i.ids@),
            BulkRequest::Delete(i) => model::message_ids(i.ids@),
        }
    }

    /// The request does this.
    pub open spec fn does(self, action: BulkAction) -> bool {
        match action {
            BulkAction::Archive => self is Archive,
            BulkAction::MarkRead => self matches BulkRequest::MarkRead(i) && i.seen,
            BulkAction::MarkUnread => self matches BulkRequest::MarkRead(i) && !i.seen,
            BulkAction::Delete => self is Delete,
        }
    }
}

/// The request for an action on all checked messages; none where no message is
/// checked. The messages are those that are checked now.
pub fn bulk_request(checked: &CheckedMessages, action: BulkAction) -> (r: Option<BulkRequest>)
    ensures
        match r {
            Some(q) => {
                &&& checked@.len() > 0
                &&& q.ids().to_set() == checked@
                &&& shell::all_different(q.ids())
                &&& q.does(action)
            },
            None => checked@.len() == 0,
        },
{
    let n: usize = checked.len();
    if n == 0 {
        return None;
    }
    let ids = checked.to_ids();
    Some(
        match action {
            BulkAction::Archive => BulkRequest::Archive(MessagesArchiveInput { ids }),
            BulkAction::MarkRead => BulkRequest::MarkRead(
                MessagesMarkReadInput { ids, seen: true },
            ),
            BulkAction::MarkUnread => BulkRequest::MarkRead(
                MessagesMarkReadInput { ids, seen: false },
            ),
            BulkAction::Delete => BulkRequest::Delete(MessagesDeleteInput { ids }),
        },
    )
}

/// The messages that a conversation shows when it is opened: all but the first,
/// which its row shows.
pub fn expanded_members(members: &Vec<MessageHeaders>) -> (r: Vec<MessageHeaders>)
    ensures
        model::headers_of(r@) == if members@.len() == 0 {
            Seq::empty()
        } else {
            model::headers_of(members@).skip(1)
        },
{
    let ghost all = model::headers_of(members@);
    let mut r: Vec<MessageHeaders> = Vec::new();
    if members.len() == 0 {
        assert(model::headers_of(r@) =~= Seq::<HeadersModel>::empty());
        return r;
    }
    let mut i: usize = 1;
    assert(model::headers_of(r@) =~= all.subrange(1, 1));
    while i < members.len()
        invariant
            1 <= i <= members@.len(),
            all == model::headers_of(members@),
            model::headers_of(r@) == all.subrange(1, i as int),
        decreases members@.len() - i,
    {
        let ghost before = r@;
        r.push(members[i].clone());
        assert(model::headers_of(r@) =~= model::headers_of(before).push(all[i as int]));
        assert(model::headers_of(r@) =~= all.subrange(1, i + 1));
        i = i + 1;
    }
    assert(all.subrange(1, all.len() as int) =~= all.skip(1));
    r
}

/// The hint on a conversation's number of messages.
pub fn thread_hint(count: usize) -> (r: String)
    ensures
        r@ == number::decimal(count as nat) + " messages in thread"@,
{
    let mut r = decimal_text(count as u64);
    r.append(" messages in thread");
    r
}

// ---------------------------------------------------------------------
// Paging
// ---------------------------------------------------------------------

/// How far the list of a folder reaches back.
#[derive(Debug, Clone, Copy, PartialEq, Eq, Structural)]
pub struct Pager {
    pub limit: u32,
    pub loading: bool,
    pub exhausted: bool,
}

/// How many older messages one step asks for.
pub const OLDER_BATCH: u32 = 50;

impl Pager {
    /// Scrolling loads older messages now: never two steps at once, and none
    /// past the end.
    pub open spec fn loads(self, near_end: bool) -> bool {
        near_end && !self.loading && !self.exhausted
    }

    /// The pager once it is known how many loaded messages were new; none where
    /// loading failed.
    pub open spec fn after_answer(self, new: Option<u32>) -> Pager {
        match new {
            Some(n) => Pager {
                limit: grown(
                    self.limit,
                    if n > OLDER_BATCH {
                        n
                    } else {
                        OLDER_BATCH
                    },
                ),
                loading: false,
                exhausted: self.exhausted || n == 0,
            },
            None => Pager { loading: false, ..self },
        }
    }

    /// A list that was just opened.
    pub fn new() -> (r: Pager)
        ensures
            r == (Pager { limit: 200, loading: false, exhausted: false }),
    {
        Pager { limit: 200, loading: false, exhausted: false }
    }

    /// The user scrolled; `near_end` tells whether the end is close. Whether
    /// older messages are to be loaded now.
    pub fn scrolled(&mut self, near_end: bool) -> (load: bool)
        ensures
            load == old(self).loads(near_end),
            *final(self) == (Pager { loading: old(self).loading || load, ..*old(self) }),
    {
        if self.loading || self.exhausted || !near_end {
            return false;
        }
        self.loading = true;
        true
    }

    /// Takes the answer to loading older messages: how many were new. Whether
    /// the list must be fetched again.
    pub fn answered(&mut self, answer: Result<u32, String>) -> (refetch: bool)
        ensures
            refetch == (answer is Ok && answer->Ok_0 > 0),
            *final(self) == old(self).after_answer(
                match answer {
                    Ok(n) => Some(n),
                    Err(_) => None,
                },
            ),
    {
        self.loading = false;
        match answer {
            Ok(n) => {
                let step: u32 = if n > OLDER_BATCH {
                    n
                } else {
                    OLDER_BATCH
                };
                self.limit = self.limit.saturating_add(step);
                if n == 0 {
                    self.exhausted = true;
                    false
                } else {
                    true
                }
            },
            Err(_) => false,
        }
    }

    /// What stands below the list.
    pub fn footer(&self) -> (r: &'static str)
        ensures
            r@ == if self.exhausted {
                "All older messages loaded."@
            } else if self.loading {
                "Loading more…"@
            } else {
                ""@
            },
    {
        if self.exhausted {
            "All older messages loaded."
        } else if self.loading {
            "Loading more…"
        } else {
            ""
        }
    }
}

/// `limit` grown by `step`, at most to the greatest number.
pub open spec fn grown(limit: u32, step: u32) -> u32 {
    if limit + step > u32::MAX {
        u32::MAX
    } else {
        (limit + step) as u32
    }
}

/// A list never reaches back less far than before, a failure can be tried again,
/// and once nothing older was found nothing more is loaded.
pub proof fn law_list_only_grows(p: Pager, new: Option<u32>, near_end: bool)
    ensures
        p.after_answer(new).limit >= p.limit,
        new is None && !p.exhausted ==> p.after_answer(new).loads(true),
        p.exhausted || new == Some(0u32) ==> !p.after_answer(new).loads(near_end),
{
}

// ---------------------------------------------------------------------
// What the list shows
// ---------------------------------------------------------------------

/// A filter keeps the messages of its account, in order, and no other; without
/// one all are kept.
pub proof fn law_a_filter_keeps_its_account(list: Seq<HeadersModel>, account: Seq<char>)
    ensures
        of_account(list, Some(account)) == list.filter(
            |h: HeadersModel| h.account_id == account,
        ),
        of_account(list, None) == list,
    decreases list.len(),
{
    reveal(Seq::filter);
    if list.len() > 0 {
        law_a_filter_keeps_its_account(list.drop_last(), account);
    }
    assert(of_account(list, Some(account)) =~= list.filter(
        |h: HeadersModel| h.account_id == account,
    ));
}

/// Every list shows all its messages in order; a search and the unified inbox
/// show each on its own.
pub proof fn law_lists_show_every_message(view: ListView, messages: Seq<HeadersModel>)
    ensures
        threading::shown_by(listed(view, messages)) == messages,
        !(view is Folder) ==> listed(view, messages).len() == messages.len() && forall|i: int|
            0 <= i < messages.len() ==> #[trigger] listed(view, messages)[i] == ItemModel::Single(
                messages[i],
            ),
        view is Folder ==> listed(view, messages) == threading::rows_of(messages),
    decreases messages.len(),
{
    if view is Folder {
        threading::law_grouping_keeps_the_page(messages);
    } else if messages.len() > 0 {
        let init = messages.drop_last();
        law_lists_show_every_message(view, init);
        assert(listed(view, messages).drop_last() =~= listed(view, init));
        assert(threading::shown_by(listed(view, messages)) =~= messages);
    } else {
        assert(listed(view, messages) =~= Seq::<ItemModel>::empty());
    }
}

/// A message is listed under the name of its first sender, or the address where
/// the name is not known, with its subject and what it starts with.
pub proof fn law_rows_name_sender_and_subject(
    from: Seq<AddressModel>,
    subject: Seq<char>,
    snippet: Seq<char>,
)
    ensures
        from.len() > 0 && (from[0].display_name matches Some(n) && n.len() > 0) ==> sender_name(
            from,
        ) == from[0].display_name->0,
        from.len() > 0 && !(from[0].display_name matches Some(n) && n.len() > 0) ==> sender_name(
            from,
        ) == from[0].address,
        from.len() == 0 ==> sender_name(from).len() == 0,
        subject.len() > 0 && snippet.len() > 0 ==> subject_line(subject, snippet) == subject
            + " · "@ + snippet,
        subject.len() > 0 && snippet.len() == 0 ==> subject_line(subject, snippet) == subject,
        subject.len() == 0 && snippet.len() == 0 ==> subject_line(subject, snippet)
            == "(no subject)"@,
        subject.len() == 0 && snippet.len() > 0 ==> subject_line(subject, snippet)
            == "(no subject)"@ + " · "@ + snippet,
{
}

/// A row is marked by what it is: a conversation, selected or else checked, and
/// unread.
pub proof fn law_rows_are_marked_by_what_they_are(
    thread: bool,
    selected: bool,
    checked: bool,
    unread: bool,
)
    ensures
        row_class(thread, selected, checked, unread) == "msg-row"@ + (if thread {
            " thread-row"@
        } else {
            ""@
        }) + (if selected {
            " selected"@
        } else if checked {
            " checked"@
        } else {
            ""@
        }) + (if unread {
            " unread"@
        } else {
            ""@
        }),
{
    reveal_strlit("msg-row");
    reveal_strlit(" thread-row");
    reveal_strlit(" selected");
    reveal_strlit(" checked");
    reveal_strlit(" unread");
    reveal_strlit("");
    reveal_strlit("msg-row thread-row selected unread");
    reveal_strlit("msg-row thread-row selected");
    reveal_strlit("msg-row thread-row checked unread");
    reveal_strlit("msg-row thread-row checked");
    reveal_strlit("msg-row thread-row unread");
    reveal_strlit("msg-row thread-row");
    reveal_strlit("msg-row selected unread");
    reveal_strlit("msg-row selected");
    reveal_strlit("msg-row checked unread");
    reveal_strlit("msg-row checked");
    reveal_strlit("msg-row unread");
    assert(row_class(thread, selected, checked, unread) =~= "msg-row"@ + (if thread {
        " thread-row"@
    } else {
        ""@
    }) + (if selected {
        " selected"@
    } else if checked {
        " checked"@
    } else {
        ""@
    }) + (if unread {
        " unread"@
    } else {
        ""@
    }));
}

/// A row shows its message: its mark, its sender, its subject, and whether it is
/// checked and unread.
pub proof fn law_a_row_shows_its_message(
    r: RowView,
    h: HeadersModel,
    thread: bool,
    selected: bool,
    checked: bool,
    unread: bool,
)
    requires
        row_shows(r, h, thread, selected, checked, unread),
    ensures
        r.checked == checked,
        r.unread == unread,
        r.from_name@ == sender_name(h.from),
        r.subject_line@ == subject_line(h.subject, h.snippet),
        r.flag_glyph@ == display::dominant_flag(h.flags).0,
        r.flag_class@ == "msg-row-flag "@ + display::dominant_flag(h.flags).1,
        r.class@ == row_class(thread, selected, checked, unread),
{
}

/// A conversation is unread while any of its messages is, and checked while all
/// of them are.
pub proof fn law_a_conversation_is_unread_while_any_is(
    members: Seq<HeadersModel>,
    checked: Set<Seq<char>>,
    i: int,
)
    requires
        0 <= i < members.len(),
    ensures
        !members[i].flags.seen ==> any_unread(members),
        (forall|j: int| 0 <= j < members.len() ==> (#[trigger] members[j]).flags.seen)
            ==> !any_unread(members),
        !checked.contains(members[i].id) ==> !all_checked(members, checked),
        (forall|j: int| 0 <= j < members.len() ==> checked.contains((#[trigger] members[j]).id))
            ==> all_checked(members, checked),
        ids_in(members).contains(members[i].id),
        forall|x: Seq<char>| #[trigger]
            ids_in(members).contains(x) ==> exists|j: int|
                0 <= j < members.len() && (#[trigger] members[j]).id == x,
{
    let ids = members.map_values(|h: HeadersModel| h.id);
    assert(ids[i] == members[i].id);
    assert forall|x: Seq<char>| #[trigger] ids_in(members).contains(x) implies exists|j: int|
        0 <= j < members.len() && (#[trigger] members[j]).id == x by {
        let j = choose|j: int| 0 <= j < ids.len() && ids[j] == x;
        assert(members[j].id == x);
    }
}

/// An action on the checked messages asks for what it says.
pub proof fn law_bulk_actions_do_what_they_say(q: BulkRequest)
    ensures
        q.does(BulkAction::Archive) <==> q is Archive,
        q.does(BulkAction::Delete) <==> q is Delete,
        q.does(BulkAction::MarkRead) <==> q is MarkRead && q->MarkRead_0.seen,
        q.does(BulkAction::MarkUnread) <==> q is MarkRead && !q->MarkRead_0.seen,
        q is Archive ==> q.ids() == model::message_ids(q->Archive_0.ids@),
        q is MarkRead ==> q.ids() == model::message_ids(q->MarkRead_0.ids@),
        q is Delete ==> q.ids() == model::message_ids(q->Delete_0.ids@),
{
}

/// The list reaches further back by what was found, and by fifty at least, and
/// loads again when its end comes near, one load at a time.
pub proof fn law_the_list_reaches_further_back(p: Pager, n: u32)
    ensures
        p.limit + 50 <= u32::MAX && n <= 50 ==> p.after_answer(Some(n)).limit == p.limit + 50,
        p.limit + n <= u32::MAX && n > 50 ==> p.after_answer(Some(n)).limit == p.limit + n,
        p.after_answer(None).limit == p.limit,
        !p.after_answer(Some(n)).loading,
        !p.after_answer(None).loading,
        n > 0 && !p.exhausted ==> !p.after_answer(Some(n)).exhausted,
        p.after_answer(Some(0)).exhausted,
        p.after_answer(None).exhausted == p.exhausted,
        p.loads(true) <==> !p.loading && !p.exhausted,
        !p.loads(false),
{
}

/// The list reaches as far back as a number can say, and no further.
pub proof fn law_the_list_does_not_shrink(p: Pager, n: u32)
    ensures
        p.after_answer(Some(n)).limit >= p.limit,
        p.limit + n > u32::MAX ==> p.after_answer(Some(n)).limit == u32::MAX,
        p.limit + 50 > u32::MAX ==> p.after_answer(Some(n)).limit == u32::MAX,
{
}

} // verus!
