//! The three-pane shell: what is selected, which overlays are open, and what
//! the keyboard does to them.
use vstd::prelude::*;

use crate::compose::ComposeState;
use crate::display;
use crate::keyboard::KeyboardCommand;
use crate::model;
use crate::model::{AccountId, Folder, FolderId, FolderRole, MessageHeaders, MessageId, SyncEvent};
use crate::number;
use crate::number::{bump_revision, decimal_text};
use crate::reply::ReplyKind;
use crate::settings::{KEY_DENSITY, KEY_THEME};
use crate::sync_status;
use crate::sync_status::{SyncStatus, SyncStatusModel, folder_title};
use crate::text;
use crate::text::{str_eq, trim};

verus! {

// ---------------------------------------------------------------------
// State
// ---------------------------------------------------------------------

/// What the three panes show. With `unified` set, the list shows every
/// account's inbox, and the other fields but `message` are ignored.
#[derive(Debug, PartialEq, Eq)]
pub struct Selection {
    pub account: Option<AccountId>,
    pub folder: Option<FolderId>,
    pub message: Option<MessageId>,
    pub unified: bool,
}

/// The contents of a [`Selection`].
pub struct SelectionModel {
    pub account: Option<Seq<char>>,
    pub folder: Option<Seq<char>>,
    pub message: Option<Seq<char>>,
    pub unified: bool,
}

impl View for Selection {
    type V = SelectionModel;

    open spec fn view(&self) -> SelectionModel {
        SelectionModel {
            account: model::opt_account(self.account),
            folder: model::opt_folder(self.folder),
            message: model::opt_message(self.message),
            unified: self.unified,
        }
    }
}

impl Default for Selection {
    fn default() -> (r: Self)
        ensures
            r@ == (SelectionModel { account: None, folder: None, message: None, unified: false }),
    {
        Selection { account: None, folder: None, message: None, unified: false }
    }
}

impl Selection {
    /// A folder was chosen.
    pub fn open_folder(&mut self, account: AccountId, folder: FolderId)
        ensures
            final(self)@ == (SelectionModel {
                account: Some(account@),
                folder: Some(folder@),
                message: None,
                unified: false,
            }),
    {
        self.account = Some(account);
        self.folder = Some(folder);
        self.message = None;
        self.unified = false;
    }

    /// A message was chosen.
    pub fn open_message(&mut self, message: MessageId)
        ensures
            final(self)@ == (SelectionModel { message: Some(message@), ..old(self)@ }),
    {
        self.message = Some(message);
    }

    /// The list has loaded: its first message is chosen where none is.
    pub fn preselect(&mut self, messages: &Vec<MessageHeaders>)
        ensures
            final(self)@ == if old(self)@.message is None && messages@.len() > 0 {
                (SelectionModel { message: Some(messages@[0].id@), ..old(self)@ })
            } else {
                old(self)@
            },
    {
        if self.message.is_none() && messages.len() > 0 {
            self.message = Some(messages[0].id.clone());
        }
    }

    /// The folders of `account` have loaded: its inbox is chosen where nothing
    /// is.
    pub fn preselect_inbox(&mut self, account: &AccountId, folders: &Vec<Folder>)
        ensures
            final(self)@ == match first_with_role(folders@, FolderRole::Inbox) {
                Some(f) if old(self)@.folder is None && !old(self)@.unified => (SelectionModel {
                    account: Some(account@),
                    folder: Some(f.id@),
                    message: None,
                    unified: false,
                }),
                _ => old(self)@,
            },
    {
        if self.folder.is_some() || self.unified {
            return;
        }
        if let Some(i) = find_role(folders, FolderRole::Inbox) {
            self.open_folder(account.clone(), folders[i].id.clone());
        }
    }
}

/// The first folder with this role.
pub open spec fn first_with_role(folders: Seq<Folder>, role: FolderRole) -> Option<Folder>
    decreases folders.len(),
{
    if folders.len() == 0 {
        None
    } else if folders[0].role == Some(role) {
        Some(folders[0])
    } else {
        first_with_role(folders.drop_first(), role)
    }
}

/// The place of the first folder with this role.
pub fn find_role(folders: &Vec<Folder>, role: FolderRole) -> (r: Option<usize>)
    ensures
        match r {
            Some(i) => i < folders@.len() && first_with_role(folders@, role) == Some(
                folders@[i as int],
            ),
            None => first_with_role(folders@, role) is None,
        },
{
    let mut i: usize = 0;
    assert(folders@.skip(0) =~= folders@);
    while i < folders.len()
        invariant
            i <= folders@.len(),
            first_with_role(folders@, role) == first_with_role(folders@.skip(i as int), role),
        decreases folders@.len() - i,
    {
        assert(folders@.skip(i as int)[0] == folders@[i as int]);
        assert(folders@.skip(i as int).drop_first() =~= folders@.skip(i + 1));
        if let Some(r) = folders[i].role {
            if r == role {
                return Some(i);
            }
        }
        i = i + 1;
    }
    None
}

/// The message whose menu is open, and whether it was unread when the menu
/// opened.
#[derive(Debug, PartialEq, Eq)]
pub struct MessageContextMenu {
    pub message_id: MessageId,
    pub is_unread: bool,
}

impl View for MessageContextMenu {
    type V = (Seq<char>, bool);

    open spec fn view(&self) -> (Seq<char>, bool) {
        (self.message_id@, self.is_unread)
    }
}

impl MessageContextMenu {
    /// How the item reads that marks the message, and what it sets `seen` to.
    pub fn toggle(&self) -> (r: (&'static str, bool))
        ensures
            r.0@ == if self.is_unread {
                "Mark as read"@
            } else {
                "Mark as unread"@
            },
            r.1 == self.is_unread,
    {
        if self.is_unread {
            ("Mark as read", true)
        } else {
            ("Mark as unread", false)
        }
    }
}

/// An entry of a message's menu.
#[derive(Debug, Clone, Copy, PartialEq, Eq, Structural)]
pub enum MenuItem {
    Reply,
    ReplyAll,
    Forward,
    ToggleRead,
    Archive,
    Delete,
    OpenInWindow,
}

/// What an entry of a message's menu asks for.
#[derive(Debug, PartialEq, Eq)]
pub enum MenuRequest {
    Answer(MessageId, ReplyKind),
    MarkRead(MessageId, bool),
    Archive(MessageId),
    Delete(MessageId),
    OpenInWindow(MessageId),
}

/// The contents of a [`MenuRequest`].
pub enum MenuRequestModel {
    Answer(Seq<char>, ReplyKind),
    MarkRead(Seq<char>, bool),
    Archive(Seq<char>),
    Delete(Seq<char>),
    OpenInWindow(Seq<char>),
}

impl View for MenuRequest {
    type V = MenuRequestModel;

    open spec fn view(&self) -> MenuRequestModel {
        match self {
            MenuRequest::Answer(id, kind) => MenuRequestModel::Answer(id@, *kind),
            MenuRequest::MarkRead(id, seen) => MenuRequestModel::MarkRead(id@, *seen),
            MenuRequest::Archive(id) => MenuRequestModel::Archive(id@),
            MenuRequest::Delete(id) => MenuRequestModel::Delete(id@),
            MenuRequest::OpenInWindow(id) => MenuRequestModel::OpenInWindow(id@),
        }
    }
}

/// What an entry asks for in the menu of a message: the message as it was when
/// the menu opened decides whether it is marked as read or as unread.
pub open spec fn menu_request(menu: (Seq<char>, bool), item: MenuItem) -> MenuRequestModel {
    match item {
        MenuItem::Reply => MenuRequestModel::Answer(menu.0, ReplyKind::Reply),
        MenuItem::ReplyAll => MenuRequestModel::Answer(menu.0, ReplyKind::ReplyAll),
        MenuItem::Forward => MenuRequestModel::Answer(menu.0, ReplyKind::Forward),
        MenuItem::ToggleRead => MenuRequestModel::MarkRead(menu.0, menu.1),
        MenuItem::Archive => MenuRequestModel::Archive(menu.0),
        MenuItem::Delete => MenuRequestModel::Delete(menu.0),
        MenuItem::OpenInWindow => MenuRequestModel::OpenInWindow(menu.0),
    }
}

/// A message of the list, as the keyboard walks it.
#[derive(Debug, PartialEq, Eq)]
pub struct VisibleMessage {
    pub id: MessageId,
    pub unread: bool,
}

/// The contents of the visible list.
pub open spec fn visible_of(v: Seq<VisibleMessage>) -> Seq<(Seq<char>, bool)> {
    v.map_values(|m: VisibleMessage| (m.id@, m.unread))
}

/// How often one folder was reported.
#[derive(Debug, PartialEq, Eq)]
pub struct FolderToken {
    pub folder: FolderId,
    pub revision: u64,
}

/// How often `folder` was reported; 0 where it never was.
pub open spec fn revision_of(tokens: Seq<FolderToken>, folder: Seq<char>) -> u64
    decreases tokens.len(),
{
    if tokens.len() == 0 {
        0
    } else if tokens[0].folder@ == folder {
        tokens[0].revision
    } else {
        revision_of(tokens.drop_first(), folder)
    }
}

/// Revisions of folders: a list that shows one folder is fetched again only
/// when its own revision changes.
#[derive(Debug, PartialEq, Eq)]
pub struct FolderTokens {
    pub tokens: Vec<FolderToken>,
}

/// [`revision_of`] goes by the first entry for a folder.
proof fn lemma_revision_of(tokens: Seq<FolderToken>, folder: Seq<char>, i: int)
    requires
        0 <= i <= tokens.len(),
        forall|j: int| 0 <= j < i ==> (#[trigger] tokens[j]).folder@ != folder,
        i < tokens.len() ==> tokens[i].folder@ == folder,
    ensures
        revision_of(tokens, folder) == if i < tokens.len() {
            tokens[i].revision
        } else {
            0
        },
    decreases tokens.len(),
{
    if i > 0 {
        assert(tokens[0].folder@ != folder);
        assert forall|j: int| 0 <= j < i - 1 implies (
        #[trigger] tokens.drop_first()[j]).folder@ != folder by {
            assert(tokens.drop_first()[j] == tokens[j + 1]);
        }
        lemma_revision_of(tokens.drop_first(), folder, i - 1);
    }
}

/// Changing the entry of one folder leaves the revisions of the others.
proof fn lemma_other_revisions(a: Seq<FolderToken>, b: Seq<FolderToken>, other: Seq<char>)
    requires
        a.len() == b.len(),
        forall|j: int| 0 <= j < a.len() ==> (#[trigger] a[j]).folder@ == b[j].folder@,
        forall|j: int|
            0 <= j < a.len() && (#[trigger] a[j]).folder@ == other ==> a[j].revision
                == b[j].revision,
    ensures
        revision_of(a, other) == revision_of(b, other),
    decreases a.len(),
{
    if a.len() > 0 {
        assert(a[0].folder@ == b[0].folder@);
        assert forall|j: int| 0 <= j < a.drop_first().len() implies (
        #[trigger] a.drop_first()[j]).folder@ == b.drop_first()[j].folder@ && (
        a.drop_first()[j].folder@ == other ==> a.drop_first()[j].revision
            == b.drop_first()[j].revision) by {
            assert(a.drop_first()[j] == a[j + 1]);
            assert(b.drop_first()[j] == b[j + 1]);
        }
        lemma_other_revisions(a.drop_first(), b.drop_first(), other);
    }
}

/// An entry at the end counts only where no earlier one does.
proof fn lemma_appended_revision(a: Seq<FolderToken>, t: FolderToken, other: Seq<char>)
    requires
        t.folder@ != other,
    ensures
        revision_of(a.push(t), other) == revision_of(a, other),
    decreases a.len(),
{
    if a.len() > 0 {
        assert(a.push(t).drop_first() =~= a.drop_first().push(t));
        lemma_appended_revision(a.drop_first(), t, other);
    } else {
        assert(a.push(t).drop_first() =~= a);
    }
}

impl FolderTokens {
    /// See [`revision_of`].
    pub open spec fn revision(self, folder: Seq<char>) -> u64 {
        revision_of(self.tokens@, folder)
    }

    /// No folder was reported yet.
    pub fn new() -> (r: FolderTokens)
        ensures
            forall|f: Seq<char>| #[trigger] r.revision(f) == 0,
    {
        FolderTokens { tokens: Vec::new() }
    }

    /// The place of a folder's entry, or the number of entries.
    fn place(&self, folder: &FolderId) -> (i: usize)
        ensures
            i <= self.tokens@.len(),
            forall|j: int| 0 <= j < i ==> (#[trigger] self.tokens@[j]).folder@ != folder@,
            i < self.tokens@.len() ==> self.tokens@[i as int].folder@ == folder@,
    {
        let mut i: usize = 0;
        while i < self.tokens.len() && !self.tokens[i].folder.same(folder)
            invariant
                i <= self.tokens@.len(),
                forall|j: int| 0 <= j < i ==> (#[trigger] self.tokens@[j]).folder@ != folder@,
            decreases self.tokens@.len() - i,
        {
            i = i + 1;
        }
        i
    }

    /// See [`revision_of`].
    pub fn get(&self, folder: &FolderId) -> (r: u64)
        ensures
            r == self.revision(folder@),
    {
        let i = self.place(folder);
        proof {
            lemma_revision_of(self.tokens@, folder@, i as int);
        }
        if i < self.tokens.len() {
            self.tokens[i].revision
        } else {
            0
        }
    }

    /// Counts a report of `folder`.
    pub fn bump(&mut self, folder: &FolderId)
        ensures
            forall|f: Seq<char>| #[trigger]
                final(self).revision(f) == if f == folder@ {
                    number::next_revision(old(self).revision(f))
                } else {
                    old(self).revision(f)
                },
    {
        let i = self.place(folder);
        let ghost before = self.tokens@;
        proof {
            lemma_revision_of(before, folder@, i as int);
        }
        if i < self.tokens.len() {
            let r: u64 = bump_revision(self.tokens[i].revision);
            let f = self.tokens[i].folder.clone();
            self.tokens.set(i, FolderToken { folder: f, revision: r });
        } else {
            self.tokens.push(FolderToken { folder: folder.clone(), revision: bump_revision(0) });
        }
        proof {
            let after = self.tokens@;
            lemma_revision_of(after, folder@, i as int);
            assert forall|f: Seq<char>| #[trigger] self.revision(f) == if f == folder@ {
                number::next_revision(old(self).revision(f))
            } else {
                old(self).revision(f)
            } by {
                if f != folder@ {
                    if i < before.len() {
                        lemma_other_revisions(before, after, f);
                    } else {
                        lemma_appended_revision(before, after[i as int], f);
                        assert(after =~= before.push(after[i as int]));
                    }
                }
            }
        }
    }
}

/// The state of the shell.
#[derive(Debug)]
pub struct Shell {
    pub selection: Selection,
    /// Counts reports of any folder.
    pub sync_tick: u64,
    pub compose: Option<ComposeState>,
    pub help_visible: bool,
    pub palette_visible: bool,
    pub search_query: String,
    pub recent_searches: Vec<String>,
    /// The moment at which a held send goes out, in milliseconds.
    pub undo_send_pending: Option<u64>,
    pub context_menu: Option<MessageContextMenu>,
    pub visible: Vec<VisibleMessage>,
    pub folder_tokens: FolderTokens,
    pub status: SyncStatus,
}

/// The contents of a [`Shell`], but for the revisions of folders.
pub struct ShellModel {
    pub selection: SelectionModel,
    pub sync_tick: u64,
    pub compose: Option<(Option<Seq<char>>, Option<Seq<char>>)>,
    pub help_visible: bool,
    pub palette_visible: bool,
    pub search_query: Seq<char>,
    pub recent_searches: Seq<Seq<char>>,
    pub undo_send_pending: Option<u64>,
    pub context_menu: Option<(Seq<char>, bool)>,
    pub visible: Seq<(Seq<char>, bool)>,
    pub status: SyncStatusModel,
}

impl View for Shell {
    type V = ShellModel;

    open spec fn view(&self) -> ShellModel {
        ShellModel {
            selection: self.selection@,
            sync_tick: self.sync_tick,
            compose: match self.compose {
                Some(c) => Some(c@),
                None => None,
            },
            help_visible: self.help_visible,
            palette_visible: self.palette_visible,
            search_query: self.search_query@,
            recent_searches: model::texts(self.recent_searches@),
            undo_send_pending: self.undo_send_pending,
            context_menu: match self.context_menu {
                Some(m) => Some(m@),
                None => None,
            },
            visible: visible_of(self.visible@),
            status: self.status@,
        }
    }
}

// ---------------------------------------------------------------------
// Recent searches
// ---------------------------------------------------------------------

/// How many searches are remembered.
pub const RECENT_SEARCHES: usize = 8;

/// `list` without `q`.
pub open spec fn without(list: Seq<Seq<char>>, q: Seq<char>) -> Seq<Seq<char>>
    decreases list.len(),
{
    if list.len() == 0 {
        Seq::empty()
    } else if list.last() == q {
        without(list.drop_last(), q)
    } else {
        without(list.drop_last(), q).push(list.last())
    }
}

/// The remembered searches after `q`: it comes first, stands there once, and
/// the oldest make room.
pub open spec fn remembered(list: Seq<Seq<char>>, q: Seq<char>) -> Seq<Seq<char>> {
    let all = seq![q] + without(list, q);
    if all.len() > RECENT_SEARCHES {
        all.take(RECENT_SEARCHES as int)
    } else {
        all
    }
}

/// No search stands in the list twice.
pub open spec fn all_different(list: Seq<Seq<char>>) -> bool {
    forall|i: int, j: int|
        0 <= i < j < list.len() ==> #[trigger] list[i] != #[trigger] list[j]
}

/// What [`without`] leaves comes from the list and is not `q`.
proof fn lemma_without(list: Seq<Seq<char>>, q: Seq<char>)
    ensures
        without(list, q).len() <= list.len(),
        forall|i: int|
            0 <= i < without(list, q).len() ==> #[trigger] without(list, q)[i] != q
                && list.contains(without(list, q)[i]),
        all_different(list) ==> all_different(without(list, q)),
    decreases list.len(),
{
    if list.len() > 0 {
        let init = list.drop_last();
        let rest = without(init, q);
        lemma_without(init, q);
        assert forall|i: int| 0 <= i < rest.len() implies list.contains(#[trigger] rest[i]) by {
            let k = choose|k: int| 0 <= k < init.len() && init[k] == rest[i];
            assert(list[k] == rest[i]);
        }
        if list.last() != q {
            assert(list[list.len() - 1] == list.last());
            if all_different(list) {
                assert(all_different(init)) by {
                    assert forall|i: int, j: int| 0 <= i < j < init.len() implies #[trigger] init[i]
                        != #[trigger] init[j] by {
                        assert(list[i] != list[j]);
                    }
                }
                assert forall|i: int| 0 <= i < rest.len() implies #[trigger] rest[i] != list.last() by {
                    let k = choose|k: int| 0 <= k < init.len() && init[k] == rest[i];
                    assert(list[k] != list[list.len() - 1]);
                }
            }
        } else if all_different(list) {
            assert forall|i: int, j: int| 0 <= i < j < init.len() implies #[trigger] init[i]
                != #[trigger] init[j] by {
                assert(list[i] != list[j]);
            }
        }
    }
}

/// Remembering a search puts it first, keeps the list short, and keeps its
/// entries different.
pub proof fn law_recent_searches(list: Seq<Seq<char>>, q: Seq<char>)
    requires
        all_different(list),
    ensures
        remembered(list, q)[0] == q,
        remembered(list, q).len() <= RECENT_SEARCHES,
        all_different(remembered(list, q)),
{
    lemma_without(list, q);
    let rest = without(list, q);
    let all = seq![q] + rest;
    assert forall|i: int, j: int| 0 <= i < j < all.len() implies #[trigger] all[i]
        != #[trigger] all[j] by {
        assert(all[j] == rest[j - 1]);
        if i > 0 {
            assert(all[i] == rest[i - 1]);
        }
    }
}

/// See [`remembered`].
pub fn remember_search(list: &Vec<String>, q: &String) -> (r: Vec<String>)
    ensures
        model::texts(r@) == remembered(model::texts(list@), q@),
{
    let mut r: Vec<String> = Vec::new();
    r.push(q.clone());
    let mut i: usize = 0;
    assert(model::texts(r@) =~= seq![q@] + without(model::texts(list@).take(0), q@));
    while i < list.len()
        invariant
            i <= list@.len(),
            model::texts(r@) == seq![q@] + without(model::texts(list@).take(i as int), q@),
        decreases list@.len() - i,
    {
        let ghost before = model::texts(r@);
        assert(model::texts(list@).take(i + 1).drop_last() =~= model::texts(list@).take(i as int));
        assert(model::texts(list@).take(i + 1).last() == list@[i as int]@);
        if list[i] != *q {
            r.push(list[i].clone());
            assert(model::texts(r@) =~= before.push(list@[i as int]@));
        }
        assert(model::texts(r@) =~= seq![q@] + without(model::texts(list@).take(i + 1), q@));
        i = i + 1;
    }
    assert(model::texts(list@).take(list@.len() as int) =~= model::texts(list@));
    let ghost full = model::texts(r@);
    if r.len() > RECENT_SEARCHES {
        r.truncate(RECENT_SEARCHES);
        assert(model::texts(r@) =~= full.take(RECENT_SEARCHES as int));
    }
    r
}

// ---------------------------------------------------------------------
// Commands
// ---------------------------------------------------------------------

/// The ids of the visible messages.
pub open spec fn ids_of(visible: Seq<(Seq<char>, bool)>) -> Seq<Seq<char>> {
    visible.map_values(|m: (Seq<char>, bool)| m.0)
}

/// The place of the first unread message at or after `from`, or the number of
/// messages.
pub open spec fn unread_from(visible: Seq<(Seq<char>, bool)>, from: int) -> int
    decreases visible.len() - from,
{
    if from >= visible.len() {
        visible.len() as int
    } else if visible[from].1 {
        from
    } else {
        unread_from(visible, from + 1)
    }
}

/// What a command needs from outside the shell.
#[derive(Debug, PartialEq, Eq)]
pub enum ShellAction {
    Nothing,
    FocusSearch,
    Archive(MessageId),
    Delete(MessageId),
    Answer(MessageId, ReplyKind),
}

/// The contents of a [`ShellAction`].
pub enum ActionModel {
    Nothing,
    FocusSearch,
    Archive(Seq<char>),
    Delete(Seq<char>),
    Answer(Seq<char>, ReplyKind),
}

impl View for ShellAction {
    type V = ActionModel;

    open spec fn view(&self) -> ActionModel {
        match self {
            ShellAction::Nothing => ActionModel::Nothing,
            ShellAction::FocusSearch => ActionModel::FocusSearch,
            ShellAction::Archive(id) => ActionModel::Archive(id@),
            ShellAction::Delete(id) => ActionModel::Delete(id@),
            ShellAction::Answer(id, k) => ActionModel::Answer(id@, *k),
        }
    }
}

impl ShellModel {
    /// The shell with another message selected.
    pub open spec fn showing(self, message: Option<Seq<char>>) -> ShellModel {
        ShellModel { selection: SelectionModel { message, ..self.selection }, ..self }
    }

    /// The place of the selected message in the list, or the list's length.
    pub open spec fn selected_place(self) -> int {
        match self.selection.message {
            Some(m) => display::place_of(ids_of(self.visible), m),
            None => self.visible.len() as int,
        }
    }

    /// One layer undone: the first that is there of a pending send, the menu,
    /// the palette, the help, the compose pane, the search and the selection.
    pub open spec fn cancelled(self) -> ShellModel {
        if self.undo_send_pending is Some {
            ShellModel { undo_send_pending: None, ..self }
        } else if self.context_menu is Some {
            ShellModel { context_menu: None, ..self }
        } else if self.palette_visible {
            ShellModel { palette_visible: false, ..self }
        } else if self.help_visible {
            ShellModel { help_visible: false, ..self }
        } else if self.compose is Some {
            ShellModel { compose: None, ..self }
        } else if self.search_query.len() > 0 {
            self.searching(Seq::empty())
        } else {
            self.showing(None)
        }
    }

    /// The shell after the search text became `query`. A search that is
    /// cleared is remembered.
    pub open spec fn searching(self, query: Seq<char>) -> ShellModel {
        let done = text::trimmed(self.search_query);
        ShellModel {
            search_query: query,
            recent_searches: if query.len() == 0 && done.len() > 0 {
                remembered(self.recent_searches, done)
            } else {
                self.recent_searches
            },
            ..self
        }
    }

    /// The next or the previous message selected; the list wraps. Where the
    /// selected message is not in the list, its first or last is selected.
    pub open spec fn stepped(self, forward: bool) -> ShellModel {
        let n = self.visible.len();
        let p = self.selected_place();
        if n == 0 {
            self
        } else {
            let to = if forward {
                if p >= n - 1 {
                    0
                } else {
                    p + 1
                }
            } else {
                if p == 0 {
                    n - 1
                } else {
                    p - 1
                }
            };
            self.showing(Some(self.visible[to].0))
        }
    }

    /// The next unread message after the selected one selected, else the first
    /// unread one; where none is unread, nothing changes.
    pub open spec fn at_next_unread(self) -> ShellModel {
        let n = self.visible.len();
        let p = self.selected_place();
        let later = unread_from(self.visible, p + 1);
        let any = unread_from(self.visible, 0);
        if p < n && later < n {
            self.showing(Some(self.visible[later].0))
        } else if any < n {
            self.showing(Some(self.visible[any].0))
        } else {
            self
        }
    }

    /// The shell after a command.
    pub open spec fn after(self, cmd: KeyboardCommand) -> ShellModel {
        match cmd {
            KeyboardCommand::Compose => ShellModel {
                compose: Some((self.selection.account, None)),
                ..self
            },
            KeyboardCommand::Cancel => self.cancelled(),
            KeyboardCommand::TogglePalette => ShellModel {
                palette_visible: !self.palette_visible,
                ..self
            },
            KeyboardCommand::ToggleHelp => ShellModel { help_visible: !self.help_visible, ..self },
            KeyboardCommand::NextMessage => self.stepped(true),
            KeyboardCommand::PrevMessage => self.stepped(false),
            KeyboardCommand::NextUnread => self.at_next_unread(),
            _ => self,
        }
    }

    /// What a command needs from outside.
    pub open spec fn asks(self, cmd: KeyboardCommand) -> ActionModel {
        match cmd {
            KeyboardCommand::FocusSearch => ActionModel::FocusSearch,
            KeyboardCommand::Archive => match self.selection.message {
                Some(id) => ActionModel::Archive(id),
                None => ActionModel::Nothing,
            },
            KeyboardCommand::Delete => match self.selection.message {
                Some(id) => ActionModel::Delete(id),
                None => ActionModel::Nothing,
            },
            KeyboardCommand::Reply => match self.selection.message {
                Some(id) => ActionModel::Answer(id, ReplyKind::Reply),
                None => ActionModel::Nothing,
            },
            KeyboardCommand::ReplyAll => match self.selection.message {
                Some(id) => ActionModel::Answer(id, ReplyKind::ReplyAll),
                None => ActionModel::Nothing,
            },
            KeyboardCommand::Forward => match self.selection.message {
                Some(id) => ActionModel::Answer(id, ReplyKind::Forward),
                None => ActionModel::Nothing,
            },
            _ => ActionModel::Nothing,
        }
    }

    /// How many layers Cancel could undo.
    pub open spec fn layers(self) -> int {
        (if self.undo_send_pending is Some {
            1int
        } else {
            0
        }) + (if self.context_menu is Some {
            1int
        } else {
            0
        }) + (if self.palette_visible {
            1int
        } else {
            0
        }) + (if self.help_visible {
            1int
        } else {
            0
        }) + (if self.compose is Some {
            1int
        } else {
            0
        }) + (if self.search_query.len() > 0 {
            1int
        } else {
            0
        }) + (if self.selection.message is Some {
            1int
        } else {
            0
        })
    }
}

/// One press of Cancel undoes exactly one layer; with none left it does
/// nothing.
pub proof fn law_cancel_undoes_one_layer(m: ShellModel)
    ensures
        m.layers() > 0 ==> m.cancelled().layers() == m.layers() - 1,
        m.layers() == 0 ==> m.cancelled() == m,
{
}

/// Cancelling a pending send leaves the compose pane open.
pub proof fn law_cancel_keeps_compose_while_a_send_waits(m: ShellModel)
    requires
        m.undo_send_pending is Some,
    ensures
        m.cancelled() == (ShellModel { undo_send_pending: None, ..m }),
{
}

/// Where no message is listed twice and a listed one is selected, going
/// forward and back again, or back and forward, leads to where one was.
pub proof fn law_next_and_previous_undo_each_other(m: ShellModel, forward: bool)
    requires
        all_different(ids_of(m.visible)),
        m.selected_place() < m.visible.len(),
    ensures
        m.stepped(forward).stepped(!forward) == m,
{
    let ids = ids_of(m.visible);
    let cur = m.selection.message->0;
    let p = m.selected_place();
    display::lemma_place_exists(ids, cur);
    assert(ids[p] == cur);
    let n = m.visible.len();
    let to = if forward {
        if p >= n - 1 {
            0
        } else {
            p + 1
        }
    } else {
        if p == 0 {
            n - 1
        } else {
            p - 1
        }
    };
    assert(m.visible[to].0 == ids[to]);
    assert forall|j: int| 0 <= j < to implies #[trigger] ids[j] != ids[to] by {}
    display::lemma_place_of(ids, ids[to], to);
    assert(m.stepped(forward).selected_place() == to);
    assert(m.visible[p].0 == ids[p]);
}

/// [`unread_from`] is the least unread place at or after `from`.
proof fn lemma_unread_from(visible: Seq<(Seq<char>, bool)>, from: int, i: int)
    requires
        0 <= from <= i <= visible.len(),
        forall|j: int| from <= j < i ==> !(#[trigger] visible[j]).1,
        i < visible.len() ==> visible[i].1,
    ensures
        unread_from(visible, from) == i,
    decreases i - from,
{
    if from < i {
        assert(!visible[from].1);
        lemma_unread_from(visible, from + 1, i);
    }
}

impl Shell {
    /// The shell as it starts.
    pub fn new() -> (r: Shell)
        ensures
            r@ == (ShellModel {
                selection: SelectionModel {
                    account: None,
                    folder: None,
                    message: None,
                    unified: false,
                },
                sync_tick: 0,
                compose: None,
                help_visible: false,
                palette_visible: false,
                search_query: Seq::empty(),
                recent_searches: Seq::empty(),
                undo_send_pending: None,
                context_menu: None,
                visible: Seq::empty(),
                status: SyncStatusModel::Initializing,
            }),
            forall|f: Seq<char>| #[trigger] r.folder_tokens.revision(f) == 0,
    {
        let r = Shell {
            selection: Selection::default(),
            sync_tick: 0,
            compose: None,
            help_visible: false,
            palette_visible: false,
            search_query: String::new(),
            recent_searches: Vec::new(),
            undo_send_pending: None,
            context_menu: None,
            visible: Vec::new(),
            folder_tokens: FolderTokens::new(),
            status: SyncStatus::Initializing,
        };
        assert(model::texts(r.recent_searches@) =~= Seq::<Seq<char>>::empty());
        assert(visible_of(r.visible@) =~= Seq::<(Seq<char>, bool)>::empty());
        r
    }

    /// The search text changed.
    pub fn search(&mut self, query: String)
        ensures
            final(self)@ == old(self)@.searching(query@),
            final(self).folder_tokens == old(self).folder_tokens,
    {
        let done = trim(&self.search_query);
        if query.as_str().is_empty() && !done.as_str().is_empty() {
            self.recent_searches = remember_search(&self.recent_searches, &done);
        }
        self.search_query = query;
    }

    /// The place of the selected message in the list, or the list's length.
    fn place(&self) -> (p: usize)
        ensures
            p <= self.visible@.len(),
            p == self@.selected_place(),
    {
        let ghost ids = ids_of(self@.visible);
        match &self.selection.message {
            None => self.visible.len(),
            Some(m) => {
                let mut i: usize = 0;
                while i < self.visible.len() && !self.visible[i].id.same(m)
                    invariant
                        i <= self.visible@.len(),
                        ids == ids_of(visible_of(self.visible@)),
                        ids.len() == self.visible@.len(),
                        forall|j: int| 0 <= j < i ==> #[trigger] ids[j] != m@,
                    decreases self.visible@.len() - i,
                {
                    assert(ids[i as int] == self.visible@[i as int].id@);
                    i = i + 1;
                }
                proof {
                    if i < self.visible@.len() {
                        assert(ids[i as int] == self.visible@[i as int].id@);
                    }
                    display::lemma_place_of(ids, m@, i as int);
                }
                i
            },
        }
    }

    /// The place of the first unread message at or after `from`.
    fn unread_place(&self, from: usize) -> (p: usize)
        requires
            from <= self.visible@.len(),
        ensures
            from <= p <= self.visible@.len(),
            p == unread_from(self@.visible, from as int),
    {
        let mut i: usize = from;
        while i < self.visible.len() && !self.visible[i].unread
            invariant
                from <= i <= self.visible@.len(),
                forall|j: int| from <= j < i ==> !(#[trigger] visible_of(self.visible@)[j]).1,
            decreases self.visible@.len() - i,
        {
            i = i + 1;
        }
        proof {
            lemma_unread_from(visible_of(self.visible@), from as int, i as int);
        }
        i
    }

    /// Selects the message at `i`.
    fn select_place(&mut self, i: usize)
        requires
            i < old(self).visible@.len(),
        ensures
            final(self)@ == old(self)@.showing(Some(old(self)@.visible[i as int].0)),
            final(self).folder_tokens == old(self).folder_tokens,
    {
        self.selection.message = Some(self.visible[i].id.clone());
    }

    /// Undoes one layer.
    fn cancel(&mut self)
        ensures
            final(self)@ == old(self)@.cancelled(),
            final(self).folder_tokens == old(self).folder_tokens,
    {
        if self.undo_send_pending.is_some() {
            self.undo_send_pending = None;
        } else if self.context_menu.is_some() {
            self.context_menu = None;
        } else if self.palette_visible {
            self.palette_visible = false;
        } else if self.help_visible {
            self.help_visible = false;
        } else if self.compose.is_some() {
            self.compose = None;
        } else if !self.search_query.as_str().is_empty() {
            self.search(String::new());
        } else {
            self.selection.message = None;
        }
    }

    /// Runs a keyboard command; what it needs from outside.
    pub fn dispatch(&mut self, cmd: KeyboardCommand) -> (r: ShellAction)
        ensures
            final(self)@ == old(self)@.after(cmd),
            r@ == old(self)@.asks(cmd),
            final(self).folder_tokens == old(self).folder_tokens,
    {
        match cmd {
            KeyboardCommand::Compose => {
                self.compose = Some(
                    ComposeState {
                        default_account: self.selection.account.clone(),
                        draft_id: None,
                    },
                );
                ShellAction::Nothing
            },
            KeyboardCommand::Cancel => {
                self.cancel();
                ShellAction::Nothing
            },
            KeyboardCommand::TogglePalette => {
                self.palette_visible = !self.palette_visible;
                ShellAction::Nothing
            },
            KeyboardCommand::ToggleHelp => {
                self.help_visible = !self.help_visible;
                ShellAction::Nothing
            },
            KeyboardCommand::FocusSearch => ShellAction::FocusSearch,
            KeyboardCommand::NextMessage => {
                let n = self.visible.len();
                if n > 0 {
                    let p = self.place();
                    let to: usize = if p >= n - 1 {
                        0
                    } else {
                        p + 1
                    };
                    self.select_place(to);
                }
                ShellAction::Nothing
            },
            KeyboardCommand::PrevMessage => {
                let n = self.visible.len();
                if n > 0 {
                    let p = self.place();
                    let to: usize = if p == 0 {
                        n - 1
                    } else {
                        p - 1
                    };
                    self.select_place(to);
                }
                ShellAction::Nothing
            },
            KeyboardCommand::NextUnread => {
                let n = self.visible.len();
                let p = self.place();
                let later: usize = if p < n {
                    self.unread_place(p + 1)
                } else {
                    n
                };
                if later < n {
                    self.select_place(later);
                } else {
                    let any = self.unread_place(0);
                    if any < n {
                        self.select_place(any);
                    }
                }
                ShellAction::Nothing
            },
            _ => match &self.selection.message {
                None => ShellAction::Nothing,
                Some(id) => match cmd {
                    KeyboardCommand::Archive => ShellAction::Archive(id.clone()),
                    KeyboardCommand::Delete => ShellAction::Delete(id.clone()),
                    KeyboardCommand::Reply => ShellAction::Answer(id.clone(), ReplyKind::Reply),
                    KeyboardCommand::ReplyAll => ShellAction::Answer(
                        id.clone(),
                        ReplyKind::ReplyAll,
                    ),
                    _ => ShellAction::Answer(id.clone(), ReplyKind::Forward),
                },
            },
        }
    }

    /// The selected message was archived or deleted.
    pub fn selected_message_gone(&mut self)
        ensures
            final(self)@ == (ShellModel {
                sync_tick: number::next_revision(old(self)@.sync_tick),
                ..old(self)@.showing(None)
            }),
            final(self).folder_tokens == old(self).folder_tokens,
    {
        self.selection.message = None;
        self.sync_tick = bump_revision(self.sync_tick);
    }

    /// The message `id` was archived or deleted through its menu: the selection
    /// is cleared only where it was this message.
    pub fn message_gone(&mut self, id: &MessageId)
        ensures
            final(self)@ == (ShellModel {
                sync_tick: number::next_revision(old(self)@.sync_tick),
                ..if old(self)@.selection.message == Some(id@) {
                    old(self)@.showing(None)
                } else {
                    old(self)@
                }
            }),
            final(self).folder_tokens == old(self).folder_tokens,
    {
        let mine = match &self.selection.message {
            Some(m) => m.same(id),
            None => false,
        };
        if mine {
            self.selection.message = None;
        }
        self.sync_tick = bump_revision(self.sync_tick);
    }

    /// An entry of the open menu was chosen: the menu closes, and its message
    /// is what the entry is about.
    pub fn choose_menu_item(&mut self, item: MenuItem) -> (r: Option<MenuRequest>)
        ensures
            final(self)@ == (ShellModel { context_menu: None, ..old(self)@ }),
            final(self).folder_tokens == old(self).folder_tokens,
            match r {
                Some(q) => old(self)@.context_menu is Some && q@ == menu_request(
                    old(self)@.context_menu->0,
                    item,
                ),
                None => old(self)@.context_menu is None,
            },
    {
        let request = match &self.context_menu {
            None => None,
            Some(m) => {
                let id = m.message_id.clone();
                Some(
                    match item {
                        MenuItem::Reply => MenuRequest::Answer(id, ReplyKind::Reply),
                        MenuItem::ReplyAll => MenuRequest::Answer(id, ReplyKind::ReplyAll),
                        MenuItem::Forward => MenuRequest::Answer(id, ReplyKind::Forward),
                        MenuItem::ToggleRead => MenuRequest::MarkRead(id, m.is_unread),
                        MenuItem::Archive => MenuRequest::Archive(id),
                        MenuItem::Delete => MenuRequest::Delete(id),
                        MenuItem::OpenInWindow => MenuRequest::OpenInWindow(id),
                    },
                )
            },
        };
        self.context_menu = None;
        request
    }

    /// A key was pressed in the search field. Escape clears the search, and the
    /// field loses the focus.
    pub fn search_key(&mut self, key: &str) -> (blur: bool)
        ensures
            blur == (key@ == "Escape"@),
            final(self)@ == if blur {
                old(self)@.searching(Seq::empty())
            } else {
                old(self)@
            },
            final(self).folder_tokens == old(self).folder_tokens,
    {
        if str_eq(key, "Escape") {
            let empty = String::new();
            assert(empty@ =~= Seq::<char>::empty());
            self.search(empty);
            true
        } else {
            false
        }
    }

    /// Is the reader's surface shown? The compose pane takes its place, the
    /// palette must not be covered by it, and without a message there is nothing
    /// to show.
    pub fn surface_shown(&self) -> (r: bool)
        ensures
            r == (self@.compose is None && !self@.palette_visible && self@.selection.message
                is Some),
    {
        self.compose.is_none() && !self.palette_visible && self.selection.message.is_some()
    }

    /// Something changed that every list may show.
    pub fn refresh(&mut self)
        ensures
            final(self)@ == (ShellModel {
                sync_tick: number::next_revision(old(self)@.sync_tick),
                ..old(self)@
            }),
            final(self).folder_tokens == old(self).folder_tokens,
    {
        self.sync_tick = bump_revision(self.sync_tick);
    }

    /// The sync engine reported; `event` is none where the report could not be
    /// read. Every report refreshes the lists across folders; only the folder
    /// that it is about counts a revision.
    pub fn sync_reported(&mut self, event: Option<SyncEvent>)
        ensures
            final(self)@ == (ShellModel {
                sync_tick: number::next_revision(old(self)@.sync_tick),
                status: match event {
                    Some(e) => sync_status::status_after(e),
                    None => old(self)@.status,
                },
                ..old(self)@
            }),
            forall|f: Seq<char>| #[trigger]
                final(self).folder_tokens.revision(f) == if event is Some && f
                    == event->0.folder_text() {
                    number::next_revision(old(self).folder_tokens.revision(f))
                } else {
                    old(self).folder_tokens.revision(f)
                },
    {
        self.sync_tick = bump_revision(self.sync_tick);
        if let Some(e) = event {
            self.folder_tokens.bump(e.folder());
            self.status = SyncStatus::from_event(&e);
        }
    }
}

// ---------------------------------------------------------------------
// Windows, panes and appearance
// ---------------------------------------------------------------------

/// What a window shows.
#[derive(Debug, PartialEq, Eq)]
pub enum RootView {
    Reader(MessageId),
    Settings,
    OAuthAdd,
    Main,
}

/// What a window shows: a message where the host named one, else the view that
/// it named; an unknown view falls back to the main one.
pub fn root_view(reader_id: Option<String>, view: Option<String>) -> (r: RootView)
    ensures
        match r {
            RootView::Reader(m) => reader_id is Some && m@ == reader_id->0@,
            RootView::Settings => reader_id is None && model::opt_text(view) == Some("settings"@),
            RootView::OAuthAdd => reader_id is None && model::opt_text(view) == Some("oauth-add"@),
            RootView::Main => reader_id is None && model::opt_text(view) != Some("settings"@) && model::opt_text(
                view,
            ) != Some("oauth-add"@),
        },
{
    if let Some(id) = reader_id {
        return RootView::Reader(MessageId(id));
    }
    match view {
        Some(v) => {
            if str_eq(&v, "settings") {
                RootView::Settings
            } else if str_eq(&v, "oauth-add") {
                RootView::OAuthAdd
            } else {
                RootView::Main
            }
        },
        None => RootView::Main,
    }
}

/// Which list the middle pane shows.
#[derive(Debug, PartialEq, Eq)]
pub enum ListView {
    Search(String),
    Unified,
    Folder(FolderId),
    Empty,
}

/// Which list the middle pane shows: a search goes before the unified inbox,
/// which goes before a folder.
pub fn list_view(selection: &Selection, query: &String) -> (r: ListView)
    ensures
        match r {
            ListView::Search(q) => q@ == query@ && query@.len() > 0,
            ListView::Unified => query@.len() == 0 && selection.unified,
            ListView::Folder(f) => query@.len() == 0 && !selection.unified && selection@.folder
                == Some(f@),
            ListView::Empty => query@.len() == 0 && !selection.unified && selection@.folder is None,
        },
{
    if !query.as_str().is_empty() {
        return ListView::Search(query.clone());
    }
    if selection.unified {
        return ListView::Unified;
    }
    match &selection.folder {
        Some(f) => ListView::Folder(f.clone()),
        None => ListView::Empty,
    }
}

/// A border that can be dragged.
#[derive(Debug, Clone, Copy, PartialEq, Eq, Structural)]
pub enum SplitTarget {
    Sidebar,
    List,
}

/// The width that a pane gets when it is dragged to `proposed` pixels.
pub fn pane_width(target: SplitTarget, proposed: i64) -> (r: u32)
    ensures
        target == SplitTarget::Sidebar ==> r == if proposed < 160 {
            160
        } else if proposed > 480 {
            480
        } else {
            proposed as int
        },
        target == SplitTarget::List ==> r == if proposed < 220 {
            220
        } else if proposed > 720 {
            720
        } else {
            proposed as int
        },
{
    let (low, high): (i64, i64) = match target {
        SplitTarget::Sidebar => (160, 480),
        SplitTarget::List => (220, 720),
    };
    if proposed < low {
        low as u32
    } else if proposed > high {
        high as u32
    } else {
        proposed as u32
    }
}

/// The column layout of the shell.
pub fn grid_style(sidebar_w: u32, list_w: u32) -> (r: String)
    ensures
        r@ == "grid-template-columns: "@ + number::decimal(sidebar_w as nat) + "px 5px "@ + number::decimal(
            list_w as nat,
        ) + "px 5px 1fr;"@,
{
    let mut r = "grid-template-columns: ".to_owned();
    let a = decimal_text(sidebar_w as u64);
    r.append(&a);
    r.append("px 5px ");
    let b = decimal_text(list_w as u64);
    r.append(&b);
    r.append("px 5px 1fr;");
    r
}

/// The theme that a stored setting selects: `dark`, `light`, else `system`.
pub fn root_theme(setting: &Option<String>) -> (r: &'static str)
    ensures
        r@ == if model::opt_text(*setting) == Some("dark"@) {
            "dark"@
        } else if model::opt_text(*setting) == Some("light"@) {
            "light"@
        } else {
            "system"@
        },
{
    match setting {
        Some(s) => {
            if str_eq(s, "dark") {
                "dark"
            } else if str_eq(s, "light") {
                "light"
            } else {
                "system"
            }
        },
        None => "system",
    }
}

/// The density that a stored setting selects: `compact`, else `comfortable`.
pub fn root_density(setting: &Option<String>) -> (r: &'static str)
    ensures
        r@ == if model::opt_text(*setting) == Some("compact"@) {
            "compact"@
        } else {
            "comfortable"@
        },
{
    match setting {
        Some(s) => {
            if str_eq(s, "compact") {
                "compact"
            } else {
                "comfortable"
            }
        },
        None => "comfortable",
    }
}

/// What a changed setting means for the appearance of a window.
#[derive(Debug, Clone, Copy, PartialEq, Eq)]
pub enum AppearanceChange {
    Theme(&'static str),
    Density(&'static str),
    Nothing,
}

/// What a changed setting means for the appearance of a window.
pub fn appearance_change(key: &str, value: String) -> (r: AppearanceChange)
    ensures
        match r {
            AppearanceChange::Theme(t) => key@ == KEY_THEME@ && t@ == if value@ == "dark"@ {
                "dark"@
            } else if value@ == "light"@ {
                "light"@
            } else {
                "system"@
            },
            AppearanceChange::Density(d) => key@ != KEY_THEME@ && key@ == KEY_DENSITY@ && d@
                == if value@ == "compact"@ {
                "compact"@
            } else {
                "comfortable"@
            },
            AppearanceChange::Nothing => key@ != KEY_THEME@ && key@ != KEY_DENSITY@,
        },
{
    if str_eq(key, KEY_THEME) {
        AppearanceChange::Theme(root_theme(&Some(value)))
    } else if str_eq(key, KEY_DENSITY) {
        AppearanceChange::Density(root_density(&Some(value)))
    } else {
        AppearanceChange::Nothing
    }
}

/// The title of the list in the middle pane, where it has one.
pub fn list_title(view: &ListView) -> (r: Option<String>)
    ensures
        model::opt_text(r) == match *view {
            ListView::Search(q) => Some("Search: "@ + q@),
            ListView::Unified => Some("Unified Inbox"@),
            ListView::Folder(f) => Some(display::friendly_name(text::after_last(f@, ':'))),
            ListView::Empty => None,
        },
{
    match view {
        ListView::Search(q) => {
            let mut t = "Search: ".to_owned();
            t.append(q.as_str());
            Some(t)
        },
        ListView::Unified => Some("Unified Inbox".to_owned()),
        ListView::Folder(f) => Some(folder_title(f)),
        ListView::Empty => None,
    }
}

/// The first folder with a role is found, whatever else is listed.
pub proof fn law_first_with_role(folders: Seq<Folder>, role: FolderRole)
    ensures
        match first_with_role(folders, role) {
            Some(f) => exists|i: int|
                0 <= i < folders.len() && #[trigger] folders[i] == f && f.role == Some(role)
                    && forall|j: int|
                    0 <= j < i ==> (#[trigger] folders[j]).role != Some(role),
            None => forall|j: int|
                0 <= j < folders.len() ==> (#[trigger] folders[j]).role != Some(role),
        },
    decreases folders.len(),
{
    if folders.len() > 0 {
        if folders[0].role == Some(role) {
            assert(folders[0] == first_with_role(folders, role)->0);
        } else {
            let rest = folders.drop_first();
            law_first_with_role(rest, role);
            assert(forall|j: int| 0 < j < folders.len() ==> #[trigger] folders[j] == rest[j - 1]);
            if first_with_role(rest, role) is Some {
                let i = choose|i: int|
                    0 <= i < rest.len() && #[trigger] rest[i] == first_with_role(rest, role)->0
                        && rest[i].role == Some(role) && forall|j: int|
                        0 <= j < i ==> (#[trigger] rest[j]).role != Some(role);
                assert(folders[i + 1] == rest[i]);
                assert forall|j: int| 0 <= j < i + 1 implies (#[trigger] folders[j]).role != Some(
                    role,
                ) by {
                    if j > 0 {
                        assert(folders[j] == rest[j - 1]);
                    }
                }
            }
        }
    }
}

// ---------------------------------------------------------------------
// What commands do
// ---------------------------------------------------------------------

/// Each item of the menu asks for what it says, of the message that the menu
/// was opened on.
pub proof fn law_menu_items_do_what_they_say(id: Seq<char>, unread: bool)
    ensures
        menu_request((id, unread), MenuItem::Reply) == MenuRequestModel::Answer(
            id,
            ReplyKind::Reply,
        ),
        menu_request((id, unread), MenuItem::ReplyAll) == MenuRequestModel::Answer(
            id,
            ReplyKind::ReplyAll,
        ),
        menu_request((id, unread), MenuItem::Forward) == MenuRequestModel::Answer(
            id,
            ReplyKind::Forward,
        ),
        menu_request((id, true), MenuItem::ToggleRead) == MenuRequestModel::MarkRead(id, true),
        menu_request((id, false), MenuItem::ToggleRead) == MenuRequestModel::MarkRead(id, false),
        menu_request((id, unread), MenuItem::Archive) == MenuRequestModel::Archive(id),
        menu_request((id, unread), MenuItem::Delete) == MenuRequestModel::Delete(id),
        menu_request((id, unread), MenuItem::OpenInWindow) == MenuRequestModel::OpenInWindow(id),
{
}

/// A search that is over goes to the head of the recent ones, and the others
/// follow in their order; of more than eight the oldest is forgotten.
pub proof fn law_recent_searches_keep_their_order(list: Seq<Seq<char>>, q: Seq<char>)
    ensures
        ({
            let all = seq![q] + list.filter(|x: Seq<char>| x != q);
            remembered(list, q) == if all.len() > 8 {
                all.take(8)
            } else {
                all
            }
        }),
{
    lemma_without_filters(list, q);
}

/// [`without`] takes out one text.
proof fn lemma_without_filters(list: Seq<Seq<char>>, q: Seq<char>)
    ensures
        without(list, q) == list.filter(|x: Seq<char>| x != q),
    decreases list.len(),
{
    reveal(Seq::filter);
    if list.len() > 0 {
        lemma_without_filters(list.drop_last(), q);
    }
    assert(without(list, q) =~= list.filter(|x: Seq<char>| x != q));
}

/// Cancel takes back what lies on top: a send that waits, then the menu, the
/// palette, the help, the message that is written, the search, and last the
/// message that is read. Nothing below it is touched.
pub proof fn law_cancel_takes_the_top_layer(m: ShellModel)
    ensures
        m.undo_send_pending is Some ==> m.cancelled() == (ShellModel {
            undo_send_pending: None,
            ..m
        }),
        m.undo_send_pending is None && m.context_menu is Some ==> m.cancelled() == (ShellModel {
            context_menu: None,
            ..m
        }),
        m.undo_send_pending is None && m.context_menu is None && m.palette_visible ==> m.cancelled()
            == (ShellModel { palette_visible: false, ..m }),
        m.undo_send_pending is None && m.context_menu is None && !m.palette_visible
            && m.help_visible ==> m.cancelled() == (ShellModel { help_visible: false, ..m }),
        m.undo_send_pending is None && m.context_menu is None && !m.palette_visible
            && !m.help_visible && m.compose is Some ==> m.cancelled() == (ShellModel {
            compose: None,
            ..m
        }),
        m.undo_send_pending is None && m.context_menu is None && !m.palette_visible
            && !m.help_visible && m.compose is None && m.search_query.len() > 0 ==> {
            &&& m.cancelled().search_query.len() == 0
            &&& m.cancelled() == m.searching(Seq::empty())
        },
        m.undo_send_pending is None && m.context_menu is None && !m.palette_visible
            && !m.help_visible && m.compose is None && m.search_query.len() == 0 ==> m.cancelled()
            == (ShellModel { selection: SelectionModel { message: None, ..m.selection }, ..m }),
{
}

/// A search is remembered when it is left, without the white space around it,
/// and not before; a blank one is not. The search itself is what was typed.
pub proof fn law_a_search_is_remembered_when_left(m: ShellModel, query: Seq<char>)
    ensures
        m.searching(query).search_query == query,
        query.len() > 0 ==> m.searching(query).recent_searches == m.recent_searches,
        text::trimmed(m.search_query).len() == 0 ==> m.searching(query).recent_searches
            == m.recent_searches,
        query.len() == 0 && text::trimmed(m.search_query).len() > 0 ==> m.searching(
            query,
        ).recent_searches == remembered(m.recent_searches, text::trimmed(m.search_query)),
        m.searching(query) == (ShellModel {
            search_query: query,
            recent_searches: m.searching(query).recent_searches,
            ..m
        }),
{
}

/// Going forward leads to the next message of the list and from the last to the
/// first; going back leads to the one before and from the first to the last.
/// With nothing selected forward starts at the first and back at the last.
pub proof fn law_steps_follow_the_list(m: ShellModel, i: int)
    requires
        0 <= i < m.visible.len(),
        all_different(ids_of(m.visible)),
    ensures
        ({
            let at = m.showing(Some(m.visible[i].0));
            let n = m.visible.len();
            &&& at.stepped(true).selection.message == Some(
                m.visible[if i + 1 < n {
                    i + 1
                } else {
                    0
                }].0,
            )
            &&& at.stepped(false).selection.message == Some(
                m.visible[if i > 0 {
                    i - 1
                } else {
                    n - 1
                }].0,
            )
            &&& m.showing(None).stepped(true).selection.message == Some(m.visible[0].0)
            &&& m.showing(None).stepped(false).selection.message == Some(m.visible[n - 1].0)
            &&& m.stepped(true) == m.showing(m.stepped(true).selection.message)
        }),
{
    let ids = ids_of(m.visible);
    let at = m.showing(Some(m.visible[i].0));
    assert(ids[i] == m.visible[i].0);
    assert forall|j: int| 0 <= j < i implies #[trigger] ids[j] != ids[i] by {}
    display::lemma_place_of(ids, ids[i], i);
    assert(at.selected_place() == i);
}

/// The next unread message below the selected one is shown; where there is none
/// the search goes on from the top, and where none is unread nothing changes.
pub proof fn law_the_next_unread_message_is_shown(m: ShellModel, i: int, k: int)
    requires
        0 <= i < m.visible.len(),
        0 <= k < m.visible.len(),
        all_different(ids_of(m.visible)),
        m.selection.message == Some(m.visible[i].0),
        m.visible[k].1,
    ensures
        i < k && (forall|j: int| i < j < k ==> !(#[trigger] m.visible[j]).1)
            ==> m.at_next_unread().selection.message == Some(m.visible[k].0),
        (forall|j: int| i < j < m.visible.len() ==> !(#[trigger] m.visible[j]).1) && (forall|j: int|
            0 <= j < k ==> !(#[trigger] m.visible[j]).1)
            ==> m.at_next_unread().selection.message == Some(m.visible[k].0),
{
    let ids = ids_of(m.visible);
    assert(ids[i] == m.visible[i].0);
    assert forall|j: int| 0 <= j < i implies #[trigger] ids[j] != ids[i] by {}
    display::lemma_place_of(ids, ids[i], i);
    let n = m.visible.len() as int;
    if i < k && forall|j: int| i < j < k ==> !(#[trigger] m.visible[j]).1 {
        lemma_unread_from(m.visible, i + 1, k);
    }
    if (forall|j: int| i < j < n ==> !(#[trigger] m.visible[j]).1) && (forall|j: int|
        0 <= j < k ==> !(#[trigger] m.visible[j]).1) {
        lemma_unread_from(m.visible, i + 1, n);
        lemma_unread_from(m.visible, 0, k);
    }
}

/// Where every message was read, going to the next unread one stays.
pub proof fn law_without_unread_mail_nothing_moves(m: ShellModel)
    requires
        forall|j: int| 0 <= j < m.visible.len() ==> !(#[trigger] m.visible[j]).1,
    ensures
        m.at_next_unread() == m,
{
    let n = m.visible.len() as int;
    lemma_unread_from(m.visible, 0, n);
    display::lemma_place_exists(ids_of(m.visible), m.selection.message->0);
    let p = m.selected_place();
    if p < n {
        lemma_unread_from(m.visible, p + 1, n);
    }
}

/// Commands that need a message act on the selected one, and do nothing where
/// none is; the others do not ask for anything outside the window but the
/// search.
pub proof fn law_commands_act_on_the_selected_message(m: ShellModel, id: Seq<char>)
    ensures
        m.selection.message == Some(id) ==> {
            &&& m.asks(KeyboardCommand::Archive) == ActionModel::Archive(id)
            &&& m.asks(KeyboardCommand::Delete) == ActionModel::Delete(id)
            &&& m.asks(KeyboardCommand::Reply) == ActionModel::Answer(id, ReplyKind::Reply)
            &&& m.asks(KeyboardCommand::ReplyAll) == ActionModel::Answer(id, ReplyKind::ReplyAll)
            &&& m.asks(KeyboardCommand::Forward) == ActionModel::Answer(id, ReplyKind::Forward)
        },
        m.selection.message is None ==> {
            &&& m.asks(KeyboardCommand::Archive) is Nothing
            &&& m.asks(KeyboardCommand::Delete) is Nothing
            &&& m.asks(KeyboardCommand::Reply) is Nothing
            &&& m.asks(KeyboardCommand::ReplyAll) is Nothing
            &&& m.asks(KeyboardCommand::Forward) is Nothing
        },
        m.asks(KeyboardCommand::FocusSearch) is FocusSearch,
        m.asks(KeyboardCommand::Compose) is Nothing,
        m.asks(KeyboardCommand::Cancel) is Nothing,
        m.asks(KeyboardCommand::NextMessage) is Nothing,
        m.asks(KeyboardCommand::PrevMessage) is Nothing,
        m.asks(KeyboardCommand::NextUnread) is Nothing,
        m.asks(KeyboardCommand::ToggleHelp) is Nothing,
        m.asks(KeyboardCommand::TogglePalette) is Nothing,
{
}

/// Each command changes the window as it says: a new message is written from
/// the selected account, the palette and the help are shown and hidden in turn,
/// and what acts on a message leaves the window as it is.
pub proof fn law_commands_change_the_window(m: ShellModel)
    ensures
        m.after(KeyboardCommand::Compose) == (ShellModel {
            compose: Some((m.selection.account, None)),
            ..m
        }),
        m.after(KeyboardCommand::TogglePalette) == (ShellModel {
            palette_visible: !m.palette_visible,
            ..m
        }),
        m.after(KeyboardCommand::ToggleHelp) == (ShellModel { help_visible: !m.help_visible, ..m }),
        m.after(KeyboardCommand::Cancel) == m.cancelled(),
        m.after(KeyboardCommand::NextMessage) == m.stepped(true),
        m.after(KeyboardCommand::PrevMessage) == m.stepped(false),
        m.after(KeyboardCommand::NextUnread) == m.at_next_unread(),
        m.after(KeyboardCommand::Archive) == m,
        m.after(KeyboardCommand::Delete) == m,
        m.after(KeyboardCommand::Reply) == m,
        m.after(KeyboardCommand::ReplyAll) == m,
        m.after(KeyboardCommand::Forward) == m,
        m.after(KeyboardCommand::FocusSearch) == m,
{
}

/// A folder has the revision that was noted for it first, and none but zero
/// where none was.
pub proof fn law_folders_have_their_own_revision(
    tokens: Seq<FolderToken>,
    folder: Seq<char>,
    i: int,
)
    ensures
        0 <= i < tokens.len() && tokens[i].folder@ == folder && (forall|j: int|
            0 <= j < i ==> (#[trigger] tokens[j]).folder@ != folder) ==> revision_of(
            tokens,
            folder,
        ) == tokens[i].revision,
        (forall|j: int| 0 <= j < tokens.len() ==> (#[trigger] tokens[j]).folder@ != folder)
            ==> revision_of(tokens, folder) == 0,
    decreases tokens.len(),
{
    if tokens.len() > 0 {
        let rest = tokens.drop_first();
        assert(forall|j: int| 0 <= j < rest.len() ==> #[trigger] rest[j] == tokens[j + 1]);
        law_folders_have_their_own_revision(rest, folder, i - 1);
    }
}

/// What is visible is handed on message by message, in order.
pub proof fn law_the_visible_list_is_kept(v: Seq<VisibleMessage>, i: int)
    requires
        0 <= i < v.len(),
    ensures
        visible_of(v).len() == v.len(),
        visible_of(v)[i] == (v[i].id@, v[i].unread),
{
}

} // verus!
