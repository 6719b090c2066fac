//! The sync engine: which folders are watched, how bursts of changes are
//! gathered, and what is announced.
use vstd::prelude::*;

use crate::compose;
use crate::compose::shown_subject;
use crate::message_list;
use crate::message_list::shown_sender;
use crate::model;
use crate::model::{
    Account, AccountId, BackendKind, Folder, FolderId, FolderRole, HeadersModel, MessageHeaders,
    SyncEvent,
};
use crate::number;
use crate::number::decimal_text;
use crate::order;
use crate::order::{SortKey, sort_folders};
use crate::settings;
use crate::settings::switch_value;

verus! {

// ---------------------------------------------------------------------
// Which folders are watched
// ---------------------------------------------------------------------

/// How many folders of an account are watched at once.
pub const MAX_IMAP_WATCHERS_PER_ACCOUNT: usize = 10;

/// The rank of a folder for watching, by its role.
pub open spec fn watch_band(role: Option<FolderRole>) -> u32 {
    match role {
        Some(FolderRole::Inbox) => 0,
        Some(FolderRole::All) => 1,
        Some(FolderRole::Sent) => 2,
        Some(FolderRole::Drafts) => 3,
        Some(FolderRole::Trash) => 4,
        Some(FolderRole::Spam) => 5,
        Some(FolderRole::Important) => 6,
        Some(FolderRole::Archive) => 7,
        Some(FolderRole::Flagged) => 8,
        None => 100,
    }
}

/// See [`watch_band`].
fn band_to_watch(role: &Option<FolderRole>) -> (r: u32)
    ensures
        r == watch_band(*role),
{
    match role {
        Some(FolderRole::Inbox) => 0,
        Some(FolderRole::All) => 1,
        Some(FolderRole::Sent) => 2,
        Some(FolderRole::Drafts) => 3,
        Some(FolderRole::Trash) => 4,
        Some(FolderRole::Spam) => 5,
        Some(FolderRole::Important) => 6,
        Some(FolderRole::Archive) => 7,
        Some(FolderRole::Flagged) => 8,
        None => 100,
    }
}

/// What a folder is ranked by: its band, then its path.
pub open spec fn watch_key(f: Folder) -> (u32, Seq<char>) {
    (watch_band(f.role), f.path@)
}

/// The ranks of a list of folders.
pub open spec fn watch_keys(folders: Seq<Folder>) -> Seq<(u32, Seq<char>)> {
    folders.map_values(|f: Folder| watch_key(f))
}

/// How many of `n` folders are watched.
pub open spec fn watched_count(n: int) -> int {
    if n > MAX_IMAP_WATCHERS_PER_ACCOUNT {
        MAX_IMAP_WATCHERS_PER_ACCOUNT as int
    } else {
        n
    }
}

/// `active` and `polled` are the folders in the order of their ranks, split
/// after the ones that are watched.
pub open spec fn is_watch_split(
    folders: Seq<Folder>,
    active: Seq<Folder>,
    polled: Seq<Folder>,
) -> bool {
    &&& order::sorted_by_keys(folders, watch_keys(folders), active + polled)
    &&& active.len() == watched_count(folders.len() as int)
}

/// Splits folders into those that are watched and those that are polled. The
/// well-known mailboxes come first, folders without a role last and by path.
pub fn prioritize_imap_folders(folders: Vec<Folder>) -> (r: (Vec<Folder>, Vec<Folder>))
    ensures
        is_watch_split(folders@, r.0@, r.1@),
{
    let mut keys: Vec<SortKey> = Vec::new();
    let mut i: usize = 0;
    while i < folders.len()
        invariant
            i <= folders@.len(),
            keys@.len() == i,
            forall|j: int| 0 <= j < i ==> (#[trigger] keys@[j])@ == watch_keys(folders@)[j],
        decreases folders@.len() - i,
    {
        let f = &folders[i];
        keys.push(SortKey { band: band_to_watch(&f.role), text: f.path.clone() });
        i = i + 1;
    }
    assert(order::keys_of(keys@) =~= watch_keys(folders@));
    let mut active = sort_folders(&folders, &keys);
    let ghost sorted = active@;
    if active.len() <= MAX_IMAP_WATCHERS_PER_ACCOUNT {
        let polled: Vec<Folder> = Vec::new();
        assert(active@ + polled@ =~= sorted);
        (active, polled)
    } else {
        let polled = active.split_off(MAX_IMAP_WATCHERS_PER_ACCOUNT);
        assert(active@ + polled@ =~= sorted);
        (active, polled)
    }
}

/// No folder that is polled ranks before one that is watched.
pub proof fn law_watched_folders_rank_first(
    folders: Seq<Folder>,
    active: Seq<Folder>,
    polled: Seq<Folder>,
    i: int,
    j: int,
)
    requires
        is_watch_split(folders, active, polled),
        0 <= i < active.len(),
        0 <= j < polled.len(),
    ensures
        order::key_lt(watch_key(active[i]), watch_key(polled[j])) || watch_key(active[i]) == watch_key(
            polled[j],
        ),
{
    let keys = watch_keys(folders);
    let all = active + polled;
    let p = choose|p: Seq<int>| #[trigger] order::is_stable_order(keys, p) && all == order::arranged(folders, p);
    assert(all.len() == p.len());
    let k = active.len() + j;
    assert(all[i] == active[i]);
    assert(all[k] == polled[j]);
    assert(0 <= p[i] < keys.len() && 0 <= p[k] < keys.len());
    assert(all[i] == folders[p[i]]);
    assert(all[k] == folders[p[k]]);
    assert(order::item_before(keys, p[i], p[k]));
}

/// Every folder is watched or polled, and nothing else is.
pub proof fn law_watch_split_loses_no_folder(
    folders: Seq<Folder>,
    active: Seq<Folder>,
    polled: Seq<Folder>,
)
    requires
        is_watch_split(folders, active, polled),
    ensures
        active.len() + polled.len() == folders.len(),
        forall|f: Folder| folders.contains(f) <==> #[trigger] (active + polled).contains(f),
{
    let keys = watch_keys(folders);
    let all = active + polled;
    let p = choose|p: Seq<int>| #[trigger] order::is_stable_order(keys, p) && all == order::arranged(folders, p);
    assert forall|f: Folder| folders.contains(f) <==> #[trigger] all.contains(f) by {
        if folders.contains(f) {
            let x = choose|x: int| 0 <= x < folders.len() && folders[x] == f;
            assert(p.contains(x));
            let k = choose|k: int| 0 <= k < p.len() && p[k] == x;
            assert(all[k] == f);
        }
        if all.contains(f) {
            let k = choose|k: int| 0 <= k < all.len() && all[k] == f;
            assert(folders[p[k]] == f);
        }
    }
}

/// What the first sync of an account came to: its folders, or none where it
/// failed.
#[derive(Debug, PartialEq, Eq)]
pub struct Bootstrap {
    pub account: AccountId,
    pub kind: BackendKind,
    pub folders: Option<Vec<Folder>>,
}

/// The folders of an account to watch and to poll.
#[derive(Debug, PartialEq, Eq)]
pub struct ImapWatch {
    pub account: AccountId,
    pub active: Vec<Folder>,
    pub polled: Vec<Folder>,
}

/// What the engine watches.
#[derive(Debug, PartialEq, Eq)]
pub struct WatchPlan {
    pub imap: Vec<ImapWatch>,
    pub jmap: Vec<AccountId>,
}

/// The accounts of one kind whose first sync succeeded.
pub open spec fn started(all: Seq<Bootstrap>, kind: BackendKind) -> Seq<Bootstrap>
    decreases all.len(),
{
    if all.len() == 0 {
        Seq::empty()
    } else {
        let before = started(all.drop_last(), kind);
        if all.last().folders is Some && all.last().kind == kind {
            before.push(all.last())
        } else {
            before
        }
    }
}

/// Plans what to watch: the folders of IMAP accounts, JMAP accounts as a whole,
/// and no account whose first sync failed or that is of another kind.
pub fn watch_plan(all: Vec<Bootstrap>) -> (r: WatchPlan)
    ensures
        r.imap@.len() == started(all@, BackendKind::ImapSmtp).len(),
        forall|i: int|
            0 <= i < r.imap@.len() ==> {
                let b = started(all@, BackendKind::ImapSmtp)[i];
                (#[trigger] r.imap@[i]).account == b.account && is_watch_split(
                    b.folders->0@,
                    r.imap@[i].active@,
                    r.imap@[i].polled@,
                )
            },
        r.jmap@ == started(all@, BackendKind::Jmap).map_values(|b: Bootstrap| b.account),
{
    let ghost list = all@;
    let mut imap: Vec<ImapWatch> = Vec::new();
    let mut jmap: Vec<AccountId> = Vec::new();
    assert(jmap@ =~= started(list.take(0), BackendKind::Jmap).map_values(|b: Bootstrap| b.account));
    for b in it: all
        invariant
            it.seq() == list,
            imap@.len() == started(list.take(it.index()), BackendKind::ImapSmtp).len(),
            forall|i: int|
                0 <= i < imap@.len() ==> {
                    let s = started(list.take(it.index()), BackendKind::ImapSmtp)[i];
                    (#[trigger] imap@[i]).account == s.account && is_watch_split(
                        s.folders->0@,
                        imap@[i].active@,
                        imap@[i].polled@,
                    )
                },
            jmap@ == started(list.take(it.index()), BackendKind::Jmap).map_values(
                |b: Bootstrap| b.account,
            ),
    {
        let ghost k = it.index();
        assert(list.take(k + 1).drop_last() =~= list.take(k));
        assert(list.take(k + 1).last() == b);
        if let Some(folders) = b.folders {
            match b.kind {
                BackendKind::ImapSmtp => {
                    let (active, polled) = prioritize_imap_folders(folders);
                    imap.push(ImapWatch { account: b.account, active, polled });
                },
                BackendKind::Jmap => {
                    jmap.push(b.account);
                },
                BackendKind::Other => {},
            }
        }
        assert(jmap@ =~= started(list.take(k + 1), BackendKind::Jmap).map_values(
            |b: Bootstrap| b.account,
        ));
    }
    assert(list.take(list.len() as int) =~= list);
    WatchPlan { imap, jmap }
}

impl WatchPlan {
    /// Is there nothing to watch?
    pub fn is_empty(&self) -> (r: bool)
        ensures
            r == (self.jmap@.len() == 0 && forall|i: int|
                0 <= i < self.imap@.len() ==> (#[trigger] self.imap@[i]).active@.len() == 0
                    && self.imap@[i].polled@.len() == 0),
    {
        if self.jmap.len() > 0 {
            return false;
        }
        let mut i: usize = 0;
        while i < self.imap.len()
            invariant
                i <= self.imap@.len(),
                forall|j: int|
                    0 <= j < i ==> (#[trigger] self.imap@[j]).active@.len() == 0
                        && self.imap@[j].polled@.len() == 0,
            decreases self.imap@.len() - i,
        {
            if self.imap[i].active.len() > 0 || self.imap[i].polled.len() > 0 {
                return false;
            }
            i = i + 1;
        }
        true
    }
}

// ---------------------------------------------------------------------
// Gathering bursts
// ---------------------------------------------------------------------

/// How long changes are gathered before they are synced, in milliseconds.
pub const DEBOUNCE_MS: u64 = 500;

/// What a change is about: a folder of an account, or all of an account.
#[derive(Debug, PartialEq, Eq)]
pub struct PendingKey {
    pub account: AccountId,
    pub folder: Option<FolderId>,
}

impl View for PendingKey {
    type V = (Seq<char>, Option<Seq<char>>);

    open spec fn view(&self) -> (Seq<char>, Option<Seq<char>>) {
        (self.account@, model::opt_folder(self.folder))
    }
}

impl Clone for PendingKey {
    fn clone(&self) -> (r: Self)
        ensures
            r == *self,
    {
        PendingKey { account: self.account.clone(), folder: self.folder.clone() }
    }
}

impl PendingKey {
    /// Are both about the same thing?
    pub fn same(&self, other: &PendingKey) -> (r: bool)
        ensures
            r == (self@ == other@),
    {
        if !self.account.same(&other.account) {
            return false;
        }
        match (&self.folder, &other.folder) {
            (Some(a), Some(b)) => a.same(b),
            (None, None) => true,
            _ => false,
        }
    }
}

/// A change that waits, and the moment at which it is synced.
#[derive(Debug, PartialEq, Eq)]
pub struct Pending {
    pub key: PendingKey,
    pub at: u64,
}

/// The moments at which what waits is synced.
pub open spec fn deadlines_of(v: Seq<Pending>) -> Map<(Seq<char>, Option<Seq<char>>), u64>
    decreases v.len(),
{
    if v.len() == 0 {
        Map::empty()
    } else {
        deadlines_of(v.drop_last()).insert(v.last().key@, v.last().at)
    }
}

/// Nothing waits twice.
pub open spec fn keys_differ(v: Seq<Pending>) -> bool {
    forall|i: int, j: int|
        0 <= i < j < v.len() ==> (#[trigger] v[i]).key@ != (#[trigger] v[j]).key@
}

/// What [`deadlines_of`] holds.
proof fn lemma_deadlines(v: Seq<Pending>)
    requires
        keys_differ(v),
    ensures
        forall|i: int|
            0 <= i < v.len() ==> deadlines_of(v).dom().contains((#[trigger] v[i]).key@)
                && deadlines_of(v)[v[i].key@] == v[i].at,
        forall|k: (Seq<char>, Option<Seq<char>>)| #[trigger]
            deadlines_of(v).dom().contains(k) ==> exists|i: int|
                0 <= i < v.len() && (#[trigger] v[i]).key@ == k,
    decreases v.len(),
{
    if v.len() > 0 {
        let init = v.drop_last();
        assert(keys_differ(init)) by {
            assert forall|i: int, j: int| 0 <= i < j < init.len() implies (
            #[trigger] init[i]).key@ != (#[trigger] init[j]).key@ by {
                assert(v[i].key@ != v[j].key@);
            }
        }
        lemma_deadlines(init);
        assert forall|i: int| 0 <= i < v.len() implies deadlines_of(v).dom().contains(
            (#[trigger] v[i]).key@,
        ) && deadlines_of(v)[v[i].key@] == v[i].at by {
            if i < init.len() {
                assert(init[i] == v[i]);
                assert(v[i].key@ != v[v.len() - 1].key@);
            }
        }
        assert forall|k: (Seq<char>, Option<Seq<char>>)| #[trigger]
            deadlines_of(v).dom().contains(k) implies exists|i: int|
            0 <= i < v.len() && (#[trigger] v[i]).key@ == k by {
            if k != v.last().key@ {
                assert(deadlines_of(init).dom().contains(k));
                let i = choose|i: int| 0 <= i < init.len() && (#[trigger] init[i]).key@ == k;
                assert(v[i].key@ == k);
            } else {
                assert(v[v.len() - 1].key@ == k);
            }
        }
    }
}

/// What a watcher reports.
#[derive(Debug, PartialEq, Eq)]
pub enum BackendEvent {
    FolderChanged(FolderId),
    AccountChanged,
    ConnectionLost,
    ConnectionRestored,
    Other,
}

/// What a report is about, where it calls for a sync.
pub open spec fn key_of_event(account: Seq<char>, e: BackendEvent) -> Option<
    (Seq<char>, Option<Seq<char>>),
> {
    match e {
        BackendEvent::FolderChanged(f) => Some((account, Some(f@))),
        BackendEvent::AccountChanged => Some((account, None)),
        _ => None,
    }
}

/// What waits after a report at the moment `now`.
pub open spec fn noted(
    m: Map<(Seq<char>, Option<Seq<char>>), u64>,
    key: (Seq<char>, Option<Seq<char>>),
    now: u64,
) -> Map<(Seq<char>, Option<Seq<char>>), u64> {
    m.insert(key, (now + DEBOUNCE_MS) as u64)
}

/// What still waits once everything due at `now` was taken.
pub open spec fn still_waiting(
    m: Map<(Seq<char>, Option<Seq<char>>), u64>,
    now: u64,
) -> Map<(Seq<char>, Option<Seq<char>>), u64> {
    Map::new(
        |k: (Seq<char>, Option<Seq<char>>)| m.dom().contains(k) && m[k] > now,
        |k: (Seq<char>, Option<Seq<char>>)| m[k],
    )
}

/// A burst of reports about one thing is synced once: the later report puts off
/// the sync that the earlier one called for.
pub proof fn law_burst_is_gathered(
    m: Map<(Seq<char>, Option<Seq<char>>), u64>,
    key: (Seq<char>, Option<Seq<char>>),
    first: u64,
    second: u64,
    now: u64,
)
    requires
        first <= second <= now,
        now < second + DEBOUNCE_MS <= u64::MAX,
    ensures
        noted(noted(m, key, first), key, second) == noted(m, key, second),
        still_waiting(noted(noted(m, key, first), key, second), now).dom().contains(key),
{
    assert(noted(noted(m, key, first), key, second) =~= noted(m, key, second));
}

/// The changes that wait to be synced.
#[derive(Debug)]
pub struct Debouncer {
    entries: Vec<Pending>,
}

impl View for Debouncer {
    type V = Map<(Seq<char>, Option<Seq<char>>), u64>;

    closed spec fn view(&self) -> Map<(Seq<char>, Option<Seq<char>>), u64> {
        deadlines_of(self.entries@)
    }
}

/// The contents of a list of keys.
pub open spec fn pending_keys(v: Seq<PendingKey>) -> Seq<(Seq<char>, Option<Seq<char>>)> {
    v.map_values(|k: PendingKey| k@)
}

impl Debouncer {
    /// Nothing waits twice.
    #[verifier::type_invariant]
    spec fn wf(self) -> bool {
        keys_differ(self.entries@)
    }

    /// Nothing waits.
    pub fn new() -> (r: Debouncer)
        ensures
            r@ == Map::<(Seq<char>, Option<Seq<char>>), u64>::empty(),
    {
        Debouncer { entries: Vec::new() }
    }

    /// A watcher of `account` reported `event` at the moment `now_ms`.
    pub fn report(&mut self, account: &AccountId, event: BackendEvent, now_ms: u64)
        requires
            now_ms + DEBOUNCE_MS <= u64::MAX,
        ensures
            final(self)@ == match key_of_event(account@, event) {
                Some(k) => noted(old(self)@, k, now_ms),
                None => old(self)@,
            },
    {
        match event {
            BackendEvent::FolderChanged(folder) => {
                self.note(PendingKey { account: account.clone(), folder: Some(folder) }, now_ms);
            },
            BackendEvent::AccountChanged => {
                self.note(PendingKey { account: account.clone(), folder: None }, now_ms);
            },
            _ => {},
        }
    }

    /// Puts off what `key` is about.
    fn note(&mut self, key: PendingKey, now_ms: u64)
        requires
            now_ms + DEBOUNCE_MS <= u64::MAX,
        ensures
            final(self)@ == noted(old(self)@, key@, now_ms),
    {
        proof {
            use_type_invariant(&*self);
        }
        let ghost before = self.entries@;
        let ghost k = key@;
        let mut entries: Vec<Pending> = Vec::new();
        core::mem::swap(&mut entries, &mut self.entries);
        let mut i: usize = 0;
        while i < entries.len() && !entries[i].key.same(&key)
            invariant
                i <= entries@.len(),
                entries@ == before,
                forall|j: int| 0 <= j < i ==> (#[trigger] before[j]).key@ != key@,
            decreases entries@.len() - i,
        {
            i = i + 1;
        }
        let at: u64 = now_ms + DEBOUNCE_MS;
        if i < entries.len() {
            entries.set(i, Pending { key, at });
        } else {
            entries.push(Pending { key, at });
        }
        proof {
            let after = entries@;
            assert forall|a: int, b: int| 0 <= a < b < after.len() implies (
            #[trigger] after[a]).key@ != (#[trigger] after[b]).key@ by {
                if b < before.len() {
                    assert(before[a].key@ != before[b].key@);
                }
            }
            lemma_deadlines(before);
            lemma_deadlines(after);
            let want = noted(deadlines_of(before), k, now_ms);
            assert forall|x: (Seq<char>, Option<Seq<char>>)| #[trigger]
                deadlines_of(after).dom().contains(x) <==> want.dom().contains(x) by {
                if deadlines_of(after).dom().contains(x) {
                    let j = choose|j: int| 0 <= j < after.len() && (#[trigger] after[j]).key@ == x;
                    if j != i {
                        assert(before[j].key@ == x);
                    }
                }
                if want.dom().contains(x) {
                    if x == k {
                        assert(after[i as int].key@ == x);
                    } else {
                        let j = choose|j: int|
                            0 <= j < before.len() && (#[trigger] before[j]).key@ == x;
                        assert(after[j].key@ == x);
                    }
                }
            }
            assert forall|x: (Seq<char>, Option<Seq<char>>)| #[trigger]
                want.dom().contains(x) implies deadlines_of(after)[x] == want[x] by {
                if x == k {
                    assert(after[i as int].key@ == x);
                } else {
                    let j = choose|j: int| 0 <= j < before.len() && (#[trigger] before[j]).key@ == x;
                    assert(after[j] == before[j]);
                    assert(after[j].key@ == x);
                }
            }
            assert(deadlines_of(after) =~= want);
        }
        self.entries = entries;
    }

    /// The moment of the next sync.
    pub fn next_deadline(&self) -> (r: Option<u64>)
        ensures
            match r {
                Some(t) => {
                    &&& exists|k: (Seq<char>, Option<Seq<char>>)| #[trigger]
                        self@.dom().contains(k) && self@[k] == t
                    &&& forall|k: (Seq<char>, Option<Seq<char>>)| #[trigger]
                        self@.dom().contains(k) ==> t <= self@[k]
                },
                None => self@.dom() =~= Set::empty(),
            },
    {
        proof {
            use_type_invariant(self);
            lemma_deadlines(self.entries@);
        }
        let mut best: Option<u64> = None;
        let mut i: usize = 0;
        while i < self.entries.len()
            invariant
                i <= self.entries@.len(),
                match best {
                    Some(t) => {
                        &&& exists|j: int| 0 <= j < i && (#[trigger] self.entries@[j]).at == t
                        &&& forall|j: int| 0 <= j < i ==> t <= (#[trigger] self.entries@[j]).at
                    },
                    None => i == 0,
                },
            decreases self.entries@.len() - i,
        {
            let at: u64 = self.entries[i].at;
            match best {
                Some(t) => {
                    if at < t {
                        best = Some(at);
                    }
                },
                None => {
                    best = Some(at);
                },
            }
            assert(self.entries@[i as int].at == at);
            i = i + 1;
        }
        proof {
            let v = self.entries@;
            match best {
                Some(t) => {
                    let j = choose|j: int| 0 <= j < v.len() && (#[trigger] v[j]).at == t;
                    assert(self@.dom().contains(v[j].key@) && self@[v[j].key@] == t);
                    assert forall|k: (Seq<char>, Option<Seq<char>>)| #[trigger]
                        self@.dom().contains(k) implies t <= self@[k] by {
                        let x = choose|x: int| 0 <= x < v.len() && (#[trigger] v[x]).key@ == k;
                        assert(t <= v[x].at);
                    }
                },
                None => {
                    assert(self@.dom() =~= Set::empty());
                },
            }
        }
        best
    }

    /// Takes everything that is due at the moment `now_ms`: folders, then whole
    /// accounts, each once.
    pub fn take_due(&mut self, now_ms: u64) -> (r: (Vec<PendingKey>, Vec<PendingKey>))
        ensures
            final(self)@ == still_waiting(old(self)@, now_ms),
            forall|k: (Seq<char>, Option<Seq<char>>)|
                pending_keys(r.0@).contains(k) <==> k.1 is Some && #[trigger] old(
                    self,
                )@.dom().contains(k) && old(self)@[k] <= now_ms,
            forall|k: (Seq<char>, Option<Seq<char>>)|
                pending_keys(r.1@).contains(k) <==> k.1 is None && #[trigger] old(
                    self,
                )@.dom().contains(k) && old(self)@[k] <= now_ms,
            pending_keys(r.0@).no_duplicates(),
            pending_keys(r.1@).no_duplicates(),
    {
        proof {
            use_type_invariant(&*self);
        }
        let ghost all = self.entries@;
        let mut entries: Vec<Pending> = Vec::new();
        core::mem::swap(&mut entries, &mut self.entries);
        let mut kept: Vec<Pending> = Vec::new();
        let mut folders: Vec<PendingKey> = Vec::new();
        let mut accounts: Vec<PendingKey> = Vec::new();
        let mut i: usize = 0;
        while i < entries.len()
            invariant
                i <= entries@.len(),
                entries@ == all,
                keys_differ(all),
                keys_differ(kept@),
                pending_keys(folders@).no_duplicates(),
                pending_keys(accounts@).no_duplicates(),
                forall|a: int|
                    0 <= a < kept@.len() ==> keeps_waiting(all, i as int, #[trigger] kept@[a], now_ms),
                forall|a: int|
                    0 <= a < folders@.len() ==> is_due(all, i as int, #[trigger] folders@[a], now_ms)
                        && folders@[a].folder is Some,
                forall|a: int|
                    0 <= a < accounts@.len() ==> is_due(
                        all,
                        i as int,
                        #[trigger] accounts@[a],
                        now_ms,
                    ) && accounts@[a].folder is None,
                forall|j: int|
                    0 <= j < i && (#[trigger] all[j]).at > now_ms ==> kept@.contains(all[j]),
                forall|j: int|
                    0 <= j < i && (#[trigger] all[j]).at <= now_ms && all[j].key.folder is Some
                        ==> folders@.contains(all[j].key),
                forall|j: int|
                    0 <= j < i && (#[trigger] all[j]).at <= now_ms && all[j].key.folder is None
                        ==> accounts@.contains(all[j].key),
            decreases entries@.len() - i,
        {
            let ghost e = all[i as int];
            proof {
                lemma_one_more(all, i as int, now_ms);
            }
            let key = entries[i].key.clone();
            let at: u64 = entries[i].at;
            if at > now_ms {
                let ghost before = kept@;
                kept.push(Pending { key, at });
                proof {
                    assert(kept@[before.len() as int] == e);
                    assert forall|a: int, b: int| 0 <= a < b < kept@.len() implies (
                    #[trigger] kept@[a]).key@ != (#[trigger] kept@[b]).key@ by {
                        if b == before.len() {
                            assert(keeps_waiting(all, i as int, before[a], now_ms));
                            let j = choose|j: int| 0 <= j < i && #[trigger] all[j] == before[a];
                            assert(all[j].key@ != all[i as int].key@);
                        } else {
                            assert(before[a].key@ != before[b].key@);
                        }
                    }
                    assert forall|j: int| 0 <= j < i + 1 && (
                    #[trigger] all[j]).at > now_ms implies kept@.contains(all[j]) by {
                        if j < i {
                            let a = choose|a: int| 0 <= a < before.len() && before[a] == all[j];
                            assert(kept@[a] == all[j]);
                        }
                    }
                }
            } else if key.folder.is_some() {
                let ghost before = folders@;
                folders.push(key);
                proof {
                    assert(folders@[before.len() as int] == e.key);
                    lemma_push_key(before, e.key, all, i as int, now_ms);
                    assert forall|j: int| 0 <= j < i + 1 && (#[trigger] all[j]).at <= now_ms
                        && all[j].key.folder is Some implies folders@.contains(all[j].key) by {
                        if j < i {
                            let a = choose|a: int| 0 <= a < before.len() && before[a] == all[j].key;
                            assert(folders@[a] == all[j].key);
                        }
                    }
                }
            } else {
                let ghost before = accounts@;
                accounts.push(key);
                proof {
                    assert(accounts@[before.len() as int] == e.key);
                    lemma_push_key(before, e.key, all, i as int, now_ms);
                    assert forall|j: int| 0 <= j < i + 1 && (#[trigger] all[j]).at <= now_ms
                        && all[j].key.folder is None implies accounts@.contains(all[j].key) by {
                        if j < i {
                            let a = choose|a: int| 0 <= a < before.len() && before[a] == all[j].key;
                            assert(accounts@[a] == all[j].key);
                        }
                    }
                }
            }
            i = i + 1;
        }
        proof {
            lemma_deadlines(all);
            lemma_deadlines(kept@);
            lemma_taken(all, kept@, now_ms);
            lemma_due_keys(all, folders@, now_ms, true);
            lemma_due_keys(all, accounts@, now_ms, false);
        }
        self.entries = kept;
        (folders, accounts)
    }
}

/// `e` is one of the first `n` entries and still waits.
spec fn keeps_waiting(all: Seq<Pending>, n: int, e: Pending, now: u64) -> bool {
    exists|j: int| 0 <= j < n && #[trigger] all[j] == e && e.at > now
}

/// `key` is the key of one of the first `n` entries that is due.
spec fn is_due(all: Seq<Pending>, n: int, key: PendingKey, now: u64) -> bool {
    exists|j: int| 0 <= j < n && (#[trigger] all[j]).key == key && all[j].at <= now
}

/// What holds among some entries holds among one more.
proof fn lemma_one_more(all: Seq<Pending>, n: int, now: u64)
    requires
        0 <= n < all.len(),
    ensures
        forall|e: Pending| #[trigger]
            keeps_waiting(all, n, e, now) ==> keeps_waiting(all, n + 1, e, now),
        forall|k: PendingKey| #[trigger] is_due(all, n, k, now) ==> is_due(all, n + 1, k, now),
        all[n].at > now ==> keeps_waiting(all, n + 1, all[n], now),
        all[n].at <= now ==> is_due(all, n + 1, all[n].key, now),
{
    assert forall|e: Pending| #[trigger] keeps_waiting(all, n, e, now) implies keeps_waiting(
        all,
        n + 1,
        e,
        now,
    ) by {
        let j = choose|j: int| 0 <= j < n && #[trigger] all[j] == e && e.at > now;
        assert(all[j] == e);
    }
    assert forall|k: PendingKey| #[trigger] is_due(all, n, k, now) implies is_due(
        all,
        n + 1,
        k,
        now,
    ) by {
        let j = choose|j: int| 0 <= j < n && (#[trigger] all[j]).key == k && all[j].at <= now;
        assert(all[j].key == k);
    }
    assert(all[n] == all[n]);
}

/// A key that differs from all that were listed keeps the list free of
/// duplicates.
proof fn lemma_push_key(
    before: Seq<PendingKey>,
    key: PendingKey,
    all: Seq<Pending>,
    i: int,
    now: u64,
)
    requires
        0 <= i < all.len(),
        all[i].key == key,
        keys_differ(all),
        pending_keys(before).no_duplicates(),
        forall|a: int| 0 <= a < before.len() ==> is_due(all, i, #[trigger] before[a], now),
    ensures
        pending_keys(before.push(key)).no_duplicates(),
{
    let b = pending_keys(before);
    let n = pending_keys(before.push(key));
    assert(n =~= b.push(key@));
    assert forall|x: int, y: int| 0 <= x < n.len() && 0 <= y < n.len() && x != y implies n[x]
        != n[y] by {
        let lo = if x < y {
            x
        } else {
            y
        };
        let hi = if x < y {
            y
        } else {
            x
        };
        if hi == b.len() {
            assert(is_due(all, i, before[lo], now));
            let j = choose|j: int| 0 <= j < i && (#[trigger] all[j]).key == before[lo];
            assert(all[j].key@ != all[i].key@);
            assert(n[lo] == before[lo]@);
        } else {
            assert(b[lo] != b[hi]);
        }
    }
}

/// What was kept is what still waits.
proof fn lemma_taken(all: Seq<Pending>, kept: Seq<Pending>, now: u64)
    requires
        keys_differ(all),
        keys_differ(kept),
        forall|a: int|
            0 <= a < kept.len() ==> keeps_waiting(all, all.len() as int, #[trigger] kept[a], now),
        forall|j: int| 0 <= j < all.len() && (#[trigger] all[j]).at > now ==> kept.contains(all[j]),
    ensures
        deadlines_of(kept) == still_waiting(deadlines_of(all), now),
{
    lemma_deadlines(all);
    lemma_deadlines(kept);
    let want = still_waiting(deadlines_of(all), now);
    assert forall|x: (Seq<char>, Option<Seq<char>>)| #[trigger]
        deadlines_of(kept).dom().contains(x) implies want.dom().contains(x) && want[x]
        == deadlines_of(kept)[x] by {
        let a = choose|a: int| 0 <= a < kept.len() && (#[trigger] kept[a]).key@ == x;
        assert(keeps_waiting(all, all.len() as int, kept[a], now));
        let j = choose|j: int| 0 <= j < all.len() && #[trigger] all[j] == kept[a];
        assert(all[j].key@ == x);
    }
    assert forall|x: (Seq<char>, Option<Seq<char>>)| #[trigger]
        want.dom().contains(x) implies deadlines_of(kept).dom().contains(x) by {
        let j = choose|j: int| 0 <= j < all.len() && (#[trigger] all[j]).key@ == x;
        assert(all[j].at > now);
        assert(kept.contains(all[j]));
        let a = choose|a: int| 0 <= a < kept.len() && kept[a] == all[j];
        assert(kept[a].key@ == x);
    }
    assert(deadlines_of(kept) =~= want);
}

/// What was taken is what was due.
proof fn lemma_due_keys(all: Seq<Pending>, due: Seq<PendingKey>, now: u64, folders: bool)
    requires
        keys_differ(all),
        forall|a: int|
            0 <= a < due.len() ==> is_due(all, all.len() as int, #[trigger] due[a], now) && (
            due[a].folder is Some) == folders,
        forall|j: int|
            0 <= j < all.len() && (#[trigger] all[j]).at <= now && (all[j].key.folder is Some)
                == folders ==> due.contains(all[j].key),
    ensures
        forall|k: (Seq<char>, Option<Seq<char>>)|
            pending_keys(due).contains(k) <==> (k.1 is Some) == folders && #[trigger] deadlines_of(
                all,
            ).dom().contains(k) && deadlines_of(all)[k] <= now,
{
    lemma_deadlines(all);
    let keys = pending_keys(due);
    assert forall|k: (Seq<char>, Option<Seq<char>>)|
        keys.contains(k) <==> (k.1 is Some) == folders && #[trigger] deadlines_of(
            all,
        ).dom().contains(k) && deadlines_of(all)[k] <= now by {
        if keys.contains(k) {
            let a = choose|a: int| 0 <= a < keys.len() && keys[a] == k;
            assert(is_due(all, all.len() as int, due[a], now));
            let j = choose|j: int|
                0 <= j < all.len() && (#[trigger] all[j]).key == due[a] && all[j].at <= now;
            assert(all[j].key@ == k);
        }
        if (k.1 is Some) == folders && deadlines_of(all).dom().contains(k) && deadlines_of(all)[k]
            <= now {
            let j = choose|j: int| 0 <= j < all.len() && (#[trigger] all[j]).key@ == k;
            assert(due.contains(all[j].key));
            let a = choose|a: int| 0 <= a < due.len() && due[a] == all[j].key;
            assert(keys[a] == k);
        }
    }
}

/// A folder and the account it belongs to.
#[derive(Debug, PartialEq, Eq)]
pub struct KnownFolder {
    pub account: AccountId,
    pub folder: Folder,
}

/// The folders of one account, each with the account.
pub open spec fn owned_folders(account: AccountId, folders: Seq<Folder>) -> Seq<KnownFolder> {
    folders.map_values(|f: Folder| KnownFolder { account, folder: f })
}

/// Every folder of the IMAP accounts whose first sync succeeded.
pub open spec fn known_of(all: Seq<Bootstrap>) -> Seq<KnownFolder>
    decreases all.len(),
{
    if all.len() == 0 {
        Seq::empty()
    } else {
        let before = known_of(all.drop_last());
        let b = all.last();
        if b.folders is Some && b.kind == BackendKind::ImapSmtp {
            before + owned_folders(b.account, b.folders->0@)
        } else {
            before
        }
    }
}

/// See [`known_of`].
pub fn known_folders(all: &Vec<Bootstrap>) -> (r: Vec<KnownFolder>)
    ensures
        r@ == known_of(all@),
{
    let mut r: Vec<KnownFolder> = Vec::new();
    let mut i: usize = 0;
    while i < all.len()
        invariant
            i <= all@.len(),
            r@ == known_of(all@.take(i as int)),
        decreases all@.len() - i,
    {
        let ghost before = r@;
        let b = &all[i];
        assert(all@.take(i + 1).drop_last() =~= all@.take(i as int));
        assert(all@.take(i + 1).last() == *b);
        if let Some(folders) = &b.folders {
            if let BackendKind::ImapSmtp = b.kind {
                let mut j: usize = 0;
                assert(r@ =~= before + owned_folders(b.account, folders@.take(0)));
                while j < folders.len()
                    invariant
                        j <= folders@.len(),
                        r@ == before + owned_folders(b.account, folders@.take(j as int)),
                    decreases folders@.len() - j,
                {
                    r.push(KnownFolder { account: b.account.clone(), folder: folders[j].clone() });
                    assert(r@ =~= before + owned_folders(b.account, folders@.take(j + 1)));
                    j = j + 1;
                }
                assert(folders@.take(folders@.len() as int) =~= folders@);
            }
        }
        i = i + 1;
    }
    assert(all@.take(all@.len() as int) =~= all@);
    r
}

/// Is this the folder `key` is about?
pub open spec fn is_keyed(k: KnownFolder, key: (Seq<char>, Option<Seq<char>>)) -> bool {
    key == (k.account@, Some(k.folder.id@))
}

/// The folder that a change is about, where it is known. The one listed last
/// counts.
pub open spec fn folder_for(
    known: Seq<KnownFolder>,
    key: (Seq<char>, Option<Seq<char>>),
) -> Option<KnownFolder>
    decreases known.len(),
{
    if known.len() == 0 {
        None
    } else if is_keyed(known.last(), key) {
        Some(known.last())
    } else {
        folder_for(known.drop_last(), key)
    }
}

/// The known folders that due changes are about.
pub open spec fn due_folders_of(
    known: Seq<KnownFolder>,
    due: Seq<(Seq<char>, Option<Seq<char>>)>,
) -> Seq<KnownFolder>
    decreases due.len(),
{
    if due.len() == 0 {
        Seq::empty()
    } else {
        let before = due_folders_of(known, due.drop_last());
        match folder_for(known, due.last()) {
            Some(f) => before.push(f),
            None => before,
        }
    }
}

/// See [`folder_for`].
pub fn known_folder(known: &Vec<KnownFolder>, key: &PendingKey) -> (r: Option<KnownFolder>)
    ensures
        r == folder_for(known@, key@),
{
    let mut i: usize = known.len();
    assert(known@.take(i as int) =~= known@);
    while i > 0
        invariant
            i <= known@.len(),
            folder_for(known@, key@) == folder_for(known@.take(i as int), key@),
        decreases i,
    {
        let k = &known[i - 1];
        assert(known@.take(i as int).last() == *k);
        assert(known@.take(i as int).drop_last() =~= known@.take(i - 1));
        if let Some(id) = &key.folder {
            if k.account.same(&key.account) && k.folder.id.same(id) {
                return Some(
                    KnownFolder { account: k.account.clone(), folder: k.folder.clone() },
                );
            }
        }
        i = i - 1;
    }
    None
}

/// See [`due_folders_of`].
pub fn due_folders(known: &Vec<KnownFolder>, due: &Vec<PendingKey>) -> (r: Vec<KnownFolder>)
    ensures
        r@ == due_folders_of(known@, pending_keys(due@)),
{
    let mut r: Vec<KnownFolder> = Vec::new();
    let ghost keys = pending_keys(due@);
    let mut i: usize = 0;
    while i < due.len()
        invariant
            i <= due@.len(),
            keys == pending_keys(due@),
            r@ == due_folders_of(known@, keys.take(i as int)),
        decreases due@.len() - i,
    {
        assert(keys.take(i + 1).drop_last() =~= keys.take(i as int));
        assert(keys.take(i + 1).last() == due@[i as int]@);
        if let Some(f) = known_folder(known, &due[i]) {
            r.push(f);
        }
        i = i + 1;
    }
    assert(keys.take(keys.len() as int) =~= keys);
    r
}

/// What [`folder_for`] finds: the last known folder with the key, and none only
/// where no known folder has it.
proof fn lemma_folder_for(known: Seq<KnownFolder>, key: (Seq<char>, Option<Seq<char>>))
    ensures
        match folder_for(known, key) {
            Some(f) => exists|k: int|
                0 <= k < known.len() && known[k] == f && (known[k].account@, Some(
                    known[k].folder.id@,
                )) == key && forall|l: int|
                    k < l < known.len() ==> ((#[trigger] known[l]).account@, Some(
                        known[l].folder.id@,
                    )) != key,
            None => forall|k: int|
                0 <= k < known.len() ==> ((#[trigger] known[k]).account@, Some(known[k].folder.id@))
                    != key,
        },
    decreases known.len(),
{
    if known.len() > 0 {
        let n = known.len() - 1;
        if is_keyed(known.last(), key) {
            assert(known[n] == known.last());
        } else {
            lemma_folder_for(known.drop_last(), key);
            match folder_for(known.drop_last(), key) {
                Some(f) => {
                    let init = known.drop_last();
                    let k = choose|k: int|
                        0 <= k < init.len() && init[k] == f && (init[k].account@, Some(
                            init[k].folder.id@,
                        )) == key && forall|l: int|
                            k < l < init.len() ==> ((#[trigger] init[l]).account@, Some(
                                init[l].folder.id@,
                            )) != key;
                    assert(known[k] == f);
                    assert forall|l: int| k < l < known.len() implies ((
                    #[trigger] known[l]).account@, Some(known[l].folder.id@)) != key by {
                        if l < n {
                            assert(init[l] == known[l]);
                        }
                    }
                },
                None => {
                    assert forall|k: int| 0 <= k < known.len() implies ((
                    #[trigger] known[k]).account@, Some(known[k].folder.id@)) != key by {
                        if k < n {
                            assert(known.drop_last()[k] == known[k]);
                        }
                    }
                },
            }
        }
    }
}

/// Every folder that changed is synced, if it is known, in the order of the
/// changes and once for each of them; nothing else is. Where a folder is listed
/// twice, what was listed last is synced.
pub proof fn law_every_due_folder_is_synced(
    known: Seq<KnownFolder>,
    due: Seq<(Seq<char>, Option<Seq<char>>)>,
)
    ensures
        due_folders_of(known, due).map_values(
            |f: KnownFolder| (f.account@, Some(f.folder.id@)),
        ) == due.filter(
            |key: (Seq<char>, Option<Seq<char>>)|
                exists|k: int|
                    0 <= k < known.len() && (#[trigger] known[k].account@, Some(
                        known[k].folder.id@,
                    )) == key,
        ),
        forall|i: int, k: int|
            0 <= i < due.len() && 0 <= k < known.len() && (#[trigger] known[k]).account@
                == (#[trigger] due[i]).0 && due[i].1 == Some(known[k].folder.id@)
                ==> exists|j: int|
                0 <= j < due_folders_of(known, due).len() && (#[trigger] due_folders_of(
                    known,
                    due,
                )[j]).account@ == due[i].0 && due[i].1 == Some(
                    due_folders_of(known, due)[j].folder.id@,
                ),
        forall|j: int|
            0 <= j < due_folders_of(known, due).len() ==> exists|k: int|
                0 <= k < known.len() && known[k] == #[trigger] due_folders_of(known, due)[j]
                    && forall|l: int|
                    k < l < known.len() ==> ((#[trigger] known[l]).account@ != known[k].account@
                        || known[l].folder.id@ != known[k].folder.id@),
    decreases due.len(),
{
    reveal(Seq::filter);
    let r = due_folders_of(known, due);
    let known_key = |key: (Seq<char>, Option<Seq<char>>)|
        exists|k: int|
            0 <= k < known.len() && (#[trigger] known[k].account@, Some(known[k].folder.id@))
                == key;
    let keys = |f: KnownFolder| (f.account@, Some(f.folder.id@));
    if due.len() == 0 {
        assert(r.map_values(keys) =~= due.filter(known_key));
    } else {
        let init = due.drop_last();
        law_every_due_folder_is_synced(known, init);
        let before = due_folders_of(known, init);
        lemma_folder_for(known, due.last());
        match folder_for(known, due.last()) {
            Some(f) => {
                let at = choose|k: int|
                    0 <= k < known.len() && known[k] == f && (known[k].account@, Some(
                        known[k].folder.id@,
                    )) == due.last() && forall|l: int|
                        k < l < known.len() ==> ((#[trigger] known[l]).account@, Some(
                            known[l].folder.id@,
                        )) != due.last();
                assert(known_key(due.last())) by {
                    assert((known[at].account@, Some(known[at].folder.id@)) == due.last());
                }
                assert(r == before.push(f));
                assert(r.map_values(keys) =~= before.map_values(keys).push(due.last()));
                assert(r.last() == f);
            },
            None => {
                assert(!known_key(due.last()));
            },
        }
        assert(r.map_values(keys) =~= due.filter(known_key));
        assert forall|j: int| 0 <= j < r.len() implies exists|k: int|
            0 <= k < known.len() && known[k] == #[trigger] r[j] && forall|l: int|
                k < l < known.len() ==> ((#[trigger] known[l]).account@ != known[k].account@
                    || known[l].folder.id@ != known[k].folder.id@) by {
            if j < before.len() {
                assert(r[j] == before[j]);
            }
        }
    }
    assert forall|i: int, k: int|
        0 <= i < due.len() && 0 <= k < known.len() && (#[trigger] known[k]).account@
            == (#[trigger] due[i]).0 && due[i].1 == Some(known[k].folder.id@) implies exists|j: int|
        0 <= j < r.len() && (#[trigger] r[j]).account@ == due[i].0 && due[i].1 == Some(
            r[j].folder.id@,
        ) by {
        assert(known_key(due[i])) by {
            assert((known[k].account@, Some(known[k].folder.id@)) == due[i]);
        }
        due.lemma_filter_contains(known_key, i);
        let j = choose|j: int| 0 <= j < r.map_values(keys).len() && r.map_values(keys)[j] == due[i];
        assert(keys(r[j]) == due[i]);
    }
}

// ---------------------------------------------------------------------
// What is announced
// ---------------------------------------------------------------------

/// What syncing a folder changed.
#[derive(Debug, Clone, Copy, PartialEq, Eq, Structural)]
pub struct SyncReport {
    pub added: usize,
    pub updated: usize,
    pub flag_updates: usize,
    pub removed: usize,
}

/// The event that reports the outcome of syncing a folder. Counts are given in
/// 32 bits.
pub open spec fn folder_event(
    account: AccountId,
    folder: FolderId,
    outcome: Result<SyncReport, String>,
    unread_count: u32,
    live: bool,
) -> SyncEvent {
    match outcome {
        Ok(s) => SyncEvent::FolderSynced {
            account,
            folder,
            added: s.added as u32,
            updated: s.updated as u32,
            flag_updates: s.flag_updates as u32,
            removed: s.removed as u32,
            unread_count,
            live,
        },
        Err(e) => SyncEvent::FolderError { account, folder, error: e },
    }
}

/// See [`folder_event`].
pub fn folder_outcome(
    account: &AccountId,
    folder: &FolderId,
    outcome: &Result<SyncReport, String>,
    unread_count: u32,
    live: bool,
) -> (r: SyncEvent)
    ensures
        r == folder_event(*account, *folder, *outcome, unread_count, live),
{
    match outcome {
        Ok(s) => SyncEvent::FolderSynced {
            account: account.clone(),
            folder: folder.clone(),
            added: s.added as u32,
            updated: s.updated as u32,
            flag_updates: s.flag_updates as u32,
            removed: s.removed as u32,
            unread_count,
            live,
        },
        Err(e) => SyncEvent::FolderError {
            account: account.clone(),
            folder: folder.clone(),
            error: e.clone(),
        },
    }
}

/// A folder that was synced, and how that went.
#[derive(Debug, PartialEq, Eq)]
pub struct FolderOutcome {
    pub folder: Folder,
    pub outcome: Result<SyncReport, String>,
}

/// The folders whose sync succeeded.
pub open spec fn synced_of(v: Seq<FolderOutcome>) -> Seq<Folder>
    decreases v.len(),
{
    if v.len() == 0 {
        Seq::empty()
    } else if v.last().outcome is Ok {
        synced_of(v.drop_last()).push(v.last().folder)
    } else {
        synced_of(v.drop_last())
    }
}

/// See [`synced_of`].
pub fn synced_folders(outcomes: Vec<FolderOutcome>) -> (r: Vec<Folder>)
    ensures
        r@ == synced_of(outcomes@),
{
    let ghost all = outcomes@;
    let mut r: Vec<Folder> = Vec::new();
    for o in it: outcomes
        invariant
            it.seq() == all,
            r@ == synced_of(all.take(it.index())),
    {
        let ghost k = it.index();
        assert(all.take(k + 1).drop_last() =~= all.take(k));
        assert(all.take(k + 1).last() == o);
        if o.outcome.is_ok() {
            r.push(o.folder);
        }
    }
    assert(all.take(all.len() as int) =~= all);
    r
}

/// How new mail is announced.
#[derive(Debug, Clone, Copy, PartialEq, Eq, Structural)]
pub enum Announcement {
    Nothing,
    /// With sender and subject of the newest message.
    Preview,
    /// With the number of messages.
    Count,
}

/// Is new mail of an account announced at all? It is where both the account's
/// own switch and the one for all accounts are on. An account that cannot be
/// looked up has no switch on.
pub open spec fn notifies(account: Option<Account>, master: Option<Seq<char>>) -> bool {
    account is Some && account->0.notify_enabled && settings::switched_on(master, true)
}

/// See [`notifies`]. `master` is what is kept under [`KEY_NOTIFY_MASTER`].
///
/// [`KEY_NOTIFY_MASTER`]: crate::settings::KEY_NOTIFY_MASTER
pub fn notifications_on(account: &Option<Account>, master: &Option<String>) -> (r: bool)
    ensures
        r == notifies(*account, model::opt_text(*master)),
{
    match account {
        Some(a) => a.notify_enabled && switch_value(master, true),
        None => false,
    }
}

/// How is new mail announced? Not where notifications are off; only what was
/// pushed is, only where something is new, and only in the inbox, where every
/// message of an account arrives once. A folder that cannot be looked up counts
/// as no inbox.
pub open spec fn announced(
    notify_enabled: bool,
    live: bool,
    added: usize,
    folder: Option<Folder>,
) -> Announcement {
    if !notify_enabled || !live || added == 0 || folder is None || folder->0.role != Some(
        FolderRole::Inbox,
    ) {
        Announcement::Nothing
    } else if added == 1 {
        Announcement::Preview
    } else {
        Announcement::Count
    }
}

/// Notifications that are switched off keep nothing but the announcement back:
/// there is none, and the outcome of the sync is reported all the same.
pub proof fn law_switched_off_mail_is_synced_unannounced(
    account: Account,
    master: Option<Seq<char>>,
    folder: Folder,
    report: SyncReport,
    unread_count: u32,
    live: bool,
)
    requires
        !account.notify_enabled || !settings::switched_on(master, true),
    ensures
        announced(
            notifies(Some(account), master),
            live,
            report.added,
            Some(folder),
        ) == Announcement::Nothing,
        folder_event(account.id, folder.id, Ok(report), unread_count, live) == (
        SyncEvent::FolderSynced {
            account: account.id,
            folder: folder.id,
            added: report.added as u32,
            updated: report.updated as u32,
            flag_updates: report.flag_updates as u32,
            removed: report.removed as u32,
            unread_count,
            live,
        }),
{
}

/// See [`announced`].
pub fn announcement_for(
    notify_enabled: bool,
    live: bool,
    added: usize,
    folder: &Option<Folder>,
) -> (r: Announcement)
    ensures
        r == announced(notify_enabled, live, added, *folder),
{
    if !notify_enabled || !live || added == 0 {
        return Announcement::Nothing;
    }
    let inbox = match folder {
        Some(f) => match f.role {
            Some(FolderRole::Inbox) => true,
            _ => false,
        },
        None => false,
    };
    if !inbox {
        Announcement::Nothing
    } else if added == 1 {
        Announcement::Preview
    } else {
        Announcement::Count
    }
}

/// Title and text of a notification: a single message is named, several are
/// counted.
pub open spec fn announcement(
    account: Seq<char>,
    folder: Seq<char>,
    count: nat,
    preview: Option<HeadersModel>,
) -> (Seq<char>, Seq<char>) {
    if count == 1 {
        match preview {
            Some(h) => {
                let from = if h.from.len() == 0 {
                    "Unknown sender"@
                } else {
                    message_list::sender_name(h.from)
                };
                (
                    "New from "@ + from,
                    from + " — "@ + compose::subject_or_placeholder(h.subject),
                )
            },
            None => ("New message"@, account + " · "@ + folder),
        }
    } else {
        (number::decimal(count) + " new messages"@, account + " · "@ + folder)
    }
}

/// See [`announcement`].
pub fn new_mail_notification(
    account: &AccountId,
    folder: &FolderId,
    count: usize,
    preview: Option<&MessageHeaders>,
) -> (r: (String, String))
    ensures
        r.0@ == announcement(
            account@,
            folder@,
            count as nat,
            match preview {
                Some(h) => Some(h@),
                None => None,
            },
        ).0,
        r.1@ == announcement(
            account@,
            folder@,
            count as nat,
            match preview {
                Some(h) => Some(h@),
                None => None,
            },
        ).1,
{
    if count == 1 {
        if let Some(h) = preview {
            let from = if h.from.len() == 0 {
                "Unknown sender".to_owned()
            } else {
                shown_sender(&h.from)
            };
            let mut title = "New from ".to_owned();
            title.append(&from);
            let mut body = from;
            body.append(" — ");
            let subject = shown_subject(&h.subject);
            body.append(&subject);
            return (title, body);
        }
    }
    let mut place = account.0.clone();
    place.append(" · ");
    place.append(&folder.0);
    if count == 1 {
        return ("New message".to_owned(), place);
    }
    let mut title = decimal_text(count as u64);
    title.append(" new messages");
    (title, place)
}

/// The event that tells the user that a queued change was given up.
pub fn dead_letter(op_kind: &str, error: &str) -> (r: SyncEvent)
    ensures
        match r {
            SyncEvent::FolderError { account, folder, error: e } => {
                &&& account@.len() == 0
                &&& folder@ == "outbox:"@ + op_kind@
                &&& e@ == "queued mutation failed: "@ + error@
            },
            _ => false,
        },
{
    let mut folder = "outbox:".to_owned();
    folder.append(op_kind);
    let mut e = "queued mutation failed: ".to_owned();
    e.append(error);
    SyncEvent::FolderError { account: AccountId(String::new()), folder: FolderId(folder), error: e }
}

// ---------------------------------------------------------------------
// Which folders are watched
// ---------------------------------------------------------------------

/// The order in which folders are watched: the inbox, all mail, sent mail,
/// drafts, trash, spam, important, archive and flagged mail, and then those
/// without a role.
pub proof fn law_roles_rank_in_order(f: Folder)
    ensures
        f.role == Some(FolderRole::Inbox) ==> watch_key(f).0 == 0,
        f.role == Some(FolderRole::All) ==> watch_key(f).0 == 1,
        f.role == Some(FolderRole::Sent) ==> watch_key(f).0 == 2,
        f.role == Some(FolderRole::Drafts) ==> watch_key(f).0 == 3,
        f.role == Some(FolderRole::Trash) ==> watch_key(f).0 == 4,
        f.role == Some(FolderRole::Spam) ==> watch_key(f).0 == 5,
        f.role == Some(FolderRole::Important) ==> watch_key(f).0 == 6,
        f.role == Some(FolderRole::Archive) ==> watch_key(f).0 == 7,
        f.role == Some(FolderRole::Flagged) ==> watch_key(f).0 == 8,
        f.role is None ==> watch_key(f).0 > 8,
        watch_key(f).1 == f.path@,
{
}

/// No inbox is merely polled while another folder is watched, and no folder
/// with a role while one without is. As many folders are watched as there may
/// be: all of them up to ten, and ten of more.
pub proof fn law_the_inbox_is_watched(
    folders: Seq<Folder>,
    active: Seq<Folder>,
    polled: Seq<Folder>,
    i: int,
    j: int,
)
    requires
        is_watch_split(folders, active, polled),
    ensures
        folders.len() <= 10 ==> active.len() == folders.len() && polled.len() == 0,
        folders.len() > 10 ==> active.len() == 10,
        0 <= i < active.len() && 0 <= j < polled.len() && polled[j].role == Some(FolderRole::Inbox)
            ==> active[i].role == Some(FolderRole::Inbox),
        0 <= i < active.len() && 0 <= j < polled.len() && polled[j].role is Some
            ==> active[i].role is Some,
{
    law_watch_split_loses_no_folder(folders, active, polled);
    if 0 <= i < active.len() && 0 <= j < polled.len() {
        law_watched_folders_rank_first(folders, active, polled, i, j);
    }
}

/// The accounts that could be opened are watched, each by its own kind and in
/// order; no other is.
pub proof fn law_every_started_account_is_watched(all: Seq<Bootstrap>, kind: BackendKind)
    ensures
        started(all, kind) == all.filter(|b: Bootstrap| b.folders is Some && b.kind == kind),
    decreases all.len(),
{
    reveal(Seq::filter);
    if all.len() > 0 {
        law_every_started_account_is_watched(all.drop_last(), kind);
    }
    assert(started(all, kind) =~= all.filter(
        |b: Bootstrap| b.folders is Some && b.kind == kind,
    ));
}

/// Every folder of an IMAP account that could be opened is known, under its
/// account; nothing else is.
pub proof fn law_every_folder_is_known(all: Seq<Bootstrap>)
    ensures
        forall|i: int, j: int|
            0 <= i < all.len() && all[i].folders is Some && all[i].kind == BackendKind::ImapSmtp
                && 0 <= j < all[i].folders->0@.len() ==> known_of(all).contains(
                KnownFolder {
                    account: (#[trigger] all[i]).account,
                    folder: #[trigger] all[i].folders->0@[j],
                },
            ),
        forall|n: int|
            0 <= n < known_of(all).len() ==> exists|i: int, j: int|
                0 <= i < all.len() && all[i].folders is Some && all[i].kind
                    == BackendKind::ImapSmtp && 0 <= j < all[i].folders->0@.len()
                    && #[trigger] known_of(all)[n] == (KnownFolder {
                    account: (#[trigger] all[i]).account,
                    folder: #[trigger] all[i].folders->0@[j],
                }),
    decreases all.len(),
{
    if all.len() > 0 {
        let init = all.drop_last();
        let b = all.last();
        let last = all.len() - 1;
        law_every_folder_is_known(init);
        let before = known_of(init);
        let now = known_of(all);
        assert forall|i: int, j: int|
            0 <= i < all.len() && all[i].folders is Some && all[i].kind == BackendKind::ImapSmtp
                && 0 <= j < all[i].folders->0@.len() implies now.contains(
            KnownFolder {
                account: (#[trigger] all[i]).account,
                folder: #[trigger] all[i].folders->0@[j],
            },
        ) by {
            let k = KnownFolder { account: all[i].account, folder: all[i].folders->0@[j] };
            if i < last {
                assert(init[i] == all[i]);
                let n = choose|n: int| 0 <= n < before.len() && before[n] == k;
                assert(now[n] == k);
            } else {
                assert(now[before.len() + j] == k);
            }
        }
        assert forall|n: int| 0 <= n < now.len() implies exists|i: int, j: int|
            0 <= i < all.len() && all[i].folders is Some && all[i].kind == BackendKind::ImapSmtp
                && 0 <= j < all[i].folders->0@.len() && #[trigger] now[n] == (KnownFolder {
                account: (#[trigger] all[i]).account,
                folder: #[trigger] all[i].folders->0@[j],
            }) by {
            if n < before.len() {
                assert(now[n] == before[n]);
                let (i, j) = choose|i: int, j: int|
                    0 <= i < init.len() && init[i].folders is Some && init[i].kind
                        == BackendKind::ImapSmtp && 0 <= j < init[i].folders->0@.len()
                        && before[n] == (KnownFolder {
                        account: (#[trigger] init[i]).account,
                        folder: #[trigger] init[i].folders->0@[j],
                    });
                assert(all[i] == init[i]);
            } else {
                let j = n - before.len();
                assert(all[last] == b);
                assert(now[n] == (KnownFolder {
                    account: all[last].account,
                    folder: all[last].folders->0@[j],
                }));
            }
        }
    }
}

/// After the first pass an account goes on with the folders that it went well
/// for, in order.
pub proof fn law_what_failed_is_left_out(v: Seq<FolderOutcome>)
    ensures
        synced_of(v) == v.filter(|o: FolderOutcome| o.outcome is Ok).map_values(
            |o: FolderOutcome| o.folder,
        ),
    decreases v.len(),
{
    reveal(Seq::filter);
    if v.len() > 0 {
        law_what_failed_is_left_out(v.drop_last());
    }
    assert(synced_of(v) =~= v.filter(|o: FolderOutcome| o.outcome is Ok).map_values(
        |o: FolderOutcome| o.folder,
    ));
}

// ---------------------------------------------------------------------
// When changes are synced
// ---------------------------------------------------------------------

/// What a report is about: a changed folder, or the account as a whole. Other
/// reports call for nothing.
pub proof fn law_reports_name_what_changed(account: Seq<char>, folder: FolderId)
    ensures
        key_of_event(account, BackendEvent::FolderChanged(folder)) == Some(
            (account, Some(folder@)),
        ),
        key_of_event(account, BackendEvent::AccountChanged) == Some((account, None::<Seq<char>>)),
        key_of_event(account, BackendEvent::ConnectionLost) is None,
        key_of_event(account, BackendEvent::ConnectionRestored) is None,
        key_of_event(account, BackendEvent::Other) is None,
{
}

/// What was reported is synced half a second later, unless it is reported
/// again; and until then it waits. Nothing else is put off or forgotten by it.
pub proof fn law_a_change_is_synced_when_it_rests(
    m: Map<(Seq<char>, Option<Seq<char>>), u64>,
    key: (Seq<char>, Option<Seq<char>>),
    other: (Seq<char>, Option<Seq<char>>),
    reported: u64,
    now: u64,
)
    requires
        reported + 500 <= u64::MAX,
    ensures
        noted(m, key, reported).dom().contains(key),
        noted(m, key, reported)[key] == reported + 500,
        still_waiting(noted(m, key, reported), now).dom().contains(key) <==> now < reported + 500,
        other != key ==> {
            &&& noted(m, key, reported).dom().contains(other) <==> m.dom().contains(other)
            &&& m.dom().contains(other) ==> noted(m, key, reported)[other] == m[other]
        },
        still_waiting(m, now).dom().contains(other) <==> m.dom().contains(other) && now
            < m[other],
        still_waiting(m, now).dom().contains(other) ==> still_waiting(m, now)[other] == m[other],
{
}

// ---------------------------------------------------------------------
// What is announced
// ---------------------------------------------------------------------

/// New mail is announced wherever the user wants to hear of it: what was pushed
/// into an inbox is, a single message with a preview and several with their
/// number. Without new mail, on the first pass and in other folders nothing is.
pub proof fn law_pushed_inbox_mail_is_announced(live: bool, added: usize, folder: Folder)
    ensures
        folder.role == Some(FolderRole::Inbox) ==> announced(true, true, 1, Some(folder))
            == Announcement::Preview,
        folder.role == Some(FolderRole::Inbox) && added > 1 ==> announced(
            true,
            true,
            added,
            Some(folder),
        ) == Announcement::Count,
        announced(true, live, 0, Some(folder)) == Announcement::Nothing,
        announced(true, false, added, Some(folder)) == Announcement::Nothing,
        folder.role != Some(FolderRole::Inbox) ==> announced(true, live, added, Some(folder))
            == Announcement::Nothing,
        announced(true, live, added, None) == Announcement::Nothing,
        announced(false, live, added, Some(folder)) == Announcement::Nothing,
{
}

/// Notifications are on where the account's switch is on and the one for all
/// accounts was not switched off.
pub proof fn law_both_switches_decide(account: Account, master: Option<Seq<char>>)
    ensures
        notifies(Some(account), master) <==> account.notify_enabled && (master is None || master
            == Some("true"@)),
        !notifies(None, master),
{
}

/// A single new message is announced by its sender and its subject, several by
/// their number, account and folder.
pub proof fn law_announcements_say_what_came(
    account: Seq<char>,
    folder: Seq<char>,
    count: nat,
    h: HeadersModel,
)
    ensures
        h.from.len() > 0 && h.subject.len() > 0 ==> ({
            let from = message_list::sender_name(h.from);
            announcement(account, folder, 1, Some(h)) == ("New from "@ + from, from + " — "@
                + h.subject)
        }),
        h.from.len() == 0 && h.subject.len() > 0 ==> announcement(account, folder, 1, Some(h)) == (
            "New from "@ + "Unknown sender"@,
            "Unknown sender"@ + " — "@ + h.subject,
        ),
        announcement(account, folder, 1, None) == ("New message"@, account + " · "@ + folder),
        count != 1 ==> announcement(account, folder, count, Some(h)) == (
            number::decimal(count) + " new messages"@,
            account + " · "@ + folder,
        ),
        count != 1 ==> announcement(account, folder, count, None) == announcement(
            account,
            folder,
            count,
            Some(h),
        ),
        h.from.len() > 0 && h.subject.len() == 0 ==> ({
            let from = message_list::sender_name(h.from);
            announcement(account, folder, 1, Some(h)) == ("New from "@ + from, from + " — "@
                + "(no subject)"@)
        }),
{
}

/// The outcome of a sync is reported as it was: what came, or the error.
pub proof fn law_outcomes_are_reported(
    account: AccountId,
    folder: FolderId,
    report: SyncReport,
    error: String,
    unread_count: u32,
    live: bool,
)
    requires
        report.added <= u32::MAX,
        report.updated <= u32::MAX,
        report.flag_updates <= u32::MAX,
        report.removed <= u32::MAX,
    ensures
        folder_event(account, folder, Ok(report), unread_count, live) matches
            SyncEvent::FolderSynced {
            account: a,
            folder: f,
            added,
            updated,
            flag_updates,
            removed,
            unread_count: u,
            live: l,
        } && a == account && f == folder && added == report.added && updated == report.updated
            && flag_updates == report.flag_updates && removed == report.removed && u
            == unread_count && l == live,
        folder_event(account, folder, Err(error), unread_count, live) == (
        SyncEvent::FolderError { account, folder, error }),
{
}

/// A change waits until the moment that was set for it.
pub proof fn law_changes_wait_for_their_moment(v: Seq<Pending>, i: int)
    requires
        0 <= i < v.len(),
        forall|j: int| i < j < v.len() ==> (#[trigger] v[j]).key@ != v[i].key@,
    ensures
        deadlines_of(v).dom().contains(v[i].key@),
        deadlines_of(v)[v[i].key@] == v[i].at,
    decreases v.len(),
{
    if i < v.len() - 1 {
        let init = v.drop_last();
        assert forall|j: int| i < j < init.len() implies (#[trigger] init[j]).key@
            != init[i].key@ by {
            assert(init[j] == v[j]);
        }
        law_changes_wait_for_their_moment(init, i);
        assert(v[v.len() - 1].key@ != v[i].key@);
    }
}

/// Folders are watched by their role, and among those of one role by their
/// path; what is watched comes before what is polled.
pub proof fn law_folders_are_watched_in_order(
    folders: Seq<Folder>,
    active: Seq<Folder>,
    polled: Seq<Folder>,
    i: int,
    j: int,
)
    requires
        is_watch_split(folders, active, polled),
        0 <= i < j < folders.len(),
    ensures
        ({
            let all = active + polled;
            &&& all.len() == folders.len()
            &&& watch_key(all[i]).0 <= watch_key(all[j]).0
            &&& all[i].role == all[j].role ==> !order::text_lt(all[j].path@, all[i].path@)
        }),
{
    let keys = watch_keys(folders);
    let p = choose|p: Seq<int>| #[trigger]
        order::is_stable_order(keys, p) && active + polled == order::arranged(folders, p);
    order::law_sorting_keeps_everything(keys, p, i, j);
    assert(0 <= p[j] < keys.len());
    assert((active + polled)[i] == folders[p[i]]);
    assert((active + polled)[j] == folders[p[j]]);
}

/// The folders of one more account are known behind those of the others, where
/// the account is watched folder by folder.
pub proof fn law_folders_are_known_account_by_account(all: Seq<Bootstrap>, b: Bootstrap)
    ensures
        b.folders is Some && b.kind == BackendKind::ImapSmtp ==> known_of(all.push(b)) == known_of(
            all,
        ) + b.folders->0@.map_values(
            |f: Folder| KnownFolder { account: b.account, folder: f },
        ),
        b.folders is None || b.kind != BackendKind::ImapSmtp ==> known_of(all.push(b)) == known_of(
            all,
        ),
        known_of(Seq::empty()).len() == 0,
{
    assert(all.push(b).drop_last() =~= all);
    if b.folders is Some {
        assert(owned_folders(b.account, b.folders->0@) =~= b.folders->0@.map_values(
            |f: Folder| KnownFolder { account: b.account, folder: f },
        ));
    }
}

/// What waits is named in order.
pub proof fn law_waiting_names_are_kept(v: Seq<PendingKey>, i: int)
    requires
        0 <= i < v.len(),
    ensures
        pending_keys(v).len() == v.len(),
        pending_keys(v)[i].0 == v[i].account@,
        v[i].folder is None ==> pending_keys(v)[i].1 is None,
        v[i].folder matches Some(f) ==> pending_keys(v)[i].1 == Some(f@),
{
}

} // verus!
