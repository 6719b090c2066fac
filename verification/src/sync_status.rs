//! What the status bar and the top bar say.
use vstd::prelude::*;

use crate::display;
use crate::display::display_name_for_folder;
use crate::model;
use crate::model::{Account, AccountId, FolderId, SyncEvent};
use crate::number;
use crate::number::decimal_text;
use crate::text;
use crate::text::tail_after_last;

verus! {

/// The state of syncing, as the status bar shows it.
#[derive(Debug, PartialEq, Eq)]
pub enum SyncStatus {
    /// Nothing has been reported yet.
    Initializing,
    /// The latest report of a folder. `live` tells a push from the first pass.
    Synced { folder: String, added: u32, updated: u32, live: bool },
    /// The latest failure.
    Failed { folder: String, error: String },
}

/// The contents of a [`SyncStatus`].
pub enum SyncStatusModel {
    Initializing,
    Synced { folder: Seq<char>, added: u32, updated: u32, live: bool },
    Failed { folder: Seq<char>, error: Seq<char> },
}

impl View for SyncStatus {
    type V = SyncStatusModel;

    open spec fn view(&self) -> SyncStatusModel {
        match self {
            SyncStatus::Initializing => SyncStatusModel::Initializing,
            SyncStatus::Synced { folder, added, updated, live } => SyncStatusModel::Synced {
                folder: folder@,
                added: *added,
                updated: *updated,
                live: *live,
            },
            SyncStatus::Failed { folder, error } => SyncStatusModel::Failed {
                folder: folder@,
                error: error@,
            },
        }
    }
}

/// The short name of a folder: what follows the last colon of its id, or all
/// of it.
pub fn short_folder_label(folder_id: &str) -> (r: String)
    ensures
        r@ == text::after_last(folder_id@, ':'),
{
    tail_after_last(folder_id, ':')
}

/// The title of a folder's message list.
pub fn folder_title(folder: &FolderId) -> (r: String)
    ensures
        r@ == display::friendly_name(text::after_last(folder@, ':')),
{
    let leaf = short_folder_label(&folder.0);
    display_name_for_folder(&leaf).to_owned()
}

/// What the status bar shows after an event.
pub open spec fn status_after(e: SyncEvent) -> SyncStatusModel {
    match e {
        SyncEvent::FolderSynced { folder, added, updated, live, .. } => SyncStatusModel::Synced {
            folder: text::after_last(folder@, ':'),
            added,
            updated,
            live,
        },
        SyncEvent::FolderError { folder, error, .. } => SyncStatusModel::Failed {
            folder: text::after_last(folder@, ':'),
            error: error@,
        },
    }
}

/// The counts that follow the folder's name; nothing where both are 0.
pub open spec fn counts_text(added: nat, updated: nat) -> Seq<char> {
    if added == 0 && updated == 0 {
        ""@
    } else if updated == 0 {
        " · "@ + number::decimal(added) + " new"@
    } else if added == 0 {
        " · "@ + number::decimal(updated) + " updated"@
    } else {
        " · "@ + number::decimal(added) + " new · "@ + number::decimal(updated) + " updated"@
    }
}

impl SyncStatusModel {
    /// The CSS class of the status dot.
    pub open spec fn dot(self) -> Seq<char> {
        match self {
            SyncStatusModel::Initializing => "status-dot working"@,
            SyncStatusModel::Synced { .. } => "status-dot ok"@,
            SyncStatusModel::Failed { .. } => "status-dot error"@,
        }
    }

    /// The text of the status bar.
    pub open spec fn text(self) -> Seq<char> {
        match self {
            SyncStatusModel::Initializing => "Initializing…"@,
            SyncStatusModel::Synced { folder, added, updated, live } => (if live {
                "Synced"@
            } else {
                "Loaded"@
            }) + " "@ + folder + counts_text(added as nat, updated as nat),
            SyncStatusModel::Failed { folder, error } => "Sync failed: "@ + folder + " — "@ + error,
        }
    }
}

impl SyncStatus {
    /// See [`status_after`].
    pub fn from_event(evt: &SyncEvent) -> (r: SyncStatus)
        ensures
            r@ == status_after(*evt),
    {
        match evt {
            SyncEvent::FolderSynced { folder, added, updated, live, .. } => SyncStatus::Synced {
                folder: short_folder_label(&folder.0),
                added: *added,
                updated: *updated,
                live: *live,
            },
            SyncEvent::FolderError { folder, error, .. } => SyncStatus::Failed {
                folder: short_folder_label(&folder.0),
                error: error.clone(),
            },
        }
    }

    /// The CSS class of the status dot, and the text of the status bar.
    pub fn bar(&self) -> (r: (&'static str, String))
        ensures
            r.0@ == self@.dot(),
            r.1@ == self@.text(),
    {
        match self {
            SyncStatus::Initializing => ("status-dot working", "Initializing…".to_owned()),
            SyncStatus::Synced { folder, added, updated, live } => {
                let mut t = if *live {
                    "Synced".to_owned()
                } else {
                    "Loaded".to_owned()
                };
                t.append(" ");
                t.append(folder);
                let c = sync_counts(*added, *updated);
                t.append(&c);
                ("status-dot ok", t)
            },
            SyncStatus::Failed { folder, error } => {
                let mut t = "Sync failed: ".to_owned();
                t.append(folder);
                t.append(" — ");
                t.append(error);
                ("status-dot error", t)
            },
        }
    }
}

/// See [`counts_text`].
fn sync_counts(added: u32, updated: u32) -> (r: String)
    ensures
        r@ == counts_text(added as nat, updated as nat),
{
    if added == 0 && updated == 0 {
        return "".to_owned();
    }
    let mut t = " · ".to_owned();
    if added != 0 {
        let a = decimal_text(added as u64);
        t.append(&a);
        if updated == 0 {
            t.append(" new");
            return t;
        }
        t.append(" new · ");
    }
    let u = decimal_text(updated as u64);
    t.append(&u);
    t.append(" updated");
    t
}

/// The account with this id.
pub open spec fn account_named(accounts: Seq<Account>, id: Seq<char>) -> Option<Account>
    decreases accounts.len(),
{
    if accounts.len() == 0 {
        None
    } else if accounts[0].id@ == id {
        Some(accounts[0])
    } else {
        account_named(accounts.drop_first(), id)
    }
}

/// What the account chip shows: `accounts` is none until the list has loaded.
pub open spec fn chip_text(
    filter: Option<Seq<char>>,
    accounts: Option<Seq<Account>>,
) -> Seq<char> {
    match filter {
        None => if accounts is Some && accounts->0.len() == 0 {
            "no accounts"@
        } else {
            "all accounts"@
        },
        Some(id) => match accounts {
            Some(list) => match account_named(list, id) {
                Some(a) => a.email_address@,
                None => id,
            },
            None => id,
        },
    }
}

/// See [`chip_text`].
pub fn account_chip_label(filter: &Option<AccountId>, accounts: &Option<Vec<Account>>) -> (r: String)
    ensures
        r@ == chip_text(
            model::opt_account(*filter),
            match accounts {
                Some(v) => Some(v@),
                None => None,
            },
        ),
{
    match filter {
        None => {
            if let Some(v) = accounts {
                if v.len() == 0 {
                    return "no accounts".to_owned();
                }
            }
            "all accounts".to_owned()
        },
        Some(id) => {
            if let Some(v) = accounts {
                let mut i: usize = 0;
                assert(v@.skip(0) =~= v@);
                while i < v.len()
                    invariant
                        i <= v@.len(),
                        *filter == Some(*id),
                        *accounts == Some(*v),
                        account_named(v@, id@) == account_named(v@.skip(i as int), id@),
                    decreases v@.len() - i,
                {
                    assert(v@.skip(i as int)[0] == v@[i as int]);
                    assert(v@.skip(i as int).drop_first() =~= v@.skip(i + 1));
                    if v[i].id.same(id) {
                        return v[i].email_address.clone();
                    }
                    i = i + 1;
                }
            }
            id.0.clone()
        },
    }
}

/// A folder is named by what stands behind the last colon of its id.
pub proof fn law_folders_are_named_by_their_last_part(front: Seq<char>, name: Seq<char>)
    requires
        !name.contains(':'),
    ensures
        text::after_last(front + seq![':'] + name, ':') == name,
        text::after_last(name, ':') == name,
{
    let s = front + seq![':'] + name;
    let n = front.len() as int;
    assert(s[n] == ':');
    assert forall|j: int| n < j < s.len() implies !text::is_char(':')(#[trigger] s[j]) by {
        assert(s[j] == name[j - n - 1]);
    }
    text::lemma_last_where(s, text::is_char(':'), n);
    assert(s.skip(n + 1) =~= name);
    assert forall|j: int| 0 <= j < name.len() implies !text::is_char(':')(#[trigger] name[j]) by {}
    text::lemma_last_where(name, text::is_char(':'), -1);
    assert(name.skip(0) =~= name);
}

/// The status bar reports the last event: what was synced, with what came of
/// it, or what failed and why.
pub proof fn law_the_status_bar_reports_the_last_event(e: SyncEvent)
    ensures
        e matches SyncEvent::FolderSynced { folder, added, updated, live, .. } ==> status_after(e)
            == (SyncStatusModel::Synced {
            folder: text::after_last(folder@, ':'),
            added,
            updated,
            live,
        }),
        e matches SyncEvent::FolderError { folder, error, .. } ==> status_after(e) == (
        SyncStatusModel::Failed { folder: text::after_last(folder@, ':'), error: error@ }),
{
}

/// The status is shown by its colour and in words; counts that are zero are
/// left out.
pub proof fn law_the_status_is_shown_in_words(
    folder: Seq<char>,
    error: Seq<char>,
    added: u32,
    updated: u32,
)
    requires
        added > 0,
        updated > 0,
    ensures
        SyncStatusModel::Initializing.dot() == "status-dot working"@,
        SyncStatusModel::Initializing.text() == "Initializing…"@,
        (SyncStatusModel::Failed { folder, error }).dot() == "status-dot error"@,
        (SyncStatusModel::Failed { folder, error }).text() == "Sync failed: "@ + folder + " — "@
            + error,
        (SyncStatusModel::Synced { folder, added, updated, live: true }).dot()
            == "status-dot ok"@,
        (SyncStatusModel::Synced { folder, added, updated, live: true }).text() == "Synced"@ + " "@
            + folder + (" · "@ + number::decimal(added as nat) + " new · "@ + number::decimal(
            updated as nat,
        ) + " updated"@),
        (SyncStatusModel::Synced { folder, added, updated: 0, live: true }).text() == "Synced"@
            + " "@ + folder + (" · "@ + number::decimal(added as nat) + " new"@),
        (SyncStatusModel::Synced { folder, added: 0, updated, live: false }).text() == "Loaded"@
            + " "@ + folder + (" · "@ + number::decimal(updated as nat) + " updated"@),
        (SyncStatusModel::Synced { folder, added: 0, updated: 0, live: false }).text()
            == "Loaded"@ + " "@ + folder + ""@,
{
}

/// The filter is shown by the address of its account, or by its id where the
/// account is not known; without one it stands for all accounts.
pub proof fn law_the_filter_names_its_account(
    accounts: Seq<Account>,
    id: Seq<char>,
    i: int,
)
    ensures
        0 <= i < accounts.len() && accounts[i].id@ == id && (forall|j: int|
            0 <= j < i ==> (#[trigger] accounts[j]).id@ != id) ==> chip_text(
            Some(id),
            Some(accounts),
        ) == accounts[i].email_address@ && account_named(accounts, id) == Some(accounts[i]),
        (forall|j: int| 0 <= j < accounts.len() ==> (#[trigger] accounts[j]).id@ != id)
            ==> chip_text(Some(id), Some(accounts)) == id && account_named(accounts, id) is None,
        chip_text(Some(id), None) == id,
        accounts.len() > 0 ==> chip_text(None, Some(accounts)) == "all accounts"@,
        chip_text(None, None) == "all accounts"@,
        accounts.len() == 0 ==> chip_text(None, Some(accounts)) == "no accounts"@,
    decreases accounts.len(),
{
    if accounts.len() > 0 {
        let rest = accounts.drop_first();
        assert(forall|j: int| 0 <= j < rest.len() ==> #[trigger] rest[j] == accounts[j + 1]);
        law_the_filter_names_its_account(rest, id, i - 1);
    }
}

} // verus!
