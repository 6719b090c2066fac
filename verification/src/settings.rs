//! The settings window.
use vstd::prelude::*;

use crate::history_sync::{HistoryStatus, HistorySyncStatus};
use crate::model;
use crate::model::{AccountId, Folder, FolderId, FolderRole};
use crate::number;
use crate::number::decimal_text;
use crate::shell;
use crate::shell::find_role;
use crate::text::str_eq;

verus! {

/// The setting for the theme.
pub const KEY_THEME: &'static str = "appearance.theme";

/// The setting for the density.
pub const KEY_DENSITY: &'static str = "appearance.density";

/// The setting that allows notifications.
pub const KEY_NOTIFY_MASTER: &'static str = "notifications.master";

/// The setting for the time in which a message can be called back.
pub const KEY_UNDO_SEND: &'static str = "compose.undo_send";

/// A tab of the window.
#[derive(Debug, Clone, Copy, PartialEq, Eq, Structural)]
pub enum Tab {
    Accounts,
    Appearance,
    Compose,
    Notifications,
    Shortcuts,
    Privacy,
}

impl Tab {
    /// The tabs in the order in which they stand.
    pub fn all() -> (r: Vec<Tab>)
        ensures
            r@ == seq![
                Tab::Accounts,
                Tab::Appearance,
                Tab::Compose,
                Tab::Notifications,
                Tab::Shortcuts,
                Tab::Privacy,
            ],
    {
        vec![
            Tab::Accounts,
            Tab::Appearance,
            Tab::Compose,
            Tab::Notifications,
            Tab::Shortcuts,
            Tab::Privacy,
        ]
    }

    /// The text of the tab.
    pub fn label(self) -> (r: &'static str)
        ensures
            r@ == match self {
                Tab::Accounts => "Accounts"@,
                Tab::Appearance => "Appearance"@,
                Tab::Compose => "Compose"@,
                Tab::Notifications => "Notifications"@,
                Tab::Shortcuts => "Shortcuts"@,
                Tab::Privacy => "Privacy"@,
            },
    {
        match self {
            Tab::Accounts => "Accounts",
            Tab::Appearance => "Appearance",
            Tab::Compose => "Compose",
            Tab::Notifications => "Notifications",
            Tab::Shortcuts => "Shortcuts",
            Tab::Privacy => "Privacy",
        }
    }
}

// ---------------------------------------------------------------------
// Values
// ---------------------------------------------------------------------

/// The value of a choice: the one that is kept, or the usual one. A setting
/// that could not be read counts as not kept.
pub fn choice_value(kept: &Option<String>, usual: &str) -> (r: String)
    ensures
        r@ == match model::opt_text(*kept) {
            Some(v) => v,
            None => usual@,
        },
{
    match kept {
        Some(v) => v.clone(),
        None => usual.to_owned(),
    }
}

/// Is a switch on? By its kept value, or as it usually is.
pub open spec fn switched_on(kept: Option<Seq<char>>, usually: bool) -> bool {
    match kept {
        Some(v) => v == "true"@,
        None => usually,
    }
}

/// See [`switched_on`].
pub fn switch_value(kept: &Option<String>, usually: bool) -> (r: bool)
    ensures
        r == switched_on(model::opt_text(*kept), usually),
{
    match kept {
        Some(v) => str_eq(v.as_str(), "true"),
        None => usually,
    }
}

/// What a check box reports.
pub fn is_checked(value: &str) -> (r: bool)
    ensures
        r == (value@ == "true"@ || value@ == "on"@),
{
    str_eq(value, "true") || str_eq(value, "on")
}

/// The value that is kept for a switch.
pub open spec fn switch_word(on: bool) -> Seq<char> {
    if on {
        "true"@
    } else {
        "false"@
    }
}

/// See [`switch_word`].
pub fn switch_to_keep(on: bool) -> (r: &'static str)
    ensures
        r@ == switch_word(on),
{
    if on {
        "true"
    } else {
        "false"
    }
}

/// What is kept for a switch is what is read of it, whatever it usually is.
pub proof fn law_switch_reads_back(on: bool, usually: bool)
    ensures
        switched_on(Some(switch_word(on)), usually) == on,
{
    reveal_strlit("true");
    reveal_strlit("false");
    assert("true"@.len() != "false"@.len());
}

/// Does a progress report concern the jobs of this account?
pub fn concerns_account(kind: &str, event_account: &str, account: &AccountId) -> (r: bool)
    ensures
        r == (kind@ == "history_sync_progress"@ && event_account@ == account@),
{
    str_eq(kind, "history_sync_progress") && str_eq(event_account, account.0.as_str())
}

// ---------------------------------------------------------------------
// Pulling history
// ---------------------------------------------------------------------

/// Is there a job for this folder?
pub open spec fn has_job(rows: Seq<HistorySyncStatus>, folder: Seq<char>) -> bool {
    exists|i: int| 0 <= i < rows.len() && (#[trigger] rows[i]).folder@ == folder
}

/// See [`has_job`].
fn has_job_for(rows: &Vec<HistorySyncStatus>, folder: &FolderId) -> (r: bool)
    ensures
        r == has_job(rows@, folder@),
{
    let mut i: usize = 0;
    while i < rows.len()
        invariant
            i <= rows@.len(),
            forall|j: int| 0 <= j < i ==> (#[trigger] rows@[j]).folder@ != folder@,
        decreases rows@.len() - i,
    {
        if rows[i].folder.same(folder) {
            return true;
        }
        i = i + 1;
    }
    false
}

/// The folders whose history can be pulled: those without a job.
pub open spec fn without_job(folders: Seq<Folder>, rows: Seq<HistorySyncStatus>) -> Seq<Folder>
    decreases folders.len(),
{
    if folders.len() == 0 {
        Seq::empty()
    } else {
        let before = without_job(folders.drop_last(), rows);
        if has_job(rows, folders.last().id@) {
            before
        } else {
            before.push(folders.last())
        }
    }
}

/// See [`without_job`].
pub fn history_candidates(folders: &Vec<Folder>, rows: &Vec<HistorySyncStatus>) -> (r: Vec<Folder>)
    ensures
        r@ == without_job(folders@, rows@),
{
    let mut r: Vec<Folder> = Vec::new();
    let mut i: usize = 0;
    while i < folders.len()
        invariant
            i <= folders@.len(),
            r@ == without_job(folders@.take(i as int), rows@),
        decreases folders@.len() - i,
    {
        assert(folders@.take(i + 1).drop_last() =~= folders@.take(i as int));
        assert(folders@.take(i + 1).last() == folders@[i as int]);
        if !has_job_for(rows, &folders[i].id) {
            r.push(folders[i].clone());
        }
        i = i + 1;
    }
    assert(folders@.take(folders@.len() as int) =~= folders@);
    r
}

/// The folder that is offered first: the one with all mail, else the archive,
/// else the inbox, else the first one.
pub open spec fn preferred(candidates: Seq<Folder>) -> Option<Folder> {
    match shell::first_with_role(candidates, FolderRole::All) {
        Some(f) => Some(f),
        None => match shell::first_with_role(candidates, FolderRole::Archive) {
            Some(f) => Some(f),
            None => match shell::first_with_role(candidates, FolderRole::Inbox) {
                Some(f) => Some(f),
                None => if candidates.len() > 0 {
                    Some(candidates[0])
                } else {
                    None
                },
            },
        },
    }
}

/// See [`preferred`].
pub fn default_history_folder(candidates: &Vec<Folder>) -> (r: Option<FolderId>)
    ensures
        model::opt_folder(r) == match preferred(candidates@) {
            Some(f) => Some(f.id@),
            None => None,
        },
{
    if let Some(i) = find_role(candidates, FolderRole::All) {
        return Some(candidates[i].id.clone());
    }
    if let Some(i) = find_role(candidates, FolderRole::Archive) {
        return Some(candidates[i].id.clone());
    }
    if let Some(i) = find_role(candidates, FolderRole::Inbox) {
        return Some(candidates[i].id.clone());
    }
    if candidates.len() > 0 {
        Some(candidates[0].id.clone())
    } else {
        None
    }
}

/// What a folder is called in the list: by its role, or by its name.
pub open spec fn history_folder_name(role: Option<FolderRole>, name: Seq<char>) -> Seq<char> {
    match role {
        Some(FolderRole::All) => "All Mail"@,
        Some(FolderRole::Inbox) => "Inbox"@,
        Some(FolderRole::Archive) => "Archive"@,
        Some(FolderRole::Sent) => "Sent"@,
        Some(FolderRole::Drafts) => "Drafts"@,
        Some(FolderRole::Trash) => "Trash"@,
        Some(FolderRole::Spam) => "Spam"@,
        _ => name,
    }
}

/// See [`history_folder_name`].
pub fn folder_label(f: &Folder) -> (r: String)
    ensures
        r@ == history_folder_name(f.role, f.name@),
{
    match f.role {
        Some(FolderRole::All) => "All Mail".to_owned(),
        Some(FolderRole::Inbox) => "Inbox".to_owned(),
        Some(FolderRole::Archive) => "Archive".to_owned(),
        Some(FolderRole::Sent) => "Sent".to_owned(),
        Some(FolderRole::Drafts) => "Drafts".to_owned(),
        Some(FolderRole::Trash) => "Trash".to_owned(),
        Some(FolderRole::Spam) => "Spam".to_owned(),
        _ => f.name.clone(),
    }
}

/// What is shown of a job's progress.
#[derive(Debug, Clone, Copy, PartialEq, Eq, Structural)]
pub enum ProgressText {
    Nothing,
    /// The number of messages that were pulled.
    Fetched(u32),
    /// That number, the estimate, and how much of it that is.
    OfTotal { fetched: u32, total: u32 },
}

/// What can be done with a job.
#[derive(Debug, Clone, Copy, PartialEq, Eq, Structural)]
pub enum JobAction {
    Nothing,
    Cancel,
    Resume,
}

/// A job as the settings show it.
#[derive(Debug, PartialEq, Eq)]
pub struct JobView {
    pub status: String,
    pub progress: ProgressText,
    /// The job's progress is drawn as a bar.
    pub shows_bar: bool,
    pub action: JobAction,
}

/// The job ran to its end and found nothing new.
pub open spec fn is_up_to_date(status: Seq<char>, fetched: u32) -> bool {
    status == "completed"@ && fetched == 0
}

/// The text of a job's status.
pub open spec fn status_word(status: Seq<char>, fetched: u32) -> Seq<char> {
    if is_up_to_date(status, fetched) {
        "Already up to date"@
    } else if status == "running"@ {
        "Running"@
    } else if status == "pending"@ {
        "Queued"@
    } else if status == "completed"@ {
        "Complete"@
    } else if status == "canceled"@ {
        "Canceled"@
    } else if status == "error"@ {
        "Error"@
    } else {
        status
    }
}

/// What is shown of a job's progress: nothing while it waits or where there was
/// nothing to do, and no share without an estimate.
pub open spec fn progress_of(status: Seq<char>, fetched: u32, total: Option<u32>) -> ProgressText {
    if is_up_to_date(status, fetched) || status == "pending"@ {
        ProgressText::Nothing
    } else if total is Some && total->0 > 0 {
        ProgressText::OfTotal { fetched, total: total->0 }
    } else {
        ProgressText::Fetched(fetched)
    }
}

/// What can be done with a job.
pub open spec fn action_for(status: Seq<char>) -> JobAction {
    if status == "running"@ || status == "pending"@ {
        JobAction::Cancel
    } else if status == "canceled"@ || status == "error"@ {
        JobAction::Resume
    } else {
        JobAction::Nothing
    }
}

/// A job as the settings show it.
pub fn job_view(row: &HistorySyncStatus) -> (r: JobView)
    ensures
        r.status@ == status_word(row.status@, row.fetched),
        r.progress == progress_of(row.status@, row.fetched, row.total_estimate),
        r.shows_bar == (row.total_estimate is Some && row.total_estimate->0 > 0 && !is_up_to_date(
            row.status@,
            row.fetched,
        )),
        r.action == action_for(row.status@),
{
    let s = row.status.as_str();
    let running = str_eq(s, "running");
    let pending = str_eq(s, "pending");
    let completed = str_eq(s, "completed");
    let canceled = str_eq(s, "canceled");
    let error = str_eq(s, "error");
    let up_to_date = completed && row.fetched == 0;
    let status = if up_to_date {
        "Already up to date".to_owned()
    } else if running {
        "Running".to_owned()
    } else if pending {
        "Queued".to_owned()
    } else if completed {
        "Complete".to_owned()
    } else if canceled {
        "Canceled".to_owned()
    } else if error {
        "Error".to_owned()
    } else {
        row.status.clone()
    };
    let total: u32 = match row.total_estimate {
        Some(t) => t,
        None => 0,
    };
    let progress = if up_to_date || pending {
        ProgressText::Nothing
    } else if total > 0 {
        ProgressText::OfTotal { fetched: row.fetched, total }
    } else {
        ProgressText::Fetched(row.fetched)
    };
    let action = if running || pending {
        JobAction::Cancel
    } else if canceled || error {
        JobAction::Resume
    } else {
        JobAction::Nothing
    };
    JobView { status, progress, shows_bar: total > 0 && !up_to_date, action }
}

/// The text for a number of pulled messages.
pub fn fetched_text(fetched: u32) -> (r: String)
    ensures
        r@ == number::decimal(fetched as nat) + " fetched"@,
{
    let mut r = decimal_text(fetched as u64);
    r.append(" fetched");
    r
}

/// The status line of a job: the status, and the progress where there is one.
pub fn status_line(status: &str, progress: &str) -> (r: String)
    ensures
        r@ == if progress@.len() == 0 {
            status@
        } else {
            status@ + " · "@ + progress@
        },
{
    let mut r = status.to_owned();
    if !progress.is_empty() {
        r.append(" · ");
        r.append(progress);
    }
    r
}

/// Every job can be stopped or taken up again, or is complete, as long as its
/// status is one that the host reports.
pub proof fn law_unfinished_jobs_can_be_acted_on(status: HistoryStatus)
    ensures
        (action_for(status.name()) is Nothing) <==> status == HistoryStatus::Completed,
{
    reveal_strlit("running");
    reveal_strlit("pending");
    reveal_strlit("completed");
    reveal_strlit("canceled");
    reveal_strlit("error");
    assert("completed"@.len() == 9);
    assert("canceled"@.len() == 8);
    assert("error"@.len() == 5);
    assert("running"@.len() == 7);
    assert("running"@[0] != "pending"@[0]);
}

/// No folder that has a job is offered.
pub proof fn law_no_job_is_offered_twice(folders: Seq<Folder>, rows: Seq<HistorySyncStatus>, i: int)
    requires
        0 <= i < without_job(folders, rows).len(),
    ensures
        !has_job(rows, without_job(folders, rows)[i].id@),
    decreases folders.len(),
{
    let before = without_job(folders.drop_last(), rows);
    if i < before.len() {
        law_no_job_is_offered_twice(folders.drop_last(), rows, i);
    }
}

/// A switch is on where `true` was kept, and off where anything else was; one
/// that was never touched stands as it usually does.
pub proof fn law_a_kept_switch_decides(kept: Seq<char>, usually: bool)
    ensures
        switched_on(Some("true"@), usually),
        kept != "true"@ ==> !switched_on(Some(kept), usually),
        switched_on(None, usually) == usually,
        switch_word(true) == "true"@,
        switch_word(false) == "false"@,
{
}

/// History can be pulled for every folder that has no job yet, in order.
pub proof fn law_every_other_folder_is_offered(
    folders: Seq<Folder>,
    rows: Seq<HistorySyncStatus>,
)
    ensures
        without_job(folders, rows) == folders.filter(
            |f: Folder|
                forall|i: int| 0 <= i < rows.len() ==> (#[trigger] rows[i]).folder@ != f.id@,
        ),
    decreases folders.len(),
{
    reveal(Seq::filter);
    let free = |f: Folder|
        forall|i: int| 0 <= i < rows.len() ==> (#[trigger] rows[i]).folder@ != f.id@;
    if folders.len() > 0 {
        law_every_other_folder_is_offered(folders.drop_last(), rows);
        assert(has_job(rows, folders.last().id@) == !free(folders.last()));
    }
    assert(without_job(folders, rows) =~= folders.filter(free));
}

/// Of the folders that can be pulled, all mail is proposed, else the archive,
/// else the inbox, else the first.
pub proof fn law_all_mail_is_proposed_first(candidates: Seq<Folder>, i: int)
    requires
        0 <= i < candidates.len(),
    ensures
        preferred(candidates) is Some,
        candidates.contains(preferred(candidates)->0),
        candidates[i].role == Some(FolderRole::All) ==> preferred(candidates)->0.role == Some(
            FolderRole::All,
        ),
        candidates[i].role == Some(FolderRole::Archive) && preferred(candidates)->0.role != Some(
            FolderRole::All,
        ) ==> preferred(candidates)->0.role == Some(FolderRole::Archive),
        candidates[i].role == Some(FolderRole::Inbox) && preferred(candidates)->0.role != Some(
            FolderRole::All,
        ) && preferred(candidates)->0.role != Some(FolderRole::Archive) ==> preferred(
            candidates,
        )->0.role == Some(FolderRole::Inbox),
        (forall|j: int|
            0 <= j < candidates.len() ==> (#[trigger] candidates[j]).role != Some(FolderRole::All)
                && candidates[j].role != Some(FolderRole::Archive) && candidates[j].role != Some(
                FolderRole::Inbox,
            )) ==> preferred(candidates) == Some(candidates[0]),
{
    shell::law_first_with_role(candidates, FolderRole::All);
    shell::law_first_with_role(candidates, FolderRole::Archive);
    shell::law_first_with_role(candidates, FolderRole::Inbox);
    assert(candidates[0] == candidates[0]);
}

/// A job says how it stands, by the word for its status and by what it has
/// pulled, out of the estimate where there is one.
pub proof fn law_jobs_say_how_they_stand(fetched: u32, total: u32, status: Seq<char>)
    ensures
        status_word("running"@, fetched) == "Running"@,
        status_word("pending"@, fetched) == "Queued"@,
        fetched > 0 ==> status_word("completed"@, fetched) == "Complete"@,
        status_word("completed"@, 0) == "Already up to date"@,
        status_word("canceled"@, fetched) == "Canceled"@,
        status_word("error"@, fetched) == "Error"@,
        total > 0 ==> progress_of("running"@, fetched, Some(total)) == (ProgressText::OfTotal {
            fetched,
            total,
        }),
        progress_of("running"@, fetched, None) == ProgressText::Fetched(fetched),
        progress_of("running"@, fetched, Some(0)) == ProgressText::Fetched(fetched),
        progress_of("pending"@, fetched, Some(total)) == ProgressText::Nothing,
        progress_of("completed"@, 0, Some(total)) == ProgressText::Nothing,
        action_for("running"@) == JobAction::Cancel,
        action_for("pending"@) == JobAction::Cancel,
        action_for("canceled"@) == JobAction::Resume,
        action_for("error"@) == JobAction::Resume,
        action_for("completed"@) == JobAction::Nothing,
        is_up_to_date(status, fetched) <==> status == "completed"@ && fetched == 0,
{
    reveal_strlit("running");
    reveal_strlit("pending");
    reveal_strlit("completed");
    reveal_strlit("canceled");
    reveal_strlit("error");
    assert("running"@[0] == 'r');
    assert("pending"@[0] == 'p');
    assert("completed"@[1] == 'o');
    assert("canceled"@[1] == 'a');
    assert("completed"@[0] == 'c');
    assert("canceled"@[0] == 'c');
    assert("error"@[0] == 'e');
}

/// Folders with a well-known role are named by it, others by their own name.
pub proof fn law_history_folders_are_named_by_role(name: Seq<char>)
    ensures
        history_folder_name(Some(FolderRole::All), name) == "All Mail"@,
        history_folder_name(Some(FolderRole::Inbox), name) == "Inbox"@,
        history_folder_name(Some(FolderRole::Archive), name) == "Archive"@,
        history_folder_name(Some(FolderRole::Sent), name) == "Sent"@,
        history_folder_name(Some(FolderRole::Drafts), name) == "Drafts"@,
        history_folder_name(Some(FolderRole::Trash), name) == "Trash"@,
        history_folder_name(Some(FolderRole::Spam), name) == "Spam"@,
        history_folder_name(Some(FolderRole::Flagged), name) == name,
        history_folder_name(Some(FolderRole::Important), name) == name,
        history_folder_name(None, name) == name,
{
}

/// Each setting is kept under its own name.
pub proof fn law_settings_have_their_names()
    ensures
        KEY_THEME@ == "appearance.theme"@,
        KEY_DENSITY@ == "appearance.density"@,
        KEY_NOTIFY_MASTER@ == "notifications.master"@,
        KEY_UNDO_SEND@ == "compose.undo_send"@,
{
}

} // verus!
