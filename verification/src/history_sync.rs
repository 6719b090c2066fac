//! Pulling the full history of a folder: where it starts, which jobs run, and
//! what is reported of them.
use vstd::prelude::*;

use crate::messages;
use crate::messages::lowest_imap_uid;
use crate::model::{AccountId, Folder, FolderId, IpcError, IpcErrorKind};
use crate::sync_engine::Pending;
use crate::table;
use crate::table::{Row, Table, TableKey};

verus! {

// ---------------------------------------------------------------------
// Rows
// ---------------------------------------------------------------------

/// How far a job has come.
#[derive(Debug, Clone, Copy, PartialEq, Eq, Structural)]
pub enum HistoryStatus {
    Pending,
    Running,
    Completed,
    Canceled,
    Error,
}

impl HistoryStatus {
    /// The name under which the status is kept and reported.
    pub open spec fn name(self) -> Seq<char> {
        match self {
            HistoryStatus::Pending => "pending"@,
            HistoryStatus::Running => "running"@,
            HistoryStatus::Completed => "completed"@,
            HistoryStatus::Canceled => "canceled"@,
            HistoryStatus::Error => "error"@,
        }
    }

    /// See [`HistoryStatus::name`].
    pub fn as_str(&self) -> (r: &'static str)
        ensures
            r@ == self.name(),
    {
        match self {
            HistoryStatus::Pending => "pending",
            HistoryStatus::Running => "running",
            HistoryStatus::Completed => "completed",
            HistoryStatus::Canceled => "canceled",
            HistoryStatus::Error => "error",
        }
    }
}

/// What is kept of a job. Everything below `anchor_uid` is still to be pulled.
/// Times are in seconds since the Unix epoch.
#[derive(Debug, PartialEq, Eq)]
pub struct HistoryRow {
    pub account: AccountId,
    pub folder: FolderId,
    pub anchor_uid: Option<i64>,
    pub total_estimate: Option<i64>,
    pub fetched: u32,
    pub status: HistoryStatus,
    pub last_error: Option<String>,
    pub started_at: i64,
    pub updated_at: i64,
    pub completed_at: Option<i64>,
}

/// A job as the settings show it.
#[derive(Debug, PartialEq, Eq)]
pub struct HistorySyncStatus {
    pub account: AccountId,
    pub folder: FolderId,
    pub folder_label: String,
    pub status: String,
    pub fetched: u32,
    pub total_estimate: Option<u32>,
    pub last_error: Option<String>,
    pub started_at: i64,
    pub updated_at: i64,
    pub completed_at: Option<i64>,
}

/// A report of a job's progress.
#[derive(Debug, PartialEq, Eq)]
pub struct HistoryProgress {
    pub account: AccountId,
    pub folder: FolderId,
    pub status: String,
    pub fetched: u32,
    pub total_estimate: Option<u32>,
    pub last_error: Option<String>,
}

/// An estimate in 32 bits.
pub open spec fn narrowed(estimate: Option<i64>) -> Option<u32> {
    match estimate {
        Some(v) => Some(v as u32),
        None => None,
    }
}

/// See [`narrowed`].
fn narrow(estimate: Option<i64>) -> (r: Option<u32>)
    ensures
        r == narrowed(estimate),
{
    match estimate {
        Some(v) => Some(v as u32),
        None => None,
    }
}

/// `r` shows `row` under the given label.
pub open spec fn shows_row(r: HistorySyncStatus, row: HistoryRow, label: Seq<char>) -> bool {
    &&& r.account == row.account
    &&& r.folder == row.folder
    &&& r.folder_label@ == label
    &&& r.status@ == row.status.name()
    &&& r.fetched == row.fetched
    &&& r.total_estimate == narrowed(row.total_estimate)
    &&& r.last_error == row.last_error
    &&& r.started_at == row.started_at
    &&& r.updated_at == row.updated_at
    &&& r.completed_at == row.completed_at
}

/// A row as the settings show it.
pub fn history_row_to_ipc(row: &HistoryRow, folder_label: String) -> (r: HistorySyncStatus)
    ensures
        shows_row(r, *row, folder_label@),
{
    HistorySyncStatus {
        account: row.account.clone(),
        folder: row.folder.clone(),
        folder_label,
        status: row.status.as_str().to_owned(),
        fetched: row.fetched,
        total_estimate: narrow(row.total_estimate),
        last_error: row.last_error.clone(),
        started_at: row.started_at,
        updated_at: row.updated_at,
        completed_at: row.completed_at,
    }
}

/// The label of a folder: its name, or its id where it cannot be looked up.
pub open spec fn label_in(folders: Seq<Folder>, id: Seq<char>) -> Seq<char>
    decreases folders.len(),
{
    if folders.len() == 0 {
        id
    } else if folders[0].id@ == id {
        folders[0].name@
    } else {
        label_in(folders.drop_first(), id)
    }
}

/// See [`label_in`].
fn label_of(folders: &Vec<Folder>, id: &FolderId) -> (r: String)
    ensures
        r@ == label_in(folders@, id@),
{
    let mut i: usize = 0;
    assert(folders@.skip(0) =~= folders@);
    while i < folders.len()
        invariant
            i <= folders@.len(),
            label_in(folders@, id@) == label_in(folders@.skip(i as int), id@),
        decreases folders@.len() - i,
    {
        assert(folders@.skip(i as int)[0] == folders@[i as int]);
        assert(folders@.skip(i as int).drop_first() =~= folders@.skip(i + 1));
        if folders[i].id.same(id) {
            return folders[i].name.clone();
        }
        i = i + 1;
    }
    id.0.clone()
}

/// The jobs of an account as the settings show them, with the folders that
/// could be looked up.
pub fn history_sync_list(rows: &Vec<HistoryRow>, folders: &Vec<Folder>) -> (r: Vec<
    HistorySyncStatus,
>)
    ensures
        r@.len() == rows@.len(),
        forall|i: int|
            0 <= i < r@.len() ==> shows_row(
                #[trigger] r@[i],
                rows@[i],
                label_in(folders@, rows@[i].folder@),
            ),
{
    let mut r: Vec<HistorySyncStatus> = Vec::new();
    let mut i: usize = 0;
    while i < rows.len()
        invariant
            i <= rows@.len(),
            r@.len() == i,
            forall|j: int|
                0 <= j < i ==> shows_row(
                    #[trigger] r@[j],
                    rows@[j],
                    label_in(folders@, rows@[j].folder@),
                ),
        decreases rows@.len() - i,
    {
        let label = label_of(folders, &rows[i].folder);
        r.push(history_row_to_ipc(&rows[i], label));
        i = i + 1;
    }
    r
}

/// The report of what is kept of a job.
pub fn row_progress(row: &HistoryRow) -> (r: HistoryProgress)
    ensures
        r.account == row.account,
        r.folder == row.folder,
        r.status@ == row.status.name(),
        r.fetched == row.fetched,
        r.total_estimate == narrowed(row.total_estimate),
        r.last_error == row.last_error,
{
    HistoryProgress {
        account: row.account.clone(),
        folder: row.folder.clone(),
        status: row.status.as_str().to_owned(),
        fetched: row.fetched,
        total_estimate: narrow(row.total_estimate),
        last_error: row.last_error.clone(),
    }
}

// ---------------------------------------------------------------------
// Where a job starts
// ---------------------------------------------------------------------

/// Where a job starts, and how much there may be to pull.
#[derive(Debug, Clone, Copy, PartialEq, Eq, Structural)]
pub struct StartMetrics {
    pub anchor: u64,
    pub estimate: Option<u64>,
}

/// A job that was left before its end goes on where it was.
pub open spec fn resumes(row: Option<HistoryRow>) -> bool {
    match row {
        Some(r) => r.status != HistoryStatus::Completed && r.anchor_uid is Some && r.anchor_uid->0
            > 1,
        None => false,
    }
}

/// An estimate as it is counted.
pub open spec fn widened(estimate: Option<i64>) -> Option<u64> {
    match estimate {
        Some(v) => Some(v as u64),
        None => None,
    }
}

/// See [`widened`].
fn widen(estimate: Option<i64>) -> (r: Option<u64>)
    ensures
        r == widened(estimate),
{
    match estimate {
        Some(v) => Some(v as u64),
        None => None,
    }
}

/// Where a job starts: where an earlier one stopped, else at the lowest message
/// that is here, with everything below it to pull. There is no start in a
/// folder without messages.
pub open spec fn start_of(row: Option<HistoryRow>, uids: Seq<Option<u32>>) -> Option<StartMetrics> {
    if resumes(row) {
        Some(
            StartMetrics {
                anchor: row->0.anchor_uid->0 as u64,
                estimate: widened(row->0.total_estimate),
            },
        )
    } else {
        match messages::least(uids) {
            Some(u) => Some(
                StartMetrics {
                    anchor: u as u64,
                    estimate: Some(
                        if u == 0 {
                            0
                        } else {
                            (u - 1) as u64
                        },
                    ),
                },
            ),
            None => None,
        }
    }
}

/// See [`start_of`].
pub fn compute_start_metrics(row: &Option<HistoryRow>, uids: &Vec<Option<u32>>) -> (r: Result<
    StartMetrics,
    IpcError,
>)
    ensures
        match r {
            Ok(m) => start_of(*row, uids@) == Some(m),
            Err(e) => {
                &&& start_of(*row, uids@) is None
                &&& e.kind == IpcErrorKind::Internal
                &&& e.message@
                    == "no local messages in this folder yet — wait for the bootstrap sync to finish"@
            },
        },
{
    if let Some(r) = row {
        if let Some(anchor) = r.anchor_uid {
            let left = match r.status {
                HistoryStatus::Completed => false,
                _ => true,
            };
            if left && anchor > 1 {
                return Ok(
                    StartMetrics { anchor: anchor as u64, estimate: widen(r.total_estimate) },
                );
            }
        }
    }
    match lowest_imap_uid(uids) {
        Some(anchor) => Ok(
            StartMetrics {
                anchor,
                estimate: Some(
                    if anchor == 0 {
                        0
                    } else {
                        anchor - 1
                    },
                ),
            },
        ),
        None => Err(
            IpcError {
                kind: IpcErrorKind::Internal,
                message:
                    "no local messages in this folder yet — wait for the bootstrap sync to finish".to_owned(),
            },
        ),
    }
}

// ---------------------------------------------------------------------
// Running jobs
// ---------------------------------------------------------------------

/// What a job is about.
#[derive(Debug, PartialEq, Eq)]
pub struct JobKey {
    pub account: AccountId,
    pub folder: FolderId,
}

impl View for JobKey {
    type V = (Seq<char>, Seq<char>);

    open spec fn view(&self) -> (Seq<char>, Seq<char>) {
        (self.account@, self.folder@)
    }
}

impl Clone for JobKey {
    fn clone(&self) -> (r: Self)
        ensures
            r == *self,
    {
        JobKey { account: self.account.clone(), folder: self.folder.clone() }
    }
}

impl TableKey for JobKey {
    fn matches(&self, other: &JobKey) -> (r: bool) {
        self.account.same(&other.account) && self.folder.same(&other.folder)
    }
}

/// What a start leads to.
#[derive(Debug, PartialEq, Eq)]
pub enum StartPlan {
    /// There is nothing to pull: the job is kept as completed.
    Complete(StartMetrics),
    /// The job runs.
    Run(StartMetrics),
}

/// What becomes of a job that was running when the program ended.
#[derive(Debug, Clone, Copy, PartialEq, Eq, Structural)]
pub enum ResumeStep {
    Skip,
    Complete,
    Run(StartMetrics),
}

/// What becomes of a row that was left running.
pub open spec fn resume_step(row: HistoryRow, running: bool) -> ResumeStep {
    match row.anchor_uid {
        None => ResumeStep::Skip,
        Some(a) => if a <= 1 {
            ResumeStep::Complete
        } else if running {
            ResumeStep::Skip
        } else {
            ResumeStep::Run(
                StartMetrics { anchor: a as u64, estimate: widened(row.total_estimate) },
            )
        },
    }
}

/// The jobs without those of one account.
pub open spec fn without_account(m: Map<(Seq<char>, Seq<char>), bool>, account: Seq<char>) -> Map<
    (Seq<char>, Seq<char>),
    bool,
> {
    Map::new(
        |k: (Seq<char>, Seq<char>)| m.dom().contains(k) && k.0 != account,
        |k: (Seq<char>, Seq<char>)| m[k],
    )
}

/// The contents of a list of keys.
pub open spec fn job_keys(v: Seq<JobKey>) -> Seq<(Seq<char>, Seq<char>)> {
    v.map_values(|k: JobKey| k@)
}

/// `keys` names the jobs of one account, and no others.
pub open spec fn names_jobs_of(
    keys: Seq<(Seq<char>, Seq<char>)>,
    m: Map<(Seq<char>, Seq<char>), bool>,
    account: Seq<char>,
) -> bool {
    forall|k: (Seq<char>, Seq<char>)|
        #![trigger keys.contains(k)]
        #![trigger m.dom().contains(k)]
        keys.contains(k) <==> m.dom().contains(k) && k.0 == account
}

/// The jobs that run, each with whether it was asked to stop.
#[derive(Debug)]
pub struct HistoryJobs {
    flags: Table<JobKey, bool>,
}

impl View for HistoryJobs {
    type V = Map<(Seq<char>, Seq<char>), bool>;

    closed spec fn view(&self) -> Map<(Seq<char>, Seq<char>), bool> {
        self.flags@
    }
}

/// What a start leads to, by the jobs that run.
pub open spec fn started_jobs(
    m: Map<(Seq<char>, Seq<char>), bool>,
    key: (Seq<char>, Seq<char>),
    start: Option<StartMetrics>,
) -> Map<(Seq<char>, Seq<char>), bool> {
    if m.dom().contains(key) || start is None || start->0.anchor <= 1 {
        m
    } else {
        m.insert(key, false)
    }
}

impl HistoryJobs {
    /// No job runs.
    pub fn new() -> (r: HistoryJobs)
        ensures
            r@ == Map::<(Seq<char>, Seq<char>), bool>::empty(),
    {
        HistoryJobs { flags: Table::new() }
    }

    /// Does a job run for this folder?
    pub fn is_running(&self, key: &JobKey) -> (r: bool)
        ensures
            r == self@.dom().contains(key@),
    {
        self.flags.get(key).is_some()
    }

    /// Starts a job. A second one for the same folder is refused, and so is one
    /// that has nowhere to start; one that has nothing to pull is completed at
    /// once.
    pub fn history_sync_start(
        &mut self,
        key: &JobKey,
        row: &Option<HistoryRow>,
        uids: &Vec<Option<u32>>,
    ) -> (r: Result<StartPlan, IpcError>)
        ensures
            final(self)@ == started_jobs(old(self)@, key@, start_of(*row, uids@)),
            match r {
                Ok(StartPlan::Complete(m)) => {
                    &&& !old(self)@.dom().contains(key@)
                    &&& start_of(*row, uids@) == Some(m)
                    &&& m.anchor <= 1
                },
                Ok(StartPlan::Run(m)) => {
                    &&& !old(self)@.dom().contains(key@)
                    &&& start_of(*row, uids@) == Some(m)
                    &&& m.anchor > 1
                },
                Err(e) => {
                    &&& e.kind == IpcErrorKind::Internal
                    &&& if old(self)@.dom().contains(key@) {
                        e.message@ == "history sync already running for this folder"@
                    } else {
                        &&& start_of(*row, uids@) is None
                        &&& e.message@
                            == "no local messages in this folder yet — wait for the bootstrap sync to finish"@
                    }
                },
            },
    {
        if self.is_running(key) {
            return Err(
                IpcError {
                    kind: IpcErrorKind::Internal,
                    message: "history sync already running for this folder".to_owned(),
                },
            );
        }
        match compute_start_metrics(row, uids) {
            Err(e) => Err(e),
            Ok(m) => {
                if m.anchor <= 1 {
                    Ok(StartPlan::Complete(m))
                } else {
                    self.flags.insert(key.clone(), false);
                    Ok(StartPlan::Run(m))
                }
            },
        }
    }

    /// Asks a job to stop, and tells whether it runs. It stops between two
    /// pulls.
    pub fn history_sync_cancel(&mut self, key: &JobKey) -> (r: bool)
        ensures
            r == old(self)@.dom().contains(key@),
            final(self)@ == if r {
                old(self)@.insert(key@, true)
            } else {
                old(self)@
            },
    {
        if self.is_running(key) {
            self.flags.insert(key.clone(), true);
            true
        } else {
            false
        }
    }

    /// Was the job asked to stop? One that no longer runs was.
    pub fn is_canceled(&self, key: &JobKey) -> (r: bool)
        ensures
            r == (!self@.dom().contains(key@) || self@[key@]),
    {
        match self.flags.get(key) {
            Some(flag) => *flag,
            None => true,
        }
    }

    /// The job came to its end.
    pub fn drop_canceller(&mut self, key: &JobKey)
        ensures
            final(self)@ == old(self)@.remove(key@),
    {
        self.flags.remove(key);
    }

    /// Takes up a job that was running when the program ended.
    pub fn resume(&mut self, row: &HistoryRow) -> (r: ResumeStep)
        ensures
            r == resume_step(*row, old(self)@.dom().contains((row.account@, row.folder@))),
            final(self)@ == if r is Run {
                old(self)@.insert((row.account@, row.folder@), false)
            } else {
                old(self)@
            },
    {
        let anchor = match row.anchor_uid {
            Some(a) => a,
            None => return ResumeStep::Skip,
        };
        if anchor <= 1 {
            return ResumeStep::Complete;
        }
        let key = JobKey { account: row.account.clone(), folder: row.folder.clone() };
        if self.is_running(&key) {
            return ResumeStep::Skip;
        }
        self.flags.insert(key, false);
        ResumeStep::Run(
            StartMetrics { anchor: anchor as u64, estimate: widen(row.total_estimate) },
        )
    }

    /// Forgets the jobs of an account that is removed, and names them, so that
    /// each is told to stop.
    pub fn remove_account(&mut self, account: &AccountId) -> (r: Vec<JobKey>)
        ensures
            final(self)@ == without_account(old(self)@, account@),
            names_jobs_of(job_keys(r@), old(self)@, account@),
    {
        let rows = self.flags.drain();
        let ghost list = rows@;
        let mut r: Vec<JobKey> = Vec::new();
        assert(list.take(0) =~= Seq::<Row<JobKey, bool>>::empty());
        assert(self@ =~= without_account(table::rows_map(list.take(0)), account@));
        for row in it: rows
            invariant
                it.seq() == list,
                self@ == without_account(table::rows_map(list.take(it.index())), account@),
                names_jobs_of(job_keys(r@), table::rows_map(list.take(it.index())), account@),
        {
            let ghost n = it.index();
            let ghost m = table::rows_map(list.take(n));
            let ghost key = row.key@;
            let ghost before = job_keys(r@);
            assert(list.take(n + 1).drop_last() =~= list.take(n));
            assert(list.take(n + 1).last() == row);
            let ghost next = table::rows_map(list.take(n + 1));
            assert(next == m.insert(key, row.value));
            if row.key.account.same(account) {
                r.push(row.key);
                proof {
                    let after = job_keys(r@);
                    assert(after =~= before.push(key));
                    assert forall|k: (Seq<char>, Seq<char>)|
                        #![trigger after.contains(k)]
                        #![trigger next.dom().contains(k)]
                        after.contains(k) <==> next.dom().contains(k) && k.0 == account@ by {
                        if after.contains(k) {
                            let i = choose|i: int| 0 <= i < after.len() && after[i] == k;
                            if i < before.len() {
                                assert(before[i] == k);
                                assert(before.contains(k));
                            }
                        }
                        if next.dom().contains(k) && k.0 == account@ {
                            if k == key {
                                assert(after[before.len() as int] == k);
                            } else {
                                assert(m.dom().contains(k));
                                assert(before.contains(k));
                                let i = choose|i: int| 0 <= i < before.len() && before[i] == k;
                                assert(after[i] == k);
                            }
                        }
                    }
                    assert(without_account(next, account@) =~= without_account(m, account@));
                }
            } else {
                let ghost value = row.value;
                self.flags.insert(row.key, row.value);
                proof {
                    assert(without_account(next, account@) =~= without_account(m, account@).insert(
                        key,
                        value,
                    ));
                    assert forall|k: (Seq<char>, Seq<char>)|
                        #![trigger before.contains(k)]
                        #![trigger next.dom().contains(k)]
                        before.contains(k) <==> next.dom().contains(k) && k.0 == account@ by {
                        assert(before.contains(k) <==> m.dom().contains(k) && k.0 == account@);
                    }
                }
            }
        }
        assert(list.take(list.len() as int) =~= list);
        r
    }
}

/// While a job runs, a second one for the same folder is not started.
pub proof fn law_no_double_start(
    m: Map<(Seq<char>, Seq<char>), bool>,
    key: (Seq<char>, Seq<char>),
    first: Option<StartMetrics>,
    second: Option<StartMetrics>,
)
    ensures
        started_jobs(started_jobs(m, key, first), key, second) == if started_jobs(
            m,
            key,
            first,
        ).dom().contains(key) {
            started_jobs(m, key, first)
        } else {
            started_jobs(m, key, second)
        },
{
}

/// Removing an account leaves no job of it behind, and every other job as it
/// was.
pub proof fn law_removed_account_has_no_jobs(
    m: Map<(Seq<char>, Seq<char>), bool>,
    account: Seq<char>,
    key: (Seq<char>, Seq<char>),
)
    ensures
        key.0 == account ==> !without_account(m, account).dom().contains(key),
        key.0 != account ==> (without_account(m, account).dom().contains(key)
            <==> m.dom().contains(key)),
        key.0 != account && m.dom().contains(key) ==> without_account(m, account)[key] == m[key],
{
}

/// A job that was left starts again where it stopped: it never pulls anew what
/// lies above its anchor.
pub proof fn law_resume_keeps_the_anchor(row: HistoryRow, uids: Seq<Option<u32>>)
    requires
        resumes(Some(row)),
    ensures
        start_of(Some(row), uids) is Some,
        start_of(Some(row), uids)->0.anchor == row.anchor_uid->0,
        resume_step(row, false) == ResumeStep::Run(start_of(Some(row), uids)->0),
{
}

// ---------------------------------------------------------------------
// The course of a job
// ---------------------------------------------------------------------

/// What happens once it is a job's turn.
#[derive(Debug, PartialEq, Eq)]
pub enum DriverStart {
    /// It was canceled while it waited.
    Canceled,
    /// The server cannot be reached.
    Failed(String),
    Run,
}

/// What happens once it is a job's turn. A job that was canceled while it
/// waited does not open a connection.
pub fn driver_start(canceled: bool, opened: &Result<(), String>) -> (r: DriverStart)
    ensures
        r == if canceled {
            DriverStart::Canceled
        } else {
            match *opened {
                Ok(_) => DriverStart::Run,
                Err(e) => DriverStart::Failed(e),
            }
        },
{
    if canceled {
        return DriverStart::Canceled;
    }
    match opened {
        Ok(_) => DriverStart::Run,
        Err(e) => DriverStart::Failed(e.clone()),
    }
}

/// The number of messages that was last reported.
#[derive(Debug, Clone, Copy, PartialEq, Eq, Structural)]
pub struct ProgressGate {
    pub last: Option<u32>,
}

impl ProgressGate {
    /// Nothing was reported.
    pub fn new() -> (r: ProgressGate)
        ensures
            r.last is None,
    {
        ProgressGate { last: None }
    }

    /// The report of a job that has pulled `fetched` messages. A report that
    /// repeats the one before is left out, but the last one always comes.
    pub fn report(
        &mut self,
        key: &JobKey,
        fetched: u32,
        finished: bool,
        estimate: Option<u64>,
    ) -> (r: Option<HistoryProgress>)
        ensures
            final(self).last == Some(fetched),
            match r {
                Some(p) => {
                    &&& finished || old(self).last != Some(fetched)
                    &&& p.account == key.account
                    &&& p.folder == key.folder
                    &&& p.status@ == if finished {
                        "in-flight"@
                    } else {
                        "running"@
                    }
                    &&& p.fetched == fetched
                    &&& p.total_estimate == match estimate {
                        Some(v) => Some(v as u32),
                        None => None,
                    }
                    &&& p.last_error is None
                },
                None => !finished && old(self).last == Some(fetched),
            },
    {
        if !finished {
            if let Some(l) = self.last {
                if l == fetched {
                    return None;
                }
            }
        }
        self.last = Some(fetched);
        let status = if finished {
            "in-flight".to_owned()
        } else {
            "running".to_owned()
        };
        Some(
            HistoryProgress {
                account: key.account.clone(),
                folder: key.folder.clone(),
                status,
                fetched,
                total_estimate: match estimate {
                    Some(v) => Some(v as u32),
                    None => None,
                },
                last_error: None,
            },
        )
    }
}

// ---------------------------------------------------------------------
// Where a job starts
// ---------------------------------------------------------------------

/// A job that was never started, or that is complete, starts below the oldest
/// message at hand: no message is numbered lower than its anchor, and as many
/// are estimated as numbers lie below it. It cannot start while no message is
/// at hand.
pub proof fn law_a_new_job_starts_below_what_is_there(
    row: Option<HistoryRow>,
    uids: Seq<Option<u32>>,
)
    requires
        row matches Some(r) ==> r.status == HistoryStatus::Completed || r.anchor_uid is None
            || r.anchor_uid->0 <= 1,
    ensures
        match start_of(row, uids) {
            Some(m) => {
                &&& m.anchor <= u32::MAX
                &&& uids.contains(Some(m.anchor as u32))
                &&& forall|i: int|
                    0 <= i < uids.len() && (#[trigger] uids[i]) is Some ==> m.anchor <= uids[i]->0
                &&& m.anchor >= 1 ==> m.estimate == Some((m.anchor - 1) as u64)
                &&& m.anchor == 0 ==> m.estimate == Some(0u64)
            },
            None => forall|i: int| 0 <= i < uids.len() ==> (#[trigger] uids[i]) is None,
        },
{
    messages::law_least_is_least(uids);
}

/// A job that stopped on its way goes on where it stopped, whatever came of it,
/// with the estimate that it had.
pub proof fn law_a_stopped_job_goes_on(row: HistoryRow, uids: Seq<Option<u32>>)
    requires
        row.status != HistoryStatus::Completed,
        row.anchor_uid matches Some(a) && a > 1,
    ensures
        start_of(Some(row), uids) == Some(
            StartMetrics {
                anchor: row.anchor_uid->0 as u64,
                estimate: match row.total_estimate {
                    Some(v) => Some(v as u64),
                    None => None,
                },
            },
        ),
        resume_step(row, true) == ResumeStep::Skip,
        resume_step(row, false) == ResumeStep::Run(start_of(Some(row), uids)->0),
{
}

/// A job at the first message has nothing left to pull.
pub proof fn law_a_job_at_the_first_message_is_complete(row: HistoryRow, running: bool)
    ensures
        row.anchor_uid is None ==> resume_step(row, running) == ResumeStep::Skip,
        row.anchor_uid matches Some(a) ==> (a <= 1 ==> resume_step(row, running)
            == ResumeStep::Complete),
        row.anchor_uid matches Some(a) ==> (a > 1 ==> resume_step(row, true) == ResumeStep::Skip),
        row.anchor_uid matches Some(a) ==> (a > 1 ==> resume_step(row, false) == ResumeStep::Run(
            StartMetrics {
                anchor: a as u64,
                estimate: match row.total_estimate {
                    Some(v) => Some(v as u64),
                    None => None,
                },
            },
        )),
{
}

/// Starting a job adds it, not canceled, where there is something to pull and
/// it does not run; it leaves every other job as it was.
pub proof fn law_starting_adds_one_job(
    m: Map<(Seq<char>, Seq<char>), bool>,
    key: (Seq<char>, Seq<char>),
    other: (Seq<char>, Seq<char>),
    start: StartMetrics,
)
    ensures
        !m.dom().contains(key) && start.anchor > 1 ==> {
            &&& started_jobs(m, key, Some(start)).dom().contains(key)
            &&& !started_jobs(m, key, Some(start))[key]
        },
        m.dom().contains(key) || start.anchor <= 1 ==> started_jobs(m, key, Some(start)) == m,
        started_jobs(m, key, None) == m,
        other != key ==> {
            &&& started_jobs(m, key, Some(start)).dom().contains(other) <==> m.dom().contains(other)
            &&& m.dom().contains(other) ==> started_jobs(m, key, Some(start))[other] == m[other]
        },
{
}

/// A job is shown under the name of its folder, or under the folder's id where
/// the folder is gone, and with its numbers unchanged.
pub proof fn law_a_job_is_shown_by_its_folder(
    folders: Seq<Folder>,
    id: Seq<char>,
    i: int,
    estimate: i64,
)
    ensures
        0 <= i < folders.len() && folders[i].id@ == id && (forall|j: int|
            0 <= j < i ==> (#[trigger] folders[j]).id@ != id) ==> label_in(folders, id)
            == folders[i].name@,
        (forall|j: int| 0 <= j < folders.len() ==> (#[trigger] folders[j]).id@ != id) ==> label_in(
            folders,
            id,
        ) == id,
        0 <= estimate <= u32::MAX ==> narrowed(Some(estimate)) == Some(estimate as u32),
        0 <= estimate ==> widened(Some(estimate)) == Some(estimate as u64),
        narrowed(None) is None,
        widened(None) is None,
    decreases folders.len(),
{
    if folders.len() > 0 {
        let rest = folders.drop_first();
        assert(forall|j: int| 0 <= j < rest.len() ==> #[trigger] rest[j] == folders[j + 1]);
        law_a_job_is_shown_by_its_folder(rest, id, i - 1, estimate);
    }
}

/// A job is shown with everything that is known of it.
pub proof fn law_a_job_is_shown_whole(r: HistorySyncStatus, row: HistoryRow, label: Seq<char>)
    requires
        shows_row(r, row, label),
    ensures
        r.account == row.account,
        r.folder == row.folder,
        r.folder_label@ == label,
        r.fetched == row.fetched,
        r.last_error == row.last_error,
        r.started_at == row.started_at,
        r.updated_at == row.updated_at,
        r.completed_at == row.completed_at,
        row.total_estimate is None ==> r.total_estimate is None,
        row.total_estimate matches Some(v) ==> (0 <= v <= u32::MAX ==> r.total_estimate == Some(
            v as u32,
        )),
        row.status == HistoryStatus::Pending ==> r.status@ == "pending"@,
        row.status == HistoryStatus::Running ==> r.status@ == "running"@,
        row.status == HistoryStatus::Completed ==> r.status@ == "completed"@,
        row.status == HistoryStatus::Canceled ==> r.status@ == "canceled"@,
        row.status == HistoryStatus::Error ==> r.status@ == "error"@,
{
}

/// Removing an account names its jobs, all of them and no others.
pub proof fn law_an_account_takes_its_jobs_along(
    keys: Seq<(Seq<char>, Seq<char>)>,
    m: Map<(Seq<char>, Seq<char>), bool>,
    account: Seq<char>,
    folder: Seq<char>,
    other: Seq<char>,
)
    requires
        names_jobs_of(keys, m, account),
    ensures
        keys.contains((account, folder)) <==> m.dom().contains((account, folder)),
        other != account ==> !keys.contains((other, folder)),
{
}

/// Jobs are named in order, by account and folder.
pub proof fn law_job_names_are_kept(v: Seq<JobKey>, i: int)
    requires
        0 <= i < v.len(),
    ensures
        job_keys(v).len() == v.len(),
        job_keys(v)[i] == (v[i].account@, v[i].folder@),
{
}

} // verus!
