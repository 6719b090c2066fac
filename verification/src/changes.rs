//! Changing many messages: each is changed here, and what was changed is
//! queued for the servers.
use vstd::prelude::*;

use crate::messages;
use crate::messages::{
    LocalChange, MessageRow, delete_message, flag_action, mark_read, mark_read_action, move_to,
    set_flagged,
};
use crate::model;
use crate::model::{AccountId, FolderId, MessageFlags, MessageId};
use crate::outbox;
use crate::outbox::{
    AccountGroups, GroupAction, GroupModel, OutboxEntry, PayloadModel, outbox_entries,
};

verus! {

// ---------------------------------------------------------------------
// What is asked for
// ---------------------------------------------------------------------

/// A change of many messages.
#[derive(Debug, PartialEq, Eq)]
pub enum ChangeKind {
    MarkRead(bool),
    Flag(bool),
    Move(FolderId),
    Delete,
}

/// What is done here with one message.
pub open spec fn wanted_change(kind: ChangeKind, row: Option<MessageRow>) -> LocalChange {
    match kind {
        ChangeKind::MarkRead(seen) => messages::mark_read_change(row, seen),
        ChangeKind::Flag(flagged) => messages::flag_change(row, flagged),
        ChangeKind::Move(target) => messages::move_change(row, target),
        ChangeKind::Delete => messages::delete_change(row),
    }
}

/// What the servers are told: a flag is set or cleared, the others are left
/// alone.
pub open spec fn wanted_action(kind: ChangeKind) -> GroupAction {
    let none = MessageFlags::none();
    match kind {
        ChangeKind::MarkRead(seen) => GroupAction::SetFlags {
            set: MessageFlags { seen, ..none },
            cleared: MessageFlags { seen: !seen, ..none },
        },
        ChangeKind::Flag(flagged) => GroupAction::SetFlags {
            set: MessageFlags { flagged, ..none },
            cleared: MessageFlags { flagged: !flagged, ..none },
        },
        ChangeKind::Move(target) => GroupAction::Move(target),
        ChangeKind::Delete => GroupAction::Delete,
    }
}

impl ChangeKind {
    /// See [`wanted_change`].
    fn change_of(&self, row: &Option<MessageRow>) -> (r: LocalChange)
        ensures
            r == wanted_change(*self, *row),
    {
        match self {
            ChangeKind::MarkRead(seen) => mark_read(row, *seen),
            ChangeKind::Flag(flagged) => set_flagged(row, *flagged),
            ChangeKind::Move(target) => move_to(row, target),
            ChangeKind::Delete => delete_message(row),
        }
    }

    /// See [`wanted_action`].
    fn action(&self) -> (r: GroupAction)
        ensures
            r == wanted_action(*self),
    {
        match self {
            ChangeKind::MarkRead(seen) => mark_read_action(*seen),
            ChangeKind::Flag(flagged) => flag_action(*flagged),
            ChangeKind::Move(target) => GroupAction::Move(target.clone()),
            ChangeKind::Delete => GroupAction::Delete,
        }
    }
}

// ---------------------------------------------------------------------
// One message after the other
// ---------------------------------------------------------------------

/// What came of a [`ChangeStep`].
#[derive(Debug, PartialEq, Eq)]
pub enum ChangeEvent {
    /// The message, where it is known.
    Found(Option<MessageRow>),
    /// Whether the change was carried out.
    Applied(bool),
}

/// What is to be done next.
#[derive(Debug, PartialEq, Eq)]
pub enum ChangeStep {
    /// Look the message up.
    Load(MessageId),
    /// Change the message.
    Apply(MessageId, LocalChange),
    /// Queue the entries, in order: all messages were gone through.
    Queue(Vec<OutboxEntry>),
    /// Nothing: the entries were handed out.
    Done,
}

/// The contents of a [`ChangeStep`].
pub enum StepModel {
    Load(Seq<char>),
    Apply(Seq<char>, LocalChange),
    Queue(Seq<(Seq<char>, PayloadModel)>),
    Done,
}

impl View for ChangeStep {
    type V = StepModel;

    open spec fn view(&self) -> StepModel {
        match self {
            ChangeStep::Load(id) => StepModel::Load(id@),
            ChangeStep::Apply(id, change) => StepModel::Apply(id@, *change),
            ChangeStep::Queue(entries) => StepModel::Queue(outbox::outbox_of(entries@)),
            ChangeStep::Done => StepModel::Done,
        }
    }
}

/// A change of many messages that is under way.
#[derive(Debug)]
pub struct ChangeRun {
    pub ids: Vec<MessageId>,
    pub kind: ChangeKind,
    /// How many messages were gone through.
    pub at: usize,
    /// The account of the message that is being changed.
    pub account: Option<AccountId>,
    /// The messages that were changed.
    pub groups: AccountGroups,
}

/// The contents of a [`ChangeRun`].
pub struct RunModel {
    pub ids: Seq<Seq<char>>,
    pub kind: ChangeKind,
    pub at: int,
    pub account: Option<Seq<char>>,
    pub groups: Seq<GroupModel>,
}

impl View for ChangeRun {
    type V = RunModel;

    open spec fn view(&self) -> RunModel {
        RunModel {
            ids: model::message_ids(self.ids@),
            kind: self.kind,
            at: self.at as int,
            account: match self.account {
                Some(a) => Some(a@),
                None => None,
            },
            groups: self.groups@,
        }
    }
}

/// A change that starts.
pub open spec fn run_start(ids: Seq<Seq<char>>, kind: ChangeKind) -> RunModel {
    RunModel { ids, kind, at: 0, account: None, groups: Seq::empty() }
}

/// What a change asks for between two messages: the next one, or one entry per
/// account at the end.
pub open spec fn asked(run: RunModel) -> StepModel {
    if run.at < run.ids.len() {
        StepModel::Load(run.ids[run.at])
    } else {
        StepModel::Queue(run.groups.map_values(|g: GroupModel| outbox::entry_for(g, wanted_action(run.kind))))
    }
}

/// The change after an event. A message that is unknown, that needs no change
/// or whose change failed is passed over, and so is one of which the event
/// says nothing.
pub open spec fn handled(run: RunModel, event: ChangeEvent) -> RunModel {
    let passed = RunModel { at: run.at + 1, account: None, ..run };
    if run.at >= run.ids.len() {
        run
    } else {
        match (run.account, event) {
            (None, ChangeEvent::Found(Some(row))) => if wanted_change(run.kind, Some(row)) is Skip {
                passed
            } else {
                RunModel { account: Some(row.account_id@), ..run }
            },
            (Some(account), ChangeEvent::Applied(true)) => RunModel {
                groups: outbox::group_added(run.groups, account, run.ids[run.at]),
                ..passed
            },
            _ => passed,
        }
    }
}

/// What is to be done after an event.
pub open spec fn replied(run: RunModel, event: ChangeEvent) -> StepModel {
    let next = handled(run, event);
    if run.at >= run.ids.len() {
        StepModel::Done
    } else {
        match event {
            ChangeEvent::Found(row) if next.account is Some => StepModel::Apply(
                run.ids[run.at],
                wanted_change(run.kind, row),
            ),
            _ => asked(next),
        }
    }
}

impl ChangeRun {
    /// Not past the last message.
    pub open spec fn well_formed(&self) -> bool {
        self.at <= self.ids@.len()
    }

    /// Starts a change, and says what is to be done first.
    pub fn new(ids: Vec<MessageId>, kind: ChangeKind) -> (r: (ChangeRun, ChangeStep))
        ensures
            r.0.well_formed(),
            r.0@ == run_start(model::message_ids(ids@), kind),
            r.1@ == asked(r.0@),
    {
        let run = ChangeRun { ids, kind, at: 0, account: None, groups: AccountGroups::new() };
        let first = run.ask();
        (run, first)
    }

    /// See [`asked`].
    fn ask(&self) -> (r: ChangeStep)
        ensures
            r@ == asked(self@),
    {
        if self.at < self.ids.len() {
            ChangeStep::Load(self.ids[self.at].clone())
        } else {
            ChangeStep::Queue(outbox_entries(&self.groups, &self.kind.action()))
        }
    }

    /// Takes an event, and says what is to be done next. See [`handled`] and
    /// [`replied`].
    pub fn step(&mut self, event: ChangeEvent) -> (r: ChangeStep)
        requires
            old(self).well_formed(),
        ensures
            final(self).well_formed(),
            final(self)@ == handled(old(self)@, event),
            r@ == replied(old(self)@, event),
    {
        if self.at >= self.ids.len() {
            return ChangeStep::Done;
        }
        let account = self.account.take();
        match (account, event) {
            (None, ChangeEvent::Found(row)) => {
                let change = self.kind.change_of(&row);
                if let Some(m) = row {
                    match change {
                        LocalChange::Skip => {},
                        _ => {
                            self.account = Some(m.account_id);
                            return ChangeStep::Apply(self.ids[self.at].clone(), change);
                        },
                    }
                }
            },
            (Some(account), ChangeEvent::Applied(true)) => {
                self.groups.add_message(&account, &self.ids[self.at]);
            },
            _ => {},
        }
        self.at = self.at + 1;
        self.ask()
    }
}

/// The change after one more message was gone through: it was looked up, and
/// changed where it needs to be.
pub open spec fn gone_through(run: RunModel, row: Option<MessageRow>, applied: bool) -> RunModel {
    let next = handled(run, ChangeEvent::Found(row));
    if next.account is Some {
        handled(next, ChangeEvent::Applied(applied))
    } else {
        next
    }
}

/// The change after its first `n` messages were gone through.
pub open spec fn run_after(
    ids: Seq<Seq<char>>,
    kind: ChangeKind,
    rows: Seq<Option<MessageRow>>,
    applied: Seq<bool>,
    n: nat,
) -> RunModel
    decreases n,
{
    if n == 0 {
        run_start(ids, kind)
    } else {
        gone_through(
            run_after(ids, kind, rows, applied, (n - 1) as nat),
            rows[n - 1],
            applied[n - 1],
        )
    }
}

/// The accounts and ids of those of the first `n` messages that are known, had
/// to be changed and were.
pub open spec fn changed_log(
    ids: Seq<Seq<char>>,
    kind: ChangeKind,
    rows: Seq<Option<MessageRow>>,
    applied: Seq<bool>,
    n: nat,
) -> Seq<(Seq<char>, Seq<char>)>
    decreases n,
{
    if n == 0 {
        Seq::empty()
    } else {
        let before = changed_log(ids, kind, rows, applied, (n - 1) as nat);
        match rows[n - 1] {
            Some(row) if applied[n - 1] && !(wanted_change(kind, Some(row)) is Skip) => before.push(
                (row.account_id@, ids[n - 1]),
            ),
            _ => before,
        }
    }
}

/// Every message is asked for once, in order, whatever came of the ones before
/// it; and what is queued in the end is for the messages that were changed
/// here and no others, one entry for each account.
pub proof fn law_what_was_changed_is_queued(
    ids: Seq<Seq<char>>,
    kind: ChangeKind,
    rows: Seq<Option<MessageRow>>,
    applied: Seq<bool>,
    n: nat,
)
    requires
        n <= ids.len(),
        rows.len() == ids.len(),
        applied.len() == ids.len(),
    ensures
        run_after(ids, kind, rows, applied, n).at == n,
        n < ids.len() ==> asked(run_after(ids, kind, rows, applied, n)) == StepModel::Load(
            ids[n as int],
        ),
        n == ids.len() ==> asked(run_after(ids, kind, rows, applied, n)) == StepModel::Queue(
            outbox::grouped(changed_log(ids, kind, rows, applied, n)).map_values(
                |g: GroupModel| outbox::entry_for(g, wanted_action(kind)),
            ),
        ),
{
    lemma_run_after(ids, kind, rows, applied, n);
}

/// What is known of [`run_after`].
proof fn lemma_run_after(
    ids: Seq<Seq<char>>,
    kind: ChangeKind,
    rows: Seq<Option<MessageRow>>,
    applied: Seq<bool>,
    n: nat,
)
    requires
        n <= ids.len(),
    ensures
        run_after(ids, kind, rows, applied, n) == (RunModel {
            ids,
            kind,
            at: n as int,
            account: None,
            groups: outbox::grouped(changed_log(ids, kind, rows, applied, n)),
        }),
    decreases n,
{
    if n > 0 {
        lemma_run_after(ids, kind, rows, applied, (n - 1) as nat);
        let before = changed_log(ids, kind, rows, applied, (n - 1) as nat);
        let after = changed_log(ids, kind, rows, applied, n);
        if after != before {
            assert(after.drop_last() =~= before);
        }
    }
}

// ---------------------------------------------------------------------
// Archiving
// ---------------------------------------------------------------------

/// The accounts and ids of those of the first `n` messages that are known.
pub open spec fn found_log(
    ids: Seq<Seq<char>>,
    rows: Seq<Option<MessageRow>>,
    n: nat,
) -> Seq<(Seq<char>, Seq<char>)>
    decreases n,
{
    if n == 0 {
        Seq::empty()
    } else {
        let before = found_log(ids, rows, (n - 1) as nat);
        match rows[n - 1] {
            Some(row) => before.push((row.account_id@, ids[n - 1])),
            None => before,
        }
    }
}

/// The messages that are known, by account: each account has an archive of its
/// own.
pub fn archive_groups(ids: &Vec<MessageId>, rows: &Vec<Option<MessageRow>>) -> (r: AccountGroups)
    requires
        rows@.len() == ids@.len(),
    ensures
        r@ == outbox::grouped(found_log(model::message_ids(ids@), rows@, ids@.len())),
{
    let ghost all = model::message_ids(ids@);
    let mut r = AccountGroups::new();
    let mut i: usize = 0;
    while i < ids.len()
        invariant
            i <= ids@.len() == rows@.len(),
            all == model::message_ids(ids@),
            r@ == outbox::grouped(found_log(all, rows@, i as nat)),
        decreases ids@.len() - i,
    {
        if let Some(row) = &rows[i] {
            r.add_message(&row.account_id, &ids[i]);
            assert(found_log(all, rows@, (i + 1) as nat).drop_last() =~= found_log(
                all,
                rows@,
                i as nat,
            ));
        }
        i = i + 1;
    }
    r
}

// ---------------------------------------------------------------------
// Which messages are changed and queued
// ---------------------------------------------------------------------

/// A message is queued if and only if it is known, was not yet as wanted and
/// was changed here; the queue keeps the order of the request.
pub proof fn law_the_log_holds_what_was_changed(
    ids: Seq<Seq<char>>,
    kind: ChangeKind,
    rows: Seq<Option<MessageRow>>,
    applied: Seq<bool>,
    n: nat,
)
    ensures
        changed_log(ids, kind, rows, applied, n) == Seq::new(n, |k: int| k).filter(
            |k: int|
                rows[k] is Some && applied[k] && match kind {
                    ChangeKind::MarkRead(seen) => rows[k]->0.flags.seen != seen,
                    ChangeKind::Flag(flagged) => rows[k]->0.flags.flagged != flagged,
                    ChangeKind::Move(target) => rows[k]->0.folder_id@ != target@,
                    ChangeKind::Delete => true,
                },
        ).map_values(|k: int| (rows[k]->0.account_id@, ids[k])),
    decreases n,
{
    reveal(Seq::filter);
    let all = Seq::new(n, |k: int| k);
    if n > 0 {
        law_the_log_holds_what_was_changed(ids, kind, rows, applied, (n - 1) as nat);
        assert(all.drop_last() =~= Seq::new((n - 1) as nat, |k: int| k));
    }
    assert(changed_log(ids, kind, rows, applied, n) =~= all.filter(
        |k: int|
            rows[k] is Some && applied[k] && match kind {
                ChangeKind::MarkRead(seen) => rows[k]->0.flags.seen != seen,
                ChangeKind::Flag(flagged) => rows[k]->0.flags.flagged != flagged,
                ChangeKind::Move(target) => rows[k]->0.folder_id@ != target@,
                ChangeKind::Delete => true,
            },
    ).map_values(|k: int| (rows[k]->0.account_id@, ids[k])));
}

/// Every message that is known is archived with its account, in the order of
/// the request.
pub proof fn law_every_known_message_is_archived(
    ids: Seq<Seq<char>>,
    rows: Seq<Option<MessageRow>>,
    n: nat,
)
    ensures
        found_log(ids, rows, n) == Seq::new(n, |k: int| k).filter(
            |k: int| rows[k] is Some,
        ).map_values(|k: int| (rows[k]->0.account_id@, ids[k])),
    decreases n,
{
    reveal(Seq::filter);
    let all = Seq::new(n, |k: int| k);
    if n > 0 {
        law_every_known_message_is_archived(ids, rows, (n - 1) as nat);
        assert(all.drop_last() =~= Seq::new((n - 1) as nat, |k: int| k));
    }
    assert(found_log(ids, rows, n) =~= all.filter(|k: int| rows[k] is Some).map_values(
        |k: int| (rows[k]->0.account_id@, ids[k]),
    ));
}

/// What a change asks for is done here: a known message that is not as wanted
/// is changed as wanted, before the next one is looked up; any other is passed
/// over.
pub proof fn law_each_message_is_changed_as_asked(
    run: RunModel,
    row: MessageRow,
    ok: bool,
)
    requires
        0 <= run.at < run.ids.len(),
        run.account is None,
    ensures
        run.kind matches ChangeKind::MarkRead(seen) ==> (row.flags.seen != seen ==> replied(
            run,
            ChangeEvent::Found(Some(row)),
        ) == StepModel::Apply(
            run.ids[run.at],
            LocalChange::SetFlags(MessageFlags { seen, ..row.flags }),
        )),
        run.kind matches ChangeKind::Flag(flagged) ==> (row.flags.flagged != flagged ==> replied(
            run,
            ChangeEvent::Found(Some(row)),
        ) == StepModel::Apply(
            run.ids[run.at],
            LocalChange::SetFlags(MessageFlags { flagged, ..row.flags }),
        )),
        run.kind matches ChangeKind::Move(target) ==> (row.folder_id@ != target@ ==> replied(
            run,
            ChangeEvent::Found(Some(row)),
        ) == StepModel::Apply(run.ids[run.at], LocalChange::SetFolder(target))),
        run.kind is Delete ==> replied(run, ChangeEvent::Found(Some(row))) == StepModel::Apply(
            run.ids[run.at],
            LocalChange::Delete,
        ),
        run.at + 1 < run.ids.len() ==> replied(run, ChangeEvent::Found(None)) == StepModel::Load(
            run.ids[run.at + 1],
        ),
        run.at + 1 < run.ids.len() ==> replied(
            RunModel { account: Some(row.account_id@), ..run },
            ChangeEvent::Applied(ok),
        ) == StepModel::Load(run.ids[run.at + 1]),
        handled(
            RunModel { account: Some(row.account_id@), ..run },
            ChangeEvent::Applied(false),
        ).groups == run.groups,
{
}

/// The servers are told what was done here: the one flag is set or cleared and
/// no other is touched, the messages are moved to the same folder, or deleted.
pub proof fn law_servers_are_told_the_same(on: bool, target: FolderId)
    ensures
        wanted_action(ChangeKind::MarkRead(on)) == (GroupAction::SetFlags {
            set: MessageFlags { seen: on, flagged: false, answered: false, draft: false },
            cleared: MessageFlags { seen: !on, flagged: false, answered: false, draft: false },
        }),
        wanted_action(ChangeKind::Flag(on)) == (GroupAction::SetFlags {
            set: MessageFlags { seen: false, flagged: on, answered: false, draft: false },
            cleared: MessageFlags { seen: false, flagged: !on, answered: false, draft: false },
        }),
        wanted_action(ChangeKind::Move(target)) == GroupAction::Move(target),
        wanted_action(ChangeKind::Delete) == GroupAction::Delete,
{
}

/// A message that already is as asked is passed over, and the run ends once
/// everything is queued.
pub proof fn law_nothing_is_changed_twice(run: RunModel, row: MessageRow, event: ChangeEvent)
    ensures
        run.at >= run.ids.len() ==> replied(run, event) == StepModel::Done && handled(run, event)
            == run,
        ({
            let as_asked = match run.kind {
                ChangeKind::MarkRead(seen) => row.flags.seen == seen,
                ChangeKind::Flag(flagged) => row.flags.flagged == flagged,
                ChangeKind::Move(target) => row.folder_id@ == target@,
                ChangeKind::Delete => false,
            };
            0 <= run.at && run.at + 1 < run.ids.len() && run.account is None && as_asked ==> {
                &&& replied(run, ChangeEvent::Found(Some(row))) == StepModel::Load(
                    run.ids[run.at + 1],
                )
                &&& handled(run, ChangeEvent::Found(Some(row))) == (RunModel {
                    at: run.at + 1,
                    ..run
                })
            }
        }),
{
}

/// A run starts at its first message with nothing changed.
pub proof fn law_a_run_starts_at_its_first_message(ids: Seq<Seq<char>>, kind: ChangeKind)
    ensures
        run_start(ids, kind).ids == ids,
        run_start(ids, kind).kind == kind,
        run_start(ids, kind).at == 0,
        run_start(ids, kind).account is None,
        run_start(ids, kind).groups.len() == 0,
        ids.len() > 0 ==> asked(run_start(ids, kind)) == StepModel::Load(ids[0]),
{
}

} // verus!
