//! What is queued for the servers: one entry per account for each action.
use vstd::prelude::*;
use base64::Engine;

use crate::model;
use crate::model::{AccountId, FolderId, MessageFlags, MessageId, clone_message_ids};

verus! {

// ---------------------------------------------------------------------
// Grouping by account
// ---------------------------------------------------------------------

/// The messages of one account that an action touched.
#[derive(Debug, PartialEq, Eq)]
pub struct AccountGroup {
    pub account: AccountId,
    pub ids: Vec<MessageId>,
}

/// The contents of an [`AccountGroup`].
pub struct GroupModel {
    pub account: Seq<char>,
    pub ids: Seq<Seq<char>>,
}

impl View for AccountGroup {
    type V = GroupModel;

    open spec fn view(&self) -> GroupModel {
        GroupModel { account: self.account@, ids: model::message_ids(self.ids@) }
    }
}

/// The contents of a list of groups.
pub open spec fn groups_of(v: Seq<AccountGroup>) -> Seq<GroupModel> {
    v.map_values(|g: AccountGroup| g@)
}

/// The place of an account's group, or the number of groups.
pub open spec fn group_place(groups: Seq<GroupModel>, account: Seq<char>) -> int
    decreases groups.len(),
{
    if groups.len() == 0 || groups[0].account == account {
        0
    } else {
        1 + group_place(groups.drop_first(), account)
    }
}

/// The groups with one more message: it joins its account's group, or starts
/// one at the end.
pub open spec fn group_added(
    groups: Seq<GroupModel>,
    account: Seq<char>,
    id: Seq<char>,
) -> Seq<GroupModel> {
    let p = group_place(groups, account);
    if p < groups.len() {
        groups.update(p, GroupModel { account, ids: groups[p].ids.push(id) })
    } else {
        groups.push(GroupModel { account, ids: seq![id] })
    }
}

/// [`group_place`] is the least place of a group of the account.
pub proof fn lemma_group_place(groups: Seq<GroupModel>, account: Seq<char>, i: int)
    requires
        0 <= i <= groups.len(),
        forall|j: int| 0 <= j < i ==> (#[trigger] groups[j]).account != account,
        i < groups.len() ==> groups[i].account == account,
    ensures
        group_place(groups, account) == i,
    decreases groups.len(),
{
    if i > 0 {
        assert(groups[0].account != account);
        assert forall|j: int| 0 <= j < i - 1 implies (
        #[trigger] groups.drop_first()[j]).account != account by {
            assert(groups.drop_first()[j] == groups[j + 1]);
        }
        lemma_group_place(groups.drop_first(), account, i - 1);
    }
}

/// What [`group_place`] finds.
proof fn lemma_group_found(groups: Seq<GroupModel>, account: Seq<char>)
    ensures
        0 <= group_place(groups, account) <= groups.len(),
        group_place(groups, account) < groups.len() ==> groups[group_place(
            groups,
            account,
        )].account == account,
        forall|j: int|
            0 <= j < group_place(groups, account) ==> (#[trigger] groups[j]).account != account,
    decreases groups.len(),
{
    if groups.len() > 0 && groups[0].account != account {
        lemma_group_found(groups.drop_first(), account);
        assert forall|j: int| 0 <= j < group_place(groups, account) implies (
        #[trigger] groups[j]).account != account by {
            if j > 0 {
                assert(groups.drop_first()[j - 1] == groups[j]);
            }
        }
    }
}

/// The messages that an action touched, by account.
#[derive(Debug)]
pub struct AccountGroups {
    pub groups: Vec<AccountGroup>,
}

impl View for AccountGroups {
    type V = Seq<GroupModel>;

    open spec fn view(&self) -> Seq<GroupModel> {
        groups_of(self.groups@)
    }
}

impl AccountGroups {
    /// Nothing was touched yet.
    pub fn new() -> (r: AccountGroups)
        ensures
            r@ == Seq::<GroupModel>::empty(),
    {
        let r = AccountGroups { groups: Vec::new() };
        assert(r@ =~= Seq::<GroupModel>::empty());
        r
    }

    /// The message `id` of `account` was touched.
    pub fn add_message(&mut self, account: &AccountId, id: &MessageId)
        ensures
            final(self)@ == group_added(old(self)@, account@, id@),
    {
        let ghost before = self@;
        let mut i: usize = 0;
        while i < self.groups.len() && !self.groups[i].account.same(account)
            invariant
                i <= self.groups@.len(),
                before == groups_of(self.groups@),
                forall|j: int| 0 <= j < i ==> (#[trigger] before[j]).account != account@,
            decreases self.groups@.len() - i,
        {
            assert(before[i as int] == self.groups@[i as int]@);
            i = i + 1;
        }
        proof {
            if i < self.groups@.len() {
                assert(before[i as int] == self.groups@[i as int]@);
            }
            lemma_group_place(before, account@, i as int);
        }
        if i < self.groups.len() {
            let mut ids = clone_message_ids(&self.groups[i].ids);
            let ghost held = model::message_ids(ids@);
            ids.push(id.clone());
            assert(model::message_ids(ids@) =~= held.push(id@));
            let account = self.groups[i].account.clone();
            self.groups.set(i, AccountGroup { account, ids });
        } else {
            let mut ids: Vec<MessageId> = Vec::new();
            ids.push(id.clone());
            assert(model::message_ids(ids@) =~= seq![id@]);
            self.groups.push(AccountGroup { account: account.clone(), ids });
        }
        assert(self@ =~= group_added(before, account@, id@));
    }
}

/// The groups after the messages of `log`, pairs of account and message, were
/// touched in order.
pub open spec fn grouped(log: Seq<(Seq<char>, Seq<char>)>) -> Seq<GroupModel>
    decreases log.len(),
{
    if log.len() == 0 {
        Seq::empty()
    } else {
        group_added(grouped(log.drop_last()), log.last().0, log.last().1)
    }
}

/// The messages of one account in `log`, in order.
pub open spec fn touched_of(log: Seq<(Seq<char>, Seq<char>)>, account: Seq<char>) -> Seq<Seq<char>>
    decreases log.len(),
{
    if log.len() == 0 {
        Seq::empty()
    } else if log.last().0 == account {
        touched_of(log.drop_last(), account).push(log.last().1)
    } else {
        touched_of(log.drop_last(), account)
    }
}

/// Each account that was touched has one group, which holds its messages in
/// the order in which they were touched.
pub proof fn law_one_group_per_account(log: Seq<(Seq<char>, Seq<char>)>)
    ensures
        forall|i: int, j: int|
            0 <= i < j < grouped(log).len() ==> (#[trigger] grouped(log)[i]).account != (
            #[trigger] grouped(log)[j]).account,
        forall|i: int|
            0 <= i < grouped(log).len() ==> (#[trigger] grouped(log)[i]).ids == touched_of(
                log,
                grouped(log)[i].account,
            ) && grouped(log)[i].ids.len() > 0,
        forall|a: Seq<char>|
            (#[trigger] touched_of(log, a)).len() > 0 ==> group_place(grouped(log), a) < grouped(
                log,
            ).len(),
    decreases log.len(),
{
    if log.len() > 0 {
        let init = log.drop_last();
        law_one_group_per_account(init);
        let before = grouped(init);
        let after = grouped(log);
        let a = log.last().0;
        lemma_group_found(before, a);
        let p = group_place(before, a);
        if p == before.len() {
            assert(touched_of(init, a).len() == 0);
            assert(touched_of(log, a) =~= seq![log.last().1]);
        }
        assert forall|i: int, j: int| 0 <= i < j < after.len() implies (
        #[trigger] after[i]).account != (#[trigger] after[j]).account by {
            if j < before.len() {
                assert(before[i].account != before[j].account);
            }
        }
        assert forall|i: int| 0 <= i < after.len() implies (#[trigger] after[i]).ids == touched_of(
            log,
            after[i].account,
        ) && after[i].ids.len() > 0 by {
            if i < before.len() {
                assert(before[i].ids == touched_of(init, before[i].account));
                if i != p {
                    if i < p {
                        assert(before[i].account != a);
                    } else {
                        assert(before[p].account != before[i].account);
                    }
                }
            }
        }
        assert forall|b: Seq<char>| (#[trigger] touched_of(log, b)).len() > 0 implies group_place(
            after,
            b,
        ) < after.len() by {
            lemma_group_found(after, b);
            if b == a {
                if p < before.len() {
                    assert(after[p].account == b);
                } else {
                    assert(after[before.len() as int].account == b);
                }
            } else {
                assert(touched_of(init, b).len() > 0);
                lemma_group_found(before, b);
                let k = group_place(before, b);
                assert(after[k].account == before[k].account);
            }
        }
    }
}

// ---------------------------------------------------------------------
// Queue entries
// ---------------------------------------------------------------------

/// What an entry asks a server to do.
#[derive(Debug, PartialEq, Eq)]
pub enum OutboxPayload {
    UpdateFlags { ids: Vec<MessageId>, set: MessageFlags, cleared: MessageFlags },
    MoveMessages { ids: Vec<MessageId>, target: FolderId },
    DeleteMessages { ids: Vec<MessageId> },
}

/// An entry of the queue.
#[derive(Debug, PartialEq, Eq)]
pub struct OutboxEntry {
    pub account: AccountId,
    pub payload: OutboxPayload,
}

/// The contents of an [`OutboxPayload`].
pub enum PayloadModel {
    UpdateFlags { ids: Seq<Seq<char>>, set: MessageFlags, cleared: MessageFlags },
    MoveMessages { ids: Seq<Seq<char>>, target: Seq<char> },
    DeleteMessages { ids: Seq<Seq<char>> },
}

impl View for OutboxPayload {
    type V = PayloadModel;

    open spec fn view(&self) -> PayloadModel {
        match self {
            OutboxPayload::UpdateFlags { ids, set, cleared } => PayloadModel::UpdateFlags {
                ids: model::message_ids(ids@),
                set: *set,
                cleared: *cleared,
            },
            OutboxPayload::MoveMessages { ids, target } => PayloadModel::MoveMessages {
                ids: model::message_ids(ids@),
                target: target@,
            },
            OutboxPayload::DeleteMessages { ids } => PayloadModel::DeleteMessages {
                ids: model::message_ids(ids@),
            },
        }
    }
}

impl View for OutboxEntry {
    type V = (Seq<char>, PayloadModel);

    open spec fn view(&self) -> (Seq<char>, PayloadModel) {
        (self.account@, self.payload@)
    }
}

/// The contents of a list of entries.
pub open spec fn outbox_of(v: Seq<OutboxEntry>) -> Seq<(Seq<char>, PayloadModel)> {
    v.map_values(|e: OutboxEntry| e@)
}

impl OutboxPayload {
    /// The name under which the queue keeps the action.
    pub fn op_name(&self) -> (r: &'static str)
        ensures
            r@ == match self@ {
                PayloadModel::UpdateFlags { .. } => "update_flags"@,
                PayloadModel::MoveMessages { .. } => "move_messages"@,
                PayloadModel::DeleteMessages { .. } => "delete_messages"@,
            },
    {
        match self {
            OutboxPayload::UpdateFlags { .. } => "update_flags",
            OutboxPayload::MoveMessages { .. } => "move_messages",
            OutboxPayload::DeleteMessages { .. } => "delete_messages",
        }
    }
}

/// What is done with every message of a group.
#[derive(Debug, PartialEq, Eq)]
pub enum GroupAction {
    SetFlags { set: MessageFlags, cleared: MessageFlags },
    Move(FolderId),
    Delete,
}

/// The entry that does `action` with a group.
pub open spec fn entry_for(g: GroupModel, action: GroupAction) -> (Seq<char>, PayloadModel) {
    (
        g.account,
        match action {
            GroupAction::SetFlags { set, cleared } => PayloadModel::UpdateFlags {
                ids: g.ids,
                set,
                cleared,
            },
            GroupAction::Move(target) => PayloadModel::MoveMessages { ids: g.ids, target: target@ },
            GroupAction::Delete => PayloadModel::DeleteMessages { ids: g.ids },
        },
    )
}

/// The entries that do `action` with every group: one for each account.
pub fn outbox_entries(groups: &AccountGroups, action: &GroupAction) -> (r: Vec<OutboxEntry>)
    ensures
        outbox_of(r@) == groups@.map_values(|g: GroupModel| entry_for(g, *action)),
{
    let mut r: Vec<OutboxEntry> = Vec::new();
    let mut i: usize = 0;
    while i < groups.groups.len()
        invariant
            i <= groups.groups@.len(),
            r@.len() == i,
            forall|j: int| 0 <= j < i ==> (#[trigger] r@[j])@ == entry_for(groups@[j], *action),
        decreases groups.groups@.len() - i,
    {
        let g = &groups.groups[i];
        let ids = clone_message_ids(&g.ids);
        let payload = match action {
            GroupAction::SetFlags { set, cleared } => OutboxPayload::UpdateFlags {
                ids,
                set: *set,
                cleared: *cleared,
            },
            GroupAction::Move(target) => OutboxPayload::MoveMessages {
                ids,
                target: target.clone(),
            },
            GroupAction::Delete => OutboxPayload::DeleteMessages { ids },
        };
        r.push(OutboxEntry { account: g.account.clone(), payload });
        i = i + 1;
    }
    assert(outbox_of(r@) =~= groups@.map_values(|g: GroupModel| entry_for(g, *action)));
    r
}

// ---------------------------------------------------------------------
// Message bytes in a queue entry
// ---------------------------------------------------------------------

/// What `base64`'s standard engine makes of bytes.
pub uninterp spec fn base64_text(bytes: Seq<u8>) -> Seq<char>;

/// `base64::engine::general_purpose::STANDARD.encode`: the text is a function
/// of the bytes.
#[verifier::external_body]
fn base64_encode(bytes: &Vec<u8>) -> (r: String)
    ensures
        r@ == base64_text(bytes@),
{
    base64::engine::general_purpose::STANDARD.encode(bytes)
}

/// A message in the form in which the queue keeps it: a reference and the
/// bytes as text. For a message that is sent, the reference is its message id;
/// for a draft, the draft's id, by which a newer version replaces it.
#[derive(Debug, PartialEq, Eq)]
pub struct RawMessage {
    pub reference: String,
    pub raw_b64: String,
}

/// The message `bytes` as the queue keeps it.
pub fn raw_message(reference: &String, bytes: &Vec<u8>) -> (r: RawMessage)
    ensures
        r.reference@ == reference@,
        r.raw_b64@ == base64_text(bytes@),
{
    RawMessage { reference: reference.clone(), raw_b64: base64_encode(bytes) }
}

/// Every message that was touched is in the group of its account, in the order
/// in which they were touched, and in no other group.
pub proof fn law_a_group_holds_what_was_touched(log: Seq<(Seq<char>, Seq<char>)>)
    ensures
        forall|i: int|
            0 <= i < grouped(log).len() ==> (#[trigger] grouped(log)[i]).ids == log.filter(
                |e: (Seq<char>, Seq<char>)| e.0 == grouped(log)[i].account,
            ).map_values(|e: (Seq<char>, Seq<char>)| e.1),
        forall|k: int|
            0 <= k < log.len() ==> exists|i: int|
                0 <= i < grouped(log).len() && (#[trigger] grouped(log)[i]).account == (
                #[trigger] log[k]).0 && grouped(log)[i].ids.contains(log[k].1),
{
    law_one_group_per_account(log);
    let groups = grouped(log);
    assert forall|i: int| 0 <= i < groups.len() implies (#[trigger] groups[i]).ids == log.filter(
        |e: (Seq<char>, Seq<char>)| e.0 == groups[i].account,
    ).map_values(|e: (Seq<char>, Seq<char>)| e.1) by {
        lemma_touched(log, groups[i].account);
    }
    assert forall|k: int| 0 <= k < log.len() implies exists|i: int|
        0 <= i < groups.len() && (#[trigger] groups[i]).account == (#[trigger] log[k]).0
            && groups[i].ids.contains(log[k].1) by {
        let a = log[k].0;
        let of = |e: (Seq<char>, Seq<char>)| e.0 == a;
        lemma_touched(log, a);
        log.lemma_filter_contains(of, k);
        let f = log.filter(of);
        let n = choose|n: int| 0 <= n < f.len() && f[n] == log[k];
        assert(touched_of(log, a)[n] == log[k].1);
        lemma_group_found(groups, a);
        let i = group_place(groups, a);
        assert(groups[i].account == a);
        assert(groups[i].ids[n] == log[k].1);
    }
}

/// [`touched_of`] picks the messages of an account.
proof fn lemma_touched(log: Seq<(Seq<char>, Seq<char>)>, account: Seq<char>)
    ensures
        touched_of(log, account) == log.filter(
            |e: (Seq<char>, Seq<char>)| e.0 == account,
        ).map_values(|e: (Seq<char>, Seq<char>)| e.1),
    decreases log.len(),
{
    reveal(Seq::filter);
    if log.len() > 0 {
        lemma_touched(log.drop_last(), account);
    }
    assert(touched_of(log, account) =~= log.filter(
        |e: (Seq<char>, Seq<char>)| e.0 == account,
    ).map_values(|e: (Seq<char>, Seq<char>)| e.1));
}

/// An entry is for the account of its group and names all its messages, and
/// asks for what was done.
pub proof fn law_an_entry_names_its_group(
    g: GroupModel,
    set: MessageFlags,
    cleared: MessageFlags,
    target: FolderId,
)
    ensures
        entry_for(g, GroupAction::SetFlags { set, cleared }) == (
            g.account,
            PayloadModel::UpdateFlags { ids: g.ids, set, cleared },
        ),
        entry_for(g, GroupAction::Move(target)) == (
            g.account,
            PayloadModel::MoveMessages { ids: g.ids, target: target@ },
        ),
        entry_for(g, GroupAction::Delete) == (
            g.account,
            PayloadModel::DeleteMessages { ids: g.ids },
        ),
{
}

/// Accounts come in the order in which they were first touched, and a touch
/// changes the group of its own account alone.
pub proof fn law_groups_keep_their_order(
    log: Seq<(Seq<char>, Seq<char>)>,
    account: Seq<char>,
    id: Seq<char>,
    i: int,
)
    requires
        0 <= i < grouped(log).len(),
    ensures
        ({
            let before = grouped(log);
            let after = grouped(log.push((account, id)));
            &&& after.len() >= before.len()
            &&& after[i].account == before[i].account
            &&& before[i].account != account ==> after[i] == before[i]
            &&& before[i].account == account ==> after.len() == before.len() && after[i].ids
                == before[i].ids.push(id)
            &&& (forall|j: int| 0 <= j < before.len() ==> (#[trigger] before[j]).account != account)
                ==> after == before.push(GroupModel { account, ids: seq![id] })
        }),
{
    let before = grouped(log);
    assert(log.push((account, id)).drop_last() =~= log);
    law_one_group_per_account(log);
    lemma_group_place_found(before, account);
    let p = group_place(before, account);
    if p < before.len() && before[i].account == account {
        assert(i == p) by {
            if i < p {
                assert(before[i].account != before[p].account);
            } else if p < i {
                assert(before[p].account != before[i].account);
            }
        }
    }
}

/// The place of an account is that of its first group, or behind them all.
proof fn lemma_group_place_found(groups: Seq<GroupModel>, account: Seq<char>)
    ensures
        0 <= group_place(groups, account) <= groups.len(),
        group_place(groups, account) < groups.len() ==> groups[group_place(
            groups,
            account,
        )].account == account,
        group_place(groups, account) == groups.len() ==> forall|j: int|
            0 <= j < groups.len() ==> (#[trigger] groups[j]).account != account,
    decreases groups.len(),
{
    if groups.len() > 0 && groups[0].account != account {
        let rest = groups.drop_first();
        lemma_group_place_found(rest, account);
        assert forall|j: int|
            group_place(groups, account) == groups.len() && 0 <= j < groups.len() implies (
        #[trigger] groups[j]).account != account by {
            if j > 0 {
                assert(groups[j] == rest[j - 1]);
            }
        }
    }
}

/// Entries and groups are kept in order, each with its account.
pub proof fn law_entries_are_kept(v: Seq<OutboxEntry>, g: Seq<AccountGroup>, i: int)
    ensures
        outbox_of(v).len() == v.len(),
        0 <= i < v.len() ==> outbox_of(v)[i] == (v[i].account@, v[i].payload@),
        groups_of(g).len() == g.len(),
        0 <= i < g.len() ==> groups_of(g)[i].account == g[i].account@ && groups_of(g)[i].ids
            == model::message_ids(g[i].ids@),
{
}

} // verus!
