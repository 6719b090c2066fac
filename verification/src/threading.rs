//! Adjacent messages of one conversation share a row of the message list.
use vstd::prelude::*;

use crate::model;
use crate::model::{HeadersModel, MessageHeaders, ThreadId};

verus! {

/// One row of the message list.
#[derive(Debug)]
pub enum MessageListItem {
    /// A message on its own.
    Single(MessageHeaders),
    /// Two or more neighbours of one conversation. `head` is the first of
    /// `members`, which keep their order.
    Thread { head: MessageHeaders, members: Vec<MessageHeaders> },
}

/// The contents of a [`MessageListItem`].
pub enum ItemModel {
    Single(HeadersModel),
    Thread { head: HeadersModel, members: Seq<HeadersModel> },
}

impl View for MessageListItem {
    type V = ItemModel;

    open spec fn view(&self) -> ItemModel {
        match self {
            MessageListItem::Single(m) => ItemModel::Single(m@),
            MessageListItem::Thread { head, members } => ItemModel::Thread {
                head: head@,
                members: model::headers_of(members@),
            },
        }
    }
}

/// The contents of a list of rows.
pub open spec fn items_of(v: Seq<MessageListItem>) -> Seq<ItemModel> {
    v.map_values(|i: MessageListItem| i@)
}

/// `a` and its successor `b` belong to one conversation. A message without a
/// conversation joins no other.
pub open spec fn joins(a: HeadersModel, b: HeadersModel) -> bool {
    b.thread_id is Some && a.thread_id == b.thread_id
}

/// The maximal runs of neighbours that join.
pub open spec fn runs(s: Seq<HeadersModel>) -> Seq<Seq<HeadersModel>>
    decreases s.len(),
{
    if s.len() == 0 {
        Seq::empty()
    } else {
        let before = runs(s.drop_last());
        let m = s.last();
        if before.len() > 0 && before.last().len() > 0 && joins(before.last().last(), m) {
            before.drop_last().push(before.last().push(m))
        } else {
            before.push(seq![m])
        }
    }
}

/// The row that shows a run.
pub open spec fn row_of(run: Seq<HeadersModel>) -> ItemModel {
    if run.len() == 1 {
        ItemModel::Single(run[0])
    } else {
        ItemModel::Thread { head: run[0], members: run }
    }
}

/// The rows that show the messages `s`.
pub open spec fn rows_of(s: Seq<HeadersModel>) -> Seq<ItemModel> {
    runs(s).map_values(|r: Seq<HeadersModel>| row_of(r))
}

/// No run is empty.
pub proof fn lemma_runs_not_empty(s: Seq<HeadersModel>)
    ensures
        s.len() > 0 ==> runs(s).len() > 0,
        forall|i: int| 0 <= i < runs(s).len() ==> (#[trigger] runs(s)[i]).len() > 0,
    decreases s.len(),
{
    if s.len() > 0 {
        lemma_runs_not_empty(s.drop_last());
        let before = runs(s.drop_last());
        assert forall|i: int| 0 <= i < runs(s).len() implies (#[trigger] runs(s)[i]).len() > 0 by {
            if i < before.len() {
                assert(before[i].len() > 0);
            }
        }
    }
}

/// The messages that a row shows.
pub open spec fn members_of(row: ItemModel) -> Seq<HeadersModel> {
    match row {
        ItemModel::Single(m) => seq![m],
        ItemModel::Thread { head, members } => members,
    }
}

/// The messages that rows show, in order.
pub open spec fn shown_by(rows: Seq<ItemModel>) -> Seq<HeadersModel>
    decreases rows.len(),
{
    if rows.len() == 0 {
        Seq::empty()
    } else {
        shown_by(rows.drop_last()) + members_of(rows.last())
    }
}

/// Grouping loses, adds and reorders nothing: the rows show the page's
/// messages, each once, in the page's order.
pub proof fn law_grouping_keeps_the_page(s: Seq<HeadersModel>)
    ensures
        shown_by(rows_of(s)) == s,
    decreases s.len(),
{
    if s.len() > 0 {
        law_grouping_keeps_the_page(s.drop_last());
        lemma_runs_not_empty(s.drop_last());
        lemma_runs_not_empty(s);
        let before = runs(s.drop_last());
        let m = s.last();
        assert(rows_of(s).last() == row_of(runs(s).last()));
        assert(members_of(row_of(runs(s).last())) =~= runs(s).last());
        if before.len() > 0 && joins(before.last().last(), m) {
            assert(rows_of(s).drop_last() =~= rows_of(s.drop_last()).drop_last());
            assert(members_of(rows_of(s.drop_last()).last()) =~= before.last());
            let init = shown_by(rows_of(s.drop_last()).drop_last());
            assert(s.drop_last() == init + before.last());
            assert(shown_by(rows_of(s)) == init + before.last().push(m));
            assert(init + before.last().push(m) =~= (init + before.last()).push(m));
            assert(s =~= s.drop_last().push(m));
        } else {
            assert(runs(s).last() =~= seq![m]);
            assert(rows_of(s).drop_last() =~= rows_of(s.drop_last()));
            assert(shown_by(rows_of(s)) == s.drop_last() + seq![m]);
            assert(shown_by(rows_of(s)) =~= s);
        }
    } else {
        assert(rows_of(s) =~= Seq::<ItemModel>::empty());
    }
}

/// A thread row shows two or more messages of one conversation, the first of
/// which is its head.
pub proof fn law_thread_rows(s: Seq<HeadersModel>, i: int)
    requires
        0 <= i < rows_of(s).len(),
    ensures
        rows_of(s)[i] matches ItemModel::Thread { head, members } ==> {
            &&& members.len() >= 2
            &&& members[0] == head
            &&& head.thread_id is Some
            &&& forall|j: int|
                0 <= j < members.len() ==> (#[trigger] members[j]).thread_id == head.thread_id
        },
    decreases s.len(),
{
    lemma_runs_not_empty(s);
    let before = runs(s.drop_last());
    let m = s.last();
    if i < before.len() {
        law_thread_rows(s.drop_last(), i);
        lemma_runs_not_empty(s.drop_last());
        if i < before.len() - 1 || !joins(before.last().last(), m) {
            assert(runs(s)[i] == before[i]);
        } else {
            let run = before.last();
            assert(rows_of(s.drop_last())[i] == row_of(run));
            assert(runs(s)[i] == run.push(m));
            assert(run.len() == 1 || run.len() >= 2);
        }
    }
}

/// Two rows that stand one after the other are of different conversations, or
/// one of them has none: the last message of the one and the first of the other
/// are not of one conversation.
pub proof fn law_rows_are_maximal(s: Seq<HeadersModel>, i: int)
    requires
        0 <= i < rows_of(s).len() - 1,
    ensures
        !joins(members_of(rows_of(s)[i]).last(), members_of(rows_of(s)[i + 1])[0]),
        ({
            let above = match rows_of(s)[i] {
                ItemModel::Single(m) => m,
                ItemModel::Thread { head, members } => members[members.len() - 1],
            };
            let below = match rows_of(s)[i + 1] {
                ItemModel::Single(m) => m,
                ItemModel::Thread { head, members } => members[0],
            };
            above.thread_id is None || above.thread_id != below.thread_id
        }),
    decreases s.len(),
{
    lemma_runs_not_empty(s);
    lemma_runs_not_empty(s.drop_last());
    let before = runs(s.drop_last());
    let m = s.last();
    let joined_now = before.len() > 0 && joins(before.last().last(), m);
    assert(members_of(row_of(runs(s)[i])) =~= runs(s)[i]);
    assert(members_of(row_of(runs(s)[i + 1])) =~= runs(s)[i + 1]);
    if i + 1 < before.len() {
        law_rows_are_maximal(s.drop_last(), i);
        assert(members_of(row_of(before[i])) =~= before[i]);
        assert(members_of(row_of(before[i + 1])) =~= before[i + 1]);
        assert(runs(s)[i] == before[i]);
        assert(runs(s)[i + 1][0] == before[i + 1][0]);
    } else {
        assert(!joined_now);
        assert(runs(s)[i] == before.last());
    }
}

/// Are both the same conversation, and is it one at all?
fn same_conversation(a: &Option<ThreadId>, b: &Option<ThreadId>) -> (r: bool)
    ensures
        r == (model::opt_thread(*b) is Some && model::opt_thread(*a) == model::opt_thread(*b)),
{
    match (a, b) {
        (Some(x), Some(y)) => x.same(y),
        _ => false,
    }
}

/// Ends the run in `buf`, which then is empty, and shows it as a row of `out`.
fn flush_group(out: &mut Vec<MessageListItem>, buf: &mut Vec<MessageHeaders>)
    ensures
        final(buf)@.len() == 0,
        items_of(final(out)@) == if old(buf)@.len() == 0 {
            items_of(old(out)@)
        } else {
            items_of(old(out)@).push(row_of(model::headers_of(old(buf)@)))
        },
{
    let ghost o = out@;
    if buf.len() == 0 {
        return;
    }
    if buf.len() == 1 {
        let m = buf.remove(0);
        out.push(MessageListItem::Single(m));
    } else {
        let mut group: Vec<MessageHeaders> = Vec::new();
        core::mem::swap(&mut group, buf);
        let head = group[0].clone();
        out.push(MessageListItem::Thread { head, members: group });
    }
    assert(items_of(out@) =~= items_of(o).push(row_of(model::headers_of(old(buf)@))));
}

/// Rolls up neighbours of one conversation. Messages without a conversation
/// stay on their own, and messages of one conversation with another message
/// between them are not joined.
pub fn group_by_thread(messages: Vec<MessageHeaders>) -> (r: Vec<MessageListItem>)
    ensures
        items_of(r@) == rows_of(model::headers_of(messages@)),
{
    let ghost all = model::headers_of(messages@);
    let mut out: Vec<MessageListItem> = Vec::with_capacity(messages.len());
    let mut buf: Vec<MessageHeaders> = Vec::new();
    let mut current: Option<ThreadId> = None;
    for m in it: messages
        invariant
            all == model::headers_of(it.seq()),
            buf@.len() == 0 <==> it.index() == 0,
            items_of(out@) == rows_of(all.take(it.index())).take(
                if it.index() == 0 {
                    0
                } else {
                    runs(all.take(it.index())).len() - 1
                },
            ),
            it.index() == 0 ==> current is None,
            it.index() > 0 ==> {
                &&& runs(all.take(it.index())).len() > 0
                &&& model::headers_of(buf@) == runs(all.take(it.index())).last()
                &&& model::opt_thread(current) == model::headers_of(buf@).last().thread_id
            },
    {
        let ghost k = it.index();
        let ghost before = runs(all.take(k));
        let ghost rows0 = rows_of(all.take(k));
        assert(all.take(k + 1).drop_last() =~= all.take(k));
        assert(all.take(k + 1).last() == m@);
        let extends = same_conversation(&current, &m.thread_id);
        if !extends {
            flush_group(&mut out, &mut buf);
            proof {
                if k > 0 {
                    assert(rows0.take(before.len() as int) =~= rows0.take(before.len() - 1).push(
                        row_of(before.last()),
                    ));
                }
            }
            current = m.thread_id.clone();
        } else {
            assert(k > 0);
        }
        let ghost held = buf@;
        buf.push(m);
        proof {
            assert(model::headers_of(buf@) =~= model::headers_of(held).push(m@));
            let now = runs(all.take(k + 1));
            if extends {
                assert(now =~= before.drop_last().push(before.last().push(m@)));
                assert(rows_of(all.take(k + 1)).take(now.len() - 1) =~= rows0.take(
                    before.len() - 1,
                ));
            } else {
                assert(k > 0 ==> !joins(before.last().last(), m@));
                assert(now =~= before.push(seq![m@]));
                assert(rows_of(all.take(k + 1)).take(now.len() - 1) =~= rows0.take(
                    before.len() as int,
                ));
                assert(model::headers_of(buf@) =~= seq![m@]);
            }
        }
    }
    flush_group(&mut out, &mut buf);
    proof {
        assert(all.take(all.len() as int) =~= all);
        if all.len() > 0 {
            let n = runs(all).len();
            assert(rows_of(all) =~= rows_of(all).take(n - 1).push(row_of(runs(all).last())));
        } else {
            assert(items_of(out@) =~= rows_of(all));
        }
    }
    out
}

/// Rows are kept in order.
pub proof fn law_rows_keep_their_order(v: Seq<MessageListItem>, i: int)
    requires
        0 <= i < v.len(),
    ensures
        items_of(v).len() == v.len(),
        items_of(v)[i] == v[i]@,
{
}

} // verus!
