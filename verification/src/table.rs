//! A small table from keys to values, kept in a list. A key stands in it at
//! most once.
use vstd::prelude::*;

use crate::text::str_eq;

verus! {

/// A key that can be compared by its contents.
pub trait TableKey: View + Sized {
    /// Do both have the same contents?
    fn matches(&self, other: &Self) -> (r: bool)
        ensures
            r == (self@ == other@),
    ;
}

impl TableKey for String {
    fn matches(&self, other: &String) -> (r: bool) {
        str_eq(self.as_str(), other.as_str())
    }
}

/// A row of a table.
#[derive(Debug)]
pub struct Row<K, V> {
    pub key: K,
    pub value: V,
}

/// What the rows hold.
pub open spec fn rows_map<K: TableKey, T>(rows: Seq<Row<K, T>>) -> Map<<K as View>::V, T>
    decreases rows.len(),
{
    if rows.len() == 0 {
        Map::empty()
    } else {
        rows_map(rows.drop_last()).insert(rows.last().key@, rows.last().value)
    }
}

/// No key stands in two rows.
pub open spec fn rows_differ<K: TableKey, T>(rows: Seq<Row<K, T>>) -> bool {
    forall|i: int, j: int|
        0 <= i < j < rows.len() ==> (#[trigger] rows[i]).key@ != (#[trigger] rows[j]).key@
}

/// What [`rows_map`] holds.
proof fn lemma_rows<K: TableKey, T>(rows: Seq<Row<K, T>>)
    requires
        rows_differ(rows),
    ensures
        forall|i: int|
            0 <= i < rows.len() ==> rows_map(rows).dom().contains((#[trigger] rows[i]).key@)
                && rows_map(rows)[rows[i].key@] == rows[i].value,
        forall|k: <K as View>::V| #[trigger]
            rows_map(rows).dom().contains(k) ==> exists|i: int|
                0 <= i < rows.len() && (#[trigger] rows[i]).key@ == k,
    decreases rows.len(),
{
    if rows.len() > 0 {
        let init = rows.drop_last();
        assert(rows_differ(init)) by {
            assert forall|i: int, j: int| 0 <= i < j < init.len() implies (
            #[trigger] init[i]).key@ != (#[trigger] init[j]).key@ by {
                assert(rows[i].key@ != rows[j].key@);
            }
        }
        lemma_rows(init);
        assert forall|i: int| 0 <= i < rows.len() implies rows_map(rows).dom().contains(
            (#[trigger] rows[i]).key@,
        ) && rows_map(rows)[rows[i].key@] == rows[i].value by {
            if i < init.len() {
                assert(init[i] == rows[i]);
                assert(rows[i].key@ != rows[rows.len() - 1].key@);
            }
        }
        assert forall|k: <K as View>::V| #[trigger]
            rows_map(rows).dom().contains(k) implies exists|i: int|
            0 <= i < rows.len() && (#[trigger] rows[i]).key@ == k by {
            if k != rows.last().key@ {
                assert(rows_map(init).dom().contains(k));
                let i = choose|i: int| 0 <= i < init.len() && (#[trigger] init[i]).key@ == k;
                assert(rows[i].key@ == k);
            } else {
                assert(rows[rows.len() - 1].key@ == k);
            }
        }
    }
}

/// Rows that hold what a map holds, and nothing more, stand for it.
proof fn lemma_rows_are<K: TableKey, T>(rows: Seq<Row<K, T>>, m: Map<<K as View>::V, T>)
    requires
        rows_differ(rows),
        forall|i: int|
            0 <= i < rows.len() ==> m.dom().contains((#[trigger] rows[i]).key@)
                && m[rows[i].key@] == rows[i].value,
        forall|k: <K as View>::V| #[trigger]
            m.dom().contains(k) ==> exists|i: int|
                0 <= i < rows.len() && (#[trigger] rows[i]).key@ == k,
    ensures
        rows_map(rows) == m,
{
    lemma_rows(rows);
    let r = rows_map(rows);
    assert forall|k: <K as View>::V| #[trigger] r.dom().contains(k) <==> m.dom().contains(k) by {
        if r.dom().contains(k) {
            let i = choose|i: int| 0 <= i < rows.len() && (#[trigger] rows[i]).key@ == k;
            assert(m.dom().contains(rows[i].key@));
        }
        if m.dom().contains(k) {
            let i = choose|i: int| 0 <= i < rows.len() && (#[trigger] rows[i]).key@ == k;
            assert(r.dom().contains(rows[i].key@));
        }
    }
    assert forall|k: <K as View>::V| #[trigger] r.dom().contains(k) implies r[k] == m[k] by {
        let i = choose|i: int| 0 <= i < rows.len() && (#[trigger] rows[i]).key@ == k;
        assert(m[rows[i].key@] == rows[i].value);
    }
    assert(r =~= m);
}

/// A table from keys to values.
#[derive(Debug)]
pub struct Table<K: TableKey, V> {
    rows: Vec<Row<K, V>>,
}

impl<K: TableKey, T> View for Table<K, T> {
    type V = Map<<K as View>::V, T>;

    closed spec fn view(&self) -> Map<<K as View>::V, T> {
        rows_map(self.rows@)
    }
}

impl<K: TableKey, T> Table<K, T> {
    #[verifier::type_invariant]
    spec fn wf(self) -> bool {
        rows_differ(self.rows@)
    }

    /// An empty table.
    pub fn new() -> (r: Table<K, T>)
        ensures
            r@ == Map::<<K as View>::V, T>::empty(),
    {
        Table { rows: Vec::new() }
    }

    /// The place of `key`, or the number of rows.
    fn place(&self, key: &K) -> (r: usize)
        ensures
            r <= self.rows@.len(),
            r < self.rows@.len() ==> self.rows@[r as int].key@ == key@,
            r == self.rows@.len() ==> forall|i: int|
                0 <= i < self.rows@.len() ==> (#[trigger] self.rows@[i]).key@ != key@,
    {
        let mut i: usize = 0;
        while i < self.rows.len()
            invariant
                i <= self.rows@.len(),
                forall|j: int| 0 <= j < i ==> (#[trigger] self.rows@[j]).key@ != key@,
            decreases self.rows@.len() - i,
        {
            if self.rows[i].key.matches(key) {
                return i;
            }
            i = i + 1;
        }
        i
    }

    /// The value of `key`.
    pub fn get(&self, key: &K) -> (r: Option<&T>)
        ensures
            r == if self@.dom().contains(key@) {
                Some(&self@[key@])
            } else {
                None
            },
    {
        proof {
            use_type_invariant(self);
            lemma_rows(self.rows@);
        }
        let i: usize = self.place(key);
        if i < self.rows.len() {
            Some(&self.rows[i].value)
        } else {
            None
        }
    }

    /// Gives `key` a value, in place of the one it may have had.
    pub fn insert(&mut self, key: K, value: T)
        ensures
            final(self)@ == old(self)@.insert(key@, value),
    {
        proof {
            use_type_invariant(&*self);
            lemma_rows(self.rows@);
        }
        let ghost before = self.rows@;
        let ghost m = self@.insert(key@, value);
        let ghost k = key@;
        let i: usize = self.place(&key);
        let mut rows: Vec<Row<K, T>> = Vec::new();
        core::mem::swap(&mut rows, &mut self.rows);
        if i < rows.len() {
            rows.set(i, Row { key, value });
        } else {
            rows.push(Row { key, value });
        }
        proof {
            let after = rows@;
            assert(after[i as int].key@ == k);
            assert forall|a: int, b: int| 0 <= a < b < after.len() implies (
            #[trigger] after[a]).key@ != (#[trigger] after[b]).key@ by {
                if b < before.len() {
                    assert(before[a].key@ != before[b].key@);
                }
            }
            assert forall|a: int| 0 <= a < after.len() implies m.dom().contains(
                (#[trigger] after[a]).key@,
            ) && m[after[a].key@] == after[a].value by {
                if a != i {
                    assert(after[a] == before[a]);
                    if i < before.len() {
                        assert(before[a].key@ != before[i as int].key@);
                    }
                }
            }
            assert forall|x: <K as View>::V| #[trigger] m.dom().contains(x) implies exists|a: int|
                0 <= a < after.len() && (#[trigger] after[a]).key@ == x by {
                if x == k {
                    assert(after[i as int].key@ == x);
                } else {
                    let a = choose|a: int| 0 <= a < before.len() && (#[trigger] before[a]).key@ == x;
                    assert(after[a] == before[a]);
                    assert(after[a].key@ == x);
                }
            }
            lemma_rows_are(after, m);
        }
        self.rows = rows;
    }

    /// Takes every row out.
    pub fn drain(&mut self) -> (r: Vec<Row<K, T>>)
        ensures
            rows_map(r@) == old(self)@,
            rows_differ(r@),
            final(self)@ == Map::<<K as View>::V, T>::empty(),
    {
        proof {
            use_type_invariant(&*self);
        }
        let mut rows: Vec<Row<K, T>> = Vec::new();
        core::mem::swap(&mut rows, &mut self.rows);
        rows
    }

    /// Takes `key` out, and tells whether it was there.
    pub fn remove(&mut self, key: &K) -> (r: bool)
        ensures
            final(self)@ == old(self)@.remove(key@),
            r == old(self)@.dom().contains(key@),
    {
        proof {
            use_type_invariant(&*self);
            lemma_rows(self.rows@);
        }
        let ghost before = self.rows@;
        let ghost m = self@.remove(key@);
        let i: usize = self.place(key);
        let mut rows: Vec<Row<K, T>> = Vec::new();
        core::mem::swap(&mut rows, &mut self.rows);
        let found = i < rows.len();
        if found {
            rows.remove(i);
        }
        proof {
            let after = rows@;
            let n = if found {
                i as int
            } else {
                before.len() as int
            };
            assert forall|a: int| 0 <= a < after.len() implies #[trigger] after[a] == before[if a
                < n {
                a
            } else {
                a + 1
            }] by {}
            assert forall|a: int, b: int| 0 <= a < b < after.len() implies (
            #[trigger] after[a]).key@ != (#[trigger] after[b]).key@ by {
                let x = if a < n {
                    a
                } else {
                    a + 1
                };
                let y = if b < n {
                    b
                } else {
                    b + 1
                };
                assert(before[x].key@ != before[y].key@);
            }
            assert forall|a: int| 0 <= a < after.len() implies m.dom().contains(
                (#[trigger] after[a]).key@,
            ) && m[after[a].key@] == after[a].value by {
                let x = if a < n {
                    a
                } else {
                    a + 1
                };
                assert(after[a] == before[x]);
                if found {
                    if x < n {
                        assert(before[x].key@ != before[n].key@);
                    } else {
                        assert(before[n].key@ != before[x].key@);
                    }
                }
            }
            assert forall|k: <K as View>::V| #[trigger] m.dom().contains(k) implies exists|a: int|
                0 <= a < after.len() && (#[trigger] after[a]).key@ == k by {
                let x = choose|x: int| 0 <= x < before.len() && (#[trigger] before[x]).key@ == k;
                if x < n {
                    assert(after[x].key@ == k);
                } else {
                    assert(after[x - 1].key@ == k);
                }
            }
            lemma_rows_are(after, m);
        }
        self.rows = rows;
        found
    }
}

/// A table holds each of its rows under its key, and nothing else.
pub proof fn law_a_table_holds_its_rows<K: TableKey, T>(
    rows: Seq<Row<K, T>>,
    i: int,
    k: <K as View>::V,
)
    requires
        rows_differ(rows),
    ensures
        0 <= i < rows.len() ==> {
            &&& rows_map(rows).dom().contains(rows[i].key@)
            &&& rows_map(rows)[rows[i].key@] == rows[i].value
        },
        rows_map(rows).dom().contains(k) ==> exists|j: int|
            0 <= j < rows.len() && (#[trigger] rows[j]).key@ == k,
    decreases rows.len(),
{
    if rows.len() > 0 {
        let init = rows.drop_last();
        law_a_table_holds_its_rows(init, i, k);
        if rows_map(rows).dom().contains(k) {
            if k == rows.last().key@ {
                assert(rows[rows.len() - 1].key@ == k);
            } else {
                let j = choose|j: int| 0 <= j < init.len() && (#[trigger] init[j]).key@ == k;
                assert(rows[j].key@ == k);
            }
        }
        if 0 <= i < init.len() {
            assert(init[i].key@ != rows[rows.len() - 1].key@);
        }
    }
}

} // verus!
