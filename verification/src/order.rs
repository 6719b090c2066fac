//! Ordering by keys. A stable sort is stated as the one arrangement in which
//! items come by key, and items with equal keys in their original order.
use vstd::prelude::*;

use crate::model::Folder;
use crate::text::chars_of;

verus! {

/// `a` comes before `b`, character by character.
pub open spec fn text_lt(a: Seq<char>, b: Seq<char>) -> bool
    decreases a.len(),
{
    if b.len() == 0 {
        false
    } else if a.len() == 0 {
        true
    } else if a[0] != b[0] {
        a[0] < b[0]
    } else {
        text_lt(a.drop_first(), b.drop_first())
    }
}

/// No text comes before itself.
proof fn lemma_text_irreflexive(a: Seq<char>)
    ensures
        !text_lt(a, a),
    decreases a.len(),
{
    if a.len() > 0 {
        lemma_text_irreflexive(a.drop_first());
    }
}

/// The order of texts is transitive.
proof fn lemma_text_transitive(a: Seq<char>, b: Seq<char>, c: Seq<char>)
    requires
        text_lt(a, b),
        text_lt(b, c),
    ensures
        text_lt(a, c),
    decreases a.len(),
{
    if a.len() > 0 && a[0] == b[0] && b[0] == c[0] {
        lemma_text_transitive(a.drop_first(), b.drop_first(), c.drop_first());
    }
}

/// Of two different texts one comes before the other.
proof fn lemma_text_total(a: Seq<char>, b: Seq<char>)
    ensures
        text_lt(a, b) || text_lt(b, a) || a == b,
    decreases a.len(),
{
    if a.len() > 0 && b.len() > 0 && a[0] == b[0] {
        lemma_text_total(a.drop_first(), b.drop_first());
        if a.drop_first() == b.drop_first() {
            assert(a =~= seq![a[0]] + a.drop_first());
            assert(b =~= seq![b[0]] + b.drop_first());
        }
    } else if a.len() == 0 && b.len() == 0 {
        assert(a =~= b);
    }
}

/// Does `a` come before `b`?
pub fn text_less(a: &str, b: &str) -> (r: bool)
    ensures
        r == text_lt(a@, b@),
{
    let x = chars_of(a);
    let y = chars_of(b);
    let mut i: usize = 0;
    assert(x@.skip(0) =~= a@);
    assert(y@.skip(0) =~= b@);
    while i < x.len() && i < y.len()
        invariant
            i <= x@.len(),
            i <= y@.len(),
            text_lt(a@, b@) == text_lt(x@.skip(i as int), y@.skip(i as int)),
        decreases x@.len() - i,
    {
        let ghost s = x@.skip(i as int);
        let ghost t = y@.skip(i as int);
        assert(s[0] == x@[i as int] && t[0] == y@[i as int]);
        if x[i] != y[i] {
            return x[i] < y[i];
        }
        assert(s.drop_first() =~= x@.skip(i + 1));
        assert(t.drop_first() =~= y@.skip(i + 1));
        i = i + 1;
    }
    i < y.len()
}

/// What items are ordered by: first a band, then a text.
#[derive(Debug, PartialEq, Eq)]
pub struct SortKey {
    pub band: u32,
    pub text: String,
}

impl View for SortKey {
    type V = (u32, Seq<char>);

    open spec fn view(&self) -> (u32, Seq<char>) {
        (self.band, self.text@)
    }
}

/// The contents of a list of keys.
pub open spec fn keys_of(v: Seq<SortKey>) -> Seq<(u32, Seq<char>)> {
    v.map_values(|k: SortKey| k@)
}

/// The key `a` comes before the key `b`.
pub open spec fn key_lt(a: (u32, Seq<char>), b: (u32, Seq<char>)) -> bool {
    a.0 < b.0 || (a.0 == b.0 && text_lt(a.1, b.1))
}

/// The item at `a` comes before the item at `b`: by key, and with equal keys
/// in their original order.
pub open spec fn item_before(keys: Seq<(u32, Seq<char>)>, a: int, b: int) -> bool {
    key_lt(keys[a], keys[b]) || (keys[a] == keys[b] && a < b)
}

/// `p` lists the places of all items, in the order of a stable sort.
pub open spec fn is_stable_order(keys: Seq<(u32, Seq<char>)>, p: Seq<int>) -> bool {
    &&& p.len() == keys.len()
    &&& forall|i: int| 0 <= i < p.len() ==> 0 <= #[trigger] p[i] < keys.len()
    &&& forall|x: int| 0 <= x < keys.len() ==> #[trigger] p.contains(x)
    &&& forall|i: int, j: int|
        0 <= i < j < p.len() ==> item_before(keys, #[trigger] p[i], #[trigger] p[j])
}

/// The items in the order `p`.
pub open spec fn arranged<T>(items: Seq<T>, p: Seq<int>) -> Seq<T> {
    Seq::new(p.len(), |i: int| items[p[i]])
}

/// No item comes before itself, and not both before and after another.
proof fn lemma_item_before_asymmetric(keys: Seq<(u32, Seq<char>)>, a: int, b: int)
    requires
        item_before(keys, a, b),
    ensures
        !item_before(keys, b, a),
        a != b,
{
    lemma_text_irreflexive(keys[a].1);
    if text_lt(keys[a].1, keys[b].1) && text_lt(keys[b].1, keys[a].1) {
        lemma_text_transitive(keys[a].1, keys[b].1, keys[a].1);
    }
}

/// There is one stable order only.
pub proof fn law_stable_order_is_unique(keys: Seq<(u32, Seq<char>)>, p: Seq<int>, q: Seq<int>)
    requires
        is_stable_order(keys, p),
        is_stable_order(keys, q),
    ensures
        p == q,
{
    assert forall|i: int| 0 <= i < p.len() implies p[i] == q[i] by {
        lemma_orders_agree(keys, p, q, i);
    }
    assert(p =~= q);
}

/// Two stable orders agree at `i`, and before it.
proof fn lemma_orders_agree(keys: Seq<(u32, Seq<char>)>, p: Seq<int>, q: Seq<int>, i: int)
    requires
        is_stable_order(keys, p),
        is_stable_order(keys, q),
        0 <= i < p.len(),
    ensures
        forall|j: int| 0 <= j <= i ==> p[j] == q[j],
    decreases i,
{
    if i > 0 {
        lemma_orders_agree(keys, p, q, i - 1);
    }
    if p[i] != q[i] {
        assert(q.contains(p[i]));
        assert(p.contains(q[i]));
        let j = choose|j: int| 0 <= j < q.len() && q[j] == p[i];
        let k = choose|k: int| 0 <= k < p.len() && p[k] == q[i];
        if j < i {
            assert(p[j] == q[j]);
            assert(item_before(keys, p[j], p[i]));
            lemma_item_before_asymmetric(keys, p[j], p[i]);
        } else if k < i {
            assert(p[k] == q[k]);
            assert(item_before(keys, q[k], q[i]));
            lemma_item_before_asymmetric(keys, q[k], q[i]);
        } else {
            assert(item_before(keys, q[i], q[j]));
            assert(item_before(keys, p[i], p[k]));
            lemma_item_before_asymmetric(keys, q[i], q[j]);
        }
        assert(false);
    }
}

/// What does not come after `b`, which does not come after `c`, does not come
/// after `c`.
proof fn lemma_not_after(a: (u32, Seq<char>), b: (u32, Seq<char>), c: (u32, Seq<char>))
    requires
        key_lt(a, b) || a == b,
        !key_lt(c, b),
    ensures
        key_lt(a, c) || a == c,
{
    lemma_text_total(b.1, c.1);
    if b.0 == c.0 && a.0 == b.0 && text_lt(a.1, b.1) && text_lt(b.1, c.1) {
        lemma_text_transitive(a.1, b.1, c.1);
    }
}

/// Does the key `a` come before the key `b`?
fn key_less(a: &SortKey, b: &SortKey) -> (r: bool)
    ensures
        r == key_lt(a@, b@),
{
    if a.band < b.band {
        true
    } else if a.band == b.band {
        text_less(&a.text, &b.text)
    } else {
        false
    }
}

/// The places `v` as mathematical numbers.
pub open spec fn places(v: Seq<usize>) -> Seq<int> {
    v.map_values(|x: usize| x as int)
}

/// The order of a stable sort by `keys`.
pub fn stable_order(keys: &Vec<SortKey>) -> (r: Vec<usize>)
    ensures
        is_stable_order(keys_of(keys@), places(r@)),
{
    let ghost ks = keys_of(keys@);
    let mut r: Vec<usize> = Vec::new();
    let mut i: usize = 0;
    assert(ks.take(0) =~= Seq::<(u32, Seq<char>)>::empty());
    while i < keys.len()
        invariant
            i <= keys@.len(),
            ks == keys_of(keys@),
            is_stable_order(ks.take(i as int), places(r@)),
        decreases keys@.len() - i,
    {
        let ghost p = places(r@);
        let ghost sofar = ks.take(i as int);
        assert forall|k: int| 0 <= k < r@.len() implies #[trigger] r@[k] < i by {
            assert(0 <= p[k] < sofar.len());
        }
        let mut pos: usize = r.len();
        while pos > 0 && key_less(&keys[i], &keys[r[pos - 1]])
            invariant
                pos <= r@.len(),
                i < keys@.len(),
                ks == keys_of(keys@),
                sofar == ks.take(i as int),
                p == places(r@),
                is_stable_order(sofar, p),
                forall|k: int| pos <= k < p.len() ==> key_lt(ks[i as int], ks[#[trigger] p[k]]),
                forall|k: int| 0 <= k < r@.len() ==> #[trigger] r@[k] < i,
            decreases pos,
        {
            assert(p[pos - 1] == r@[pos - 1] as int);
            assert(ks[r@[pos - 1] as int] == keys@[r@[pos - 1] as int]@);
            assert(ks[i as int] == keys@[i as int]@);
            pos = pos - 1;
        }
        proof {
            if pos > 0 {
                assert(p[pos - 1] == r@[pos - 1] as int);
                assert(ks[r@[pos - 1] as int] == keys@[r@[pos - 1] as int]@);
                assert(ks[i as int] == keys@[i as int]@);
                assert(!key_lt(ks[i as int], ks[p[pos - 1]]));
            }
        }
        r.insert(pos, i);
        proof {
            let q = places(r@);
            assert(q =~= p.insert(pos as int, i as int));
            let next = ks.take(i + 1);
            assert forall|x: int| 0 <= x < next.len() implies #[trigger] q.contains(x) by {
                if x == i {
                    assert(q[pos as int] == x);
                } else {
                    assert(p.contains(x));
                    let k = choose|k: int| 0 <= k < p.len() && p[k] == x;
                    if k < pos {
                        assert(q[k] == x);
                    } else {
                        assert(q[k + 1] == x);
                    }
                }
            }
            assert forall|a: int| 0 <= a < q.len() implies 0 <= #[trigger] q[a] < next.len() by {
                if a < pos {
                    assert(q[a] == p[a]);
                } else if a > pos {
                    assert(q[a] == p[a - 1]);
                }
            }
            assert forall|a: int, b: int| 0 <= a < b < q.len() implies item_before(
                next,
                #[trigger] q[a],
                #[trigger] q[b],
            ) by {
                if b < pos {
                    assert(item_before(sofar, p[a], p[b]));
                } else if b == pos {
                    assert(q[a] == p[a]);
                    assert(0 <= p[a] < sofar.len());
                    if a < pos - 1 {
                        assert(item_before(sofar, p[a], p[pos - 1]));
                    }
                    lemma_not_after(ks[p[a]], ks[p[pos - 1]], ks[i as int]);
                } else if a == pos {
                    assert(q[b] == p[b - 1]);
                    assert(key_lt(ks[i as int], ks[p[b - 1]]));
                } else if a < pos {
                    assert(q[b] == p[b - 1]);
                    assert(item_before(sofar, p[a], p[b - 1]));
                } else {
                    assert(q[a] == p[a - 1] && q[b] == p[b - 1]);
                    assert(item_before(sofar, p[a - 1], p[b - 1]));
                }
            }
        }
        i = i + 1;
    }
    assert(ks.take(ks.len() as int) =~= ks);
    r
}

/// The folders in a given order.
pub fn arrange_folders(folders: &Vec<Folder>, order: &Vec<usize>) -> (r: Vec<Folder>)
    requires
        forall|i: int| 0 <= i < order@.len() ==> #[trigger] order@[i] < folders@.len(),
    ensures
        r@ == arranged(folders@, places(order@)),
{
    let mut r: Vec<Folder> = Vec::new();
    let mut i: usize = 0;
    while i < order.len()
        invariant
            i <= order@.len(),
            forall|j: int| 0 <= j < order@.len() ==> #[trigger] order@[j] < folders@.len(),
            r@.len() == i,
            forall|j: int| 0 <= j < i ==> #[trigger] r@[j] == folders@[order@[j] as int],
        decreases order@.len() - i,
    {
        r.push(folders[order[i]].clone());
        i = i + 1;
    }
    assert(r@ =~= arranged(folders@, places(order@)));
    r
}

/// `r` holds the folders, sorted by the keys at their places.
pub open spec fn sorted_by_keys(
    folders: Seq<Folder>,
    keys: Seq<(u32, Seq<char>)>,
    r: Seq<Folder>,
) -> bool {
    exists|p: Seq<int>| #[trigger] is_stable_order(keys, p) && r == arranged(folders, p)
}

/// The folders, sorted by the keys at their places.
pub fn sort_folders(folders: &Vec<Folder>, keys: &Vec<SortKey>) -> (r: Vec<Folder>)
    requires
        keys@.len() == folders@.len(),
    ensures
        sorted_by_keys(folders@, keys_of(keys@), r@),
        r@.len() == folders@.len(),
{
    let order = stable_order(keys);
    proof {
        let p = places(order@);
        assert forall|i: int| 0 <= i < order@.len() implies #[trigger] order@[i] < folders@.len() by {
            assert(0 <= p[i] < keys_of(keys@).len());
        }
    }
    arrange_folders(folders, &order)
}

/// Texts are ordered by the first character in which they differ; a text comes
/// before those that go on where it ends.
pub proof fn law_the_first_difference_decides(
    front: Seq<char>,
    a: char,
    b: char,
    s: Seq<char>,
    t: Seq<char>,
)
    ensures
        a != b ==> (text_lt(front.push(a) + s, front.push(b) + t) <==> a < b),
        text_lt(front, front.push(b) + t),
        !text_lt(front.push(b) + t, front),
        !text_lt(front, front),
    decreases front.len(),
{
    lemma_text_irreflexive(front);
    if front.len() > 0 {
        law_the_first_difference_decides(front.drop_first(), a, b, s, t);
        assert((front.push(a) + s).drop_first() =~= front.drop_first().push(a) + s);
        assert((front.push(b) + t).drop_first() =~= front.drop_first().push(b) + t);
    }
}

/// A sorted list holds what was there, each once, by number, then by text, and
/// else in the order in which it was.
pub proof fn law_sorting_keeps_everything(keys: Seq<(u32, Seq<char>)>, p: Seq<int>, i: int, j: int)
    requires
        is_stable_order(keys, p),
        0 <= i < j < p.len(),
    ensures
        p.len() == keys.len(),
        0 <= p[i] < keys.len(),
        p[i] != p[j],
        keys[p[i]].0 <= keys[p[j]].0,
        keys[p[i]].0 == keys[p[j]].0 ==> !text_lt(keys[p[j]].1, keys[p[i]].1),
        keys[p[i]] == keys[p[j]] ==> p[i] < p[j],
{
    assert(item_before(keys, p[i], p[j]));
    lemma_item_before_asymmetric(keys, p[i], p[j]);
    lemma_text_irreflexive(keys[p[i]].1);
}

/// Sorted folders are the given folders, each as often as before.
pub proof fn law_sorted_folders_are_the_same(
    folders: Seq<Folder>,
    keys: Seq<(u32, Seq<char>)>,
    r: Seq<Folder>,
) -> (p: Seq<int>)
    requires
        keys.len() == folders.len(),
        sorted_by_keys(folders, keys, r),
    ensures
        r.len() == folders.len(),
        p.len() == folders.len(),
        p.no_duplicates(),
        forall|i: int|
            0 <= i < p.len() ==> 0 <= #[trigger] p[i] < folders.len() && r[i] == folders[p[i]],
{
    let p = choose|p: Seq<int>| #[trigger] is_stable_order(keys, p) && r == arranged(folders, p);
    assert forall|i: int, j: int| 0 <= i < p.len() && 0 <= j < p.len() && i != j implies p[i]
        != p[j] by {
        if i < j {
            law_sorting_keeps_everything(keys, p, i, j);
        } else {
            law_sorting_keeps_everything(keys, p, j, i);
        }
    }
    p
}

} // verus!
