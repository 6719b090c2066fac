//! Replies and forwards: subjects, recipients, references and quoted bodies.
use vstd::prelude::*;

use crate::addresses;
use crate::addresses::{format_addrs, label_of};
use crate::calendar;
use crate::calendar::format_utc;
use crate::model;
use crate::model::{
    Account, AccountId, AddressModel, DraftBodyKind, DraftInput, EmailAddress, HeadersModel,
    MessageHeaders, RenderedMessage, clone_addresses, clone_texts,
};
use crate::text;
use crate::text::{
    chars_of, eq_ignore_ascii_case, string_of, to_lowercase, trim, trim_start, whitespace,
};

verus! {

// ---------------------------------------------------------------------
// Subjects
// ---------------------------------------------------------------------

/// `s` starts with `prefix`, up to the case of ASCII letters.
pub open spec fn starts_ignoring_case(s: Seq<char>, prefix: Seq<char>) -> bool {
    prefix.len() <= s.len() && text::same_ignoring_ascii_case(s.take(prefix.len() as int), prefix)
}

/// See [`starts_ignoring_case`].
fn has_prefix(s: &str, prefix: &str) -> (r: bool)
    ensures
        r == starts_ignoring_case(s@, prefix@),
{
    let n = prefix.unicode_len();
    if n > s.unicode_len() {
        return false;
    }
    let head = s.substring_char(0, n);
    assert(head@ =~= s@.take(n as int));
    eq_ignore_ascii_case(head, prefix)
}

/// `s` is marked as a reply: it starts with `re` in any case, white space, if
/// any, and a colon at `k`.
pub open spec fn reply_mark_at(s: Seq<char>, k: int) -> bool {
    &&& 2 <= k < s.len()
    &&& starts_ignoring_case(s, "re"@)
    &&& s[k] == ':'
    &&& forall|j: int| 2 <= j < k ==> text::is_white(#[trigger] s[j])
}

/// `s` is marked as a reply.
pub open spec fn marked_as_reply(s: Seq<char>) -> bool {
    exists|k: int| reply_mark_at(s, k)
}

/// See [`marked_as_reply`].
fn has_reply_mark(s: &str) -> (r: bool)
    ensures
        r == marked_as_reply(s@),
{
    proof {
        reveal_strlit("re");
    }
    if !has_prefix(s, "re") {
        return false;
    }
    let v = chars_of(s);
    let mut k: usize = 2;
    while k < v.len() && whitespace(v[k])
        invariant
            v@ == s@,
            2 <= k <= v@.len(),
            forall|j: int| 2 <= j < k ==> text::is_white(#[trigger] s@[j]),
        decreases v@.len() - k,
    {
        k = k + 1;
    }
    if k < v.len() && v[k] == ':' {
        assert(reply_mark_at(s@, k as int));
        return true;
    }
    proof {
        if marked_as_reply(s@) {
            let m = choose|m: int| reply_mark_at(s@, m);
            if m < k {
                assert(text::is_white(s@[m]));
            } else {
                assert(k < v@.len());
                if m > k {
                    assert(text::is_white(s@[k as int]));
                }
            }
            assert(false);
        }
    }
    false
}

/// `s` is marked as a forward, with `fwd:` or `fw:` in any case.
pub open spec fn marked_as_forward(s: Seq<char>) -> bool {
    starts_ignoring_case(s, "fwd:"@) || starts_ignoring_case(s, "fw:"@)
}

/// The subject of a reply: a subject that is marked already stays as it is.
pub open spec fn subject_of_reply(original: Seq<char>) -> Seq<char> {
    if marked_as_reply(text::trimmed_start(original)) {
        original
    } else {
        "Re: "@ + text::trimmed_start(original)
    }
}

/// Adds a `Re: ` prefix unless one is there. `RE:`, `re:` and `Re :` count.
pub fn reply_subject(original: &str) -> (r: String)
    ensures
        r@ == subject_of_reply(original@),
{
    let t = trim_start(original);
    if has_reply_mark(&t) {
        original.to_owned()
    } else {
        let mut r = "Re: ".to_owned();
        r.append(&t);
        r
    }
}

/// The subject of a forward: a subject that is marked already stays as it is.
pub open spec fn subject_of_forward(original: Seq<char>) -> Seq<char> {
    if marked_as_forward(text::trimmed_start(original)) {
        original
    } else {
        "Fwd: "@ + text::trimmed_start(original)
    }
}

/// Adds a `Fwd: ` prefix unless `Fwd:` or `Fw:` is there.
pub fn forward_subject(original: &str) -> (r: String)
    ensures
        r@ == subject_of_forward(original@),
{
    let t = trim_start(original);
    if has_prefix(&t, "fwd:") || has_prefix(&t, "fw:") {
        original.to_owned()
    } else {
        let mut r = "Fwd: ".to_owned();
        r.append(&t);
        r
    }
}

/// Replying to a reply adds no second prefix.
pub proof fn law_reply_subject_is_stable(original: Seq<char>)
    ensures
        subject_of_reply(subject_of_reply(original)) == subject_of_reply(original),
{
    let t = text::trimmed_start(original);
    if !marked_as_reply(t) {
        reveal_strlit("Re: ");
        reveal_strlit("re");
        let s = "Re: "@ + t;
        assert(s[0] == 'R');
        assert(text::trimmed_start(s) == s);
        assert(text::ascii_lowered(s.take(2)) =~= text::ascii_lowered("re"@));
        assert(reply_mark_at(s, 2));
    }
}

/// Forwarding a forward adds no second prefix.
pub proof fn law_forward_subject_is_stable(original: Seq<char>)
    ensures
        subject_of_forward(subject_of_forward(original)) == subject_of_forward(original),
{
    let t = text::trimmed_start(original);
    if !marked_as_forward(t) {
        reveal_strlit("Fwd: ");
        reveal_strlit("fwd:");
        let s = "Fwd: "@ + t;
        assert(s[0] == 'F');
        assert(text::trimmed_start(s) == s);
        assert(text::ascii_lowered(s.take(4)) =~= text::ascii_lowered("fwd:"@));
    }
}

// ---------------------------------------------------------------------
// Recipients
// ---------------------------------------------------------------------

/// Whom a reply goes to: the reply-to addresses where there are any, else the
/// senders.
pub fn reply_to_recipients(headers: &MessageHeaders) -> (r: Vec<EmailAddress>)
    ensures
        r@ == if headers.reply_to@.len() > 0 {
            headers.reply_to@
        } else {
            headers.from@
        },
{
    if headers.reply_to.len() > 0 {
        clone_addresses(&headers.reply_to)
    } else {
        clone_addresses(&headers.from)
    }
}

/// The first `n` of `addrs` without those whose key is in `excluded` or was
/// the key of an earlier one.
pub open spec fn fresh_ones(
    addrs: Seq<EmailAddress>,
    keys: Seq<Seq<char>>,
    excluded: Seq<Seq<char>>,
    n: int,
) -> Seq<EmailAddress>
    decreases n,
{
    if n <= 0 {
        Seq::empty()
    } else {
        let before = fresh_ones(addrs, keys, excluded, n - 1);
        if excluded.contains(keys[n - 1]) || keys.take(n - 1).contains(keys[n - 1]) {
            before
        } else {
            before.push(addrs[n - 1])
        }
    }
}

/// Does `v` hold the text `s` among its first `n`?
fn holds_key(v: &Vec<String>, n: usize, s: &String) -> (r: bool)
    requires
        n <= v@.len(),
    ensures
        r == model::texts(v@).take(n as int).contains(s@),
{
    let mut i: usize = 0;
    while i < n
        invariant
            i <= n <= v@.len(),
            forall|j: int| 0 <= j < i ==> #[trigger] model::texts(v@)[j] != s@,
        decreases n - i,
    {
        if v[i] == *s {
            assert(model::texts(v@).take(n as int)[i as int] == s@);
            return true;
        }
        assert(model::texts(v@)[i as int] != s@);
        i = i + 1;
    }
    proof {
        if model::texts(v@).take(n as int).contains(s@) {
            let j = choose|j: int| 0 <= j < n && model::texts(v@).take(n as int)[j] == s@;
            assert(model::texts(v@)[j] != s@);
        }
    }
    false
}

/// Keeps of `addrs` those whose key, at the same place in `keys`, is neither
/// excluded nor the key of an earlier address.
pub fn keep_fresh(addrs: &Vec<EmailAddress>, keys: &Vec<String>, excluded: &Vec<String>) -> (r: Vec<
    EmailAddress,
>)
    requires
        keys@.len() == addrs@.len(),
    ensures
        r@ == fresh_ones(addrs@, model::texts(keys@), model::texts(excluded@), addrs@.len() as int),
{
    let mut out: Vec<EmailAddress> = Vec::new();
    let mut i: usize = 0;
    while i < addrs.len()
        invariant
            i <= addrs@.len(),
            keys@.len() == addrs@.len(),
            out@ == fresh_ones(addrs@, model::texts(keys@), model::texts(excluded@), i as int),
        decreases addrs@.len() - i,
    {
        let known = holds_key(excluded, excluded.len(), &keys[i]) || holds_key(keys, i, &keys[i]);
        assert(model::texts(excluded@).take(excluded@.len() as int) =~= model::texts(excluded@));
        assert(model::texts(keys@)[i as int] == keys@[i as int]@);
        if !known {
            out.push(addrs[i].clone());
        }
        i = i + 1;
    }
    out
}

/// The keys by which addresses are compared: their small forms.
pub open spec fn lowered_addresses(v: Seq<EmailAddress>) -> Seq<Seq<char>> {
    v.map_values(|a: EmailAddress| text::unicode_lower(a.address@))
}

/// See [`lowered_addresses`].
fn lower_addresses(v: &[EmailAddress]) -> (r: Vec<String>)
    ensures
        model::texts(r@) == lowered_addresses(v@),
        r@.len() == v@.len(),
{
    let mut r: Vec<String> = Vec::new();
    let mut i: usize = 0;
    while i < v.len()
        invariant
            i <= v@.len(),
            r@.len() == i,
            forall|j: int| 0 <= j < i ==> (#[trigger] r@[j])@ == text::unicode_lower(v@[j].address@),
        decreases v@.len() - i,
    {
        r.push(to_lowercase(&v[i].address));
        i = i + 1;
    }
    assert(model::texts(r@) =~= lowered_addresses(v@));
    r
}

/// Whom a reply to all goes to in copy: the message's recipients and those in
/// copy, in that order and each once, but for the user's own address and those
/// that the reply goes to anyway. Addresses are compared without regard to
/// case.
pub fn reply_all_cc(
    headers: &MessageHeaders,
    primary_to: &[EmailAddress],
    account_email: &str,
) -> (r: Vec<EmailAddress>)
    ensures
        r@ == fresh_ones(
            headers.to@ + headers.cc@,
            lowered_addresses(headers.to@ + headers.cc@),
            lowered_addresses(primary_to@).push(text::unicode_lower(account_email@)),
            (headers.to@ + headers.cc@).len() as int,
        ),
{
    let mut all = clone_addresses(&headers.to);
    let mut cc = clone_addresses(&headers.cc);
    all.append(&mut cc);
    let mut excluded = lower_addresses(primary_to);
    let ghost before = model::texts(excluded@);
    excluded.push(to_lowercase(account_email));
    assert(model::texts(excluded@) =~= before.push(text::unicode_lower(account_email@)));
    let keys = lower_addresses(all.as_slice());
    keep_fresh(&all, &keys, &excluded)
}

/// Whoever a reply to all names in copy is neither the user, nor a primary
/// recipient, nor named twice.
pub proof fn law_reply_all_names_no_one_twice(
    addrs: Seq<EmailAddress>,
    excluded: Seq<Seq<char>>,
    n: int,
    i: int,
)
    requires
        0 <= n <= addrs.len(),
        0 <= i < fresh_ones(addrs, lowered_addresses(addrs), excluded, n).len(),
    ensures
        ({
            let kept = fresh_ones(addrs, lowered_addresses(addrs), excluded, n);
            &&& !excluded.contains(text::unicode_lower(kept[i].address@))
            &&& forall|j: int|
                0 <= j < i ==> text::unicode_lower((#[trigger] kept[j]).address@) != text::unicode_lower(
                    kept[i].address@,
                )
        }),
    decreases n,
{
    let keys = lowered_addresses(addrs);
    let kept = fresh_ones(addrs, keys, excluded, n);
    if n > 0 {
        let before = fresh_ones(addrs, keys, excluded, n - 1);
        if i < before.len() {
            law_reply_all_names_no_one_twice(addrs, excluded, n - 1, i);
        } else {
            assert(kept[i] == addrs[n - 1]);
            assert(keys[n - 1] == text::unicode_lower(addrs[n - 1].address@));
            assert forall|j: int| 0 <= j < i implies text::unicode_lower((#[trigger] kept[j]).address@)
                != text::unicode_lower(kept[i].address@) by {
                lemma_fresh_keys_come_from_before(addrs, excluded, n - 1, j);
                assert(kept[j] == before[j]);
                let k = choose|k: int| 0 <= k < n - 1 && keys[k] == text::unicode_lower(kept[j].address@);
                assert(keys.take(n - 1)[k] == keys[k]);
            }
        }
    }
}

/// What is kept of the first `n` has its key among their keys.
proof fn lemma_fresh_keys_come_from_before(
    addrs: Seq<EmailAddress>,
    excluded: Seq<Seq<char>>,
    n: int,
    i: int,
)
    requires
        0 <= n <= addrs.len(),
        0 <= i < fresh_ones(addrs, lowered_addresses(addrs), excluded, n).len(),
    ensures
        exists|k: int|
            0 <= k < n && #[trigger] lowered_addresses(addrs)[k] == text::unicode_lower(
                fresh_ones(addrs, lowered_addresses(addrs), excluded, n)[i].address@,
            ),
    decreases n,
{
    let keys = lowered_addresses(addrs);
    if n > 0 {
        let before = fresh_ones(addrs, keys, excluded, n - 1);
        if i < before.len() {
            lemma_fresh_keys_come_from_before(addrs, excluded, n - 1, i);
        } else {
            assert(keys[n - 1] == text::unicode_lower(addrs[n - 1].address@));
        }
    }
}

/// One of the places `at` has the key of place `k`.
spec fn key_is_at(keys: Seq<Seq<char>>, at: Seq<int>, k: int) -> bool {
    exists|i: int| 0 <= i < at.len() && keys[#[trigger] at[i]] == keys[k]
}

/// Where [`fresh_ones`] of the first `n` come from.
proof fn lemma_fresh_places(addrs: Seq<EmailAddress>, excluded: Seq<Seq<char>>, n: int) -> (at: Seq<
    int,
>)
    requires
        0 <= n <= addrs.len(),
    ensures
        at.len() == fresh_ones(addrs, lowered_addresses(addrs), excluded, n).len(),
        forall|i: int, j: int| 0 <= i < j < at.len() ==> #[trigger] at[i] < #[trigger] at[j],
        forall|i: int|
            0 <= i < at.len() ==> 0 <= #[trigger] at[i] < n && addrs[at[i]] == fresh_ones(
                addrs,
                lowered_addresses(addrs),
                excluded,
                n,
            )[i],
        forall|i: int|
            0 <= i < at.len() ==> !excluded.contains(lowered_addresses(addrs)[#[trigger] at[i]])
                && !lowered_addresses(addrs).take(at[i]).contains(lowered_addresses(addrs)[at[i]]),
        forall|k: int|
            0 <= k < n && !excluded.contains(lowered_addresses(addrs)[k])
                ==> #[trigger] key_is_at(lowered_addresses(addrs), at, k),
    decreases n,
{
    let keys = lowered_addresses(addrs);
    if n == 0 {
        Seq::empty()
    } else {
        let before = lemma_fresh_places(addrs, excluded, n - 1);
        let known = keys.take(n - 1).contains(keys[n - 1]);
        let at = if excluded.contains(keys[n - 1]) || known {
            before
        } else {
            before.push(n - 1)
        };
        assert forall|k: int|
            0 <= k < n && !excluded.contains(keys[k]) implies #[trigger] key_is_at(keys, at, k) by {
            let l = if k < n - 1 || !known {
                k
            } else {
                let l = choose|l: int|
                    0 <= l < n - 1 && #[trigger] keys.take(n - 1)[l] == keys[k];
                assert(keys[l] == keys[k]);
                l
            };
            if l < n - 1 {
                assert(key_is_at(keys, before, l));
                let i = choose|i: int| 0 <= i < before.len() && keys[#[trigger] before[i]] == keys[l];
                assert(at[i] == before[i]);
            } else {
                assert(at[before.len() as int] == n - 1);
            }
        }
        at
    }
}

/// Whom a reply to all keeps in copy stands in the order in which the message
/// first names them, and is neither the user nor answered anyway.
pub proof fn law_reply_all_keeps_the_order(
    to: Seq<EmailAddress>,
    cc: Seq<EmailAddress>,
    primary: Seq<EmailAddress>,
    own: Seq<char>,
) -> (at: Seq<int>)
    ensures
        ({
            let all = to + cc;
            let kept = fresh_ones(
                all,
                lowered_addresses(all),
                lowered_addresses(primary).push(text::unicode_lower(own)),
                all.len() as int,
            );
            &&& at.len() == kept.len()
            &&& forall|i: int, j: int| 0 <= i < j < at.len() ==> #[trigger] at[i] < #[trigger] at[j]
            &&& forall|i: int|
                0 <= i < at.len() ==> 0 <= #[trigger] at[i] < all.len() && all[at[i]] == kept[i]
            &&& forall|i: int, k: int|
                0 <= i < at.len() && 0 <= k < at[i] ==> text::unicode_lower(
                    (#[trigger] all[k]).address@,
                ) != text::unicode_lower((#[trigger] kept[i]).address@)
            &&& forall|i: int, p: int|
                0 <= i < at.len() && 0 <= p < primary.len() ==> text::unicode_lower(
                    (#[trigger] primary[p]).address@,
                ) != text::unicode_lower((#[trigger] kept[i]).address@)
            &&& forall|i: int|
                0 <= i < at.len() ==> text::unicode_lower((#[trigger] kept[i]).address@)
                    != text::unicode_lower(own)
        }),
{
    let all = to + cc;
    let keys = lowered_addresses(all);
    let excluded = lowered_addresses(primary).push(text::unicode_lower(own));
    let kept = fresh_ones(all, keys, excluded, all.len() as int);
    let at = lemma_fresh_places(all, excluded, all.len() as int);
    assert(excluded[primary.len() as int] == text::unicode_lower(own));
    assert forall|i: int, k: int|
        0 <= i < at.len() && 0 <= k < at[i] implies text::unicode_lower(
        (#[trigger] all[k]).address@,
    ) != text::unicode_lower((#[trigger] kept[i]).address@) by {
        assert(keys.take(at[i])[k] == text::unicode_lower(all[k].address@));
        assert(keys[at[i]] == text::unicode_lower(kept[i].address@));
    }
    assert forall|i: int, p: int|
        0 <= i < at.len() && 0 <= p < primary.len() implies text::unicode_lower(
        (#[trigger] primary[p]).address@,
    ) != text::unicode_lower((#[trigger] kept[i]).address@) by {
        assert(excluded[p] == text::unicode_lower(primary[p].address@));
        assert(keys[at[i]] == text::unicode_lower(kept[i].address@));
    }
    assert forall|i: int| 0 <= i < at.len() implies text::unicode_lower(
        (#[trigger] kept[i]).address@,
    ) != text::unicode_lower(own) by {
        assert(keys[at[i]] == text::unicode_lower(kept[i].address@));
    }
    at
}

/// Everyone who was on the message is on the reply to all: each of its
/// recipients and of those in copy is the user, is answered anyway, or is kept
/// in copy.
pub proof fn law_reply_all_leaves_no_one_out(
    to: Seq<EmailAddress>,
    cc: Seq<EmailAddress>,
    primary: Seq<EmailAddress>,
    own: Seq<char>,
    k: int,
)
    requires
        0 <= k < (to + cc).len(),
    ensures
        ({
            let kept = fresh_ones(
                to + cc,
                lowered_addresses(to + cc),
                lowered_addresses(primary).push(text::unicode_lower(own)),
                (to + cc).len() as int,
            );
            let who = text::unicode_lower((to + cc)[k].address@);
            ||| who == text::unicode_lower(own)
            ||| exists|p: int|
                0 <= p < primary.len() && text::unicode_lower((#[trigger] primary[p]).address@)
                    == who
            ||| exists|i: int|
                0 <= i < kept.len() && text::unicode_lower((#[trigger] kept[i]).address@) == who
        }),
{
    let all = to + cc;
    let keys = lowered_addresses(all);
    let excluded = lowered_addresses(primary).push(text::unicode_lower(own));
    let kept = fresh_ones(all, keys, excluded, all.len() as int);
    let at = lemma_fresh_places(all, excluded, all.len() as int);
    let who = text::unicode_lower(all[k].address@);
    assert(keys[k] == who);
    if excluded.contains(who) {
        let p = choose|p: int| 0 <= p < excluded.len() && excluded[p] == who;
        if p < primary.len() {
            assert(text::unicode_lower(primary[p].address@) == who);
        }
    } else {
        assert(key_is_at(keys, at, k));
        let i = choose|i: int| 0 <= i < at.len() && keys[#[trigger] at[i]] == keys[k];
        assert(text::unicode_lower(kept[i].address@) == who);
    }
}

// ---------------------------------------------------------------------
// References
// ---------------------------------------------------------------------

/// The references of a reply: those of the original, or what it replied to
/// where it has none, and the original's own id unless it is among them.
pub open spec fn references_of_reply(h: HeadersModel) -> Seq<Seq<char>> {
    let chain = if h.references.len() > 0 {
        h.references
    } else {
        match h.in_reply_to {
            Some(p) => seq![p],
            None => Seq::empty(),
        }
    };
    match h.rfc822_message_id {
        Some(m) if !chain.contains(m) => chain.push(m),
        _ => chain,
    }
}

/// See [`references_of_reply`].
pub fn reply_references(headers: &MessageHeaders) -> (r: Vec<String>)
    ensures
        model::texts(r@) == references_of_reply(headers@),
{
    let mut chain = clone_texts(&headers.references);
    if chain.len() == 0 {
        if let Some(p) = &headers.in_reply_to {
            chain.push(p.clone());
            assert(model::texts(chain@) =~= seq![p@]);
        } else {
            assert(model::texts(chain@) =~= Seq::<Seq<char>>::empty());
        }
    }
    let ghost c = model::texts(chain@);
    if let Some(m) = &headers.rfc822_message_id {
        let known = holds_key(&chain, chain.len(), m);
        assert(c.take(c.len() as int) =~= c);
        if !known {
            chain.push(m.clone());
            assert(model::texts(chain@) =~= c.push(m@));
        }
    }
    chain
}

// ---------------------------------------------------------------------
// Bodies
// ---------------------------------------------------------------------

/// What stands for a body that has no plain text.
pub open spec fn missing_body() -> Seq<char> {
    "(no plaintext body — see HTML body in the original.)"@
}

/// A line as it is quoted; an empty line gets a bare mark.
pub open spec fn quoted_line(line: Seq<char>) -> Seq<char> {
    if line.len() == 0 {
        ">"@
    } else {
        "> "@ + line
    }
}

/// The lines of a text, quoted.
pub open spec fn quoted(text: Seq<char>) -> Seq<char> {
    text::joined(text::lines_of(text).map_values(|l: Seq<char>| quoted_line(l)), "\n"@)
}

/// See [`quoted`].
#[verifier::spinoff_prover]
#[verifier::rlimit(60)]
pub fn quote_lines(text: &str) -> (r: String)
    ensures
        r@ == quoted(text@),
{
    let v = chars_of(text);
    let ghost all = text::lines_of(text@);
    let ghost marks = all.map_values(|l: Seq<char>| quoted_line(l));
    let ghost mut done: Seq<Seq<char>> = Seq::empty();
    let mut out = String::new();
    let mut from: usize = 0;
    assert(v@.skip(0) =~= text@);
    assert(Seq::<Seq<char>>::empty() + all =~= all);
    assert(marks.take(0) =~= Seq::<Seq<char>>::empty());
    while from < v.len()
        invariant
            v@ == text@,
            from <= v@.len(),
            all == done + text::lines_of(v@.skip(from as int)),
            marks == all.map_values(|l: Seq<char>| quoted_line(l)),
            from == 0 <==> done.len() == 0,
            out@ == text::joined(marks.take(done.len() as int), "\n"@),
        decreases v@.len() - from,
    {
        let ghost rest = v@.skip(from as int);
        let mut to: usize = from;
        while to < v.len() && v[to] != '\n'
            invariant
                from <= to <= v@.len(),
                rest == v@.skip(from as int),
                forall|j: int| 0 <= j < to - from ==> #[trigger] rest[j] != '\n',
            decreases v@.len() - to,
        {
            assert(rest[to - from] == v@[to as int]);
            to = to + 1;
        }
        proof {
            if to < v@.len() {
                assert(rest[to - from] == v@[to as int]);
            }
            text::lemma_first_where(rest, text::is_char('\n'), to - from);
        }
        let end: usize = if to < v.len() && to > from && v[to - 1] == '\r' {
            to - 1
        } else {
            to
        };
        let ghost line = if to < v@.len() {
            text::without_cr(rest.take(to - from))
        } else {
            rest
        };
        assert(v@.subrange(from as int, end as int) =~= line);
        if from > 0 {
            out.push('\n');
        }
        if end == from {
            out.append(">");
        } else {
            out.append("> ");
            let l = string_of(&v, from, end);
            out.append(&l);
        }
        proof {
            reveal_strlit("\n");
            let n = done.len() as int;
            let next = done.push(line);
            assert(text::lines_of(rest)[0] == line);
            assert(all[n] == line);
            assert(marks[n] == quoted_line(line));
            assert(marks.take(n + 1).drop_last() =~= marks.take(n));
            assert(text::joined(marks.take(n), "\n"@).push('\n') =~= text::joined(marks.take(n), "\n"@) + "\n"@);
            assert(out@ =~= text::joined(marks.take(n + 1), "\n"@));
            if to < v@.len() {
                assert(rest.skip(to - from + 1) =~= v@.skip(to + 1));
                assert(all =~= next + text::lines_of(v@.skip(to + 1)));
            } else {
                assert(v@.skip(v@.len() as int) =~= Seq::<char>::empty());
                assert(all =~= next + text::lines_of(v@.skip(v@.len() as int)));
            }
            done = next;
        }
        from = if to < v.len() {
            to + 1
        } else {
            to
        };
    }
    proof {
        assert(v@.skip(v@.len() as int) =~= Seq::<char>::empty());
        assert(all =~= done);
        assert(marks.take(marks.len() as int) =~= marks);
    }
    out
}

/// How the sender of a message is named in an attribution.
pub open spec fn attributed_to(from: Seq<AddressModel>) -> Seq<char> {
    if from.len() == 0 {
        "(unknown sender)"@
    } else {
        addresses::address_label(from[0].address, from[0].display_name)
    }
}

/// The line that says who wrote what is quoted, and when.
pub open spec fn attribution(date_text: Seq<char>, from: Seq<AddressModel>) -> Seq<char> {
    "On "@ + date_text + ", "@ + attributed_to(from) + " wrote:"@
}

/// See [`attribution`].
pub fn attribution_line(date_text: &str, from: &Vec<EmailAddress>) -> (r: String)
    ensures
        r@ == attribution(date_text@, model::addresses(from@)),
{
    let label = if from.len() == 0 {
        "(unknown sender)".to_owned()
    } else {
        label_of(&from[0].address, &from[0].display_name)
    };
    let mut r = "On ".to_owned();
    r.append(date_text);
    r.append(", ");
    r.append(&label);
    r.append(" wrote:");
    r
}

/// The body that a reply starts with: room for the answer, the attribution and
/// the quoted text.
pub open spec fn reply_body(attribution: Seq<char>, body: Option<Seq<char>>) -> Seq<char> {
    let q = match body {
        Some(t) if text::trimmed(t).len() > 0 => quoted(t),
        _ => missing_body(),
    };
    "\n\n"@ + attribution + "\n"@ + q + "\n"@
}

/// See [`reply_body`].
pub fn quote_under(attribution: &str, body: &Option<String>) -> (r: String)
    ensures
        r@ == reply_body(attribution@, model::opt_text(*body)),
{
    let mut q = "(no plaintext body — see HTML body in the original.)".to_owned();
    if let Some(t) = body {
        if !trim(t).as_str().is_empty() {
            q = quote_lines(t);
        }
    }
    let mut r = "\n\n".to_owned();
    r.append(attribution);
    r.append("\n");
    r.append(&q);
    r.append("\n");
    r
}

/// The body that a reply to `rendered` starts with. The date is given in UTC,
/// whatever the offset of the user's clock.
pub fn quote_body_for_reply(
    rendered: &RenderedMessage,
    now_local_offset_seconds: Option<i32>,
) -> (r: String)
    requires
        calendar::representable(rendered.headers.date),
    ensures
        r@ == reply_body(
            attribution(
                calendar::utc_text(rendered.headers.date, "%Y-%m-%d %H:%M"@),
                model::addresses(rendered.headers.from@),
            ),
            model::opt_text(rendered.body_text),
        ),
{
    let date = format_utc(rendered.headers.date, "%Y-%m-%d %H:%M");
    let a = attribution_line(&date, &rendered.headers.from);
    quote_under(&a, &rendered.body_text)
}

/// The body that a forward starts with: who sent what to whom and when, and
/// the text.
pub open spec fn forwarded(
    date_text: Seq<char>,
    from: Seq<char>,
    subject: Seq<char>,
    to: Seq<char>,
    cc: Seq<char>,
    body: Option<Seq<char>>,
) -> Seq<char> {
    let head = "\n\n---------- Forwarded message ----------\n"@ + "From: "@ + from + "\n"@
        + "Date: "@ + date_text + "\n"@ + "Subject: "@ + subject + "\n"@ + "To: "@ + to + "\n"@;
    let copied = if cc.len() == 0 {
        head
    } else {
        head + "Cc: "@ + cc + "\n"@
    };
    copied + "\n"@ + match body {
        Some(t) => t,
        None => missing_body(),
    }
}

/// See [`forwarded`].
pub fn forward_block(rendered: &RenderedMessage, date_text: &str) -> (r: String)
    ensures
        r@ == forwarded(
            date_text@,
            addresses::address_line(model::addresses(rendered.headers.from@)),
            rendered.headers.subject@,
            addresses::address_line(model::addresses(rendered.headers.to@)),
            addresses::address_line(model::addresses(rendered.headers.cc@)),
            model::opt_text(rendered.body_text),
        ),
{
    let h = &rendered.headers;
    let from = format_addrs(&h.from);
    let to = format_addrs(&h.to);
    let cc = format_addrs(&h.cc);
    let mut b = "\n\n---------- Forwarded message ----------\n".to_owned();
    b.append("From: ");
    b.append(&from);
    b.append("\n");
    b.append("Date: ");
    b.append(date_text);
    b.append("\n");
    b.append("Subject: ");
    b.append(&h.subject);
    b.append("\n");
    b.append("To: ");
    b.append(&to);
    b.append("\n");
    if !cc.as_str().is_empty() {
        b.append("Cc: ");
        b.append(&cc);
        b.append("\n");
    }
    b.append("\n");
    match &rendered.body_text {
        Some(t) => {
            b.append(t);
        },
        None => {
            b.append("(no plaintext body — see HTML body in the original.)");
        },
    }
    b
}

/// The body that a forward of `rendered` starts with.
pub fn forward_body(rendered: &RenderedMessage) -> (r: String)
    requires
        calendar::representable(rendered.headers.date),
    ensures
        r@ == forwarded(
            calendar::utc_text(rendered.headers.date, "%Y-%m-%d %H:%M %Z"@),
            addresses::address_line(model::addresses(rendered.headers.from@)),
            rendered.headers.subject@,
            addresses::address_line(model::addresses(rendered.headers.to@)),
            addresses::address_line(model::addresses(rendered.headers.cc@)),
            model::opt_text(rendered.body_text),
        ),
{
    let date = format_utc(rendered.headers.date, "%Y-%m-%d %H:%M %Z");
    forward_block(rendered, &date)
}

// ---------------------------------------------------------------------
// Drafts
// ---------------------------------------------------------------------

/// How a message is answered.
#[derive(Debug, Clone, Copy, PartialEq, Eq, Structural)]
pub enum ReplyKind {
    Reply,
    ReplyAll,
    Forward,
}

/// The address of the account `id`; empty where it is not configured.
pub open spec fn own_address(accounts: Seq<Account>, id: Seq<char>) -> Seq<char>
    decreases accounts.len(),
{
    if accounts.len() == 0 {
        Seq::empty()
    } else if accounts[0].id@ == id {
        accounts[0].email_address@
    } else {
        own_address(accounts.drop_first(), id)
    }
}

/// See [`own_address`].
pub fn self_email(accounts: &Vec<Account>, id: &AccountId) -> (r: String)
    ensures
        r@ == own_address(accounts@, id@),
{
    let mut i: usize = 0;
    assert(accounts@.skip(0) =~= accounts@);
    while i < accounts.len()
        invariant
            i <= accounts@.len(),
            own_address(accounts@, id@) == own_address(accounts@.skip(i as int), id@),
        decreases accounts@.len() - i,
    {
        assert(accounts@.skip(i as int)[0] == accounts@[i as int]);
        assert(accounts@.skip(i as int).drop_first() =~= accounts@.skip(i + 1));
        if accounts[i].id.same(id) {
            return accounts[i].email_address.clone();
        }
        i = i + 1;
    }
    String::new()
}

/// The draft that answers `rendered`. A forward starts a conversation of its
/// own: it names no recipient and refers to no message.
pub fn reply_draft(rendered: &RenderedMessage, kind: ReplyKind, own_email: &str) -> (r: DraftInput)
    requires
        calendar::representable(rendered.headers.date),
    ensures
        r.id is None,
        r.account_id@ == rendered.headers.account_id@,
        r.bcc@.len() == 0,
        r.attachments@.len() == 0,
        r.body_kind == DraftBodyKind::Plain,
        kind == ReplyKind::Forward ==> {
            &&& r.to@.len() == 0
            &&& r.cc@.len() == 0
            &&& r.in_reply_to is None
            &&& r.references@.len() == 0
            &&& r.subject@ == subject_of_forward(rendered.headers.subject@)
            &&& r.body@ == forwarded(
                calendar::utc_text(rendered.headers.date, "%Y-%m-%d %H:%M %Z"@),
                addresses::address_line(model::addresses(rendered.headers.from@)),
                rendered.headers.subject@,
                addresses::address_line(model::addresses(rendered.headers.to@)),
                addresses::address_line(model::addresses(rendered.headers.cc@)),
                model::opt_text(rendered.body_text),
            )
        },
        kind != ReplyKind::Forward ==> {
            &&& r.to@ == if rendered.headers.reply_to@.len() > 0 {
                rendered.headers.reply_to@
            } else {
                rendered.headers.from@
            }
            &&& r.in_reply_to == rendered.headers.rfc822_message_id
            &&& model::texts(r.references@) == references_of_reply(rendered.headers@)
            &&& r.subject@ == subject_of_reply(rendered.headers.subject@)
            &&& r.body@ == reply_body(
                attribution(
                    calendar::utc_text(rendered.headers.date, "%Y-%m-%d %H:%M"@),
                    model::addresses(rendered.headers.from@),
                ),
                model::opt_text(rendered.body_text),
            )
        },
        kind == ReplyKind::Reply ==> r.cc@.len() == 0,
        kind == ReplyKind::ReplyAll ==> r.cc@ == fresh_ones(
            rendered.headers.to@ + rendered.headers.cc@,
            lowered_addresses(rendered.headers.to@ + rendered.headers.cc@),
            lowered_addresses(r.to@).push(text::unicode_lower(own_email@)),
            (rendered.headers.to@ + rendered.headers.cc@).len() as int,
        ),
{
    let h = &rendered.headers;
    match kind {
        ReplyKind::Forward => DraftInput {
            id: None,
            account_id: h.account_id.clone(),
            in_reply_to: None,
            references: Vec::new(),
            to: Vec::new(),
            cc: Vec::new(),
            bcc: Vec::new(),
            subject: forward_subject(&h.subject),
            body: forward_body(rendered),
            body_kind: DraftBodyKind::Plain,
            attachments: Vec::new(),
        },
        _ => {
            let to = reply_to_recipients(h);
            let cc = match kind {
                ReplyKind::ReplyAll => reply_all_cc(h, to.as_slice(), own_email),
                _ => Vec::new(),
            };
            DraftInput {
                id: None,
                account_id: h.account_id.clone(),
                in_reply_to: h.rfc822_message_id.clone(),
                references: reply_references(h),
                to,
                cc,
                bcc: Vec::new(),
                subject: reply_subject(&h.subject),
                body: quote_body_for_reply(rendered, None),
                body_kind: DraftBodyKind::Plain,
                attachments: Vec::new(),
            }
        },
    }
}

// ---------------------------------------------------------------------
// What an answer looks like
// ---------------------------------------------------------------------

/// A subject is marked as a reply exactly once: one that starts, in any case,
/// with `re`, perhaps white space, and a colon stays as it is; any other gets
/// the mark in front of it.
pub proof fn law_replies_are_marked(
    lead: Seq<char>,
    r: char,
    e: char,
    gap: Seq<char>,
    rest: Seq<char>,
    subject: Seq<char>,
)
    requires
        forall|i: int| 0 <= i < lead.len() ==> text::is_white(#[trigger] lead[i]),
        forall|i: int| 0 <= i < gap.len() ==> text::is_white(#[trigger] gap[i]),
        r == 'r' || r == 'R',
        e == 'e' || e == 'E',
        subject.len() > 0,
        !text::is_white(subject[0]),
        subject[0] != 'r' && subject[0] != 'R' || subject.len() < 3 || subject[1] != 'e'
            && subject[1] != 'E' || subject[2] != ':' && !text::is_white(subject[2]),
    ensures
        ({
            let marked = lead + (seq![r, e] + gap + seq![':'] + rest);
            subject_of_reply(marked) == marked
        }),
        subject_of_reply(lead + subject) == "Re: "@ + subject,
{
    let none = Seq::<char>::empty();
    reveal_strlit("re");
    let body = seq![r, e] + gap + seq![':'] + rest;
    let k = 2 + gap.len() as int;
    assert(body[0] == r && body[1] == e);
    lemma_start_trimmed(lead, body);
    assert(body.take(2) =~= seq![r, e]);
    assert(text::ascii_lowered(body.take(2)) =~= text::ascii_lowered("re"@));
    assert(body[k] == ':');
    assert forall|j: int| 2 <= j < k implies text::is_white(#[trigger] body[j]) by {
        assert(body[j] == gap[j - 2]);
    }
    assert(reply_mark_at(body, k));
    lemma_start_trimmed(lead, subject);
    if marked_as_reply(subject) {
        let m = choose|m: int| reply_mark_at(subject, m);
        let t = subject.take(2);
        assert(text::ascii_lowered(t) == text::ascii_lowered("re"@));
        assert(text::ascii_lowered(t)[0] == text::ascii_lower(subject[0]));
        assert(text::ascii_lowered(t)[1] == text::ascii_lower(subject[1]));
        assert(text::ascii_lowered("re"@)[0] == 'r');
        assert(text::ascii_lowered("re"@)[1] == 'e');
        if m > 2 {
            assert(text::is_white(subject[2]));
        }
        assert(false);
    }
}

/// White space before a subject does not count.
proof fn lemma_start_trimmed(lead: Seq<char>, s: Seq<char>)
    requires
        forall|i: int| 0 <= i < lead.len() ==> text::is_white(#[trigger] lead[i]),
        s.len() > 0,
        !text::is_white(s[0]),
    ensures
        text::trimmed_start(lead + s) == s,
{
    let t = lead + s;
    let white = |c: char| text::is_white(c);
    assert forall|j: int| 0 <= j < lead.len() implies white(#[trigger] t[j]) by {
        assert(t[j] == lead[j]);
    }
    assert(t[lead.len() as int] == s[0]);
    text::lemma_strip_start(t, white, lead.len() as int);
    assert(t.skip(lead.len() as int) =~= s);
}

/// A subject is marked as a forward exactly once: one that starts with `fwd:`
/// or `fw:`, in any case, stays as it is; any other gets the mark.
pub proof fn law_forwards_are_marked(lead: Seq<char>, subject: Seq<char>)
    requires
        forall|i: int| 0 <= i < lead.len() ==> text::is_white(#[trigger] lead[i]),
        subject.len() > 0,
        !text::is_white(subject[0]),
    ensures
        ({
            let low = text::ascii_lowered(subject);
            let marked = (low.len() >= 4 && low[0] == 'f' && low[1] == 'w' && low[2] == 'd'
                && low[3] == ':') || (low.len() >= 3 && low[0] == 'f' && low[1] == 'w' && low[2]
                == ':');
            subject_of_forward(lead + subject) == if marked {
                lead + subject
            } else {
                "Fwd: "@ + subject
            }
        }),
{
    reveal_strlit("fwd:");
    reveal_strlit("fw:");
    lemma_start_trimmed(lead, subject);
    let low = text::ascii_lowered(subject);
    assert(low.len() == subject.len());
    if subject.len() >= 4 {
        let t = subject.take(4);
        assert(text::ascii_lowered(t) =~= low.take(4));
        assert(text::ascii_lowered("fwd:"@) =~= "fwd:"@);
        if low[0] == 'f' && low[1] == 'w' && low[2] == 'd' && low[3] == ':' {
            assert(low.take(4) =~= "fwd:"@);
        } else if low.take(4) == "fwd:"@ {
            assert(low.take(4)[0] == low[0] && low.take(4)[1] == low[1] && low.take(4)[2] == low[2]
                && low.take(4)[3] == low[3]);
        }
    }
    if subject.len() >= 3 {
        let t = subject.take(3);
        assert(text::ascii_lowered(t) =~= low.take(3));
        assert(text::ascii_lowered("fw:"@) =~= "fw:"@);
        if low[0] == 'f' && low[1] == 'w' && low[2] == ':' {
            assert(low.take(3) =~= "fw:"@);
        } else if low.take(3) == "fw:"@ {
            assert(low.take(3)[0] == low[0] && low.take(3)[1] == low[1] && low.take(3)[2]
                == low[2]);
        }
    }
}

/// A reply joins the conversation: it refers to all that the message referred
/// to, in order, or to what it answered where it referred to nothing, and to
/// the message itself, which it does not name a second time.
pub proof fn law_a_reply_joins_the_conversation(h: HeadersModel)
    ensures
        ({
            let r = references_of_reply(h);
            &&& h.references.len() > 0 ==> h.references.is_prefix_of(r)
            &&& h.references.len() == 0 && h.in_reply_to is Some ==> r.len() > 0 && r[0]
                == h.in_reply_to->0
            &&& h.rfc822_message_id is Some ==> r.contains(h.rfc822_message_id->0)
            &&& r.len() <= h.references.len() + (if h.references.len() == 0 && h.in_reply_to is Some
             {
                1int
            } else {
                0int
            }) + 1
            &&& h.rfc822_message_id is Some && h.references.len() > 0 && !h.references.contains(
                h.rfc822_message_id->0,
            ) ==> r == h.references.push(h.rfc822_message_id->0)
            &&& h.rfc822_message_id is None && h.references.len() > 0 ==> r == h.references
            &&& h.rfc822_message_id is Some && h.references.contains(h.rfc822_message_id->0) ==> r
                == h.references
            &&& h.references.len() == 0 ==> r == match (h.in_reply_to, h.rfc822_message_id) {
                (Some(p), Some(m)) => if p == m {
                    seq![p]
                } else {
                    seq![p, m]
                },
                (Some(p), None) => seq![p],
                (None, Some(m)) => seq![m],
                (None, None) => Seq::empty(),
            }
        }),
{
    let r = references_of_reply(h);
    let chain = if h.references.len() > 0 {
        h.references
    } else {
        match h.in_reply_to {
            Some(p) => seq![p],
            None => Seq::empty(),
        }
    };
    assert(r == chain || r == chain.push(h.rfc822_message_id->0));
    if h.references.len() > 0 {
        assert(h.references =~= r.take(h.references.len() as int));
    }
    if h.rfc822_message_id is Some && !chain.contains(h.rfc822_message_id->0) {
        assert(r[chain.len() as int] == h.rfc822_message_id->0);
    }
    if h.references.len() == 0 {
        match (h.in_reply_to, h.rfc822_message_id) {
            (Some(p), Some(m)) => {
                assert(chain[0] == p);
                if p != m {
                    assert(!chain.contains(m));
                    assert(r =~= seq![p, m]);
                }
            },
            (None, Some(m)) => {
                assert(!chain.contains(m));
                assert(r =~= seq![m]);
            },
            _ => {},
        }
    }
}

/// Every line of the message is quoted, in order: behind `> `, and an empty one
/// by a bare mark.
pub proof fn law_every_line_is_quoted(line: Seq<char>, rest: Seq<char>)
    requires
        !line.contains('\n'),
        line.len() > 0 ==> line.last() != '\r',
    ensures
        rest.len() > 0 ==> quoted(line.push('\n') + rest) == (if line.len() == 0 {
            seq!['>']
        } else {
            seq!['>', ' '] + line
        }) + seq!['\n'] + quoted(rest),
        line.len() > 0 ==> quoted(line) == seq!['>', ' '] + line,
{
    text::law_lines_end_at_breaks(line, rest);
    reveal_strlit(">");
    reveal_strlit("> ");
    reveal_strlit("\n");
    let mark = |l: Seq<char>| quoted_line(l);
    if line.len() > 0 {
        assert(text::lines_of(line).map_values(mark) =~= seq![quoted_line(line)]);
        assert(quoted(line) =~= seq!['>', ' '] + line);
    }
    if rest.len() > 0 {
        let lines = text::lines_of(rest);
        let all = text::lines_of(line.push('\n') + rest);
        assert(all.map_values(mark) =~= seq![quoted_line(line)] + lines.map_values(mark));
        lemma_lines_not_empty(rest);
        lemma_joined_behind(quoted_line(line), lines.map_values(mark), "\n"@);
        assert("\n"@ =~= seq!['\n']);
        assert(">"@ =~= seq!['>']);
        assert("> "@ =~= seq!['>', ' ']);
    }
}

/// A text has a line.
proof fn lemma_lines_not_empty(s: Seq<char>)
    requires
        s.len() > 0,
    ensures
        text::lines_of(s).len() > 0,
{
}

/// The first part stands first.
proof fn lemma_joined_behind(first: Seq<char>, parts: Seq<Seq<char>>, sep: Seq<char>)
    requires
        parts.len() > 0,
    ensures
        text::joined(seq![first] + parts, sep) == first + sep + text::joined(parts, sep),
    decreases parts.len(),
{
    let all = seq![first] + parts;
    assert(all.last() == parts.last());
    assert(all.drop_last() =~= seq![first] + parts.drop_last());
    if parts.len() == 1 {
        assert(all.drop_last() =~= seq![first]);
        assert(text::joined(all.drop_last(), sep) == first);
    } else {
        lemma_joined_behind(first, parts.drop_last(), sep);
        assert(text::joined(all, sep) =~= first + sep + text::joined(parts, sep));
    }
}

/// A reply leaves two lines for the answer, then says who wrote what and when,
/// and then quotes it. Where there is no plain text it says so.
pub proof fn law_a_reply_quotes_what_it_answers(
    date_text: Seq<char>,
    from: Seq<AddressModel>,
    body: Seq<char>,
)
    ensures
        text::trimmed(body).len() > 0 && from.len() > 0 ==> reply_body(
            attribution(date_text, from),
            Some(body),
        ) == "\n\n"@ + ("On "@ + date_text + ", "@ + addresses::address_label(
            from[0].address,
            from[0].display_name,
        ) + " wrote:"@) + "\n"@ + quoted(body) + "\n"@,
        from.len() == 0 ==> attribution(date_text, from) == "On "@ + date_text + ", "@
            + "(unknown sender)"@ + " wrote:"@,
        from.len() > 0 ==> attribution(date_text, from) == "On "@ + date_text + ", "@
            + addresses::address_label(from[0].address, from[0].display_name) + " wrote:"@,
        reply_body(attribution(date_text, from), None) == "\n\n"@ + attribution(date_text, from)
            + "\n"@ + "(no plaintext body — see HTML body in the original.)"@ + "\n"@,
        text::trimmed(body).len() == 0 ==> reply_body(attribution(date_text, from), Some(body))
            == reply_body(attribution(date_text, from), None),
{
}

/// A forward holds the message whole: its text ends with the message's, and
/// before it stand sender, date, subject and recipients, those in copy where
/// there are any.
pub proof fn law_a_forward_holds_the_message(
    date_text: Seq<char>,
    from: Seq<char>,
    subject: Seq<char>,
    to: Seq<char>,
    cc: Seq<char>,
    body: Seq<char>,
)
    ensures
        ({
            let head = "\n\n---------- Forwarded message ----------\n"@ + "From: "@ + from + "\n"@
                + "Date: "@ + date_text + "\n"@ + "Subject: "@ + subject + "\n"@ + "To: "@ + to
                + "\n"@;
            &&& cc.len() > 0 ==> forwarded(date_text, from, subject, to, cc, Some(body)) == head
                + "Cc: "@ + cc + "\n"@ + "\n"@ + body
            &&& cc.len() == 0 ==> forwarded(date_text, from, subject, to, cc, Some(body)) == head
                + "\n"@ + body
            &&& cc.len() == 0 ==> forwarded(date_text, from, subject, to, cc, None) == head + "\n"@
                + "(no plaintext body — see HTML body in the original.)"@
            &&& cc.len() > 0 ==> forwarded(date_text, from, subject, to, cc, None) == head
                + "Cc: "@ + cc + "\n"@ + "\n"@
                + "(no plaintext body — see HTML body in the original.)"@
        }),
{
}

/// The user's own address is that of the account that the message came to.
pub proof fn law_the_own_address_is_the_accounts(accounts: Seq<Account>, id: Seq<char>, i: int)
    ensures
        0 <= i < accounts.len() && accounts[i].id@ == id && (forall|j: int|
            0 <= j < i ==> (#[trigger] accounts[j]).id@ != id) ==> own_address(accounts, id)
            == accounts[i].email_address@,
        (forall|j: int| 0 <= j < accounts.len() ==> (#[trigger] accounts[j]).id@ != id)
            ==> own_address(accounts, id) == Seq::<char>::empty(),
    decreases accounts.len(),
{
    if accounts.len() > 0 {
        let rest = accounts.drop_first();
        assert(forall|j: int| 0 <= j < rest.len() ==> #[trigger] rest[j] == accounts[j + 1]);
        law_the_own_address_is_the_accounts(rest, id, i - 1);
    }
}

/// A subject that starts with `re` is marked only where a colon follows, with
/// nothing but white space before it.
pub proof fn law_a_word_is_no_mark(gap: Seq<char>, c: char, rest: Seq<char>)
    requires
        forall|i: int| 0 <= i < gap.len() ==> text::is_white(#[trigger] gap[i]),
        c != ':',
        !text::is_white(c),
    ensures
        subject_of_reply("re"@ + gap + seq![c] + rest) == "Re: "@ + ("re"@ + gap + seq![c] + rest),
        subject_of_reply("re"@ + gap) == "Re: "@ + ("re"@ + gap),
        subject_of_reply(gap) == "Re: "@,
        subject_of_forward(gap) == "Fwd: "@,
{
    reveal_strlit("re");
    reveal_strlit("Re: ");
    reveal_strlit("fwd:");
    reveal_strlit("fw:");
    reveal_strlit("Fwd: ");
    let s = "re"@ + gap + seq![c] + rest;
    let n = 2 + gap.len() as int;
    assert(s[n] == c);
    assert(s[0] == 'r');
    lemma_starts_unstripped(s);
    if marked_as_reply(s) {
        let k = choose|k: int| reply_mark_at(s, k);
        if k < n {
            assert(s[k] == gap[k - 2]);
            assert(text::is_white(s[k]));
        } else if k > n {
            assert(text::is_white(s[n]));
        }
    }
    let t = "re"@ + gap;
    assert(t[0] == 'r');
    lemma_starts_unstripped(t);
    if marked_as_reply(t) {
        let k = choose|k: int| reply_mark_at(t, k);
        assert(t[k] == gap[k - 2]);
        assert(text::is_white(t[k]));
    }
    lemma_blank_stripped(gap);
    assert("Re: "@ + Seq::<char>::empty() =~= "Re: "@);
    assert("Fwd: "@ + Seq::<char>::empty() =~= "Fwd: "@);
}

/// Nothing is cut from a text that starts with something else than white space.
proof fn lemma_starts_unstripped(s: Seq<char>)
    requires
        s.len() > 0,
        !text::is_white(s[0]),
    ensures
        text::trimmed_start(s) == s,
{
}

/// White space alone is cut away.
proof fn lemma_blank_stripped(s: Seq<char>)
    requires
        forall|i: int| 0 <= i < s.len() ==> text::is_white(#[trigger] s[i]),
    ensures
        text::trimmed_start(s) == Seq::<char>::empty(),
    decreases s.len(),
{
    if s.len() > 0 {
        let rest = s.drop_first();
        assert forall|i: int| 0 <= i < rest.len() implies text::is_white(#[trigger] rest[i]) by {
            assert(rest[i] == s[i + 1]);
        }
        lemma_blank_stripped(rest);
    }
}

} // verus!
