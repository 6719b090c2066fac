//! Address lines: what the user types, what is stored, and back.
use vstd::prelude::*;

use crate::model;
use crate::model::{AddressModel, Contact, EmailAddress};
use crate::text;
use crate::text::{chars_of, string_of, trim_bounds, trim_start};

verus! {

// ---------------------------------------------------------------------
// Writing addresses
// ---------------------------------------------------------------------

/// How one address reads: its name before the address in angle brackets
/// where it has a name, else the bare address.
pub open spec fn address_label(address: Seq<char>, name: Option<Seq<char>>) -> Seq<char> {
    match name {
        Some(n) if n.len() > 0 => n + " <"@ + address + ">"@,
        _ => address,
    }
}

/// See [`address_label`].
pub fn label_of(address: &String, name: &Option<String>) -> (r: String)
    ensures
        r@ == address_label(address@, model::opt_text(*name)),
{
    if let Some(n) = name {
        if !n.as_str().is_empty() {
            let mut r = n.clone();
            r.append(" <");
            r.append(address);
            r.append(">");
            return r;
        }
    }
    address.clone()
}

/// How a list of addresses reads on one line.
pub open spec fn address_line(addrs: Seq<AddressModel>) -> Seq<char> {
    text::joined(addrs.map_values(|a: AddressModel| address_label(a.address, a.display_name)), ", "@)
}

/// Renders typed addresses as a comma-separated line for editing.
pub fn format_addrs(addrs: &Vec<EmailAddress>) -> (r: String)
    ensures
        r@ == address_line(model::addresses(addrs@)),
{
    let ghost labels = model::addresses(addrs@).map_values(
        |a: AddressModel| address_label(a.address, a.display_name),
    );
    let mut r = String::new();
    let mut i: usize = 0;
    while i < addrs.len()
        invariant
            i <= addrs@.len(),
            labels == model::addresses(addrs@).map_values(
                |a: AddressModel| address_label(a.address, a.display_name),
            ),
            r@ == text::joined(labels.take(i as int), ", "@),
        decreases addrs@.len() - i,
    {
        if i > 0 {
            r.append(", ");
        }
        let l = label_of(&addrs[i].address, &addrs[i].display_name);
        r.append(&l);
        assert(labels.take(i + 1).drop_last() =~= labels.take(i as int));
        assert(l@ == labels[i as int]);
        proof {
            if i == 0 {
                assert(r@ =~= labels[0]);
            }
        }
        i = i + 1;
    }
    assert(labels.take(labels.len() as int) =~= labels);
    r
}

/// The one-line form of a contact.
pub fn format_contact(c: &Contact) -> (r: String)
    ensures
        r@ == address_label(c.address@, model::opt_text(c.display_name)),
{
    label_of(&c.address, &c.display_name)
}

// ---------------------------------------------------------------------
// The segment being typed
// ---------------------------------------------------------------------

/// A comma or a semicolon separates addresses.
pub open spec fn is_separator() -> spec_fn(char) -> bool {
    |c: char| c == ',' || c == ';'
}

/// Where the segment being typed starts: after the last separator.
pub open spec fn segment_start(line: Seq<char>) -> int {
    text::last_where(line, is_separator()) + 1
}

/// One past the last separator of `v`.
fn start_of_segment(v: &Vec<char>) -> (i: usize)
    ensures
        i <= v@.len(),
        i == segment_start(v@),
{
    let mut i: usize = v.len();
    while i > 0 && v[i - 1] != ',' && v[i - 1] != ';'
        invariant
            i <= v@.len(),
            forall|j: int| i <= j < v@.len() ==> !is_separator()(#[trigger] v@[j]),
        decreases i,
    {
        i = i - 1;
    }
    proof {
        text::lemma_last_where(v@, is_separator(), i - 1);
    }
    i
}

/// What is being typed: everything after the last separator, without
/// leading white space.
pub fn active_segment(line: &str) -> (r: String)
    ensures
        r@ == text::trimmed_start(line@.skip(segment_start(line@))),
{
    let v = chars_of(line);
    let i = start_of_segment(&v);
    let s = string_of(&v, i, v.len());
    assert(s@ =~= line@.skip(i as int));
    trim_start(&s)
}

/// `line` with the segment being typed replaced.
pub open spec fn segment_replaced(line: Seq<char>, replacement: Seq<char>) -> Seq<char> {
    let prefix = line.take(segment_start(line));
    let glue = if prefix.len() == 0 {
        ""@
    } else {
        " "@
    };
    prefix + glue + replacement + ", "@
}

/// Replaces the segment being typed, keeping the addresses before it, and
/// leaves the line ready for the next address.
pub fn replace_active_segment(line: &str, replacement: &str) -> (r: String)
    ensures
        r@ == segment_replaced(line@, replacement@),
{
    let v = chars_of(line);
    let i = start_of_segment(&v);
    let mut r = string_of(&v, 0, i);
    assert(r@ =~= line@.take(i as int));
    if i == 0 {
        r.append("");
    } else {
        r.append(" ");
    }
    r.append(replacement);
    r.append(", ");
    r
}

// ---------------------------------------------------------------------
// Reading an address line
// ---------------------------------------------------------------------

/// `raw` holds an opening and a closing angle bracket.
pub open spec fn has_brackets(raw: Seq<char>) -> bool {
    text::first_index(raw, '<') < raw.len() && text::last_index(raw, '>') >= 0
}

/// Where `raw` holds both angle brackets, its first opening one stands
/// before its last closing one.
pub open spec fn brackets_ordered(raw: Seq<char>) -> bool {
    has_brackets(raw) ==> text::first_index(raw, '<') < text::last_index(raw, '>')
}

/// The address that one segment of a line names: what its angle brackets
/// enclose, or all of it.
pub open spec fn address_in(raw: Seq<char>) -> Seq<char> {
    if has_brackets(raw) {
        text::trimmed(raw.subrange(text::first_index(raw, '<') + 1, text::last_index(raw, '>')))
    } else {
        raw
    }
}

/// The pieces of a line between its separators.
pub open spec fn segments(line: Seq<char>) -> Seq<Seq<char>> {
    text::split_where(line, is_separator())
}

/// Every segment of `line` has its brackets in order.
pub open spec fn well_bracketed(line: Seq<char>) -> bool {
    forall|i: int|
        0 <= i < segments(line).len() ==> brackets_ordered(text::trimmed(#[trigger] segments(line)[i]))
}

/// The addresses that `segs` name; a blank segment names none.
pub open spec fn addresses_in(segs: Seq<Seq<char>>) -> Seq<AddressModel>
    decreases segs.len(),
{
    if segs.len() == 0 {
        Seq::empty()
    } else {
        let before = addresses_in(segs.drop_last());
        let raw = text::trimmed(segs.last());
        if raw.len() == 0 {
            before
        } else {
            before.push(AddressModel { address: address_in(raw), display_name: None })
        }
    }
}

/// The addresses that `line` names.
pub open spec fn parsed_addresses(line: Seq<char>) -> Seq<AddressModel> {
    addresses_in(segments(line))
}

/// The end of the segment that starts at `from`.
fn segment_end(v: &Vec<char>, from: usize) -> (i: usize)
    requires
        from <= v@.len(),
    ensures
        from <= i <= v@.len(),
        i - from == text::first_where(v@.skip(from as int), is_separator()),
{
    let ghost s = v@.skip(from as int);
    let mut i: usize = from;
    while i < v.len() && v[i] != ',' && v[i] != ';'
        invariant
            from <= i <= v@.len(),
            s == v@.skip(from as int),
            forall|j: int| 0 <= j < i - from ==> !is_separator()(#[trigger] s[j]),
        decreases v@.len() - i,
    {
        assert(s[i - from] == v@[i as int]);
        i = i + 1;
    }
    proof {
        if i < v.len() {
            assert(s[i - from] == v@[i as int]);
        }
        text::lemma_first_where(s, is_separator(), i - from);
    }
    i
}

/// The address that `v[from..to]` names, which is neither blank nor has
/// white space at its ends; none where its brackets are out of order.
fn read_address(v: &Vec<char>, from: usize, to: usize) -> (r: Option<EmailAddress>)
    requires
        from < to <= v@.len(),
    ensures
        r is Some <==> brackets_ordered(v@.subrange(from as int, to as int)),
        r matches Some(a) ==> a@ == (AddressModel {
            address: address_in(v@.subrange(from as int, to as int)),
            display_name: None,
        }),
{
    let ghost raw = v@.subrange(from as int, to as int);
    let mut open: usize = from;
    while open < to && v[open] != '<'
        invariant
            from <= open <= to <= v@.len(),
            raw == v@.subrange(from as int, to as int),
            forall|j: int| 0 <= j < open - from ==> #[trigger] raw[j] != '<',
        decreases to - open,
    {
        assert(raw[open - from] == v@[open as int]);
        open = open + 1;
    }
    let mut close: usize = to;
    while close > from && v[close - 1] != '>'
        invariant
            from <= close <= to <= v@.len(),
            raw == v@.subrange(from as int, to as int),
            forall|j: int| close - from <= j < raw.len() ==> #[trigger] raw[j] != '>',
        decreases close,
    {
        assert(raw[close - 1 - from] == v@[close - 1]);
        close = close - 1;
    }
    proof {
        if open < to {
            assert(raw[open - from] == v@[open as int]);
        }
        if close > from {
            assert(raw[close - 1 - from] == v@[close - 1]);
        }
        text::lemma_first_where(raw, text::is_char('<'), open - from);
        text::lemma_last_where(raw, text::is_char('>'), close - 1 - from);
    }
    if open < to && close > from {
        let c: usize = close - 1;
        if open >= c {
            return None;
        }
        let b = trim_bounds(v, open + 1, c);
        assert(v@.subrange(open + 1, c as int) =~= raw.subrange(open + 1 - from, c - from));
        Some(EmailAddress { address: string_of(v, b.0, b.1), display_name: None })
    } else {
        Some(EmailAddress { address: string_of(v, from, to), display_name: None })
    }
}

/// Reads a comma- or semicolon-separated address line; `None` where a
/// segment closes an angle bracket before it opens one.
pub fn try_parse_addrs(line: &str) -> (r: Option<Vec<EmailAddress>>)
    ensures
        r is Some <==> well_bracketed(line@),
        r matches Some(v) ==> model::addresses(v@) == parsed_addresses(line@),
{
    let v = chars_of(line);
    let ghost all = segments(line@);
    let ghost mut done: Seq<Seq<char>> = Seq::empty();
    let mut out: Vec<EmailAddress> = Vec::new();
    let mut from: usize = 0;
    assert(v@.skip(0) =~= line@);
    assert(Seq::<Seq<char>>::empty() + all =~= all);
    assert(model::addresses(out@) =~= Seq::<AddressModel>::empty());
    loop
        invariant
            v@ == line@,
            from <= v@.len(),
            all == segments(line@),
            all == done + text::split_where(v@.skip(from as int), is_separator()),
            forall|i: int|
                0 <= i < done.len() ==> brackets_ordered(text::trimmed(#[trigger] done[i])),
            model::addresses(out@) == addresses_in(done),
        decreases v@.len() - from,
    {
        let ghost rest = v@.skip(from as int);
        let to = segment_end(&v, from);
        let ghost seg = rest.take(to - from);
        assert(v@.subrange(from as int, to as int) =~= seg);
        assert(to == v@.len() ==> seg =~= rest);
        assert(all[done.len() as int] == seg);
        let b = trim_bounds(&v, from, to);
        if b.0 < b.1 {
            match read_address(&v, b.0, b.1) {
                Some(a) => {
                    let ghost before = out@;
                    out.push(a);
                    assert(model::addresses(out@) =~= model::addresses(before).push(a@));
                },
                None => {
                    assert(!brackets_ordered(text::trimmed(all[done.len() as int])));
                    return None;
                },
            }
        } else {
            proof {
                text::lemma_first_where_bounds(text::trimmed(seg), text::is_char('<'));
                assert(brackets_ordered(text::trimmed(seg)));
            }
        }
        let ghost next = done.push(seg);
        assert(next.drop_last() =~= done);
        if to == v.len() {
            assert(all =~= next);
            assert(forall|i: int|
                0 <= i < all.len() ==> brackets_ordered(text::trimmed(#[trigger] all[i])));
            return Some(out);
        }
        proof {
            assert(rest.skip(to - from + 1) =~= v@.skip(to + 1));
            assert(all =~= next + text::split_where(v@.skip(to + 1), is_separator()));
            done = next;
        }
        from = to + 1;
    }
}

/// Reads a comma- or semicolon-separated address line. White space round a
/// segment and blank segments are dropped; a segment such as
/// `Name <addr@host>` gives the bracketed address, and no name is kept.
pub fn parse_addrs(line: &str) -> (r: Vec<EmailAddress>)
    requires
        well_bracketed(line@),
    ensures
        model::addresses(r@) == parsed_addresses(line@),
{
    match try_parse_addrs(line) {
        Some(v) => v,
        None => Vec::new(),
    }
}

// ---------------------------------------------------------------------
// Writing and reading back
// ---------------------------------------------------------------------

/// The character means something on an address line.
pub open spec fn is_mark(c: char) -> bool {
    c == ',' || c == ';' || c == '<' || c == '>'
}

/// `s` holds no character that means something on an address line.
pub open spec fn is_plain(s: Seq<char>) -> bool {
    forall|i: int| 0 <= i < s.len() ==> !is_mark(#[trigger] s[i])
}

/// An address that can be read back: it is not blank, has no white space at its
/// ends, and neither it nor its name holds a separator or an angle bracket.
pub open spec fn is_readable(a: AddressModel) -> bool {
    &&& a.address.len() > 0
    &&& !text::is_white(a.address[0])
    &&& !text::is_white(a.address.last())
    &&& is_plain(a.address)
    &&& a.display_name matches Some(n) ==> is_plain(n)
}

/// The address without its name.
pub open spec fn nameless(a: AddressModel) -> AddressModel {
    AddressModel { address: a.address, display_name: None }
}

/// Splitting at a separator splits what is before it and what is after it.
proof fn lemma_split_at(a: Seq<char>, c: char, b: Seq<char>, p: spec_fn(char) -> bool)
    requires
        p(c),
    ensures
        text::split_where(a.push(c) + b, p) == text::split_where(a, p) + text::split_where(b, p),
    decreases a.len(),
{
    let s = a.push(c) + b;
    text::lemma_first_where_bounds(a, p);
    let i = text::first_where(a, p);
    if i < a.len() {
        assert forall|j: int| 0 <= j < i implies !p(#[trigger] s[j]) by {
            assert(s[j] == a[j]);
        }
        assert(s[i] == a[i]);
        text::lemma_first_where(s, p, i);
        lemma_split_at(a.skip(i + 1), c, b, p);
        assert(s.skip(i + 1) =~= a.skip(i + 1).push(c) + b);
        assert(s.take(i) =~= a.take(i));
        assert(seq![a.take(i)] + (text::split_where(a.skip(i + 1), p) + text::split_where(b, p)) =~= (
        seq![a.take(i)] + text::split_where(a.skip(i + 1), p)) + text::split_where(b, p));
    } else {
        assert forall|j: int| 0 <= j < a.len() implies !p(#[trigger] s[j]) by {
            assert(s[j] == a[j]);
        }
        assert(s[a.len() as int] == c);
        text::lemma_first_where(s, p, a.len() as int);
        assert(s.skip(a.len() as int + 1) =~= b);
        assert(s.take(a.len() as int) =~= a);
    }
}

/// Splitting what holds no separator leaves it whole.
proof fn lemma_split_none(s: Seq<char>, p: spec_fn(char) -> bool)
    requires
        forall|j: int| 0 <= j < s.len() ==> !p(#[trigger] s[j]),
    ensures
        text::split_where(s, p) == seq![s],
{
    text::lemma_first_where(s, p, s.len() as int);
}

/// A label without the white space before it, read as an address.
proof fn lemma_label_is_read(a: AddressModel, lead: Seq<char>)
    requires
        is_readable(a),
        forall|j: int| 0 <= j < lead.len() ==> #[trigger] lead[j] == ' ',
    ensures
        ({
            let raw = text::trimmed(lead + address_label(a.address, a.display_name));
            raw.len() > 0 && brackets_ordered(raw) && address_in(raw) == a.address
        }),
{
    reveal_strlit(" <");
    reveal_strlit(">");
    let label = address_label(a.address, a.display_name);
    let s = lead + label;
    let white = |c: char| text::is_white(c);
    let ink = |c: char| !text::is_white(c);
    text::lemma_first_where_bounds(s, ink);
    let i = text::first_where(s, ink);
    let named = a.display_name is Some && a.display_name->0.len() > 0;
    let open = if named {
        lead.len() as int + a.display_name->0.len() as int + 1
    } else {
        lead.len() as int
    };
    assert(!text::is_white('<') && !text::is_white('>'));
    assert(s[open] == if named {
        '<'
    } else {
        a.address[0]
    });
    assert(i <= open) by {
        if i > open {
            assert(!ink(s[open]));
        }
    }
    assert(i < s.len());
    assert forall|j: int| 0 <= j < i implies white(#[trigger] s[j]) by {
        assert(!ink(s[j]));
    }
    text::lemma_strip_start(s, white, i);
    let t = s.skip(i);
    assert(t.last() == if named {
        '>'
    } else {
        a.address.last()
    });
    text::lemma_strip_end(t, white, t.len() as int);
    assert(t.take(t.len() as int) =~= t);
    let raw = text::trimmed(s);
    assert(raw == t);
    let o = open - i;
    let n = raw.len() as int;
    if named {
        let name = a.display_name->0;
        assert forall|j: int| 0 <= j < o implies !text::is_char('<')(#[trigger] raw[j]) by {
            let k = j + i;
            assert(raw[j] == s[k]);
            if k < lead.len() {
                assert(s[k] == lead[k]);
            } else if k < lead.len() + name.len() {
                assert(s[k] == name[k - lead.len()]);
            } else {
                assert(s[k] == ' ');
            }
        }
        assert(raw[o] == '<');
        text::lemma_first_where(raw, text::is_char('<'), o);
        assert(raw[n - 1] == '>');
        text::lemma_last_where(raw, text::is_char('>'), n - 1);
        let inner = raw.subrange(o + 1, n - 1);
        assert(inner =~= a.address);
        text::lemma_strip_start(inner, white, 0);
        assert(inner.skip(0) =~= inner);
        text::lemma_strip_end(inner, white, inner.len() as int);
        assert(inner.take(inner.len() as int) =~= inner);
    } else {
        assert(label == a.address);
        assert(o == 0) by {
            if i < open {
                assert(s[i] == lead[i]);
                assert(ink(s[i]));
            }
        }
        assert(raw =~= a.address);
        assert forall|j: int| 0 <= j < n implies !text::is_char('<')(#[trigger] raw[j]) by {
            assert(!is_mark(a.address[j]));
        }
        text::lemma_first_where(raw, text::is_char('<'), n);
    }
}

/// A label holds no separator.
proof fn lemma_label_has_no_separator(a: AddressModel, lead: Seq<char>)
    requires
        is_readable(a),
        forall|j: int| 0 <= j < lead.len() ==> #[trigger] lead[j] == ' ',
    ensures
        text::split_where(lead + address_label(a.address, a.display_name), is_separator()) == seq![
            lead + address_label(a.address, a.display_name),
        ],
{
    reveal_strlit(" <");
    reveal_strlit(">");
    let s = lead + address_label(a.address, a.display_name);
    let named = a.display_name is Some && a.display_name->0.len() > 0;
    assert forall|j: int| 0 <= j < s.len() implies !is_separator()(#[trigger] s[j]) by {
        let k = j - lead.len();
        if j < lead.len() {
            assert(s[j] == lead[j]);
        } else if named {
            let name = a.display_name->0;
            if k < name.len() {
                assert(s[j] == name[k]);
            } else if k == name.len() {
                assert(s[j] == ' ');
            } else if k == name.len() + 1 {
                assert(s[j] == '<');
            } else if k < name.len() + 2 + a.address.len() {
                assert(s[j] == a.address[k - name.len() - 2]);
            } else {
                assert(s[j] == '>');
            }
        } else {
            assert(s[j] == a.address[k]);
        }
    }
    lemma_split_none(s, is_separator());
}

/// A line names the given addresses, and can be read.
spec fn names(line: Seq<char>, addrs: Seq<AddressModel>) -> bool {
    well_bracketed(line) && parsed_addresses(line) == addrs.map_values(
        |a: AddressModel| nameless(a),
    )
}

/// An empty line names no address.
proof fn lemma_empty_line()
    ensures
        names(Seq::empty(), Seq::empty()),
{
    let none = Seq::<char>::empty();
    let white = |c: char| text::is_white(c);
    lemma_split_none(none, is_separator());
    text::lemma_strip_start(none, white, 0);
    assert(none.skip(0) =~= none);
    text::lemma_strip_end(none, white, 0);
    assert(none.take(0) =~= none);
    assert(text::trimmed(none) == none);
    assert(segments(none).drop_last() =~= Seq::<Seq<char>>::empty());
    assert(addresses_in(segments(none).drop_last()) == Seq::<AddressModel>::empty());
    assert(!has_brackets(none)) by {
        text::lemma_first_where_bounds(none, text::is_char('<'));
    }
    assert(parsed_addresses(none) =~= Seq::<AddressModel>::empty());
    assert(Seq::<AddressModel>::empty().map_values(|a: AddressModel| nameless(a)) =~= Seq::<
        AddressModel,
    >::empty());
}

/// A line with one label names its address.
proof fn lemma_single_label(a: AddressModel)
    requires
        is_readable(a),
    ensures
        names(address_label(a.address, a.display_name), seq![a]),
{
    let line = address_label(a.address, a.display_name);
    let none = Seq::<char>::empty();
    assert(none + line =~= line);
    lemma_label_is_read(a, none);
    lemma_label_has_no_separator(a, none);
    let segs = segments(line);
    assert(segs == seq![line]);
    assert(segs.drop_last() =~= Seq::<Seq<char>>::empty());
    assert(addresses_in(segs.drop_last()) =~= Seq::<AddressModel>::empty());
    assert(addresses_in(segs) =~= seq![nameless(a)]);
    assert(seq![a].map_values(|a: AddressModel| nameless(a)) =~= seq![nameless(a)]);
}

/// A label behind a line names one address more.
proof fn lemma_label_behind(front: Seq<char>, init: Seq<AddressModel>, a: AddressModel)
    requires
        is_readable(a),
        names(front, init),
    ensures
        names(front + ", "@ + address_label(a.address, a.display_name), init.push(a)),
{
    reveal_strlit(", ");
    let lead = seq![' '];
    let tail = lead + address_label(a.address, a.display_name);
    let line = front + ", "@ + address_label(a.address, a.display_name);
    assert(line =~= front.push(',') + tail);
    lemma_split_at(front, ',', tail, is_separator());
    lemma_label_has_no_separator(a, lead);
    lemma_label_is_read(a, lead);
    let segs = segments(line);
    let before = segments(front);
    assert(segs == before + seq![tail]);
    assert(segs =~= before.push(tail));
    assert(segs.drop_last() =~= before);
    assert(segs.last() == tail);
    assert forall|i: int| 0 <= i < segs.len() implies brackets_ordered(
        text::trimmed(#[trigger] segs[i]),
    ) by {
        if i < before.len() {
            assert(segs[i] == before[i]);
        }
    }
    assert(addresses_in(segs) == addresses_in(before).push(nameless(a)));
    assert(init.push(a).map_values(|a: AddressModel| nameless(a)) =~= init.map_values(
        |a: AddressModel| nameless(a),
    ).push(nameless(a)));
}

/// A list of readable addresses that is written on a line and read back names
/// the same addresses in the same order. Names are not read back.
pub proof fn law_written_addresses_read_back(addrs: Seq<AddressModel>)
    requires
        forall|i: int| 0 <= i < addrs.len() ==> is_readable(#[trigger] addrs[i]),
    ensures
        well_bracketed(address_line(addrs)),
        parsed_addresses(address_line(addrs)) == addrs.map_values(|a: AddressModel| nameless(a)),
    decreases addrs.len(),
{
    let labels = addrs.map_values(|a: AddressModel| address_label(a.address, a.display_name));
    if addrs.len() == 0 {
        lemma_empty_line();
        assert(addrs =~= Seq::empty());
        assert(address_line(addrs) =~= Seq::empty());
    } else if addrs.len() == 1 {
        lemma_single_label(addrs[0]);
        assert(addrs =~= seq![addrs[0]]);
        assert(address_line(addrs) == labels[0]);
    } else {
        let init = addrs.drop_last();
        assert forall|i: int| 0 <= i < init.len() implies is_readable(#[trigger] init[i]) by {
            assert(init[i] == addrs[i]);
        }
        law_written_addresses_read_back(init);
        lemma_label_behind(address_line(init), init, addrs.last());
        assert(labels.drop_last() =~= init.map_values(
            |a: AddressModel| address_label(a.address, a.display_name),
        ));
        assert(labels.last() == address_label(addrs.last().address, addrs.last().display_name));
        assert(address_line(addrs) == address_line(init) + ", "@ + labels.last());
        assert(init.push(addrs.last()) =~= addrs);
    }
}

/// White space alone trims to nothing, and so names no address.
proof fn lemma_blank(blank: Seq<char>)
    requires
        forall|j: int| 0 <= j < blank.len() ==> #[trigger] blank[j] == ' ',
    ensures
        text::trimmed(blank).len() == 0,
        brackets_ordered(text::trimmed(blank)),
{
    let white = |c: char| text::is_white(c);
    assert forall|j: int| 0 <= j < blank.len() implies white(#[trigger] blank[j]) by {
        assert(blank[j] == ' ');
    }
    text::lemma_strip_start(blank, white, blank.len() as int);
    let rest = blank.skip(blank.len() as int);
    text::lemma_strip_end(rest, white, 0);
    assert(text::trimmed(blank) =~= Seq::<char>::empty());
    text::lemma_first_where_bounds(text::trimmed(blank), text::is_char('<'));
}

/// A label between blanks, behind what ends with a separator or is empty, is
/// one segment more, and a blank one after it.
proof fn lemma_label_then_blank(a: AddressModel, lead: Seq<char>)
    requires
        is_readable(a),
        forall|j: int| 0 <= j < lead.len() ==> #[trigger] lead[j] == ' ',
    ensures
        segments(lead + address_label(a.address, a.display_name) + ", "@) == seq![
            lead + address_label(a.address, a.display_name),
            seq![' '],
        ],
{
    reveal_strlit(", ");
    let label = lead + address_label(a.address, a.display_name);
    let blank = seq![' '];
    assert(label + ", "@ =~= label.push(',') + blank);
    lemma_split_at(label, ',', blank, is_separator());
    lemma_label_has_no_separator(a, lead);
    lemma_split_none(blank, is_separator());
    assert(seq![label] + seq![blank] =~= seq![label, blank]);
}

/// Completing the address being typed keeps the addresses before it and adds
/// the chosen one behind them.
pub proof fn law_completion_adds_one_address(line: Seq<char>, a: AddressModel)
    requires
        is_readable(a),
        well_bracketed(line.take(segment_start(line))),
    ensures
        ({
            let done = segment_replaced(line, address_label(a.address, a.display_name));
            &&& well_bracketed(done)
            &&& parsed_addresses(done) == parsed_addresses(line.take(segment_start(line))).push(
                nameless(a),
            )
        }),
{
    reveal_strlit("");
    reveal_strlit(" ");
    let label = address_label(a.address, a.display_name);
    let st = segment_start(line);
    text::lemma_last_where_bounds(line, is_separator());
    let prefix = line.take(st);
    let done = segment_replaced(line, label);
    let none = Seq::<char>::empty();
    let lead = if st == 0 {
        none
    } else {
        seq![' ']
    };
    let tail = lead + label + ", "@;
    lemma_label_then_blank(a, lead);
    lemma_label_is_read(a, lead);
    lemma_blank(seq![' ']);
    lemma_blank(none);
    let front: Seq<Seq<char>> = if st == 0 {
        Seq::empty()
    } else {
        segments(prefix.drop_last())
    };
    if st == 0 {
        lemma_empty_line();
        assert(prefix =~= none);
        assert(done =~= tail);
        assert(front + segments(tail) =~= segments(done));
        assert(Seq::<AddressModel>::empty().map_values(|a: AddressModel| nameless(a)) =~= Seq::<
            AddressModel,
        >::empty());
    } else {
        let body = prefix.drop_last();
        let c = prefix.last();
        assert(prefix =~= body.push(c));
        assert(done =~= body.push(c) + tail);
        lemma_split_at(body, c, tail, is_separator());
        assert(prefix =~= body.push(c) + none);
        lemma_split_at(body, c, none, is_separator());
        lemma_split_none(none, is_separator());
        assert(segments(prefix) =~= front.push(none));
        assert(segments(prefix).drop_last() =~= front);
        assert forall|i: int| 0 <= i < front.len() implies brackets_ordered(
            text::trimmed(#[trigger] front[i]),
        ) by {
            assert(segments(prefix)[i] == front[i]);
        }
    }
    let one = front.push(lead + label);
    let all = one.push(seq![' ']);
    assert(segments(done) =~= all);
    assert(all.drop_last() =~= one);
    assert(one.drop_last() =~= front);
    assert(addresses_in(one) == addresses_in(front).push(nameless(a)));
    assert(addresses_in(all) == addresses_in(one));
    assert(addresses_in(front) =~= parsed_addresses(prefix));
    assert forall|i: int| 0 <= i < all.len() implies brackets_ordered(
        text::trimmed(#[trigger] all[i]),
    ) by {
        if i < front.len() {
            assert(all[i] == front[i]);
        }
    }
}

// ---------------------------------------------------------------------
// How lines of addresses are read and written
// ---------------------------------------------------------------------

/// An address is written with the name of its owner before it, in angle
/// brackets, where the name is known.
pub proof fn law_addresses_are_written_with_their_name(address: Seq<char>, name: Seq<char>)
    ensures
        name.len() > 0 ==> address_label(address, Some(name)) == name + " <"@ + address + ">"@,
        name.len() == 0 ==> address_label(address, Some(name)) == address,
        address_label(address, None) == address,
{
}

/// Commas and semicolons separate addresses: a line of two parts names those of
/// the first part and then those of the second.
pub proof fn law_separators_separate(a: Seq<char>, b: Seq<char>, c: char)
    requires
        c == ',' || c == ';',
    ensures
        parsed_addresses(a.push(c) + b) == parsed_addresses(a) + parsed_addresses(b),
        well_bracketed(a.push(c) + b) <==> well_bracketed(a) && well_bracketed(b),
{
    let p = is_separator();
    lemma_split_at(a, c, b, p);
    lemma_addresses_add(segments(a), segments(b));
    let s = segments(a.push(c) + b);
    let x = segments(a);
    let y = segments(b);
    assert(s == x + y);
    if well_bracketed(a.push(c) + b) {
        assert forall|i: int| 0 <= i < x.len() implies brackets_ordered(
            text::trimmed(#[trigger] x[i]),
        ) by {
            assert(s[i] == x[i]);
        }
        assert forall|i: int| 0 <= i < y.len() implies brackets_ordered(
            text::trimmed(#[trigger] y[i]),
        ) by {
            assert(s[x.len() + i] == y[i]);
        }
    }
    if well_bracketed(a) && well_bracketed(b) {
        assert forall|i: int| 0 <= i < s.len() implies brackets_ordered(
            text::trimmed(#[trigger] s[i]),
        ) by {
            if i < x.len() {
                assert(s[i] == x[i]);
            } else {
                assert(s[i] == y[i - x.len()]);
            }
        }
    }
}

/// The addresses of segments are those of their parts.
proof fn lemma_addresses_add(x: Seq<Seq<char>>, y: Seq<Seq<char>>)
    ensures
        addresses_in(x + y) == addresses_in(x) + addresses_in(y),
    decreases y.len(),
{
    if y.len() == 0 {
        assert(x + y =~= x);
        assert(addresses_in(x) + addresses_in(y) =~= addresses_in(x));
    } else {
        lemma_addresses_add(x, y.drop_last());
        assert((x + y).drop_last() =~= x + y.drop_last());
        assert((x + y).last() == y.last());
        assert(addresses_in(x + y) =~= addresses_in(x) + addresses_in(y));
    }
}

/// A part of a line names one address: what stands in its angle brackets, or
/// all of it where it has none; white space around it does not count. A blank
/// part names none.
pub proof fn law_a_part_names_one_address(name: Seq<char>, address: Seq<char>, blank: Seq<char>)
    requires
        forall|i: int|
            0 <= i < name.len() ==> #[trigger] name[i] != ',' && name[i] != ';' && name[i] != '<'
                && name[i] != '>',
        forall|i: int|
            0 <= i < address.len() ==> #[trigger] address[i] != ',' && address[i] != ';'
                && address[i] != '<' && address[i] != '>',
        forall|i: int|
            0 <= i < blank.len() ==> text::is_white(#[trigger] blank[i]),
        address.len() > 0,
        !text::is_white(address[0]),
        !text::is_white(address.last()),
        name.len() > 0 ==> !text::is_white(name[0]),
    ensures
        parsed_addresses(address) == seq![AddressModel { address, display_name: None }],
        parsed_addresses(name + seq!['<'] + address + seq!['>']) == seq![
            AddressModel { address, display_name: None },
        ],
        well_bracketed(address),
        well_bracketed(name + seq!['<'] + address + seq!['>']),
        parsed_addresses(blank) == Seq::<AddressModel>::empty(),
{
    let p = is_separator();
    let none = Seq::<char>::empty();
    // The address alone.
    lemma_split_none(address, p);
    assert(none + address + none =~= address);
    text::law_trimming_keeps_the_core(none, address, none);
    text::lemma_first_where(address, text::is_char('<'), address.len() as int);
    assert(seq![address].drop_last() =~= Seq::<Seq<char>>::empty());
    assert(segments(address)[0] == address);
    assert(addresses_in(Seq::<Seq<char>>::empty()) == Seq::<AddressModel>::empty());
    assert(parsed_addresses(address) =~= seq![AddressModel { address, display_name: None }]);
    // With a name.
    let s = name + seq!['<'] + address + seq!['>'];
    let n = name.len() as int;
    assert forall|j: int| 0 <= j < s.len() implies !p(#[trigger] s[j]) by {
        if j < n {
            assert(s[j] == name[j]);
        } else if j > n && j < s.len() - 1 {
            assert(s[j] == address[j - n - 1]);
        }
    }
    lemma_split_none(s, p);
    assert(none + s + none =~= s);
    assert(s.last() == '>');
    assert(n > 0 ==> s[0] == name[0]);
    assert(n == 0 ==> s[0] == '<');
    text::law_trimming_keeps_the_core(none, s, none);
    assert(s[n] == '<');
    assert forall|j: int| 0 <= j < n implies !text::is_char('<')(#[trigger] s[j]) by {
        assert(s[j] == name[j]);
    }
    text::lemma_first_where(s, text::is_char('<'), n);
    text::lemma_last_where(s, text::is_char('>'), s.len() - 1);
    assert(s.subrange(n + 1, s.len() - 1) =~= address);
    assert(seq![s].drop_last() =~= Seq::<Seq<char>>::empty());
    assert(segments(s)[0] == s);
    text::law_trimming_keeps_the_core(none, address, none);
    assert(address_in(s) == address);
    assert(parsed_addresses(s) =~= seq![AddressModel { address, display_name: None }]);
    // Nothing.
    assert forall|j: int| 0 <= j < blank.len() implies !p(#[trigger] blank[j]) by {}
    lemma_split_none(blank, p);
    assert(blank + none + none =~= blank);
    text::law_trimming_keeps_the_core(blank, none, none);
    assert(seq![blank].drop_last() =~= Seq::<Seq<char>>::empty());
}

/// What is being typed starts behind the last comma or semicolon. Choosing a
/// suggestion replaces it, and only it, by the suggestion, behind which the
/// next address can be typed.
pub proof fn law_only_what_is_typed_is_replaced(
    front: Seq<char>,
    c: char,
    typed: Seq<char>,
    chosen: Seq<char>,
)
    requires
        c == ',' || c == ';',
        forall|i: int| 0 <= i < typed.len() ==> #[trigger] typed[i] != ',' && typed[i] != ';',
    ensures
        segment_start(typed) == 0,
        segment_start(front.push(c) + typed) == front.len() + 1,
        segment_replaced(typed, chosen) == chosen + ", "@,
        segment_replaced(front.push(c) + typed, chosen) == front.push(c) + " "@ + chosen + ", "@,
{
    let p = is_separator();
    let s = front.push(c) + typed;
    let n = front.len() as int;
    text::lemma_last_where(typed, p, -1);
    assert(s[n] == c);
    assert forall|j: int| n < j < s.len() implies !p(#[trigger] s[j]) by {
        assert(s[j] == typed[j - n - 1]);
    }
    text::lemma_last_where(s, p, n);
    assert(s.take(n + 1) =~= front.push(c));
    reveal_strlit("");
    assert(typed.take(0) + ""@ + chosen + ", "@ =~= chosen + ", "@);
}

/// Within a part the address stands between the first opening bracket and the
/// last closing one; a part without both is the address itself.
pub proof fn law_the_outer_brackets_count(
    name: Seq<char>,
    inner: Seq<char>,
    tail: Seq<char>,
    plain: Seq<char>,
)
    requires
        forall|i: int|
            0 <= i < name.len() ==> #[trigger] name[i] != ',' && name[i] != ';' && name[i] != '<',
        forall|i: int| 0 <= i < inner.len() ==> #[trigger] inner[i] != ',' && inner[i] != ';',
        forall|i: int|
            0 <= i < tail.len() ==> #[trigger] tail[i] != ',' && tail[i] != ';' && tail[i] != '>',
        name.len() > 0 ==> !text::is_white(name[0]),
        tail.len() > 0 ==> !text::is_white(tail.last()),
        forall|i: int| 0 <= i < plain.len() ==> #[trigger] plain[i] != ',' && plain[i] != ';',
        plain.len() > 0,
        !text::is_white(plain[0]),
        !text::is_white(plain.last()),
    ensures
        parsed_addresses(name + seq!['<'] + inner + seq!['>'] + tail) == seq![
            AddressModel { address: text::trimmed(inner), display_name: None },
        ],
        well_bracketed(name + seq!['<'] + inner + seq!['>'] + tail),
        !plain.contains('<') || !plain.contains('>') ==> parsed_addresses(plain) == seq![
            AddressModel { address: plain, display_name: None },
        ] && well_bracketed(plain),
{
    let p = is_separator();
    let none = Seq::<char>::empty();
    let s = name + seq!['<'] + inner + seq!['>'] + tail;
    let n = name.len() as int;
    let m = n + 1 + inner.len();
    assert(s[n] == '<');
    assert(s[m] == '>');
    assert forall|j: int| 0 <= j < s.len() implies !p(#[trigger] s[j]) by {
        if j < n {
            assert(s[j] == name[j]);
        } else if n < j < m {
            assert(s[j] == inner[j - n - 1]);
        } else if j > m {
            assert(s[j] == tail[j - m - 1]);
        }
    }
    lemma_split_none(s, p);
    assert(none + s + none =~= s);
    assert(n > 0 ==> s[0] == name[0]);
    assert(tail.len() > 0 ==> s.last() == tail.last());
    text::law_trimming_keeps_the_core(none, s, none);
    assert forall|j: int| 0 <= j < n implies !text::is_char('<')(#[trigger] s[j]) by {
        assert(s[j] == name[j]);
    }
    assert forall|j: int| m < j < s.len() implies !text::is_char('>')(#[trigger] s[j]) by {
        assert(s[j] == tail[j - m - 1]);
    }
    text::lemma_first_where(s, text::is_char('<'), n);
    text::lemma_last_where(s, text::is_char('>'), m);
    assert(s.subrange(n + 1, m) =~= inner);
    assert(seq![s].drop_last() =~= Seq::<Seq<char>>::empty());
    assert(segments(s)[0] == s);
    assert(addresses_in(Seq::<Seq<char>>::empty()) == Seq::<AddressModel>::empty());
    assert(parsed_addresses(s) =~= seq![
        AddressModel { address: text::trimmed(inner), display_name: None },
    ]);
    if !plain.contains('<') || !plain.contains('>') {
        assert forall|j: int| 0 <= j < plain.len() implies !p(#[trigger] plain[j]) by {}
        lemma_split_none(plain, p);
        assert(none + plain + none =~= plain);
        text::law_trimming_keeps_the_core(none, plain, none);
        if !plain.contains('<') {
            assert forall|j: int| 0 <= j < plain.len() implies !text::is_char('<')(
                #[trigger] plain[j],
            ) by {}
            text::lemma_first_where(plain, text::is_char('<'), plain.len() as int);
        } else {
            assert forall|j: int| 0 <= j < plain.len() implies !text::is_char('>')(
                #[trigger] plain[j],
            ) by {}
            text::lemma_last_where(plain, text::is_char('>'), -1);
        }
        assert(seq![plain].drop_last() =~= Seq::<Seq<char>>::empty());
        assert(segments(plain)[0] == plain);
        assert(parsed_addresses(plain) =~= seq![AddressModel { address: plain, display_name: None }]);
    }
}

} // verus!
