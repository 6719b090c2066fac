//! Saving attachments: which part is meant, and under which name it is saved.
use vstd::prelude::*;

use crate::model;
use crate::model::{AttachmentRef, IpcError, IpcErrorKind, MessageId};
use crate::number;
use crate::number::{decimal_text, parse_usize_from};
use crate::text;
use crate::text::{after_last_index, chars_of, control, starts_with, string_of, whitespace};

verus! {

// ---------------------------------------------------------------------
// Which part
// ---------------------------------------------------------------------

/// The part that an attachment id names: `part/` and an index.
pub open spec fn part_of(id: Seq<char>) -> Option<nat> {
    if "part/"@.is_prefix_of(id) {
        number::unsigned_value(id.skip("part/"@.len() as int))
    } else {
        None
    }
}

/// The index that an attachment id names.
pub fn attachment_part(id: &AttachmentRef) -> (r: Result<usize, IpcError>)
    ensures
        match r {
            Ok(n) => part_of(id@) == Some(n as nat),
            Err(e) => {
                &&& match part_of(id@) {
                    Some(n) => n > usize::MAX,
                    None => true,
                }
                &&& e.kind == IpcErrorKind::Internal
                &&& e.message@ == "messages_open_attachment: unrecognized attachment id `"@ + id@
                    + "`"@
            },
        },
{
    proof {
        reveal_strlit("part/");
    }
    if starts_with(&id.0, "part/") {
        let v = chars_of(&id.0);
        if let Some(n) = parse_usize_from(&v, 5) {
            return Ok(n);
        }
    }
    let mut m = "messages_open_attachment: unrecognized attachment id `".to_owned();
    m.append(&id.0);
    m.append("`");
    Err(IpcError { kind: IpcErrorKind::Internal, message: m })
}

/// The error where the message's text could not be loaded.
pub fn body_missing(message_id: &MessageId) -> (e: IpcError)
    ensures
        e.kind == IpcErrorKind::NotFound,
        e.message@ == "messages_open_attachment: could not load body for "@ + message_id@,
{
    let mut m = "messages_open_attachment: could not load body for ".to_owned();
    m.append(&message_id.0);
    IpcError { kind: IpcErrorKind::NotFound, message: m }
}

/// The error where the message has no such part.
pub fn part_missing(part_index: usize) -> (e: IpcError)
    ensures
        e.kind == IpcErrorKind::NotFound,
        e.message@ == "messages_open_attachment: no binary part at index "@ + number::decimal(
            part_index as nat,
        ),
{
    let mut m = "messages_open_attachment: no binary part at index ".to_owned();
    let n = decimal_text(part_index as u64);
    m.append(&n);
    IpcError { kind: IpcErrorKind::NotFound, message: m }
}

/// The error where the directory for attachments could not be made.
pub fn dir_not_made(dir: &str, reason: &str) -> (e: IpcError)
    ensures
        e.kind == IpcErrorKind::Storage,
        e.message@ == "messages_open_attachment: create "@ + dir@ + ": "@ + reason@,
{
    let mut m = "messages_open_attachment: create ".to_owned();
    m.append(dir);
    m.append(": ");
    m.append(reason);
    IpcError { kind: IpcErrorKind::Storage, message: m }
}

/// The error where an attachment could not be written.
pub fn file_not_written(path: &str, reason: &str) -> (e: IpcError)
    ensures
        e.kind == IpcErrorKind::Storage,
        e.message@ == "messages_open_attachment: write "@ + path@ + ": "@ + reason@,
{
    let mut m = "messages_open_attachment: write ".to_owned();
    m.append(path);
    m.append(": ");
    m.append(reason);
    IpcError { kind: IpcErrorKind::Storage, message: m }
}

/// The error where an attachment was saved and could not be opened.
pub fn file_not_opened(path: &str, reason: &str) -> (e: IpcError)
    ensures
        e.kind == IpcErrorKind::Internal,
        e.message@ == "saved to "@ + path@ + " but failed to open: "@ + reason@,
{
    let mut m = "saved to ".to_owned();
    m.append(path);
    m.append(" but failed to open: ");
    m.append(reason);
    IpcError { kind: IpcErrorKind::Internal, message: m }
}

// ---------------------------------------------------------------------
// A safe name
// ---------------------------------------------------------------------

/// A character that may not stand in a file name.
pub open spec fn is_unsafe_char(c: char) -> bool {
    c == '/' || c == '\\' || c == ':' || text::is_control(c)
}

/// `c`, or an underscore in the place of an unsafe character.
pub open spec fn safe_char(c: char) -> char {
    if is_unsafe_char(c) {
        '_'
    } else {
        c
    }
}

/// Dots and white space are cut from the ends of a file name.
pub open spec fn is_edge() -> spec_fn(char) -> bool {
    |c: char| c == '.' || text::is_white(c)
}

/// The name under which an attachment called `raw` is saved.
pub open spec fn safe_filename(raw: Seq<char>) -> Seq<char> {
    let cut = text::strip_end(text::strip_start(raw.map_values(|c: char| safe_char(c)), is_edge()), is_edge());
    if cut.len() == 0 {
        "attachment.bin"@
    } else {
        cut
    }
}

/// See [`safe_filename`]: replaces what could lead out of the directory, cuts
/// dots and white space from the ends, and never returns the empty name.
pub fn sanitize_attachment_filename(raw: &str) -> (r: String)
    ensures
        r@ == safe_filename(raw@),
{
    let v = chars_of(raw);
    let ghost mapped = raw@.map_values(|c: char| safe_char(c));
    let mut w: Vec<char> = Vec::new();
    let mut i: usize = 0;
    while i < v.len()
        invariant
            v@ == raw@,
            i <= v@.len(),
            w@.len() == i,
            forall|j: int| 0 <= j < i ==> #[trigger] w@[j] == safe_char(v@[j]),
        decreases v@.len() - i,
    {
        let c = v[i];
        if c == '/' || c == '\\' || c == ':' || control(c) {
            w.push('_');
        } else {
            w.push(c);
        }
        i = i + 1;
    }
    assert(w@ =~= mapped);
    let mut from: usize = 0;
    while from < w.len() && (w[from] == '.' || whitespace(w[from]))
        invariant
            from <= w@.len(),
            forall|j: int| 0 <= j < from ==> is_edge()(#[trigger] w@[j]),
        decreases w@.len() - from,
    {
        from = from + 1;
    }
    let mut to: usize = w.len();
    while from < to && (w[to - 1] == '.' || whitespace(w[to - 1]))
        invariant
            from <= to <= w@.len(),
            forall|j: int| to <= j < w@.len() ==> is_edge()(#[trigger] w@[j]),
        decreases to,
    {
        to = to - 1;
    }
    proof {
        text::lemma_strip_start(mapped, is_edge(), from as int);
        let t = mapped.skip(from as int);
        assert forall|j: int| to - from <= j < t.len() implies is_edge()(#[trigger] t[j]) by {
            assert(t[j] == w@[j + from]);
        }
        text::lemma_strip_end(t, is_edge(), to - from);
        assert(t.take(to - from) =~= w@.subrange(from as int, to as int));
    }
    if from == to {
        "attachment.bin".to_owned()
    } else {
        string_of(&w, from, to)
    }
}

/// What is left after cutting the start is a part of what was there.
proof fn lemma_strip_start_part(s: Seq<char>, p: spec_fn(char) -> bool)
    ensures
        text::strip_start(s, p).len() <= s.len(),
        text::strip_start(s, p) == s.skip(s.len() - text::strip_start(s, p).len()),
        text::strip_start(s, p).len() > 0 ==> !p(text::strip_start(s, p)[0]),
    decreases s.len(),
{
    if s.len() > 0 && p(s[0]) {
        lemma_strip_start_part(s.drop_first(), p);
        let r = text::strip_start(s, p);
        assert(s.drop_first().skip(s.len() - 1 - r.len()) =~= s.skip(s.len() - r.len()));
    } else {
        assert(s.skip(0) =~= s);
    }
}

/// What is left after cutting the end is a part of what was there.
proof fn lemma_strip_end_part(s: Seq<char>, p: spec_fn(char) -> bool)
    ensures
        text::strip_end(s, p).len() <= s.len(),
        text::strip_end(s, p) == s.take(text::strip_end(s, p).len() as int),
        text::strip_end(s, p).len() > 0 ==> !p(text::strip_end(s, p).last()),
    decreases s.len(),
{
    if s.len() > 0 && p(s.last()) {
        lemma_strip_end_part(s.drop_last(), p);
        let r = text::strip_end(s, p);
        assert(s.drop_last().take(r.len() as int) =~= s.take(r.len() as int));
    } else {
        assert(s.take(s.len() as int) =~= s);
    }
}

/// A saved attachment's name is not empty, holds no path separator, colon or
/// control character, and neither starts nor ends with a dot or white space:
/// it names a file in the directory that it is saved in.
pub proof fn law_safe_filename_stays_in_its_directory(raw: Seq<char>)
    ensures
        safe_filename(raw).len() > 0,
        forall|i: int|
            0 <= i < safe_filename(raw).len() ==> !is_unsafe_char(#[trigger] safe_filename(raw)[i]),
        !is_edge()(safe_filename(raw)[0]),
        !is_edge()(safe_filename(raw).last()),
{
    let mapped = raw.map_values(|c: char| safe_char(c));
    let a = text::strip_start(mapped, is_edge());
    let b = text::strip_end(a, is_edge());
    lemma_strip_start_part(mapped, is_edge());
    lemma_strip_end_part(a, is_edge());
    reveal_strlit("attachment.bin");
    if b.len() > 0 {
        assert(b[0] == a[0]);
        assert forall|i: int| 0 <= i < b.len() implies !is_unsafe_char(#[trigger] b[i]) by {
            assert(b[i] == a[i]);
            let k = mapped.len() - a.len() + i;
            assert(a[i] == mapped[k]);
            assert(mapped[k] == safe_char(raw[k]));
        }
    }
}

// ---------------------------------------------------------------------
// A name that is not taken
// ---------------------------------------------------------------------

/// Where a file name is split: before its last dot, unless that is its first
/// character or there is none.
pub open spec fn stem_len(name: Seq<char>) -> int {
    let d = text::last_index(name, '.');
    if d > 0 {
        d
    } else {
        name.len() as int
    }
}

/// The name with ` (n)` before its extension.
pub open spec fn numbered(name: Seq<char>, n: nat) -> Seq<char> {
    name.take(stem_len(name)) + " ("@ + number::decimal(n) + ")"@ + name.skip(stem_len(name))
}

/// The name to try as number `n`: the name itself first.
pub open spec fn candidate(name: Seq<char>, n: nat) -> Seq<char> {
    if n == 0 {
        name
    } else {
        numbered(name, n)
    }
}

/// See [`candidate`].
pub fn candidate_name(name: &str, n: u64) -> (r: String)
    ensures
        r@ == candidate(name@, n as nat),
{
    if n == 0 {
        return name.to_owned();
    }
    let v = chars_of(name);
    let after = after_last_index(&v, '.');
    let cut: usize = if after > 1 {
        after - 1
    } else {
        v.len()
    };
    let mut r = string_of(&v, 0, cut);
    r.append(" (");
    let d = decimal_text(n);
    r.append(&d);
    r.append(")");
    let ext = string_of(&v, cut, v.len());
    r.append(&ext);
    assert(v@.subrange(0, cut as int) =~= name@.take(cut as int));
    assert(v@.subrange(cut as int, v@.len() as int) =~= name@.skip(cut as int));
    r
}

/// How many numbered names are tried.
pub const MAX_NUMBERED: u64 = 999;

/// What comes after finding out whether the name with number `n` is taken.
#[derive(Debug, Clone, Copy, PartialEq, Eq, Structural)]
pub enum NameStep {
    /// The name with this number is used.
    Use(u64),
    /// The name with this number is tried next.
    Try(u64),
}

/// The next step: a name that is not taken is used; past the last number the
/// bare name is used, whose file is then overwritten.
pub fn next_name(n: u64, taken: bool) -> (r: NameStep)
    requires
        n <= MAX_NUMBERED,
    ensures
        r == if !taken {
            NameStep::Use(n)
        } else if n < MAX_NUMBERED {
            NameStep::Try((n + 1) as u64)
        } else {
            NameStep::Use(0)
        },
{
    if !taken {
        NameStep::Use(n)
    } else if n < MAX_NUMBERED {
        NameStep::Try(n + 1)
    } else {
        NameStep::Use(0)
    }
}

/// The first candidate from number `n` on that is not in `taken`; the bare name
/// where all numbered ones are.
pub open spec fn first_free(name: Seq<char>, taken: Seq<Seq<char>>, n: nat) -> Seq<char>
    decreases MAX_NUMBERED + 1 - n,
{
    if n > MAX_NUMBERED {
        name
    } else if !taken.contains(candidate(name, n)) {
        candidate(name, n)
    } else {
        first_free(name, taken, n + 1)
    }
}

/// The name to save `filename` under in a directory that holds `existing`.
pub fn unique_path(existing: &Vec<String>, filename: &str) -> (r: String)
    ensures
        r@ == first_free(filename@, model::texts(existing@), 0),
{
    let mut n: u64 = 0;
    loop
        invariant
            n <= MAX_NUMBERED,
            first_free(filename@, model::texts(existing@), 0) == first_free(
                filename@,
                model::texts(existing@),
                n as nat,
            ),
        decreases MAX_NUMBERED - n,
    {
        let c = candidate_name(filename, n);
        let taken = is_taken(&c, existing);
        proof {
            reveal_with_fuel(first_free, 2);
        }
        match next_name(n, taken) {
            NameStep::Use(m) => {
                return candidate_name(filename, m);
            },
            NameStep::Try(m) => {
                n = m;
            },
        }
    }
}

/// Unless every candidate is taken, an attachment is saved under a name that
/// no file has yet.
pub proof fn law_no_file_is_overwritten(name: Seq<char>, taken: Seq<Seq<char>>, n: nat, free: nat)
    requires
        n <= free <= MAX_NUMBERED,
        !taken.contains(candidate(name, free)),
    ensures
        !taken.contains(first_free(name, taken, n)),
    decreases free - n,
{
    if taken.contains(candidate(name, n)) {
        law_no_file_is_overwritten(name, taken, n + 1, free);
    }
}

/// Is `name` one of `existing`?
fn is_taken(name: &String, existing: &Vec<String>) -> (r: bool)
    ensures
        r == model::texts(existing@).contains(name@),
{
    let mut i: usize = 0;
    while i < existing.len()
        invariant
            i <= existing@.len(),
            forall|j: int| 0 <= j < i ==> #[trigger] model::texts(existing@)[j] != name@,
        decreases existing@.len() - i,
    {
        if existing[i] == *name {
            assert(model::texts(existing@)[i as int] == name@);
            return true;
        }
        assert(model::texts(existing@)[i as int] != name@);
        i = i + 1;
    }
    false
}

// ---------------------------------------------------------------------
// What attachments are called
// ---------------------------------------------------------------------

/// The parts of a message are numbered in the ids of its attachments.
pub proof fn law_attachment_ids_number_parts(n: nat, id: Seq<char>)
    ensures
        part_of("part/"@ + number::decimal(n)) == Some(n),
        !"part/"@.is_prefix_of(id) ==> part_of(id) is None,
        part_of("part/"@ + id) == number::unsigned_value(id),
{
    let whole = "part/"@ + number::decimal(n);
    number::law_numerals_read_back(n);
    assert("part/"@ =~= whole.take("part/"@.len() as int));
    assert(whole.skip("part/"@.len() as int) =~= number::decimal(n));
    let other = "part/"@ + id;
    assert("part/"@ =~= other.take("part/"@.len() as int));
    assert(other.skip("part/"@.len() as int) =~= id);
}

/// A saved name holds no separator of paths, no colon and no control character,
/// and neither starts nor ends with a dot or white space.
pub proof fn law_saved_names_are_safe(raw: Seq<char>)
    ensures
        safe_filename(raw).len() > 0,
        forall|i: int|
            0 <= i < safe_filename(raw).len() ==> {
                let c = #[trigger] safe_filename(raw)[i];
                c != '/' && c != '\\' && c != ':' && !text::is_control(c)
            },
        safe_filename(raw)[0] != '.',
        !text::is_white(safe_filename(raw)[0]),
        safe_filename(raw).last() != '.',
        !text::is_white(safe_filename(raw).last()),
{
    law_safe_filename_stays_in_its_directory(raw);
}

/// A name that is safe as it stands is kept. Of another, the unsafe characters
/// become underscores and the dots and white space at its ends are dropped; the
/// rest is kept. What leaves nothing gets a name of its own.
pub proof fn law_saved_names_keep_what_is_safe(lead: Seq<char>, core: Seq<char>, tail: Seq<char>)
    requires
        forall|i: int| 0 <= i < lead.len() ==> #[trigger] lead[i] == '.' || lead[i] == ' ',
        forall|i: int| 0 <= i < tail.len() ==> #[trigger] tail[i] == '.' || tail[i] == ' ',
        core.len() > 0 ==> {
            &&& core[0] != '.' && !text::is_white(core[0])
            &&& core.last() != '.' && !text::is_white(core.last())
        },
    ensures
        core.len() > 0 ==> safe_filename(lead + core + tail) == core.map_values(
            |c: char|
                if c == '/' || c == '\\' || c == ':' || text::is_control(c) {
                    '_'
                } else {
                    c
                },
        ),
        core.len() == 0 ==> safe_filename(lead + core + tail) == "attachment.bin"@,
{
    let raw = lead + core + tail;
    let s = raw.map_values(|c: char| safe_char(c));
    let n = lead.len() as int;
    let kept = core.map_values(
        |c: char|
            if c == '/' || c == '\\' || c == ':' || text::is_control(c) {
                '_'
            } else {
                c
            },
    );
    if core.len() > 0 {
        assert(s[n] == safe_char(core[0]));
        assert forall|j: int| 0 <= j < n implies is_edge()(#[trigger] s[j]) by {
            assert(raw[j] == lead[j]);
            assert(s[j] == lead[j]);
        }
        assert(!is_edge()(s[n]));
        text::lemma_strip_start(s, is_edge(), n);
        let t = s.skip(n);
        let m = core.len() as int;
        assert forall|j: int| m <= j < t.len() implies is_edge()(#[trigger] t[j]) by {
            assert(raw[n + j] == tail[j - m]);
            assert(t[j] == tail[j - m]);
        }
        assert(t[m - 1] == safe_char(core.last()));
        text::lemma_strip_end(t, is_edge(), m);
        assert(t.take(m) =~= kept);
    } else {
        assert forall|j: int| 0 <= j < s.len() implies is_edge()(#[trigger] s[j]) by {
            if j < n {
                assert(raw[j] == lead[j]);
                assert(s[j] == lead[j]);
            } else {
                assert(raw[j] == tail[j - n]);
                assert(s[j] == tail[j - n]);
            }
        }
        text::lemma_strip_start(s, is_edge(), s.len() as int);
        text::lemma_strip_end(s.skip(s.len() as int), is_edge(), 0);
    }
}

/// A second file of one name gets a number before its extension; a name without
/// an extension, or one that is nothing but an extension, gets it at its end.
pub proof fn law_numbers_stand_before_the_extension(stem: Seq<char>, ext: Seq<char>, n: nat)
    requires
        !ext.contains('.'),
        n > 0,
    ensures
        stem.len() > 0 ==> candidate(stem + seq!['.'] + ext, n) == stem + " ("@ + number::decimal(n) + ")"@
            + (seq!['.'] + ext),
        candidate(ext, n) == ext + " ("@ + number::decimal(n) + ")"@,
        candidate(seq!['.'] + ext, n) == seq!['.'] + ext + " ("@ + number::decimal(n) + ")"@,
        candidate(stem, 0) == stem,
{
    let name = stem + seq!['.'] + ext;
    let d = stem.len() as int;
    assert(name[d] == '.');
    assert forall|j: int| d < j < name.len() implies !text::is_char('.')(#[trigger] name[j]) by {
        assert(name[j] == ext[j - d - 1]);
    }
    text::lemma_last_where(name, text::is_char('.'), d);
    assert(name.take(d) =~= stem);
    assert(name.skip(d) =~= seq!['.'] + ext);
    assert forall|j: int| 0 <= j < ext.len() implies !text::is_char('.')(#[trigger] ext[j]) by {}
    text::lemma_last_where(ext, text::is_char('.'), -1);
    assert(ext.take(ext.len() as int) =~= ext);
    assert(ext + " ("@ + number::decimal(n) + ")"@ + ext.skip(ext.len() as int) =~= ext + " ("@ + number::decimal(n)
        + ")"@);
    let hidden = seq!['.'] + ext;
    assert forall|j: int| 0 < j < hidden.len() implies !text::is_char('.')(#[trigger] hidden[j]) by {
        assert(hidden[j] == ext[j - 1]);
    }
    text::lemma_last_where(hidden, text::is_char('.'), 0);
    assert(hidden.take(hidden.len() as int) =~= hidden);
    assert(hidden + " ("@ + number::decimal(n) + ")"@ + hidden.skip(hidden.len() as int) =~= hidden + " ("@
        + number::decimal(n) + ")"@);
}

/// An attachment gets the first name that is free: its own, or its own with the
/// least number up to 999 that no file has. Only where all are taken is its own
/// name used again.
pub proof fn law_the_first_free_name_is_used(name: Seq<char>, taken: Seq<Seq<char>>, n: nat, k: nat)
    requires
        n <= k <= 999,
        !taken.contains(candidate(name, k)),
        forall|j: nat| n <= j < k ==> taken.contains(#[trigger] candidate(name, j)),
    ensures
        first_free(name, taken, n) == candidate(name, k),
    decreases k - n,
{
    if n < k {
        assert(taken.contains(candidate(name, n)));
        law_the_first_free_name_is_used(name, taken, n + 1, k);
    }
}

/// Where every numbered name is taken, the name is used as it is.
pub proof fn law_a_name_is_used_when_none_is_free(name: Seq<char>, taken: Seq<Seq<char>>, n: nat)
    requires
        forall|j: nat| n <= j <= 999 ==> taken.contains(#[trigger] candidate(name, j)),
    ensures
        first_free(name, taken, n) == name,
    decreases 1000 - n,
{
    if n <= 999 {
        assert(taken.contains(candidate(name, n)));
        law_a_name_is_used_when_none_is_free(name, taken, n + 1);
    }
}

} // verus!
