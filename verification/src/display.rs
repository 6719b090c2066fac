//! How messages and folders read in the lists.
use vstd::prelude::*;

use crate::model;
use crate::model::{FolderRole, MessageFlags, MessageId};
use crate::number;
use crate::number::{decimal_text, push_decimal};
use crate::text;
use crate::text::{chars_of, eq_ignore_ascii_case};

verus! {

// ---------------------------------------------------------------------
// Flags
// ---------------------------------------------------------------------

/// The state that a row shows: the first of draft, flagged, replied, unread
/// that holds, else read.
pub open spec fn dominant_flag(f: MessageFlags) -> (Seq<char>, Seq<char>) {
    if f.draft {
        ("D"@, "msg-flag-draft"@)
    } else if f.flagged {
        ("F"@, "msg-flag-flagged"@)
    } else if f.answered {
        ("R"@, "msg-flag-replied"@)
    } else if !f.seen {
        ("!"@, "msg-flag-unread"@)
    } else {
        ("·"@, "msg-flag-read"@)
    }
}

/// The glyph and the CSS class of a row's flag column.
pub fn flag_glyph(flags: &MessageFlags) -> (r: (&'static str, &'static str))
    ensures
        r.0@ == dominant_flag(*flags).0,
        r.1@ == dominant_flag(*flags).1,
{
    if flags.draft {
        ("D", "msg-flag-draft")
    } else if flags.flagged {
        ("F", "msg-flag-flagged")
    } else if flags.answered {
        ("R", "msg-flag-replied")
    } else if !flags.seen {
        ("!", "msg-flag-unread")
    } else {
        ("·", "msg-flag-read")
    }
}

// ---------------------------------------------------------------------
// Folder names
// ---------------------------------------------------------------------

/// How a folder's own name is shown: `INBOX` and the names of junk folders
/// have a friendlier form.
pub open spec fn friendly_name(name: Seq<char>) -> Seq<char> {
    if text::same_ignoring_ascii_case(name, "INBOX"@) {
        "Inbox"@
    } else if text::same_ignoring_ascii_case(name, "Junk"@) || text::same_ignoring_ascii_case(
        name,
        "Junk E-mail"@,
    ) || text::same_ignoring_ascii_case(name, "Junk Email"@) {
        "Spam"@
    } else {
        name
    }
}

/// See [`friendly_name`].
pub fn display_name_for_folder<'a>(name: &'a str) -> (r: &'a str)
    ensures
        r@ == friendly_name(name@),
{
    if eq_ignore_ascii_case(name, "INBOX") {
        "Inbox"
    } else if eq_ignore_ascii_case(name, "Junk") || eq_ignore_ascii_case(name, "Junk E-mail")
        || eq_ignore_ascii_case(name, "Junk Email") {
        "Spam"
    } else {
        name
    }
}

/// The name of a role.
pub open spec fn role_name(role: FolderRole) -> Seq<char> {
    match role {
        FolderRole::Inbox => "Inbox"@,
        FolderRole::Sent => "Sent"@,
        FolderRole::Drafts => "Drafts"@,
        FolderRole::Trash => "Trash"@,
        FolderRole::Spam => "Spam"@,
        FolderRole::Archive => "Archive"@,
        FolderRole::Important => "Important"@,
        FolderRole::Flagged => "Flagged"@,
        FolderRole::All => "All Mail"@,
    }
}

impl FolderRole {
    /// See [`role_name`].
    pub fn canonical_display_name(&self) -> (r: &'static str)
        ensures
            r@ == role_name(*self),
    {
        match self {
            FolderRole::Inbox => "Inbox",
            FolderRole::Sent => "Sent",
            FolderRole::Drafts => "Drafts",
            FolderRole::Trash => "Trash",
            FolderRole::Spam => "Spam",
            FolderRole::Archive => "Archive",
            FolderRole::Important => "Important",
            FolderRole::Flagged => "Flagged",
            FolderRole::All => "All Mail",
        }
    }
}

/// A name looks unfriendly when it is not empty and holds no small ASCII
/// letter.
pub open spec fn looks_unfriendly(name: Seq<char>) -> bool {
    name.len() > 0 && forall|i: int| 0 <= i < name.len() ==> !('a' <= #[trigger] name[i] <= 'z')
}

/// See [`looks_unfriendly`].
fn unfriendly(name: &str) -> (r: bool)
    ensures
        r == looks_unfriendly(name@),
{
    let v = chars_of(name);
    if v.len() == 0 {
        return false;
    }
    let mut i: usize = 0;
    while i < v.len()
        invariant
            v@ == name@,
            i <= v@.len(),
            forall|j: int| 0 <= j < i ==> !('a' <= #[trigger] name@[j] <= 'z'),
        decreases v@.len() - i,
    {
        if 'a' <= v[i] && v[i] <= 'z' {
            assert('a' <= name@[i as int] <= 'z');
            return false;
        }
        i = i + 1;
    }
    true
}

/// How a folder reads, given its role: an unfriendly name gives way to the
/// name of the role, a friendly one stays.
pub open spec fn name_with_role(name: Seq<char>, role: Option<FolderRole>) -> Seq<char> {
    match role {
        Some(r) if looks_unfriendly(name) => role_name(r),
        _ => friendly_name(name),
    }
}

/// See [`name_with_role`].
pub fn display_name_for_folder_with_role<'a>(name: &'a str, role: Option<&FolderRole>) -> (r:
    &'a str)
    ensures
        r@ == name_with_role(
            name@,
            match role {
                Some(x) => Some(*x),
                None => None,
            },
        ),
{
    if unfriendly(name) {
        if let Some(role) = role {
            return role.canonical_display_name();
        }
    }
    display_name_for_folder(name)
}

/// May messages be dropped on a folder with this role? Views that are labels,
/// or hold everything, take none.
pub fn is_drop_blocked(role: Option<&FolderRole>) -> (r: bool)
    ensures
        r == match role {
            Some(x) => *x == FolderRole::Important || *x == FolderRole::Flagged || *x
                == FolderRole::All,
            None => false,
        },
{
    match role {
        Some(FolderRole::Important) => true,
        Some(FolderRole::Flagged) => true,
        Some(FolderRole::All) => true,
        _ => false,
    }
}

// ---------------------------------------------------------------------
// What is selected after messages leave the view
// ---------------------------------------------------------------------

/// The first of `ids` that is not in `moved`.
pub open spec fn first_kept(ids: Seq<Seq<char>>, moved: Seq<Seq<char>>) -> Option<Seq<char>>
    decreases ids.len(),
{
    if ids.len() == 0 {
        None
    } else if !moved.contains(ids[0]) {
        Some(ids[0])
    } else {
        first_kept(ids.drop_first(), moved)
    }
}

/// The last of `ids` that is not in `moved`.
pub open spec fn last_kept(ids: Seq<Seq<char>>, moved: Seq<Seq<char>>) -> Option<Seq<char>>
    decreases ids.len(),
{
    if ids.len() == 0 {
        None
    } else if !moved.contains(ids.last()) {
        Some(ids.last())
    } else {
        last_kept(ids.drop_last(), moved)
    }
}

/// The place of the first `x` in `ids`, or their number.
pub open spec fn place_of(ids: Seq<Seq<char>>, x: Seq<char>) -> int
    decreases ids.len(),
{
    if ids.len() == 0 || ids[0] == x {
        0
    } else {
        1 + place_of(ids.drop_first(), x)
    }
}

/// [`place_of`] is the least place that holds `x`.
pub proof fn lemma_place_of(ids: Seq<Seq<char>>, x: Seq<char>, i: int)
    requires
        0 <= i <= ids.len(),
        forall|j: int| 0 <= j < i ==> #[trigger] ids[j] != x,
        i < ids.len() ==> ids[i] == x,
    ensures
        place_of(ids, x) == i,
    decreases ids.len(),
{
    if i > 0 {
        assert(ids[0] != x);
        assert forall|j: int| 0 <= j < i - 1 implies #[trigger] ids.drop_first()[j] != x by {
            assert(ids.drop_first()[j] == ids[j + 1]);
        }
        lemma_place_of(ids.drop_first(), x, i - 1);
    }
}

/// Where [`place_of`] is within the list, the list holds the id there; where it
/// is not, the list does not hold the id.
pub proof fn lemma_place_exists(ids: Seq<Seq<char>>, x: Seq<char>)
    ensures
        0 <= place_of(ids, x) <= ids.len(),
        place_of(ids, x) < ids.len() ==> ids[place_of(ids, x)] == x,
        place_of(ids, x) < ids.len() <==> ids.contains(x),
    decreases ids.len(),
{
    if ids.len() > 0 {
        if ids[0] != x {
            let rest = ids.drop_first();
            lemma_place_exists(rest, x);
            if ids.contains(x) {
                let j = choose|j: int| 0 <= j < ids.len() && ids[j] == x;
                assert(rest[j - 1] == x);
            }
        }
    }
}

/// What is selected once `moved` have left the list: the next message that
/// stays, else the closest one before; nothing where the selected message was
/// not in the list or no other stays.
pub open spec fn selection_after_move(
    visible: Seq<Seq<char>>,
    current: Option<Seq<char>>,
    moved: Seq<Seq<char>>,
) -> Option<Seq<char>> {
    match current {
        Some(c) if place_of(visible, c) < visible.len() => {
            let p = place_of(visible, c);
            match first_kept(visible.skip(p + 1), moved) {
                Some(x) => Some(x),
                None => last_kept(visible.take(p), moved),
            }
        },
        _ => None,
    }
}

/// What [`first_kept`] finds is in the list and stays; it finds nothing only
/// where nothing stays.
proof fn lemma_first_kept(ids: Seq<Seq<char>>, moved: Seq<Seq<char>>)
    ensures
        match first_kept(ids, moved) {
            Some(x) => ids.contains(x) && !moved.contains(x),
            None => forall|i: int| 0 <= i < ids.len() ==> moved.contains(#[trigger] ids[i]),
        },
    decreases ids.len(),
{
    if ids.len() > 0 {
        assert(ids.contains(ids[0]));
        let rest = ids.drop_first();
        lemma_first_kept(rest, moved);
        if moved.contains(ids[0]) {
            match first_kept(rest, moved) {
                Some(x) => {
                    let j = choose|j: int| 0 <= j < rest.len() && rest[j] == x;
                    assert(ids[j + 1] == x);
                },
                None => {
                    assert forall|i: int| 0 <= i < ids.len() implies moved.contains(
                        #[trigger] ids[i],
                    ) by {
                        if i > 0 {
                            assert(rest[i - 1] == ids[i]);
                        }
                    }
                },
            }
        }
    }
}

/// What [`last_kept`] finds is in the list and stays; it finds nothing only
/// where nothing stays.
proof fn lemma_last_kept(ids: Seq<Seq<char>>, moved: Seq<Seq<char>>)
    ensures
        match last_kept(ids, moved) {
            Some(x) => ids.contains(x) && !moved.contains(x),
            None => forall|i: int| 0 <= i < ids.len() ==> moved.contains(#[trigger] ids[i]),
        },
    decreases ids.len(),
{
    if ids.len() > 0 {
        assert(ids.contains(ids.last()));
        let rest = ids.drop_last();
        lemma_last_kept(rest, moved);
        if moved.contains(ids.last()) {
            match last_kept(rest, moved) {
                Some(x) => {
                    let j = choose|j: int| 0 <= j < rest.len() && rest[j] == x;
                    assert(ids[j] == x);
                },
                None => {
                    assert forall|i: int| 0 <= i < ids.len() implies moved.contains(
                        #[trigger] ids[i],
                    ) by {
                        if i < rest.len() {
                            assert(rest[i] == ids[i]);
                        }
                    }
                },
            }
        }
    }
}

/// After a move a message is selected that is in the list and was not moved. As
/// long as the selected message was in the list, nothing is selected only where
/// every other message was moved.
pub proof fn law_selection_stays_in_the_list(
    visible: Seq<Seq<char>>,
    current: Seq<char>,
    moved: Seq<Seq<char>>,
)
    ensures
        match selection_after_move(visible, Some(current), moved) {
            Some(x) => visible.contains(x) && !moved.contains(x),
            None => visible.contains(current) ==> forall|i: int|
                0 <= i < visible.len() && #[trigger] visible[i] != current ==> moved.contains(
                    visible[i],
                ),
        },
{
    lemma_place_exists(visible, current);
    let p = place_of(visible, current);
    if 0 <= p < visible.len() {
        let after = visible.skip(p + 1);
        let before = visible.take(p);
        lemma_first_kept(after, moved);
        lemma_last_kept(before, moved);
        match first_kept(after, moved) {
            Some(x) => {
                let j = choose|j: int| 0 <= j < after.len() && after[j] == x;
                assert(visible[p + 1 + j] == x);
            },
            None => {
                match last_kept(before, moved) {
                    Some(x) => {
                        let j = choose|j: int| 0 <= j < before.len() && before[j] == x;
                        assert(visible[j] == x);
                    },
                    None => {
                        assert forall|i: int|
                            0 <= i < visible.len() && #[trigger] visible[i]
                                != current implies moved.contains(visible[i]) by {
                            if i < p {
                                assert(before[i] == visible[i]);
                            } else if i > p {
                                assert(after[i - p - 1] == visible[i]);
                            }
                        }
                    },
                }
            },
        }
    }
}

/// Is `id` one of `moved`?
fn is_moved(id: &MessageId, moved: &[MessageId]) -> (r: bool)
    ensures
        r == model::message_ids(moved@).contains(id@),
{
    let mut i: usize = 0;
    while i < moved.len()
        invariant
            i <= moved@.len(),
            forall|j: int| 0 <= j < i ==> #[trigger] model::message_ids(moved@)[j] != id@,
        decreases moved@.len() - i,
    {
        if moved[i].same(id) {
            assert(model::message_ids(moved@)[i as int] == id@);
            return true;
        }
        assert(model::message_ids(moved@)[i as int] != id@);
        i = i + 1;
    }
    false
}

/// See [`selection_after_move`]. `visible` is the list before the move.
pub fn next_selection_after_move(
    visible: &[MessageId],
    current: Option<&MessageId>,
    moved: &[MessageId],
) -> (r: Option<MessageId>)
    ensures
        model::opt_message(r) == selection_after_move(
            model::message_ids(visible@),
            match current {
                Some(c) => Some(c@),
                None => None,
            },
            model::message_ids(moved@),
        ),
{
    let cur = match current {
        Some(c) => c,
        None => {
            return None;
        },
    };
    let ghost vis = model::message_ids(visible@);
    let ghost mv = model::message_ids(moved@);
    let mut pos: usize = 0;
    while pos < visible.len() && !visible[pos].same(cur)
        invariant
            pos <= visible@.len(),
            vis == model::message_ids(visible@),
            forall|j: int| 0 <= j < pos ==> #[trigger] vis[j] != cur@,
        decreases visible@.len() - pos,
    {
        assert(vis[pos as int] == visible@[pos as int]@);
        pos = pos + 1;
    }
    proof {
        if pos < visible@.len() {
            assert(vis[pos as int] == visible@[pos as int]@);
        }
        lemma_place_of(vis, cur@, pos as int);
    }
    if pos == visible.len() {
        return None;
    }
    let mut i: usize = pos + 1;
    assert(vis.skip(i as int) =~= vis.skip(pos + 1));
    while i < visible.len()
        invariant
            pos < i <= visible@.len(),
            vis == model::message_ids(visible@),
            mv == model::message_ids(moved@),
            first_kept(vis.skip(i as int), mv) == first_kept(vis.skip(pos + 1), mv),
            model::opt_message(None) == None::<Seq<char>>,
            current is Some && *current->0 == *cur,
            place_of(vis, cur@) == pos,
        decreases visible@.len() - i,
    {
        assert(vis.skip(i as int)[0] == visible@[i as int]@);
        assert(vis.skip(i as int).drop_first() =~= vis.skip(i + 1));
        if !is_moved(&visible[i], moved) {
            return Some(visible[i].clone());
        }
        i = i + 1;
    }
    let mut k: usize = pos;
    while k > 0
        invariant
            k <= pos < visible@.len(),
            vis == model::message_ids(visible@),
            mv == model::message_ids(moved@),
            first_kept(vis.skip(pos + 1), mv) is None,
            last_kept(vis.take(k as int), mv) == last_kept(vis.take(pos as int), mv),
            current is Some && *current->0 == *cur,
            place_of(vis, cur@) == pos,
        decreases k,
    {
        assert(vis.take(k as int).last() == visible@[k - 1]@);
        assert(vis.take(k as int).drop_last() =~= vis.take(k - 1));
        if !is_moved(&visible[k - 1], moved) {
            return Some(visible[k - 1].clone());
        }
        k = k - 1;
    }
    None
}

// ---------------------------------------------------------------------
// Byte sizes
// ---------------------------------------------------------------------

/// A binary kilo.
pub const KIB: u64 = 1_024;

/// A binary mega.
pub const MIB: u64 = 1_048_576;

/// A binary giga.
pub const GIB: u64 = 1_073_741_824;

/// `n / d`, rounded to the nearest number, and from the middle to an even one.
pub open spec fn nearest(n: nat, d: nat) -> nat {
    let q = n / d;
    let r = n % d;
    if 2 * r < d || (2 * r == d && q % 2 == 0) {
        q
    } else {
        q + 1
    }
}

/// See [`nearest`].
fn nearest_of(n: u128, d: u128) -> (r: u128)
    requires
        0 < d <= 0x1_0000_0000,
        n <= 0xffff_ffff_ffff_ffff_ffff,
    ensures
        r == nearest(n as nat, d as nat),
        r <= n + 1,
{
    let q: u128 = n / d;
    let rest: u128 = n % d;
    assert(q <= n) by (nonlinear_arith)
        requires
            q == n / d,
            d > 0,
    ;
    assert(rest < d) by (nonlinear_arith)
        requires
            rest == n % d,
            d > 0,
    ;
    if 2 * rest < d || (2 * rest == d && q % 2 == 0) {
        q
    } else {
        q + 1
    }
}

/// `n / unit` with one decimal.
pub open spec fn one_decimal(n: nat, unit: nat) -> Seq<char> {
    let tenths = nearest(10 * n, unit);
    (number::decimal(tenths / 10) + "."@).push(number::digit(tenths % 10))
}

/// See [`one_decimal`].
fn one_decimal_text(n: u128, unit: u128) -> (r: String)
    requires
        0x400 <= unit <= 0x1_0000_0000,
        n <= 0x1_0000_0000_0000_0000,
    ensures
        r@ == one_decimal(n as nat, unit as nat),
{
    let tenths: u128 = nearest_of(10 * n, unit);
    proof {
        let m = 10 * n as int;
        assert(m / unit as int <= m / 0x400) by (nonlinear_arith)
            requires
                unit >= 0x400,
                m >= 0,
        ;
    }
    let whole: u64 = (tenths / 10) as u64;
    let last: u64 = (tenths % 10) as u64;
    let mut r = decimal_text(whole);
    r.append(".");
    push_decimal(&mut r, last);
    assert(number::decimal(last as nat) =~= seq![number::digit(last as nat)]);
    assert(r@ =~= one_decimal(n as nat, unit as nat));
    r
}

/// A size as the reader shows it: with one decimal below ten binary mega, in
/// whole units from there on.
pub open spec fn size_text(bytes: u64) -> Seq<char> {
    if bytes < KIB {
        number::decimal(bytes as nat) + " B"@
    } else if bytes < MIB {
        one_decimal(bytes as nat, KIB as nat) + " KiB"@
    } else if bytes < 10 * MIB {
        one_decimal(bytes as nat, MIB as nat) + " MiB"@
    } else if bytes < GIB {
        number::decimal((bytes / MIB) as nat) + " MiB"@
    } else {
        number::decimal((bytes / GIB) as nat) + " GiB"@
    }
}

/// See [`size_text`].
pub fn format_bytes(bytes: u64) -> (r: String)
    ensures
        r@ == size_text(bytes),
{
    if bytes < KIB {
        let mut r = decimal_text(bytes);
        r.append(" B");
        r
    } else if bytes < MIB {
        let mut r = one_decimal_text(bytes as u128, KIB as u128);
        r.append(" KiB");
        r
    } else if bytes < 10 * MIB {
        let mut r = one_decimal_text(bytes as u128, MIB as u128);
        r.append(" MiB");
        r
    } else if bytes < GIB {
        let mut r = decimal_text(bytes / MIB);
        r.append(" MiB");
        r
    } else {
        let mut r = decimal_text(bytes / GIB);
        r.append(" GiB");
        r
    }
}

/// The double-precision number nearest to `n`: at most 53 binary digits count.
pub open spec fn nearest_double(n: nat, unit: nat) -> nat
    decreases 0x2000 - unit,
{
    if n < 0x20_0000_0000_0000 * unit || unit == 0 || unit >= 0x1000 {
        nearest(n, unit) * unit
    } else {
        nearest_double(n, 2 * unit)
    }
}

/// See [`nearest_double`].
fn nearest_double_of(n: u64) -> (r: u128)
    ensures
        r == nearest_double(n as nat, 1),
        r <= 0x1_0000_0000_0000_0000,
{
    let mut unit: u128 = 1;
    while !((n as u128) < 0x20_0000_0000_0000 * unit || unit >= 0x1000)
        invariant
            0 < unit <= 0x1000,
            unit < 0x1000 ==> 2 * unit <= 0x1000,
            unit == 1 || unit == 2 || unit == 4 || unit == 8 || unit == 16 || unit == 32 || unit
                == 64 || unit == 128 || unit == 256 || unit == 512 || unit == 1024 || unit == 2048
                || unit == 4096,
            nearest_double(n as nat, 1) == nearest_double(n as nat, unit as nat),
        decreases 0x1000 - unit,
    {
        unit = 2 * unit;
    }
    let q: u128 = nearest_of(n as u128, unit);
    let ghost m = n as int;
    let ghost u = unit as int;
    assert(q * unit <= 0x1_0000_0000_0000_0000) by {
        lemma_rounded_fits(m, u);
    }
    q * unit
}

/// What is rounded to a power of two stays below the next power.
proof fn lemma_rounded_fits(n: int, unit: int)
    requires
        0 <= n < 0x1_0000_0000_0000_0000,
        unit == 1 || unit == 2 || unit == 4 || unit == 8 || unit == 16 || unit == 32 || unit == 64
            || unit == 128 || unit == 256 || unit == 512 || unit == 1024 || unit == 2048 || unit
            == 4096,
    ensures
        0 <= nearest(n as nat, unit as nat) * unit <= 0x1_0000_0000_0000_0000,
{
}

/// A size as the compose pane shows it. It is computed with double precision.
pub open spec fn rough_size(n: u64) -> Seq<char> {
    if n >= GIB {
        one_decimal(nearest_double(n as nat, 1), GIB as nat) + " GB"@
    } else if n >= MIB {
        one_decimal(n as nat, MIB as nat) + " MB"@
    } else if n >= KIB {
        number::decimal(nearest(n as nat, KIB as nat)) + " KB"@
    } else {
        number::decimal(n as nat) + " B"@
    }
}

/// See [`rough_size`].
pub fn humanize_bytes(n: u64) -> (r: String)
    ensures
        r@ == rough_size(n),
{
    if n >= GIB {
        let d: u128 = nearest_double_of(n);
        let mut r = one_decimal_text(d, GIB as u128);
        r.append(" GB");
        r
    } else if n >= MIB {
        let mut r = one_decimal_text(n as u128, MIB as u128);
        r.append(" MB");
        r
    } else if n >= KIB {
        let k: u128 = nearest_of(n as u128, KIB as u128);
        let mut r = decimal_text(k as u64);
        r.append(" KB");
        r
    } else {
        let mut r = decimal_text(n);
        r.append(" B");
        r
    }
}

// ---------------------------------------------------------------------
// What is shown
// ---------------------------------------------------------------------

/// A message shows one mark: that it is a draft goes before that it is flagged,
/// that before that it was answered, and that before whether it was read.
pub proof fn law_the_first_mark_is_shown(f: MessageFlags)
    ensures
        f.draft ==> dominant_flag(f) == ("D"@, "msg-flag-draft"@),
        !f.draft && f.flagged ==> dominant_flag(f) == ("F"@, "msg-flag-flagged"@),
        !f.draft && !f.flagged && f.answered ==> dominant_flag(f) == ("R"@, "msg-flag-replied"@),
        !f.draft && !f.flagged && !f.answered && !f.seen ==> dominant_flag(f) == (
            "!"@,
            "msg-flag-unread"@,
        ),
        !f.draft && !f.flagged && !f.answered && f.seen ==> dominant_flag(f) == (
            "·"@,
            "msg-flag-read"@,
        ),
{
}

/// Folders keep their names, but for the inbox and for junk mail, in whatever
/// case a server writes them; a name in capitals gives way to that of the role.
pub proof fn law_folders_keep_their_names(name: Seq<char>, role: FolderRole)
    ensures
        text::same_ignoring_ascii_case(name, "inbox"@) ==> friendly_name(name) == "Inbox"@,
        text::same_ignoring_ascii_case(name, "junk"@) || text::same_ignoring_ascii_case(
            name,
            "junk e-mail"@,
        ) || text::same_ignoring_ascii_case(name, "junk email"@) ==> friendly_name(name)
            == "Spam"@,
        !text::same_ignoring_ascii_case(name, "inbox"@) && !text::same_ignoring_ascii_case(
            name,
            "junk"@,
        ) && !text::same_ignoring_ascii_case(name, "junk e-mail"@)
            && !text::same_ignoring_ascii_case(name, "junk email"@) ==> friendly_name(name) == name,
        name_with_role(name, None) == friendly_name(name),
        (exists|i: int| 0 <= i < name.len() && 'a' <= #[trigger] name[i] <= 'z') ==> name_with_role(
            name,
            Some(role),
        ) == friendly_name(name),
        name.len() > 0 && (forall|i: int|
            0 <= i < name.len() ==> !('a' <= #[trigger] name[i] <= 'z')) ==> name_with_role(
            name,
            Some(role),
        ) == role_name(role),
{
    reveal_strlit("INBOX");
    reveal_strlit("inbox");
    reveal_strlit("Junk");
    reveal_strlit("junk");
    reveal_strlit("Junk E-mail");
    reveal_strlit("junk e-mail");
    reveal_strlit("Junk Email");
    reveal_strlit("junk email");
    assert(text::ascii_lowered("INBOX"@) =~= text::ascii_lowered("inbox"@));
    assert(text::ascii_lowered("Junk"@) =~= text::ascii_lowered("junk"@));
    assert(text::ascii_lowered("Junk E-mail"@) =~= text::ascii_lowered("junk e-mail"@));
    assert(text::ascii_lowered("Junk Email"@) =~= text::ascii_lowered("junk email"@));
    assert(text::ascii_lowered("inbox"@)[0] == 'i');
    assert(text::ascii_lowered("junk"@)[0] == 'j');
    assert(text::ascii_lowered("junk e-mail"@)[0] == 'j');
    assert(text::ascii_lowered("junk email"@)[0] == 'j');
}

/// Each role has a name.
pub proof fn law_roles_have_names()
    ensures
        role_name(FolderRole::Inbox) == "Inbox"@,
        role_name(FolderRole::Sent) == "Sent"@,
        role_name(FolderRole::Drafts) == "Drafts"@,
        role_name(FolderRole::Trash) == "Trash"@,
        role_name(FolderRole::Spam) == "Spam"@,
        role_name(FolderRole::Archive) == "Archive"@,
        role_name(FolderRole::Important) == "Important"@,
        role_name(FolderRole::Flagged) == "Flagged"@,
        role_name(FolderRole::All) == "All Mail"@,
{
}

/// When the selected message is moved away, the next one below that stays is
/// selected; where none is left below, the nearest above is.
pub proof fn law_the_nearest_message_is_selected(
    visible: Seq<Seq<char>>,
    p: int,
    q: int,
    moved: Seq<Seq<char>>,
)
    requires
        0 <= p < visible.len(),
        0 <= q < visible.len(),
        forall|i: int| 0 <= i < p ==> #[trigger] visible[i] != visible[p],
        !moved.contains(visible[q]),
    ensures
        p < q && (forall|i: int| p < i < q ==> moved.contains(#[trigger] visible[i]))
            ==> selection_after_move(visible, Some(visible[p]), moved) == Some(visible[q]),
        q < p && (forall|i: int| p < i < visible.len() ==> moved.contains(#[trigger] visible[i]))
            && (forall|i: int| q < i < p ==> moved.contains(#[trigger] visible[i]))
            ==> selection_after_move(visible, Some(visible[p]), moved) == Some(visible[q]),
        selection_after_move(visible, None, moved) is None,
{
    lemma_place_of(visible, visible[p], p);
    let below = visible.skip(p + 1);
    let above = visible.take(p);
    if p < q && forall|i: int| p < i < q ==> moved.contains(#[trigger] visible[i]) {
        assert(below[q - p - 1] == visible[q]);
        assert forall|i: int| 0 <= i < q - p - 1 implies moved.contains(#[trigger] below[i]) by {
            assert(below[i] == visible[p + 1 + i]);
        }
        lemma_first_kept_at(below, moved, q - p - 1);
    }
    if q < p && (forall|i: int| p < i < visible.len() ==> moved.contains(#[trigger] visible[i]))
        && (forall|i: int| q < i < p ==> moved.contains(#[trigger] visible[i])) {
        assert forall|i: int| 0 <= i < below.len() implies moved.contains(#[trigger] below[i]) by {
            assert(below[i] == visible[p + 1 + i]);
        }
        lemma_first_kept(below, moved);
        if first_kept(below, moved) is Some {
            let x = first_kept(below, moved)->0;
            let k = choose|k: int| 0 <= k < below.len() && below[k] == x;
            assert(moved.contains(below[k]));
        }
        assert(above[q] == visible[q]);
        assert forall|i: int| q < i < above.len() implies moved.contains(#[trigger] above[i]) by {
            assert(above[i] == visible[i]);
        }
        lemma_last_kept_at(above, moved, q);
    }
}

/// The first that is not moved is found.
proof fn lemma_first_kept_at(ids: Seq<Seq<char>>, moved: Seq<Seq<char>>, k: int)
    requires
        0 <= k < ids.len(),
        !moved.contains(ids[k]),
        forall|i: int| 0 <= i < k ==> moved.contains(#[trigger] ids[i]),
    ensures
        first_kept(ids, moved) == Some(ids[k]),
    decreases k,
{
    if k > 0 {
        assert(moved.contains(ids[0]));
        let rest = ids.drop_first();
        assert forall|i: int| 0 <= i < k - 1 implies moved.contains(#[trigger] rest[i]) by {
            assert(rest[i] == ids[i + 1]);
        }
        lemma_first_kept_at(rest, moved, k - 1);
    }
}

/// The last that is not moved is found.
proof fn lemma_last_kept_at(ids: Seq<Seq<char>>, moved: Seq<Seq<char>>, k: int)
    requires
        0 <= k < ids.len(),
        !moved.contains(ids[k]),
        forall|i: int| k < i < ids.len() ==> moved.contains(#[trigger] ids[i]),
    ensures
        last_kept(ids, moved) == Some(ids[k]),
    decreases ids.len(),
{
    if k < ids.len() - 1 {
        assert(moved.contains(ids[ids.len() - 1]));
        let rest = ids.drop_last();
        assert forall|i: int| k < i < rest.len() implies moved.contains(#[trigger] rest[i]) by {
            assert(rest[i] == ids[i]);
        }
        lemma_last_kept_at(rest, moved, k);
    }
}

/// A size is rounded to the nearest unit, and to the even one from the middle.
pub proof fn law_sizes_are_rounded_to_the_nearest(n: nat, d: nat)
    requires
        d > 0,
    ensures
        2 * n <= 2 * d * nearest(n, d) + d,
        2 * d * nearest(n, d) <= 2 * n + d,
        2 * n == 2 * d * nearest(n, d) + d || 2 * d * nearest(n, d) == 2 * n + d ==> nearest(n, d)
            % 2 == 0,
{
    let q = n / d;
    let r = n % d;
    assert(n == d * q + r && r < d) by (nonlinear_arith)
        requires
            d > 0,
            q == n / d,
            r == n % d,
    ;
    assert(2 * d * (q + 1) == 2 * (d * q) + 2 * d) by (nonlinear_arith);
    assert(2 * d * q == 2 * (d * q)) by (nonlinear_arith);
}

/// Sizes are given in bytes below a kibibyte, in kibibytes below a mebibyte, in
/// mebibytes below a gibibyte and else in gibibytes; with one decimal up to ten
/// mebibytes.
pub proof fn law_sizes_have_their_unit(bytes: u64)
    ensures
        bytes < 1024 ==> size_text(bytes) == number::decimal(bytes as nat) + " B"@,
        1024 <= bytes < 1024 * 1024 ==> size_text(bytes) == one_decimal(bytes as nat, 1024)
            + " KiB"@,
        1024 * 1024 <= bytes < 10 * 1024 * 1024 ==> size_text(bytes) == one_decimal(
            bytes as nat,
            1024 * 1024,
        ) + " MiB"@,
        10 * 1024 * 1024 <= bytes < 1024 * 1024 * 1024 ==> size_text(bytes) == number::decimal(
            (bytes / 1_048_576) as nat,
        ) + " MiB"@,
        1024 * 1024 * 1024 <= bytes ==> size_text(bytes) == number::decimal((bytes / 1_073_741_824) as nat)
            + " GiB"@,
        bytes < 1024 ==> rough_size(bytes) == number::decimal(bytes as nat) + " B"@,
        1024 <= bytes < 1024 * 1024 ==> rough_size(bytes) == number::decimal(nearest(bytes as nat, 1024))
            + " KB"@,
        1024 * 1024 <= bytes < 1024 * 1024 * 1024 ==> rough_size(bytes) == one_decimal(
            bytes as nat,
            1024 * 1024,
        ) + " MB"@,
        1024 * 1024 * 1024 <= bytes < 0x20_0000_0000_0000 ==> rough_size(bytes) == one_decimal(
            bytes as nat,
            1024 * 1024 * 1024,
        ) + " GB"@,
{
    assert(nearest(bytes as nat, 1) == bytes) by {
        assert(bytes as nat % 1 == 0);
        assert(bytes as nat / 1 == bytes as nat);
    }
}

/// One decimal is the number of tenths, with a point before the last digit.
pub proof fn law_one_decimal_counts_tenths(n: nat, unit: nat)
    ensures
        ({
            let tenths = nearest(10 * n, unit);
            let t = one_decimal(n, unit);
            &&& t.len() == number::decimal(tenths / 10).len() + 2
            &&& t.take(t.len() - 2) == number::decimal(tenths / 10)
            &&& t[t.len() - 2] == '.'
            &&& t.last() == (48 + tenths % 10) as char
        }),
{
    reveal_strlit(".");
    let tenths = nearest(10 * n, unit);
    let t = one_decimal(n, unit);
    assert(t.take(t.len() - 2) =~= number::decimal(tenths / 10));
}

/// Nothing is selected where the selected message is not in the list, or where
/// every other message of it was moved away.
pub proof fn law_nothing_is_left_to_select(
    visible: Seq<Seq<char>>,
    current: Seq<char>,
    moved: Seq<Seq<char>>,
    p: int,
)
    ensures
        !visible.contains(current) ==> selection_after_move(visible, Some(current), moved) is None,
        0 <= p < visible.len() && visible[p] == current && (forall|i: int|
            0 <= i < visible.len() && i != p ==> moved.contains(#[trigger] visible[i]))
            && moved.contains(current) ==> selection_after_move(visible, Some(current), moved) is None,
{
    if !visible.contains(current) {
        lemma_place_of_missing(visible, current);
    } else if forall|i: int| 0 <= i < visible.len() ==> moved.contains(#[trigger] visible[i]) {
        let q = place_of(visible, current);
        lemma_place_not_negative(visible, current);
        if q < visible.len() {
            let below = visible.skip(q + 1);
            let above = visible.take(q);
            assert forall|i: int| 0 <= i < below.len() implies moved.contains(#[trigger] below[i]) by {
                assert(below[i] == visible[q + 1 + i]);
            }
            assert forall|i: int| 0 <= i < above.len() implies moved.contains(#[trigger] above[i]) by {
                assert(above[i] == visible[i]);
            }
            lemma_none_kept(below, moved);
            lemma_none_kept(above, moved);
        }
    }
    assert((0 <= p < visible.len() && visible[p] == current && (forall|i: int|
        0 <= i < visible.len() && i != p ==> moved.contains(#[trigger] visible[i]))
        && moved.contains(current)) ==> visible.contains(current) && forall|i: int|
        0 <= i < visible.len() ==> moved.contains(#[trigger] visible[i]));
}

/// A place is counted from zero.
proof fn lemma_place_not_negative(ids: Seq<Seq<char>>, x: Seq<char>)
    ensures
        0 <= place_of(ids, x),
    decreases ids.len(),
{
    if ids.len() > 0 {
        lemma_place_not_negative(ids.drop_first(), x);
    }
}

/// A text that is not in the list has the place behind its end.
proof fn lemma_place_of_missing(ids: Seq<Seq<char>>, x: Seq<char>)
    requires
        !ids.contains(x),
    ensures
        place_of(ids, x) == ids.len(),
    decreases ids.len(),
{
    if ids.len() > 0 {
        let rest = ids.drop_first();
        assert(ids[0] != x);
        assert forall|i: int| 0 <= i < rest.len() implies #[trigger] rest[i] != x by {
            assert(rest[i] == ids[i + 1]);
        }
        lemma_place_of_missing(rest, x);
    }
}

/// Where everything was moved, nothing is kept.
proof fn lemma_none_kept(ids: Seq<Seq<char>>, moved: Seq<Seq<char>>)
    requires
        forall|i: int| 0 <= i < ids.len() ==> moved.contains(#[trigger] ids[i]),
    ensures
        first_kept(ids, moved) is None,
        last_kept(ids, moved) is None,
    decreases ids.len(),
{
    if ids.len() > 0 {
        let rest = ids.drop_first();
        let init = ids.drop_last();
        assert forall|i: int| 0 <= i < rest.len() implies moved.contains(#[trigger] rest[i]) by {
            assert(rest[i] == ids[i + 1]);
        }
        assert forall|i: int| 0 <= i < init.len() implies moved.contains(#[trigger] init[i]) by {
            assert(init[i] == ids[i]);
        }
        assert(moved.contains(ids[0]));
        assert(moved.contains(ids[ids.len() - 1]));
        lemma_none_kept(rest, moved);
        lemma_none_kept(init, moved);
    }
}

} // verus!
