//! The sidebar: mailboxes, labels and their colours.
use vstd::prelude::*;

use crate::display;
use crate::display::display_name_for_folder;
use crate::model;
use crate::model::{Folder, FolderRole};
use crate::order;
use crate::order::{SortKey, sort_folders};
use crate::shell::Selection;
use crate::text;
use crate::text::to_lowercase;

verus! {

/// The place of a mailbox by its role; a folder without a place is a label.
pub open spec fn mailbox_band(role: Option<FolderRole>) -> Option<u32> {
    match role {
        Some(FolderRole::Inbox) => Some(0),
        Some(FolderRole::Flagged) => Some(1),
        Some(FolderRole::Sent) => Some(2),
        Some(FolderRole::Drafts) => Some(3),
        Some(FolderRole::All) => Some(4),
        Some(FolderRole::Spam) => Some(5),
        Some(FolderRole::Trash) => Some(6),
        Some(FolderRole::Archive) => Some(7),
        _ => None,
    }
}

/// See [`mailbox_band`].
pub fn band_of_mailbox(role: &Option<FolderRole>) -> (r: Option<u32>)
    ensures
        r == mailbox_band(*role),
{
    match role {
        Some(FolderRole::Inbox) => Some(0),
        Some(FolderRole::Flagged) => Some(1),
        Some(FolderRole::Sent) => Some(2),
        Some(FolderRole::Drafts) => Some(3),
        Some(FolderRole::All) => Some(4),
        Some(FolderRole::Spam) => Some(5),
        Some(FolderRole::Trash) => Some(6),
        Some(FolderRole::Archive) => Some(7),
        _ => None,
    }
}

/// The folders that are mailboxes, or those that are labels.
pub open spec fn folders_that(folders: Seq<Folder>, mailboxes: bool) -> Seq<Folder>
    decreases folders.len(),
{
    if folders.len() == 0 {
        Seq::empty()
    } else {
        let before = folders_that(folders.drop_last(), mailboxes);
        if (mailbox_band(folders.last().role) is Some) == mailboxes {
            before.push(folders.last())
        } else {
            before
        }
    }
}

/// See [`folders_that`].
fn select_folders(folders: &Vec<Folder>, mailboxes: bool) -> (r: Vec<Folder>)
    ensures
        r@ == folders_that(folders@, mailboxes),
{
    let mut r: Vec<Folder> = Vec::new();
    let mut i: usize = 0;
    while i < folders.len()
        invariant
            i <= folders@.len(),
            r@ == folders_that(folders@.take(i as int), mailboxes),
        decreases folders@.len() - i,
    {
        assert(folders@.take(i + 1).drop_last() =~= folders@.take(i as int));
        if band_of_mailbox(&folders[i].role).is_some() == mailboxes {
            r.push(folders[i].clone());
        }
        i = i + 1;
    }
    assert(folders@.take(folders@.len() as int) =~= folders@);
    r
}

/// The keys that order mailboxes: their bands.
pub open spec fn mailbox_keys(folders: Seq<Folder>) -> Seq<(u32, Seq<char>)> {
    folders.map_values(
        |f: Folder|
            (
                match mailbox_band(f.role) {
                    Some(b) => b,
                    None => u32::MAX,
                },
                Seq::<char>::empty(),
            ),
    )
}

/// The mailboxes in the order of their bands; folders of one band stay in
/// their order.
pub fn sort_mailboxes(folders: &Vec<Folder>) -> (r: Vec<Folder>)
    ensures
        order::sorted_by_keys(folders@, mailbox_keys(folders@), r@),
{
    let mut keys: Vec<SortKey> = Vec::new();
    let mut i: usize = 0;
    while i < folders.len()
        invariant
            i <= folders@.len(),
            keys@.len() == i,
            forall|j: int| 0 <= j < i ==> (#[trigger] keys@[j])@ == mailbox_keys(folders@)[j],
        decreases folders@.len() - i,
    {
        let band: u32 = match band_of_mailbox(&folders[i].role) {
            Some(b) => b,
            None => u32::MAX,
        };
        keys.push(SortKey { band, text: String::new() });
        i = i + 1;
    }
    assert(order::keys_of(keys@) =~= mailbox_keys(folders@));
    sort_folders(folders, &keys)
}

/// The keys that order labels, given a text for each.
pub open spec fn label_keys(names: Seq<Seq<char>>) -> Seq<(u32, Seq<char>)> {
    names.map_values(|n: Seq<char>| (0u32, n))
}

/// The folders ordered by the texts at their places; folders with equal texts
/// stay in their order.
pub fn sort_by_text(folders: &Vec<Folder>, names: &Vec<String>) -> (r: Vec<Folder>)
    requires
        names@.len() == folders@.len(),
    ensures
        order::sorted_by_keys(folders@, label_keys(model::texts(names@)), r@),
{
    let mut keys: Vec<SortKey> = Vec::new();
    let mut i: usize = 0;
    while i < names.len()
        invariant
            i <= names@.len(),
            keys@.len() == i,
            forall|j: int|
                0 <= j < i ==> (#[trigger] keys@[j])@ == label_keys(model::texts(names@))[j],
        decreases names@.len() - i,
    {
        keys.push(SortKey { band: 0, text: names[i].clone() });
        i = i + 1;
    }
    assert(order::keys_of(keys@) =~= label_keys(model::texts(names@)));
    sort_folders(folders, &keys)
}

/// The small forms of folder names.
pub open spec fn lowered_names(folders: Seq<Folder>) -> Seq<Seq<char>> {
    folders.map_values(|f: Folder| text::unicode_lower(f.name@))
}

/// Splits an account's folders into mailboxes, in the order of their bands, and
/// labels, in alphabetical order without regard to case.
pub fn split_mailboxes_labels(folders: Vec<Folder>) -> (r: (Vec<Folder>, Vec<Folder>))
    ensures
        order::sorted_by_keys(
            folders_that(folders@, true),
            mailbox_keys(folders_that(folders@, true)),
            r.0@,
        ),
        order::sorted_by_keys(
            folders_that(folders@, false),
            label_keys(lowered_names(folders_that(folders@, false))),
            r.1@,
        ),
{
    let boxes = select_folders(&folders, true);
    let labels = select_folders(&folders, false);
    let mut names: Vec<String> = Vec::new();
    let mut i: usize = 0;
    while i < labels.len()
        invariant
            i <= labels@.len(),
            names@.len() == i,
            forall|j: int| 0 <= j < i ==> (#[trigger] names@[j])@ == text::unicode_lower(labels@[j].name@),
        decreases labels@.len() - i,
    {
        names.push(to_lowercase(&labels[i].name));
        i = i + 1;
    }
    assert(model::texts(names@) =~= lowered_names(labels@));
    (sort_mailboxes(&boxes), sort_by_text(&labels, &names))
}

/// Every folder is shown once: it is either among the mailboxes or among the
/// labels.
pub proof fn law_split_loses_no_folder(folders: Seq<Folder>)
    ensures
        folders_that(folders, true).len() + folders_that(folders, false).len() == folders.len(),
        forall|i: int|
            0 <= i < folders.len() ==> folders_that(
                folders,
                mailbox_band((#[trigger] folders[i]).role) is Some,
            ).contains(folders[i]),
    decreases folders.len(),
{
    if folders.len() > 0 {
        let init = folders.drop_last();
        law_split_loses_no_folder(init);
        assert forall|i: int| 0 <= i < folders.len() implies folders_that(
            folders,
            mailbox_band((#[trigger] folders[i]).role) is Some,
        ).contains(folders[i]) by {
            let side = mailbox_band(folders[i].role) is Some;
            let before = folders_that(init, side);
            let after = folders_that(folders, side);
            if i < init.len() {
                assert(init[i] == folders[i]);
                assert(before.contains(folders[i]));
                let k = choose|k: int| 0 <= k < before.len() && before[k] == folders[i];
                assert(after[k] == folders[i]);
            } else {
                assert(after[after.len() - 1] == folders[i]);
            }
        }
    }
}

/// The number that a label's colour is drawn from, over the bytes of its name.
pub open spec fn label_hash(bytes: Seq<u8>) -> nat
    decreases bytes.len(),
{
    if bytes.len() == 0 {
        5381
    } else {
        (label_hash(bytes.drop_last()) * 33 + bytes.last() as nat) % 0x1_0000_0000
    }
}

/// The six label colours.
pub open spec fn palette_colour(i: int) -> Seq<char> {
    if i == 0 {
        "#D85A30"@
    } else if i == 1 {
        "#378ADD"@
    } else if i == 2 {
        "#1D9E75"@
    } else if i == 3 {
        "#A858C8"@
    } else if i == 4 {
        "#D8A030"@
    } else {
        "#30A0C8"@
    }
}

/// The colour of a label: the same name always has the same colour.
pub fn label_color(name: &str) -> (r: &'static str)
    ensures
        r@ == palette_colour((label_hash(vstd::utf8::encode_utf8(name@)) % 6) as int),
{
    let bytes = name.as_bytes();
    let mut hash: u64 = 5381;
    let mut i: usize = 0;
    while i < bytes.len()
        invariant
            i <= bytes@.len(),
            hash == label_hash(bytes@.take(i as int)),
            hash < 0x1_0000_0000,
        decreases bytes@.len() - i,
    {
        assert(bytes@.take(i + 1).drop_last() =~= bytes@.take(i as int));
        hash = (hash * 33 + bytes[i] as u64) % 0x1_0000_0000;
        i = i + 1;
    }
    assert(bytes@.take(bytes@.len() as int) =~= bytes@);
    let k: u64 = hash % 6;
    if k == 0 {
        "#D85A30"
    } else if k == 1 {
        "#378ADD"
    } else if k == 2 {
        "#1D9E75"
    } else if k == 3 {
        "#A858C8"
    } else if k == 4 {
        "#D8A030"
    } else {
        "#30A0C8"
    }
}

// ---------------------------------------------------------------------
// Counts
// ---------------------------------------------------------------------

/// What was counted in a folder; nothing where counting failed.
#[derive(Debug, Clone, Copy, PartialEq, Eq, Structural)]
pub struct FolderCounts {
    pub unread: Option<u32>,
    pub total: Option<u32>,
}

/// A count, or zero where counting failed.
pub open spec fn or_zero(n: Option<u32>) -> u32 {
    match n {
        Some(n) => n,
        None => 0,
    }
}

/// The folders with what was counted in each: the counts that are kept with
/// them may be old.
pub fn with_live_counts(folders: Vec<Folder>, counts: &Vec<FolderCounts>) -> (r: Vec<Folder>)
    requires
        folders@.len() == counts@.len(),
    ensures
        r@.len() == folders@.len(),
        forall|i: int|
            0 <= i < r@.len() ==> #[trigger] r@[i] == (Folder {
                unread_count: or_zero(counts@[i].unread),
                total_count: or_zero(counts@[i].total),
                ..folders@[i]
            }),
{
    let ghost all = folders@;
    let mut r: Vec<Folder> = Vec::new();
    let n: usize = counts.len();
    let mut i: usize = 0;
    for f in it: folders
        invariant
            it.seq() == all,
            all.len() == n == counts@.len(),
            i == it.index(),
            r@.len() == i,
            forall|j: int|
                0 <= j < i ==> #[trigger] r@[j] == (Folder {
                    unread_count: or_zero(counts@[j].unread),
                    total_count: or_zero(counts@[j].total),
                    ..all[j]
                }),
    {
        let mut f = f;
        f.unread_count = match counts[i].unread {
            Some(n) => n,
            None => 0,
        };
        f.total_count = match counts[i].total {
            Some(n) => n,
            None => 0,
        };
        r.push(f);
        i = i + 1;
    }
    r
}

// ---------------------------------------------------------------------
// Rows
// ---------------------------------------------------------------------

/// The picture of a mailbox.
#[derive(Debug, Clone, Copy, PartialEq, Eq, Structural)]
pub enum MailboxIcon {
    Tray,
    Star,
    Plane,
    Pencil,
    Warning,
    Bin,
    Box,
}

/// What stands before a folder's name.
#[derive(Debug, Clone, Copy, PartialEq, Eq)]
pub enum RowMark {
    Icon(MailboxIcon),
    /// A dot of this colour.
    Dot(&'static str),
}

/// A row of the sidebar.
#[derive(Debug, PartialEq, Eq)]
pub struct SidebarRow {
    pub class: &'static str,
    pub name: String,
    pub mark: RowMark,
    /// The number of unread messages and its style, where there are any.
    pub unread: Option<(u32, &'static str)>,
}

/// The picture of a mailbox; what has none of its own is shown as a box.
pub open spec fn icon_for(role: Option<FolderRole>) -> MailboxIcon {
    match role {
        Some(FolderRole::Inbox) => MailboxIcon::Tray,
        Some(FolderRole::Flagged) => MailboxIcon::Star,
        Some(FolderRole::Sent) => MailboxIcon::Plane,
        Some(FolderRole::Drafts) => MailboxIcon::Pencil,
        Some(FolderRole::Spam) => MailboxIcon::Warning,
        Some(FolderRole::Trash) => MailboxIcon::Bin,
        _ => MailboxIcon::Box,
    }
}

/// See [`icon_for`].
pub fn mailbox_icon(role: &Option<FolderRole>) -> (r: MailboxIcon)
    ensures
        r == icon_for(*role),
{
    match role {
        Some(FolderRole::Inbox) => MailboxIcon::Tray,
        Some(FolderRole::Flagged) => MailboxIcon::Star,
        Some(FolderRole::Sent) => MailboxIcon::Plane,
        Some(FolderRole::Drafts) => MailboxIcon::Pencil,
        Some(FolderRole::Spam) => MailboxIcon::Warning,
        Some(FolderRole::Trash) => MailboxIcon::Bin,
        _ => MailboxIcon::Box,
    }
}

/// The row of a mailbox or of a label.
pub fn sidebar_row(folder: &Folder, mailbox: bool, selection: &Selection) -> (r: SidebarRow)
    ensures
        ({
            let selected = selection@.folder == Some(folder.id@);
            &&& r.class@ == if selected {
                "sidebar-row selected"@
            } else {
                "sidebar-row"@
            }
            &&& r.name@ == display::friendly_name(folder.name@)
            &&& match r.mark {
                RowMark::Icon(i) => mailbox && i == icon_for(folder.role),
                RowMark::Dot(c) => !mailbox && c@ == palette_colour(
                    label_hash(vstd::utf8::encode_utf8(folder.name@)) as int % 6,
                ),
            }
            &&& match r.unread {
                Some(u) => {
                    &&& folder.unread_count > 0
                    &&& u.0 == folder.unread_count
                    &&& u.1@ == if selected {
                        "sidebar-unread-active"@
                    } else {
                        "sidebar-unread-inactive"@
                    }
                },
                None => folder.unread_count == 0,
            }
        }),
{
    let selected = match &selection.folder {
        Some(f) => f.same(&folder.id),
        None => false,
    };
    let mark = if mailbox {
        RowMark::Icon(mailbox_icon(&folder.role))
    } else {
        RowMark::Dot(label_color(folder.name.as_str()))
    };
    let unread = if folder.unread_count == 0 {
        None
    } else if selected {
        Some((folder.unread_count, "sidebar-unread-active"))
    } else {
        Some((folder.unread_count, "sidebar-unread-inactive"))
    };
    SidebarRow {
        class: if selected {
            "sidebar-row selected"
        } else {
            "sidebar-row"
        },
        name: display_name_for_folder(folder.name.as_str()).to_owned(),
        mark,
        unread,
    }
}

/// The mailboxes stand in their order: inbox, flagged, sent, drafts, all mail,
/// spam, trash and archive. What is important, or has no role, is a label.
pub proof fn law_mailboxes_have_their_order()
    ensures
        mailbox_band(Some(FolderRole::Inbox)) == Some(0u32),
        mailbox_band(Some(FolderRole::Flagged)) == Some(1u32),
        mailbox_band(Some(FolderRole::Sent)) == Some(2u32),
        mailbox_band(Some(FolderRole::Drafts)) == Some(3u32),
        mailbox_band(Some(FolderRole::All)) == Some(4u32),
        mailbox_band(Some(FolderRole::Spam)) == Some(5u32),
        mailbox_band(Some(FolderRole::Trash)) == Some(6u32),
        mailbox_band(Some(FolderRole::Archive)) == Some(7u32),
        mailbox_band(Some(FolderRole::Important)) is None,
        mailbox_band(None) is None,
{
}

/// The folders are split by whether they are mailboxes, and keep their order
/// until they are sorted.
pub proof fn law_mailboxes_and_labels_are_told_apart(folders: Seq<Folder>, mailboxes: bool)
    ensures
        folders_that(folders, mailboxes) == folders.filter(
            |f: Folder|
                (f.role is Some && f.role != Some(FolderRole::Important)) == mailboxes,
        ),
    decreases folders.len(),
{
    reveal(Seq::filter);
    if folders.len() > 0 {
        law_mailboxes_and_labels_are_told_apart(folders.drop_last(), mailboxes);
    }
    assert(folders_that(folders, mailboxes) =~= folders.filter(
        |f: Folder| (f.role is Some && f.role != Some(FolderRole::Important)) == mailboxes,
    ));
}

/// Sorted mailboxes stand in the order of their roles, sorted labels in that of
/// their names without regard to case; nothing is lost.
pub proof fn law_the_sidebar_is_sorted(folders: Seq<Folder>, r: Seq<Folder>, i: int, j: int)
    requires
        0 <= i < j < folders.len(),
    ensures
        order::sorted_by_keys(folders, mailbox_keys(folders), r) ==> {
            &&& r.len() == folders.len()
            &&& mailbox_band(r[i].role) is Some && mailbox_band(r[j].role) is Some ==> mailbox_band(
                r[i].role,
            )->0 <= mailbox_band(r[j].role)->0
        },
        order::sorted_by_keys(folders, label_keys(lowered_names(folders)), r) ==> {
            &&& r.len() == folders.len()
            &&& !order::text_lt(text::unicode_lower(r[j].name@), text::unicode_lower(r[i].name@))
        },
{
    if order::sorted_by_keys(folders, mailbox_keys(folders), r) {
        let keys = mailbox_keys(folders);
        let p = choose|p: Seq<int>| #[trigger] order::is_stable_order(keys, p) && r == order::arranged(folders, p);
        order::law_sorting_keeps_everything(keys, p, i, j);
        assert(0 <= p[j] < keys.len());
    }
    if order::sorted_by_keys(folders, label_keys(lowered_names(folders)), r) {
        let keys = label_keys(lowered_names(folders));
        let p = choose|p: Seq<int>| #[trigger] order::is_stable_order(keys, p) && r == order::arranged(folders, p);
        order::law_sorting_keeps_everything(keys, p, i, j);
        assert(0 <= p[j] < keys.len());
        assert(keys[p[i]].1 == text::unicode_lower(r[i].name@));
        assert(keys[p[j]].1 == text::unicode_lower(r[j].name@));
    }
}

/// A label keeps its colour, which its name decides, byte by byte.
pub proof fn law_labels_keep_their_colour(bytes: Seq<u8>, b: u8)
    ensures
        label_hash(Seq::<u8>::empty()) == 5381,
        label_hash(bytes.push(b)) == (33 * label_hash(bytes) + b) % 0x1_0000_0000,
        palette_colour(0) == "#D85A30"@,
        palette_colour(1) == "#378ADD"@,
        palette_colour(2) == "#1D9E75"@,
        palette_colour(3) == "#A858C8"@,
        palette_colour(4) == "#D8A030"@,
        palette_colour(5) == "#30A0C8"@,
{
    assert(bytes.push(b).drop_last() =~= bytes);
}

/// A count that is not known is shown as zero; a known one is shown as it is.
pub proof fn law_counts_are_shown_as_they_are(n: u32)
    ensures
        or_zero(Some(n)) == n,
        or_zero(None) == 0,
{
}

/// Mailboxes have the icon of their role.
pub proof fn law_mailboxes_have_icons()
    ensures
        icon_for(Some(FolderRole::Inbox)) == MailboxIcon::Tray,
        icon_for(Some(FolderRole::Flagged)) == MailboxIcon::Star,
        icon_for(Some(FolderRole::Sent)) == MailboxIcon::Plane,
        icon_for(Some(FolderRole::Drafts)) == MailboxIcon::Pencil,
        icon_for(Some(FolderRole::Spam)) == MailboxIcon::Warning,
        icon_for(Some(FolderRole::Trash)) == MailboxIcon::Bin,
        icon_for(Some(FolderRole::All)) == MailboxIcon::Box,
        icon_for(Some(FolderRole::Archive)) == MailboxIcon::Box,
        icon_for(Some(FolderRole::Important)) == MailboxIcon::Box,
        icon_for(None) == MailboxIcon::Box,
{
}

/// Mailboxes of one role, and labels of one name, stay in the order in which
/// they came.
pub proof fn law_equals_stay_in_order(folders: Seq<Folder>, r: Seq<Folder>) -> (p: Seq<int>)
    requires
        order::sorted_by_keys(folders, mailbox_keys(folders), r) || order::sorted_by_keys(
            folders,
            label_keys(lowered_names(folders)),
            r,
        ),
    ensures
        r.len() == folders.len(),
        p.len() == folders.len(),
        forall|i: int|
            0 <= i < p.len() ==> 0 <= #[trigger] p[i] < folders.len() && r[i] == folders[p[i]],
        order::sorted_by_keys(folders, mailbox_keys(folders), r) ==> forall|i: int, j: int|
            0 <= i < j < p.len() && r[i].role == r[j].role ==> #[trigger] p[i] < #[trigger] p[j],
        !order::sorted_by_keys(folders, mailbox_keys(folders), r) ==> forall|i: int, j: int|
            0 <= i < j < p.len() && text::unicode_lower(r[i].name@) == text::unicode_lower(
                r[j].name@,
            ) ==> #[trigger] p[i] < #[trigger] p[j],
{
    let keys = if order::sorted_by_keys(folders, mailbox_keys(folders), r) {
        mailbox_keys(folders)
    } else {
        label_keys(lowered_names(folders))
    };
    let p = choose|p: Seq<int>| #[trigger]
        order::is_stable_order(keys, p) && r == order::arranged(folders, p);
    assert forall|i: int, j: int|
        0 <= i < j < p.len() && keys[p[i]] == keys[p[j]] implies #[trigger] p[i]
        < #[trigger] p[j] by {
        order::law_sorting_keeps_everything(keys, p, i, j);
    }
    p
}

} // verus!
