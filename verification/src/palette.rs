//! The command palette: what it offers, what a query leaves, and what choosing
//! an entry does.
use vstd::prelude::*;

use crate::compose::ComposeState;
use crate::display;
use crate::display::display_name_for_folder;
use crate::model;
use crate::model::{Account, AccountId, Folder, FolderId};
use crate::shell::{SelectionModel, Shell, ShellModel};
use crate::text;
use crate::text::{contains, str_eq, to_lowercase};

verus! {

/// A command that the palette offers.
#[derive(Debug, Clone, Copy, PartialEq, Eq, Structural)]
pub enum PaletteCommand {
    Compose,
    OpenSettings,
    AddAccount,
    ToggleHelp,
    ClearReader,
}

/// How a command reads.
pub open spec fn command_label(c: PaletteCommand) -> Seq<char> {
    match c {
        PaletteCommand::Compose => "Compose new message"@,
        PaletteCommand::OpenSettings => "Open settings"@,
        PaletteCommand::AddAccount => "Add account"@,
        PaletteCommand::ToggleHelp => "Toggle keyboard shortcuts"@,
        PaletteCommand::ClearReader => "Close reader"@,
    }
}

impl PaletteCommand {
    /// See [`command_label`].
    pub fn label(&self) -> (r: &'static str)
        ensures
            r@ == command_label(*self),
    {
        match self {
            PaletteCommand::Compose => "Compose new message",
            PaletteCommand::OpenSettings => "Open settings",
            PaletteCommand::AddAccount => "Add account",
            PaletteCommand::ToggleHelp => "Toggle keyboard shortcuts",
            PaletteCommand::ClearReader => "Close reader",
        }
    }
}

/// An entry of the palette.
#[derive(Debug, PartialEq, Eq)]
pub enum PaletteEntry {
    Folder {
        account_id: AccountId,
        folder_id: FolderId,
        folder_label: String,
        account_label: String,
    },
    Command(PaletteCommand),
    RecentSearch(String),
}

/// The contents of a [`PaletteEntry`].
pub enum EntryModel {
    Folder {
        account_id: Seq<char>,
        folder_id: Seq<char>,
        folder_label: Seq<char>,
        account_label: Seq<char>,
    },
    Command(PaletteCommand),
    RecentSearch(Seq<char>),
}

impl View for PaletteEntry {
    type V = EntryModel;

    open spec fn view(&self) -> EntryModel {
        match self {
            PaletteEntry::Folder { account_id, folder_id, folder_label, account_label } =>
                EntryModel::Folder {
                account_id: account_id@,
                folder_id: folder_id@,
                folder_label: folder_label@,
                account_label: account_label@,
            },
            PaletteEntry::Command(c) => EntryModel::Command(*c),
            PaletteEntry::RecentSearch(q) => EntryModel::RecentSearch(q@),
        }
    }
}

impl Clone for PaletteEntry {
    fn clone(&self) -> (r: Self)
        ensures
            r == *self,
    {
        match self {
            PaletteEntry::Folder { account_id, folder_id, folder_label, account_label } =>
                PaletteEntry::Folder {
                account_id: account_id.clone(),
                folder_id: folder_id.clone(),
                folder_label: folder_label.clone(),
                account_label: account_label.clone(),
            },
            PaletteEntry::Command(c) => PaletteEntry::Command(*c),
            PaletteEntry::RecentSearch(q) => PaletteEntry::RecentSearch(q.clone()),
        }
    }
}

/// The contents of a list of entries.
pub open spec fn entries_of(v: Seq<PaletteEntry>) -> Seq<EntryModel> {
    v.map_values(|e: PaletteEntry| e@)
}

impl EntryModel {
    /// The first column of an entry's row.
    pub open spec fn kind(self) -> Seq<char> {
        match self {
            EntryModel::Folder { .. } => "jump"@,
            EntryModel::Command(_) => "cmd"@,
            EntryModel::RecentSearch(_) => "recent"@,
        }
    }

    /// The main text of an entry's row.
    pub open spec fn primary(self) -> Seq<char> {
        match self {
            EntryModel::Folder { folder_label, .. } => folder_label,
            EntryModel::Command(c) => command_label(c),
            EntryModel::RecentSearch(q) => q,
        }
    }

    /// The text that a query is matched against. A folder is found by its
    /// account too.
    pub open spec fn search_key(self) -> Seq<char> {
        match self {
            EntryModel::Folder { folder_label, account_label, .. } => folder_label + " "@
                + account_label,
            _ => self.primary(),
        }
    }
}

impl PaletteEntry {
    /// See [`EntryModel::kind`].
    pub fn kind_label(&self) -> (r: &'static str)
        ensures
            r@ == self@.kind(),
    {
        match self {
            PaletteEntry::Folder { .. } => "jump",
            PaletteEntry::Command(_) => "cmd",
            PaletteEntry::RecentSearch(_) => "recent",
        }
    }

    /// See [`EntryModel::primary`].
    pub fn primary_label(&self) -> (r: String)
        ensures
            r@ == self@.primary(),
    {
        match self {
            PaletteEntry::Folder { folder_label, .. } => folder_label.clone(),
            PaletteEntry::Command(c) => c.label().to_owned(),
            PaletteEntry::RecentSearch(q) => q.clone(),
        }
    }

    /// The account that a folder belongs to; other entries have no such text.
    pub fn secondary_label(&self) -> (r: Option<String>)
        ensures
            model::opt_text(r) == match self@ {
                EntryModel::Folder { account_label, .. } => Some(account_label),
                _ => None,
            },
    {
        match self {
            PaletteEntry::Folder { account_label, .. } => Some(account_label.clone()),
            _ => None,
        }
    }

    /// See [`EntryModel::search_key`].
    pub fn search_text(&self) -> (r: String)
        ensures
            r@ == self@.search_key(),
    {
        match self {
            PaletteEntry::Folder { folder_label, account_label, .. } => {
                let mut r = folder_label.clone();
                r.append(" ");
                r.append(account_label);
                r
            },
            PaletteEntry::Command(c) => c.label().to_owned(),
            PaletteEntry::RecentSearch(q) => q.clone(),
        }
    }
}

// ---------------------------------------------------------------------
// What the palette offers
// ---------------------------------------------------------------------

/// The commands, which are always offered.
pub open spec fn command_entries() -> Seq<EntryModel> {
    seq![
        EntryModel::Command(PaletteCommand::Compose),
        EntryModel::Command(PaletteCommand::OpenSettings),
        EntryModel::Command(PaletteCommand::AddAccount),
        EntryModel::Command(PaletteCommand::ToggleHelp),
        EntryModel::Command(PaletteCommand::ClearReader),
    ]
}

/// The entry for a folder.
pub open spec fn folder_entry(account: Account, f: Folder) -> EntryModel {
    EntryModel::Folder {
        account_id: account.id@,
        folder_id: f.id@,
        folder_label: display::friendly_name(f.name@),
        account_label: account.email_address@,
    }
}

/// An account and its folders.
#[derive(Debug, PartialEq, Eq)]
pub struct AccountFolders {
    pub account: Account,
    pub folders: Vec<Folder>,
}

/// The entries for the folders of an account.
pub open spec fn entries_for_account(g: AccountFolders) -> Seq<EntryModel> {
    g.folders@.map_values(|f: Folder| folder_entry(g.account, f))
}

/// The entries for the folders of several accounts.
pub open spec fn entries_for_accounts(groups: Seq<AccountFolders>) -> Seq<EntryModel>
    decreases groups.len(),
{
    if groups.len() == 0 {
        Seq::empty()
    } else {
        entries_for_accounts(groups.drop_last()) + entries_for_account(groups.last())
    }
}

/// Everything that the palette offers: the commands, the folders account by
/// account, the remembered searches.
pub open spec fn offered(groups: Seq<AccountFolders>, recent: Seq<Seq<char>>) -> Seq<EntryModel> {
    command_entries() + entries_for_accounts(groups) + recent.map_values(
        |q: Seq<char>| EntryModel::RecentSearch(q),
    )
}

/// See [`offered`]. `groups` is empty until the folders have loaded.
pub fn palette_entries(groups: &Vec<AccountFolders>, recent: &Vec<String>) -> (r: Vec<PaletteEntry>)
    ensures
        entries_of(r@) == offered(groups@, model::texts(recent@)),
{
    let mut r: Vec<PaletteEntry> = Vec::new();
    r.push(PaletteEntry::Command(PaletteCommand::Compose));
    r.push(PaletteEntry::Command(PaletteCommand::OpenSettings));
    r.push(PaletteEntry::Command(PaletteCommand::AddAccount));
    r.push(PaletteEntry::Command(PaletteCommand::ToggleHelp));
    r.push(PaletteEntry::Command(PaletteCommand::ClearReader));
    assert(entries_of(r@) =~= command_entries() + entries_for_accounts(groups@.take(0)));
    let mut i: usize = 0;
    while i < groups.len()
        invariant
            i <= groups@.len(),
            entries_of(r@) == command_entries() + entries_for_accounts(groups@.take(i as int)),
        decreases groups@.len() - i,
    {
        let g = &groups[i];
        let ghost base = entries_of(r@);
        let ghost mine = entries_for_account(*g);
        let mut j: usize = 0;
        assert(base + mine.take(0) =~= base);
        while j < g.folders.len()
            invariant
                j <= g.folders@.len(),
                mine == entries_for_account(*g),
                entries_of(r@) == base + mine.take(j as int),
            decreases g.folders@.len() - j,
        {
            let ghost before = entries_of(r@);
            let f = &g.folders[j];
            r.push(
                PaletteEntry::Folder {
                    account_id: g.account.id.clone(),
                    folder_id: f.id.clone(),
                    folder_label: display_name_for_folder(&f.name).to_owned(),
                    account_label: g.account.email_address.clone(),
                },
            );
            assert(entries_of(r@) =~= before.push(folder_entry(g.account, *f)));
            assert(base + mine.take(j + 1) =~= (base + mine.take(j as int)).push(mine[j as int]));
            j = j + 1;
        }
        assert(mine.take(mine.len() as int) =~= mine);
        assert(groups@.take(i + 1).drop_last() =~= groups@.take(i as int));
        assert(entries_of(r@) =~= command_entries() + entries_for_accounts(groups@.take(i + 1)));
        i = i + 1;
    }
    assert(groups@.take(groups@.len() as int) =~= groups@);
    let ghost base = entries_of(r@);
    let ghost olds = model::texts(recent@).map_values(|q: Seq<char>| EntryModel::RecentSearch(q));
    let mut k: usize = 0;
    assert(base + olds.take(0) =~= base);
    while k < recent.len()
        invariant
            k <= recent@.len(),
            olds == model::texts(recent@).map_values(|q: Seq<char>| EntryModel::RecentSearch(q)),
            entries_of(r@) == base + olds.take(k as int),
        decreases recent@.len() - k,
    {
        let ghost before = entries_of(r@);
        r.push(PaletteEntry::RecentSearch(recent[k].clone()));
        assert(entries_of(r@) =~= before.push(olds[k as int]));
        assert(base + olds.take(k + 1) =~= (base + olds.take(k as int)).push(olds[k as int]));
        k = k + 1;
    }
    assert(olds.take(olds.len() as int) =~= olds);
    r
}

// ---------------------------------------------------------------------
// What a query leaves
// ---------------------------------------------------------------------

/// The entries whose key, at the same place in `keys`, holds `needle`.
pub open spec fn matching(
    entries: Seq<PaletteEntry>,
    keys: Seq<Seq<char>>,
    needle: Seq<char>,
) -> Seq<PaletteEntry>
    decreases entries.len(),
{
    if entries.len() == 0 {
        Seq::empty()
    } else {
        let before = matching(entries.drop_last(), keys, needle);
        if text::holds_text(keys[entries.len() - 1], needle) {
            before.push(entries.last())
        } else {
            before
        }
    }
}

/// See [`matching`].
pub fn keep_matching(entries: &Vec<PaletteEntry>, keys: &Vec<String>, needle: &str) -> (r: Vec<
    PaletteEntry,
>)
    requires
        keys@.len() == entries@.len(),
    ensures
        r@ == matching(entries@, model::texts(keys@), needle@),
{
    let mut r: Vec<PaletteEntry> = Vec::new();
    let mut i: usize = 0;
    while i < entries.len()
        invariant
            i <= entries@.len(),
            keys@.len() == entries@.len(),
            r@ == matching(entries@.take(i as int), model::texts(keys@), needle@),
        decreases entries@.len() - i,
    {
        assert(entries@.take(i + 1).drop_last() =~= entries@.take(i as int));
        assert(model::texts(keys@)[i as int] == keys@[i as int]@);
        if contains(&keys[i], needle) {
            r.push(entries[i].clone());
        }
        i = i + 1;
    }
    assert(entries@.take(entries@.len() as int) =~= entries@);
    r
}

/// The small forms of the entries' keys.
pub open spec fn lowered_keys(entries: Seq<PaletteEntry>) -> Seq<Seq<char>> {
    entries.map_values(|e: PaletteEntry| text::unicode_lower(e@.search_key()))
}

/// The entries that a query leaves: those whose text holds it, without regard
/// to case; all of them where it is empty.
pub fn filter_entries(entries: Vec<PaletteEntry>, query: &str) -> (r: Vec<PaletteEntry>)
    ensures
        r@ == if text::unicode_lower(query@).len() == 0 {
            entries@
        } else {
            matching(entries@, lowered_keys(entries@), text::unicode_lower(query@))
        },
{
    let q = to_lowercase(query);
    if q.as_str().is_empty() {
        return entries;
    }
    let mut keys: Vec<String> = Vec::new();
    let mut i: usize = 0;
    while i < entries.len()
        invariant
            i <= entries@.len(),
            keys@.len() == i,
            forall|j: int|
                0 <= j < i ==> (#[trigger] keys@[j])@ == text::unicode_lower(entries@[j]@.search_key()),
        decreases entries@.len() - i,
    {
        let t = entries[i].search_text();
        keys.push(to_lowercase(&t));
        i = i + 1;
    }
    assert(model::texts(keys@) =~= lowered_keys(entries@));
    keep_matching(&entries, &keys, &q)
}

// ---------------------------------------------------------------------
// The highlighted row
// ---------------------------------------------------------------------

/// The highlighted row, kept within `count` rows.
pub fn active_row(active: usize, count: usize) -> (r: usize)
    ensures
        r == if count == 0 {
            0
        } else if active >= count {
            count - 1
        } else {
            active as int
        },
{
    if count == 0 {
        0
    } else if active >= count {
        count - 1
    } else {
        active
    }
}

/// The row after `row`; after the last comes the first.
pub fn row_below(row: usize, count: usize) -> (r: usize)
    requires
        row < count,
    ensures
        r == (row + 1) % (count as int),
        r < count,
{
    if row + 1 == count {
        0
    } else {
        proof {
            vstd::arithmetic::div_mod::lemma_small_mod((row + 1) as nat, count as nat);
        }
        row + 1
    }
}

/// The row before `row`; before the first comes the last.
pub fn row_above(row: usize, count: usize) -> (r: usize)
    requires
        row < count,
    ensures
        r == if row == 0 {
            count - 1
        } else {
            row - 1
        },
{
    if row == 0 {
        count - 1
    } else {
        row - 1
    }
}

/// What a key does in the palette.
#[derive(Debug, Clone, Copy, PartialEq, Eq, Structural)]
pub enum PaletteKey {
    /// The key is not the palette's.
    Ignored,
    /// The palette closes.
    Close,
    /// Another row is highlighted.
    Highlight(usize),
    /// The highlighted entry is chosen.
    Choose(usize),
    /// The key is the palette's, but there is no row.
    Swallowed,
}

/// What a key does while row `active` of `count` rows is highlighted.
pub open spec fn palette_key_effect(key: Seq<char>, active: int, count: int) -> PaletteKey {
    let cur = if active >= count {
        count - 1
    } else {
        active
    };
    if key == "Escape"@ {
        PaletteKey::Close
    } else if key != "ArrowDown"@ && key != "ArrowUp"@ && key != "Enter"@ {
        PaletteKey::Ignored
    } else if count == 0 {
        PaletteKey::Swallowed
    } else if key == "ArrowDown"@ {
        PaletteKey::Highlight(((cur + 1) % count) as usize)
    } else if key == "ArrowUp"@ {
        PaletteKey::Highlight(
            (if cur == 0 {
                count - 1
            } else {
                cur - 1
            }) as usize,
        )
    } else {
        PaletteKey::Choose(cur as usize)
    }
}

/// See [`palette_key_effect`].
pub fn palette_key(key: &str, active: usize, count: usize) -> (r: PaletteKey)
    ensures
        r == palette_key_effect(key@, active as int, count as int),
{
    if str_eq(key, "Escape") {
        return PaletteKey::Close;
    }
    let down = str_eq(key, "ArrowDown");
    let up = str_eq(key, "ArrowUp");
    let enter = str_eq(key, "Enter");
    if !down && !up && !enter {
        return PaletteKey::Ignored;
    }
    if count == 0 {
        return PaletteKey::Swallowed;
    }
    let cur = active_row(active, count);
    if down {
        PaletteKey::Highlight(row_below(cur, count))
    } else if up {
        PaletteKey::Highlight(row_above(cur, count))
    } else {
        PaletteKey::Choose(cur)
    }
}

// ---------------------------------------------------------------------
// Choosing
// ---------------------------------------------------------------------

/// What a chosen entry needs from outside the shell.
#[derive(Debug, Clone, Copy, PartialEq, Eq, Structural)]
pub enum PaletteAction {
    Nothing,
    OpenSettings,
    AddAccount,
}

/// The shell after an entry was chosen. The palette closes in any case.
pub open spec fn shell_after_choice(m: ShellModel, e: EntryModel) -> ShellModel {
    let next = match e {
        EntryModel::Folder { account_id, folder_id, .. } => ShellModel {
            selection: SelectionModel {
                account: Some(account_id),
                folder: Some(folder_id),
                message: None,
                unified: false,
            },
            ..m
        },
        EntryModel::Command(PaletteCommand::Compose) => ShellModel {
            compose: Some((m.selection.account, None)),
            ..m
        },
        EntryModel::Command(PaletteCommand::ToggleHelp) => ShellModel {
            help_visible: !m.help_visible,
            ..m
        },
        EntryModel::Command(PaletteCommand::ClearReader) => m.showing(None),
        EntryModel::Command(_) => m,
        EntryModel::RecentSearch(q) => m.searching(q),
    };
    ShellModel { palette_visible: false, ..next }
}

/// Does what a chosen entry stands for.
pub fn choose_entry(shell: &mut Shell, entry: PaletteEntry) -> (r: PaletteAction)
    ensures
        final(shell)@ == shell_after_choice(old(shell)@, entry@),
        final(shell).folder_tokens == old(shell).folder_tokens,
        r == match entry@ {
            EntryModel::Command(PaletteCommand::OpenSettings) => PaletteAction::OpenSettings,
            EntryModel::Command(PaletteCommand::AddAccount) => PaletteAction::AddAccount,
            _ => PaletteAction::Nothing,
        },
{
    shell.palette_visible = false;
    match entry {
        PaletteEntry::Folder { account_id, folder_id, .. } => {
            shell.selection.open_folder(account_id, folder_id);
            PaletteAction::Nothing
        },
        PaletteEntry::Command(c) => match c {
            PaletteCommand::Compose => {
                shell.compose = Some(
                    ComposeState {
                        default_account: shell.selection.account.clone(),
                        draft_id: None,
                    },
                );
                PaletteAction::Nothing
            },
            PaletteCommand::OpenSettings => PaletteAction::OpenSettings,
            PaletteCommand::AddAccount => PaletteAction::AddAccount,
            PaletteCommand::ToggleHelp => {
                shell.help_visible = !shell.help_visible;
                PaletteAction::Nothing
            },
            PaletteCommand::ClearReader => {
                shell.selection.message = None;
                PaletteAction::Nothing
            },
        },
        PaletteEntry::RecentSearch(q) => {
            shell.search(q);
            PaletteAction::Nothing
        },
    }
}

// ---------------------------------------------------------------------
// What the palette offers
// ---------------------------------------------------------------------

/// The palette offers all commands, then every folder of every account, under
/// its account, and then the recent searches.
pub proof fn law_every_folder_is_offered(
    groups: Seq<AccountFolders>,
    recent: Seq<Seq<char>>,
    g: int,
    f: int,
    q: int,
)
    ensures
        offered(groups, recent)[0] == EntryModel::Command(PaletteCommand::Compose),
        offered(groups, recent)[1] == EntryModel::Command(PaletteCommand::OpenSettings),
        offered(groups, recent)[2] == EntryModel::Command(PaletteCommand::AddAccount),
        offered(groups, recent)[3] == EntryModel::Command(PaletteCommand::ToggleHelp),
        offered(groups, recent)[4] == EntryModel::Command(PaletteCommand::ClearReader),
        offered(groups, recent).len() >= 5 + recent.len(),
        0 <= g < groups.len() && 0 <= f < groups[g].folders@.len() ==> offered(
            groups,
            recent,
        ).contains(
            EntryModel::Folder {
                account_id: groups[g].account.id@,
                folder_id: groups[g].folders@[f].id@,
                folder_label: display::friendly_name(groups[g].folders@[f].name@),
                account_label: groups[g].account.email_address@,
            },
        ),
        0 <= q < recent.len() ==> offered(groups, recent)[offered(groups, recent).len()
            - recent.len() + q] == EntryModel::RecentSearch(recent[q]),
{
    let all = offered(groups, recent);
    let folders = entries_for_accounts(groups);
    if 0 <= g < groups.len() && 0 <= f < groups[g].folders@.len() {
        let e = folder_entry(groups[g].account, groups[g].folders@[f]);
        lemma_folder_offered(groups, g, f);
        let k = choose|k: int| 0 <= k < folders.len() && folders[k] == e;
        assert(all[5 + k] == e);
    }
}

/// A folder has its entry.
proof fn lemma_folder_offered(groups: Seq<AccountFolders>, g: int, f: int)
    requires
        0 <= g < groups.len(),
        0 <= f < groups[g].folders@.len(),
    ensures
        entries_for_accounts(groups).contains(
            folder_entry(groups[g].account, groups[g].folders@[f]),
        ),
    decreases groups.len(),
{
    let e = folder_entry(groups[g].account, groups[g].folders@[f]);
    let init = groups.drop_last();
    let before = entries_for_accounts(init);
    let all = entries_for_accounts(groups);
    if g < init.len() {
        assert(init[g] == groups[g]);
        lemma_folder_offered(init, g, f);
        let k = choose|k: int| 0 <= k < before.len() && before[k] == e;
        assert(all[k] == e);
    } else {
        assert(entries_for_account(groups.last())[f] == e);
        assert(all[before.len() + f] == e);
    }
}

/// Typing keeps the entries whose text holds what was typed, in their order,
/// and no others.
pub proof fn law_typing_narrows_the_palette(
    entries: Seq<PaletteEntry>,
    keys: Seq<Seq<char>>,
    needle: Seq<char>,
)
    requires
        keys.len() >= entries.len(),
    ensures
        matching(entries, keys, needle) == Seq::new(entries.len(), |k: int| k).filter(
            |k: int| text::holds_text(keys[k], needle),
        ).map_values(|k: int| entries[k]),
    decreases entries.len(),
{
    reveal(Seq::filter);
    let n = entries.len();
    let all = Seq::new(n, |k: int| k);
    let keeps = |k: int| text::holds_text(keys[k], needle);
    if n > 0 {
        let init = entries.drop_last();
        law_typing_narrows_the_palette(init, keys, needle);
        let before = Seq::new(init.len(), |k: int| k);
        assert(all.drop_last() =~= before);
        let kept = before.filter(keeps);
        assert forall|i: int| 0 <= i < kept.len() implies 0 <= #[trigger] kept[i] < init.len() by {
            before.lemma_filter_contains_rev(keeps, kept[i]);
        }
        assert(kept.map_values(|k: int| init[k]) =~= kept.map_values(|k: int| entries[k]));
        assert(all.last() == n - 1);
    }
    assert(matching(entries, keys, needle) =~= all.filter(keeps).map_values(|k: int| entries[k]));
}

/// Entries are found by what they show: a folder by its name and its account,
/// anything else by its text, without regard to case.
pub proof fn law_entries_are_found_by_what_they_show(
    account_id: Seq<char>,
    folder_id: Seq<char>,
    folder_label: Seq<char>,
    account_label: Seq<char>,
    q: Seq<char>,
    c: PaletteCommand,
)
    ensures
        ({
            let f = EntryModel::Folder { account_id, folder_id, folder_label, account_label };
            &&& f.primary() == folder_label
            &&& f.search_key() == folder_label + " "@ + account_label
            &&& f.kind() == "jump"@
        }),
        EntryModel::RecentSearch(q).primary() == q,
        EntryModel::RecentSearch(q).search_key() == q,
        EntryModel::RecentSearch(q).kind() == "recent"@,
        EntryModel::Command(c).search_key() == EntryModel::Command(c).primary(),
        EntryModel::Command(c).kind() == "cmd"@,
        EntryModel::Command(PaletteCommand::Compose).primary() == "Compose new message"@,
        EntryModel::Command(PaletteCommand::OpenSettings).primary() == "Open settings"@,
        EntryModel::Command(PaletteCommand::AddAccount).primary() == "Add account"@,
        EntryModel::Command(PaletteCommand::ToggleHelp).primary() == "Toggle keyboard shortcuts"@,
        EntryModel::Command(PaletteCommand::ClearReader).primary() == "Close reader"@,
{
}

/// The keys of the entries are their texts in small letters.
pub proof fn law_keys_are_in_small_letters(entries: Seq<PaletteEntry>, i: int)
    requires
        0 <= i < entries.len(),
    ensures
        lowered_keys(entries).len() == entries.len(),
        lowered_keys(entries)[i] == text::unicode_lower(entries[i]@.search_key()),
{
}

/// The arrows lead through the palette and round its ends, Enter chooses the
/// row that is highlighted, Escape closes; other keys type.
pub proof fn law_keys_lead_through_the_palette(key: Seq<char>, row: int, count: int)
    requires
        0 <= row < count <= usize::MAX,
    ensures
        palette_key_effect("ArrowDown"@, row, count) == PaletteKey::Highlight(
            (if row + 1 < count {
                row + 1
            } else {
                0
            }) as usize,
        ),
        palette_key_effect("ArrowUp"@, row, count) == PaletteKey::Highlight(
            (if row > 0 {
                row - 1
            } else {
                count - 1
            }) as usize,
        ),
        palette_key_effect("Enter"@, row, count) == PaletteKey::Choose(row as usize),
        palette_key_effect("Escape"@, row, count) == PaletteKey::Close,
        palette_key_effect("Enter"@, row, 0) == PaletteKey::Swallowed,
        palette_key_effect("Enter"@, count, count) == PaletteKey::Choose((count - 1) as usize),
        key != "Escape"@ && key != "ArrowDown"@ && key != "ArrowUp"@ && key != "Enter"@
            ==> palette_key_effect(key, row, count) == PaletteKey::Ignored,
{
    reveal_strlit("ArrowDown");
    reveal_strlit("ArrowUp");
    reveal_strlit("Enter");
    reveal_strlit("Escape");
    assert("ArrowDown"@.len() == 9);
    assert("ArrowUp"@.len() == 7);
    assert("Enter"@.len() == 5);
    assert("Escape"@.len() == 6);
    if row + 1 < count {
        assert((row + 1) % count == row + 1) by (nonlinear_arith)
            requires
                0 <= row + 1 < count,
        ;
    } else {
        assert(count % count == 0) by (nonlinear_arith)
            requires
                count > 0,
        ;
    }
}

/// Choosing an entry does what it says and closes the palette.
pub proof fn law_choosing_does_what_it_says(
    m: ShellModel,
    account_id: Seq<char>,
    folder_id: Seq<char>,
    folder_label: Seq<char>,
    account_label: Seq<char>,
    q: Seq<char>,
)
    ensures
        ({
            let folder = EntryModel::Folder { account_id, folder_id, folder_label, account_label };
            let after = shell_after_choice(m, folder);
            &&& after.selection == (SelectionModel {
                account: Some(account_id),
                folder: Some(folder_id),
                message: None,
                unified: false,
            })
            &&& !after.palette_visible
            &&& after == (ShellModel {
                selection: after.selection,
                palette_visible: false,
                ..m
            })
        }),
        shell_after_choice(m, EntryModel::Command(PaletteCommand::Compose)) == (ShellModel {
            compose: Some((m.selection.account, None)),
            palette_visible: false,
            ..m
        }),
        shell_after_choice(m, EntryModel::Command(PaletteCommand::ToggleHelp)) == (ShellModel {
            help_visible: !m.help_visible,
            palette_visible: false,
            ..m
        }),
        shell_after_choice(m, EntryModel::Command(PaletteCommand::ClearReader)) == (ShellModel {
            selection: SelectionModel { message: None, ..m.selection },
            palette_visible: false,
            ..m
        }),
        shell_after_choice(m, EntryModel::Command(PaletteCommand::OpenSettings)) == (ShellModel {
            palette_visible: false,
            ..m
        }),
        shell_after_choice(m, EntryModel::Command(PaletteCommand::AddAccount)) == (ShellModel {
            palette_visible: false,
            ..m
        }),
        shell_after_choice(m, EntryModel::RecentSearch(q)).search_query == q,
        shell_after_choice(m, EntryModel::RecentSearch(q)) == (ShellModel {
            palette_visible: false,
            ..m.searching(q)
        }),
{
}

/// Entries are kept in order.
pub proof fn law_entries_keep_their_order(v: Seq<PaletteEntry>, i: int)
    requires
        0 <= i < v.len(),
    ensures
        entries_of(v).len() == v.len(),
        entries_of(v)[i] == v[i]@,
{
}

} // verus!
