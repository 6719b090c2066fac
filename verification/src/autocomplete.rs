//! Autocompletion of the address being typed.
use vstd::prelude::*;

use crate::addresses;
use crate::addresses::{active_segment, format_contact, replace_active_segment};
use crate::inputs::ContactsQueryInput;
use crate::model;
use crate::model::Contact;
use crate::palette::{row_above, row_below};
use crate::text;
use crate::text::{str_eq, trim};

verus! {

/// How many characters must be typed before contacts are looked up.
pub const MIN_PREFIX: usize = 2;

/// The prefix to look up for an address line: what is being typed, without
/// white space at its ends, once it is long enough.
pub open spec fn lookup_prefix(line: Seq<char>) -> Option<Seq<char>> {
    let p = text::trimmed(text::trimmed_start(line.skip(addresses::segment_start(line))));
    if p.len() < MIN_PREFIX {
        None
    } else {
        Some(p)
    }
}

/// See [`lookup_prefix`].
pub fn prefix_to_look_up(line: &str) -> (r: Option<String>)
    ensures
        model::opt_text(r) == lookup_prefix(line@),
{
    let a = active_segment(line);
    let p = trim(&a);
    if p.as_str().unicode_len() < MIN_PREFIX {
        None
    } else {
        Some(p)
    }
}

/// The contacts that are offered below an address field.
#[derive(Debug, PartialEq, Eq)]
pub struct Suggestions {
    pub contacts: Vec<Contact>,
    pub highlighted: usize,
    pub open: bool,
}

/// What a key does in an address field.
#[derive(Debug, PartialEq, Eq)]
pub enum FieldKey {
    /// The key is left to the field.
    Ignored,
    /// The key moved the highlight or closed the list.
    Handled,
    /// The contact is chosen.
    Picked(Contact),
}

impl Suggestions {
    /// The highlight is on a contact, where there is one.
    pub open spec fn well_formed(self) -> bool {
        self.contacts@.len() > 0 ==> self.highlighted < self.contacts@.len()
    }

    /// Nothing is offered.
    pub fn new() -> (r: Suggestions)
        ensures
            r.well_formed(),
            r.contacts@.len() == 0,
            !r.open,
            r.highlighted == 0,
    {
        Suggestions { contacts: Vec::new(), highlighted: 0, open: false }
    }

    /// Too little is typed: nothing is offered.
    pub fn clear(&mut self)
        ensures
            final(self).well_formed(),
            final(self).contacts@.len() == 0,
            !final(self).open,
            final(self).highlighted == 0,
    {
        self.contacts = Vec::new();
        self.highlighted = 0;
        self.open = false;
    }

    /// Takes the answer to a lookup. The list opens where there is something to
    /// offer; a failed lookup offers nothing.
    pub fn answered(&mut self, answer: Result<Vec<Contact>, String>)
        ensures
            final(self).well_formed(),
            match answer {
                Ok(rows) => {
                    &&& final(self).contacts@ == rows@
                    &&& final(self).open == (rows@.len() > 0)
                    &&& final(self).highlighted == 0
                },
                Err(_) => {
                    &&& final(self).contacts@.len() == 0
                    &&& !final(self).open
                    &&& final(self).highlighted == old(self).highlighted
                },
            },
    {
        match answer {
            Ok(rows) => {
                self.open = rows.len() > 0;
                self.contacts = rows;
                self.highlighted = 0;
            },
            Err(_) => {
                self.contacts = Vec::new();
                self.open = false;
            },
        }
    }

    /// The field lost the focus.
    pub fn close(&mut self)
        ensures
            !final(self).open,
            final(self).contacts == old(self).contacts,
            final(self).highlighted == old(self).highlighted,
    {
        self.open = false;
    }

    /// The contact at `index` was clicked.
    pub fn pick(&mut self, index: usize) -> (r: Option<Contact>)
        ensures
            final(self).contacts == old(self).contacts,
            final(self).highlighted == old(self).highlighted,
            match r {
                Some(c) => index < old(self).contacts@.len() && c == old(self).contacts@[index as int]
                    && !final(self).open,
                None => index >= old(self).contacts@.len() && final(self).open == old(self).open,
            },
    {
        if index < self.contacts.len() {
            self.open = false;
            Some(self.contacts[index].clone())
        } else {
            None
        }
    }

    /// A key was pressed in the field.
    pub fn key(&mut self, key: &str) -> (r: FieldKey)
        requires
            old(self).well_formed(),
        ensures
            final(self).well_formed(),
            final(self).contacts == old(self).contacts,
            ({
                let n = old(self).contacts@.len();
                let h = old(self).highlighted;
                if !old(self).open || n == 0 {
                    r is Ignored && final(self).open == old(self).open && final(self).highlighted
                        == h
                } else if key@ == "ArrowDown"@ {
                    r is Handled && final(self).open && final(self).highlighted == (h + 1)
                        % (n as int)
                } else if key@ == "ArrowUp"@ {
                    r is Handled && final(self).open && final(self).highlighted == if h == 0 {
                        n - 1
                    } else {
                        h - 1
                    }
                } else if key@ == "Enter"@ || key@ == "Tab"@ {
                    r == FieldKey::Picked(old(self).contacts@[h as int]) && !final(self).open
                        && final(self).highlighted == h
                } else if key@ == "Escape"@ {
                    r is Handled && !final(self).open && final(self).highlighted == h
                } else {
                    r is Ignored && final(self).open && final(self).highlighted == h
                }
            }),
    {
        let n = self.contacts.len();
        if !self.open || n == 0 {
            return FieldKey::Ignored;
        }
        if str_eq(key, "ArrowDown") {
            self.highlighted = row_below(self.highlighted, n);
            FieldKey::Handled
        } else if str_eq(key, "ArrowUp") {
            self.highlighted = row_above(self.highlighted, n);
            FieldKey::Handled
        } else if str_eq(key, "Enter") || str_eq(key, "Tab") {
            self.open = false;
            FieldKey::Picked(self.contacts[self.highlighted].clone())
        } else if str_eq(key, "Escape") {
            self.open = false;
            FieldKey::Handled
        } else {
            FieldKey::Ignored
        }
    }
}

/// The address line after a contact was chosen for it.
pub fn line_with_contact(line: &str, c: &Contact) -> (r: String)
    ensures
        r@ == addresses::segment_replaced(line@, addresses::address_label(c.address@, model::opt_text(c.display_name))),
{
    let label = format_contact(c);
    replace_active_segment(line, &label)
}

/// How many contacts are looked up at most.
pub const MAX_QUERY_LIMIT: u32 = 32;

/// A lookup of contacts.
#[derive(Debug, PartialEq, Eq)]
pub struct ContactLookup {
    pub prefix: String,
    pub limit: u32,
}

/// The lookup that a query stands for: at least one contact and at most
/// [`MAX_QUERY_LIMIT`] are looked up, and none for an empty prefix.
pub fn contacts_query(input: ContactsQueryInput) -> (r: Option<ContactLookup>)
    ensures
        match r {
            Some(l) => {
                &&& input.prefix@.len() > 0
                &&& l.prefix@ == input.prefix@
                &&& l.limit == if input.limit < 1 {
                    1
                } else if input.limit > MAX_QUERY_LIMIT {
                    MAX_QUERY_LIMIT
                } else {
                    input.limit
                }
            },
            None => input.prefix@.len() == 0,
        },
{
    if input.prefix.as_str().is_empty() {
        return None;
    }
    let limit: u32 = if input.limit < 1 {
        1
    } else if input.limit > MAX_QUERY_LIMIT {
        MAX_QUERY_LIMIT
    } else {
        input.limit
    };
    Some(ContactLookup { prefix: input.prefix, limit })
}

/// Suggestions are looked up for what is being typed, without the white space
/// around it, once it has two characters.
pub proof fn law_two_characters_are_looked_up(
    front: Seq<char>,
    c: char,
    lead: Seq<char>,
    typed: Seq<char>,
)
    requires
        c == ',' || c == ';',
        forall|i: int| 0 <= i < typed.len() ==> #[trigger] typed[i] != ',' && typed[i] != ';',
        forall|i: int| 0 <= i < lead.len() ==> #[trigger] lead[i] == ' ',
        typed.len() > 0,
        !text::is_white(typed[0]),
        !text::is_white(typed.last()),
    ensures
        typed.len() >= 2 ==> lookup_prefix(front.push(c) + (lead + typed)) == Some(typed),
        typed.len() < 2 ==> lookup_prefix(front.push(c) + (lead + typed)) is None,
        typed.len() >= 2 ==> lookup_prefix(lead + typed) == Some(typed),
        typed.len() < 2 ==> lookup_prefix(lead + typed) is None,
{
    let tail = lead + typed;
    assert forall|i: int| 0 <= i < tail.len() implies #[trigger] tail[i] != ',' && tail[i]
        != ';' by {
        if i < lead.len() {
            assert(tail[i] == lead[i]);
        } else {
            assert(tail[i] == typed[i - lead.len()]);
        }
    }
    addresses::law_only_what_is_typed_is_replaced(front, c, tail, Seq::empty());
    let line = front.push(c) + tail;
    assert(line.skip(front.len() as int + 1) =~= tail);
    assert(tail.skip(0) =~= tail);
    let none = Seq::<char>::empty();
    assert(lead + typed + none =~= tail);
    assert(typed + none =~= typed);
    text::law_trimming_keeps_the_core(lead, typed, none);
    assert(none + typed + none =~= typed);
    text::law_trimming_keeps_the_core(none, typed, none);
}

/// At most thirty-two contacts are looked up at once.
pub proof fn law_lookups_are_limited()
    ensures
        MAX_QUERY_LIMIT == 32,
{
}

} // verus!
