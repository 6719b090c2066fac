//! The reader: what it shows of a message, and how remote content is let in.
use vstd::prelude::*;

use crate::calendar;
use crate::calendar::format_rfc2822;
use crate::compose;
use crate::compose::shown_subject;
use crate::display;
use crate::display::format_bytes;
use crate::inputs::MessagesTrustSenderInput;
use crate::message_list;
use crate::message_list::shown_sender;
use crate::model;
use crate::model::{
    AccountId, AddressModel, Attachment, EmailAddress, MessageFlags, RenderedMessage,
};

verus! {

/// The head of a message as the reader shows it.
#[derive(Debug, PartialEq, Eq)]
pub struct ReaderHead {
    pub subject: String,
    pub from_name: String,
    pub from_addr: String,
    pub date_full: String,
    pub shows_to: bool,
    pub shows_cc: bool,
    pub shows_attachments: bool,
    pub shows_remote_banner: bool,
}

/// The address of the first sender, or nothing.
pub open spec fn sender_address(from: Seq<AddressModel>) -> Seq<char> {
    if from.len() == 0 {
        Seq::empty()
    } else {
        from[0].address
    }
}

/// `h` shows the head of `m`, whose date is written `date`.
pub open spec fn shows_head(h: ReaderHead, m: RenderedMessage, date: Seq<char>) -> bool {
    &&& h.subject@ == compose::subject_or_placeholder(m.headers@.subject)
    &&& h.from_name@ == message_list::sender_name(m.headers@.from)
    &&& h.from_addr@ == sender_address(m.headers@.from)
    &&& h.date_full@ == date
    &&& h.shows_to == (m.headers@.to.len() > 0)
    &&& h.shows_cc == (m.headers@.cc.len() > 0)
    &&& h.shows_attachments == (m.attachments@.len() > 0)
    &&& h.shows_remote_banner == m.remote_content_blocked
}

/// The address of the first sender.
pub fn sender_address_of(from: &Vec<EmailAddress>) -> (r: String)
    ensures
        r@ == sender_address(model::addresses(from@)),
{
    if from.len() == 0 {
        let r = String::new();
        assert(r@ =~= Seq::<char>::empty());
        r
    } else {
        from[0].address.clone()
    }
}

/// The head of a message whose date is written `date`.
pub fn head_with_date(m: &RenderedMessage, date: &str) -> (r: ReaderHead)
    ensures
        shows_head(r, *m, date@),
{
    ReaderHead {
        subject: shown_subject(&m.headers.subject),
        from_name: shown_sender(&m.headers.from),
        from_addr: sender_address_of(&m.headers.from),
        date_full: date.to_owned(),
        shows_to: m.headers.to.len() > 0,
        shows_cc: m.headers.cc.len() > 0,
        shows_attachments: m.attachments.len() > 0,
        shows_remote_banner: m.remote_content_blocked,
    }
}

/// The head of a message.
pub fn reader_head(m: &RenderedMessage) -> (r: ReaderHead)
    requires
        calendar::rfc2822_representable(m.headers.date),
    ensures
        shows_head(r, *m, calendar::rfc2822_text(m.headers.date)),
{
    let date = format_rfc2822(m.headers.date);
    head_with_date(m, date.as_str())
}

/// A button of the reader's toolbar that switches something: its title, its
/// text, and the value it sets.
#[derive(Debug, PartialEq, Eq)]
pub struct ToggleButton {
    pub title: &'static str,
    pub text: &'static str,
    pub next: bool,
}

/// The button that flags a message, or takes the flag away.
pub fn flag_button(flags: &MessageFlags) -> (r: ToggleButton)
    ensures
        r.next == !flags.flagged,
        r.title@ == if flags.flagged {
            "Unflag (s)"@
        } else {
            "Flag (s)"@
        },
        r.text@ == if flags.flagged {
            " unflag"@
        } else {
            " flag"@
        },
{
    if flags.flagged {
        ToggleButton { title: "Unflag (s)", text: " unflag", next: false }
    } else {
        ToggleButton { title: "Flag (s)", text: " flag", next: true }
    }
}

/// The button that marks a message as read or as unread.
pub fn read_button(flags: &MessageFlags) -> (r: ToggleButton)
    ensures
        r.next == !flags.seen,
        r.title@ == if flags.seen {
            "Mark unread (u)"@
        } else {
            "Mark read (u)"@
        },
        r.text@ == if flags.seen {
            " unread"@
        } else {
            " read"@
        },
{
    if flags.seen {
        ToggleButton { title: "Mark unread (u)", text: " unread", next: false }
    } else {
        ToggleButton { title: "Mark read (u)", text: " read", next: true }
    }
}

/// A recipient as the reader shows it.
#[derive(Debug, PartialEq, Eq)]
pub struct RecipientChip {
    pub title: String,
    pub text: String,
}

/// Title and text of a recipient: the name where there is one, else the
/// address; the title gives both.
pub open spec fn chip_of(a: AddressModel) -> (Seq<char>, Seq<char>) {
    match a.display_name {
        Some(name) => if name.len() == 0 {
            (a.address, a.address)
        } else {
            (name + " <"@ + a.address + ">"@, name)
        },
        None => (a.address, a.address),
    }
}

/// See [`chip_of`].
pub fn recipient_chip(a: &EmailAddress) -> (r: RecipientChip)
    ensures
        (r.title@, r.text@) == chip_of(a@),
{
    if let Some(name) = &a.display_name {
        if !name.as_str().is_empty() {
            let mut title = name.clone();
            title.append(" <");
            title.append(a.address.as_str());
            title.append(">");
            return RecipientChip { title, text: name.clone() };
        }
    }
    RecipientChip { title: a.address.clone(), text: a.address.clone() }
}

/// What an attachment is called.
pub open spec fn attachment_title(filename: Seq<char>) -> Seq<char> {
    if filename.len() == 0 {
        "(untitled)"@
    } else {
        filename
    }
}

/// Name and size of an attachment.
pub open spec fn attachment_label(filename: Seq<char>, size: u64) -> Seq<char> {
    attachment_title(filename) + " · "@ + display::size_text(size)
}

/// See [`attachment_label`].
pub fn attachment_text(a: &Attachment) -> (r: String)
    ensures
        r@ == attachment_label(a.filename@, a.size),
{
    let mut r = if a.filename.as_str().is_empty() {
        "(untitled)".to_owned()
    } else {
        a.filename.clone()
    };
    r.append(" · ");
    let size = format_bytes(a.size);
    r.append(size.as_str());
    r
}

/// Remote content of the message that is being read.
#[derive(Debug, Clone, Copy, PartialEq, Eq, Structural)]
pub struct RemoteContent {
    /// Remote content is let in for now.
    pub force_trusted: bool,
    /// The sender is being added to those whose content is always let in.
    pub trusting: bool,
}

impl RemoteContent {
    /// A message that was just opened.
    pub fn new() -> (r: RemoteContent)
        ensures
            r == (RemoteContent { force_trusted: false, trusting: false }),
    {
        RemoteContent { force_trusted: false, trusting: false }
    }

    /// Another message is opened: what was let in for the one before does not
    /// hold for it.
    pub fn message_changed(&mut self)
        ensures
            *final(self) == (RemoteContent { force_trusted: false, ..*old(self) }),
    {
        self.force_trusted = false;
    }

    /// Lets remote content in, this time.
    pub fn load_once(&mut self)
        ensures
            *final(self) == (RemoteContent { force_trusted: true, ..*old(self) }),
    {
        self.force_trusted = true;
    }

    /// Can the sender be trusted? Not without an address, and not while that is
    /// under way.
    pub fn can_trust(&self, sender: &str) -> (r: bool)
        ensures
            r == (sender@.len() > 0 && !self.trusting),
    {
        !sender.is_empty() && !self.trusting
    }

    /// Starts to trust the sender, and gives the request for the host.
    pub fn trust_sender(&mut self, account: &AccountId, sender: &str) -> (r: Option<
        MessagesTrustSenderInput,
    >)
        ensures
            match r {
                Some(i) => {
                    &&& sender@.len() > 0 && !old(self).trusting
                    &&& i.account_id == *account
                    &&& i.email_address@ == sender@
                    &&& *final(self) == (RemoteContent { trusting: true, ..*old(self) })
                },
                None => {
                    &&& sender@.len() == 0 || old(self).trusting
                    &&& *final(self) == *old(self)
                },
            },
    {
        if !self.can_trust(sender) {
            return None;
        }
        self.trusting = true;
        Some(
            MessagesTrustSenderInput {
                account_id: account.clone(),
                email_address: sender.to_owned(),
            },
        )
    }

    /// The host answered. Once the sender is trusted, the content is let in.
    pub fn trust_answered(&mut self, ok: bool)
        ensures
            *final(self) == (RemoteContent {
                force_trusted: ok || old(self).force_trusted,
                trusting: false,
            }),
    {
        if ok {
            self.force_trusted = true;
        }
        self.trusting = false;
    }

    /// The text of the button that trusts the sender.
    pub fn trust_label(&self) -> (r: &'static str)
        ensures
            r@ == if self.trusting {
                "Saving…"@
            } else {
                "Always load from this sender"@
            },
    {
        if self.trusting {
            "Saving…"
        } else {
            "Always load from this sender"
        }
    }
}

/// How the banner names the sender.
pub fn sender_label(sender: &str) -> (r: String)
    ensures
        r@ == if sender@.len() == 0 {
            "this sender"@
        } else {
            sender@
        },
{
    if sender.is_empty() {
        "this sender".to_owned()
    } else {
        sender.to_owned()
    }
}

/// The reader shows the message: its subject, its sender by name and address,
/// its recipients and those in copy where there are any, its attachments where
/// there are any, and a warning where remote content was blocked.
pub proof fn law_the_reader_shows_the_message(h: ReaderHead, m: RenderedMessage, date: Seq<char>)
    requires
        shows_head(h, m, date),
    ensures
        m.headers.subject@.len() > 0 ==> h.subject@ == m.headers.subject@,
        h.from_name@ == message_list::sender_name(model::addresses(m.headers.from@)),
        m.headers.from@.len() > 0 ==> h.from_addr@ == m.headers.from@[0].address@,
        m.headers.from@.len() == 0 ==> h.from_addr@.len() == 0,
        h.date_full@ == date,
        h.shows_to <==> m.headers.to@.len() > 0,
        h.shows_cc <==> m.headers.cc@.len() > 0,
        h.shows_attachments <==> m.attachments@.len() > 0,
        h.shows_remote_banner <==> m.remote_content_blocked,
{
}

/// A recipient is shown by name, with the address behind it on demand, and by
/// the address where there is no name.
pub proof fn law_recipients_are_shown_by_name(address: Seq<char>, name: Seq<char>)
    ensures
        name.len() > 0 ==> chip_of(AddressModel { address, display_name: Some(name) }) == (
            name + " <"@ + address + ">"@,
            name,
        ),
        name.len() == 0 ==> chip_of(AddressModel { address, display_name: Some(name) }) == (
            address,
            address,
        ),
        chip_of(AddressModel { address, display_name: None }) == (address, address),
{
}

/// An attachment is shown by its name and size.
pub proof fn law_attachments_are_shown_by_name_and_size(filename: Seq<char>, size: u64)
    ensures
        filename.len() > 0 ==> attachment_label(filename, size) == filename + " · "@
            + display::size_text(size),
        filename.len() == 0 ==> attachment_label(filename, size) == "(untitled)"@ + " · "@
            + display::size_text(size),
{
}

} // verus!
