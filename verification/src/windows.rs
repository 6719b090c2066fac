//! Windows beside the main one: what they are called, and what they are told
//! when they open.
use vstd::prelude::*;

use crate::inputs::MessagesOpenInWindowInput;
use crate::model;
use crate::model::{IpcError, IpcErrorKind, MessageId, RenderedMessage};
use crate::text::{chars_of, str_eq};

verus! {

/// A hexadecimal digit, in a small letter from ten on.
pub open spec fn hex_char(d: int) -> char {
    if d < 10 {
        (48 + d) as char
    } else {
        (87 + d) as char
    }
}

/// A character inside a JSON string: quotes, backslashes and control characters
/// are escaped.
pub open spec fn json_char(c: char) -> Seq<char> {
    if c == '"' {
        seq!['\\', '"']
    } else if c == '\\' {
        seq!['\\', '\\']
    } else if c == '\u{8}' {
        seq!['\\', 'b']
    } else if c == '\t' {
        seq!['\\', 't']
    } else if c == '\n' {
        seq!['\\', 'n']
    } else if c == '\u{c}' {
        seq!['\\', 'f']
    } else if c == '\r' {
        seq!['\\', 'r']
    } else if !(' ' <= c) {
        seq!['\\', 'u', '0', '0', hex_char(c as int / 16), hex_char(c as int % 16)]
    } else {
        seq![c]
    }
}

/// A text as a JSON string.
pub open spec fn json_string(s: Seq<char>) -> Seq<char> {
    seq!['"'] + s.map_values(|c: char| json_char(c)).flatten() + seq!['"']
}

/// `serde_json::Value::String` and its `to_string`: the string in double
/// quotes, with the escapes of `serde_json`'s table and nothing else escaped.
#[verifier::external_body]
fn json_string_of(s: &str) -> (r: String)
    ensures
        r@ == json_string(s@),
{
    serde_json::Value::String(s.to_owned()).to_string()
}

/// A window that is to be opened.
#[derive(Debug, PartialEq, Eq)]
pub struct WindowSpec {
    pub label: String,
    pub title: String,
    pub script: String,
}

/// What opening a window comes to.
#[derive(Debug, PartialEq, Eq)]
pub enum WindowStep {
    /// The window is there and comes to the front.
    Focus,
    Create(WindowSpec),
}

// ---------------------------------------------------------------------
// Reader windows
// ---------------------------------------------------------------------

/// May the character stand in a window's label?
pub open spec fn is_label_char(c: char) -> bool {
    ('a' <= c <= 'z') || ('A' <= c <= 'Z') || ('0' <= c <= '9') || c == '-' || c == '_'
}

/// The character as it stands in a label.
pub open spec fn label_char(c: char) -> char {
    if is_label_char(c) {
        c
    } else {
        '_'
    }
}

/// The label of the window that shows a message.
pub open spec fn reader_label(id: Seq<char>) -> Seq<char> {
    "reader-"@ + id.map_values(|c: char| label_char(c))
}

/// See [`reader_label`].
pub fn reader_label_of(id: &MessageId) -> (r: String)
    ensures
        r@ == reader_label(id@),
{
    let v = chars_of(id.0.as_str());
    let mut r = "reader-".to_owned();
    let mut i: usize = 0;
    let ghost safe = id@.map_values(|c: char| label_char(c));
    assert(r@ =~= "reader-"@ + safe.take(0));
    while i < v.len()
        invariant
            i <= v@.len(),
            v@ == id@,
            safe == id@.map_values(|c: char| label_char(c)),
            r@ == "reader-"@ + safe.take(i as int),
        decreases v@.len() - i,
    {
        let c = v[i];
        if ('a' <= c && c <= 'z') || ('A' <= c && c <= 'Z') || ('0' <= c && c <= '9') || c == '-'
            || c == '_' {
            r.push(c);
        } else {
            r.push('_');
        }
        assert(r@ =~= "reader-"@ + safe.take(i + 1));
        i = i + 1;
    }
    assert(safe.take(safe.len() as int) =~= safe);
    r
}

/// A label holds only characters that labels may hold.
pub proof fn law_reader_labels_are_valid(id: Seq<char>, i: int)
    requires
        0 <= i < reader_label(id).len(),
    ensures
        is_label_char(reader_label(id)[i]),
{
    reveal_strlit("reader-");
}

/// What a reader window is told: the message, and its contents where they are
/// at hand.
pub open spec fn reader_script(id_text: Seq<char>, preload: Option<Seq<char>>) -> Seq<char> {
    "window.__QSL_READER_ID__ = "@ + id_text + ";\nwindow.__QSL_READER_PRELOAD__ = "@ + (
    match preload {
        Some(p) => p,
        None => "null"@,
    }) + ";"@
}

/// The window for a message whose id is written `id_text` in a script.
pub fn reader_window(id: &MessageId, id_text: &str, preload: &Option<String>) -> (r: WindowSpec)
    ensures
        r.label@ == reader_label(id@),
        r.title@ == "QSL — "@ + id@,
        r.script@ == reader_script(id_text@, model::opt_text(*preload)),
{
    let mut title = "QSL — ".to_owned();
    title.append(id.0.as_str());
    let mut script = "window.__QSL_READER_ID__ = ".to_owned();
    script.append(id_text);
    script.append(";\nwindow.__QSL_READER_PRELOAD__ = ");
    match preload {
        Some(p) => script.append(p.as_str()),
        None => script.append("null"),
    }
    script.append(";");
    WindowSpec { label: reader_label_of(id), title, script }
}

/// Opens a message in a window of its own. `preload` is the message as a
/// script writes it, where it is at hand.
pub fn messages_open_in_window(
    input: &MessagesOpenInWindowInput,
    is_open: bool,
    preload: &Option<String>,
) -> (r: WindowStep)
    ensures
        match r {
            WindowStep::Focus => is_open,
            WindowStep::Create(w) => {
                &&& !is_open
                &&& w.label@ == reader_label(input.id@)
                &&& w.title@ == "QSL — "@ + input.id@
                &&& w.script@ == reader_script(json_string(input.id@), model::opt_text(*preload))
            },
        },
{
    if is_open {
        return WindowStep::Focus;
    }
    let text = json_string_of(input.id.0.as_str());
    WindowStep::Create(reader_window(&input.id, text.as_str(), preload))
}

/// The message that was rendered last. A message that is opened in a window is
/// mostly the one that is being read.
#[derive(Debug)]
pub struct RenderCache {
    pub last: Option<(MessageId, RenderedMessage)>,
}

impl RenderCache {
    /// Nothing was rendered.
    pub fn new() -> (r: RenderCache)
        ensures
            r.last is None,
    {
        RenderCache { last: None }
    }

    /// Remembers a message in place of the one before.
    pub fn put(&mut self, id: MessageId, rendered: RenderedMessage)
        ensures
            final(self).last == Some((id, rendered)),
    {
        self.last = Some((id, rendered));
    }

    /// The message with the given id, if it was rendered last.
    pub fn get(&self, id: &MessageId) -> (r: Option<&RenderedMessage>)
        ensures
            r == match self.last {
                Some(e) => if e.0@ == id@ {
                    Some(&e.1)
                } else {
                    None
                },
                None => None,
            },
    {
        match &self.last {
            Some(e) => {
                if e.0.same(id) {
                    Some(&e.1)
                } else {
                    None
                }
            },
            None => None,
        }
    }
}

// ---------------------------------------------------------------------
// Windows with a view of their own
// ---------------------------------------------------------------------

/// A window with a view of its own.
#[derive(Debug, Clone, Copy, PartialEq, Eq, Structural)]
pub enum ViewWindow {
    Settings,
    AddAccount,
}

/// The label of a window, which also names its view.
pub open spec fn view_label(w: ViewWindow) -> Seq<char> {
    match w {
        ViewWindow::Settings => "settings"@,
        ViewWindow::AddAccount => "oauth-add"@,
    }
}

impl ViewWindow {
    /// See [`view_label`].
    pub fn label(&self) -> (r: &'static str)
        ensures
            r@ == view_label(*self),
    {
        match self {
            ViewWindow::Settings => "settings",
            ViewWindow::AddAccount => "oauth-add",
        }
    }

    /// The title of the window.
    pub fn title(&self) -> (r: &'static str)
        ensures
            r@ == match self {
                ViewWindow::Settings => "QSL — Settings"@,
                ViewWindow::AddAccount => "QSL — Add account"@,
            },
    {
        match self {
            ViewWindow::Settings => "QSL — Settings",
            ViewWindow::AddAccount => "QSL — Add account",
        }
    }

    /// Width and height of the window.
    pub fn size(&self) -> (r: (u32, u32))
        ensures
            r == match self {
                ViewWindow::Settings => (720u32, 560u32),
                ViewWindow::AddAccount => (520u32, 460u32),
            },
    {
        match self {
            ViewWindow::Settings => (720, 560),
            ViewWindow::AddAccount => (520, 460),
        }
    }
}

/// What a window is told whose label is written `label_text` in a script.
pub fn view_script(label_text: &str) -> (r: String)
    ensures
        r@ == "window.__QSL_VIEW__ = "@ + label_text@ + ";"@,
{
    let mut script = "window.__QSL_VIEW__ = ".to_owned();
    script.append(label_text);
    script.append(";");
    script
}

/// Opens a window, or brings it to the front.
pub fn open_view_window(window: ViewWindow, is_open: bool) -> (r: WindowStep)
    ensures
        match r {
            WindowStep::Focus => is_open,
            WindowStep::Create(w) => {
                &&& !is_open
                &&& w.label@ == view_label(window)
                &&& w.title@ == match window {
                    ViewWindow::Settings => "QSL — Settings"@,
                    ViewWindow::AddAccount => "QSL — Add account"@,
                }
                &&& w.script@ == "window.__QSL_VIEW__ = "@ + json_string(view_label(window)) + ";"@
            },
        },
{
    if is_open {
        return WindowStep::Focus;
    }
    let text = json_string_of(window.label());
    WindowStep::Create(
        WindowSpec {
            label: window.label().to_owned(),
            title: window.title().to_owned(),
            script: view_script(text.as_str()),
        },
    )
}

/// The report of a window that could not be opened.
pub fn window_failed(what: &str, reason: &str) -> (r: IpcError)
    ensures
        r.kind == IpcErrorKind::Internal,
        r.message@ == "create "@ + what@ + " window: "@ + reason@,
{
    let mut message = "create ".to_owned();
    message.append(what);
    message.append(" window: ");
    message.append(reason);
    IpcError { kind: IpcErrorKind::Internal, message }
}

/// Is the window's size kept over restarts? Windows for single messages have
/// labels of their own, which would pile up.
pub fn keeps_window_state(label: &str) -> (r: bool)
    ensures
        r == (label@ == "main"@ || label@ == "settings"@),
{
    str_eq(label, "main") || str_eq(label, "settings")
}

/// The window of a message is labelled by the message: characters that a label
/// may hold are kept, and every other becomes an underscore.
pub proof fn law_reader_labels_follow_the_message(id: Seq<char>, i: int)
    requires
        0 <= i < id.len(),
    ensures
        reader_label(id).len() == "reader-"@.len() + id.len(),
        "reader-"@.is_prefix_of(reader_label(id)),
        ({
            let c = id[i];
            let plain = ('a' <= c <= 'z') || ('A' <= c <= 'Z') || ('0' <= c <= '9') || c == '-'
                || c == '_';
            reader_label(id)["reader-"@.len() + i] == if plain {
                c
            } else {
                '_'
            }
        }),
{
    assert("reader-"@ =~= reader_label(id).take("reader-"@.len() as int));
}

/// A window is told which message it shows, and is given the message where it
/// is at hand.
pub proof fn law_windows_are_told_what_they_show(id_text: Seq<char>, preload: Seq<char>)
    ensures
        reader_script(id_text, Some(preload)) == "window.__QSL_READER_ID__ = "@ + id_text
            + ";\nwindow.__QSL_READER_PRELOAD__ = "@ + preload + ";"@,
        reader_script(id_text, None) == "window.__QSL_READER_ID__ = "@ + id_text
            + ";\nwindow.__QSL_READER_PRELOAD__ = "@ + "null"@ + ";"@,
        view_label(ViewWindow::Settings) == "settings"@,
        view_label(ViewWindow::AddAccount) == "oauth-add"@,
{
}

} // verus!
