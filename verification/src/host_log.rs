//! Log lines of the user interface, on their way to the host.
use vstd::prelude::*;

use crate::inputs::UiLogInput;
use crate::number;
use crate::number::{decimal_text, signed_decimal_text};
use crate::text;
use crate::text::str_eq;
use crate::urls;

verus! {

/// How important a line is.
#[derive(Debug, Clone, Copy, PartialEq, Eq, Structural)]
pub enum Level {
    Error,
    Warn,
    Info,
    Debug,
    Trace,
}

/// The name of a level.
pub open spec fn level_name(level: Level) -> Seq<char> {
    match level {
        Level::Error => "error"@,
        Level::Warn => "warn"@,
        Level::Info => "info"@,
        Level::Debug => "debug"@,
        Level::Trace => "trace"@,
    }
}

/// See [`level_name`].
pub fn level_to_str(level: Level) -> (r: &'static str)
    ensures
        r@ == level_name(level),
{
    match level {
        Level::Error => "error",
        Level::Warn => "warn",
        Level::Info => "info",
        Level::Debug => "debug",
        Level::Trace => "trace",
    }
}

/// The parts of a line: its message, and named values.
#[derive(Debug)]
pub struct FieldCollector {
    pub message: String,
    pub fields: Vec<(String, String)>,
}

/// The contents of a [`FieldCollector`].
pub struct FieldsModel {
    pub message: Seq<char>,
    pub fields: Seq<(Seq<char>, Seq<char>)>,
}

impl View for FieldCollector {
    type V = FieldsModel;

    open spec fn view(&self) -> FieldsModel {
        FieldsModel { message: self.message@, fields: urls::pairs_of(self.fields@) }
    }
}

/// A value with its name.
pub open spec fn field_text(f: (Seq<char>, Seq<char>)) -> Seq<char> {
    f.0 + "="@ + f.1
}

/// The line: the message, then the values, with a space between each two.
pub open spec fn line_text(m: FieldsModel) -> Seq<char> {
    let values = text::joined(m.fields.map_values(|f: (Seq<char>, Seq<char>)| field_text(f)), " "@);
    if m.fields.len() == 0 {
        m.message
    } else if m.message.len() == 0 {
        values
    } else {
        m.message + " "@ + values
    }
}

/// The parts after a text was recorded: the message has a name of its own.
pub open spec fn with_text(m: FieldsModel, name: Seq<char>, value: Seq<char>) -> FieldsModel {
    if name == "message"@ {
        FieldsModel { message: value, ..m }
    } else {
        with_value(m, name, value)
    }
}

/// The parts after a value was recorded.
pub open spec fn with_value(m: FieldsModel, name: Seq<char>, value: Seq<char>) -> FieldsModel {
    FieldsModel { fields: m.fields.push((name, value)), ..m }
}

impl Default for FieldCollector {
    fn default() -> (r: Self)
        ensures
            r@ == (FieldsModel { message: Seq::empty(), fields: Seq::empty() }),
    {
        let r = FieldCollector { message: String::new(), fields: Vec::new() };
        assert(r@.message =~= Seq::<char>::empty());
        assert(r@.fields =~= Seq::<(Seq<char>, Seq<char>)>::empty());
        r
    }
}

impl FieldCollector {
    /// See [`line_text`].
    pub fn into_string(self) -> (r: String)
        ensures
            r@ == line_text(self@),
    {
        if self.fields.len() == 0 {
            return self.message;
        }
        let ghost parts = self@.fields.map_values(|f: (Seq<char>, Seq<char>)| field_text(f));
        let mut line = String::new();
        let mut i: usize = 0;
        assert(parts.take(0) =~= Seq::<Seq<char>>::empty());
        assert(line@ =~= Seq::<char>::empty());
        while i < self.fields.len()
            invariant
                i <= self.fields@.len(),
                parts == self@.fields.map_values(|f: (Seq<char>, Seq<char>)| field_text(f)),
                line@ == text::joined(parts.take(i as int), " "@),
            decreases self.fields@.len() - i,
        {
            let ghost before = line@;
            if i > 0 {
                line.append(" ");
            }
            line.append(self.fields[i].0.as_str());
            line.append("=");
            line.append(self.fields[i].1.as_str());
            proof {
                let f = (self.fields@[i as int].0@, self.fields@[i as int].1@);
                assert(self@.fields[i as int] == f);
                assert(parts[i as int] == field_text(f));
                assert(parts.take(i + 1).drop_last() =~= parts.take(i as int));
                if i == 0 {
                    assert(before =~= Seq::<char>::empty());
                    assert(line@ =~= field_text(f));
                } else {
                    assert(line@ =~= before + " "@ + field_text(f));
                }
            }
            i = i + 1;
        }
        assert(parts.take(parts.len() as int) =~= parts);
        if self.message.as_str().is_empty() {
            return line;
        }
        let mut r = self.message;
        r.append(" ");
        r.append(line.as_str());
        r
    }

    /// Records a text.
    pub fn record_str(&mut self, name: &str, value: &str)
        ensures
            final(self)@ == with_text(old(self)@, name@, value@),
    {
        if str_eq(name, "message") {
            self.message = value.to_owned();
        } else {
            self.push_field(name, value.to_owned());
        }
    }

    /// Records a value that was rendered as a text.
    pub fn record_debug(&mut self, name: &str, rendered: &str)
        ensures
            final(self)@ == with_text(old(self)@, name@, rendered@),
    {
        self.record_str(name, rendered);
    }

    /// Records a number.
    pub fn record_u64(&mut self, name: &str, value: u64)
        ensures
            final(self)@ == with_value(old(self)@, name@, number::decimal(value as nat)),
    {
        self.push_field(name, decimal_text(value));
    }

    /// Records a number.
    pub fn record_i64(&mut self, name: &str, value: i64)
        ensures
            final(self)@ == with_value(old(self)@, name@, number::signed_decimal(value as int)),
    {
        self.push_field(name, signed_decimal_text(value));
    }

    /// Records a truth value.
    pub fn record_bool(&mut self, name: &str, value: bool)
        ensures
            final(self)@ == with_value(
                old(self)@,
                name@,
                if value {
                    "true"@
                } else {
                    "false"@
                },
            ),
    {
        if value {
            self.push_field(name, "true".to_owned());
        } else {
            self.push_field(name, "false".to_owned());
        }
    }

    /// Adds a named value.
    pub fn push_field(&mut self, name: &str, value: String)
        ensures
            final(self)@ == with_value(old(self)@, name@, value@),
    {
        let ghost before = urls::pairs_of(self.fields@);
        let ghost v = value@;
        self.fields.push((name.to_owned(), value));
        assert(urls::pairs_of(self.fields@) =~= before.push((name@, v)));
    }
}

/// A line for the host.
#[derive(Debug, PartialEq, Eq)]
pub struct LogPayload {
    pub level: &'static str,
    pub target: String,
    pub message: String,
}

/// The line for the host. Only what is at least an information is sent.
pub fn log_payload(level: Level, target: String, fields: FieldCollector) -> (r: Option<LogPayload>)
    ensures
        match r {
            Some(p) => {
                &&& level != Level::Debug && level != Level::Trace
                &&& p.level@ == level_name(level)
                &&& p.target@ == target@
                &&& p.message@ == line_text(fields@)
            },
            None => level == Level::Debug || level == Level::Trace,
        },
{
    match level {
        Level::Debug => None,
        Level::Trace => None,
        _ => Some(
            LogPayload { level: level_to_str(level), target, message: fields.into_string() },
        ),
    }
}

/// How the host writes a line of the user interface.
#[derive(Debug, Clone, Copy, PartialEq, Eq, Structural)]
pub enum HostLevel {
    Error,
    Warn,
    Info,
    /// As an information, with the name of the level that was asked for.
    InfoWithLevel,
}

/// How the host writes a line of the named level.
pub fn ui_log(input: &UiLogInput) -> (r: HostLevel)
    ensures
        r == if input.level@ == "error"@ {
            HostLevel::Error
        } else if input.level@ == "warn"@ {
            HostLevel::Warn
        } else if input.level@ == "info"@ {
            HostLevel::Info
        } else {
            HostLevel::InfoWithLevel
        },
{
    if str_eq(input.level.as_str(), "error") {
        HostLevel::Error
    } else if str_eq(input.level.as_str(), "warn") {
        HostLevel::Warn
    } else if str_eq(input.level.as_str(), "info") {
        HostLevel::Info
    } else {
        HostLevel::InfoWithLevel
    }
}

/// A line of the log holds the message first and then each value, in the order
/// in which they were recorded, with its name.
pub proof fn law_a_line_holds_message_and_values(
    m: FieldsModel,
    name: Seq<char>,
    value: Seq<char>,
)
    ensures
        m.fields.len() == 0 ==> line_text(m) == m.message,
        m.fields.len() > 0 && m.message.len() > 0 ==> line_text(m) == m.message + " "@ + line_text(
            FieldsModel { message: Seq::empty(), ..m },
        ),
        m.message.len() == 0 && m.fields.len() > 0 ==> line_text(with_value(m, name, value))
            == line_text(m) + " "@ + (name + "="@ + value),
        m.message.len() == 0 && m.fields.len() == 0 ==> line_text(with_value(m, name, value))
            == name + "="@ + value,
        with_text(m, "message"@, value) == (FieldsModel { message: value, ..m }),
        name != "message"@ ==> with_text(m, name, value) == with_value(m, name, value),
        with_value(m, name, value) == (FieldsModel { fields: m.fields.push((name, value)), ..m }),
{
    let f = |f: (Seq<char>, Seq<char>)| field_text(f);
    let all = m.fields.push((name, value)).map_values(f);
    assert(all =~= m.fields.map_values(f).push(field_text((name, value))));
    assert(all.drop_last() =~= m.fields.map_values(f));
}

/// Each level has its name.
pub proof fn law_levels_have_names()
    ensures
        level_name(Level::Error) == "error"@,
        level_name(Level::Warn) == "warn"@,
        level_name(Level::Info) == "info"@,
        level_name(Level::Debug) == "debug"@,
        level_name(Level::Trace) == "trace"@,
{
}

} // verus!
