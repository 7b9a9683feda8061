//! Messages that travel on the data and control channels, who sent them,
//! and how a message is rendered as one line of terminal output.

use owo_colors::OwoColorize;
use vstd::prelude::*;
use vstd::string::*;

verus! {

/// The kind of a message: data (`Text`, `Error`) or control.
#[derive(Debug, Clone, Copy, PartialEq, Eq, Structural)]
pub enum MessageType {
    Kill,
    Text,
    Error,
    KillAll,
    KillOthers,
    KillAllOnError,
    Complete,
}

/// The kind of component that sent a message.
#[derive(Debug, Clone, Copy, PartialEq, Eq, Structural)]
pub enum SenderType {
    Process,
    Scheduler,
    Task,
    Other,
    Main,
}

/// Who sent a message: its kind, the task index if any, and a display name.
#[derive(Debug, Clone)]
pub struct MessageSender {
    pub index: Option<usize>,
    pub name: String,
    pub type_: SenderType,
}

impl MessageSender {
    /// A copy of this descriptor.
    pub fn duplicate(&self) -> (r: MessageSender)
        ensures
            r == *self,
    {
        MessageSender { index: self.index, name: self.name.clone(), type_: self.type_ }
    }
}

/// A colour as red, green and blue components.
#[derive(Debug, Clone, Copy, PartialEq, Eq, Structural)]
pub struct Color {
    pub r: u8,
    pub g: u8,
    pub b: u8,
}

/// The colour of a message that names none.
pub open spec fn white() -> Color {
    Color { r: 255, g: 255, b: 255 }
}

/// One message on a channel.
#[derive(Debug, Clone)]
pub struct Message {
    pub name: String,
    /// Milliseconds since the Unix epoch at construction.
    pub timestamp: u64,
    pub data: String,
    pub color: Color,
    pub type_: MessageType,
    pub sender: MessageSender,
}

/// The name a sender of kind `t` gets when none is given.
pub open spec fn sender_type_label(t: SenderType) -> Seq<char> {
    match t {
        SenderType::Process => "Process"@,
        SenderType::Scheduler => "Scheduler"@,
        SenderType::Task => "Task"@,
        SenderType::Other => "Other"@,
        SenderType::Main => "Main"@,
    }
}

/// Relies on std::time::SystemTime::now, read as milliseconds since the Unix
/// epoch (0 when the clock stands before it).
#[verifier::external_body]
fn now_millis() -> (r: u64) {
    match std::time::SystemTime::now().duration_since(std::time::UNIX_EPOCH) {
        Ok(d) => d.as_millis() as u64,
        Err(_) => 0,
    }
}

impl Message {
    /// A message of kind `type_`, stamped with the current time; a missing
    /// name or text is empty and a missing colour is white.
    pub fn new(
        type_: MessageType,
        name: Option<String>,
        data: Option<String>,
        color: Option<Color>,
        sender: MessageSender,
    ) -> (r: Message)
        ensures
            r.type_ == type_,
            r.name@ == (match name {
                Some(n) => n@,
                None => Seq::<char>::empty(),
            }),
            r.data@ == (match data {
                Some(d) => d@,
                None => Seq::<char>::empty(),
            }),
            r.color == (match color {
                Some(c) => c,
                None => white(),
            }),
            r.sender == sender,
    {
        let color = match color {
            Some(c) => c,
            None => Color { r: 255, g: 255, b: 255 },
        };
        let name = match name {
            Some(n) => n,
            None => String::new(),
        };
        let data = match data {
            Some(d) => d,
            None => String::new(),
        };
        Message { name, timestamp: now_millis(), data, color, type_, sender }
    }
}

/// A sender descriptor; without a name, the sender is named after its kind.
pub fn build_message_sender(
    sender_type: SenderType,
    index: Option<usize>,
    name: Option<String>,
) -> (r: MessageSender)
    ensures
        r.type_ == sender_type,
        r.index == index,
        r.name@ == (match name {
            Some(n) => n@,
            None => sender_type_label(sender_type),
        }),
{
    let name = match name {
        Some(n) => n,
        None => match sender_type {
            SenderType::Process => String::from_str("Process"),
            SenderType::Scheduler => String::from_str("Scheduler"),
            SenderType::Task => String::from_str("Task"),
            SenderType::Other => String::from_str("Other"),
            SenderType::Main => String::from_str("Main"),
        },
    };
    MessageSender { index, name, type_: sender_type }
}

/// The text wrapped in the terminal escape codes of a 24-bit foreground colour.
pub uninterp spec fn colored(text: Seq<char>, color: Color) -> Seq<char>;

/// The text wrapped in the terminal escape codes for bold.
pub uninterp spec fn bolded(text: Seq<char>) -> Seq<char>;

/// The text wrapped in the terminal escape codes for red.
pub uninterp spec fn reddened(text: Seq<char>) -> Seq<char>;

/// Relies on owo_colors' `Style::truecolor` and `OwoColorize::style`: the
/// rendering depends on the text and the colour alone.
#[verifier::external_body]
fn truecolor_text(text: &str, color: Color) -> (r: String)
    ensures
        r@ == colored(text@, color),
{
    let style = owo_colors::Style::new().truecolor(color.r, color.g, color.b);
    format!("{}", text.style(style))
}

/// Relies on owo_colors' `OwoColorize::bold`: the rendering depends on the
/// text alone.
#[verifier::external_body]
fn bold_text(text: &str) -> (r: String)
    ensures
        r@ == bolded(text@),
{
    format!("{}", text.bold())
}

/// Relies on owo_colors' `OwoColorize::red`: the rendering depends on the
/// text alone.
#[verifier::external_body]
pub(crate) fn red_text(text: &str) -> (r: String)
    ensures
        r@ == reddened(text@),
{
    format!("{}", text.red())
}

/// `text` in `color`, or unchanged when colour is disabled.
pub open spec fn paint(text: Seq<char>, color: Color, no_color: bool) -> Seq<char> {
    if no_color {
        text
    } else {
        colored(text, color)
    }
}

/// `text` in `color`, or unchanged when colour is disabled.
pub fn print_color(text: String, color: Color, no_color: bool) -> (r: String)
    ensures
        r@ == paint(text@, color, no_color),
{
    if no_color {
        text
    } else {
        truecolor_text(text.as_str(), color)
    }
}

/// The line shown for a message: in raw mode the bare text of process output
/// and an empty line for anything else; otherwise the text of top-level
/// messages in colour, and other messages after their sender's name in
/// brackets, task status text in bold.
pub open spec fn rendered(
    sender_type: SenderType,
    name: Seq<char>,
    data: Seq<char>,
    color: Color,
    raw: bool,
    no_color: bool,
) -> Seq<char> {
    if raw {
        if sender_type == SenderType::Process {
            data
        } else {
            Seq::empty()
        }
    } else {
        match sender_type {
            SenderType::Main => paint(data, color, no_color),
            SenderType::Task => "["@ + paint(name, color, no_color) + "]: "@ + paint(
                bolded(data),
                color,
                no_color,
            ),
            _ => "["@ + paint(name, color, no_color) + "]: "@ + data,
        }
    }
}

/// The line shown for a message (see `rendered`).
pub fn print_message(
    sender_type: SenderType,
    name: String,
    data: String,
    color: Color,
    raw: bool,
    no_color: bool,
) -> (r: String)
    ensures
        r@ == rendered(sender_type, name@, data@, color, raw, no_color),
{
    if raw {
        match sender_type {
            SenderType::Process => data,
            _ => String::new(),
        }
    } else {
        match sender_type {
            SenderType::Main => print_color(data, color, no_color),
            SenderType::Task => {
                let left = String::from_str("[").concat(print_color(name, color, no_color).as_str());
                let bold = bold_text(data.as_str());
                left.concat("]: ").concat(print_color(bold, color, no_color).as_str())
            },
            _ => {
                let left = String::from_str("[").concat(print_color(name, color, no_color).as_str());
                left.concat("]: ").concat(data.as_str())
            },
        }
    }
}

} // verus!
