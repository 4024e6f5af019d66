//! The messages `zellij-attention::EVENT_TYPE::PANE_ID`.

use vstd::prelude::*;

use crate::host;
use crate::host::PipeMessage;
use crate::state::NotificationType;
use crate::text;
use crate::text::{parse_number, same_text, split_on, starts_with};

verus! {

/// Why a message that is addressed to the plugin is refused.
#[derive(Debug, PartialEq, Eq)]
pub enum MessageError {
    /// The message does not have three fields.
    InvalidFormat,
    /// The third field is not a pane id.
    InvalidPaneId(String),
    /// The second field, here in lower case, is not an event type.
    UnknownEvent(String),
}

/// The content of a [`MessageError`].
pub enum MessageErrorView {
    InvalidFormat,
    InvalidPaneId(Seq<char>),
    UnknownEvent(Seq<char>),
}

impl View for MessageError {
    type V = MessageErrorView;

    open spec fn view(&self) -> MessageErrorView {
        match self {
            MessageError::InvalidFormat => MessageErrorView::InvalidFormat,
            MessageError::InvalidPaneId(field) => MessageErrorView::InvalidPaneId(field@),
            MessageError::UnknownEvent(event) => MessageErrorView::UnknownEvent(event@),
        }
    }
}

/// What a pipe message means to the plugin.
#[derive(Debug, PartialEq, Eq)]
pub enum Message {
    /// It is not for the plugin.
    Ignored,
    /// It is for the plugin, which does not understand it.
    Rejected(MessageError),
    /// A pane has something to say.
    Notify { pane: u32, kind: NotificationType },
}

/// The content of a [`Message`].
pub enum MessageView {
    Ignored,
    Rejected(MessageErrorView),
    Notify { pane: u32, kind: NotificationType },
}

impl View for Message {
    type V = MessageView;

    open spec fn view(&self) -> MessageView {
        match self {
            Message::Ignored => MessageView::Ignored,
            Message::Rejected(error) => MessageView::Rejected(error@),
            Message::Notify { pane, kind } => MessageView::Notify { pane: *pane, kind: *kind },
        }
    }
}

/// What every message to the plugin starts with.
pub open spec fn address() -> Seq<char> {
    "zellij-attention::"@
}

/// What stands between the fields of a message.
pub open spec fn separator() -> Seq<char> {
    "::"@
}

/// The text of a message to the plugin: the name of the pipe if it is addressed to the plugin,
/// else the payload if that is.
pub open spec fn addressed_text(name: Seq<char>, payload: Option<Seq<char>>) -> Option<Seq<char>> {
    if address().is_prefix_of(name) {
        Some(name)
    } else {
        match payload {
            Some(text) => if address().is_prefix_of(text) {
                Some(text)
            } else {
                None
            },
            None => None,
        }
    }
}

/// The lower-case equivalent of a text, by the rules of Unicode.
pub uninterp spec fn lowercase(s: Seq<char>) -> Seq<char>;

/// `c` with an ASCII capital turned into the small letter.
pub open spec fn ascii_small(c: char) -> char {
    if 'A' <= c && c <= 'Z' {
        ((c as u32) + 32) as char
    } else {
        c
    }
}

/// `s` with the ASCII capitals turned into small letters.
pub open spec fn ascii_lowercase(s: Seq<char>) -> Seq<char> {
    s.map_values(|c: char| ascii_small(c))
}

/// Calls `str::to_lowercase`. The result depends on the text alone; where the text is ASCII, the
/// capitals become small letters and everything else stays.
#[verifier::external_body]
fn to_lowercase(s: &str) -> (r: String)
    ensures
        r@ == lowercase(s@),
        vstd::utf8::is_ascii_chars(s@) ==> r@ == ascii_lowercase(s@),
{
    s.to_lowercase()
}

/// The notification type with a given name, which is in lower case.
pub open spec fn kind_of(name: Seq<char>) -> Option<NotificationType> {
    if name == "waiting"@ {
        Some(NotificationType::Waiting)
    } else if name == "completed"@ {
        Some(NotificationType::Completed)
    } else {
        None
    }
}

/// Finds the notification type with a given name.
pub fn kind_named(name: &str) -> (r: Option<NotificationType>)
    ensures
        r == kind_of(name@),
{
    if same_text(name, "waiting") {
        Some(NotificationType::Waiting)
    } else if same_text(name, "completed") {
        Some(NotificationType::Completed)
    } else {
        None
    }
}

/// The meaning of a message with these fields, whose second field in lower case is `event`.
/// Fields behind the third do not count.
pub open spec fn meaning(fields: Seq<Seq<char>>, event: Seq<char>) -> MessageView {
    if fields.len() < 3 {
        MessageView::Rejected(MessageErrorView::InvalidFormat)
    } else {
        match text::number_in(fields[2]) {
            Some(pane) => match kind_of(event) {
                Some(kind) => MessageView::Notify { pane, kind },
                None => MessageView::Rejected(MessageErrorView::UnknownEvent(event)),
            },
            None => MessageView::Rejected(MessageErrorView::InvalidPaneId(fields[2])),
        }
    }
}

/// Finds the meaning of a message from its fields and from its second field in lower case.
pub fn interpret(fields: &Vec<String>, event: &str) -> (r: Message)
    ensures
        r@ == meaning(text::texts(fields@), event@),
{
    if fields.len() < 3 {
        return Message::Rejected(MessageError::InvalidFormat);
    }
    assert(text::texts(fields@)[2] == fields@[2]@);
    match parse_number(fields[2].as_str()) {
        Some(pane) => match kind_named(event) {
            Some(kind) => Message::Notify { pane, kind },
            None => Message::Rejected(MessageError::UnknownEvent(event.to_owned())),
        },
        None => Message::Rejected(MessageError::InvalidPaneId(fields[2].clone())),
    }
}

/// The fields of a text.
pub open spec fn fields_of(text: Seq<char>) -> Seq<Seq<char>> {
    text::pieces(text, separator())
}

/// The meaning of a pipe message, where `lower` gives a text in lower case.
pub open spec fn meaning_of(
    name: Seq<char>,
    payload: Option<Seq<char>>,
    lower: spec_fn(Seq<char>) -> Seq<char>,
) -> MessageView {
    match addressed_text(name, payload) {
        Some(text) => meaning(fields_of(text), lower(fields_of(text)[1])),
        None => MessageView::Ignored,
    }
}

/// Whether the event type of a message, if it has one, is ASCII.
pub open spec fn ascii_event(name: Seq<char>, payload: Option<Seq<char>>) -> bool {
    addressed_text(name, payload) matches Some(text) ==> vstd::utf8::is_ascii_chars(
        fields_of(text)[1],
    )
}

/// Finds the meaning of a pipe message.
pub fn read_message(message: &PipeMessage) -> (r: Message)
    ensures
        r@ == meaning_of(
            message.name@,
            host::payload_view(message.payload),
            |s: Seq<char>| lowercase(s),
        ),
        ascii_event(message.name@, host::payload_view(message.payload)) ==> r@ == meaning_of(
            message.name@,
            host::payload_view(message.payload),
            |s: Seq<char>| ascii_lowercase(s),
        ),
{
    let text: String = if starts_with(message.name.as_str(), "zellij-attention::") {
        message.name.clone()
    } else {
        match &message.payload {
            Some(payload) => if starts_with(payload.as_str(), "zellij-attention::") {
                payload.clone()
            } else {
                return Message::Ignored;
            },
            None => {
                return Message::Ignored;
            },
        }
    };
    proof {
        reveal_strlit("::");
    }
    let fields = split_on(text.as_str(), "::");
    if fields.len() < 3 {
        return Message::Rejected(MessageError::InvalidFormat);
    }
    assert(text::texts(fields@)[1] == fields@[1]@);
    let event: String = to_lowercase(fields[1].as_str());
    interpret(&fields, event.as_str())
}

} // verus!
