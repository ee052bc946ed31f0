//! Control messages handed to the node's event loop.

use vstd::prelude::*;

verus! {

/// What a control message asks the node to do.
#[derive(Debug, Clone, Copy, PartialEq, Eq, Structural)]
pub enum MessageType {
    /// Broadcast the message text to every peer in the current view.
    Text,
    /// Leave the event loop.
    Stop,
}

impl MessageType {
    /// The lower-case label of the message type.
    pub open spec fn label(self) -> Seq<char> {
        match self {
            MessageType::Text => "text"@,
            MessageType::Stop => "stop"@,
        }
    }

    /// Renders the message type as its lower-case label.
    pub fn to_string(&self) -> (s: String)
        ensures
            s@ == self.label(),
    {
        match self {
            MessageType::Text => String::from_str("text"),
            MessageType::Stop => String::from_str("stop"),
        }
    }
}

/// A control message: its type and, for a broadcast, the text to send.
#[derive(Debug, Clone)]
pub struct Message {
    pub type_: MessageType,
    pub message: String,
}

/// The mathematical content of a [`Message`].
pub struct MessageView {
    pub type_: MessageType,
    pub message: Seq<char>,
}

impl View for Message {
    type V = MessageView;

    open spec fn view(&self) -> MessageView {
        MessageView { type_: self.type_, message: self.message@ }
    }
}

impl Message {
    /// A broadcast request carrying the text `s`.
    pub fn from(s: String) -> (m: Message)
        ensures
            m.type_ == MessageType::Text,
            m.message == s,
    {
        Message { type_: MessageType::Text, message: s }
    }

    /// The request to stop the node; it carries no text.
    pub fn stop_message() -> (m: Message)
        ensures
            m.type_ == MessageType::Stop,
            m.message@ == Seq::<char>::empty(),
    {
        Message { type_: MessageType::Stop, message: String::new() }
    }
}

} // verus!
