//! The message record that moves through the relay, and its mathematical view.

use vstd::prelude::*;

verus! {

/// Spec-level image of a message: the four fields as mathematical values.
pub ghost struct MessageView {
    pub from: Seq<char>,
    pub to: Seq<char>,
    pub body: Seq<char>,
    pub timestamp: int,
}

/// A directed text message: sender identity, target identity, payload, and an
/// epoch-seconds timestamp (client-assigned on the unary path, server-assigned
/// on the stream path).
#[derive(Debug)]
pub struct ChatMessage {
    pub from: String,
    pub to: String,
    pub body: String,
    pub timestamp: i64,
}

impl View for ChatMessage {
    type V = MessageView;

    open spec fn view(&self) -> MessageView {
        MessageView {
            from: self.from@,
            to: self.to@,
            body: self.body@,
            timestamp: self.timestamp as int,
        }
    }
}

/// The same message with its timestamp replaced by `now`.
pub open spec fn stamped(m: MessageView, now: int) -> MessageView {
    MessageView { timestamp: now, ..m }
}

impl ChatMessage {
    /// Overwrite the timestamp with the server's receive time.
    pub fn stamp(self, now: i64) -> (r: ChatMessage)
        ensures
            r@ == stamped(self@, now as int),
    {
        ChatMessage { timestamp: now, ..self }
    }
}

} // verus!
