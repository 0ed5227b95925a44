//! A message as it arrives from the bus.

use vstd::prelude::*;

verus! {

/// The mathematical content of a [`Message`].
pub struct MessageView {
    /// The subject that the message was published under.
    pub subject: Seq<char>,
    /// The payload bytes.
    pub payload: Seq<u8>,
    /// The arrival sequence number.
    pub sequence: u64,
}

/// One message received from the bus: a payload, the subject it was published
/// under, and the number that the receiving side gave it on arrival.
#[derive(Debug, PartialEq, Eq)]
pub struct Message {
    /// The subject that the message was published under.
    pub subject: String,
    /// The payload bytes.
    pub payload: Vec<u8>,
    /// The arrival sequence number.
    pub sequence: u64,
}

impl View for Message {
    type V = MessageView;

    open spec fn view(&self) -> MessageView {
        MessageView { subject: self.subject@, payload: self.payload@, sequence: self.sequence }
    }
}

/// The contents of a run of messages, one for one.
pub open spec fn message_views(messages: Seq<Message>) -> Seq<MessageView> {
    Seq::new(messages.len(), |i: int| messages[i]@)
}

impl Message {
    /// Builds a message from its parts.
    pub fn new(subject: String, payload: Vec<u8>, sequence: u64) -> (message: Message)
        ensures
            message@ == (MessageView { subject: subject@, payload: payload@, sequence }),
    {
        Message { subject, payload, sequence }
    }
}

} // verus!
