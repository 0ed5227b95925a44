//! The protocol of the bus client adapter, without its connection.
//!
//! A front end owns the connection and the subscription. This module keeps
//! what the adapter has to remember, and decides what a read from the
//! subscription amounts to: a message with its arrival number, or the reason
//! why there is none.

use vstd::prelude::*;
use crate::nats::message::{Message, MessageView};
use crate::Cli;

verus! {

/// Why the adapter has no message to hand out.
#[derive(Debug, Clone, Copy, PartialEq, Eq)]
pub enum ClientError {
    /// Nothing was subscribed to.
    NoSubscription,
    /// The subscription has ended.
    NoMessage,
}

impl ClientError {
    /// The text that describes the error.
    pub open spec fn spec_description(self) -> Seq<char> {
        match self {
            ClientError::NoSubscription => "No subscription"@,
            ClientError::NoMessage => "No message"@,
        }
    }

    /// Returns the text that describes the error.
    pub fn description(self) -> (text: String)
        ensures
            text@ == self.spec_description(),
    {
        match self {
            ClientError::NoSubscription => "No subscription".to_string(),
            ClientError::NoMessage => "No message".to_string(),
        }
    }
}

/// The mathematical content of a [`Client`].
pub struct ClientView {
    /// The address of the server.
    pub server: Seq<char>,
    /// The user name.
    pub username: Seq<char>,
    /// The password.
    pub password: Seq<char>,
    /// The pattern that the session is configured to subscribe to.
    pub pattern: Seq<char>,
    /// The pattern subscribed to, once there is a subscription.
    pub subscription: Option<Seq<char>>,
    /// The number of messages handed out so far.
    pub received: u64,
}

impl ClientView {
    /// The number of messages handed out after one more: the count stops at
    /// `u64::MAX`.
    pub open spec fn next_received(self) -> u64 {
        if self.received < u64::MAX {
            (self.received + 1) as u64
        } else {
            self.received
        }
    }

    /// What a read amounts to. `item` is what the subscription yielded: a
    /// subject and a payload, or nothing if it has ended. Without a
    /// subscription there is no message whatever was read; otherwise the
    /// item becomes a message numbered by the count of messages before it.
    pub open spec fn read(self, item: Option<(Seq<char>, Seq<u8>)>) -> Result<
        MessageView,
        ClientError,
    > {
        if self.subscription is None {
            Err(ClientError::NoSubscription)
        } else {
            match item {
                Some((subject, payload)) => Ok(
                    MessageView { subject, payload, sequence: self.received },
                ),
                None => Err(ClientError::NoMessage),
            }
        }
    }

    /// The state after a read: a message that was handed out is counted.
    pub open spec fn after_read(self, item: Option<(Seq<char>, Seq<u8>)>) -> ClientView {
        if self.read(item) is Ok {
            ClientView { received: self.next_received(), ..self }
        } else {
            self
        }
    }
}

/// What the adapter remembers: the settings of the session, the subscription
/// it has, and how many messages it has handed out.
pub struct Client {
    settings: Cli,
    subscription: Option<String>,
    received: u64,
}

impl View for Client {
    type V = ClientView;

    closed spec fn view(&self) -> ClientView {
        ClientView {
            server: self.settings.server@,
            username: self.settings.username@,
            password: self.settings.password@,
            pattern: self.settings.spec_subject_pattern(),
            subscription: match self.subscription {
                Some(pattern) => Some(pattern@),
                None => None,
            },
            received: self.received,
        }
    }
}

impl Client {
    /// Creates the adapter's state for a session with the settings `args`:
    /// not subscribed, nothing received.
    pub fn new(args: Cli) -> (client: Client)
        ensures
            client@ == (ClientView {
                server: args.server@,
                username: args.username@,
                password: args.password@,
                pattern: args.spec_subject_pattern(),
                subscription: None,
                received: 0,
            }),
    {
        Client { settings: args, subscription: None, received: 0 }
    }

    /// The address of the server.
    pub fn server(&self) -> (server: &String)
        ensures
            server@ == self@.server,
    {
        &self.settings.server
    }

    /// The user name.
    pub fn username(&self) -> (username: &String)
        ensures
            username@ == self@.username,
    {
        &self.settings.username
    }

    /// The password.
    pub fn password(&self) -> (password: &String)
        ensures
            password@ == self@.password,
    {
        &self.settings.password
    }

    /// The pattern that the session is configured to subscribe to: the one
    /// of the settings, or the match-everything wildcard if they have none.
    pub fn pattern(&self) -> (pattern: String)
        ensures
            pattern@ == self@.pattern,
    {
        self.settings.subject_pattern()
    }

    /// Tells whether there is a subscription.
    pub fn is_subscribed(&self) -> (subscribed: bool)
        ensures
            subscribed == self@.subscription is Some,
    {
        self.subscription.is_some()
    }

    /// The number of messages handed out so far.
    pub fn received(&self) -> (received: u64)
        ensures
            received == self@.received,
    {
        self.received
    }

    /// Records that `subject` was subscribed to. An earlier subscription is
    /// replaced.
    pub fn subscribe(&mut self, subject: String)
        ensures
            final(self)@ == (ClientView { subscription: Some(subject@), ..old(self)@ }),
    {
        self.subscription = Some(subject);
    }

    /// Turns what a read from the subscription yielded into the adapter's
    /// answer. `item` is the subject and the payload that were read, or `None`
    /// if the subscription has ended. A message is numbered by the count of
    /// the messages handed out before it, and is counted.
    pub fn next_msg(&mut self, item: Option<(String, Vec<u8>)>) -> (answer: Result<
        Message,
        ClientError,
    >)
        ensures
            final(self)@ == old(self)@.after_read(item_view(item)),
            old(self)@.read(item_view(item)) == answer_view(answer),
    {
        if self.subscription.is_none() {
            return Err(ClientError::NoSubscription);
        }
        match item {
            Some((subject, payload)) => {
                let sequence = self.received;
                if self.received < u64::MAX {
                    self.received = self.received + 1;
                }
                Ok(Message::new(subject, payload, sequence))
            },
            None => Err(ClientError::NoMessage),
        }
    }

    /// Decides what the forwarding task does with the adapter's answer: a
    /// message is pushed on, and any error ends the task.
    pub fn forward(answer: Result<Message, ClientError>) -> (next: Forward)
        ensures
            match answer {
                Ok(message) => next matches Forward::Push(pushed) && pushed@ == message@,
                Err(_) => next is Stop,
            },
    {
        match answer {
            Ok(message) => Forward::Push(message),
            Err(_) => Forward::Stop,
        }
    }
}

/// The content of the adapter's answer.
pub open spec fn answer_view(answer: Result<Message, ClientError>) -> Result<
    MessageView,
    ClientError,
> {
    match answer {
        Ok(message) => Ok(message@),
        Err(error) => Err(error),
    }
}

/// The content of what a read yielded.
pub open spec fn item_view(item: Option<(String, Vec<u8>)>) -> Option<(Seq<char>, Seq<u8>)> {
    match item {
        Some((subject, payload)) => Some((subject@, payload@)),
        None => None,
    }
}

/// What the forwarding task does next.
#[derive(Debug)]
pub enum Forward {
    /// Push the message into the ingestion channel and read again.
    Push(Message),
    /// Stop reading: the subscription has ended.
    Stop,
}

/// Arrival numbers rise: of two messages handed out one after the other, the
/// second has the higher number, as long as the count has not reached
/// `u64::MAX`.
pub proof fn lemma_arrival_numbers_rise(
    state: ClientView,
    first: Option<(Seq<char>, Seq<u8>)>,
    second: Option<(Seq<char>, Seq<u8>)>,
)
    requires
        state.received < u64::MAX,
        state.read(first) is Ok,
        state.after_read(first).read(second) is Ok,
    ensures
        state.read(first)->Ok_0.sequence < state.after_read(first).read(second)->Ok_0.sequence,
{
}

} // verus!
