//! The messages that machines exchange with each other and with the host.

use vstd::prelude::*;

verus! {

/// One endpoint of a wire: a port of a block.
#[derive(Clone, Copy, Debug, PartialEq, Eq, Hash, Structural)]
pub struct Port {
    /// The block, for a machine its id.
    pub block: u16,
    /// The port of that block.
    pub port: u16,
}

/// What a message asks of its recipient.
#[derive(Clone, Debug, PartialEq, Eq)]
pub enum Action {
    /// Hands words over.
    Data { body: Vec<u16> },
    /// Asks for `count` words from `address` on.
    Read { address: u16, count: u16 },
    /// Stores words from `address` on.
    Write { address: u16, data: Vec<u16> },
    /// Replaces all the data that the recipient holds.
    Override { data: Vec<u16> },
}

/// An action as a mathematical value.
pub ghost enum ActionView {
    Data { body: Seq<u16> },
    Read { address: u16, count: u16 },
    Write { address: u16, data: Seq<u16> },
    Override { data: Seq<u16> },
}

impl View for Action {
    type V = ActionView;

    open spec fn view(&self) -> ActionView {
        match *self {
            Action::Data { body } => ActionView::Data { body: body@ },
            Action::Read { address, count } => ActionView::Read { address, count },
            Action::Write { address, data } => ActionView::Write { address, data: data@ },
            Action::Override { data } => ActionView::Override { data: data@ },
        }
    }
}

/// A message on its way from a port to a machine or to a wire.
#[derive(Clone, Debug, PartialEq, Eq)]
pub struct Message {
    /// What the recipient is asked to do.
    pub action: Action,
    /// The port that the message left from.
    pub sender: Port,
    /// The machine that the message is for; without one it goes to whatever
    /// the host has wired to the sender's port.
    pub recipient: Option<u16>,
}

/// A message as a mathematical value.
pub ghost struct MessageView {
    pub action: ActionView,
    pub sender: Port,
    pub recipient: Option<u16>,
}

impl View for Message {
    type V = MessageView;

    open spec fn view(&self) -> MessageView {
        MessageView { action: self.action@, sender: self.sender, recipient: self.recipient }
    }
}

/// The views of a sequence of messages, in order.
pub open spec fn messages_view(s: Seq<Message>) -> Seq<MessageView> {
    s.map_values(|m: Message| m@)
}

/// Copies a vector of words.
pub fn copy_words(words: &Vec<u16>) -> (r: Vec<u16>)
    ensures
        r@ == words@,
{
    let mut r: Vec<u16> = Vec::new();
    let mut i: usize = 0;
    while i < words.len()
        invariant
            i <= words.len(),
            r@ == words@.subrange(0, i as int),
        decreases words.len() - i,
    {
        r.push(words[i]);
        assert(r@ == words@.subrange(0, i + 1));
        i += 1;
    }
    assert(r@ == words@);
    r
}

impl Action {
    /// Makes a copy of the action.
    pub fn duplicate(&self) -> (r: Action)
        ensures
            r@ == self@,
    {
        match self {
            Action::Data { body } => Action::Data { body: copy_words(body) },
            Action::Read { address, count } => Action::Read { address: *address, count: *count },
            Action::Write { address, data } => Action::Write {
                address: *address,
                data: copy_words(data),
            },
            Action::Override { data } => Action::Override { data: copy_words(data) },
        }
    }
}

impl Message {
    /// Makes a copy of the message.
    pub fn duplicate(&self) -> (r: Message)
        ensures
            r@ == self@,
    {
        Message { action: self.action.duplicate(), sender: self.sender, recipient: self.recipient }
    }
}

} // verus!
