//! The envelope exchanged with clients, and the notices the relay sends.
use vstd::prelude::*;
use vstd::string::*;
use crate::text::{decimal, json_id_list, prefixed_decimal};
use crate::outside::ids_to_json;

verus! {

/// Whether an envelope is a control message or text meant for people.
#[derive(Clone, Copy, Debug, PartialEq, Eq, Structural)]
pub enum MsgKind {
    Command,
    Text,
}

/// One message on the wire: its kind and its text payload.
#[derive(Debug)]
pub struct WsMessage {
    pub msg_type: MsgKind,
    pub content: String,
}

impl View for WsMessage {
    type V = (MsgKind, Seq<char>);

    open spec fn view(&self) -> (MsgKind, Seq<char>) {
        (self.msg_type, self.content@)
    }
}

/// A command envelope with the given content.
pub open spec fn command(content: Seq<char>) -> (MsgKind, Seq<char>) {
    (MsgKind::Command, content)
}

/// Announces to existing clients that client `id` has arrived.
pub open spec fn add_notice(id: u64) -> (MsgKind, Seq<char>) {
    command("add:"@ + decimal(id as nat))
}

/// Announces to remaining clients that client `id` has left.
pub open spec fn quit_notice(id: u64) -> (MsgKind, Seq<char>) {
    command("quit:"@ + decimal(id as nat))
}

/// Tells a client its own identifier.
pub open spec fn id_notice(id: u64) -> (MsgKind, Seq<char>) {
    command("#"@ + decimal(id as nat))
}

/// Tells every client that the service is stopping.
pub open spec fn close_notice() -> (MsgKind, Seq<char>) {
    command("close"@)
}

/// Answers a population query with the given identifiers.
pub open spec fn pop_reply(ids: Seq<u64>) -> (MsgKind, Seq<char>) {
    command("pop:"@ + json_id_list(ids))
}

/// Relays text written by client `id` to the others.
pub open spec fn text_relay(id: u64, content: Seq<char>) -> (MsgKind, Seq<char>) {
    (MsgKind::Text, "User #"@ + decimal(id as nat) + ": "@ + content)
}

impl WsMessage {
    pub fn new(msg_type: MsgKind, content: String) -> (r: Self)
        ensures
            r@ == (msg_type, content@),
    {
        Self { msg_type, content }
    }

    /// A copy of this envelope.
    pub fn duplicate(&self) -> (r: Self)
        ensures
            r@ == self@,
    {
        Self { msg_type: self.msg_type, content: self.content.clone() }
    }

    /// Whether this is the command by which a client asks who else is connected.
    pub fn is_populate(&self) -> (r: bool)
        ensures
            r == (self@ == command("populate"@)),
    {
        let populate = String::from_str("populate");
        self.msg_type == MsgKind::Command && self.content == populate
    }

    pub fn add(id: u64) -> (r: Self)
        ensures
            r@ == add_notice(id),
    {
        Self::new(MsgKind::Command, prefixed_decimal("add:", id))
    }

    pub fn quit(id: u64) -> (r: Self)
        ensures
            r@ == quit_notice(id),
    {
        Self::new(MsgKind::Command, prefixed_decimal("quit:", id))
    }

    pub fn assigned_id(id: u64) -> (r: Self)
        ensures
            r@ == id_notice(id),
    {
        Self::new(MsgKind::Command, prefixed_decimal("#", id))
    }

    pub fn close() -> (r: Self)
        ensures
            r@ == close_notice(),
    {
        Self::new(MsgKind::Command, String::from_str("close"))
    }

    pub fn population(ids: &Vec<u64>) -> (r: Self)
        ensures
            r@ == pop_reply(ids@),
    {
        let list = ids_to_json(ids);
        let content = String::from_str("pop:").concat(list.as_str());
        Self::new(MsgKind::Command, content)
    }

    pub fn relay(id: u64, content: &str) -> (r: Self)
        ensures
            r@ == text_relay(id, content@),
    {
        let head = prefixed_decimal("User #", id).concat(": ");
        Self::new(MsgKind::Text, head.concat(content))
    }
}

} // verus!
