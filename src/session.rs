//! What the relay does for each client: registration on connect, the
//! reaction to each inbound event, and the notice sent on shutdown.
use vstd::prelude::*;
use tokio::sync::mpsc::UnboundedSender;
use crate::envelope::{command, pop_reply, quit_notice, text_relay, MsgKind, WsMessage};
use crate::outside::enqueue;
use crate::pool::{ascending, lemma_omit_absent, lemma_omit_ascending, omit, Pool};

verus! {

/// The abstract value of an envelope: its kind and content.
pub type Envelope = (MsgKind, Seq<char>);

/// What a client's transport delivered.
pub enum Inbound {
    /// The client closed the connection.
    Closed,
    /// A frame that decoded to an envelope.
    Frame(WsMessage),
    /// A frame that did not decode, or a transport error.
    Faulty,
}

/// The relay's answer to one inbound event: a message for the sender alone,
/// a message for every other client, and whether the session ends.
pub struct Plan {
    pub reply: Option<WsMessage>,
    pub notice: Option<WsMessage>,
    pub stop: bool,
}

pub open spec fn opt_view(m: Option<WsMessage>) -> Option<Envelope> {
    match m {
        Some(m) => Some(m@),
        None => None,
    }
}

impl View for Plan {
    type V = (Option<Envelope>, Option<Envelope>, bool);

    open spec fn view(&self) -> (Option<Envelope>, Option<Envelope>, bool) {
        (opt_view(self.reply), opt_view(self.notice), self.stop)
    }
}

/// The answer owed to event `ev` of client `id` while `ids` are registered.
/// A graceful close is announced to the others; a fault ends the session
/// silently; a population query is answered with the other identifiers;
/// text goes to the others under the sender's name; other commands are
/// ignored.
pub open spec fn plan_for(ids: Seq<u64>, id: u64, ev: Inbound) -> (Option<Envelope>, Option<Envelope>, bool) {
    match ev {
        Inbound::Closed => (None, Some(quit_notice(id)), true),
        Inbound::Faulty => (None, None, true),
        Inbound::Frame(m) => if m@ == command("populate"@) {
            (Some(pop_reply(omit(ids, id))), None, false)
        } else if m.msg_type == MsgKind::Text {
            (None, Some(text_relay(id, m.content@)), false)
        } else {
            (None, None, false)
        },
    }
}

/// The clients that receive the notice owed to event `ev` of client `id`.
pub open spec fn notified_for(ids: Seq<u64>, id: u64, ev: Inbound) -> Seq<u64> {
    if plan_for(ids, id, ev).1.is_some() {
        omit(ids, id)
    } else {
        Seq::empty()
    }
}

/// A new client: its identifier, and the clients told of its arrival.
pub struct Joined {
    pub id: u64,
    pub announced_to: Vec<u64>,
}

/// The outcome of one inbound event: the answer, and the clients that the
/// notice, if any, was handed to.
pub struct Handled {
    pub plan: Plan,
    pub notified: Vec<u64>,
}

impl Pool {
    /// Registers a new client whose outbound queue is `outbox`: announces its
    /// arrival to the clients already registered, registers it, and tells it
    /// its identifier. Returns `None`, changing nothing registered, once
    /// identifiers are used up.
    pub fn connect(&mut self, outbox: UnboundedSender<WsMessage>) -> (r: Option<Joined>)
        requires
            old(self).wf(),
        ensures
            final(self).wf(),
            old(self).next() < u64::MAX <==> r.is_some(),
            r matches Some(j) ==> {
                &&& j.id == old(self).next()
                &&& final(self).next() == old(self).next() + 1
                &&& final(self).ids() == old(self).ids().push(j.id)
                &&& j.announced_to@ == old(self).ids()
            },
            r.is_none() ==> final(self).ids() == old(self).ids(),
    {
        match self.allocate() {
            None => None,
            Some(id) => {
                let announced_to = self.broadcast(&WsMessage::add(id), None);
                let _queued = enqueue(&outbox, WsMessage::assigned_id(id));
                proof {
                    assert(!self.ids().contains(id));
                }
                self.insert(id, outbox);
                Some(Joined { id, announced_to })
            },
        }
    }

    /// The answer owed to event `ev` of client `id`.
    pub fn plan(&self, id: u64, ev: &Inbound) -> (p: Plan)
        ensures
            p@ == plan_for(self.ids(), id, *ev),
    {
        match ev {
            Inbound::Closed => Plan { reply: None, notice: Some(WsMessage::quit(id)), stop: true },
            Inbound::Faulty => Plan { reply: None, notice: None, stop: true },
            Inbound::Frame(m) => {
                if m.is_populate() {
                    let others = self.others(Some(id));
                    Plan { reply: Some(WsMessage::population(&others)), notice: None, stop: false }
                } else if m.msg_type == MsgKind::Text {
                    Plan {
                        reply: None,
                        notice: Some(WsMessage::relay(id, m.content.as_str())),
                        stop: false,
                    }
                } else {
                    Plan { reply: None, notice: None, stop: false }
                }
            },
        }
    }

    /// Reacts to event `ev` of client `id`: queues the reply for `id` and the
    /// notice for every other registered client. When the result says to
    /// stop, the caller unregisters `id` with `remove`.
    pub fn handle(&self, id: u64, ev: &Inbound) -> (r: Handled)
        ensures
            r.plan@ == plan_for(self.ids(), id, *ev),
            r.notified@ == notified_for(self.ids(), id, *ev),
    {
        let plan = self.plan(id, ev);
        if let Some(reply) = &plan.reply {
            let _queued = self.send_to(id, reply.duplicate());
        }
        let notified = match &plan.notice {
            Some(notice) => self.broadcast(notice, Some(id)),
            None => Vec::new(),
        };
        Handled { plan, notified }
    }

    /// Queues the close notice for every registered client, and returns the
    /// clients it was handed to.
    pub fn shutdown(&self) -> (r: Vec<u64>)
        ensures
            r@ == self.ids(),
    {
        self.broadcast(&WsMessage::close(), None)
    }
}

/// Identifiers are unique: no identifier is registered twice, and the one
/// that the next connection receives is not registered. Since `allocate`
/// only ever raises `next`, an identifier is never handed out again.
pub proof fn lemma_identifiers_unique(p: Pool)
    requires
        p.wf(),
    ensures
        p.ids().no_duplicates(),
        !p.ids().contains(p.next()),
{
    assert forall|i: int, j: int| 0 <= i < p.ids().len() && 0 <= j < p.ids().len() && i != j
        implies p.ids()[i] != p.ids()[j] by {
        if i < j {
            assert(p.ids()[i] < p.ids()[j]);
        } else {
            assert(p.ids()[j] < p.ids()[i]);
        }
    }
    if p.ids().contains(p.next()) {
        let k = choose|k: int| 0 <= k < p.ids().len() && p.ids()[k] == p.next();
        assert(p.ids()[k] < p.next());
    }
}

/// A population query from client `id` is answered, to `id` alone, with
/// every other registered identifier, each once, in ascending order.
pub proof fn lemma_population_reply(p: Pool, id: u64, m: WsMessage)
    requires
        p.wf(),
        m@ == command("populate"@),
    ensures
        plan_for(p.ids(), id, Inbound::Frame(m)) == (
            Some(pop_reply(omit(p.ids(), id))),
            None::<Envelope>,
            false,
        ),
        ascending(omit(p.ids(), id)),
        forall|y: u64| omit(p.ids(), id).contains(y) <==> p.ids().contains(y) && y != id,
{
    lemma_omit_ascending(p.ids(), id);
}

/// Text from client `id` reaches every other registered client under the
/// sender's name, and never comes back to the sender.
pub proof fn lemma_text_reaches_others(p: Pool, id: u64, m: WsMessage)
    requires
        p.wf(),
        m.msg_type == MsgKind::Text,
    ensures
        plan_for(p.ids(), id, Inbound::Frame(m)).1 == Some(text_relay(id, m.content@)),
        forall|y: u64| notified_for(p.ids(), id, Inbound::Frame(m)).contains(y)
            <==> p.ids().contains(y) && y != id,
{
    lemma_omit_ascending(p.ids(), id);
}

/// When client `id` closes its connection, every client that stays
/// registered after `id` is removed is told that `id` has left, and the
/// session ends.
pub proof fn lemma_departure_announced(p: Pool, id: u64)
    requires
        p.wf(),
    ensures
        plan_for(p.ids(), id, Inbound::Closed) == (None::<Envelope>, Some(quit_notice(id)), true),
        notified_for(p.ids(), id, Inbound::Closed) == omit(p.ids(), id),
{
}

/// Removing an identifier that is not registered leaves the registered
/// clients as they were.
pub proof fn lemma_remove_absent(p: Pool, id: u64)
    requires
        p.wf(),
        !p.ids().contains(id),
    ensures
        omit(p.ids(), id) == p.ids(),
{
    lemma_omit_absent(p.ids(), id);
}

} // verus!
