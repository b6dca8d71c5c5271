//! One connection's protocol, as a state machine: admission, username
//! negotiation, the active phase and termination. The caller reads lines,
//! feeds them in as events, and performs the returned action.
use vstd::prelude::*;

use crate::protocol::{
    capacity_notice, chat_message, format_chat, joined, joined_notice, left, left_notice,
    prompt_notice, room_full, taken_notice, username_prompt, username_taken,
};
use crate::registry::{JoinError, Registry};

verus! {

/// Where a session stands.
pub enum Phase {
    AwaitingUsername,
    /// Registered under the name it holds.
    Active(Vec<u8>),
    Terminated,
}

/// A phase seen as plain values.
pub enum PhaseModel {
    AwaitingUsername,
    Active(Seq<u8>),
    Terminated,
}

/// What the connection reported.
pub enum Event {
    /// A line was read, as it came, with its newline if it had one.
    Line(Vec<u8>),
    /// The stream ended or a read failed.
    Closed,
}

/// What the caller is to do after a step.
pub struct Action {
    /// Bytes to write to this connection.
    pub reply: Option<Vec<u8>>,
    /// A message to enqueue on the relay.
    pub broadcast: Option<Vec<u8>>,
}

pub open spec fn opt_view(o: Option<Vec<u8>>) -> Option<Seq<u8>> {
    match o {
        Some(v) => Some(v@),
        None => None,
    }
}

impl Action {
    pub open spec fn reply_view(&self) -> Option<Seq<u8>> {
        opt_view(self.reply)
    }

    pub open spec fn broadcast_view(&self) -> Option<Seq<u8>> {
        opt_view(self.broadcast)
    }
}

/// The server side of one connection.
pub struct Session {
    phase: Phase,
    sink: u64,
}

impl Session {
    pub closed spec fn phase(&self) -> PhaseModel {
        match self.phase {
            Phase::AwaitingUsername => PhaseModel::AwaitingUsername,
            Phase::Active(n) => PhaseModel::Active(n@),
            Phase::Terminated => PhaseModel::Terminated,
        }
    }

    pub closed spec fn sink(&self) -> u64 {
        self.sink
    }

    /// Admits the connection whose outbound sink is `sink`, where the registry
    /// has room: the session then awaits a username and the reply is the
    /// prompt. Otherwise the session is over and the reply is the capacity
    /// notice.
    pub fn open(registry: &Registry, sink: u64) -> (r: (Session, Action))
        ensures
            r.0.sink() == sink,
            r.1.broadcast.is_none(),
            registry@.entries.len() < registry@.capacity ==> r.0.phase()
                == PhaseModel::AwaitingUsername && r.1.reply_view() == Some(prompt_notice()),
            registry@.entries.len() >= registry@.capacity ==> r.0.phase() == PhaseModel::Terminated
                && r.1.reply_view() == Some(capacity_notice(registry@.capacity)),
    {
        if registry.has_capacity() {
            (
                Session { phase: Phase::AwaitingUsername, sink },
                Action { reply: Some(username_prompt()), broadcast: None },
            )
        } else {
            (
                Session { phase: Phase::Terminated, sink },
                Action { reply: Some(room_full(registry.capacity() as u64)), broadcast: None },
            )
        }
    }

    /// The id of the connection's outbound sink.
    pub fn sink_id(&self) -> (r: u64)
        ensures
            r == self.sink(),
    {
        self.sink
    }

    /// Whether the session is over.
    pub fn is_terminated(&self) -> (r: bool)
        ensures
            r == (self.phase() == PhaseModel::Terminated),
    {
        match self.phase {
            Phase::Terminated => true,
            _ => false,
        }
    }

    /// The name the session is registered under, while it is active.
    pub fn username(&self) -> (r: Option<&Vec<u8>>)
        ensures
            match self.phase() {
                PhaseModel::Active(n) => r.is_some() && r.unwrap()@ == n,
                _ => r.is_none(),
            },
    {
        match &self.phase {
            Phase::Active(n) => Some(n),
            _ => None,
        }
    }

    /// Takes one event from the connection.
    ///
    /// Awaiting a username, a line is a join attempt: once joined the session
    /// is active and announces itself; a name in use is answered with the
    /// taken notice and the session keeps waiting; a full room ends it with the
    /// capacity notice. Active, each line is broadcast as a chat message.
    /// A closed stream ends the session; an active one leaves the registry and
    /// announces its departure. An ended session ignores every event.
    pub fn step(&mut self, registry: &mut Registry, event: Event) -> (r: Action)
        requires
            old(registry)@.wf(),
        ensures
            final(registry)@.wf(),
            final(self).sink() == old(self).sink(),
            match (old(self).phase(), event) {
                (PhaseModel::AwaitingUsername, Event::Line(l)) => {
                    &&& final(registry)@ == old(registry)@.after_join(l@, old(self).sink())
                    &&& match old(registry)@.join_outcome(l@) {
                        Ok(n) => final(self).phase() == PhaseModel::Active(n) && r.reply.is_none()
                            && r.broadcast_view() == Some(joined_notice(n)),
                        Err(JoinError::Taken) => final(self).phase() == PhaseModel::AwaitingUsername
                            && r.reply_view() == Some(taken_notice()) && r.broadcast.is_none(),
                        Err(JoinError::Full) => final(self).phase() == PhaseModel::Terminated
                            && r.reply_view() == Some(capacity_notice(old(registry)@.capacity))
                            && r.broadcast.is_none(),
                    }
                },
                (PhaseModel::AwaitingUsername, Event::Closed) => {
                    &&& final(registry)@ == old(registry)@
                    &&& final(self).phase() == PhaseModel::Terminated
                    &&& r.reply.is_none() && r.broadcast.is_none()
                },
                (PhaseModel::Active(n), Event::Line(l)) => {
                    &&& final(registry)@ == old(registry)@
                    &&& final(self).phase() == PhaseModel::Active(n)
                    &&& r.reply.is_none() && r.broadcast_view() == Some(chat_message(n, l@))
                },
                (PhaseModel::Active(n), Event::Closed) => {
                    &&& final(registry)@ == old(registry)@.after_leave(n)
                    &&& final(self).phase() == PhaseModel::Terminated
                    &&& r.reply.is_none() && r.broadcast_view() == Some(left_notice(n))
                },
                (PhaseModel::Terminated, _) => {
                    &&& final(registry)@ == old(registry)@
                    &&& final(self).phase() == PhaseModel::Terminated
                    &&& r.reply.is_none() && r.broadcast.is_none()
                },
            },
    {
        let (next, action) = match &self.phase {
            Phase::AwaitingUsername => match event {
                Event::Line(l) => match registry.try_join(l.as_slice(), self.sink) {
                    Ok(n) => {
                        let notice = joined(n.as_slice());
                        (Phase::Active(n), Action { reply: None, broadcast: Some(notice) })
                    },
                    Err(JoinError::Taken) => (
                        Phase::AwaitingUsername,
                        Action { reply: Some(username_taken()), broadcast: None },
                    ),
                    Err(JoinError::Full) => (
                        Phase::Terminated,
                        Action { reply: Some(room_full(registry.capacity() as u64)), broadcast: None },
                    ),
                },
                Event::Closed => (Phase::Terminated, Action { reply: None, broadcast: None }),
            },
            Phase::Active(n) => match event {
                Event::Line(l) => {
                    let m = format_chat(n.as_slice(), l.as_slice());
                    return Action { reply: None, broadcast: Some(m) };
                },
                Event::Closed => {
                    registry.unregister(n.as_slice());
                    (Phase::Terminated, Action { reply: None, broadcast: Some(left(n.as_slice())) })
                },
            },
            Phase::Terminated => {
                return Action { reply: None, broadcast: None };
            },
        };
        self.phase = next;
        action
    }
}

} // verus!
