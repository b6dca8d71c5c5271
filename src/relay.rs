//! The broadcast relay: one FIFO queue of messages, drained by a single
//! consumer that hands each message to every sink registered at that moment.
use vstd::prelude::*;

use std::collections::VecDeque;

use crate::registry::Registry;

verus! {

/// A message and the sinks it is to be written to.
pub struct Delivery {
    pub message: Vec<u8>,
    pub sinks: Vec<u64>,
}

/// The writes that broadcasting `m` to `sinks` makes, in order.
pub open spec fn fanout(sinks: Seq<u64>, m: Seq<u8>) -> Seq<(u64, Seq<u8>)> {
    sinks.map_values(|s: u64| (s, m))
}

/// The writes made by draining `q` while `sinks` are registered.
pub open spec fn relay_run(q: Seq<Seq<u8>>, sinks: Seq<u64>) -> Seq<(u64, Seq<u8>)>
    decreases q.len(),
{
    if q.len() == 0 {
        Seq::empty()
    } else {
        fanout(sinks, q[0]) + relay_run(q.drop_first(), sinks)
    }
}

/// The messages that `writes` deliver to sink `s`, in order.
pub open spec fn received(writes: Seq<(u64, Seq<u8>)>, s: u64) -> Seq<Seq<u8>>
    decreases writes.len(),
{
    if writes.len() == 0 {
        Seq::empty()
    } else if writes[0].0 == s {
        seq![writes[0].1] + received(writes.drop_first(), s)
    } else {
        received(writes.drop_first(), s)
    }
}

/// The number of positions of `s` in `sinks`.
pub open spec fn occurrences(sinks: Seq<u64>, s: u64) -> nat
    decreases sinks.len(),
{
    if sinks.len() == 0 {
        0
    } else {
        (if sinks[0] == s { 1nat } else { 0nat }) + occurrences(sinks.drop_first(), s)
    }
}

proof fn lemma_received_append(a: Seq<(u64, Seq<u8>)>, b: Seq<(u64, Seq<u8>)>, s: u64)
    ensures
        received(a + b, s) == received(a, s) + received(b, s),
    decreases a.len(),
{
    if a.len() == 0 {
        assert(a + b =~= b);
        assert(received(a, s) + received(b, s) =~= received(b, s));
    } else {
        assert((a + b).drop_first() =~= a.drop_first() + b);
        lemma_received_append(a.drop_first(), b, s);
        if a[0].0 == s {
            assert(seq![a[0].1] + (received(a.drop_first(), s) + received(b, s)) =~= seq![a[0].1]
                + received(a.drop_first(), s) + received(b, s));
        }
    }
}

proof fn lemma_received_fanout(sinks: Seq<u64>, m: Seq<u8>, s: u64)
    ensures
        received(fanout(sinks, m), s) == Seq::new(occurrences(sinks, s), |i: int| m),
    decreases sinks.len(),
{
    if sinks.len() == 0 {
        assert(received(fanout(sinks, m), s) =~= Seq::new(0, |i: int| m));
    } else {
        assert(fanout(sinks, m).drop_first() =~= fanout(sinks.drop_first(), m));
        lemma_received_fanout(sinks.drop_first(), m, s);
        if sinks[0] == s {
            assert(seq![m] + Seq::new(occurrences(sinks.drop_first(), s), |i: int| m) =~= Seq::new(
                occurrences(sinks, s),
                |i: int| m,
            ));
        }
    }
}

/// The relay keeps order: a sink registered once receives the queued messages
/// in the order they were enqueued, each exactly once.
pub proof fn lemma_relay_keeps_order(q: Seq<Seq<u8>>, sinks: Seq<u64>, s: u64)
    requires
        occurrences(sinks, s) == 1,
    ensures
        received(relay_run(q, sinks), s) == q,
    decreases q.len(),
{
    if q.len() > 0 {
        lemma_received_append(fanout(sinks, q[0]), relay_run(q.drop_first(), sinks), s);
        lemma_received_fanout(sinks, q[0], s);
        lemma_relay_keeps_order(q.drop_first(), sinks, s);
        assert(Seq::new(1, |i: int| q[0]) + q.drop_first() =~= q);
    } else {
        assert(received(relay_run(q, sinks), s) =~= q);
    }
}

/// The queue of messages waiting to be broadcast.
pub struct Relay {
    queue: VecDeque<Vec<u8>>,
}

impl View for Relay {
    type V = Seq<Seq<u8>>;

    closed spec fn view(&self) -> Seq<Seq<u8>> {
        self.queue@.map_values(|m: Vec<u8>| m@)
    }
}

impl Relay {
    /// An empty relay.
    pub fn new() -> (r: Relay)
        ensures
            r@ == Seq::<Seq<u8>>::empty(),
    {
        let r = Relay { queue: VecDeque::new() };
        assert(r@ =~= Seq::<Seq<u8>>::empty());
        r
    }

    /// Number of messages waiting.
    pub fn len(&self) -> (r: usize)
        ensures
            r == self@.len(),
    {
        self.queue.len()
    }

    /// Whether no message is waiting.
    pub fn is_empty(&self) -> (r: bool)
        ensures
            r == (self@.len() == 0),
    {
        self.queue.len() == 0
    }

    /// Puts `message` at the back of the queue.
    pub fn enqueue(&mut self, message: Vec<u8>)
        ensures
            final(self)@ == old(self)@.push(message@),
    {
        self.queue.push_back(message);
        assert(self@ =~= old(self)@.push(message@));
    }

    /// Takes the message at the front of the queue.
    pub fn next(&mut self) -> (r: Option<Vec<u8>>)
        ensures
            old(self)@.len() == 0 ==> r.is_none() && final(self)@ == old(self)@,
            old(self)@.len() > 0 ==> r.is_some() && r.unwrap()@ == old(self)@[0] && final(self)@
                == old(self)@.drop_first(),
    {
        let r = self.queue.pop_front();
        assert(old(self)@.len() > 0 ==> self@ =~= old(self)@.drop_first());
        r
    }

    /// Takes the message at the front of the queue and pairs it with the sinks
    /// that `registry` holds now, in order of joining.
    pub fn deliver_next(&mut self, registry: &Registry) -> (r: Option<Delivery>)
        ensures
            old(self)@.len() == 0 ==> r.is_none() && final(self)@ == old(self)@,
            old(self)@.len() > 0 ==> r.is_some() && final(self)@ == old(self)@.drop_first()
                && r.unwrap().message@ == old(self)@[0] && r.unwrap().sinks@ == registry@.sinks(),
    {
        match self.next() {
            Some(message) => {
                let sinks = registry.sinks();
                Some(Delivery { message, sinks })
            },
            None => None,
        }
    }
}

} // verus!
