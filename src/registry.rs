//! The client registry: usernames mapped to outbound sinks, unique and bounded.
//!
//! A sink is named by a connection id; whoever holds the registry behind its
//! lock also holds the writers those ids stand for.
use vstd::prelude::*;

use crate::protocol::{bytes_eq, default_name, push_slice, requested_name, requested_username, trim};

verus! {

/// Why a join attempt was refused.
#[derive(Clone, Copy, Debug, PartialEq, Eq, Structural)]
pub enum JoinError {
    /// Another client holds the requested name; the caller may ask again.
    Taken,
    /// The registry holds as many clients as it may.
    Full,
}

/// One registered client.
pub struct Entry {
    pub name: Vec<u8>,
    pub sink: u64,
}

/// What a registry holds: its entries in order of joining, and its capacity.
pub struct RegistryModel {
    pub entries: Seq<(Seq<u8>, u64)>,
    pub capacity: nat,
}

pub open spec fn has_name(e: Seq<(Seq<u8>, u64)>, n: Seq<u8>) -> bool {
    exists|i: int| 0 <= i < e.len() && #[trigger] e[i].0 == n
}

pub open spec fn unique_names(e: Seq<(Seq<u8>, u64)>) -> bool {
    forall|i: int, j: int| 0 <= i < e.len() && 0 <= j < e.len() && i != j ==> #[trigger] e[i].0 != #[trigger] e[j].0
}

/// `i` is the first position of `n` in `e`.
pub open spec fn first_at(e: Seq<(Seq<u8>, u64)>, n: Seq<u8>, i: int) -> bool {
    &&& 0 <= i < e.len()
    &&& e[i].0 == n
    &&& forall|k: int| 0 <= k < i ==> #[trigger] e[k].0 != n
}

impl RegistryModel {
    /// At most one entry per name, and no more entries than the capacity.
    pub open spec fn wf(self) -> bool {
        &&& unique_names(self.entries)
        &&& self.entries.len() <= self.capacity
    }

    pub open spec fn contains(self, n: Seq<u8>) -> bool {
        has_name(self.entries, n)
    }

    /// The answer to a join attempt with the submitted line `line`.
    pub open spec fn join_outcome(self, line: Seq<u8>) -> Result<Seq<u8>, JoinError> {
        let n = requested_name(line);
        if self.contains(n) {
            Err(JoinError::Taken)
        } else if self.entries.len() >= self.capacity {
            Err(JoinError::Full)
        } else {
            Ok(n)
        }
    }

    /// The registry after a join attempt with `line` for `sink`.
    pub open spec fn after_join(self, line: Seq<u8>, sink: u64) -> RegistryModel {
        match self.join_outcome(line) {
            Ok(n) => RegistryModel { entries: self.entries.push((n, sink)), capacity: self.capacity },
            Err(_) => self,
        }
    }

    /// The registry after the client named `n` leaves.
    pub open spec fn after_leave(self, n: Seq<u8>) -> RegistryModel {
        if self.contains(n) {
            let i = choose|i: int| first_at(self.entries, n, i);
            RegistryModel { entries: self.entries.remove(i), capacity: self.capacity }
        } else {
            self
        }
    }

    /// The sinks a broadcast reaches, in order of joining.
    pub open spec fn sinks(self) -> Seq<u64> {
        self.entries.map_values(|p: (Seq<u8>, u64)| p.1)
    }
}

/// What a join attempt returns, seen as plain values.
pub open spec fn join_view(r: Result<Vec<u8>, JoinError>) -> Result<Seq<u8>, JoinError> {
    match r {
        Ok(n) => Ok(n@),
        Err(e) => Err(e),
    }
}

/// A join keeps the registry well formed.
pub proof fn lemma_join_wf(m: RegistryModel, line: Seq<u8>, sink: u64)
    requires
        m.wf(),
    ensures
        m.after_join(line, sink).wf(),
{
    if let Ok(n) = m.join_outcome(line) {
        let e2 = m.entries.push((n, sink));
        assert forall|i: int, j: int| 0 <= i < e2.len() && 0 <= j < e2.len() && i != j implies #[trigger] e2[i].0
            != #[trigger] e2[j].0 by {
            if i == m.entries.len() {
                assert(e2[j] == m.entries[j]);
            } else if j == m.entries.len() {
                assert(e2[i] == m.entries[i]);
            }
        }
    }
}

/// A departure keeps the registry well formed and frees the name.
pub proof fn lemma_leave_wf(m: RegistryModel, n: Seq<u8>)
    requires
        m.wf(),
    ensures
        m.after_leave(n).wf(),
        !m.after_leave(n).contains(n),
        forall|x: Seq<u8>| x != n ==> (m.after_leave(n).contains(x) == m.contains(x)),
        m.contains(n) ==> m.after_leave(n).entries.len() + 1 == m.entries.len(),
{
    if m.contains(n) {
        let k = choose|k: int| 0 <= k < m.entries.len() && #[trigger] m.entries[k].0 == n;
        lemma_first_exists(m.entries, n, k);
        let i = choose|i: int| first_at(m.entries, n, i);
        let e2 = m.entries.remove(i);
        assert forall|a: int, b: int| 0 <= a < e2.len() && 0 <= b < e2.len() && a != b implies #[trigger] e2[a].0
            != #[trigger] e2[b].0 by {
            let a2 = if a < i { a } else { a + 1 };
            let b2 = if b < i { b } else { b + 1 };
            assert(e2[a] == m.entries[a2]);
            assert(e2[b] == m.entries[b2]);
        }
        assert forall|x: Seq<u8>| x != n implies (has_name(e2, x) == has_name(m.entries, x)) by {
            if has_name(m.entries, x) {
                let j = choose|j: int| 0 <= j < m.entries.len() && #[trigger] m.entries[j].0 == x;
                let j2 = if j < i { j } else { j - 1 };
                assert(e2[j2].0 == x);
            }
            if has_name(e2, x) {
                let j = choose|j: int| 0 <= j < e2.len() && #[trigger] e2[j].0 == x;
                let j2 = if j < i { j } else { j + 1 };
                assert(m.entries[j2].0 == x);
            }
        }
        if has_name(e2, n) {
            let j = choose|j: int| 0 <= j < e2.len() && #[trigger] e2[j].0 == n;
            let j2 = if j < i { j } else { j + 1 };
            assert(m.entries[j2].0 == n);
        }
    }
}

/// Where `n` occurs in `e`, it has a first position.
proof fn lemma_first_exists(e: Seq<(Seq<u8>, u64)>, n: Seq<u8>, k: int)
    requires
        0 <= k < e.len(),
        e[k].0 == n,
    ensures
        exists|i: int| first_at(e, n, i),
    decreases k,
{
    if exists|j: int| 0 <= j < k && #[trigger] e[j].0 == n {
        let j = choose|j: int| 0 <= j < k && #[trigger] e[j].0 == n;
        lemma_first_exists(e, n, j);
    } else {
        assert(first_at(e, n, k));
    }
}

/// One change made to a registry.
pub enum RegistryOp {
    /// A join attempt with a submitted line, for a sink.
    Join(Seq<u8>, u64),
    /// The departure of the client with this name.
    Leave(Seq<u8>),
}

impl RegistryModel {
    pub open spec fn apply(self, op: RegistryOp) -> RegistryModel {
        match op {
            RegistryOp::Join(line, sink) => self.after_join(line, sink),
            RegistryOp::Leave(n) => self.after_leave(n),
        }
    }

    /// The registry after `ops`, in order.
    pub open spec fn run(self, ops: Seq<RegistryOp>) -> RegistryModel
        decreases ops.len(),
    {
        if ops.len() == 0 {
            self
        } else {
            self.apply(ops[0]).run(ops.drop_first())
        }
    }
}

/// However joins and departures follow one another, the registry never holds
/// two entries with one name, nor more entries than its capacity.
pub proof fn lemma_registry_stays_sound(m: RegistryModel, ops: Seq<RegistryOp>)
    requires
        m.wf(),
    ensures
        m.run(ops).wf(),
        m.run(ops).capacity == m.capacity,
        m.run(ops).entries.len() <= m.capacity,
    decreases ops.len(),
{
    if ops.len() > 0 {
        match ops[0] {
            RegistryOp::Join(line, sink) => lemma_join_wf(m, line, sink),
            RegistryOp::Leave(n) => lemma_leave_wf(m, n),
        }
        lemma_registry_stays_sound(m.apply(ops[0]), ops.drop_first());
    }
}

/// A name once held stays held, and every join attempt that asks for it is
/// refused as taken, until its holder leaves.
pub proof fn lemma_name_held_until_left(m: RegistryModel, n: Seq<u8>, ops: Seq<RegistryOp>)
    requires
        m.wf(),
        m.contains(n),
        forall|k: int| 0 <= k < ops.len() ==> #[trigger] ops[k] != RegistryOp::Leave(n),
    ensures
        m.run(ops).contains(n),
        forall|k: int|
            0 <= k < ops.len() && #[trigger] ops[k] is Join && requested_name(ops[k]->Join_0) == n
                ==> m.run(ops.take(k)).join_outcome(ops[k]->Join_0) == Err::<Seq<u8>, JoinError>(JoinError::Taken),
    decreases ops.len(),
{
    if ops.len() > 0 {
        let m1 = m.apply(ops[0]);
        let rest = ops.drop_first();
        match ops[0] {
            RegistryOp::Join(line, sink) => {
                lemma_join_wf(m, line, sink);
                if let Ok(x) = m.join_outcome(line) {
                    assert(m1.entries[m.entries.len() as int] == (x, sink));
                    let i = choose|i: int| 0 <= i < m.entries.len() && #[trigger] m.entries[i].0 == n;
                    assert(m1.entries[i] == m.entries[i]);
                }
            },
            RegistryOp::Leave(x) => {
                assert(ops[0] != RegistryOp::Leave(n));
                lemma_leave_wf(m, x);
            },
        }
        assert forall|k: int| 0 <= k < rest.len() implies #[trigger] rest[k] != RegistryOp::Leave(n) by {
            assert(rest[k] == ops[k + 1]);
        }
        lemma_name_held_until_left(m1, n, rest);
        assert forall|k: int|
            0 <= k < ops.len() && #[trigger] ops[k] is Join && requested_name(ops[k]->Join_0) == n
                implies m.run(ops.take(k)).join_outcome(ops[k]->Join_0) == Err::<Seq<u8>, JoinError>(JoinError::Taken) by {
            if k == 0 {
                assert(ops.take(0) =~= Seq::<RegistryOp>::empty());
            } else {
                assert(ops.take(k).drop_first() =~= rest.take(k - 1));
                assert(ops.take(k)[0] == ops[0]);
                assert(rest[k - 1] == ops[k]);
            }
        }
    }
}

/// Once its holder leaves, a name can be had again.
pub proof fn lemma_leave_frees_name(m: RegistryModel, n: Seq<u8>, line: Seq<u8>)
    requires
        m.wf(),
        m.contains(n),
        requested_name(line) == n,
    ensures
        m.after_leave(n).join_outcome(line) == Ok::<Seq<u8>, JoinError>(n),
{
    lemma_leave_wf(m, n);
}

/// An empty submitted line always asks for the default name, whatever the
/// registry holds; it is refused only while another client holds that name or
/// the room is full.
pub proof fn lemma_empty_line_asks_default(m: RegistryModel, line: Seq<u8>)
    requires
        trim(line).len() == 0,
    ensures
        requested_name(line) == default_name(),
        m.join_outcome(line) is Ok ==> m.join_outcome(line) == Ok::<Seq<u8>, JoinError>(default_name()),
        m.join_outcome(line) == Err::<Seq<u8>, JoinError>(JoinError::Taken) ==> m.contains(default_name()),
        m.join_outcome(line) == Err::<Seq<u8>, JoinError>(JoinError::Full) ==> m.entries.len() >= m.capacity,
{
}

/// The registry of connected clients.
pub struct Registry {
    entries: Vec<Entry>,
    capacity: usize,
}

impl View for Registry {
    type V = RegistryModel;

    closed spec fn view(&self) -> RegistryModel {
        RegistryModel {
            entries: self.entries@.map_values(|e: Entry| (e.name@, e.sink)),
            capacity: self.capacity as nat,
        }
    }
}

impl Registry {
    /// An empty registry that holds at most `capacity` clients.
    pub fn new(capacity: usize) -> (r: Registry)
        ensures
            r@.entries == Seq::<(Seq<u8>, u64)>::empty(),
            r@.capacity == capacity,
            r@.wf(),
    {
        let r = Registry { entries: Vec::new(), capacity };
        assert(r@.entries =~= Seq::<(Seq<u8>, u64)>::empty());
        r
    }

    /// Number of registered clients.
    pub fn len(&self) -> (r: usize)
        ensures
            r == self@.entries.len(),
    {
        self.entries.len()
    }

    /// Largest number of clients the registry holds.
    pub fn capacity(&self) -> (r: usize)
        ensures
            r == self@.capacity,
    {
        self.capacity
    }

    /// Whether one more client may join.
    pub fn has_capacity(&self) -> (r: bool)
        ensures
            r == (self@.entries.len() < self@.capacity),
    {
        self.entries.len() < self.capacity
    }

    /// Where `name` is registered, its position.
    fn find(&self, name: &[u8]) -> (r: Option<usize>)
        ensures
            match r {
                Some(i) => first_at(self@.entries, name@, i as int),
                None => !self@.contains(name@),
            },
    {
        let mut i: usize = 0;
        while i < self.entries.len()
            invariant
                i <= self.entries@.len(),
                forall|k: int| 0 <= k < i ==> #[trigger] self@.entries[k].0 != name@,
            decreases self.entries@.len() - i,
        {
            if bytes_eq(self.entries[i].name.as_slice(), name) {
                return Some(i);
            }
            i = i + 1;
        }
        None
    }

    /// Whether a client named `name` is registered.
    pub fn contains(&self, name: &[u8]) -> (r: bool)
        ensures
            r == self@.contains(name@),
    {
        self.find(name).is_some()
    }

    /// Registers the username that `line` asks for, with `sink`, unless another
    /// client holds it or the registry is full; the check and the insertion
    /// are one step. Returns the name registered.
    pub fn try_join(&mut self, line: &[u8], sink: u64) -> (r: Result<Vec<u8>, JoinError>)
        requires
            old(self)@.wf(),
        ensures
            join_view(r) == old(self)@.join_outcome(line@),
            final(self)@ == old(self)@.after_join(line@, sink),
            final(self)@.wf(),
    {
        proof {
            lemma_join_wf(self@, line@, sink);
        }
        let name = requested_username(line);
        if self.contains(name.as_slice()) {
            return Err(JoinError::Taken);
        }
        if self.entries.len() >= self.capacity {
            return Err(JoinError::Full);
        }
        let mut stored: Vec<u8> = Vec::new();
        push_slice(&mut stored, name.as_slice());
        self.entries.push(Entry { name: stored, sink });
        assert(self@.entries =~= old(self)@.entries.push((name@, sink)));
        Ok(name)
    }

    /// Removes the client named `name`; nothing happens where none is.
    pub fn unregister(&mut self, name: &[u8])
        requires
            old(self)@.wf(),
        ensures
            final(self)@ == old(self)@.after_leave(name@),
            final(self)@.wf(),
    {
        proof {
            lemma_leave_wf(self@, name@);
        }
        match self.find(name) {
            Some(i) => {
                self.entries.remove(i);
                assert(self@.entries =~= old(self)@.entries.remove(i as int));
            },
            None => {},
        }
    }

    /// The sinks a broadcast reaches, in order of joining.
    pub fn sinks(&self) -> (r: Vec<u64>)
        ensures
            r@ == self@.sinks(),
    {
        let mut r: Vec<u64> = Vec::new();
        let mut i: usize = 0;
        while i < self.entries.len()
            invariant
                i <= self.entries@.len(),
                r@ == self@.sinks().take(i as int),
            decreases self.entries@.len() - i,
        {
            r.push(self.entries[i].sink);
            i = i + 1;
            assert(r@ =~= self@.sinks().take(i as int));
        }
        assert(r@ =~= self@.sinks());
        r
    }
}

} // verus!
