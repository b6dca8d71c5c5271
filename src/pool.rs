//! The job queue shared by a fixed pool of workers: jobs in order of
//! submission, then one shutdown sentinel per worker.
use vstd::prelude::*;

use std::collections::VecDeque;

verus! {

/// What a worker takes from the queue.
pub enum Message<J> {
    /// Run this job, then take the next message.
    NewJob(J),
    /// Stop.
    Terminate,
}

/// `n` shutdown sentinels.
pub open spec fn sentinels<J>(n: nat) -> Seq<Message<J>> {
    Seq::new(n, |i: int| Message::Terminate)
}

/// The queue from which the workers of a pool take their work.
pub struct JobQueue<J> {
    queue: VecDeque<Message<J>>,
    workers: usize,
    closed: bool,
}

impl<J> JobQueue<J> {
    /// The messages waiting, front first.
    pub closed spec fn messages(&self) -> Seq<Message<J>> {
        self.queue@
    }

    /// Number of workers the pool runs.
    pub closed spec fn worker_count(&self) -> nat {
        self.workers as nat
    }

    /// Whether shutdown has begun.
    pub closed spec fn is_closed(&self) -> bool {
        self.closed
    }

    /// At least one worker; before shutdown only jobs wait.
    pub open spec fn wf(&self) -> bool {
        &&& self.worker_count() >= 1
        &&& !self.is_closed() ==> forall|i: int|
            0 <= i < self.messages().len() ==> #[trigger] self.messages()[i] is NewJob
    }

    /// A queue for a pool of `workers` workers.
    pub fn new(workers: usize) -> (r: JobQueue<J>)
        requires
            workers >= 1,
        ensures
            r.wf(),
            r.messages() == Seq::<Message<J>>::empty(),
            r.worker_count() == workers,
            !r.is_closed(),
    {
        JobQueue { queue: VecDeque::new(), workers, closed: false }
    }

    /// Number of workers.
    pub fn workers(&self) -> (r: usize)
        ensures
            r == self.worker_count(),
    {
        self.workers
    }

    /// Whether shutdown has begun.
    pub fn closed(&self) -> (r: bool)
        ensures
            r == self.is_closed(),
    {
        self.closed
    }

    /// Number of messages waiting.
    pub fn len(&self) -> (r: usize)
        ensures
            r == self.messages().len(),
    {
        self.queue.len()
    }

    /// Queues `job` behind the jobs already submitted.
    pub fn submit(&mut self, job: J)
        requires
            old(self).wf(),
            !old(self).is_closed(),
        ensures
            final(self).wf(),
            final(self).messages() == old(self).messages().push(Message::NewJob(job)),
            final(self).worker_count() == old(self).worker_count(),
            !final(self).is_closed(),
    {
        self.queue.push_back(Message::NewJob(job));
    }

    /// Begins shutdown: queues one sentinel per worker behind the jobs waiting.
    /// Every job submitted before is taken before any sentinel, and each
    /// worker stops at the one it takes.
    pub fn shutdown(&mut self)
        requires
            old(self).wf(),
            !old(self).is_closed(),
        ensures
            final(self).wf(),
            final(self).messages() == old(self).messages() + sentinels::<J>(old(self).worker_count()),
            final(self).worker_count() == old(self).worker_count(),
            final(self).is_closed(),
    {
        let n = self.workers;
        let mut i: usize = 0;
        while i < n
            invariant
                n == self.workers,
                i <= n,
                self.queue@ == old(self).messages() + sentinels::<J>(i as nat),
            decreases n - i,
        {
            self.queue.push_back(Message::Terminate);
            i = i + 1;
            assert(self.queue@ =~= old(self).messages() + sentinels::<J>(i as nat));
        }
        self.closed = true;
    }

    /// Takes the message at the front, where there is one.
    pub fn take(&mut self) -> (r: Option<Message<J>>)
        requires
            old(self).wf(),
        ensures
            final(self).wf(),
            final(self).worker_count() == old(self).worker_count(),
            final(self).is_closed() == old(self).is_closed(),
            old(self).messages().len() == 0 ==> r.is_none() && final(self).messages() == old(
                self,
            ).messages(),
            old(self).messages().len() > 0 ==> r == Some(old(self).messages()[0])
                && final(self).messages() == old(self).messages().drop_first(),
    {
        let r = self.queue.pop_front();
        proof {
            if old(self).messages().len() > 0 {
                assert forall|i: int| 0 <= i < self.messages().len() implies self.messages()[i]
                    == old(self).messages()[i + 1] by {}
            }
        }
        r
    }
}

} // verus!
