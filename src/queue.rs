use vstd::prelude::*;
use std::collections::VecDeque;

verus! {

/// What a worker gets when it asks the queue for work.
pub enum Claim<J> {
    /// The oldest job not yet handed out; it is now the worker's alone.
    Run(J),
    /// Nothing is queued but more may come: wait and ask again.
    Wait,
    /// The queue is closed and empty: the worker ends.
    Stop,
}

/// The queue of jobs shared by a pool's workers. Jobs leave in the order they
/// came, each one once; after `close` no job comes in and, once the rest are
/// handed out, every worker is told to stop.
pub struct JobQueue<J> {
    pending: VecDeque<J>,
    closed: bool,
    history: Ghost<Seq<J>>,
    claimed: Ghost<nat>,
}

impl<J> JobQueue<J> {
    /// Jobs submitted and not yet handed out, oldest first.
    pub closed spec fn pending(&self) -> Seq<J> {
        self.pending@
    }

    /// Every job ever submitted, in order.
    pub closed spec fn history(&self) -> Seq<J> {
        self.history@
    }

    /// How many jobs have been handed out.
    pub closed spec fn claimed(&self) -> nat {
        self.claimed@
    }

    pub closed spec fn spec_closed(&self) -> bool {
        self.closed
    }

    /// The jobs still queued are exactly those submitted after the ones handed out.
    pub closed spec fn wf(&self) -> bool {
        &&& self.claimed@ <= self.history@.len()
        &&& self.pending@ == self.history@.skip(self.claimed@ as int)
    }

    /// An open, empty queue.
    pub fn new() -> (r: Self)
        ensures
            r.wf(),
            r.history() == Seq::<J>::empty(),
            r.claimed() == 0,
            !r.spec_closed(),
    {
        let r = JobQueue {
            pending: VecDeque::new(),
            closed: false,
            history: Ghost(Seq::empty()),
            claimed: Ghost(0),
        };
        assert(r.pending@ =~= r.history@.skip(0));
        r
    }

    /// Enqueues a job behind those already waiting.
    pub fn submit(&mut self, job: J)
        requires
            old(self).wf(),
            !old(self).spec_closed(),
        ensures
            final(self).wf(),
            final(self).history() == old(self).history().push(job),
            final(self).pending() == old(self).pending().push(job),
            final(self).claimed() == old(self).claimed(),
            !final(self).spec_closed(),
    {
        self.pending.push_back(job);
        self.history = Ghost(self.history@.push(job));
        assert(self.pending@ =~= self.history@.skip(self.claimed@ as int));
    }

    /// Hands out the oldest waiting job; where none waits, says whether to
    /// wait for more or to stop.
    pub fn claim(&mut self) -> (r: Claim<J>)
        requires
            old(self).wf(),
        ensures
            final(self).wf(),
            final(self).history() == old(self).history(),
            final(self).spec_closed() == old(self).spec_closed(),
            match r {
                Claim::Run(job) => {
                    &&& old(self).pending().len() > 0
                    &&& job == old(self).pending()[0]
                    &&& job == old(self).history()[old(self).claimed() as int]
                    &&& final(self).pending() == old(self).pending().drop_first()
                    &&& final(self).claimed() == old(self).claimed() + 1
                },
                Claim::Wait => {
                    &&& old(self).pending().len() == 0
                    &&& !old(self).spec_closed()
                    &&& final(self).pending() == old(self).pending()
                    &&& final(self).claimed() == old(self).claimed()
                },
                Claim::Stop => {
                    &&& old(self).pending().len() == 0
                    &&& old(self).spec_closed()
                    &&& final(self).pending() == old(self).pending()
                    &&& final(self).claimed() == old(self).claimed()
                },
            },
    {
        match self.pending.pop_front() {
            Some(job) => {
                self.claimed = Ghost(self.claimed@ + 1);
                assert(self.pending@ =~= self.history@.skip(self.claimed@ as int));
                Claim::Run(job)
            },
            None => if self.closed {
                Claim::Stop
            } else {
                Claim::Wait
            },
        }
    }

    /// Refuses further jobs; those already queued are still handed out.
    pub fn close(&mut self)
        requires
            old(self).wf(),
        ensures
            final(self).wf(),
            final(self).spec_closed(),
            final(self).history() == old(self).history(),
            final(self).pending() == old(self).pending(),
            final(self).claimed() == old(self).claimed(),
    {
        self.closed = true;
    }

    pub fn is_closed(&self) -> (r: bool)
        ensures
            r == self.spec_closed(),
    {
        self.closed
    }

    /// How many jobs wait to be handed out.
    pub fn len(&self) -> (r: usize)
        ensures
            r == self.pending().len(),
    {
        self.pending.len()
    }

    /// Every job submitted is either handed out already or still queued, never
    /// both, and the queued ones are the latest, in the order they came.
    pub proof fn lemma_each_job_once(&self)
        requires
            self.wf(),
        ensures
            self.claimed() + self.pending().len() == self.history().len(),
            forall|i: int|
                0 <= i < self.pending().len() ==> #[trigger] self.pending()[i] == self.history()[self.claimed() + i],
    {
    }

    /// Once a worker is told to stop, every job ever submitted has been handed
    /// out: none is dropped.
    pub proof fn lemma_stop_after_all(&self)
        requires
            self.wf(),
            self.spec_closed(),
            self.pending().len() == 0,
        ensures
            self.claimed() == self.history().len(),
    {
    }
}

} // verus!
