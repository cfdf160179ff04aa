//! The job queue that the workers of a thread pool share: what a submission,
//! a claim and the closing of the queue do, and the record of which jobs were
//! submitted and which were claimed.

use vstd::prelude::*;
use std::collections::VecDeque;

verus! {

/// What a worker gets when it asks for a job.
#[derive(Clone, Debug, PartialEq)]
pub enum Claim<J> {
    /// A job, now the worker's own.
    Job(J),
    /// No job is waiting and the queue is open: the worker waits and asks again.
    Wait,
    /// No job is waiting and the queue is closed: the worker ends.
    Exit,
}

/// A queue as its contents: the jobs that wait, oldest first, whether the
/// queue is open, and every job ever submitted and ever claimed, in order.
pub struct QueueView<J> {
    pub pending: Seq<J>,
    pub open: bool,
    pub submitted: Seq<J>,
    pub claimed: Seq<J>,
}

impl<J> QueueView<J> {
    /// The queue's invariant: the jobs submitted are those claimed, in the
    /// order of their submission, followed by those that wait.
    pub open spec fn wf(self) -> bool {
        self.submitted == self.claimed + self.pending
    }

    /// A submission: the job becomes the last to wait. A closed queue takes
    /// no job and stays as it is.
    pub open spec fn submit(self, job: J) -> QueueView<J> {
        if self.open {
            QueueView {
                pending: self.pending.push(job),
                open: true,
                submitted: self.submitted.push(job),
                claimed: self.claimed,
            }
        } else {
            self
        }
    }

    /// A claim: the queue afterwards, and what the worker gets. The oldest
    /// waiting job leaves the queue for the worker.
    pub open spec fn claim(self) -> (QueueView<J>, Claim<J>) {
        if self.pending.len() > 0 {
            (
                QueueView {
                    pending: self.pending.drop_first(),
                    open: self.open,
                    submitted: self.submitted,
                    claimed: self.claimed.push(self.pending[0]),
                },
                Claim::Job(self.pending[0]),
            )
        } else if self.open {
            (self, Claim::Wait)
        } else {
            (self, Claim::Exit)
        }
    }

    /// The closing of the queue: the jobs that wait stay.
    pub open spec fn close(self) -> QueueView<J> {
        QueueView {
            pending: self.pending,
            open: false,
            submitted: self.submitted,
            claimed: self.claimed,
        }
    }

    /// The queue after `count` claims.
    pub open spec fn drain(self, count: nat) -> QueueView<J>
        decreases count,
    {
        if count == 0 {
            self
        } else {
            self.claim().0.drain((count - 1) as nat)
        }
    }
}

/// One call on a queue.
pub enum QueueCall<J> {
    Submit(J),
    Claim,
    Close,
}

/// The queue after a sequence of calls.
pub open spec fn after_calls<J>(queue: QueueView<J>, calls: Seq<QueueCall<J>>) -> QueueView<J>
    decreases calls.len(),
{
    if calls.len() == 0 {
        queue
    } else {
        let before = after_calls(queue, calls.drop_last());
        match calls.last() {
            QueueCall::Submit(job) => before.submit(job),
            QueueCall::Claim => before.claim().0,
            QueueCall::Close => before.close(),
        }
    }
}

/// Whatever the workers and the submitters do, and in whatever order, each
/// job submitted has been claimed once or still waits: the jobs claimed,
/// followed by those that wait, are the jobs submitted.
pub proof fn lemma_each_job_once<J>(queue: QueueView<J>, calls: Seq<QueueCall<J>>)
    requires
        queue.wf(),
    ensures
        after_calls(queue, calls).wf(),
    decreases calls.len(),
{
    if calls.len() > 0 {
        lemma_each_job_once(queue, calls.drop_last());
        let before = after_calls(queue, calls.drop_last());
        match calls.last() {
            QueueCall::Submit(job) => {
                assert(before.submit(job).submitted =~= before.submit(job).claimed
                    + before.submit(job).pending);
            },
            QueueCall::Claim => {
                assert(before.claim().0.submitted =~= before.claim().0.claimed
                    + before.claim().0.pending);
            },
            QueueCall::Close => {},
        }
    }
}

/// A claim hands out the oldest waiting job and takes it from the queue, so
/// that no later claim hands it out again.
pub proof fn lemma_claim_takes_job<J>(queue: QueueView<J>)
    requires
        queue.pending.len() > 0,
    ensures
        queue.claim().1 == Claim::Job(queue.pending[0]),
        queue.claim().0.pending == queue.pending.drop_first(),
        queue.claim().0.pending.len() == queue.pending.len() - 1,
{
}

/// A worker is told to end only when every job submitted has been claimed.
pub proof fn lemma_exit_after_all_jobs<J>(queue: QueueView<J>)
    requires
        queue.wf(),
        queue.claim().1 is Exit,
    ensures
        !queue.open,
        queue.pending.len() == 0,
        queue.claimed == queue.submitted,
{
    assert(queue.claimed + queue.pending =~= queue.claimed);
}

/// The jobs that wait when the queue is closed are still handed out: as many
/// claims as jobs wait get them all, in their order, and only the claim after
/// these tells the worker to end.
pub proof fn lemma_closed_queue_drains<J>(queue: QueueView<J>)
    requires
        queue.wf(),
    ensures
        queue.close().drain(queue.pending.len()).pending.len() == 0,
        queue.close().drain(queue.pending.len()).claimed == queue.submitted,
        queue.close().drain(queue.pending.len()).claim().1 is Exit,
{
    lemma_drain(queue.close(), queue.pending.len());
    assert(queue.pending.take(queue.pending.len() as int) =~= queue.pending);
}

/// The first `count` claims hand out the first `count` waiting jobs.
pub proof fn lemma_drain<J>(queue: QueueView<J>, count: nat)
    requires
        count <= queue.pending.len(),
    ensures
        queue.drain(count).pending == queue.pending.skip(count as int),
        queue.drain(count).claimed == queue.claimed + queue.pending.take(count as int),
        queue.drain(count).open == queue.open,
        queue.drain(count).submitted == queue.submitted,
    decreases count,
{
    if count == 0 {
        assert(queue.pending.skip(0) =~= queue.pending);
        assert(queue.claimed + queue.pending.take(0) =~= queue.claimed);
    } else {
        let next = queue.claim().0;
        lemma_drain(next, (count - 1) as nat);
        assert(next.pending.skip(count - 1) =~= queue.pending.skip(count as int));
        assert(next.claimed + next.pending.take(count - 1) =~= queue.claimed + queue.pending.take(
            count as int,
        ));
    }
}

/// The queue of jobs that the workers of a thread pool share.
pub struct JobQueue<J> {
    pending: VecDeque<J>,
    open: bool,
    submitted: Ghost<Seq<J>>,
    claimed: Ghost<Seq<J>>,
}

impl<J> JobQueue<J> {
    /// The queue's contents.
    pub closed spec fn view(&self) -> QueueView<J> {
        QueueView {
            pending: self.pending@,
            open: self.open,
            submitted: self.submitted@,
            claimed: self.claimed@,
        }
    }

    /// The queue's invariant.
    pub open spec fn wf(&self) -> bool {
        self@.wf()
    }

    /// An open queue without jobs.
    pub fn new() -> (queue: Self)
        ensures
            queue.wf(),
            queue@.open,
            queue@.pending == Seq::<J>::empty(),
            queue@.submitted == Seq::<J>::empty(),
            queue@.claimed == Seq::<J>::empty(),
    {
        let queue = JobQueue {
            pending: VecDeque::new(),
            open: true,
            submitted: Ghost(Seq::empty()),
            claimed: Ghost(Seq::empty()),
        };
        assert(queue@.submitted =~= queue@.claimed + queue@.pending);
        queue
    }

    /// The number of jobs that wait.
    pub fn pending_count(&self) -> (n: usize)
        ensures
            n == self@.pending.len(),
    {
        self.pending.len()
    }

    /// Whether the queue takes jobs.
    pub fn is_open(&self) -> (open: bool)
        ensures
            open == self@.open,
    {
        self.open
    }

    /// Submits a job: it waits as the last, and one waiting worker is to be
    /// woken. The caller is never held up. A closed queue hands the job back.
    pub fn execute(&mut self, job: J) -> (refused: Result<(), J>)
        requires
            old(self).wf(),
        ensures
            final(self).wf(),
            final(self)@ == old(self)@.submit(job),
            old(self)@.open ==> refused == Ok::<(), J>(()),
            !old(self)@.open ==> refused == Err::<(), J>(job),
    {
        if !self.open {
            return Err(job);
        }
        proof {
            self.submitted@ = self.submitted@.push(job);
        }
        self.pending.push_back(job);
        assert(self@.submitted =~= self@.claimed + self@.pending);
        Ok(())
    }

    /// Claims a job for a worker: the oldest that waits. Where none waits the
    /// worker is told to wait, or to end if the queue is closed.
    pub fn claim(&mut self) -> (claim: Claim<J>)
        requires
            old(self).wf(),
        ensures
            final(self).wf(),
            final(self)@ == old(self)@.claim().0,
            claim == old(self)@.claim().1,
    {
        match self.pending.pop_front() {
            Some(job) => {
                proof {
                    self.claimed@ = self.claimed@.push(job);
                }
                assert(self.pending@ =~= old(self).pending@.drop_first());
                assert(self@.submitted =~= self@.claimed + self@.pending);
                Claim::Job(job)
            },
            None => {
                if self.open {
                    Claim::Wait
                } else {
                    Claim::Exit
                }
            },
        }
    }

    /// Closes the queue: it takes no more jobs, and the workers end once the
    /// jobs that wait have been claimed.
    pub fn close(&mut self)
        requires
            old(self).wf(),
        ensures
            final(self).wf(),
            final(self)@ == old(self)@.close(),
    {
        self.open = false;
    }
}

} // verus!
