//! The job channel: an unbounded first-in first-out queue with one producer
//! side that can be closed, and a consuming end that hands out each job once.
use vstd::prelude::*;
use std::collections::VecDeque;

verus! {

broadcast use vstd::std_specs::vecdeque::group_vec_dequeue_axioms;

/// The abstract state of a job channel.
pub ghost struct ChannelView<T> {
    /// Jobs accepted and not yet handed out, oldest first.
    pub queued: Seq<T>,
    /// Whether the producer side still accepts jobs.
    pub open: bool,
    /// Every job ever accepted, in order of acceptance.
    pub sent: Seq<T>,
    /// Every job ever handed out, in order of hand-out.
    pub delivered: Seq<T>,
}

impl<T> ChannelView<T> {
    /// The channel's accounting: what was accepted is exactly what was handed
    /// out followed by what is still queued.
    pub open spec fn wf(self) -> bool {
        self.sent == self.delivered + self.queued
    }

    /// A fresh channel: open, nothing sent.
    pub open spec fn fresh() -> ChannelView<T> {
        ChannelView { queued: Seq::empty(), open: true, sent: Seq::empty(), delivered: Seq::empty() }
    }

    /// Submitting `job`: queued at the back while open, refused once closed.
    pub open spec fn send(self, job: T) -> ChannelView<T> {
        if self.open {
            ChannelView {
                queued: self.queued.push(job),
                open: true,
                sent: self.sent.push(job),
                delivered: self.delivered,
            }
        } else {
            self
        }
    }

    /// Submitting each of `jobs` in turn.
    pub open spec fn send_all(self, jobs: Seq<T>) -> ChannelView<T>
        decreases jobs.len(),
    {
        if jobs.len() == 0 {
            self
        } else {
            self.send(jobs[0]).send_all(jobs.drop_first())
        }
    }

    /// One receive: the oldest queued job leaves the queue, if there is one.
    pub open spec fn recv(self) -> ChannelView<T> {
        if self.queued.len() > 0 {
            ChannelView {
                queued: self.queued.drop_first(),
                open: self.open,
                sent: self.sent,
                delivered: self.delivered.push(self.queued[0]),
            }
        } else {
            self
        }
    }

    /// `n` receives in a row.
    pub open spec fn recv_n(self, n: nat) -> ChannelView<T>
        decreases n,
    {
        if n == 0 {
            self
        } else {
            self.recv().recv_n((n - 1) as nat)
        }
    }

    /// Closing the producer side.
    pub open spec fn close(self) -> ChannelView<T> {
        ChannelView { queued: self.queued, open: false, sent: self.sent, delivered: self.delivered }
    }
}

/// Submitting each of `jobs` to an open channel queues them all, in order,
/// behind what was queued, and records them as sent.
pub proof fn lemma_send_all<T>(v: ChannelView<T>, jobs: Seq<T>)
    requires
        v.open,
    ensures
        v.send_all(jobs).queued == v.queued + jobs,
        v.send_all(jobs).sent == v.sent + jobs,
        v.send_all(jobs).delivered == v.delivered,
        v.send_all(jobs).open,
    decreases jobs.len(),
{
    if jobs.len() > 0 {
        lemma_send_all(v.send(jobs[0]), jobs.drop_first());
        assert(v.queued.push(jobs[0]) + jobs.drop_first() =~= v.queued + jobs);
        assert(v.sent.push(jobs[0]) + jobs.drop_first() =~= v.sent + jobs);
    } else {
        assert(v.queued + jobs =~= v.queued);
        assert(v.sent + jobs =~= v.sent);
    }
}

/// `n` receives on a channel with at least `n` queued jobs hand out its `n`
/// oldest jobs, in order, whether or not its producer side is open.
pub proof fn lemma_recv_n<T>(v: ChannelView<T>, n: nat)
    requires
        n <= v.queued.len(),
    ensures
        v.recv_n(n).delivered == v.delivered + v.queued.take(n as int),
        v.recv_n(n).queued == v.queued.skip(n as int),
        v.recv_n(n).sent == v.sent,
        v.recv_n(n).open == v.open,
    decreases n,
{
    if n > 0 {
        lemma_recv_n(v.recv(), (n - 1) as nat);
        assert(v.delivered.push(v.queued[0]) + v.queued.drop_first().take(n - 1) =~= v.delivered
            + v.queued.take(n as int));
        assert(v.queued.drop_first().skip(n - 1) =~= v.queued.skip(n as int));
    } else {
        assert(v.delivered + v.queued.take(0) =~= v.delivered);
        assert(v.queued.skip(0) =~= v.queued);
    }
}

/// In every state reached by sends, receives and closing, what was accepted
/// is exactly what was handed out followed by what is still queued: no job is
/// lost and none is created.
pub proof fn lemma_accounting_kept<T>(v: ChannelView<T>, job: T)
    requires
        v.wf(),
    ensures
        v.send(job).wf(),
        v.recv().wf(),
        v.close().wf(),
{
    if v.open {
        assert(v.sent.push(job) =~= v.delivered + v.queued.push(job));
    }
    if v.queued.len() > 0 {
        assert(v.sent =~= v.delivered.push(v.queued[0]) + v.queued.drop_first());
    }
}

/// Jobs are handed out at most once and in order of submission: what was
/// handed out is always a prefix of what was sent, and each receive hands out
/// the first job not yet handed out. So no two receivers ever get the same
/// job.
pub proof fn lemma_no_duplicate_delivery<T>(v: ChannelView<T>)
    requires
        v.wf(),
    ensures
        v.delivered == v.sent.take(v.delivered.len() as int),
        v.queued.len() > 0 ==> v.recv().delivered == v.sent.take(v.delivered.len() + 1int),
{
    assert(v.delivered =~= v.sent.take(v.delivered.len() as int));
    if v.queued.len() > 0 {
        assert(v.delivered.push(v.queued[0]) =~= v.sent.take(v.delivered.len() + 1int));
    }
}

/// Every one of any sequence of jobs submitted to a fresh channel is handed
/// out exactly once: after the channel is closed and one receive per job, the
/// jobs handed out are exactly the jobs submitted, in order, and the next
/// receive finds the channel disconnected.
pub proof fn lemma_every_job_delivered_once<T>(jobs: Seq<T>)
    ensures
        ChannelView::<T>::fresh().send_all(jobs).close().recv_n(jobs.len()).delivered == jobs,
        ChannelView::<T>::fresh().send_all(jobs).close().recv_n(jobs.len()).queued.len() == 0,
        !ChannelView::<T>::fresh().send_all(jobs).close().recv_n(jobs.len()).open,
{
    let v = ChannelView::<T>::fresh();
    lemma_send_all(v, jobs);
    assert(v.queued + jobs =~= jobs);
    assert(v.delivered =~= Seq::<T>::empty());
    lemma_recv_n(v.send_all(jobs).close(), jobs.len());
    assert(Seq::<T>::empty() + jobs.take(jobs.len() as int) =~= jobs);
}

/// A job submitted while others are queued (every worker busy) is not dropped:
/// it is handed out right after the jobs ahead of it, whether or not the
/// channel is closed in the meantime.
pub proof fn lemma_queued_job_delivered<T>(v: ChannelView<T>, job: T)
    requires
        v.wf(),
        v.open,
    ensures
        v.send(job).recv_n(v.queued.len() + 1).delivered == v.delivered + v.queued.push(job),
        v.send(job).close().recv_n(v.queued.len() + 1).delivered == v.delivered + v.queued.push(job),
{
    lemma_recv_n(v.send(job), v.queued.len() + 1);
    lemma_recv_n(v.send(job).close(), v.queued.len() + 1);
    assert(v.queued.push(job).take(v.queued.len() + 1int) =~= v.queued.push(job));
}

/// Once the producer side is closed no submission is accepted, yet every job
/// already queued is still handed out before a receive finds the channel
/// disconnected.
pub proof fn lemma_teardown_drains<T>(v: ChannelView<T>, job: T)
    requires
        v.wf(),
    ensures
        v.close().send(job) == v.close(),
        v.close().recv_n(v.queued.len()).delivered == v.sent,
        v.close().recv_n(v.queued.len()).queued.len() == 0,
        !v.close().recv_n(v.queued.len()).open,
{
    lemma_recv_n(v.close(), v.queued.len());
    assert(v.queued.take(v.queued.len() as int) =~= v.queued);
}

/// What one receive on the channel yields.
pub enum Recv<T> {
    /// The oldest queued job, now owned by the receiver.
    Job(T),
    /// Nothing is queued but the producer side is open: more may come.
    Empty,
    /// Nothing is queued and the producer side is closed: nothing will come.
    Disconnected,
}

/// An unbounded job queue with a closable producer side.
pub struct JobChannel<T> {
    queue: VecDeque<T>,
    open: bool,
    sent: Ghost<Seq<T>>,
    delivered: Ghost<Seq<T>>,
}

impl<T> View for JobChannel<T> {
    type V = ChannelView<T>;

    closed spec fn view(&self) -> ChannelView<T> {
        ChannelView { queued: self.queue@, open: self.open, sent: self.sent@, delivered: self.delivered@ }
    }
}

impl<T> JobChannel<T> {
    /// A new channel, open and empty.
    pub fn new() -> (ch: JobChannel<T>)
        ensures
            ch@ == ChannelView::<T>::fresh(),
    {
        JobChannel {
            queue: VecDeque::new(),
            open: true,
            sent: Ghost(Seq::empty()),
            delivered: Ghost(Seq::empty()),
        }
    }

    /// Submits `job`. While the producer side is open the job is queued at the
    /// back and `Ok` comes back; once it is closed the job is handed back in
    /// `Err` and nothing changes.
    pub fn send(&mut self, job: T) -> (r: Result<(), T>)
        requires
            old(self)@.wf(),
        ensures
            final(self)@ == old(self)@.send(job),
            final(self)@.wf(),
            r is Ok <==> old(self)@.open,
            r is Err ==> r->Err_0 == job,
    {
        if self.open {
            self.queue.push_back(job);
            self.sent = Ghost(self.sent@.push(job));
            proof {
                assert(self.sent@ =~= self.delivered@ + self.queue@);
            }
            Ok(())
        } else {
            Err(job)
        }
    }

    /// Takes the oldest queued job. With nothing queued, says whether more
    /// may come (`Empty`) or not (`Disconnected`). Queued jobs are still handed
    /// out after the producer side is closed.
    pub fn recv(&mut self) -> (r: Recv<T>)
        requires
            old(self)@.wf(),
        ensures
            final(self)@ == old(self)@.recv(),
            final(self)@.wf(),
            match r {
                Recv::Job(job) => old(self)@.queued.len() > 0 && job == old(self)@.queued[0],
                Recv::Empty => old(self)@.queued.len() == 0 && old(self)@.open,
                Recv::Disconnected => old(self)@.queued.len() == 0 && !old(self)@.open,
            },
    {
        match self.queue.pop_front() {
            Some(job) => {
                self.delivered = Ghost(self.delivered@.push(job));
                proof {
                    assert(self.sent@ =~= self.delivered@ + self.queue@);
                }
                Recv::Job(job)
            },
            None => {
                if self.open {
                    Recv::Empty
                } else {
                    Recv::Disconnected
                }
            },
        }
    }

    /// Closes the producer side. Queued jobs stay queued.
    pub fn close(&mut self)
        requires
            old(self)@.wf(),
        ensures
            final(self)@ == old(self)@.close(),
            final(self)@.wf(),
    {
        self.open = false;
    }

    /// Whether the producer side still accepts jobs.
    pub fn is_open(&self) -> (r: bool)
        ensures
            r == self@.open,
    {
        self.open
    }

    /// How many jobs are queued.
    pub fn len(&self) -> (r: usize)
        ensures
            r == self@.queued.len(),
    {
        self.queue.len()
    }

    /// Whether no job is queued.
    pub fn is_empty(&self) -> (r: bool)
        ensures
            r == (self@.queued.len() == 0),
    {
        self.queue.len() == 0
    }
}

} // verus!
