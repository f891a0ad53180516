//! A worker: its id, the handle of the thread that runs its loop, and the
//! decision that loop makes on each receive.
use vstd::prelude::*;
use crate::channel::Recv;

verus! {

/// What a worker's loop does after one receive on the job channel.
pub enum WorkerStep<T> {
    /// Run this job, outside the lock on the channel, then receive again.
    Run(T),
    /// Nothing queued yet: block until a job is sent or the channel closes.
    Wait,
    /// The channel is closed and drained: leave the loop.
    Exit,
}

/// The loop's decision on what one receive yielded: a job is run, an empty
/// open channel is waited on, a disconnected channel ends the loop.
pub fn next_step<T>(received: Recv<T>) -> (step: WorkerStep<T>)
    ensures
        match received {
            Recv::Job(job) => step == WorkerStep::Run(job),
            Recv::Empty => step is Wait,
            Recv::Disconnected => step is Exit,
        },
{
    match received {
        Recv::Job(job) => WorkerStep::Run(job),
        Recv::Empty => WorkerStep::Wait,
        Recv::Disconnected => WorkerStep::Exit,
    }
}

/// One worker of a pool: a small id and, until it is taken for joining, the
/// handle of its thread.
pub struct Worker<H> {
    id: usize,
    thread: Option<H>,
}

impl<H> Worker<H> {
    /// The worker's id.
    pub closed spec fn spec_id(&self) -> usize {
        self.id
    }

    /// The handle of the worker's thread, while it has not been taken.
    pub closed spec fn spec_thread(&self) -> Option<H> {
        self.thread
    }

    /// A worker with id `id` whose loop runs on the thread behind `thread`.
    pub fn new(id: usize, thread: H) -> (w: Worker<H>)
        ensures
            w.spec_id() == id,
            w.spec_thread() == Some(thread),
    {
        Worker { id, thread: Some(thread) }
    }

    /// The worker's id.
    pub fn id(&self) -> (r: usize)
        ensures
            r == self.spec_id(),
    {
        self.id
    }

    /// Whether the handle of the worker's thread is still held.
    pub fn has_thread(&self) -> (r: bool)
        ensures
            r == self.spec_thread() is Some,
    {
        self.thread.is_some()
    }

    /// Takes the handle of the worker's thread, leaving none behind: a handle
    /// comes out at most once, so a thread is never joined twice.
    pub fn take_thread(&mut self) -> (r: Option<H>)
        ensures
            r == old(self).spec_thread(),
            final(self).spec_thread() is None,
            final(self).spec_id() == old(self).spec_id(),
    {
        self.thread.take()
    }
}

} // verus!
