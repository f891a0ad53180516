//! The pool: its workers, created once with ids `0..size`, submission onto the
//! job channel, and teardown, which closes the channel and hands every
//! worker's thread handle out once, in creation order, to be joined.
use vstd::prelude::*;
use crate::channel::JobChannel;
use crate::worker::Worker;

verus! {

/// A fixed-size pool of workers; `H` is the handle of a worker's thread.
pub struct ThreadPool<H> {
    workers: Vec<Worker<H>>,
}

impl<H> View for ThreadPool<H> {
    type V = Seq<Worker<H>>;

    /// The workers, in creation order.
    closed spec fn view(&self) -> Seq<Worker<H>> {
        self.workers@
    }
}

impl<H> ThreadPool<H> {
    /// There is at least one worker, and worker `i` has id `i`.
    pub open spec fn wf(&self) -> bool {
        &&& self@.len() > 0
        &&& forall|i: int| 0 <= i < self@.len() ==> (#[trigger] self@[i]).spec_id() == i
    }

    /// Creates a pool of `size` workers. For each id in `0..size`, in order,
    /// `spawn(id)` starts that worker's thread and returns its handle.
    pub fn new<F: Fn(usize) -> H>(size: usize, spawn: F) -> (pool: ThreadPool<H>)
        requires
            size > 0,
            forall|id: usize| id < size ==> spawn.requires((id,)),
        ensures
            pool.wf(),
            pool@.len() == size,
            forall|i: int|
                0 <= i < size ==> {
                    &&& (#[trigger] pool@[i]).spec_thread() is Some
                    &&& spawn.ensures((i as usize,), pool@[i].spec_thread()->0)
                },
    {
        let mut workers: Vec<Worker<H>> = Vec::with_capacity(size);
        let mut id: usize = 0;
        while id < size
            invariant
                id <= size,
                workers@.len() == id,
                forall|i: usize| i < size ==> spawn.requires((i,)),
                forall|i: int|
                    0 <= i < id ==> {
                        &&& (#[trigger] workers@[i]).spec_id() == i
                        &&& workers@[i].spec_thread() is Some
                        &&& spawn.ensures((i as usize,), workers@[i].spec_thread()->0)
                    },
            decreases size - id,
        {
            let thread = spawn(id);
            workers.push(Worker::new(id, thread));
            id = id + 1;
        }
        ThreadPool { workers }
    }

    /// The number of workers.
    pub fn size(&self) -> (r: usize)
        ensures
            r == self@.len(),
    {
        self.workers.len()
    }

    /// The worker created `i`-th.
    pub fn worker(&self, i: usize) -> (w: &Worker<H>)
        requires
            i < self@.len(),
        ensures
            *w == self@[i as int],
    {
        &self.workers[i]
    }

    /// Submits `job` onto the open producer side of `channel`, where it is
    /// queued behind the jobs already there.
    pub fn execute<T>(&self, channel: &mut JobChannel<T>, job: T)
        requires
            old(channel)@.wf(),
            old(channel)@.open,
        ensures
            final(channel)@ == old(channel)@.send(job),
            final(channel)@.wf(),
    {
        let sent = channel.send(job);
        assert(sent is Ok);
    }

    /// Tears the pool down: closes the producer side of `channel`, so that
    /// each worker leaves its loop once the queue is drained, then takes every
    /// worker's thread handle, in creation order, paired with its id. A handle
    /// already taken comes out as `None`, so no thread is joined twice.
    pub fn shutdown<T>(&mut self, channel: &mut JobChannel<T>) -> (handles: Vec<(usize, Option<H>)>)
        requires
            old(self).wf(),
            old(channel)@.wf(),
        ensures
            final(channel)@ == old(channel)@.close(),
            final(channel)@.wf(),
            final(self).wf(),
            final(self)@.len() == old(self)@.len(),
            forall|i: int| 0 <= i < final(self)@.len() ==> (#[trigger] final(self)@[i]).spec_thread() is None,
            handles@.len() == old(self)@.len(),
            forall|i: int|
                0 <= i < handles@.len() ==> #[trigger] handles@[i] == (i as usize, old(self)@[i].spec_thread()),
    {
        channel.close();
        let mut handles: Vec<(usize, Option<H>)> = Vec::with_capacity(self.workers.len());
        let n = self.workers.len();
        let mut i: usize = 0;
        while i < n
            invariant
                n == old(self)@.len(),
                self@.len() == n,
                i <= n,
                handles@.len() == i,
                forall|k: int| 0 <= k < n ==> (#[trigger] self@[k]).spec_id() == k,
                forall|k: int| 0 <= k < i ==> (#[trigger] self@[k]).spec_thread() is None,
                forall|k: int| i <= k < n ==> (#[trigger] self@[k]) == old(self)@[k],
                forall|k: int|
                    0 <= k < i ==> #[trigger] handles@[k] == (k as usize, old(self)@[k].spec_thread()),
            decreases n - i,
        {
            let id = self.workers[i].id();
            let thread = self.workers[i].take_thread();
            handles.push((id, thread));
            i = i + 1;
        }
        handles
    }
}

/// The workers of a pool of `N` have distinct ids, each in `0..N`.
pub proof fn lemma_worker_ids_distinct<H>(pool: ThreadPool<H>)
    requires
        pool.wf(),
    ensures
        forall|i: int| 0 <= i < pool@.len() ==> (#[trigger] pool@[i]).spec_id() < pool@.len(),
        forall|i: int, j: int|
            0 <= i < pool@.len() && 0 <= j < pool@.len() && i != j ==> (#[trigger] pool@[i]).spec_id()
                != (#[trigger] pool@[j]).spec_id(),
{
}

} // verus!
