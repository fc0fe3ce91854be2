//! The worker pool's queue and admission rules. Connections wait here between
//! the listener that accepts them and the workers that handle them; the
//! contracts say that a submitted job joins the back of the queue, that
//! taking a job removes exactly the front one — so no job can ever be handed
//! out twice — and that after a shutdown nothing new is admitted while the
//! jobs already queued can still drain. The embedding program supplies the
//! locking and the worker threads around this type.

use vstd::prelude::*;

verus! {

/// Why a job was not admitted: the bounded queue is full, or the pool has
/// been shut down.
#[derive(Clone, Copy, Debug, PartialEq, Eq, Structural)]
pub enum SubmitError {
    PoolSaturated,
    PoolClosed,
}

/// The queue of jobs waiting for a worker, bounded by a fixed capacity.
pub struct JobQueue<T> {
    jobs: Vec<T>,
    capacity: usize,
    accepting: bool,
}

impl<T> JobQueue<T> {
    /// The queued jobs, front first.
    pub closed spec fn jobs(&self) -> Seq<T> {
        self.jobs@
    }

    /// The most jobs that may wait at once.
    pub closed spec fn capacity(&self) -> usize {
        self.capacity
    }

    /// Whether new jobs are still admitted.
    pub closed spec fn accepting(&self) -> bool {
        self.accepting
    }

    /// An empty queue that admits up to `capacity` waiting jobs.
    pub fn new(capacity: usize) -> (r: JobQueue<T>)
        requires
            capacity > 0,
        ensures
            r.jobs() == Seq::<T>::empty(),
            r.capacity() == capacity,
            r.accepting(),
    {
        JobQueue { jobs: Vec::new(), capacity, accepting: true }
    }

    /// How many jobs are waiting.
    pub fn len(&self) -> (r: usize)
        ensures
            r == self.jobs().len(),
    {
        self.jobs.len()
    }

    /// Admits a job at the back of the queue; refused when the queue is full
    /// or the pool no longer accepts work.
    pub fn submit(&mut self, job: T) -> (r: Result<(), SubmitError>)
        ensures
            match r {
                Ok(()) => old(self).accepting() && old(self).jobs().len() < old(self).capacity()
                    && final(self).jobs() == old(self).jobs().push(job),
                Err(SubmitError::PoolClosed) => !old(self).accepting()
                    && final(self).jobs() == old(self).jobs(),
                Err(SubmitError::PoolSaturated) => old(self).accepting() && old(self).jobs().len()
                    >= old(self).capacity() && final(self).jobs() == old(self).jobs(),
            },
            final(self).capacity() == old(self).capacity(),
            final(self).accepting() == old(self).accepting(),
    {
        if !self.accepting {
            Err(SubmitError::PoolClosed)
        } else if self.jobs.len() >= self.capacity {
            Err(SubmitError::PoolSaturated)
        } else {
            self.jobs.push(job);
            Ok(())
        }
    }

    /// Hands out the job at the front and removes it, so the same job can
    /// never reach two workers; `None` when nothing waits.
    pub fn take(&mut self) -> (r: Option<T>)
        ensures
            match r {
                Some(job) => old(self).jobs().len() > 0 && job == old(self).jobs()[0]
                    && final(self).jobs() == old(self).jobs().drop_first(),
                None => old(self).jobs().len() == 0 && final(self).jobs() == old(self).jobs(),
            },
            final(self).capacity() == old(self).capacity(),
            final(self).accepting() == old(self).accepting(),
    {
        if self.jobs.len() == 0 {
            None
        } else {
            let job = self.jobs.remove(0);
            proof {
                assert(self.jobs@ =~= old(self).jobs@.drop_first());
            }
            Some(job)
        }
    }

    /// Stops admitting new jobs; the ones already queued stay to be drained.
    pub fn shutdown(&mut self)
        ensures
            !final(self).accepting(),
            final(self).jobs() == old(self).jobs(),
            final(self).capacity() == old(self).capacity(),
    {
        self.accepting = false;
    }

    /// Whether the pool still accepts work.
    pub fn is_accepting(&self) -> (r: bool)
        ensures
            r == self.accepting(),
    {
        self.accepting
    }
}

} // verus!
