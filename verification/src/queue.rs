//! The admission queue: a bounded FIFO buffer of pending jobs with a
//! non-blocking offer.

use vstd::prelude::*;

verus! {

/// The answer of a non-blocking offer.
#[derive(Clone, Copy, PartialEq, Eq, Structural, Debug)]
pub enum OfferResult {
    /// The job was enqueued.
    Accepted,
    /// The queue was full; nothing changed.
    Rejected,
}

/// A bounded FIFO queue of jobs: the front is served first.
pub struct JobQueue<T> {
    /// The pending jobs, front first.
    pub items: Vec<T>,
    /// The fixed capacity.
    pub capacity: usize,
}

impl<T> JobQueue<T> {
    /// No more jobs are pending than the capacity admits.
    pub open spec fn wf(self) -> bool {
        self.items@.len() <= self.capacity
    }

    /// Whether the queue holds as many jobs as its capacity admits: the
    /// one and only condition under which an offer is rejected.
    pub open spec fn is_full(self) -> bool {
        self.items@.len() == self.capacity
    }

    /// An empty queue of the given capacity.
    pub fn new(capacity: usize) -> (q: JobQueue<T>)
        ensures
            q.wf(),
            q.items@.len() == 0,
            q.capacity == capacity,
    {
        JobQueue { items: Vec::new(), capacity }
    }

    /// How many jobs are pending.
    pub fn len(&self) -> (r: usize)
        ensures
            r == self.items@.len(),
    {
        self.items.len()
    }

    /// Offers a job without blocking: accepted and appended exactly when
    /// the queue is not yet full, rejected with the queue untouched
    /// otherwise.
    pub fn offer(&mut self, t: T) -> (r: OfferResult)
        requires
            old(self).wf(),
        ensures
            final(self).wf(),
            final(self).capacity == old(self).capacity,
            r == OfferResult::Rejected <==> old(self).is_full(),
            r == OfferResult::Rejected ==> final(self).items@ == old(self).items@,
            r == OfferResult::Accepted ==> final(self).items@ == old(self).items@.push(t),
    {
        if self.items.len() == self.capacity {
            OfferResult::Rejected
        } else {
            self.items.push(t);
            OfferResult::Accepted
        }
    }

    /// Takes the oldest pending job, if any: jobs leave in the order they
    /// were accepted.
    pub fn take(&mut self) -> (r: Option<T>)
        requires
            old(self).wf(),
        ensures
            final(self).wf(),
            final(self).capacity == old(self).capacity,
            match r {
                Some(t) => old(self).items@.len() > 0 && t == old(self).items@[0]
                    && final(self).items@ == old(self).items@.drop_first(),
                None => old(self).items@.len() == 0 && final(self).items@ == old(self).items@,
            },
    {
        if self.items.len() == 0 {
            None
        } else {
            let t = self.items.remove(0);
            proof {
                assert(self.items@ =~= old(self).items@.drop_first());
            }
            Some(t)
        }
    }
}

} // verus!
