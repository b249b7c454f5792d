//! The handoff between the side that finds files and the side that
//! transcodes them: an unbounded queue that gives jobs out in the order in
//! which they came in.

use crate::filter::TranscodeJob;
use std::collections::VecDeque;
use vstd::prelude::*;

verus! {

/// A queue as contracts see it: the inputs of the pending jobs, oldest
/// first, and whether the queue has been closed.
pub struct JobQueueView {
    pub pending: Seq<Seq<char>>,
    pub closed: bool,
}

/// What a consumer finds when it asks the queue for a job.
#[derive(Debug, PartialEq, Eq)]
pub enum Dequeued {
    /// The oldest pending job, now removed from the queue.
    Job(TranscodeJob),
    /// Nothing is pending, but more may come: the consumer waits.
    Empty,
    /// Nothing is pending and nothing will come: the consumer stops.
    Closed,
}

/// An unbounded first-in-first-out queue of jobs.
///
/// A closed queue takes no new jobs but still gives out those it holds.
#[derive(Debug)]
pub struct JobQueue {
    pending: VecDeque<TranscodeJob>,
    closed: bool,
}

impl View for JobQueue {
    type V = JobQueueView;

    closed spec fn view(&self) -> JobQueueView {
        JobQueueView { pending: self.pending.deep_view(), closed: self.closed }
    }
}

impl JobQueue {
    /// An open queue with nothing pending.
    pub fn new() -> (queue: JobQueue)
        ensures
            queue@.pending.len() == 0,
            !queue@.closed,
    {
        JobQueue { pending: VecDeque::new(), closed: false }
    }

    /// Puts `job` behind all pending jobs. Only a closed queue refuses: it
    /// stays as it is and hands the job back.
    pub fn push(&mut self, job: TranscodeJob) -> (pushed: Result<(), TranscodeJob>)
        ensures
            match pushed {
                Ok(_) => {
                    &&& !old(self)@.closed
                    &&& final(self)@.pending == old(self)@.pending.push(job@)
                    &&& !final(self)@.closed
                },
                Err(back) => {
                    &&& old(self)@.closed
                    &&& back@ == job@
                    &&& final(self)@ == old(self)@
                },
            },
    {
        if self.closed {
            return Err(job);
        }
        self.pending.push_back(job);
        Ok(())
    }

    /// Takes the oldest pending job out of the queue, if there is one.
    pub fn pop(&mut self) -> (next: Dequeued)
        ensures
            match next {
                Dequeued::Job(job) => {
                    &&& old(self)@.pending.len() > 0
                    &&& job@ == old(self)@.pending.first()
                    &&& final(self)@.pending == old(self)@.pending.drop_first()
                    &&& final(self)@.closed == old(self)@.closed
                },
                Dequeued::Empty => {
                    &&& old(self)@.pending.len() == 0
                    &&& !old(self)@.closed
                    &&& final(self)@ == old(self)@
                },
                Dequeued::Closed => {
                    &&& old(self)@.pending.len() == 0
                    &&& old(self)@.closed
                    &&& final(self)@ == old(self)@
                },
            },
    {
        match self.pending.pop_front() {
            Some(job) => Dequeued::Job(job),
            None => if self.closed {
                Dequeued::Closed
            } else {
                Dequeued::Empty
            },
        }
    }

    /// Closes the queue: it takes no more jobs, and once the pending ones are
    /// gone its consumer stops.
    pub fn close(&mut self)
        ensures
            final(self)@.pending == old(self)@.pending,
            final(self)@.closed,
    {
        self.closed = true;
    }

    /// The number of pending jobs.
    pub fn len(&self) -> (count: usize)
        ensures
            count == self@.pending.len(),
    {
        self.pending.len()
    }

    /// Whether the queue has been closed.
    pub fn is_closed(&self) -> (closed: bool)
        ensures
            closed == self@.closed,
    {
        self.closed
    }
}

} // verus!
