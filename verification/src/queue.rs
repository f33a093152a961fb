//! The job queue: an ordered FIFO of pending jobs.
//!
//! Producers append at the back; the drain driver alone removes from the
//! front. Insertion order is preservation order: jobs come out exactly in
//! the order they went in, never reordered or coalesced. Mutual exclusion
//! around the queue is the host shell's concern; this type captures what the
//! critical sections do to the sequence of pending jobs.

use vstd::prelude::*;
use crate::job::Job;

verus! {

/// An ordered sequence of pending jobs, oldest first.
pub struct JobQueue<A> {
    jobs: Vec<Job<A>>,
}

impl<A> JobQueue<A> {
    /// The pending jobs, oldest first.
    pub closed spec fn view(&self) -> Seq<Job<A>> {
        self.jobs@
    }

    /// A new queue holds nothing. There is no capacity bound: producers
    /// never wait, and the queue grows without limit if draining stalls.
    pub fn new() -> (q: Self)
        ensures
            q@ == Seq::<Job<A>>::empty(),
    {
        JobQueue { jobs: Vec::new() }
    }

    /// How many jobs are pending.
    pub fn len(&self) -> (n: usize)
        ensures
            n == self@.len(),
    {
        self.jobs.len()
    }

    /// Whether no job is pending.
    pub fn is_empty(&self) -> (r: bool)
        ensures
            r <==> self@.len() == 0,
    {
        self.jobs.is_empty()
    }

    /// Append a job behind every job already pending.
    pub fn push_back(&mut self, job: Job<A>)
        ensures
            final(self)@ == old(self)@.push(job),
    {
        self.jobs.push(job);
    }

    /// Remove and return the oldest pending job, if any.
    pub fn pop_front(&mut self) -> (r: Option<Job<A>>)
        ensures
            old(self)@.len() == 0 ==> r is None && final(self)@ == old(self)@,
            old(self)@.len() > 0 ==> r == Some(old(self)@[0]) && final(self)@ == old(self)@.skip(1),
    {
        if self.jobs.len() == 0 {
            None
        } else {
            let j = self.jobs.remove(0);
            proof {
                assert(self.jobs@ =~= old(self).jobs@.skip(1));
            }
            Some(j)
        }
    }
}

/// How many jobs `n` drain firings remove from a queue of length `len`:
/// one per firing while any job is pending.
pub open spec fn fired_count(n: nat, len: nat) -> nat {
    if n <= len {
        n
    } else {
        len
    }
}

/// The jobs still pending after the drain driver has fired `n` times on a
/// queue whose pending sequence was `q`: each firing removes the oldest
/// pending job, or nothing when the queue is empty.
pub open spec fn pending_after<A>(q: Seq<Job<A>>, n: nat) -> Seq<Job<A>>
    decreases n,
{
    if n == 0 {
        q
    } else {
        let p = pending_after(q, (n - 1) as nat);
        if p.len() == 0 {
            p
        } else {
            p.skip(1)
        }
    }
}

/// The jobs the drain driver has executed after firing `n` times on a queue
/// whose pending sequence was `q`, in execution order.
pub open spec fn executed_after<A>(q: Seq<Job<A>>, n: nat) -> Seq<Job<A>>
    decreases n,
{
    if n == 0 {
        Seq::<Job<A>>::empty()
    } else {
        let log = executed_after(q, (n - 1) as nat);
        let p = pending_after(q, (n - 1) as nat);
        if p.len() == 0 {
            log
        } else {
            log.push(p[0])
        }
    }
}

/// Drain firings execute jobs in exactly the order they were enqueued: after
/// `n` firings the executed log is the oldest-first prefix of the pending
/// sequence (one job per firing, as many as were pending), and what remains
/// pending is the corresponding suffix, untouched and unreordered.
pub proof fn lemma_drain_in_order<A>(q: Seq<Job<A>>, n: nat)
    ensures
        executed_after(q, n) == q.take(fired_count(n, q.len()) as int),
        pending_after(q, n) == q.skip(fired_count(n, q.len()) as int),
    decreases n,
{
    if n == 0 {
        assert(executed_after(q, n) =~= q.take(0));
        assert(pending_after(q, n) =~= q.skip(0));
    } else {
        lemma_drain_in_order(q, (n - 1) as nat);
        let k = fired_count((n - 1) as nat, q.len()) as int;
        if k < q.len() {
            assert(pending_after(q, (n - 1) as nat).len() > 0);
            assert(pending_after(q, n) =~= q.skip(k + 1));
            assert(executed_after(q, n) =~= q.take(k + 1));
        } else {
            assert(pending_after(q, (n - 1) as nat).len() == 0);
        }
    }
}

/// A job enqueued behind `n` older jobs is executed by the drain driver
/// exactly at its own turn: every earlier firing executes exactly one older
/// job, and the `(n + 1)`-th firing executes the job itself.
pub proof fn lemma_job_serviced_at_its_turn<A>(q: Seq<Job<A>>, n: int)
    requires
        0 <= n < q.len(),
    ensures
        forall|k: int|
            0 <= k <= n ==> #[trigger] executed_after(q, k as nat).len() == k,
        executed_after(q, (n + 1) as nat) == q.take(n + 1),
        executed_after(q, (n + 1) as nat)[n] == q[n],
{
    assert forall|k: int| 0 <= k <= n implies #[trigger] executed_after(
        q,
        k as nat,
    ).len() == k by {
        lemma_drain_in_order(q, k as nat);
    }
    lemma_drain_in_order(q, (n + 1) as nat);
}

} // verus!
