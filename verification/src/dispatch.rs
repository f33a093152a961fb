//! The dispatcher: the thread registry, the two submission entry points, and
//! the drain driver's step.
//!
//! The host shell owns the real threads, the lock around the dispatcher, the
//! reply channels and the timer registration; it feeds this state machine the
//! caller's thread identity and carries out the outcome it is handed back
//! (run the action in place, or wait on a reply ticket). Everything the
//! dispatcher decides — who runs now, what is queued where, which reply
//! belongs to which caller — is stated and proved here.

use vstd::prelude::*;
use crate::job::{claim_spec, Job, Reply};
use crate::queue::{executed_after, fired_count, lemma_drain_in_order, pending_after, JobQueue};

verus! {

/// How many jobs one drain firing executes unless the host asks otherwise:
/// one, so a single firing never monopolizes the UI thread's turn.
pub const DEFAULT_DRAIN_BATCH: usize = 1;

/// The identity of the UI-owning thread, recorded exactly once when the
/// dispatcher is created and never mutated afterwards; every later "am I on
/// the UI thread?" query compares against this value.
pub struct MainThreadToken {
    id: u64,
}

impl MainThreadToken {
    /// The recorded thread identity.
    pub closed spec fn id_spec(&self) -> u64 {
        self.id
    }

    /// Whether `caller` is the UI-owning thread.
    pub fn is_current(&self, caller: u64) -> (r: bool)
        ensures
            r <==> caller == self.id_spec(),
    {
        caller == self.id
    }
}

/// The registration of the drain driver with the host's timer facility.
/// Draining is possible only while this handle exists: the host must keep it
/// alive for the dispatcher's whole lifetime, and may drop it only at
/// shutdown. Once it is gone nothing drains any more — jobs still pending
/// stay pending forever, and a blocked submitter never wakes.
pub struct SyncHandle {
    _registration: (),
}

/// What a `submit` caller must do next.
pub enum SubmitOutcome<A> {
    /// The caller is already on the UI thread: run `action` now, in place,
    /// without queueing — UI-thread-originated work pays no round trip.
    RunNow { action: A },
    /// The action was appended to the queue; a later drain firing runs it.
    /// The caller does not wait and observes no result.
    Enqueued,
}

/// What a `submit_blocking` caller must do next.
pub enum BlockingOutcome<A> {
    /// The caller is already on the UI thread: run `action` now and use its
    /// value directly.
    RunNow { action: A },
    /// The action was appended to the queue; the caller must block on the
    /// one-shot reply channel it registered under `ticket` until the drain
    /// driver sends the action's value through it.
    Wait { ticket: u64 },
}

/// Every pending blocking job carries a ticket that was issued by the
/// dispatcher (below `next`), and no two pending blocking jobs share one.
pub open spec fn tickets_wf<A>(q: Seq<Job<A>>, next: u64) -> bool {
    &&& forall|i: int|
        0 <= i < q.len() && q[i] is Blocking ==> (#[trigger] q[i].ticket_spec()) < next
    &&& forall|i: int, j: int|
        0 <= i < q.len() && 0 <= j < q.len() && i != j && q[i] is Blocking && q[j] is Blocking
            ==> (#[trigger] q[i].ticket_spec()) != (#[trigger] q[j].ticket_spec())
}

/// The dispatcher's whole state: the recorded UI thread, the pending jobs,
/// and the ticket counter for blocking replies. The host shell holds it
/// under one mutual-exclusion lock; each method here is one critical
/// section, and no method ever runs a job's action — actions run outside the
/// lock, on the UI thread.
pub struct Dispatcher<A> {
    main: MainThreadToken,
    queue: JobQueue<A>,
    ticket_counter: u64,
}

impl<A> Dispatcher<A> {
    /// The identity of the UI-owning thread.
    pub closed spec fn main_thread(&self) -> u64 {
        self.main.id_spec()
    }

    /// The pending jobs, oldest first.
    pub closed spec fn pending(&self) -> Seq<Job<A>> {
        self.queue@
    }

    /// The ticket the next queued blocking submission will receive.
    pub closed spec fn next_ticket(&self) -> u64 {
        self.ticket_counter
    }

    /// Pending blocking jobs hold distinct, already-issued tickets, so a
    /// reply can never be claimed by any submitter but its own.
    pub open spec fn wf(&self) -> bool {
        tickets_wf(self.pending(), self.next_ticket())
    }

    /// How many jobs are pending.
    pub fn pending_len(&self) -> (n: usize)
        ensures
            n == self.pending().len(),
    {
        self.queue.len()
    }

    /// How many blocking tickets have been issued so far.
    pub fn issued_tickets(&self) -> (n: u64)
        ensures
            n == self.next_ticket(),
    {
        self.ticket_counter
    }

    /// Whether `caller` is the UI-owning thread.
    pub fn is_main_thread(&self, caller: u64) -> (r: bool)
        ensures
            r <==> caller == self.main_thread(),
    {
        self.main.is_current(caller)
    }

    /// Request fire-and-forget execution of `action` on the UI thread.
    ///
    /// Called from the UI thread itself, nothing is queued and the caller is
    /// told to run the action synchronously, in place — so UI-thread work
    /// may interleave ahead of older queued work. Called from any other
    /// thread, the action joins the back of the queue and the call returns
    /// at once; no result is observable.
    pub fn submit(&mut self, caller: u64, action: A) -> (r: SubmitOutcome<A>)
        ensures
            final(self).main_thread() == old(self).main_thread(),
            final(self).next_ticket() == old(self).next_ticket(),
            caller == old(self).main_thread() ==> r == (SubmitOutcome::RunNow { action })
                && final(self).pending() == old(self).pending(),
            caller != old(self).main_thread() ==> r == SubmitOutcome::<A>::Enqueued
                && final(self).pending() == old(self).pending().push(
                Job::Nonblocking { action },
            ),
            old(self).wf() ==> final(self).wf(),
    {
        if self.main.is_current(caller) {
            SubmitOutcome::RunNow { action }
        } else {
            self.queue.push_back(Job::Nonblocking { action });
            proof {
                if old(self).wf() {
                    lemma_push_nonblocking_preserves_wf(
                        old(self).pending(),
                        self.ticket_counter,
                        action,
                    );
                }
            }
            SubmitOutcome::Enqueued
        }
    }

    /// Request execution of `action` on the UI thread and a rendezvous with
    /// its result.
    ///
    /// Called from the UI thread itself, nothing is queued: the caller runs
    /// the action synchronously and uses its value. Called from any other
    /// thread, the action joins the back of the queue as a blocking job
    /// under a fresh ticket — distinct from every ticket still pending — and
    /// the caller must block on that ticket's reply channel until the drain
    /// driver services the job. There is no timeout and no cancellation: the
    /// wait ends only when the job is serviced.
    pub fn submit_blocking(&mut self, caller: u64, action: A) -> (r: BlockingOutcome<A>)
        requires
            old(self).next_ticket() < u64::MAX,
        ensures
            final(self).main_thread() == old(self).main_thread(),
            caller == old(self).main_thread() ==> r == (BlockingOutcome::RunNow { action })
                && final(self).pending() == old(self).pending()
                && final(self).next_ticket() == old(self).next_ticket(),
            caller != old(self).main_thread() ==> r == (BlockingOutcome::<A>::Wait {
                ticket: old(self).next_ticket(),
            })
                && final(self).pending() == old(self).pending().push(
                Job::Blocking { action, ticket: old(self).next_ticket() },
            )
                && final(self).next_ticket() == old(self).next_ticket() + 1,
            old(self).wf() ==> final(self).wf(),
    {
        if self.main.is_current(caller) {
            BlockingOutcome::RunNow { action }
        } else {
            let ticket: u64 = self.ticket_counter;
            self.ticket_counter = self.ticket_counter + 1;
            self.queue.push_back(Job::Blocking { action, ticket });
            proof {
                if old(self).wf() {
                    lemma_push_blocking_preserves_wf(
                        old(self).pending(),
                        old(self).ticket_counter,
                        action,
                    );
                }
            }
            BlockingOutcome::Wait { ticket }
        }
    }

    /// One firing of the drain driver: remove and hand back the oldest
    /// pending job, or nothing if the queue is empty. The host's timer calls
    /// this on the UI thread and then executes the returned job's action
    /// there, outside the dispatcher's lock; a blocking job's value is sent
    /// through its reply ticket. At most one job leaves per firing, so one
    /// firing never monopolizes the host's cooperative loop.
    pub fn tick(&mut self, handle: &SyncHandle) -> (r: Option<Job<A>>)
        ensures
            final(self).main_thread() == old(self).main_thread(),
            final(self).next_ticket() == old(self).next_ticket(),
            old(self).pending().len() == 0 ==> r is None
                && final(self).pending() == old(self).pending(),
            old(self).pending().len() > 0 ==> r == Some(old(self).pending()[0])
                && final(self).pending() == old(self).pending().skip(1),
            old(self).wf() ==> final(self).wf(),
    {
        let r = self.queue.pop_front();
        proof {
            if old(self).wf() && old(self).pending().len() > 0 {
                lemma_skip_preserves_wf(old(self).pending(), self.ticket_counter);
            }
        }
        r
    }

    /// `batch` consecutive drain firings: remove and hand back the oldest
    /// pending jobs, one per firing, oldest first, stopping early only when
    /// the queue runs dry. The returned sequence is exactly the log the
    /// drain model predicts, so every ordering fact proved of the model
    /// holds of what the host executes.
    pub fn drain(&mut self, handle: &SyncHandle, batch: usize) -> (r: Vec<Job<A>>)
        ensures
            final(self).main_thread() == old(self).main_thread(),
            final(self).next_ticket() == old(self).next_ticket(),
            r@ == executed_after(old(self).pending(), batch as nat),
            final(self).pending() == pending_after(old(self).pending(), batch as nat),
            r@ == old(self).pending().take(
                fired_count(batch as nat, old(self).pending().len()) as int,
            ),
            final(self).pending() == old(self).pending().skip(
                fired_count(batch as nat, old(self).pending().len()) as int,
            ),
            old(self).wf() ==> final(self).wf(),
    {
        let mut out: Vec<Job<A>> = Vec::new();
        let mut fired: usize = 0;
        while fired < batch && !self.queue.is_empty()
            invariant
                fired <= batch,
                out@.len() == fired,
                fired <= old(self).pending().len(),
                out@ == old(self).pending().take(fired as int),
                self.queue@ == old(self).pending().skip(fired as int),
                self.main == old(self).main,
                self.ticket_counter == old(self).ticket_counter,
            decreases batch - fired,
        {
            let j = self.queue.pop_front();
            match j {
                Some(job) => {
                    out.push(job);
                    proof {
                        assert(old(self).pending().skip(fired as int).skip(1) =~= old(
                            self,
                        ).pending().skip(fired as int + 1));
                        assert(out@ =~= old(self).pending().take(fired as int + 1));
                    }
                },
                None => {},
            }
            fired = fired + 1;
        }
        proof {
            let q0 = old(self).pending();
            let k = fired_count(batch as nat, q0.len());
            assert(fired == k);
            lemma_drain_in_order(q0, batch as nat);
            if old(self).wf() {
                lemma_skip_many_preserves_wf(q0, self.ticket_counter, k as int);
            }
        }
        out
    }
}

/// Create a dispatcher whose UI thread is the thread identified by
/// `main_thread_id`, together with the handle that stands for the drain
/// driver's registration with the host timer. Must be called on the UI
/// thread itself, once, before any worker may submit; the queue starts empty
/// and no ticket has been issued.
pub fn init<A>(main_thread_id: u64) -> (r: (Dispatcher<A>, SyncHandle))
    ensures
        r.0.main_thread() == main_thread_id,
        r.0.pending() == Seq::<Job<A>>::empty(),
        r.0.next_ticket() == 0,
        r.0.wf(),
{
    let d = Dispatcher {
        main: MainThreadToken { id: main_thread_id },
        queue: JobQueue::new(),
        ticket_counter: 0,
    };
    (d, SyncHandle { _registration: () })
}

/// A queued blocking submission's rendezvous returns exactly the value its
/// own action produced: the job reaches the drain driver intact — same
/// action, same ticket — at its own turn, and the reply built from the
/// executed value is claimed in full by the submitter's ticket, while a
/// waiter holding any other ticket refuses it.
pub proof fn lemma_blocking_round_trip<A, V>(q: Seq<Job<A>>, i: int, value: V, other: u64)
    requires
        0 <= i < q.len(),
        q[i] is Blocking,
    ensures
        executed_after(q, (i + 1) as nat).len() == i + 1,
        executed_after(q, (i + 1) as nat)[i] == q[i],
        claim_spec((Reply { ticket: q[i].ticket_spec(), value }), q[i].ticket_spec())
            == Some(value),
        other != q[i].ticket_spec() ==> claim_spec(
            (Reply { ticket: q[i].ticket_spec(), value }),
            other,
        ) is None,
{
    crate::queue::lemma_job_serviced_at_its_turn(q, i);
}

/// No submitter can receive another submitter's result: under the
/// dispatcher's invariant two distinct pending blocking jobs hold distinct
/// tickets, so the reply to one is refused by the other's waiter.
pub proof fn lemma_replies_exclusive<A, V>(q: Seq<Job<A>>, next: u64, i: int, j: int, value: V)
    requires
        tickets_wf(q, next),
        0 <= i < q.len(),
        0 <= j < q.len(),
        i != j,
        q[i] is Blocking,
        q[j] is Blocking,
    ensures
        claim_spec((Reply { ticket: q[i].ticket_spec(), value }), q[j].ticket_spec()) is None,
{
}

/// Appending a fire-and-forget job never disturbs the pending tickets.
proof fn lemma_push_nonblocking_preserves_wf<A>(q: Seq<Job<A>>, next: u64, action: A)
    requires
        tickets_wf(q, next),
    ensures
        tickets_wf(q.push(Job::Nonblocking { action }), next),
{
    let q2 = q.push(Job::Nonblocking { action });
    assert forall|i: int| 0 <= i < q2.len() && q2[i] is Blocking implies (
    #[trigger] q2[i].ticket_spec()) < next by {
        assert(q2[i] == q[i]);
    }
}

/// Appending a blocking job under the freshly issued ticket keeps every
/// pending ticket issued and distinct.
proof fn lemma_push_blocking_preserves_wf<A>(q: Seq<Job<A>>, next: u64, action: A)
    requires
        tickets_wf(q, next),
        next < u64::MAX,
    ensures
        tickets_wf(q.push(Job::Blocking { action, ticket: next }), (next + 1) as u64),
{
    let q2 = q.push(Job::Blocking { action, ticket: next });
    assert forall|i: int| 0 <= i < q2.len() && q2[i] is Blocking implies (
    #[trigger] q2[i].ticket_spec()) < next + 1 by {
        if i < q.len() {
            assert(q2[i] == q[i]);
        }
    }
    assert forall|i: int, j: int|
        0 <= i < q2.len() && 0 <= j < q2.len() && i != j && q2[i] is Blocking
            && q2[j] is Blocking implies (#[trigger] q2[i].ticket_spec()) != (
    #[trigger] q2[j].ticket_spec()) by {
        if i < q.len() && j < q.len() {
            assert(q2[i] == q[i] && q2[j] == q[j]);
        } else if i < q.len() {
            assert(q2[i] == q[i] && q[i].ticket_spec() < next);
        } else {
            assert(q2[j] == q[j] && q[j].ticket_spec() < next);
        }
    }
}

/// Removing the oldest job keeps every pending ticket issued and distinct.
proof fn lemma_skip_preserves_wf<A>(q: Seq<Job<A>>, next: u64)
    requires
        tickets_wf(q, next),
        q.len() > 0,
    ensures
        tickets_wf(q.skip(1), next),
{
    lemma_skip_many_preserves_wf(q, next, 1);
}

/// Removing any oldest-first prefix keeps every pending ticket issued and
/// distinct.
proof fn lemma_skip_many_preserves_wf<A>(q: Seq<Job<A>>, next: u64, k: int)
    requires
        tickets_wf(q, next),
        0 <= k <= q.len(),
    ensures
        tickets_wf(q.skip(k), next),
{
    let q2 = q.skip(k);
    assert forall|i: int| 0 <= i < q2.len() && q2[i] is Blocking implies (
    #[trigger] q2[i].ticket_spec()) < next by {
        assert(q2[i] == q[i + k]);
    }
    assert forall|i: int, j: int|
        0 <= i < q2.len() && 0 <= j < q2.len() && i != j && q2[i] is Blocking
            && q2[j] is Blocking implies (#[trigger] q2[i].ticket_spec()) != (
    #[trigger] q2[j].ticket_spec()) by {
        assert(q2[i] == q[i + k] && q2[j] == q[j + k]);
    }
}

} // verus!

