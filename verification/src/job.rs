//! Jobs: the units of work that travel through the queue, and the one-shot
//! reply protocol that carries a blocking job's result back to its submitter.

use vstd::prelude::*;

verus! {

/// A unit of work waiting to be executed on the UI thread.
///
/// `A` is the host's representation of an owned, single-use action; this
/// crate never runs an action itself, it only decides when and where one
/// runs.
pub enum Job<A> {
    /// Fire-and-forget: the action's return value is discarded.
    Nonblocking { action: A },
    /// Call-and-wait: the action's return value must be sent back to the
    /// submitter that holds the matching reply `ticket`.
    Blocking { action: A, ticket: u64 },
}

impl<A> Job<A> {
    /// The reply ticket of a blocking job.
    pub open spec fn ticket_spec(self) -> u64
        recommends
            self is Blocking,
    {
        match self {
            Job::Blocking { ticket, .. } => ticket,
            Job::Nonblocking { .. } => 0,
        }
    }

    /// The action carried by this job.
    pub open spec fn action_spec(self) -> A {
        match self {
            Job::Nonblocking { action } => action,
            Job::Blocking { action, .. } => action,
        }
    }
}

/// What the drain driver hands back after executing a blocking job: the
/// action's return value, tagged with the job's reply ticket. In transit the
/// value is opaque to the queue; the submitter re-asserts ownership through
/// the ticket.
pub struct Reply<V> {
    /// The ticket of the blocking job this reply answers.
    pub ticket: u64,
    /// The value the job's action returned.
    pub value: V,
}

/// What a waiter holding `ticket` recovers from a reply: its own value if
/// the tickets match, nothing otherwise.
pub open spec fn claim_spec<V>(r: Reply<V>, ticket: u64) -> Option<V> {
    if r.ticket == ticket {
        Some(r.value)
    } else {
        None
    }
}

impl<A> Job<A> {
    /// The reply ticket of a blocking job, read off the job the drain driver
    /// popped so that the executed value can be sent back.
    pub fn ticket(&self) -> (t: u64)
        requires
            *self is Blocking,
        ensures
            t == self.ticket_spec(),
    {
        match self {
            Job::Blocking { ticket, .. } => *ticket,
            Job::Nonblocking { .. } => vstd::pervasive::unreached(),
        }
    }
}

impl<V> Reply<V> {
    /// Build the reply for an executed blocking job: the executed value,
    /// addressed to the job's own ticket.
    pub fn answer<A>(job: &Job<A>, value: V) -> (r: Reply<V>)
        requires
            *job is Blocking,
        ensures
            r.ticket == job.ticket_spec(),
            r.value == value,
    {
        Reply { ticket: job.ticket(), value }
    }

    /// The receiving side of the rendezvous: the waiter holding `ticket`
    /// re-asserts that an incoming reply is its own. `None` marks a routing
    /// mismatch — a programming error the caller must fail loudly on, never
    /// a value to propagate.
    pub fn claim(self, ticket: u64) -> (v: Option<V>)
        ensures
            v == claim_spec(self, ticket),
    {
        if self.ticket == ticket {
            Some(self.value)
        } else {
            None
        }
    }
}

} // verus!
