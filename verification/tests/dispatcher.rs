// The dispatcher driven from outside, as the host shell drives it: worker
// threads are stood in for by distinct caller identities, and "executing" a
// job's action means mapping its action code through a known function.

use main_dispatch::dispatch::{init, BlockingOutcome, Dispatcher, SubmitOutcome, SyncHandle};
use main_dispatch::dispatch::DEFAULT_DRAIN_BATCH;
use main_dispatch::job::{Job, Reply};

const MAIN: u64 = 1;
const WORKER_A: u64 = 101;
const WORKER_B: u64 = 102;
const WORKER_C: u64 = 103;

fn fresh() -> (Dispatcher<i32>, SyncHandle) {
    init::<i32>(MAIN)
}

// What the UI thread does with an action when it runs it.
fn execute(action: i32) -> i32 {
    action * 2
}

#[test]
fn main_thread_queries() {
    let (d, _h) = fresh();
    assert!(d.is_main_thread(MAIN));
    assert!(!d.is_main_thread(WORKER_A));
    assert_eq!(d.pending_len(), 0);
    assert_eq!(d.issued_tickets(), 0);
}

#[test]
fn fast_path_runs_in_place_without_queueing() {
    let (mut d, _h) = fresh();
    // Put an older queued job in first: the fast path must not touch it.
    match d.submit(WORKER_A, 10) {
        SubmitOutcome::Enqueued => {}
        SubmitOutcome::RunNow { .. } => panic!("worker submission must queue"),
    }
    assert_eq!(d.pending_len(), 1);

    match d.submit(MAIN, 77) {
        SubmitOutcome::RunNow { action } => assert_eq!(action, 77),
        SubmitOutcome::Enqueued => panic!("UI-thread submission must not queue"),
    }
    assert_eq!(d.pending_len(), 1);

    match d.submit_blocking(MAIN, 88) {
        BlockingOutcome::RunNow { action } => assert_eq!(execute(action), 176),
        BlockingOutcome::Wait { .. } => panic!("UI-thread submission must not queue"),
    }
    assert_eq!(d.pending_len(), 1);
    assert_eq!(d.issued_tickets(), 0);
}

#[test]
fn workers_drain_in_submission_order() {
    let (mut d, h) = fresh();
    d.submit(WORKER_A, 10);
    d.submit(WORKER_B, 20);
    d.submit(WORKER_C, 30);
    assert_eq!(d.pending_len(), 3);

    let mut executed = Vec::new();
    while let Some(job) = d.tick(&h) {
        match job {
            Job::Nonblocking { action } => executed.push(action),
            Job::Blocking { .. } => panic!("only fire-and-forget jobs were queued"),
        }
    }
    assert_eq!(executed, vec![10, 20, 30]);
    assert_eq!(d.pending_len(), 0);
}

#[test]
fn one_job_per_tick() {
    let (mut d, h) = fresh();
    d.submit(WORKER_A, 10);
    d.submit(WORKER_B, 20);
    // Enqueued behind two pending jobs: serviced exactly at the third firing.
    d.submit(WORKER_C, 30);

    for expected_left in [2usize, 1, 0] {
        let job = d.tick(&h);
        assert!(job.is_some());
        assert_eq!(d.pending_len(), expected_left);
    }
    assert!(matches!(d.tick(&h), None));
}

#[test]
fn empty_tick_is_a_noop() {
    let (mut d, h) = fresh();
    assert!(matches!(d.tick(&h), None));
    assert_eq!(d.pending_len(), 0);
}

#[test]
fn drain_respects_batch_and_order() {
    let (mut d, h) = fresh();
    for (worker, action) in [(WORKER_A, 1), (WORKER_B, 2), (WORKER_C, 3), (WORKER_A, 4), (WORKER_B, 5)] {
        d.submit(worker, action);
    }

    let none = d.drain(&h, 0);
    assert!(none.is_empty());
    assert_eq!(d.pending_len(), 5);

    let first = d.drain(&h, 2);
    let first: Vec<i32> = first
        .into_iter()
        .map(|j| match j {
            Job::Nonblocking { action } => action,
            Job::Blocking { .. } => panic!("only fire-and-forget jobs were queued"),
        })
        .collect();
    assert_eq!(first, vec![1, 2]);
    assert_eq!(d.pending_len(), 3);

    // A batch larger than the queue stops when the queue runs dry.
    let rest = d.drain(&h, 10);
    assert_eq!(rest.len(), 3);
    assert_eq!(d.pending_len(), 0);
}

#[test]
fn default_batch_is_one_job() {
    assert_eq!(DEFAULT_DRAIN_BATCH, 1);
    let (mut d, h) = fresh();
    d.submit(WORKER_A, 10);
    d.submit(WORKER_B, 20);
    let fired = d.drain(&h, DEFAULT_DRAIN_BATCH);
    assert_eq!(fired.len(), 1);
    assert_eq!(d.pending_len(), 1);
}

#[test]
fn blocking_round_trip_returns_own_value() {
    let (mut d, h) = fresh();
    let ticket = match d.submit_blocking(WORKER_A, 21) {
        BlockingOutcome::Wait { ticket } => ticket,
        BlockingOutcome::RunNow { .. } => panic!("worker submission must queue"),
    };
    assert_eq!(ticket, 0);
    assert_eq!(d.issued_tickets(), 1);

    // The drain driver's turn: pop the job, run its action, answer.
    let job = d.tick(&h).expect("one job is pending");
    let value = match &job {
        Job::Blocking { action, .. } => execute(*action),
        Job::Nonblocking { .. } => panic!("a blocking job was queued"),
    };
    let reply = Reply::answer(&job, value);

    // A mismatched ticket is refused: the waiter would fail loudly on it.
    assert!(reply.ticket == ticket);
    let stray = Reply { ticket: reply.ticket, value: reply.value };
    assert!(stray.claim(ticket + 1).is_none());

    // The submitter claims its own value.
    assert_eq!(reply.claim(ticket), Some(42));
}

#[test]
fn three_blocking_workers_each_get_their_own() {
    let (mut d, h) = fresh();
    let mut tickets = Vec::new();
    for (worker, action) in [(WORKER_A, 1), (WORKER_B, 2), (WORKER_C, 3)] {
        match d.submit_blocking(worker, action) {
            BlockingOutcome::Wait { ticket } => tickets.push(ticket),
            BlockingOutcome::RunNow { .. } => panic!("worker submission must queue"),
        }
    }
    assert_eq!(tickets, vec![0, 1, 2]);
    assert_eq!(d.pending_len(), 3);

    // Three drain firings service the three jobs in submission order; the
    // executed value here is the action itself, as in the scenario.
    let mut replies = Vec::new();
    for _ in 0..3 {
        let job = d.tick(&h).expect("a job is pending");
        let value = match &job {
            Job::Blocking { action, .. } => *action,
            Job::Nonblocking { .. } => panic!("only blocking jobs were queued"),
        };
        replies.push(Reply::answer(&job, value));
    }

    // No waiter can claim another's reply...
    for (i, reply) in replies.iter().enumerate() {
        for (j, &ticket) in tickets.iter().enumerate() {
            if i != j {
                let copy = Reply { ticket: reply.ticket, value: reply.value };
                assert!(copy.claim(ticket).is_none());
            }
        }
    }
    // ...and each waiter receives exactly the value its own action produced.
    let mut received = Vec::new();
    for (reply, &ticket) in replies.into_iter().zip(tickets.iter()) {
        received.push(reply.claim(ticket).expect("the matching ticket claims its reply"));
    }
    assert_eq!(received, vec![1, 2, 3]);
}

#[test]
fn dropped_handle_leaves_jobs_pending_forever() {
    // The liveness hazard: the scheduling handle is dropped right after
    // initialization, then a worker submits a blocking job. With the
    // registration gone no drain firing can ever happen — `tick` and `drain`
    // need the handle — so the job stays pending and the waiter would block
    // forever. The host, not the dispatcher, must prevent this.
    let (mut d, h) = fresh();
    drop(h);

    match d.submit_blocking(WORKER_A, 5) {
        BlockingOutcome::Wait { ticket } => assert_eq!(ticket, 0),
        BlockingOutcome::RunNow { .. } => panic!("worker submission must queue"),
    }
    assert_eq!(d.pending_len(), 1);
}

#[test]
fn mixed_submissions_keep_queue_order() {
    let (mut d, h) = fresh();
    d.submit(WORKER_A, 10);
    let ticket = match d.submit_blocking(WORKER_B, 20) {
        BlockingOutcome::Wait { ticket } => ticket,
        BlockingOutcome::RunNow { .. } => panic!("worker submission must queue"),
    };
    d.submit(WORKER_C, 30);

    match d.tick(&h) {
        Some(Job::Nonblocking { action }) => assert_eq!(action, 10),
        other => panic!("expected the oldest fire-and-forget job, got {:?}", other.is_some()),
    }
    match d.tick(&h) {
        Some(Job::Blocking { action, ticket: t }) => {
            assert_eq!(action, 20);
            assert_eq!(t, ticket);
        }
        _ => panic!("expected the blocking job second"),
    }
    match d.tick(&h) {
        Some(Job::Nonblocking { action }) => assert_eq!(action, 30),
        _ => panic!("expected the youngest job last"),
    }
}
