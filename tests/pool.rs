use lazy_pool::model::Route;
use lazy_pool::pool::{Dispatch, Offer, Pool};
use lazy_pool::worker::{Worker, WorkerState};

// Plain stand-ins: the sender is a tag, a receiving end is a worker index,
// a job is a number, and a "thread handle" records which receiving end
// and which first job the thread was started with.
type TestPool = Pool<u8, usize, (usize, u32)>;

fn spawn(rx: usize, job: u32) -> (usize, u32) {
    (rx, job)
}

fn build(n: usize) -> TestPool {
    let receivers: Vec<usize> = (0..n).collect();
    Pool::new(7u8, receivers, 0u32, spawn)
}

fn offer_taken(_tx: &u8, _job: u32) -> Offer<u32> {
    Offer::Taken
}

fn offer_full(_tx: &u8, job: u32) -> Offer<u32> {
    Offer::Full(job)
}

fn offer_disconnected(_tx: &u8, job: u32) -> Offer<u32> {
    Offer::Disconnected(job)
}

fn send_ok(_tx: &u8, _job: u32) -> Result<(), u32> {
    Ok(())
}

fn send_closed(_tx: &u8, job: u32) -> Result<(), u32> {
    Err(job)
}

fn direct_index(d: Dispatch<u32>) -> Option<usize> {
    match d {
        Dispatch::Direct(i) => Some(i),
        _ => None,
    }
}

#[test]
fn construct_then_teardown_joins_one_thread() {
    for n in 1..6 {
        let mut pool = build(n);
        assert_eq!(pool.capacity(), n);
        assert_eq!(pool.activated(), 1);
        assert!(pool.is_open());
        let handles = pool.teardown();
        assert_eq!(handles, vec![(0usize, 0u32)]);
        assert!(!pool.is_open());
        assert_eq!(pool.route(), Route::Closed);
    }
}

#[test]
fn new_activates_only_worker_zero() {
    let pool = build(3);
    assert_eq!(pool.worker_state(0), WorkerState::Active);
    assert_eq!(pool.worker_state(1), WorkerState::Dormant);
    assert_eq!(pool.worker_state(2), WorkerState::Dormant);
    assert_eq!(pool.route(), Route::TryFirst);
}

#[test]
fn waiting_worker_takes_job_without_activation() {
    let mut pool = build(3);
    let d = pool.submit(5u32, offer_taken, send_ok, spawn);
    assert!(matches!(d, Dispatch::Channel));
    assert_eq!(pool.activated(), 1);
}

#[test]
fn busy_workers_activate_next_dormant_one() {
    let mut pool = build(3);
    let d = pool.submit(5u32, offer_full, send_ok, spawn);
    assert_eq!(direct_index(d), Some(1));
    assert_eq!(pool.activated(), 2);
    assert_eq!(pool.worker_state(1), WorkerState::Active);
    assert_eq!(pool.worker_state(2), WorkerState::Dormant);
    let d = pool.submit(6u32, offer_full, send_ok, spawn);
    assert_eq!(direct_index(d), Some(2));
    assert_eq!(pool.route(), Route::Blocking);
    let handles = pool.teardown();
    assert_eq!(handles, vec![(0usize, 0u32), (1, 5), (2, 6)]);
}

#[test]
fn few_submissions_activate_at_most_one_per_job() {
    let mut pool = build(4);
    let mut directs = Vec::new();
    for job in 1..=4u32 {
        let d = if job % 2 == 0 {
            pool.submit(job, offer_full, send_ok, spawn)
        } else {
            pool.submit(job, offer_taken, send_ok, spawn)
        };
        assert!(!matches!(d, Dispatch::Refused(_)));
        if let Some(i) = direct_index(d) {
            directs.push(i);
        }
    }
    assert_eq!(directs, vec![1, 2]);
    assert_eq!(pool.activated(), 3);
    assert!(pool.activated() <= 4);
}

#[test]
fn many_submissions_activate_exactly_capacity() {
    let n = 3;
    let mut pool = build(n);
    let mut channel = 0;
    let mut direct = 0;
    for job in 1..=10u32 {
        match pool.submit(job, offer_full, send_ok, spawn) {
            Dispatch::Channel => channel += 1,
            Dispatch::Direct(_) => direct += 1,
            Dispatch::Refused(_) => panic!("job {} refused", job),
        }
    }
    assert_eq!(pool.activated(), n);
    assert_eq!(direct, n - 1);
    assert_eq!(channel + direct, 10);
    assert_eq!(pool.teardown().len(), n);
}

#[test]
fn second_batch_activates_nothing_more() {
    let mut pool = build(2);
    for job in 1..=3u32 {
        pool.submit(job, offer_full, send_ok, spawn);
    }
    assert_eq!(pool.activated(), 2);
    for job in 4..=6u32 {
        let d = pool.submit(job, offer_full, send_ok, spawn);
        assert!(matches!(d, Dispatch::Channel));
    }
    assert_eq!(pool.activated(), 2);
    assert_eq!(pool.teardown(), vec![(0usize, 0u32), (1, 1)]);
}

#[test]
fn single_worker_sends_every_job_on_the_channel() {
    let mut pool = build(1);
    assert_eq!(pool.route(), Route::Blocking);
    for job in 1..=5u32 {
        let d = pool.submit(job, offer_full, send_ok, spawn);
        assert!(matches!(d, Dispatch::Channel));
    }
    assert_eq!(pool.activated(), 1);
    assert_eq!(pool.teardown().len(), 1);
}

#[test]
fn two_worker_scenario() {
    let mut pool = build(2);
    // A: no worker waiting, so worker 1 is woken with it.
    let a = pool.submit(10u32, offer_full, send_ok, spawn);
    assert_eq!(direct_index(a), Some(1));
    // B: both workers active, so B waits on the channel.
    assert_eq!(pool.route(), Route::Blocking);
    let b = pool.submit(11u32, offer_full, send_ok, spawn);
    assert!(matches!(b, Dispatch::Channel));
    let handles = pool.teardown();
    assert_eq!(handles.len(), 2);
}

#[test]
fn two_worker_scenario_with_idle_worker() {
    let mut pool = build(2);
    let a = pool.submit(10u32, offer_taken, send_ok, spawn);
    assert!(matches!(a, Dispatch::Channel));
    assert_eq!(pool.activated(), 1);
    assert_eq!(pool.teardown().len(), 1);
}

#[test]
fn submit_after_teardown_is_refused() {
    let mut pool = build(2);
    pool.teardown();
    let d = pool.submit(42u32, offer_taken, send_ok, spawn);
    assert!(matches!(d, Dispatch::Refused(42)));
    assert_eq!(pool.activated(), 1);
    assert!(pool.teardown().is_empty());
}

#[test]
fn disconnected_channel_refuses_job() {
    let mut pool = build(2);
    let d = pool.submit(9u32, offer_disconnected, send_ok, spawn);
    assert!(matches!(d, Dispatch::Refused(9)));
    assert_eq!(pool.activated(), 1);
    let mut full = build(1);
    let d = full.submit(8u32, offer_taken, send_closed, spawn);
    assert!(matches!(d, Dispatch::Refused(8)));
}

#[test]
fn settle_maps_each_offer() {
    let mut pool = build(2);
    assert!(matches!(pool.settle(Offer::Taken, spawn), Dispatch::Channel));
    assert!(matches!(pool.settle(Offer::Disconnected(3u32), spawn), Dispatch::Refused(3)));
    assert_eq!(direct_index(pool.settle(Offer::Full(4u32), spawn)), Some(1));
    assert_eq!(pool.activated(), 2);
}

#[test]
fn worker_lifecycle() {
    let mut w: Worker<usize, (usize, u32)> = Worker::new(4, 40);
    assert_eq!(w.id(), 4);
    assert_eq!(w.state(), WorkerState::Dormant);
    assert_eq!(w.take_thread(), None);
    w.awake(9u32, spawn);
    assert_eq!(w.state(), WorkerState::Active);
    assert_eq!(w.take_thread(), Some((40, 9)));
    assert_eq!(w.take_thread(), None);
    assert_eq!(w.state(), WorkerState::Active);
}
