use vstd::prelude::*;
use crate::model::{after, handoff, initial, route_of, Handoff, PoolModel, Probe, Route};
use crate::worker::{Worker, WorkerState, WorkerView};

verus! {

/// The result of a non-blocking send on the shared channel.
pub enum Offer<J> {
    /// A waiting worker took the job.
    Taken,
    /// No worker was waiting; the job comes back.
    Full(J),
    /// Every receiving end is gone; the job comes back.
    Disconnected(J),
}

/// Where a submitted job went.
pub enum Dispatch<J> {
    /// Onto the shared channel, to a worker that was waiting or became free.
    Channel,
    /// To the worker with this index, as the first job of its new thread.
    Direct(usize),
    /// Nowhere: the channel is closed, and the job comes back.
    Refused(J),
}

impl<J> Offer<J> {
    pub open spec fn probe(&self) -> Probe {
        match self {
            Offer::Taken => Probe::Taken,
            Offer::Full(_) => Probe::NoReceiver,
            Offer::Disconnected(_) => Probe::Disconnected,
        }
    }
}

impl<J> Dispatch<J> {
    pub open spec fn kind(&self) -> Handoff {
        match self {
            Dispatch::Channel => Handoff::Channel,
            Dispatch::Direct(i) => Handoff::Direct(*i as nat),
            Dispatch::Refused(_) => Handoff::Refused,
        }
    }
}

/// A fixed set of workers, activated on demand, and the sending handle `S` of
/// the rendezvous channel that active workers receive from.
pub struct Pool<S, R, H> {
    tx: Option<S>,
    workers: Vec<Worker<R, H>>,
    activated: usize,
}

impl<S, R, H> View for Pool<S, R, H> {
    type V = PoolModel;

    closed spec fn view(&self) -> PoolModel {
        PoolModel {
            capacity: self.workers@.len(),
            activated: self.activated as nat,
            open: self.tx is Some,
        }
    }
}

impl<S, R, H> Pool<S, R, H> {
    /// Workers below the activation count are active and the rest dormant;
    /// while the pool is open every active worker holds its thread.
    pub closed spec fn wf(&self) -> bool {
        &&& 1 <= self.activated <= self.workers@.len()
        &&& forall|k: int| 0 <= k < self.workers@.len() ==> #[trigger] self.worker_ok(k)
    }

    closed spec fn worker_ok(&self, k: int) -> bool {
        let w = self.workers@[k];
        &&& w.wf()
        &&& w@ == (WorkerView {
            id: k as nat,
            state: if k < self.activated { WorkerState::Active } else { WorkerState::Dormant },
            holds_thread: self.tx is Some && k < self.activated,
        })
    }

    /// The state of the worker with index `k`.
    pub closed spec fn state_of(&self, k: int) -> WorkerState {
        self.workers@[k]@.state
    }

    /// In every well-formed pool the activation count lies between one and
    /// the capacity, and exactly the workers below it are active.
    pub proof fn lemma_states(&self)
        requires
            self.wf(),
        ensures
            crate::model::well_formed(self@),
            forall|k: int| 0 <= k < self@.capacity ==> #[trigger] self.state_of(k) == if k < self@.activated {
                WorkerState::Active
            } else {
                WorkerState::Dormant
            },
    {
        assert forall|k: int| 0 <= k < self@.capacity implies #[trigger] self.state_of(k) == if k < self@.activated {
            WorkerState::Active
        } else {
            WorkerState::Dormant
        } by {
            assert(self.worker_ok(k));
        }
    }

    /// Builds a pool with one worker per receiving end in `receivers` and
    /// activates worker 0 with `first`, so that the channel has a consumer
    /// from the start.
    pub fn new<J, F>(tx: S, receivers: Vec<R>, first: J, spawn: F) -> (p: Self)
        where
            F: FnOnce(R, J) -> H,
        requires
            receivers@.len() >= 1,
            forall|r: R, j: J| spawn.requires((r, j)),
        ensures
            p.wf(),
            p@ == initial(receivers@.len()),
    {
        let n = receivers.len();
        let mut receivers = receivers;
        let mut workers: Vec<Worker<R, H>> = Vec::new();
        let mut i: usize = 0;
        while receivers.len() > 0
            invariant
                i + receivers@.len() == n,
                workers@.len() == i,
                forall|k: int| 0 <= k < i ==> {
                    &&& (#[trigger] workers@[k]).wf()
                    &&& workers@[k]@ == (WorkerView { id: k as nat, state: WorkerState::Dormant, holds_thread: false })
                },
            decreases receivers@.len(),
        {
            let rx = receivers.remove(0);
            workers.push(Worker::new(i, rx));
            i = i + 1;
        }
        let ghost dormant = workers@;
        let mut w = workers.remove(0);
        w.awake(first, spawn);
        workers.insert(0, w);
        assert(workers@ == dormant.update(0, w));
        let p = Pool { tx: Some(tx), workers, activated: 1 };
        assert forall|k: int| 0 <= k < p.workers@.len() implies #[trigger] p.worker_ok(k) by {
            if k > 0 {
                assert(p.workers@[k] == dormant[k]);
            }
        };
        p
    }

    /// How the next submission is to be attempted.
    pub fn route(&self) -> (r: Route)
        requires
            self.wf(),
        ensures
            r == route_of(self@),
    {
        if self.tx.is_none() {
            Route::Closed
        } else if self.activated >= self.workers.len() {
            Route::Blocking
        } else {
            Route::TryFirst
        }
    }

    /// Finishes a submission whose non-blocking send ended as `offer`: a job
    /// that no worker was waiting for activates the next dormant worker.
    pub fn settle<J, F>(&mut self, offer: Offer<J>, spawn: F) -> (r: Dispatch<J>)
        where
            F: FnOnce(R, J) -> H,
        requires
            old(self).wf(),
            route_of(old(self)@) == Route::TryFirst,
            forall|r: R, j: J| spawn.requires((r, j)),
        ensures
            final(self).wf(),
            r.kind() == handoff(old(self)@, offer.probe()),
            final(self)@ == after(old(self)@, offer.probe()),
            offer matches Offer::Disconnected(j) ==> r == Dispatch::<J>::Refused(j),
    {
        match offer {
            Offer::Taken => Dispatch::Channel,
            Offer::Full(job) => {
                let i = self.activated;
                let n = self.workers.len();
                let ghost before = self.workers@;
                proof {
                    assert(self.worker_ok(i as int));
                }
                let mut w = self.workers.remove(i);
                w.awake(job, spawn);
                self.workers.insert(i, w);
                assert(self.workers@ == before.update(i as int, w));
                assert(i < n);
                self.activated = i + 1;
                assert forall|k: int| 0 <= k < self.workers@.len() implies #[trigger] self.worker_ok(k) by {
                    if k != i {
                        assert(self.workers@[k] == before[k]);
                        assert(old(self).worker_ok(k));
                    }
                };
                Dispatch::Direct(i)
            },
            Offer::Disconnected(job) => Dispatch::Refused(job),
        }
    }

    /// Submits `job`, following the dispatch policy:
    /// - on a closed pool the job comes back refused, and nothing is called;
    /// - when every worker is active, `send` waits on the channel until a
    ///   worker takes the job (an `Err` means the channel is closed);
    /// - otherwise `try_send` offers the job to a waiting worker, and `settle`
    ///   decides on what came back.
    pub fn submit<J, T, B, F>(&mut self, job: J, try_send: T, send: B, spawn: F) -> (r: Dispatch<J>)
        where
            T: FnOnce(&S, J) -> Offer<J>,
            B: FnOnce(&S, J) -> Result<(), J>,
            F: FnOnce(R, J) -> H,
        requires
            old(self).wf(),
            forall|s: &S, j: J| try_send.requires((s, j)),
            forall|s: &S, j: J| send.requires((s, j)),
            forall|r: R, j: J| spawn.requires((r, j)),
        ensures
            final(self).wf(),
            exists|p: Probe|
                final(self)@ == after(old(self)@, p) && r.kind() == #[trigger] handoff(old(self)@, p),
            !old(self)@.open ==> r == Dispatch::<J>::Refused(job),
    {
        let route = self.route();
        match route {
            Route::Closed => {
                assert(handoff(old(self)@, Probe::Taken) == Handoff::Refused);
                Dispatch::Refused(job)
            },
            Route::Blocking => {
                let sent = match &self.tx {
                    Some(tx) => send(tx, job),
                    None => Err(job),
                };
                match sent {
                    Ok(()) => {
                        assert(handoff(old(self)@, Probe::Taken) == Handoff::Channel);
                        Dispatch::Channel
                    },
                    Err(j) => {
                        assert(handoff(old(self)@, Probe::Disconnected) == Handoff::Refused);
                        Dispatch::Refused(j)
                    },
                }
            },
            Route::TryFirst => {
                let offer = match &self.tx {
                    Some(tx) => try_send(tx, job),
                    None => Offer::Disconnected(job),
                };
                let ghost p = offer.probe();
                let r = self.settle(offer, spawn);
                assert(handoff(old(self)@, p) == r.kind());
                r
            },
        }
    }

    /// Drops the sending handle, which tells every active worker to stop once
    /// it is idle, then hands out the threads' handles in worker order, to be
    /// joined. Dormant workers have no thread and are skipped.
    pub fn teardown(&mut self) -> (r: Vec<H>)
        requires
            old(self).wf(),
        ensures
            final(self).wf(),
            final(self)@ == crate::model::closed(old(self)@),
            r@.len() == if old(self)@.open { old(self)@.activated } else { 0 },
    {
        let was_open = self.tx.is_some();
        self.tx = None;
        let mut handles: Vec<H> = Vec::new();
        let n = self.workers.len();
        let mut i: usize = 0;
        assert forall|k: int| 0 <= k < n implies {
            let w = #[trigger] self.workers@[k];
            &&& w.wf()
            &&& w@ == (WorkerView { holds_thread: k >= i && old(self).workers@[k]@.holds_thread, ..old(self).workers@[k]@ })
        } by {
            assert(old(self).worker_ok(k));
        };
        while i < n
            invariant
                n == self.workers@.len(),
                0 <= i <= n,
                self.tx is None,
                self.activated == old(self).activated,
                old(self).wf(),
                was_open == old(self).tx is Some,
                self.workers@.len() == old(self).workers@.len(),
                handles@.len() == if was_open { if i <= self.activated { i as nat } else { self.activated as nat } } else { 0 },
                forall|k: int| 0 <= k < n ==> {
                    let w = #[trigger] self.workers@[k];
                    &&& w.wf()
                    &&& w@ == (WorkerView { holds_thread: k >= i && old(self).workers@[k]@.holds_thread, ..old(self).workers@[k]@ })
                },
            decreases n - i,
        {
            let ghost before = self.workers@;
            proof {
                assert(old(self).worker_ok(i as int));
            }
            let mut w = self.workers.remove(i);
            let h = w.take_thread();
            self.workers.insert(i, w);
            assert(self.workers@ == before.update(i as int, w));
            match h {
                Some(h) => handles.push(h),
                None => {},
            }
            i = i + 1;
        }
        assert forall|k: int| 0 <= k < self.workers@.len() implies #[trigger] self.worker_ok(k) by {
            assert(old(self).worker_ok(k));
        };
        handles
    }

    pub fn capacity(&self) -> (r: usize)
        requires
            self.wf(),
        ensures
            r as nat == self@.capacity,
    {
        self.workers.len()
    }

    pub fn activated(&self) -> (r: usize)
        requires
            self.wf(),
        ensures
            r as nat == self@.activated,
    {
        self.activated
    }

    pub fn is_open(&self) -> (r: bool)
        requires
            self.wf(),
        ensures
            r == self@.open,
    {
        self.tx.is_some()
    }

    /// The state of the worker with index `k`: active exactly when `k` is
    /// below the activation count.
    pub fn worker_state(&self, k: usize) -> (r: WorkerState)
        requires
            self.wf(),
            k < self@.capacity,
        ensures
            r == self.state_of(k as int),
            r == if k < self@.activated { WorkerState::Active } else { WorkerState::Dormant },
    {
        proof {
            assert(self.worker_ok(k as int));
        }
        self.workers[k].state()
    }
}

} // verus!
