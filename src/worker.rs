use vstd::prelude::*;

verus! {

/// The two states of a worker: no thread yet, or a thread that was spawned.
#[derive(Clone, Copy, Debug, PartialEq, Eq, Structural)]
pub enum WorkerState {
    Dormant,
    Active,
}

/// What a worker is, seen from outside: its index, its state, and whether it
/// still holds the handle of its thread (it gives that up once, at teardown).
pub ghost struct WorkerView {
    pub id: nat,
    pub state: WorkerState,
    pub holds_thread: bool,
}

/// One potential execution thread.
///
/// A dormant worker keeps the receiving end `R` of the shared channel until it
/// is activated; activation moves that receiving end into a freshly spawned
/// thread, whose handle `H` the worker then keeps.
pub struct Worker<R, H> {
    id: usize,
    recv: Option<R>,
    thread: Option<H>,
}

impl<R, H> View for Worker<R, H> {
    type V = WorkerView;

    closed spec fn view(&self) -> WorkerView {
        WorkerView {
            id: self.id as nat,
            state: if self.recv is Some { WorkerState::Dormant } else { WorkerState::Active },
            holds_thread: self.thread is Some,
        }
    }
}

impl<R, H> Worker<R, H> {
    /// A dormant worker never holds a thread.
    pub closed spec fn wf(&self) -> bool {
        self.recv is Some ==> self.thread is None
    }

    /// A dormant worker with index `id` that keeps `recv` until activation.
    pub fn new(id: usize, recv: R) -> (w: Self)
        ensures
            w.wf(),
            w@ == (WorkerView { id: id as nat, state: WorkerState::Dormant, holds_thread: false }),
    {
        Worker { id, recv: Some(recv), thread: None }
    }

    pub fn id(&self) -> (r: usize)
        ensures
            r as nat == self@.id,
    {
        self.id
    }

    pub fn state(&self) -> (r: WorkerState)
        ensures
            r == self@.state,
    {
        if self.recv.is_some() {
            WorkerState::Dormant
        } else {
            WorkerState::Active
        }
    }

    /// Activates a dormant worker: hands its receiving end and the first job
    /// to `spawn`, which starts the thread, and keeps the thread's handle.
    /// The receiving end is taken, so a worker is activated at most once.
    pub fn awake<J, F>(&mut self, job: J, spawn: F)
        where
            F: FnOnce(R, J) -> H,
        requires
            old(self).wf(),
            old(self)@.state == WorkerState::Dormant,
            forall|r: R, j: J| spawn.requires((r, j)),
        ensures
            final(self).wf(),
            final(self)@ == (WorkerView { state: WorkerState::Active, holds_thread: true, ..old(self)@ }),
    {
        let recv = self.recv.take();
        match recv {
            Some(rx) => {
                let handle = spawn(rx, job);
                self.thread = Some(handle);
            },
            None => {},
        }
    }

    /// Gives up the thread's handle, for joining; `None` when the worker holds
    /// none (it is dormant, or its handle was taken before).
    pub fn take_thread(&mut self) -> (r: Option<H>)
        requires
            old(self).wf(),
        ensures
            final(self).wf(),
            r is Some == old(self)@.holds_thread,
            final(self)@ == (WorkerView { holds_thread: false, ..old(self)@ }),
    {
        self.thread.take()
    }
}

} // verus!
