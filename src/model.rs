use vstd::prelude::*;

verus! {

/// The pool's state as far as its dispatch policy is concerned.
pub ghost struct PoolModel {
    /// The fixed number of workers.
    pub capacity: nat,
    /// How many workers have been activated; those with a lower index are
    /// active, the others dormant.
    pub activated: nat,
    /// Whether the sending handle is still held.
    pub open: bool,
}

/// What the shared channel did with one submitted job: a waiting worker took
/// it, no worker was waiting, or every receiving end was gone.
pub ghost enum Probe {
    Taken,
    NoReceiver,
    Disconnected,
}

/// Where one submitted job went: onto the shared channel, directly to the
/// worker with the given index as its first job, or back to the caller.
pub ghost enum Handoff {
    Channel,
    Direct(nat),
    Refused,
}

/// How a submission is to be attempted.
#[derive(Clone, Copy, Debug, PartialEq, Eq, Structural)]
pub enum Route {
    /// The sending handle is gone: the job cannot be accepted.
    Closed,
    /// Every worker is active: wait on the channel until one takes the job.
    Blocking,
    /// Offer the job to a waiting worker without blocking; activate the next
    /// dormant worker with it if none is waiting.
    TryFirst,
}

/// A pool with `n` workers right after construction: one worker activated.
pub open spec fn initial(n: nat) -> PoolModel {
    PoolModel { capacity: n, activated: 1, open: true }
}

pub open spec fn well_formed(m: PoolModel) -> bool {
    1 <= m.activated <= m.capacity
}

pub open spec fn route_of(m: PoolModel) -> Route {
    if !m.open {
        Route::Closed
    } else if m.activated >= m.capacity {
        Route::Blocking
    } else {
        Route::TryFirst
    }
}

/// Where a job submitted to `m` goes when the channel behaves as `p` says.
pub open spec fn handoff(m: PoolModel, p: Probe) -> Handoff {
    match route_of(m) {
        Route::Closed => Handoff::Refused,
        Route::Blocking => if p is Disconnected { Handoff::Refused } else { Handoff::Channel },
        Route::TryFirst => match p {
            Probe::Taken => Handoff::Channel,
            Probe::NoReceiver => Handoff::Direct(m.activated),
            Probe::Disconnected => Handoff::Refused,
        },
    }
}

/// The state after one submission.
pub open spec fn after(m: PoolModel, p: Probe) -> PoolModel {
    if handoff(m, p) is Direct {
        PoolModel { activated: m.activated + 1, ..m }
    } else {
        m
    }
}

/// The state after a sequence of submissions, one at a time.
pub open spec fn run(m: PoolModel, ps: Seq<Probe>) -> PoolModel
    decreases ps.len(),
{
    if ps.len() == 0 {
        m
    } else {
        after(run(m, ps.drop_last()), ps.last())
    }
}

/// Where each job of a sequence of submissions went, in order.
pub open spec fn handoffs(m: PoolModel, ps: Seq<Probe>) -> Seq<Handoff>
    decreases ps.len(),
{
    if ps.len() == 0 {
        Seq::empty()
    } else {
        handoffs(m, ps.drop_last()).push(handoff(run(m, ps.drop_last()), ps.last()))
    }
}

/// The state after teardown: the sending handle is dropped.
pub open spec fn closed(m: PoolModel) -> PoolModel {
    PoolModel { open: false, ..m }
}

/// How many submissions found no worker waiting.
pub open spec fn count_no_receiver(ps: Seq<Probe>) -> nat
    decreases ps.len(),
{
    if ps.len() == 0 {
        0
    } else {
        count_no_receiver(ps.drop_last()) + if ps.last() is NoReceiver { 1nat } else { 0nat }
    }
}

pub open spec fn never_disconnected(ps: Seq<Probe>) -> bool {
    forall|k: int| 0 <= k < ps.len() ==> !(ps[k] is Disconnected)
}

/// The worker index of a direct hand-off (0 for the other kinds).
pub open spec fn direct_index(h: Handoff) -> nat {
    match h {
        Handoff::Direct(i) => i,
        _ => 0,
    }
}

pub open spec fn min(a: nat, b: nat) -> nat {
    if a <= b { a } else { b }
}

} // verus!
