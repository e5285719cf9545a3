use vstd::prelude::*;
use crate::model::{
    after, closed, count_no_receiver, direct_index, handoff, handoffs, initial, min,
    never_disconnected, route_of, run, well_formed, Handoff, PoolModel, Probe, Route,
};

verus! {

/// Over any sequence of submissions to an open pool: the activation count
/// grows by one for each job that found no worker waiting, up to the
/// capacity; each job gets exactly one hand-off, refused only when the
/// channel was disconnected; and direct hand-offs go to fresh workers in
/// increasing index order.
pub proof fn lemma_run(m: PoolModel, ps: Seq<Probe>)
    requires
        well_formed(m),
        m.open,
    ensures
        well_formed(run(m, ps)),
        run(m, ps).capacity == m.capacity,
        run(m, ps).open,
        run(m, ps).activated == min(m.capacity, m.activated + count_no_receiver(ps)),
        handoffs(m, ps).len() == ps.len(),
        forall|k: int|
            0 <= k < ps.len() ==> (#[trigger] handoffs(m, ps)[k] is Refused <==> ps[k] is Disconnected),
        forall|k: int|
            0 <= k < ps.len() && #[trigger] handoffs(m, ps)[k] is Direct ==> m.activated
                <= direct_index(handoffs(m, ps)[k]) < run(m, ps).activated,
        forall|j: int, k: int|
            0 <= j < k < ps.len() && #[trigger] handoffs(m, ps)[j] is Direct
                && #[trigger] handoffs(m, ps)[k] is Direct ==> direct_index(handoffs(m, ps)[j])
                < direct_index(handoffs(m, ps)[k]),
    decreases ps.len(),
{
    if ps.len() > 0 {
        let q = ps.drop_last();
        lemma_run(m, q);
        let s = run(m, q);
        let hs = handoffs(m, ps);
        assert(hs == handoffs(m, q).push(handoff(s, ps.last())));
        assert forall|k: int| 0 <= k < q.len() implies ps[k] == q[k] && hs[k] == handoffs(m, q)[k] by {}
        assert(ps[q.len() as int] == ps.last());
    }
}

/// Constructing a pool and tearing it down at once needs nothing but a
/// capacity of at least one: teardown joins the single pre-activated worker
/// and leaves a closed pool.
pub proof fn law_construct_then_teardown(n: nat)
    requires
        n >= 1,
    ensures
        well_formed(initial(n)),
        initial(n).open,
        closed(initial(n)).activated == 1,
        route_of(closed(initial(n))) == Route::Closed,
{
}

/// At most as many submissions as workers, with the channel never
/// disconnected: every job is handed off exactly once, no worker is
/// activated twice, and no more workers than submissions are activated
/// beyond the pre-activated one, nor more than the capacity.
pub proof fn law_few_submissions(n: nat, ps: Seq<Probe>)
    requires
        n >= 1,
        ps.len() <= n,
        never_disconnected(ps),
    ensures
        handoffs(initial(n), ps).len() == ps.len(),
        forall|k: int| 0 <= k < ps.len() ==> !(#[trigger] handoffs(initial(n), ps)[k] is Refused),
        forall|j: int, k: int|
            0 <= j < k < ps.len() && #[trigger] handoffs(initial(n), ps)[j] is Direct
                && #[trigger] handoffs(initial(n), ps)[k] is Direct ==> direct_index(
                handoffs(initial(n), ps)[j],
            ) != direct_index(handoffs(initial(n), ps)[k]),
        run(initial(n), ps).activated <= n,
        run(initial(n), ps).activated <= 1 + ps.len(),
{
    lemma_run(initial(n), ps);
    lemma_count_bound(ps);
    assert forall|k: int| 0 <= k < ps.len() implies !(#[trigger] handoffs(initial(n), ps)[k] is Refused) by {
        assert(!(ps[k] is Disconnected));
    }
}

/// No more submissions are counted as unanswered than were made.
pub proof fn lemma_count_bound(ps: Seq<Probe>)
    ensures
        count_no_receiver(ps) <= ps.len(),
    decreases ps.len(),
{
    if ps.len() > 0 {
        lemma_count_bound(ps.drop_last());
    }
}

/// More submissions than workers, with the channel never disconnected and
/// enough of them finding every active worker busy to wake the whole pool:
/// exactly the capacity is activated, and every job is handed off exactly
/// once.
pub proof fn law_many_submissions(n: nat, ps: Seq<Probe>)
    requires
        n >= 1,
        ps.len() > n,
        never_disconnected(ps),
        count_no_receiver(ps) + 1 >= n,
    ensures
        run(initial(n), ps).activated == n,
        handoffs(initial(n), ps).len() == ps.len(),
        forall|k: int| 0 <= k < ps.len() ==> !(#[trigger] handoffs(initial(n), ps)[k] is Refused),
{
    lemma_run(initial(n), ps);
    assert forall|k: int| 0 <= k < ps.len() implies !(#[trigger] handoffs(initial(n), ps)[k] is Refused) by {
        assert(!(ps[k] is Disconnected));
    }
}

/// Submitting a batch and then another runs as one sequence would.
pub proof fn lemma_run_append(m: PoolModel, ps1: Seq<Probe>, ps2: Seq<Probe>)
    ensures
        run(m, ps1 + ps2) == run(run(m, ps1), ps2),
        handoffs(m, ps1 + ps2) == handoffs(m, ps1) + handoffs(run(m, ps1), ps2),
    decreases ps2.len(),
{
    if ps2.len() == 0 {
        assert(ps1 + ps2 == ps1);
    } else {
        let q2 = ps2.drop_last();
        lemma_run_append(m, ps1, q2);
        assert((ps1 + ps2).drop_last() == ps1 + q2);
        assert((ps1 + ps2).last() == ps2.last());
        assert(handoffs(m, ps1) + handoffs(run(m, ps1), q2).push(handoff(run(run(m, ps1), q2), ps2.last()))
            == (handoffs(m, ps1) + handoffs(run(m, ps1), q2)).push(handoff(run(run(m, ps1), q2), ps2.last())));
    }
}

/// A second batch after a first one: the first batch's hand-offs stay as
/// they were and the second adds exactly one per new job; the activation
/// count never passes the capacity, and once the whole pool is active a
/// second batch activates no worker.
pub proof fn law_second_batch(n: nat, ps1: Seq<Probe>, ps2: Seq<Probe>)
    requires
        n >= 1,
    ensures
        run(initial(n), ps1 + ps2) == run(run(initial(n), ps1), ps2),
        handoffs(initial(n), ps1 + ps2) == handoffs(initial(n), ps1) + handoffs(run(initial(n), ps1), ps2),
        handoffs(run(initial(n), ps1), ps2).len() == ps2.len(),
        run(initial(n), ps1 + ps2).activated <= n,
        run(initial(n), ps1).activated == n ==> run(initial(n), ps1 + ps2).activated == n,
        run(initial(n), ps1).activated == n ==> forall|k: int|
            0 <= k < ps2.len() ==> !(#[trigger] handoffs(run(initial(n), ps1), ps2)[k] is Direct),
{
    lemma_run_append(initial(n), ps1, ps2);
    lemma_run(initial(n), ps1);
    lemma_run(run(initial(n), ps1), ps2);
}

/// With a single worker, the pre-activated one, every job goes onto the
/// channel in submission order and no worker is ever activated.
pub proof fn law_single_worker(ps: Seq<Probe>)
    requires
        never_disconnected(ps),
    ensures
        handoffs(initial(1), ps) == Seq::new(ps.len(), |k: int| Handoff::Channel),
        run(initial(1), ps).activated == 1,
{
    lemma_run(initial(1), ps);
    let hs = handoffs(initial(1), ps);
    assert forall|k: int| 0 <= k < ps.len() implies hs[k] == Handoff::Channel by {
        assert(!(ps[k] is Disconnected));
        assert(!(hs[k] is Refused));
        if hs[k] is Direct {
            assert(direct_index(hs[k]) < 1);
        }
    }
    assert(hs =~= Seq::new(ps.len(), |k: int| Handoff::Channel));
}

/// Once torn down, a pool refuses every job and stays as it is.
pub proof fn law_closed_refuses(m: PoolModel, p: Probe)
    requires
        !m.open,
    ensures
        handoff(m, p) == Handoff::Refused,
        after(m, p) == m,
{
}

} // verus!
