use vstd::prelude::*;
use crate::mailbox::{queue_of, enqueued, dequeued, head_of};
use crate::runtime::{RuntimeView, rotated};

verus! {

/// The live identifier set has as many members as there are runnable and
/// waiting tasks together.
pub proof fn lemma_live_count<F>(v: RuntimeView<F>)
    requires
        v.wf(),
    ensures
        v.ids.len() == v.runnable.len() + v.waiting.dom().len(),
{
    let s = v.runnable_ids();
    s.unique_seq_to_set();
    vstd::seq_lib::seq_to_set_is_finite(s);
    assert(s.to_set().disjoint(v.waiting.dom())) by {
        assert forall|k: u64| s.to_set().contains(k) implies !v.waiting.dom().contains(k) by {
            if v.waiting.contains_key(k) {
                assert(!s.contains(k));
            }
        }
    }
    vstd::set_lib::lemma_set_disjoint_lens(s.to_set(), v.waiting.dom());
}

/// A waiting task's identifier is live, and no runnable task bears it.
pub proof fn lemma_waiting_is_live<F>(v: RuntimeView<F>, k: u64)
    requires
        v.wf(),
        v.waiting.contains_key(k),
    ensures
        v.ids.contains(k),
        !v.runnable_ids().contains(k),
{
}

/// Two messages sent to one recipient are queued in the order they were
/// sent, behind those already pending; on an empty queue the next two
/// receives return the first message and then the second.
pub proof fn lemma_fifo_delivery(m: Map<u64, Seq<u64>>, k: u64, a: u64, b: u64)
    ensures
        queue_of(enqueued(enqueued(m, k, a), k, b), k) == queue_of(m, k).push(a).push(b),
        queue_of(m, k).len() == 0 ==> {
            let m2 = enqueued(enqueued(m, k, a), k, b);
            &&& head_of(m2, k) == Some(a)
            &&& head_of(dequeued(m2, k), k) == Some(b)
            &&& queue_of(dequeued(dequeued(m2, k), k), k).len() == 0
        },
{
    let m2 = enqueued(enqueued(m, k, a), k, b);
    if queue_of(m, k).len() == 0 {
        assert(queue_of(m2, k) =~= seq![a, b]);
        assert(queue_of(dequeued(m2, k), k) =~= seq![b]);
    }
}

/// A message sent to one recipient leaves every other queue as it was.
pub proof fn lemma_send_isolated(m: Map<u64, Seq<u64>>, k: u64, j: u64, c: u64)
    requires
        j != k,
    ensures
        queue_of(enqueued(m, j, c), k) == queue_of(m, k),
{
}

/// `t` round-robin steps applied to `q`.
pub open spec fn rotated_n<A>(q: Seq<A>, t: nat) -> Seq<A>
    decreases t,
{
    if t == 0 {
        q
    } else {
        rotated(rotated_n(q, (t - 1) as nat))
    }
}

proof fn lemma_rotated_prefix<A>(q: Seq<A>, j: nat)
    requires
        q.len() >= 2,
        j <= q.len(),
    ensures
        rotated_n(q, j) == q.subrange(j as int, q.len() as int) + q.subrange(0, j as int),
    decreases j,
{
    if j == 0 {
        assert(q.subrange(0, q.len() as int) + q.subrange(0, 0) =~= q);
    } else {
        lemma_rotated_prefix(q, (j - 1) as nat);
        let p = rotated_n(q, (j - 1) as nat);
        assert(p.len() == q.len());
        assert(rotated(p) =~= q.subrange(j as int, q.len() as int) + q.subrange(0, j as int));
    }
}

proof fn lemma_rotated_add<A>(q: Seq<A>, a: nat, b: nat)
    ensures
        rotated_n(q, a + b) == rotated_n(rotated_n(q, a), b),
    decreases b,
{
    if b > 0 {
        lemma_rotated_add(q, a, (b - 1) as nat);
        assert(a + b - 1 == a + (b - 1));
    }
}

proof fn lemma_rotated_len<A>(q: Seq<A>, t: nat)
    ensures
        rotated_n(q, t).len() == q.len(),
    decreases t,
{
    if t > 0 {
        lemma_rotated_len(q, (t - 1) as nat);
    }
}

proof fn lemma_rotated_cycles<A>(q: Seq<A>, m: nat)
    requires
        q.len() >= 1,
    ensures
        rotated_n(q, m * q.len()) == q,
    decreases m,
{
    let n = q.len();
    if n == 1 {
        lemma_rotated_single(q, m * n);
    } else if m > 0 {
        lemma_rotated_cycles(q, (m - 1) as nat);
        assert(m * n == (m - 1) * n + n) by (nonlinear_arith)
            requires
                m > 0,
        ;
        lemma_rotated_add(q, ((m - 1) * n) as nat, n);
        lemma_rotated_prefix(q, n);
        assert(q.subrange(n as int, n as int) + q.subrange(0, n as int) =~= q);
    } else {
        assert(m * n == 0) by (nonlinear_arith)
            requires
                m == 0,
        ;
    }
}

proof fn lemma_rotated_single<A>(q: Seq<A>, t: nat)
    requires
        q.len() < 2,
    ensures
        rotated_n(q, t) == q,
    decreases t,
{
    if t > 0 {
        lemma_rotated_single(q, (t - 1) as nat);
    }
}

/// Round-robin fairness: when every runnable task only yields, the task
/// at the front after `t` yields is the one at position `t % n` of the
/// queue at the start, and after `n` yields the queue is back as it was.
/// So the `i`-th turn of the task at position `j` is step `i * n + j`, and
/// every task has had its `i`-th turn before any has its `i + 1`-th.
pub proof fn lemma_round_robin<A>(q: Seq<A>, t: nat)
    requires
        q.len() >= 1,
    ensures
        rotated_n(q, t).len() == q.len(),
        rotated_n(q, t)[0] == q[(t % q.len()) as int],
        rotated_n(q, q.len()) == q,
{
    let n = q.len();
    lemma_rotated_len(q, t);
    lemma_rotated_cycles(q, 1);
    assert(1 * n == n);
    let m = t / n;
    let r = t % n;
    assert(t == m * n + r) by (nonlinear_arith)
        requires
            n >= 1,
            m == t / n,
            r == t % n,
    ;
    lemma_rotated_add(q, m * n, r);
    lemma_rotated_cycles(q, m);
    if n >= 2 {
        lemma_rotated_prefix(q, r);
        assert((q.subrange(r as int, n as int) + q.subrange(0, r as int))[0] == q[r as int]);
    } else {
        lemma_rotated_single(q, t);
    }
}

/// Draining the unused-stack slot a second time finds it empty and
/// changes nothing: two drains in a row are one.
pub proof fn lemma_drain_idempotent<F>(v: RuntimeView<F>)
    ensures
        v.drained().unused is None,
        v.drained().drained() == v.drained(),
{
}

} // verus!
