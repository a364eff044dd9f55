//! A ghost model of the coupled admission and pool state, and the laws that
//! hold of every interleaving of requests.
//!
//! A request contributes two events to the shared state: `Begin` (a permit is
//! granted and a worker checked out, one atomic admission step) and `Finish`
//! (the worker is checked in and the permit released). Different requests'
//! events may interleave arbitrarily; the lemmas below quantify over every
//! enabled event sequence, so they cover all schedules of concurrently
//! issued requests.

use vstd::prelude::*;
use vstd::seq_lib::*;

verus! {

/// The joint state of the admission gate and the worker pool.
#[verifier::ext_equal]
pub ghost struct StateView {
    /// The admission gate's permit capacity (the configured concurrency limit).
    pub gate_cap: int,
    /// Permits currently free.
    pub avail: int,
    /// The number of workers the pool owns.
    pub worker_cap: int,
    /// The slots of the workers currently free.
    pub free: Seq<usize>,
}

impl StateView {
    /// Workers currently checked out, i.e. requests inside the pool.
    pub open spec fn in_flight(self) -> int {
        self.worker_cap - self.free.len()
    }

    /// The coupled invariant: permits never outnumber the capacity, the
    /// gate's limit never exceeds the worker count, free slots are distinct
    /// and in range, and each admitted request holds exactly one worker, so
    /// workers out equal permits in use.
    pub open spec fn wf(self) -> bool {
        &&& 0 <= self.avail <= self.gate_cap <= self.worker_cap
        &&& self.free.no_duplicates()
        &&& forall|i: int| 0 <= i < self.free.len() ==> (#[trigger] self.free[i]) < self.worker_cap
        &&& self.worker_cap - self.free.len() == self.gate_cap - self.avail
    }
}

/// One request's visible steps against the shared state.
pub ghost enum Event {
    /// Admission: a permit is granted and worker `id` checked out.
    Begin { id: usize },
    /// Completion: worker `id` is checked in and the permit released,
    /// whether the compute call succeeded or failed.
    Finish { id: usize },
}

/// When an event can happen: admission needs a free permit and that worker
/// free; completion needs that worker to be out and a permit in use.
pub open spec fn enabled(s: StateView, e: Event) -> bool {
    match e {
        Event::Begin { id } => s.avail > 0 && s.free.contains(id),
        Event::Finish { id } => id < s.worker_cap && !s.free.contains(id) && s.avail < s.gate_cap,
    }
}

/// The state after an event.
pub open spec fn apply(s: StateView, e: Event) -> StateView {
    match e {
        Event::Begin { id } => StateView {
            avail: s.avail - 1,
            free: s.free.remove_value(id),
            ..s
        },
        Event::Finish { id } => StateView { avail: s.avail + 1, free: s.free.push(id), ..s },
    }
}

/// The state after a whole event sequence.
pub open spec fn run(s: StateView, evs: Seq<Event>) -> StateView
    decreases evs.len(),
{
    if evs.len() == 0 {
        s
    } else {
        run(apply(s, evs[0]), evs.drop_first())
    }
}

/// Whether each event of the sequence is enabled when its turn comes.
pub open spec fn trace_enabled(s: StateView, evs: Seq<Event>) -> bool
    decreases evs.len(),
{
    evs.len() == 0 || (enabled(s, evs[0]) && trace_enabled(apply(s, evs[0]), evs.drop_first()))
}

/// How many admissions the sequence holds.
pub open spec fn count_begins(evs: Seq<Event>) -> int
    decreases evs.len(),
{
    if evs.len() == 0 {
        0
    } else {
        (if evs[0] is Begin {
            1int
        } else {
            0int
        }) + count_begins(evs.drop_first())
    }
}

/// How many completions the sequence holds.
pub open spec fn count_finishes(evs: Seq<Event>) -> int
    decreases evs.len(),
{
    if evs.len() == 0 {
        0
    } else {
        (if evs[0] is Finish {
            1int
        } else {
            0int
        }) + count_finishes(evs.drop_first())
    }
}

/// Removing a value that occurs once keeps the free list well-formed: one
/// element shorter, still duplicate-free, still in range.
proof fn lemma_remove_value_wf(s: Seq<usize>, id: usize, bound: int)
    requires
        s.no_duplicates(),
        s.contains(id),
        forall|i: int| 0 <= i < s.len() ==> (#[trigger] s[i]) < bound,
    ensures
        s.remove_value(id).len() == s.len() - 1,
        s.remove_value(id).no_duplicates(),
        forall|i: int|
            0 <= i < s.remove_value(id).len() ==> (#[trigger] s.remove_value(id)[i]) < bound,
{
    s.index_of_first_ensures(id);
    let k = s.index_of_first(id)->0;
    s.remove_ensures(k);
    let t = s.remove(k);
    assert forall|i: int, j: int| 0 <= i < j < t.len() implies t[i] != t[j] by {
        assert(t[i] == if i < k {
            s[i]
        } else {
            s[i + 1]
        });
        assert(t[j] == if j < k {
            s[j]
        } else {
            s[j + 1]
        });
    }
    assert forall|i: int| 0 <= i < t.len() implies t[i] < bound by {
        assert(t[i] == if i < k {
            s[i]
        } else {
            s[i + 1]
        });
    }
}

/// Each enabled event preserves the invariant and the two capacities.
pub proof fn lemma_step_wf(s: StateView, e: Event)
    requires
        s.wf(),
        enabled(s, e),
    ensures
        apply(s, e).wf(),
        apply(s, e).gate_cap == s.gate_cap,
        apply(s, e).worker_cap == s.worker_cap,
{
    match e {
        Event::Begin { id } => {
            lemma_remove_value_wf(s.free, id, s.worker_cap);
        },
        Event::Finish { id } => {
            assert(s.free.push(id).no_duplicates()) by {
                let t = s.free.push(id);
                assert(forall|j: int| 0 <= j < s.free.len() ==> t[j] == s.free[j]);
            }
        },
    }
}

/// The invariant holds along every enabled event sequence, whatever the
/// interleaving of requests; the capacities never change.
pub proof fn lemma_run_wf(s: StateView, evs: Seq<Event>)
    requires
        s.wf(),
        trace_enabled(s, evs),
    ensures
        run(s, evs).wf(),
        run(s, evs).gate_cap == s.gate_cap,
        run(s, evs).worker_cap == s.worker_cap,
    decreases evs.len(),
{
    if evs.len() > 0 {
        lemma_step_wf(s, evs[0]);
        lemma_run_wf(apply(s, evs[0]), evs.drop_first());
    }
}

/// Bounded concurrency: after any enabled sequence of request events, the
/// number of workers simultaneously engaged never exceeds the pool size, nor
/// the configured concurrency limit.
pub proof fn lemma_bounded_concurrency(s: StateView, evs: Seq<Event>)
    requires
        s.wf(),
        trace_enabled(s, evs),
    ensures
        run(s, evs).in_flight() <= s.gate_cap,
        run(s, evs).in_flight() <= s.worker_cap,
{
    lemma_run_wf(s, evs);
}

/// Exact accounting: along any enabled sequence, the free permits and the
/// free workers each fall by precisely the number of admissions not yet
/// matched by a completion. Nothing is leaked and nothing is minted.
pub proof fn lemma_resource_balance(s: StateView, evs: Seq<Event>)
    requires
        s.wf(),
        trace_enabled(s, evs),
    ensures
        run(s, evs).avail == s.avail - (count_begins(evs) - count_finishes(evs)),
        run(s, evs).free.len() == s.free.len() - (count_begins(evs) - count_finishes(evs)),
    decreases evs.len(),
{
    if evs.len() > 0 {
        lemma_step_wf(s, evs[0]);
        match evs[0] {
            Event::Begin { id } => {
                lemma_remove_value_wf(s.free, id, s.worker_cap);
            },
            Event::Finish { id } => {},
        }
        lemma_resource_balance(apply(s, evs[0]), evs.drop_first());
    }
}

/// No permit leakage and no worker leakage: after any enabled sequence of
/// completed requests (every admission matched by a completion), the permits
/// available equal the initial capacity again, and every worker is back in
/// the pool.
pub proof fn lemma_completed_requests_restore_capacity(s: StateView, evs: Seq<Event>)
    requires
        s.wf(),
        trace_enabled(s, evs),
        s.avail == s.gate_cap,
        count_begins(evs) == count_finishes(evs),
    ensures
        run(s, evs).avail == s.gate_cap,
        run(s, evs).free.len() == s.worker_cap,
        run(s, evs).in_flight() == 0,
    decreases evs.len(),
{
    lemma_run_wf(s, evs);
    lemma_resource_balance(s, evs);
}

/// Pool exhaustion is structurally impossible: with the admission limit at
/// most the pool size, a request that holds a permit always finds a free
/// worker, so check-out never needs to wait.
pub proof fn lemma_admitted_request_finds_a_worker(s: StateView)
    requires
        s.wf(),
        s.avail > 0,
    ensures
        s.free.len() > 0,
{
}

/// No starvation lock: when every permit is taken, any single completion
/// re-enables a waiting admission — the freed worker itself can be checked
/// out at once. Which waiter goes first is the admission gate's fairness policy.
pub proof fn lemma_release_unblocks(s: StateView, id: usize)
    requires
        s.wf(),
        s.avail == 0,
        enabled(s, Event::Finish { id }),
    ensures
        enabled(apply(s, Event::Finish { id }), Event::Begin { id }),
{
    assert(apply(s, Event::Finish { id }).free.last() == id);
}

} // verus!
