//! The worker pool: a fixed set of N workers, identified by their slot
//! number, with check-out / check-in semantics.
//!
//! The pool never hands the same worker to two callers at once: a checked-out
//! slot is absent from the free list, and only the holder of the matching
//! `WorkerHandle` can put it back. Check-out never waits for a free worker;
//! that wait belongs entirely to the admission gate.

use vstd::prelude::*;
use vstd::seq_lib::*;
use vstd::set_lib::*;

verus! {

/// Exclusive temporary ownership of one worker, named by its pool slot.
/// Minted only by `WorkerPool::checkout` and consumed by `checkin`.
pub struct WorkerHandle {
    id: usize,
}

impl WorkerHandle {
    /// The slot this handle owns.
    pub closed spec fn id_spec(self) -> usize {
        self.id
    }

    /// The slot this handle owns, for the caller that must pick the matching
    /// worker instance.
    pub fn worker_id(&self) -> (i: usize)
        ensures
            i == self.id_spec(),
    {
        self.id
    }
}

/// A fixed-capacity pool. `free` holds the slot numbers of the workers that
/// no one has checked out.
pub struct WorkerPool {
    capacity: usize,
    free: Vec<usize>,
}

/// A sequence of distinct values below `bound` cannot be longer than `bound`.
proof fn lemma_distinct_bounded_len(s: Seq<usize>, bound: nat)
    requires
        s.no_duplicates(),
        forall|i: int| 0 <= i < s.len() ==> (#[trigger] s[i]) < bound,
    ensures
        s.len() <= bound,
{
    let f = |u: usize| u as int;
    let t = s.map_values(f);
    assert(vstd::relations::injective(f)) by {
        assert(forall|x: usize, y: usize| #[trigger] f(x) == #[trigger] f(y) ==> x == y);
    }
    s.lemma_no_duplicates_injective(f);
    t.unique_seq_to_set();
    let range = set_int_range(0, bound as int);
    lemma_int_range(0, bound as int);
    assert(t.to_set().subset_of(range)) by {
        assert forall|x: int| t.to_set().contains(x) implies range.contains(x) by {
            let i = choose|i: int| 0 <= i < t.len() && t[i] == x;
            assert(s[i] < bound);
        }
    }
    lemma_len_subset(t.to_set(), range);
}

impl WorkerPool {
    /// The number of workers the pool owns.
    pub closed spec fn cap(self) -> int {
        self.capacity as int
    }

    /// The slots currently free, in stack order.
    pub closed spec fn free_ids(self) -> Seq<usize> {
        self.free@
    }

    /// How many workers are free.
    pub open spec fn free_count(self) -> int {
        self.free_ids().len() as int
    }

    /// How many workers are checked out.
    pub open spec fn checked_out(self) -> int {
        self.cap() - self.free_count()
    }

    /// Whether slot `id` is free.
    pub open spec fn is_free_spec(self, id: usize) -> bool {
        self.free_ids().contains(id)
    }

    /// The pool's invariant: the free slots are distinct, within range, and
    /// no more numerous than the capacity.
    pub open spec fn wf(self) -> bool {
        &&& self.free_ids().no_duplicates()
        &&& forall|i: int|
            0 <= i < self.free_ids().len() ==> (#[trigger] self.free_ids()[i]) < self.cap()
        &&& self.free_count() <= self.cap()
    }

    /// A fresh pool of `n` workers, all free.
    pub fn new(n: usize) -> (p: WorkerPool)
        ensures
            p.wf(),
            p.cap() == n,
            p.free_count() == n,
            forall|id: usize| id < n ==> p.is_free_spec(id),
    {
        let mut free: Vec<usize> = Vec::new();
        let mut i: usize = 0;
        while i < n
            invariant
                i <= n,
                free@.len() == i,
                forall|j: int| 0 <= j < i ==> free@[j] == j,
            decreases n - i,
        {
            free.push(i);
            i = i + 1;
        }
        let p = WorkerPool { capacity: n, free };
        proof {
            assert forall|id: usize| id < n implies p.is_free_spec(id) by {
                assert(p.free_ids()[id as int] == id);
            }
        }
        p
    }

    /// The number of workers the pool owns.
    pub fn capacity(&self) -> (n: usize)
        ensures
            n == self.cap(),
    {
        self.capacity
    }

    /// How many workers are free right now.
    pub fn free_workers(&self) -> (n: usize)
        ensures
            n == self.free_count(),
    {
        self.free.len()
    }

    /// Whether slot `id` is currently free.
    pub fn is_free(&self, id: usize) -> (b: bool)
        ensures
            b == self.is_free_spec(id),
    {
        let mut k: usize = 0;
        while k < self.free.len()
            invariant
                k <= self.free@.len(),
                forall|j: int| 0 <= j < k ==> self.free@[j] != id,
            decreases self.free@.len() - k,
        {
            if self.free[k] == id {
                return true;
            }
            k = k + 1;
        }
        false
    }

    /// Hand out a free worker, if there is one. Never waits: if every worker
    /// is out, the caller was admitted wrongly and gets `None` at once.
    pub fn checkout(&mut self) -> (r: Option<WorkerHandle>)
        requires
            old(self).wf(),
        ensures
            final(self).wf(),
            final(self).cap() == old(self).cap(),
            old(self).free_count() == 0 ==> r is None
                && final(self).free_ids() == old(self).free_ids(),
            old(self).free_count() > 0 ==> (r matches Some(h)
                && h.id_spec() == old(self).free_ids().last()
                && h.id_spec() < old(self).cap()
                && old(self).is_free_spec(h.id_spec())
                && !final(self).is_free_spec(h.id_spec())
                && final(self).free_ids() == old(self).free_ids().drop_last()),
    {
        match self.free.pop() {
            Some(id) => {
                proof {
                    let pre = old(self).free_ids();
                    assert(pre.contains(id)) by {
                        assert(pre.last() == id);
                    }
                    assert(!self.free_ids().contains(id)) by {
                        if self.free_ids().contains(id) {
                            let j = choose|j: int|
                                0 <= j < self.free_ids().len() && self.free_ids()[j] == id;
                            assert(pre[j] == pre[pre.len() - 1]);
                        }
                    }
                    assert(self.free_ids() =~= pre.drop_last());
                }
                Some(WorkerHandle { id })
            },
            None => None,
        }
    }

    /// Take a worker back, unconditionally. The handle proves the slot is
    /// out, so the free list stays duplicate-free and within capacity.
    pub fn checkin(&mut self, handle: WorkerHandle)
        requires
            old(self).wf(),
            handle.id_spec() < old(self).cap(),
            !old(self).is_free_spec(handle.id_spec()),
        ensures
            final(self).wf(),
            final(self).cap() == old(self).cap(),
            final(self).free_ids() == old(self).free_ids().push(handle.id_spec()),
            final(self).free_count() == old(self).free_count() + 1,
            final(self).is_free_spec(handle.id_spec()),
    {
        proof {
            let s = self.free_ids().push(handle.id_spec());
            assert(s.no_duplicates()) by {
                assert(forall|j: int|
                    0 <= j < self.free_ids().len() ==> s[j] == self.free_ids()[j]);
            }
            lemma_distinct_bounded_len(s, self.capacity as nat);
        }
        let WorkerHandle { id } = handle;
        self.free.push(id);
        proof {
            assert(self.free_ids().last() == id);
        }
    }
}

} // verus!
