//! The request handler core: one admission-controlled pool, and the
//! end-to-end orchestration of a feature-extraction request against it.
//!
//! A request runs validate → admit (permit) → check a worker out → embed →
//! check the worker in → release the permit, and the two resources are
//! released on every exit path, in reverse acquisition order. The embedding
//! computation itself is opaque: the caller passes it in as a function of
//! the checked-out worker's slot, and the handler guarantees the accounting
//! around it and hands its result through unchanged.

use vstd::prelude::*;
use vstd::seq_lib::*;

use crate::errors::AppError;
use crate::errors::ComputeError;
use crate::gate::Gate;
use crate::gate::Permit;
use crate::pool::WorkerHandle;
use crate::pool::WorkerPool;
use crate::trace::Event;
use crate::trace::StateView;
use crate::trace::apply;
use crate::trace::enabled;

verus! {

/// The body of one request: the ordered texts to embed. A request is valid
/// exactly when the sequence is non-empty.
pub struct FeatureExtraction {
    pub inputs: Vec<String>,
}

impl FeatureExtraction {
    /// A request is valid when it carries at least one input.
    pub open spec fn valid_spec(self) -> bool {
        self.inputs@.len() > 0
    }

    pub fn new(inputs: Vec<String>) -> (r: FeatureExtraction)
        ensures
            r.inputs == inputs,
    {
        FeatureExtraction { inputs }
    }

    /// Whether the request passes validation.
    pub fn validate(&self) -> (b: bool)
        ensures
            b == self.valid_spec(),
    {
        self.inputs.len() > 0
    }
}

/// Proof of one admitted request in flight: the permit and the checked-out
/// worker, bound together. Minted only by `ProtectedPool::try_begin`,
/// consumed exactly once by `ProtectedPool::finish`.
pub struct Ticket {
    permit: Permit,
    handle: WorkerHandle,
}

impl Ticket {
    /// The slot of the worker this request holds.
    pub closed spec fn worker(self) -> usize {
        self.handle.id_spec()
    }

    /// The slot of the worker this request holds, to pick the instance the
    /// embedding runs on.
    pub fn worker_id(&self) -> (i: usize)
        ensures
            i == self.worker(),
    {
        self.handle.worker_id()
    }
}

/// The admission gate and the worker pool, coupled: a permit is acquired
/// before any check-out and released after the check-in, so admitted
/// requests hold exactly one worker each and the pool can never be found
/// empty by an admitted request.
pub struct ProtectedPool {
    gate: Gate,
    pool: WorkerPool,
}

/// Removing the last element of a duplicate-free sequence by value is
/// dropping it.
proof fn lemma_remove_value_last(s: Seq<usize>)
    requires
        s.len() > 0,
        s.no_duplicates(),
    ensures
        s.remove_value(s.last()) =~= s.drop_last(),
{
    let v = s.last();
    assert(s.contains(v)) by {
        assert(s[s.len() - 1] == v);
    }
    s.index_of_first_ensures(v);
    let k = s.index_of_first(v)->0;
    assert(k == s.len() - 1) by {
        if k < s.len() - 1 {
            assert(s[k] == s[s.len() - 1]);
        }
    }
    s.remove_ensures(k);
}

impl ProtectedPool {
    /// The ghost state the laws in `trace` speak of.
    pub closed spec fn model(self) -> StateView {
        StateView {
            gate_cap: self.gate.cap(),
            avail: self.gate.avail(),
            worker_cap: self.pool.cap(),
            free: self.pool.free_ids(),
        }
    }

    /// The coupled invariant, established by the constructors and preserved
    /// by every operation.
    pub open spec fn wf(self) -> bool {
        self.model().wf()
    }

    /// A pool of `workers` workers admitting up to `limit` requests at once.
    pub fn with_limit(workers: usize, limit: usize) -> (pp: ProtectedPool)
        requires
            limit <= workers,
        ensures
            pp.wf(),
            pp.model().gate_cap == limit,
            pp.model().avail == limit,
            pp.model().worker_cap == workers,
            pp.model().free.len() == workers,
    {
        ProtectedPool { gate: Gate::new(limit), pool: WorkerPool::new(workers) }
    }

    /// A pool of `workers` workers whose admission limit is its own size.
    pub fn new(workers: usize) -> (pp: ProtectedPool)
        ensures
            pp.wf(),
            pp.model().gate_cap == workers,
            pp.model().avail == workers,
            pp.model().worker_cap == workers,
            pp.model().free.len() == workers,
    {
        ProtectedPool::with_limit(workers, workers)
    }

    /// Permits currently free.
    pub fn available_permits(&self) -> (n: usize)
        ensures
            n == self.model().avail,
    {
        self.gate.available_permits()
    }

    /// The configured concurrency limit.
    pub fn admission_limit(&self) -> (n: usize)
        ensures
            n == self.model().gate_cap,
    {
        self.gate.capacity()
    }

    /// The number of workers owned.
    pub fn worker_count(&self) -> (n: usize)
        ensures
            n == self.model().worker_cap,
    {
        self.pool.capacity()
    }

    /// Workers currently free.
    pub fn free_workers(&self) -> (n: usize)
        ensures
            n == self.model().free.len(),
    {
        self.pool.free_workers()
    }

    /// Whether `finish` may be called with this ticket: its worker is out
    /// and a permit is in use.
    pub fn can_finish(&self, t: &Ticket) -> (b: bool)
        ensures
            b == enabled(self.model(), Event::Finish { id: t.worker() }),
    {
        let id = t.worker_id();
        id < self.pool.capacity() && !self.pool.is_free(id)
            && self.gate.available_permits() < self.gate.capacity()
    }

    /// Admit one request: validate, then take a permit and check a worker
    /// out, as one atomic step against the shared state.
    ///
    /// An invalid request is rejected before any permit is consumed. When no
    /// permit is free the request is refused as busy (the caller may wait
    /// and retry under its own policy). With a permit granted, a free worker
    /// is guaranteed by the invariant; the defensive arm below reports an
    /// invariant violation and is provably unreachable.
    pub fn try_begin(&mut self, req: &FeatureExtraction) -> (r: Result<Ticket, AppError>)
        requires
            old(self).wf(),
        ensures
            final(self).wf(),
            final(self).model().gate_cap == old(self).model().gate_cap,
            final(self).model().worker_cap == old(self).model().worker_cap,
            !req.valid_spec() ==> r == Err::<Ticket, AppError>(AppError::ValidationError)
                && final(self).model() == old(self).model(),
            req.valid_spec() && old(self).model().avail == 0 ==> r == Err::<Ticket, AppError>(
                AppError::AdmissionTimeout,
            ) && final(self).model() == old(self).model(),
            req.valid_spec() && old(self).model().avail > 0 ==> (r matches Ok(t)
                && t.worker() == old(self).model().free.last()
                && enabled(old(self).model(), Event::Begin { id: t.worker() })
                && final(self).model() == apply(old(self).model(), Event::Begin { id: t.worker() })
                && enabled(final(self).model(), Event::Finish { id: t.worker() })),
    {
        if !req.validate() {
            return Err(AppError::ValidationError);
        }
        match self.gate.try_acquire() {
            None => Err(AppError::AdmissionTimeout),
            Some(permit) => {
                match self.pool.checkout() {
                    Some(handle) => {
                        let t = Ticket { permit, handle };
                        proof {
                            let pre = old(self).model();
                            lemma_remove_value_last(pre.free);
                            assert(pre.free.contains(t.worker())) by {
                                assert(pre.free[pre.free.len() - 1] == t.worker());
                            }
                            assert(self.model() =~= apply(pre, Event::Begin { id: t.worker() }));
                        }
                        Ok(t)
                    },
                    None => {
                        // Unreachable: the invariant couples permits in use
                        // to workers out, so a granted permit implies a free
                        // worker. Kept as a defensive arm per the design.
                        proof {
                            assert(false);
                        }
                        self.gate.release(permit);
                        Err(AppError::InternalError)
                    },
                }
            },
        }
    }

    /// Complete one request: check the worker in and release the permit —
    /// unconditionally, whether the compute call succeeded or failed — and
    /// map the outcome. A successful outcome is handed through unchanged,
    /// element for element; a compute failure surfaces as `ComputeFailed`.
    pub fn finish<V>(&mut self, ticket: Ticket, outcome: Result<Vec<V>, ComputeError>) -> (r:
        Result<Vec<V>, AppError>)
        requires
            old(self).wf(),
            enabled(old(self).model(), Event::Finish { id: ticket.worker() }),
        ensures
            final(self).wf(),
            final(self).model() == apply(old(self).model(), Event::Finish { id: ticket.worker() }),
            final(self).model().avail == old(self).model().avail + 1,
            final(self).model().free.len() == old(self).model().free.len() + 1,
            final(self).model().free.contains(ticket.worker()),
            r is Ok <==> outcome is Ok,
            outcome matches Ok(v) ==> (r matches Ok(rv) && rv == v && forall|i: int|
                0 <= i < v@.len() ==> rv@[i] == v@[i]),
            outcome matches Err(e) ==> r == Err::<Vec<V>, AppError>(AppError::ComputeFailed(e)),
    {
        let Ticket { permit, handle } = ticket;
        self.pool.checkin(handle);
        self.gate.release(permit);
        proof {
            assert(self.model() =~= apply(
                old(self).model(),
                Event::Finish { id: ticket.worker() },
            ));
        }
        match outcome {
            Ok(v) => Ok(v),
            Err(e) => Err(AppError::ComputeFailed(e)),
        }
    }
}

/// One request end-to-end, as the service's route handler runs it: validate
/// the body, admit it, run the opaque embedding `embed` on the checked-out
/// worker's slot, and give both resources back on every path.
///
/// Whatever `embed` does, the pool and gate come back exactly as they were:
/// nothing is leaked on the failure paths and nothing extra is freed on the
/// success path. The response is the embedding's own output, unchanged, or
/// the error of the first stage that failed.
pub fn feature_extraction<V, F: Fn(usize) -> Result<Vec<V>, ComputeError>>(
    pp: &mut ProtectedPool,
    req: &FeatureExtraction,
    embed: F,
) -> (r: Result<Vec<V>, AppError>)
    requires
        old(pp).wf(),
        forall|id: usize| id < old(pp).model().worker_cap ==> call_requires(embed, (id,)),
    ensures
        final(pp).wf(),
        final(pp).model() == old(pp).model(),
        !req.valid_spec() ==> r == Err::<Vec<V>, AppError>(AppError::ValidationError),
        req.valid_spec() && old(pp).model().avail == 0 ==> r == Err::<Vec<V>, AppError>(
            AppError::AdmissionTimeout,
        ),
        req.valid_spec() && old(pp).model().avail > 0 ==> (match r {
            Ok(v) => exists|id: usize| call_ensures(embed, (id,), Ok(v)),
            Err(e) => e matches AppError::ComputeFailed(ce) && exists|id: usize|
                call_ensures(embed, (id,), Err(ce)),
        }),
{
    let ghost pre = old(pp).model();
    match pp.try_begin(req) {
        Err(e) => Err(e),
        Ok(ticket) => {
            let wid = ticket.worker_id();
            let ghost mid = pp.model();
            let outcome = embed(wid);
            let r = pp.finish(ticket, outcome);
            proof {
                lemma_remove_value_last(pre.free);
                assert(mid.free =~= pre.free.drop_last());
                assert(pp.model().free =~= pre.free);
                assert(pp.model() =~= pre);
            }
            r
        },
    }
}

} // verus!
