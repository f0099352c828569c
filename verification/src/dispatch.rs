use vstd::prelude::*;
use vstd::pervasive::unreached;
use vstd::string::StringExecFns;
use crate::analyzer::analysis_of;
use crate::analyzer::run_analyzer;
use crate::analyzer::strip_bom;
use crate::analyzer::strip_leading_bom;
use crate::config::Config;
use crate::config::Strategy;
use crate::error::AnalyzeError;
use crate::paths::normalize_path;
use crate::paths::normalize_spec;
use crate::serialize::AnalysisResult;
use crate::serialize::escapable;
use crate::serialize::serialize_result;
use crate::serialize::wire_of;

verus! {

/// One in-flight request: immutable, exclusively owned by its call, and
/// moved (never shared) into whichever execution path serves it.
#[derive(Debug, Clone)]
pub struct AnalysisRequest {
    pub path: String,
    pub content: String,
    pub env: String,
    pub minify: bool,
}

/// Spec-level image of a request.
pub struct ReqView {
    pub path: Seq<char>,
    pub content: Seq<char>,
    pub env: Seq<char>,
    pub minify: bool,
}

impl View for AnalysisRequest {
    type V = ReqView;

    open spec fn view(&self) -> ReqView {
        ReqView {
            path: self.path@,
            content: self.content@,
            env: self.env@,
            minify: self.minify,
        }
    }
}

/// Spec-level image of one call's outcome.
pub enum OutcomeView {
    /// The serialized wire object delivered on success.
    Success(Seq<char>),
    /// The analyzer's own failure message, propagated verbatim.
    AnalysisFailure(Seq<char>),
    /// The result could not be encoded.
    SerializationFailure,
    /// The offload machinery failed for this call.
    DispatchFailure,
}

pub open spec fn outcome_view(r: Result<String, AnalyzeError>) -> OutcomeView {
    match r {
        Ok(s) => OutcomeView::Success(s@),
        Err(AnalyzeError::AnalysisFailure(m)) => OutcomeView::AnalysisFailure(m@),
        Err(AnalyzeError::SerializationFailure(_)) => OutcomeView::SerializationFailure,
        Err(AnalyzeError::DispatchFailure(_)) => OutcomeView::DispatchFailure,
    }
}

/// The outcome one request determines: normalize the path, strip any leading
/// byte-order mark from the content, run the analyzer, encode the result. No
/// configuration and no execution path appears here: every mode of dispatch
/// yields this same outcome.
pub open spec fn spec_outcome(req: ReqView) -> OutcomeView {
    match analysis_of(normalize_spec(req.path), strip_bom(req.content), req.env, req.minify) {
        Result::Ok(code) => if escapable(code) {
            OutcomeView::Success(wire_of(code))
        } else {
            OutcomeView::SerializationFailure
        },
        Result::Err(msg) => OutcomeView::AnalysisFailure(msg),
    }
}

/// What dispatching under a given configuration promises: the same outcome
/// whatever the configuration says, since a route never changes a result.
pub open spec fn dispatch_spec(cfg: Config, req: ReqView) -> OutcomeView {
    spec_outcome(req)
}

/// Inline mode and both offload strategies are interchangeable: for any two
/// configurations, the same request determines the same outcome.
pub proof fn lemma_strategies_agree(cfg_a: Config, cfg_b: Config, req: ReqView)
    ensures
        dispatch_spec(cfg_a, req) == dispatch_spec(cfg_b, req),
{
}

/// Runs one request to completion on the calling thread: the work a worker
/// performs, shared by every execution path.
pub fn execute_request(req: &AnalysisRequest) -> (r: Result<String, AnalyzeError>)
    ensures
        outcome_view(r) == spec_outcome(req@),
{
    let uri = normalize_path(req.path.as_str());
    let body = strip_leading_bom(req.content.as_str());
    match run_analyzer(uri.as_str(), body, req.env.as_str(), req.minify) {
        Ok(code) => serialize_result(&AnalysisResult { code }),
        Err(msg) => Err(AnalyzeError::AnalysisFailure(msg)),
    }
}

/// The route one call takes once the configuration is known.
#[derive(Clone, Copy, PartialEq, Eq, Structural, Debug)]
pub enum ExecutionPath {
    /// On the calling thread, no suspension point: the deliberate escape
    /// hatch when concurrency is disabled.
    Inline,
    /// A fresh worker thread per call, bounded by the admission semaphore.
    BoundedSpawn,
    /// A submission to the fixed worker pool's queue.
    FixedPool,
}

/// The route a configuration selects: disabled concurrency always wins.
pub open spec fn path_of(cfg: Config) -> ExecutionPath {
    if cfg.max_threads == 0 {
        ExecutionPath::Inline
    } else if cfg.strategy == Strategy::FixedPool {
        ExecutionPath::FixedPool
    } else {
        ExecutionPath::BoundedSpawn
    }
}

/// Branches one call to inline, bounded-spawn, or fixed-pool execution.
/// `max_threads == 0` forces inline execution regardless of the strategy.
pub fn select_path(cfg: &Config) -> (p: ExecutionPath)
    ensures
        p == path_of(*cfg),
        cfg.max_threads == 0 ==> p == ExecutionPath::Inline,
{
    if cfg.max_threads == 0 {
        ExecutionPath::Inline
    } else {
        match cfg.strategy {
            Strategy::FixedPool => ExecutionPath::FixedPool,
            Strategy::BoundedSpawn => ExecutionPath::BoundedSpawn,
        }
    }
}

/// The worker capacity a thread budget grants: at least one.
pub open spec fn cap_of(max_threads: usize) -> usize {
    if max_threads >= 1 {
        max_threads
    } else {
        1
    }
}

/// Counting admission primitive for the bounded-spawn strategy, shared by
/// all calls: a permit is held for the duration of one worker's execution
/// and released when that scope ends, on failure too. Its permit arithmetic
/// is the system's sole back-pressure mechanism.
pub struct AdmissionSemaphore {
    capacity: usize,
    available: usize,
}

impl AdmissionSemaphore {
    /// The fixed number of permits this semaphore was created with.
    pub closed spec fn capacity(self) -> usize {
        self.capacity
    }

    /// Permits not currently held.
    pub closed spec fn available(self) -> usize {
        self.available
    }

    /// Calls admitted and not yet completed.
    pub open spec fn in_flight(self) -> int {
        self.capacity() - self.available()
    }

    pub open spec fn wf(self) -> bool {
        self.available() <= self.capacity() && self.capacity() >= 1
    }

    /// A fresh, idle semaphore with capacity `max(max_threads, 1)`.
    pub fn new(max_threads: usize) -> (s: AdmissionSemaphore)
        ensures
            s.wf(),
            s.capacity() == cap_of(max_threads),
            s.in_flight() == 0,
    {
        let cap: usize = if max_threads >= 1 {
            max_threads
        } else {
            1
        };
        AdmissionSemaphore { capacity: cap, available: cap }
    }

    /// Grants a permit exactly when one is free; a caller finding none must
    /// suspend and retry, which is the only point a call ever waits.
    pub fn try_acquire(&mut self) -> (ok: bool)
        requires
            old(self).wf(),
        ensures
            final(self).wf(),
            final(self).capacity() == old(self).capacity(),
            ok <==> old(self).available() >= 1,
            ok ==> final(self).in_flight() == old(self).in_flight() + 1,
            !ok ==> *final(self) == *old(self) && old(self).in_flight() == old(self).capacity(),
    {
        if self.available >= 1 {
            self.available = self.available - 1;
            true
        } else {
            false
        }
    }

    /// Permits currently free, for hosts that must test before releasing.
    pub fn free_permits(&self) -> (a: usize)
        ensures
            a == self.available(),
    {
        self.available
    }

    /// The fixed capacity, for hosts that must test before releasing.
    pub fn permit_capacity(&self) -> (c: usize)
        ensures
            c == self.capacity(),
    {
        self.capacity
    }

    /// Returns a held permit when a worker's scope ends.
    pub fn release(&mut self)
        requires
            old(self).wf(),
            old(self).in_flight() >= 1,
        ensures
            final(self).wf(),
            final(self).capacity() == old(self).capacity(),
            final(self).in_flight() == old(self).in_flight() - 1,
    {
        self.available = self.available + 1;
    }
}

/// Admission never over-commits: in any reachable semaphore state the number
/// of concurrently admitted analyzer calls stays within the capacity the
/// semaphore was created with.
pub proof fn lemma_admission_bound(sem: AdmissionSemaphore)
    requires
        sem.wf(),
    ensures
        0 <= sem.in_flight() <= sem.capacity(),
{
}

/// The fixed pool's submission queue: `max(max_threads, 1)` long-lived
/// workers drain it in order of submission; each submission carries its own
/// single-use result channel back to the waiting caller.
pub struct PoolQueue {
    jobs: Vec<AnalysisRequest>,
    workers: usize,
}

impl PoolQueue {
    /// The queued submissions, oldest first.
    pub closed spec fn jobs(self) -> Seq<ReqView> {
        self.jobs@.map_values(|r: AnalysisRequest| r@)
    }

    /// The fixed number of worker threads serving this queue.
    pub closed spec fn workers(self) -> usize {
        self.workers
    }

    /// A fresh, empty queue for `max(max_threads, 1)` workers.
    pub fn new(max_threads: usize) -> (q: PoolQueue)
        ensures
            q.jobs() == Seq::<ReqView>::empty(),
            q.workers() == cap_of(max_threads),
    {
        let cap: usize = if max_threads >= 1 {
            max_threads
        } else {
            1
        };
        let q = PoolQueue { jobs: Vec::new(), workers: cap };
        proof {
            assert(q.jobs() =~= Seq::<ReqView>::empty());
        }
        q
    }

    /// Accepts one submission at the tail of the queue.
    pub fn submit(&mut self, req: AnalysisRequest)
        ensures
            final(self).jobs() == old(self).jobs().push(req@),
            final(self).workers() == old(self).workers(),
    {
        self.jobs.push(req);
        proof {
            assert(self.jobs() =~= old(self).jobs().push(req@));
        }
    }

    /// Hands the oldest submission to a free worker, if any is queued.
    pub fn take(&mut self) -> (j: Option<AnalysisRequest>)
        ensures
            final(self).workers() == old(self).workers(),
            old(self).jobs().len() == 0 ==> j is None && final(self).jobs() == old(self).jobs(),
            old(self).jobs().len() > 0 ==> (j matches Some(r) && r@ == old(self).jobs()[0]
                && final(self).jobs() == old(self).jobs().drop_first()),
    {
        if self.jobs.len() == 0 {
            None
        } else {
            let r = self.jobs.remove(0);
            proof {
                assert(self.jobs() =~= old(self).jobs().drop_first());
            }
            Some(r)
        }
    }
}

/// Maps what a single-use result channel delivered to the caller's outcome:
/// a delivered result passes through unchanged, and a channel that closed
/// without delivering — its serving worker crashed — surfaces a dispatch
/// failure to this call alone. The mapping touches no shared state, so an
/// unrelated later call is unaffected.
pub fn pool_outcome(delivery: Option<Result<String, AnalyzeError>>) -> (r: Result<
    String,
    AnalyzeError,
>)
    ensures
        delivery matches Some(out) ==> r == out,
        delivery is None ==> (r matches Err(e) && e matches AnalyzeError::DispatchFailure(_)),
{
    match delivery {
        Some(out) => out,
        None => Err(
            AnalyzeError::DispatchFailure(
                String::from_str("result channel closed before delivery: the serving worker failed"),
            ),
        ),
    }
}

/// One full dispatch under a resolved configuration, run to completion on
/// the calling thread: selects the route and drives it through the same
/// admission, queueing and delivery steps a concurrent host performs. The
/// outcome never depends on the route taken.
pub fn dispatch_with_config(cfg: &Config, req: AnalysisRequest) -> (r: Result<String, AnalyzeError>)
    ensures
        outcome_view(r) == dispatch_spec(*cfg, req@),
{
    match select_path(cfg) {
        ExecutionPath::Inline => execute_request(&req),
        ExecutionPath::BoundedSpawn => {
            let mut sem = AdmissionSemaphore::new(cfg.max_threads);
            if sem.try_acquire() {
                let out = execute_request(&req);
                sem.release();
                out
            } else {
                unreached()
            }
        },
        ExecutionPath::FixedPool => {
            let mut queue = PoolQueue::new(cfg.max_threads);
            queue.submit(req);
            match queue.take() {
                Some(job) => {
                    let out = execute_request(&job);
                    pool_outcome(Some(out))
                },
                None => unreached(),
            }
        },
    }
}

/// The host-facing namespace of this library.
pub struct ReframeNS;

impl ReframeNS {
    /// Synchronous entry point: runs the whole pipeline inline on the
    /// calling thread, with no back-pressure and no suspension point.
    pub fn analyze(path: &str, content: &str, env: &str, minify: bool) -> (r: Result<
        String,
        AnalyzeError,
    >)
        ensures
            outcome_view(r) == spec_outcome(
                (ReqView { path: path@, content: content@, env: env@, minify: minify }),
            ),
    {
        let req = AnalysisRequest {
            path: String::from_str(path),
            content: String::from_str(content),
            env: String::from_str(env),
            minify: minify,
        };
        execute_request(&req)
    }
}

} // verus!
