use reframe::AdmissionSemaphore;
use reframe::AnalysisRequest;
use reframe::AnalyzeError;
use reframe::Config;
use reframe::ExecutionPath;
use reframe::PoolQueue;
use reframe::Strategy;
use reframe::dispatch_with_config;
use reframe::pool_outcome;
use reframe::select_path;

fn request(path: &str, content: &str) -> AnalysisRequest {
    AnalysisRequest {
        path: path.to_string(),
        content: content.to_string(),
        env: String::new(),
        minify: false,
    }
}

#[test]
fn zero_threads_forces_inline_for_both_strategies() {
    let spawn = Config { strategy: Strategy::BoundedSpawn, max_threads: 0 };
    let pool = Config { strategy: Strategy::FixedPool, max_threads: 0 };
    assert_eq!(select_path(&spawn), ExecutionPath::Inline);
    assert_eq!(select_path(&pool), ExecutionPath::Inline);
}

#[test]
fn positive_threads_follow_the_strategy() {
    let spawn = Config { strategy: Strategy::BoundedSpawn, max_threads: 4 };
    let pool = Config { strategy: Strategy::FixedPool, max_threads: 4 };
    assert_eq!(select_path(&spawn), ExecutionPath::BoundedSpawn);
    assert_eq!(select_path(&pool), ExecutionPath::FixedPool);
}

#[test]
fn admission_never_exceeds_capacity() {
    let mut sem = AdmissionSemaphore::new(2);
    assert!(sem.try_acquire());
    assert!(sem.try_acquire());
    // Capacity 2: a third admission is refused until a permit returns.
    assert!(!sem.try_acquire());
    sem.release();
    assert!(sem.try_acquire());
    assert!(!sem.try_acquire());
}

#[test]
fn zero_thread_semaphore_still_grants_one_permit() {
    let mut sem = AdmissionSemaphore::new(0);
    assert!(sem.try_acquire());
    assert!(!sem.try_acquire());
}

#[test]
fn pool_queue_serves_submissions_in_order() {
    let mut q = PoolQueue::new(2);
    assert!(q.take().is_none());
    q.submit(request("/a.ts", "1;"));
    q.submit(request("/b.ts", "2;"));
    let first = q.take().expect("queued");
    assert_eq!(first.path, "/a.ts");
    let second = q.take().expect("queued");
    assert_eq!(second.path, "/b.ts");
    assert!(q.take().is_none());
}

#[test]
fn delivered_results_pass_through_unchanged() {
    let delivered = pool_outcome(Some(Ok("payload".to_string())));
    assert_eq!(delivered, Ok("payload".to_string()));
    let failed = pool_outcome(Some(Err(AnalyzeError::AnalysisFailure("bad".to_string()))));
    assert_eq!(failed, Err(AnalyzeError::AnalysisFailure("bad".to_string())));
}

#[test]
fn worker_crash_surfaces_dispatch_failure_to_that_call_only() {
    // A closed channel means the serving worker crashed: this call fails...
    let crashed = pool_outcome(None);
    match crashed {
        Err(AnalyzeError::DispatchFailure(_)) => {}
        other => panic!("expected a dispatch failure, got {:?}", other),
    }
    // ...while an unrelated subsequent call still succeeds.
    let cfg = Config { strategy: Strategy::FixedPool, max_threads: 2 };
    let after = dispatch_with_config(&cfg, request("/ok.ts", "const x: number = 1;"));
    assert!(after.is_ok());
}

#[test]
fn all_modes_yield_identical_results() {
    let inline = Config { strategy: Strategy::BoundedSpawn, max_threads: 0 };
    let bounded = Config { strategy: Strategy::BoundedSpawn, max_threads: 4 };
    let pooled = Config { strategy: Strategy::FixedPool, max_threads: 4 };
    let inputs = [
        ("/a/b.ts", "const x: number = 1;"),
        ("a/b.ts", "export function f(y: string): string { return y; }"),
        ("/bad.ts", "const const = ;"),
    ];
    for (path, content) in inputs {
        let r_inline = dispatch_with_config(&inline, request(path, content));
        let r_bounded = dispatch_with_config(&bounded, request(path, content));
        let r_pooled = dispatch_with_config(&pooled, request(path, content));
        assert_eq!(r_inline, r_bounded);
        assert_eq!(r_inline, r_pooled);
    }
}

#[test]
fn inline_mode_handles_a_large_input() {
    let mut content = String::new();
    for i in 0..5000 {
        content.push_str(&format!("const v{}: number = {};\n", i, i));
    }
    let cfg = Config { strategy: Strategy::BoundedSpawn, max_threads: 0 };
    let out = dispatch_with_config(&cfg, request("/large.ts", &content))
        .expect("large inline analysis succeeds");
    assert!(out.starts_with("{\"code\":\""));
    assert!(out.contains("const v4999 = 4999;"));
}
