//! An off-loading layer that bridges asynchronous hosts to a synchronous,
//! CPU-bound source analyzer without stalling the host's scheduling loop.
//!
//! The verified core covers the configuration resolver (resolved once,
//! malformed settings absorbed silently), the path-to-URI normalizer, the
//! dispatcher's route selection with its inline escape hatch, the admission
//! semaphore and pool queue that bound and order offloaded work, the result
//! wire encoding, and the error taxonomy. The analyzer itself is an external
//! collaborator, reached through one trusted boundary function; host-side
//! thread plumbing lives outside this crate.

use vstd::prelude::*;

mod analyzer;
mod config;
mod dispatch;
mod error;
mod paths;
mod serialize;

pub use config::Config;
pub use config::ConfigCell;
pub use config::Strategy;
pub use config::parse_strategy;
pub use config::parse_thread_count;
pub use config::resolve_config;
pub use error::AnalyzeError;
pub use paths::lemma_normalize_idempotent;
pub use paths::normalize_path;
pub use serialize::AnalysisResult;
pub use serialize::serialize_result;
pub use analyzer::analysis_of;
pub use dispatch::AdmissionSemaphore;
pub use dispatch::AnalysisRequest;
pub use dispatch::ExecutionPath;
pub use dispatch::OutcomeView;
pub use dispatch::PoolQueue;
pub use dispatch::ReframeNS;
pub use dispatch::ReqView;
pub use dispatch::dispatch_with_config;
pub use dispatch::execute_request;
pub use dispatch::lemma_admission_bound;
pub use dispatch::lemma_strategies_agree;
pub use dispatch::pool_outcome;
pub use dispatch::select_path;
