use vstd::prelude::*;

verus! {

/// Why a single analysis call failed. No variant is fatal to the process:
/// the shared configuration and backends stay valid after any one failure.
///
/// Malformed configuration has no variant here on purpose: it is absorbed
/// silently during resolution and replaced with defaults, never surfaced.
#[derive(Debug, Clone, PartialEq, Eq)]
pub enum AnalyzeError {
    /// The analyzer reported a semantic failure; its message is propagated
    /// verbatim.
    AnalysisFailure(String),
    /// The analyzer succeeded but its result could not be encoded into the
    /// wire format.
    SerializationFailure(String),
    /// The offload machinery failed: a worker could not be joined, or a
    /// result channel closed because its serving worker crashed. Fatal to
    /// this call only, never to the process or to a pool.
    DispatchFailure(String),
}

impl AnalyzeError {
    /// The human-readable description this error carries.
    pub open spec fn message_view(self) -> Seq<char> {
        match self {
            AnalyzeError::AnalysisFailure(m) => m@,
            AnalyzeError::SerializationFailure(m) => m@,
            AnalyzeError::DispatchFailure(m) => m@,
        }
    }

    /// The carried description, for hosts that render errors.
    pub fn message(&self) -> (m: &String)
        ensures
            m@ == self.message_view(),
    {
        match self {
            AnalyzeError::AnalysisFailure(m) => m,
            AnalyzeError::SerializationFailure(m) => m,
            AnalyzeError::DispatchFailure(m) => m,
        }
    }
}

} // verus!
