use vstd::prelude::*;

verus! {

/// Error taxonomy of the harness. Every failure is terminal for the
/// invocation that raised it; nothing is retried internally.
#[derive(Debug, Clone)]
pub enum HarnessError {
    /// Wrong number of arguments for a known operation.
    ArityMismatch { expected: usize, actual: usize },
    /// An argument whose kind or range does not fit the operation's schema.
    InvalidArgument { position: usize },
    /// The requested operation name is not registered.
    UnknownOperation,
    /// The toolchain reported a non-zero status while building a
    /// caller-supplied program; the captured diagnostics are kept verbatim.
    BuildFailed { diagnostics: String },
    /// The toolchain reported success but the binary was absent at the
    /// expected output path.
    ArtifactNotFound,
    /// The journal is shorter than the operation's declared layout.
    TruncatedJournal { expected: u64, actual: u64 },
    /// The proving engine failed; its message is kept verbatim.
    ProvingFailed { message: String },
    /// The proving engine rejected the proof; its message is kept verbatim.
    VerificationFailed { message: String },
    /// A session identifier of the wrong byte length.
    InvalidSessionId { actual: usize },
}

impl HarnessError {
    /// A short stable label for each variant, for display by callers.
    pub fn label(&self) -> (r: &'static str)
        ensures
            r@ == self.spec_label(),
    {
        match self {
            HarnessError::ArityMismatch { .. } => "arity mismatch",
            HarnessError::InvalidArgument { .. } => "invalid argument",
            HarnessError::UnknownOperation => "unknown operation",
            HarnessError::BuildFailed { .. } => "build failed",
            HarnessError::ArtifactNotFound => "artifact not found",
            HarnessError::TruncatedJournal { .. } => "truncated journal",
            HarnessError::ProvingFailed { .. } => "proving failed",
            HarnessError::VerificationFailed { .. } => "verification failed",
            HarnessError::InvalidSessionId { .. } => "invalid session id",
        }
    }

    pub open spec fn spec_label(&self) -> Seq<char> {
        match self {
            HarnessError::ArityMismatch { .. } => "arity mismatch"@,
            HarnessError::InvalidArgument { .. } => "invalid argument"@,
            HarnessError::UnknownOperation => "unknown operation"@,
            HarnessError::BuildFailed { .. } => "build failed"@,
            HarnessError::ArtifactNotFound => "artifact not found"@,
            HarnessError::TruncatedJournal { .. } => "truncated journal"@,
            HarnessError::ProvingFailed { .. } => "proving failed"@,
            HarnessError::VerificationFailed { .. } => "verification failed"@,
            HarnessError::InvalidSessionId { .. } => "invalid session id"@,
        }
    }
}

} // verus!
