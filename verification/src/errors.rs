use vstd::prelude::*;

verus! {

/// Failure taxonomy of the engine.
///
/// - `NotFound`: a version, profile or manifest entry is absent.
/// - `Malformed`: an external JSON payload or configuration breaks the
///   schema (a cyclic inheritance chain is reported this way too).
/// - `NetworkFailure`: a transport or HTTP-status failure.
/// - `JavaMissing(major)`: the required isolated runtime is not installed;
///   recoverable by an explicitly approved download, never auto-escalated.
/// - `ExtractionFailure`: an archive is corrupt or a member could not be
///   read; non-fatal per entry in batch extraction.
/// - `SubprocessFailure`: the mod-loader installer exited non-zero; carries
///   its captured standard error.
#[derive(Debug)]
pub enum LauncherError {
    NotFound,
    Malformed,
    NetworkFailure,
    JavaMissing(u32),
    ExtractionFailure,
    SubprocessFailure(String),
}

impl LauncherError {
    /// A short machine-readable tag for each failure kind.
    pub fn kind_name(&self) -> (r: &'static str)
        ensures
            r@ == self.kind_name_spec(),
    {
        match self {
            LauncherError::NotFound => "not_found",
            LauncherError::Malformed => "malformed",
            LauncherError::NetworkFailure => "network_failure",
            LauncherError::JavaMissing(_) => "java_missing",
            LauncherError::ExtractionFailure => "extraction_failure",
            LauncherError::SubprocessFailure(_) => "subprocess_failure",
        }
    }

    pub open spec fn kind_name_spec(&self) -> Seq<char> {
        match self {
            LauncherError::NotFound => "not_found"@,
            LauncherError::Malformed => "malformed"@,
            LauncherError::NetworkFailure => "network_failure"@,
            LauncherError::JavaMissing(_) => "java_missing"@,
            LauncherError::ExtractionFailure => "extraction_failure"@,
            LauncherError::SubprocessFailure(_) => "subprocess_failure"@,
        }
    }
}

} // verus!
