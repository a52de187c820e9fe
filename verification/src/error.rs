//! The error taxonomy. Every failure a command can report is one of these;
//! they propagate unchanged to the invoking command. `AlreadyInstalled` and
//! `NotInstalled` are warnings: the invocation still exits successfully.

use vstd::prelude::*;

verus! {

#[derive(Debug, PartialEq, Eq)]
pub enum LeafError {
    /// No manifest copy is available to read.
    ManifestNotFound,
    /// The named package is not in the manifest.
    PackageNotFound(String),
    /// The running platform is not one of the recognized keys.
    PlatformUnsupported(String),
    /// The package has no variant for the resolved platform key.
    VariantUnavailable(String),
    /// The package already has an installed record (a warning).
    AlreadyInstalled(String),
    /// The package has no installed record (a warning).
    NotInstalled(String),
    /// No decoder matches the artifact's filename suffix.
    UnsupportedArchiveFormat(String),
    /// The variant names a package kind other than archive, binary or build.
    UnsupportedPackageType(String),
    /// A binary-kind variant lists no executables.
    NoExecutables(String),
    /// A build-kind variant lists no build steps.
    NoBuildCommands(String),
    /// A build step exited non-zero; later steps never ran.
    BuildCommandFailed { command: String, exit_status: i32, stdout: String, stderr: String },
    /// A declared executable was not found where the build left it.
    MissingExecutable(String),
    /// A disk operation failed.
    IoError(String),
    /// A transport operation failed, or the manifest fetch got a failing
    /// HTTP status.
    NetworkError(String),
    /// A fetched manifest body was rejected (HTML or not valid JSON); the
    /// previous copy stays untouched.
    InvalidManifest(String),
}

impl LeafError {
    /// Warnings end the invocation successfully; everything else is an error
    /// with a non-zero exit.
    pub open spec fn spec_is_warning(self) -> bool {
        self is AlreadyInstalled || self is NotInstalled
    }

    pub fn is_warning(&self) -> (r: bool)
        ensures
            r == self.spec_is_warning(),
    {
        match self {
            LeafError::AlreadyInstalled(_) => true,
            LeafError::NotInstalled(_) => true,
            _ => false,
        }
    }
}

} // verus!
