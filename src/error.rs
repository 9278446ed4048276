//! Errors of the fixture lifecycle.
use vstd::prelude::*;

use crate::catalog::Platform;
use crate::session::SessionError;

verus! {

/// The two artifacts installed per version and platform.
#[derive(Debug, Clone, Copy, PartialEq, Eq, Structural)]
pub enum Artifact {
    Chrome,
    ChromeDriver,
}

/// Why a lifecycle operation failed.
#[derive(Debug)]
pub enum ManagerError {
    /// The async runtime cannot guarantee that an abandoned driver process is
    /// cleaned up; `flavor` names the runtime that was found.
    UnsupportedRuntime { flavor: String },
    /// The requested version or channel is not in the catalog, or the catalog
    /// is empty.
    VersionNotFound,
    /// The selected version publishes no archive of `artifact` for `platform`.
    AssetUnavailableForPlatform { artifact: Artifact, platform: Platform },
    /// The executable layout table has no entry for `platform`.
    NoLayoutForPlatform { platform: Platform },
    /// A catalog request or a download failed.
    Network { message: String },
    /// Reading or writing the artifact cache failed.
    CacheIo { message: String },
    /// The driver process could not be started.
    ProcessSpawn { message: String },
    /// The driver did not report readiness before the deadline; it has been
    /// terminated.
    ReadinessTimeout,
    /// The driver process outlived both termination phases.
    TerminationFailed,
    /// A session failed.
    Session(SessionError),
}

} // verus!
