//! Why a deployment did not go through.

use vstd::prelude::*;

verus! {

/// The reason for which a deployment failed. Every failure ends the run: no
/// stage is tried again and nothing that was done is undone.
#[derive(Clone, Copy, Debug, PartialEq, Eq, Structural)]
pub enum DeployError {
    /// The remote host could not be reached, or the connection dropped.
    Connection,
    /// The remote host answered and refused the key.
    Auth,
    /// A configuration key or a variable of the environment is absent.
    ConfigMissing,
    /// The configuration is there and malformed.
    Parse,
    /// The local branch is not the one configured.
    BranchMismatch,
    /// The working tree holds changes that are not committed.
    DirtyTree,
    /// The local branch holds commits that its upstream lacks.
    UnpushedCommits,
    /// A local command could not be started, so that nothing was judged.
    LocalCommand,
    /// The build command did not succeed.
    BuildFailed,
    /// A directory that was to be packaged is absent.
    MissingArtifact,
    /// The archive could not be written or read back.
    Compression,
    /// The archive did not arrive in the history store whole.
    Transfer,
    /// A remote command ended with the status given, which is not zero.
    RemoteCommand { status: i32 },
    /// The version asked for is malformed, or there is no next version.
    InvalidVersion,
    /// A report arrived that does not answer the action that was pending.
    UnexpectedEvent,
}

} // verus!
