//! From a versioning policy to the name of the archive to deploy.

use crate::error::DeployError;
use crate::history::{get_latest_version, latest_version};
use crate::version::{parse_version, Version};
use vstd::prelude::*;

verus! {

/// How the version of a deployment is chosen.
#[derive(Clone, Debug, PartialEq, Eq)]
pub enum VersionPolicy {
    /// The version after the latest one in the history store.
    Increment,
    /// The version that the text denotes.
    Explicit(String),
    /// The archive of that name, which the history store already holds.
    Replay(String),
}

/// A [`VersionPolicy`] as plain values.
pub enum PolicyView {
    Increment,
    Explicit(Seq<char>),
    Replay(Seq<char>),
}

impl View for VersionPolicy {
    type V = PolicyView;

    open spec fn view(&self) -> PolicyView {
        match self {
            VersionPolicy::Increment => PolicyView::Increment,
            VersionPolicy::Explicit(text) => PolicyView::Explicit(text@),
            VersionPolicy::Replay(entry) => PolicyView::Replay(entry@),
        }
    }
}

/// The version that a history without any version is followed by.
pub open spec fn first_version() -> Version {
    Version { major: 1, minor: 0, patch: 0 }
}

/// The name of the archive that follows the latest version of `history`:
/// the first version where `history` holds none, and nothing where the
/// latest version has no successor.
pub open spec fn next_archive(history: Seq<Seq<char>>) -> Option<Seq<char>> {
    match latest_version(history) {
        None => Some(first_version().archive()),
        Some(latest) => if latest.can_increment() {
            Some(latest.next().archive())
        } else {
            None
        },
    }
}

/// The archive that `policy` asks for, given the entries of the history
/// store, or why there is none. Only `Increment` looks at the history.
pub open spec fn resolution(policy: PolicyView, history: Seq<Seq<char>>) -> Result<
    Seq<char>,
    DeployError,
> {
    match policy {
        PolicyView::Increment => match next_archive(history) {
            Some(archive) => Ok(archive),
            None => Err(DeployError::InvalidVersion),
        },
        PolicyView::Explicit(text) => match parse_version(text) {
            Some(version) => Ok(version.archive()),
            None => Err(DeployError::InvalidVersion),
        },
        PolicyView::Replay(entry) => Ok(entry),
    }
}

/// The name of the archive that follows the latest version of `history`.
pub fn next_archive_name(history: &[String]) -> (archive: Option<String>)
    ensures
        archive.deep_view() == next_archive(history.deep_view()),
{
    match get_latest_version(history) {
        None => Some(Version::new(1, 0, 0).archive_name()),
        Some(latest) => match latest.checked_increment() {
            Some(next) => Some(next.archive_name()),
            None => None,
        },
    }
}

/// The archive that `policy` asks for, given the entries of the history
/// store, or why there is none.
pub fn resolve(policy: &VersionPolicy, history: &[String]) -> (r: Result<String, DeployError>)
    ensures
        match r {
            Ok(archive) => resolution(policy@, history.deep_view()) == Ok::<
                Seq<char>,
                DeployError,
            >(archive@),
            Err(error) => resolution(policy@, history.deep_view()) == Err::<
                Seq<char>,
                DeployError,
            >(error),
        },
{
    match policy {
        VersionPolicy::Increment => match next_archive_name(history) {
            Some(archive) => Ok(archive),
            None => Err(DeployError::InvalidVersion),
        },
        VersionPolicy::Explicit(text) => match Version::from_str(text.as_str()) {
            Some(version) => Ok(version.archive_name()),
            None => Err(DeployError::InvalidVersion),
        },
        VersionPolicy::Replay(entry) => Ok(entry.clone()),
    }
}

/// Whether `policy` deploys an archive that the history store already holds,
/// so that nothing is checked, built, packaged or uploaded.
pub fn is_replay(policy: &VersionPolicy) -> (r: bool)
    ensures
        r == (policy@ is Replay),
{
    match policy {
        VersionPolicy::Replay(_) => true,
        _ => false,
    }
}

} // verus!
