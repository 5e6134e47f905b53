//! The checks on the local repository that come before a build.

use crate::error::DeployError;
use crate::text::{trim, trimmed};
use vstd::prelude::*;

verus! {

/// One check on the local repository. The checks run in the order in which
/// they stand here, and the first that fails ends the run.
#[derive(Clone, Copy, Debug, PartialEq, Eq, Structural)]
pub enum Check {
    /// The current branch is the configured one.
    Branch,
    /// The working tree holds no change that is not committed.
    WorkingTree,
    /// The branch holds no commit that its upstream lacks.
    Upstream,
}

/// The query for the current branch succeeded and names, white space around
/// it aside, exactly `expected`.
pub open spec fn branch_matches(stdout: Seq<char>, status: i32, expected: Seq<char>) -> bool {
    status == 0 && trim(stdout) == expected
}

/// The query succeeded and printed nothing: there is nothing to report.
pub open spec fn reports_nothing(stdout: Seq<char>, status: i32) -> bool {
    status == 0 && stdout.len() == 0
}

impl Check {
    /// What the output and exit status of this check's query must be for the
    /// check to pass.
    pub open spec fn passes(self, stdout: Seq<char>, status: i32, expected_branch: Seq<char>) -> bool {
        match self {
            Check::Branch => branch_matches(stdout, status, expected_branch),
            Check::WorkingTree => reports_nothing(stdout, status),
            Check::Upstream => reports_nothing(stdout, status),
        }
    }

    /// The failure that this check stands for.
    pub open spec fn failure(self) -> DeployError {
        match self {
            Check::Branch => DeployError::BranchMismatch,
            Check::WorkingTree => DeployError::DirtyTree,
            Check::Upstream => DeployError::UnpushedCommits,
        }
    }

    /// The check that follows this one, if any.
    pub open spec fn following(self) -> Option<Check> {
        match self {
            Check::Branch => Some(Check::WorkingTree),
            Check::WorkingTree => Some(Check::Upstream),
            Check::Upstream => None,
        }
    }

    /// Judges the output and exit status of this check's query.
    pub fn judge(&self, stdout: &str, status: i32, expected_branch: &str) -> (r: Result<
        (),
        DeployError,
    >)
        ensures
            r == (if self.passes(stdout@, status, expected_branch@) {
                Ok::<(), DeployError>(())
            } else {
                Err(self.failure())
            }),
    {
        match self {
            Check::Branch => {
                if status == 0 && trimmed(stdout) == String::from_str(expected_branch) {
                    Ok(())
                } else {
                    Err(DeployError::BranchMismatch)
                }
            },
            Check::WorkingTree => {
                if status == 0 && stdout.is_empty() {
                    Ok(())
                } else {
                    Err(DeployError::DirtyTree)
                }
            },
            Check::Upstream => {
                if status == 0 && stdout.is_empty() {
                    Ok(())
                } else {
                    Err(DeployError::UnpushedCommits)
                }
            },
        }
    }

    /// The check that follows this one, if any.
    pub fn next(&self) -> (r: Option<Check>)
        ensures
            r == self.following(),
    {
        match self {
            Check::Branch => Some(Check::WorkingTree),
            Check::WorkingTree => Some(Check::Upstream),
            Check::Upstream => None,
        }
    }
}

} // verus!
