//! The failure taxonomy of the replication subsystem. Each phase of a sync
//! reports one typed error; none is swallowed, and none is retried by the
//! library itself.

use vstd::prelude::*;

verus! {

/// A typed failure of the record store or of one sync phase.
#[derive(Debug)]
pub enum TodoError {
    /// A non-blank store line could not be deserialized. `line` is the
    /// 1-based physical line number of the offending line.
    CorruptRecord { line: usize },
    /// The data directory is not a version-controlled repository.
    NotARepository,
    /// Staging the store file failed; carries the captured diagnostic text.
    StageFailed(String),
    /// Committing failed; carries the captured diagnostic text.
    CommitFailed(String),
    /// Fetching or merging the remote branch failed.
    PullFailed(String),
    /// Pushing the local branch failed; the local commit is kept.
    PushFailed(String),
    /// Conflict resolution stopped before every block had a decision;
    /// the store file must stay untouched.
    ConflictUnresolved,
    /// The active branch has no upstream configured.
    NoTrackingBranch,
    /// Neither `main` nor `master` exists on the remote.
    NoDefaultBranchFound,
}

impl TodoError {
    /// A short, actionable message for the user.
    pub fn message(&self) -> (r: String)
        ensures
            r@ == self.spec_message(),
    {
        match self {
            TodoError::CorruptRecord { line: _ } => String::from_str(
                "corrupt record line in the store file",
            ),
            TodoError::NotARepository => String::from_str(
                "not a git repository - initialize it first",
            ),
            TodoError::StageFailed(_) => String::from_str("staging the store file failed"),
            TodoError::CommitFailed(_) => String::from_str("committing the store file failed"),
            TodoError::PullFailed(_) => String::from_str("pulling from the remote failed"),
            TodoError::PushFailed(_) => String::from_str(
                "pushing failed - the local commit is kept, sync again",
            ),
            TodoError::ConflictUnresolved => String::from_str(
                "conflict resolution was interrupted - the store file is unchanged",
            ),
            TodoError::NoTrackingBranch => String::from_str(
                "the active branch has no tracking branch",
            ),
            TodoError::NoDefaultBranchFound => String::from_str(
                "the remote has neither a main nor a master branch",
            ),
        }
    }

    /// The message each error variant carries.
    pub open spec fn spec_message(&self) -> Seq<char> {
        match self {
            TodoError::CorruptRecord { line: _ } => "corrupt record line in the store file"@,
            TodoError::NotARepository => "not a git repository - initialize it first"@,
            TodoError::StageFailed(_) => "staging the store file failed"@,
            TodoError::CommitFailed(_) => "committing the store file failed"@,
            TodoError::PullFailed(_) => "pulling from the remote failed"@,
            TodoError::PushFailed(_) => "pushing failed - the local commit is kept, sync again"@,
            TodoError::ConflictUnresolved => "conflict resolution was interrupted - the store file is unchanged"@,
            TodoError::NoTrackingBranch => "the active branch has no tracking branch"@,
            TodoError::NoDefaultBranchFound => "the remote has neither a main nor a master branch"@,
        }
    }

    /// Whether this error names a corrupt record on the given line.
    pub fn is_corrupt_record_at(&self, line: usize) -> (r: bool)
        ensures
            r == (*self matches TodoError::CorruptRecord { line: l } && l == line),
    {
        match self {
            TodoError::CorruptRecord { line: l } => *l == line,
            _ => false,
        }
    }
}

} // verus!
