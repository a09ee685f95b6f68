//! The sync orchestrator's decision logic. One sync is a pull → merge →
//! push cycle over the store file; this module holds the state machine
//! that drives it, the classification of a pull's outcome, the detection
//! of merge conflicts in captured output, the setup plan for a new data
//! directory, and the choice of a tracking branch. The caller performs the
//! version-control work and feeds each outcome back as an event; every
//! decision taken on those events is verified here.

use vstd::prelude::*;

use crate::errors::TodoError;
use crate::text::{is_substring, str_contains};

verus! {

/// Where a sync stands. A sync walks these phases in order; conflict
/// resolution inserts a second stage/commit pass before the push.
#[derive(Debug, Clone, Copy, PartialEq, Eq, Structural)]
pub enum SyncPhase {
    /// Stage the store file (and any sidecar ignore file).
    Staging,
    /// Commit, only if the working tree differs from the last commit.
    Committing,
    /// Find out whether a remote is configured at all.
    CheckingRemote,
    /// Fetch and merge the tracked remote branch.
    PullPending,
    /// A textual conflict was found; the resolver must run.
    ResolvePending,
    /// Stage the resolved store file.
    Restaging,
    /// Commit the resolution.
    Recommitting,
    /// Push the current branch to its upstream.
    Pushing,
    /// The sync is over; with no remote configured this is success, not a
    /// degraded path.
    Done,
}

/// What the backend reported for the phase just run.
#[derive(Debug)]
pub enum SyncEvent {
    /// Staging succeeded.
    Staged,
    /// Staging failed; carries the captured diagnostic text.
    StageError(String),
    /// A commit was created.
    Committed,
    /// The working tree already matched the last commit; not an error.
    NothingToCommit,
    /// Committing failed.
    CommitError(String),
    /// A remote is configured.
    RemoteFound,
    /// No remote is configured; the sync ends after the local commit.
    NoRemote,
    /// The pull fast-forwarded the local branch.
    PullFastForward,
    /// The local branch already matched the remote.
    PullUpToDate,
    /// The pull hit a textual conflict in the store file.
    PullConflict,
    /// The pull failed for another reason.
    PullError(String),
    /// Every conflict region was decided and the file rewritten.
    Resolved,
    /// Resolution was interrupted; the store file was left untouched.
    ResolveAborted,
    /// The push succeeded.
    Pushed,
    /// The push failed; the local commit is kept.
    PushError(String),
}

/// What the caller must do next.
#[derive(Debug, Clone, Copy, PartialEq, Eq, Structural)]
pub enum SyncAction {
    /// Stage the store file.
    Stage,
    /// Commit the staged changes.
    Commit,
    /// Ask whether a remote is configured.
    CheckRemote,
    /// Fetch and merge the tracked remote branch.
    Pull,
    /// Run the conflict resolver on the store file.
    Resolve,
    /// Push the current branch to its upstream.
    Push,
    /// Nothing; the sync is over.
    Stop,
}

/// Which events a phase can report.
pub open spec fn event_fits(phase: SyncPhase, event: SyncEvent) -> bool {
    match phase {
        SyncPhase::Staging | SyncPhase::Restaging => event matches SyncEvent::Staged || event
            matches SyncEvent::StageError(_),
        SyncPhase::Committing | SyncPhase::Recommitting => event matches SyncEvent::Committed
            || event matches SyncEvent::NothingToCommit || event matches SyncEvent::CommitError(_),
        SyncPhase::CheckingRemote => event matches SyncEvent::RemoteFound || event
            matches SyncEvent::NoRemote,
        SyncPhase::PullPending => event matches SyncEvent::PullFastForward || event
            matches SyncEvent::PullUpToDate || event matches SyncEvent::PullConflict || event
            matches SyncEvent::PullError(_),
        SyncPhase::ResolvePending => event matches SyncEvent::Resolved || event
            matches SyncEvent::ResolveAborted,
        SyncPhase::Pushing => event matches SyncEvent::Pushed || event
            matches SyncEvent::PushError(_),
        SyncPhase::Done => false,
    }
}

/// The state machine's transition function: from a phase and its event to
/// the next phase and action, or to the one typed error of that phase.
pub open spec fn spec_sync_step(phase: SyncPhase, event: SyncEvent) -> Result<
    (SyncPhase, SyncAction),
    TodoError,
> {
    match (phase, event) {
        (SyncPhase::Staging, SyncEvent::Staged) => Ok(
            (SyncPhase::Committing, SyncAction::Commit),
        ),
        (SyncPhase::Staging, SyncEvent::StageError(e)) => Err(TodoError::StageFailed(e)),
        (SyncPhase::Committing, SyncEvent::Committed) => Ok(
            (SyncPhase::CheckingRemote, SyncAction::CheckRemote),
        ),
        (SyncPhase::Committing, SyncEvent::NothingToCommit) => Ok(
            (SyncPhase::CheckingRemote, SyncAction::CheckRemote),
        ),
        (SyncPhase::Committing, SyncEvent::CommitError(e)) => Err(TodoError::CommitFailed(e)),
        (SyncPhase::CheckingRemote, SyncEvent::RemoteFound) => Ok(
            (SyncPhase::PullPending, SyncAction::Pull),
        ),
        (SyncPhase::CheckingRemote, SyncEvent::NoRemote) => Ok((SyncPhase::Done, SyncAction::Stop)),
        (SyncPhase::PullPending, SyncEvent::PullFastForward) => Ok(
            (SyncPhase::Pushing, SyncAction::Push),
        ),
        (SyncPhase::PullPending, SyncEvent::PullUpToDate) => Ok(
            (SyncPhase::Pushing, SyncAction::Push),
        ),
        (SyncPhase::PullPending, SyncEvent::PullConflict) => Ok(
            (SyncPhase::ResolvePending, SyncAction::Resolve),
        ),
        (SyncPhase::PullPending, SyncEvent::PullError(e)) => Err(TodoError::PullFailed(e)),
        (SyncPhase::ResolvePending, SyncEvent::Resolved) => Ok(
            (SyncPhase::Restaging, SyncAction::Stage),
        ),
        (SyncPhase::ResolvePending, SyncEvent::ResolveAborted) => Err(
            TodoError::ConflictUnresolved,
        ),
        (SyncPhase::Restaging, SyncEvent::Staged) => Ok(
            (SyncPhase::Recommitting, SyncAction::Commit),
        ),
        (SyncPhase::Restaging, SyncEvent::StageError(e)) => Err(TodoError::StageFailed(e)),
        (SyncPhase::Recommitting, SyncEvent::Committed) => Ok(
            (SyncPhase::Pushing, SyncAction::Push),
        ),
        (SyncPhase::Recommitting, SyncEvent::NothingToCommit) => Ok(
            (SyncPhase::Pushing, SyncAction::Push),
        ),
        (SyncPhase::Recommitting, SyncEvent::CommitError(e)) => Err(TodoError::CommitFailed(e)),
        (SyncPhase::Pushing, SyncEvent::Pushed) => Ok((SyncPhase::Done, SyncAction::Stop)),
        (SyncPhase::Pushing, SyncEvent::PushError(e)) => Err(TodoError::PushFailed(e)),
        // unreachable while the event fits the phase
        _ => Err(TodoError::NotARepository),
    }
}

/// Advances the sync by one step. A failed phase propagates its one typed
/// error and the sync halts there: nothing is retried and nothing earlier
/// is rolled back.
pub fn sync_step(phase: SyncPhase, event: SyncEvent) -> (r: Result<
    (SyncPhase, SyncAction),
    TodoError,
>)
    requires
        event_fits(phase, event),
    ensures
        r == spec_sync_step(phase, event),
{
    match (phase, event) {
        (SyncPhase::Staging, SyncEvent::Staged) => Ok(
            (SyncPhase::Committing, SyncAction::Commit),
        ),
        (SyncPhase::Staging, SyncEvent::StageError(e)) => Err(TodoError::StageFailed(e)),
        (SyncPhase::Committing, SyncEvent::Committed) => Ok(
            (SyncPhase::CheckingRemote, SyncAction::CheckRemote),
        ),
        (SyncPhase::Committing, SyncEvent::NothingToCommit) => Ok(
            (SyncPhase::CheckingRemote, SyncAction::CheckRemote),
        ),
        (SyncPhase::Committing, SyncEvent::CommitError(e)) => Err(TodoError::CommitFailed(e)),
        (SyncPhase::CheckingRemote, SyncEvent::RemoteFound) => Ok(
            (SyncPhase::PullPending, SyncAction::Pull),
        ),
        (SyncPhase::CheckingRemote, SyncEvent::NoRemote) => Ok((SyncPhase::Done, SyncAction::Stop)),
        (SyncPhase::PullPending, SyncEvent::PullFastForward) => Ok(
            (SyncPhase::Pushing, SyncAction::Push),
        ),
        (SyncPhase::PullPending, SyncEvent::PullUpToDate) => Ok(
            (SyncPhase::Pushing, SyncAction::Push),
        ),
        (SyncPhase::PullPending, SyncEvent::PullConflict) => Ok(
            (SyncPhase::ResolvePending, SyncAction::Resolve),
        ),
        (SyncPhase::PullPending, SyncEvent::PullError(e)) => Err(TodoError::PullFailed(e)),
        (SyncPhase::ResolvePending, SyncEvent::Resolved) => Ok(
            (SyncPhase::Restaging, SyncAction::Stage),
        ),
        (SyncPhase::ResolvePending, SyncEvent::ResolveAborted) => Err(
            TodoError::ConflictUnresolved,
        ),
        (SyncPhase::Restaging, SyncEvent::Staged) => Ok(
            (SyncPhase::Recommitting, SyncAction::Commit),
        ),
        (SyncPhase::Restaging, SyncEvent::StageError(e)) => Err(TodoError::StageFailed(e)),
        (SyncPhase::Recommitting, SyncEvent::Committed) => Ok(
            (SyncPhase::Pushing, SyncAction::Push),
        ),
        (SyncPhase::Recommitting, SyncEvent::NothingToCommit) => Ok(
            (SyncPhase::Pushing, SyncAction::Push),
        ),
        (SyncPhase::Recommitting, SyncEvent::CommitError(e)) => Err(TodoError::CommitFailed(e)),
        (SyncPhase::Pushing, SyncEvent::Pushed) => Ok((SyncPhase::Done, SyncAction::Stop)),
        (SyncPhase::Pushing, SyncEvent::PushError(e)) => Err(TodoError::PushFailed(e)),
        _ => Err(TodoError::NotARepository),
    }
}

/// The phase a fresh sync starts in, with its first action.
pub fn sync_start() -> (r: (SyncPhase, SyncAction))
    ensures
        r == (SyncPhase::Staging, SyncAction::Stage),
{
    (SyncPhase::Staging, SyncAction::Stage)
}

/// LAW: the sync machine never touches the store file after the pull
/// reported the local branch already up to date — the up-to-date path goes
/// straight to the push, never through the resolver.
pub proof fn lemma_up_to_date_skips_resolver()
    ensures
        spec_sync_step(SyncPhase::PullPending, SyncEvent::PullUpToDate) == Ok::<
            (SyncPhase, SyncAction),
            TodoError,
        >((SyncPhase::Pushing, SyncAction::Push)),
        spec_sync_step(SyncPhase::PullPending, SyncEvent::PullFastForward) == Ok::<
            (SyncPhase, SyncAction),
            TodoError,
        >((SyncPhase::Pushing, SyncAction::Push)),
        spec_sync_step(SyncPhase::PullPending, SyncEvent::PullConflict) == Ok::<
            (SyncPhase, SyncAction),
            TodoError,
        >((SyncPhase::ResolvePending, SyncAction::Resolve)),
{
}

/// How a fetch of the remote branch relates to the local branch.
#[derive(Debug, Clone, Copy, PartialEq, Eq, Structural)]
pub enum PullOutcome {
    /// There is no local commit yet: check out the remote branch as-is.
    InitialCheckout,
    /// Local and remote already point at the same commit.
    UpToDate,
    /// The local branch can simply advance to the remote commit.
    FastForward,
    /// Divergent histories: a manual merge is required.
    ManualMergeRequired,
}

/// Classifies a pull from what the backend reported about the two heads:
/// whether a local head exists, whether the heads are equal, and what the
/// merge analysis said. The checks run in exactly this order.
pub fn classify_pull(
    has_local_head: bool,
    heads_equal: bool,
    analysis_fast_forward: bool,
    analysis_up_to_date: bool,
) -> (r: PullOutcome)
    ensures
        r == spec_classify_pull(
            has_local_head,
            heads_equal,
            analysis_fast_forward,
            analysis_up_to_date,
        ),
{
    if !has_local_head {
        PullOutcome::InitialCheckout
    } else if heads_equal {
        PullOutcome::UpToDate
    } else if analysis_fast_forward {
        PullOutcome::FastForward
    } else if analysis_up_to_date {
        PullOutcome::UpToDate
    } else {
        PullOutcome::ManualMergeRequired
    }
}

/// What `classify_pull` decides for every combination of reports.
pub open spec fn spec_classify_pull(
    has_local_head: bool,
    heads_equal: bool,
    analysis_fast_forward: bool,
    analysis_up_to_date: bool,
) -> PullOutcome {
    if !has_local_head {
        PullOutcome::InitialCheckout
    } else if heads_equal {
        PullOutcome::UpToDate
    } else if analysis_fast_forward {
        PullOutcome::FastForward
    } else if analysis_up_to_date {
        PullOutcome::UpToDate
    } else {
        PullOutcome::ManualMergeRequired
    }
}

/// Whether the captured output of a pull signals a textual merge conflict:
/// either stream names a conflict or reports that the automatic merge
/// failed.
pub fn conflict_detected(out: &str, err: &str) -> (r: bool)
    ensures
        r == (is_substring(out@, "CONFLICT"@) || is_substring(err@, "CONFLICT"@) || is_substring(
            out@,
            "Automatic merge failed"@,
        ) || is_substring(err@, "Automatic merge failed"@)),
{
    str_contains(out, "CONFLICT") || str_contains(err, "CONFLICT") || str_contains(
        out,
        "Automatic merge failed",
    ) || str_contains(err, "Automatic merge failed")
}

/// The plan for binding a data directory to a repository.
#[derive(Debug, Clone, Copy, PartialEq, Eq, Structural)]
pub enum SetupPlan {
    /// Already a repository and nothing to add: leave it alone.
    KeepRepo,
    /// Already a repository; configure the given remote, which is absent.
    AddRemote,
    /// Already a repository with a remote; never overwrite it silently,
    /// only warn.
    WarnRemoteExists,
    /// Not yet a repository and a remote is given: clone it into the
    /// directory.
    CloneRemote,
    /// Not yet a repository and no remote: initialize one, write an empty
    /// store file if absent, and create the first commit.
    InitRepo { write_store: bool },
}

/// Decides how to set up the data directory. Setup is idempotent: an
/// existing repository is never re-initialized, and an existing remote is
/// never overwritten.
pub fn setup_plan(is_repository: bool, remote_url_given: bool, remote_configured: bool,
    store_file_exists: bool) -> (r: SetupPlan)
    ensures
        r == spec_setup_plan(is_repository, remote_url_given, remote_configured,
        store_file_exists),
{
    if is_repository {
        if remote_url_given {
            if remote_configured {
                SetupPlan::WarnRemoteExists
            } else {
                SetupPlan::AddRemote
            }
        } else {
            SetupPlan::KeepRepo
        }
    } else {
        if remote_url_given {
            SetupPlan::CloneRemote
        } else {
            SetupPlan::InitRepo { write_store: !store_file_exists }
        }
    }
}

/// What `setup_plan` decides for every state of the directory.
pub open spec fn spec_setup_plan(
    is_repository: bool,
    remote_url_given: bool,
    remote_configured: bool,
    store_file_exists: bool,
) -> SetupPlan {
    if is_repository {
        if remote_url_given {
            if remote_configured {
                SetupPlan::WarnRemoteExists
            } else {
                SetupPlan::AddRemote
            }
        } else {
            SetupPlan::KeepRepo
        }
    } else if remote_url_given {
        SetupPlan::CloneRemote
    } else {
        SetupPlan::InitRepo { write_store: !store_file_exists }
    }
}

/// Whether some branch name in the list equals `name`.
fn branch_listed(branches: &Vec<String>, name: &str) -> (r: bool)
    ensures
        r == branches.deep_view().contains(name@),
{
    let n = branches.len();
    let mut i: usize = 0;
    while i < n
        invariant
            i <= n,
            n == branches@.len(),
            forall|j: int| 0 <= j < i ==> branches.deep_view()[j] != name@,
        decreases n - i,
    {
        if crate::text::str_eq(branches[i].as_str(), name) {
            proof {
                assert(branches.deep_view()[i as int] == name@);
            }
            return true;
        }
        proof {
            assert(branches.deep_view()[i as int] == branches@[i as int]@);
        }
        i = i + 1;
    }
    proof {
        if branches.deep_view().contains(name@) {
            let j = choose|j: int|
                0 <= j < branches.deep_view().len() && branches.deep_view()[j] == name@;
        }
    }
    false
}

/// Chooses the branch the local branch should track. With an upstream
/// already configured nothing is chosen. Otherwise the remote's `main` is
/// taken, then `master`; with neither on the remote the sync cannot
/// proceed and the user must intervene.
pub fn choose_tracking_branch(has_upstream: bool, remote_branches: &Vec<String>) -> (r: Result<
    Option<String>,
    TodoError,
>)
    ensures
        has_upstream ==> (r matches Ok(o) && o is None),
        !has_upstream && remote_branches.deep_view().contains("main"@) ==> (r matches Ok(o) && (
        o matches Some(b) && b@ == "main"@)),
        !has_upstream && !remote_branches.deep_view().contains("main"@)
            && remote_branches.deep_view().contains("master"@) ==> (r matches Ok(o) && (
        o matches Some(b) && b@ == "master"@)),
        !has_upstream && !remote_branches.deep_view().contains("main"@)
            && !remote_branches.deep_view().contains("master"@) ==> (r matches Err(e) && e
            == TodoError::NoDefaultBranchFound),
{
    if has_upstream {
        Ok(None)
    } else if branch_listed(remote_branches, "main") {
        Ok(Some(String::from_str("main")))
    } else if branch_listed(remote_branches, "master") {
        Ok(Some(String::from_str("master")))
    } else {
        Err(TodoError::NoDefaultBranchFound)
    }
}

/// A snapshot of the repository's state, for display.
#[derive(Debug)]
pub struct GitStatus {
    pub has_remote: bool,
    pub remote_url: Option<String>,
    pub has_changes: bool,
    pub current_branch: Option<String>,
    pub change_count: usize,
}

impl GitStatus {
    /// The status as display lines: branch, remote, and working-tree state.
    pub fn display(&self) -> (r: Vec<String>)
        ensures
            r@.len() == 4,
            r.deep_view()[0] == "Git Status:"@,
            match self.current_branch {
                Some(b) => r.deep_view()[1] == "   Branch: "@ + b@,
                None => r.deep_view()[1] == "   Branch: No commits yet"@,
            },
            self.has_remote ==> match self.remote_url {
                Some(u) => r.deep_view()[2] == "   Remote: "@ + u@,
                None => r.deep_view()[2] == "   Remote: origin (no URL)"@,
            },
            !self.has_remote ==> r.deep_view()[2] == "   Remote: None (local only)"@,
            self.has_changes ==> r.deep_view()[3] == "   Status: "@ + crate::codec::spec_digits(
                self.change_count as nat,
            ) + " uncommitted changes"@,
            !self.has_changes ==> r.deep_view()[3] == "   Status: Clean (no changes)"@,
    {
        let mut r: Vec<String> = Vec::new();
        r.push(String::from_str("Git Status:"));
        match &self.current_branch {
            Some(b) => {
                let mut line = String::from_str("   Branch: ");
                line.append(b.as_str());
                r.push(line);
            },
            None => {
                r.push(String::from_str("   Branch: No commits yet"));
            },
        }
        if self.has_remote {
            match &self.remote_url {
                Some(u) => {
                    let mut line = String::from_str("   Remote: ");
                    line.append(u.as_str());
                    r.push(line);
                },
                None => {
                    r.push(String::from_str("   Remote: origin (no URL)"));
                },
            }
        } else {
            r.push(String::from_str("   Remote: None (local only)"));
        }
        if self.has_changes {
            let mut line = String::from_str("   Status: ");
            let mut digits: Vec<char> = Vec::new();
            crate::codec::render_u64(self.change_count as u64, &mut digits);
            line.append(crate::text::chars_to_string(&digits).as_str());
            line.append(" uncommitted changes");
            r.push(line);
        } else {
            r.push(String::from_str("   Status: Clean (no changes)"));
        }
        proof {
            assert(r.deep_view()[0] == "Git Status:"@);
        }
        r
    }
}

} // verus!
