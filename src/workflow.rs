//! The decisions of the update workflow: snapshot, take the lock guard, run
//! the update, snapshot again, materialize the difference, restore. The
//! caller performs each action and reports how it went; every path that took
//! the guard restores the lock file before the run finishes.
use vstd::prelude::*;
use crate::commands::{all_copies, copy_models, diff_copies, CopyOp};
use crate::snapshot::PackageDiff;

verus! {

/// Why a workflow run failed.
#[derive(Debug)]
pub enum WorkflowError {
    /// The update command exited with a failure status.
    ExternalCommandFailed,
    /// Another step failed, for the reason given.
    StepFailed { message: String },
}

impl WorkflowError {
    /// The message shown to a user.
    pub fn message(&self) -> (r: String)
        ensures
            match self {
                WorkflowError::ExternalCommandFailed => r@ == "running cargo update failed"@,
                WorkflowError::StepFailed { message } => r@ == message@,
            },
    {
        match self {
            WorkflowError::ExternalCommandFailed => String::from_str("running cargo update failed"),
            WorkflowError::StepFailed { message } => message.clone(),
        }
    }
}

/// The milestones of a run, in order: each is the last one reached.
#[derive(Debug, Clone, Copy, PartialEq, Eq, Structural)]
pub enum Stage {
    /// Nothing done yet.
    Idle,
    /// The snapshot before the update is taken.
    SnapshotTaken,
    /// The guard over the lock file is taken.
    LockAcquired,
    /// The update command ran and succeeded.
    Updated,
    /// The snapshot after the update is taken.
    SnapshotTaken2,
    /// The difference is materialized.
    Diffed,
    /// The run is over; a guard it took was restored.
    Restored,
}

/// How the last action went.
#[derive(Debug)]
pub enum Outcome {
    Succeeded,
    Failed(WorkflowError),
    /// The update command exited, successfully or not.
    UpdateExited { success: bool },
}

/// What the caller does next.
#[derive(Debug)]
pub enum Action {
    /// Resolve the project and take a snapshot of it.
    TakeSnapshot,
    /// Take the guard over the project's lock file.
    AcquireLock,
    /// Run the update command.
    RunUpdate,
    /// Diff the two snapshots and copy or compare what differs.
    Materialize,
    /// Restore the lock file through the guard.
    RestoreLock,
    /// The run is over, with this result.
    Finish(Result<(), WorkflowError>),
}

/// The state of a run.
pub struct RunModel {
    pub stage: Stage,
    pub failure: Option<WorkflowError>,
    pub restoring: bool,
}

/// An update workflow in progress.
#[derive(Debug)]
pub struct UpdateRun {
    stage: Stage,
    failure: Option<WorkflowError>,
    restoring: bool,
}

impl View for UpdateRun {
    type V = RunModel;

    closed spec fn view(&self) -> RunModel {
        RunModel { stage: self.stage, failure: self.failure, restoring: self.restoring }
    }
}

/// The lock guard is held: it was taken and not yet restored.
pub open spec fn lock_held(m: RunModel) -> bool {
    m.stage == Stage::LockAcquired || m.stage == Stage::Updated || m.stage
        == Stage::SnapshotTaken2 || m.stage == Stage::Diffed
}

/// The error an outcome reports, if any.
pub open spec fn outcome_error(o: Outcome) -> Option<WorkflowError> {
    match o {
        Outcome::Succeeded => None,
        Outcome::Failed(e) => Some(e),
        Outcome::UpdateExited { success } => if success {
            None
        } else {
            Some(WorkflowError::ExternalCommandFailed)
        },
    }
}

/// One decision. While a restore is pending, any outcome ends the run with
/// the first failure, or else with the restore's own result. Otherwise
/// success moves to the next milestone; a failure before the guard is taken
/// ends the run at once, and one after it keeps the milestone reached and
/// asks for the restore first.
pub open spec fn step(m: RunModel, o: Outcome) -> (RunModel, Action) {
    if m.restoring {
        let result = match m.failure {
            Some(e) => Err(e),
            None => match outcome_error(o) {
                Some(e) => Err(e),
                None => Ok(()),
            },
        };
        (RunModel { stage: Stage::Restored, failure: None, restoring: false }, Action::Finish(result))
    } else {
        match outcome_error(o) {
            Some(e) => if lock_held(m) {
                (RunModel { stage: m.stage, failure: Some(e), restoring: true }, Action::RestoreLock)
            } else {
                (RunModel { stage: Stage::Restored, failure: None, restoring: false }, Action::Finish(Err(e)))
            },
            None => match m.stage {
                Stage::Idle => (RunModel { stage: Stage::SnapshotTaken, ..m }, Action::AcquireLock),
                Stage::SnapshotTaken => (RunModel { stage: Stage::LockAcquired, ..m }, Action::RunUpdate),
                Stage::LockAcquired => (RunModel { stage: Stage::Updated, ..m }, Action::TakeSnapshot),
                Stage::Updated => (RunModel { stage: Stage::SnapshotTaken2, ..m }, Action::Materialize),
                _ => (RunModel { stage: Stage::Diffed, failure: None, restoring: true }, Action::RestoreLock),
            },
        }
    }
}

/// The run is over.
pub open spec fn finished(m: RunModel) -> bool {
    m.stage == Stage::Restored
}

impl UpdateRun {
    /// A new run, and its first action: the snapshot before the update.
    pub fn start() -> (r: (UpdateRun, Action))
        ensures
            r.0@ == (RunModel { stage: Stage::Idle, failure: None, restoring: false }),
            r.1 == Action::TakeSnapshot,
    {
        (UpdateRun { stage: Stage::Idle, failure: None, restoring: false }, Action::TakeSnapshot)
    }

    /// The last milestone the run reached.
    pub fn stage(&self) -> (r: Stage)
        ensures
            r == self@.stage,
    {
        self.stage
    }

    /// Whether the run is over.
    pub fn is_finished(&self) -> (r: bool)
        ensures
            r == finished(self@),
    {
        self.stage == Stage::Restored
    }

    /// Takes the outcome of the last action and decides the next one.
    pub fn next(&mut self, o: Outcome) -> (r: Action)
        requires
            !finished(old(self)@),
        ensures
            (final(self)@, r) == step(old(self)@, o),
    {
        let err: Option<WorkflowError> = match o {
            Outcome::Succeeded => None,
            Outcome::Failed(e) => Some(e),
            Outcome::UpdateExited { success } => if success {
                None
            } else {
                Some(WorkflowError::ExternalCommandFailed)
            },
        };
        if self.restoring {
            let failure = self.failure.take();
            let result = match failure {
                Some(e) => Err(e),
                None => match err {
                    Some(e) => Err(e),
                    None => Ok(()),
                },
            };
            self.stage = Stage::Restored;
            self.restoring = false;
            return Action::Finish(result);
        }
        let held = self.stage == Stage::LockAcquired || self.stage == Stage::Updated
            || self.stage == Stage::SnapshotTaken2 || self.stage == Stage::Diffed;
        match err {
            Some(e) => {
                if held {
                    self.failure = Some(e);
                    self.restoring = true;
                    Action::RestoreLock
                } else {
                    self.stage = Stage::Restored;
                    self.failure = None;
                    Action::Finish(Err(e))
                }
            },
            None => match self.stage {
                Stage::Idle => {
                    self.stage = Stage::SnapshotTaken;
                    Action::AcquireLock
                },
                Stage::SnapshotTaken => {
                    self.stage = Stage::LockAcquired;
                    Action::RunUpdate
                },
                Stage::LockAcquired => {
                    self.stage = Stage::Updated;
                    Action::TakeSnapshot
                },
                Stage::Updated => {
                    self.stage = Stage::SnapshotTaken2;
                    Action::Materialize
                },
                _ => {
                    self.stage = Stage::Diffed;
                    self.failure = None;
                    self.restoring = true;
                    Action::RestoreLock
                },
            },
        }
    }
}

/// Show the sources of the dependencies that an update changes.
#[derive(Debug)]
pub struct UpdateDiff {
    /// Where to copy them; without one they are copied to a scratch
    /// directory and compared there.
    pub dest: Option<String>,
}

/// Where the differing sources go, and whether to compare them afterwards.
#[derive(Debug)]
pub struct Materialization {
    /// The directory that holds `before/` and `after/`.
    pub root: String,
    /// The copies, relative to `root`.
    pub copies: Vec<CopyOp>,
    /// Compare `root/before` with `root/after` once copied.
    pub compare: bool,
}

impl UpdateDiff {
    /// Whether the sources go to a scratch directory: there is no
    /// destination.
    pub fn needs_scratch(&self) -> (r: bool)
        ensures
            r == (self.dest is None),
    {
        self.dest.is_none()
    }

    /// Decides how to materialize `diffs`: into the destination when there is
    /// one, with no comparison; else into `scratch`, then compared.
    pub fn materialize(&self, diffs: &Vec<PackageDiff>, scratch: String) -> (r: Materialization)
        ensures
            copy_models(r.copies@) == all_copies(diffs@),
            match self.dest {
                Some(d) => r.root@ == d@ && !r.compare,
                None => r.root@ == scratch@ && r.compare,
            },
    {
        let copies = diff_copies(diffs);
        match &self.dest {
            Some(d) => Materialization { root: d.clone(), copies, compare: false },
            None => Materialization { root: scratch, copies, compare: true },
        }
    }
}

/// While the guard is held, no decision ends the run: the next action is
/// another step or the restore, never the end.
pub proof fn lemma_no_finish_while_locked(m: RunModel, o: Outcome)
    requires
        lock_held(m),
        !m.restoring,
    ensures
        !(step(m, o).1 is Finish),
        lock_held(step(m, o).0),
{
}

/// Once a restore is pending, the next outcome, whatever it is, ends the run.
pub proof fn lemma_finish_after_restore(m: RunModel, o: Outcome)
    requires
        m.restoring,
    ensures
        step(m, o).1 is Finish,
        finished(step(m, o).0),
{
}

/// When the update command exits with a failure, the next action restores
/// the lock file, and whatever the restore's outcome the run then ends
/// reporting that the external command failed.
pub proof fn lemma_failed_update_restores_then_fails(m: RunModel, o: Outcome)
    requires
        m.stage == Stage::LockAcquired,
        !m.restoring,
    ensures
        step(m, Outcome::UpdateExited { success: false }).1 == Action::RestoreLock,
        step(step(m, Outcome::UpdateExited { success: false }).0, o).1 == Action::Finish(
            Err(WorkflowError::ExternalCommandFailed),
        ),
{
}

} // verus!
