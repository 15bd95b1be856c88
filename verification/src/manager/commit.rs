//! Installing a fetched package into the store.
//!
//! The procedure alternates file-system work with decisions. The decisions
//! are the machine below: from its state and the outcome of the last action
//! it gives the next state and action. The caller performs each action and
//! reports whether it succeeded (for checks: whether the answer is yes).

use vstd::prelude::*;
use crate::manager::cache::Durability;

verus! {

/// The file-system work of an install.
#[derive(Debug, Clone, Copy, PartialEq, Eq, Structural)]
pub enum CommitAction {
    /// Ask whether the package's final directory holds a complete package.
    CheckInstalled,
    /// Write the completion marker into the staged directory.
    WriteMarker,
    /// Flush the staged directory (outcome ignored).
    SyncStaged,
    /// Rename the staged directory to the final directory.
    RenameStaged,
    /// Ask whether something exists at the final directory.
    CheckDestinationExists,
    /// Rename what is at the final directory to a fresh trash name.
    TrashDestination,
    /// Remove what is at the final directory (best effort).
    RemoveDestination,
    /// Ask whether the failed first rename crossed devices.
    CheckCrossDevice,
    /// Copy the staged directory to a fresh temporary directory in the store.
    CopyStagedToTemp,
    /// Rename the temporary directory to the final directory.
    RenameTemp,
    /// Remove the temporary directory (best effort).
    RemoveTemp,
    /// Remove the staged directory (best effort).
    RemoveStaged,
    /// Remove the trashed directory (best effort).
    RemoveTrash,
    /// Flush the final directory (outcome ignored).
    SyncInstalled,
    /// Flush the final directory's parent (outcome ignored).
    SyncInstalledParent,
    /// Return success.
    ReturnOk,
    /// Return the error of the step that failed.
    ReturnError(CommitFailure),
}

/// The step whose error a failed install returns.
#[derive(Debug, Clone, Copy, PartialEq, Eq, Structural)]
pub enum CommitFailure {
    /// Writing the completion marker.
    WriteMarker,
    /// Copying the staged directory across devices.
    CopyAcross,
    /// Renaming the copy to the final directory.
    RenameCopy,
    /// Renaming the staged directory again, on the same device.
    RetryRename,
}

/// Where an install stands: the action it awaits the outcome of.
#[derive(Debug, Clone, Copy, PartialEq, Eq, Structural)]
pub enum CommitStage {
    CheckInstalled,
    WriteMarker,
    SyncStaged,
    Rename,
    CheckRaceWon,
    CheckDamaged,
    TrashDamaged,
    RemoveDamaged,
    CheckCrossDevice,
    CopyAcross,
    RenameCopy,
    RetryRename,
    DropTempAfterError,
    DropStagedAfterError,
    DropTrashAfterError,
    DropTrash,
    SyncInstalled,
    SyncParent,
    DropStaged,
    Succeeded,
    Failed,
}

/// The state of an install.
#[derive(Debug, Clone, Copy, PartialEq, Eq, Structural)]
pub struct CommitState {
    pub stage: CommitStage,
    /// Installed packages are flushed.
    pub flush: bool,
    /// A damaged final directory was moved to a trash name and awaits removal.
    pub trash: bool,
    /// The step that failed, once one has.
    pub failure: Option<CommitFailure>,
}

/// The failed step an install reports.
pub open spec fn failed_step(s: CommitState) -> CommitFailure {
    match s.failure {
        Some(f) => f,
        None => CommitFailure::WriteMarker,
    }
}

/// The state and action that begin an install.
pub open spec fn commit_begin(durability: Durability) -> (CommitState, CommitAction) {
    (
        CommitState {
            stage: CommitStage::CheckInstalled,
            flush: durability == Durability::Flush,
            trash: false,
            failure: None,
        },
        CommitAction::CheckInstalled,
    )
}

/// Where an install goes once the package is in place: remove the trash,
/// flush, then drop the staged directory.
pub open spec fn after_install(s: CommitState) -> (CommitState, CommitAction) {
    if s.trash {
        (CommitState { stage: CommitStage::DropTrash, trash: false, ..s }, CommitAction::RemoveTrash)
    } else {
        after_trash(s)
    }
}

/// Where an install goes once no trash is left: flush, or drop the staged
/// directory.
pub open spec fn after_trash(s: CommitState) -> (CommitState, CommitAction) {
    if s.flush {
        (CommitState { stage: CommitStage::SyncInstalled, ..s }, CommitAction::SyncInstalled)
    } else {
        (CommitState { stage: CommitStage::DropStaged, ..s }, CommitAction::RemoveStaged)
    }
}

/// The next state and action of an install, given whether the awaited
/// action succeeded.
pub open spec fn commit_transition(s: CommitState, ok: bool) -> (CommitState, CommitAction) {
    let go = |stage: CommitStage, a: CommitAction| (CommitState { stage, ..s }, a);
    match s.stage {
        CommitStage::CheckInstalled => if ok {
            go(CommitStage::DropStaged, CommitAction::RemoveStaged)
        } else {
            go(CommitStage::WriteMarker, CommitAction::WriteMarker)
        },
        CommitStage::WriteMarker => if !ok {
            (
                CommitState {
                    stage: CommitStage::Failed,
                    failure: Some(CommitFailure::WriteMarker),
                    ..s
                },
                CommitAction::ReturnError(CommitFailure::WriteMarker),
            )
        } else if s.flush {
            go(CommitStage::SyncStaged, CommitAction::SyncStaged)
        } else {
            go(CommitStage::Rename, CommitAction::RenameStaged)
        },
        CommitStage::SyncStaged => go(CommitStage::Rename, CommitAction::RenameStaged),
        CommitStage::Rename => if ok {
            after_trash(s)
        } else {
            go(CommitStage::CheckRaceWon, CommitAction::CheckInstalled)
        },
        CommitStage::CheckRaceWon => if ok {
            go(CommitStage::DropStaged, CommitAction::RemoveStaged)
        } else {
            go(CommitStage::CheckDamaged, CommitAction::CheckDestinationExists)
        },
        CommitStage::CheckDamaged => if ok {
            go(CommitStage::TrashDamaged, CommitAction::TrashDestination)
        } else {
            go(CommitStage::CheckCrossDevice, CommitAction::CheckCrossDevice)
        },
        CommitStage::TrashDamaged => if ok {
            (
                CommitState { stage: CommitStage::CheckCrossDevice, trash: true, ..s },
                CommitAction::CheckCrossDevice,
            )
        } else {
            go(CommitStage::RemoveDamaged, CommitAction::RemoveDestination)
        },
        CommitStage::RemoveDamaged => go(CommitStage::CheckCrossDevice, CommitAction::CheckCrossDevice),
        CommitStage::CheckCrossDevice => if ok {
            go(CommitStage::CopyAcross, CommitAction::CopyStagedToTemp)
        } else {
            go(CommitStage::RetryRename, CommitAction::RenameStaged)
        },
        CommitStage::CopyAcross => if ok {
            go(CommitStage::RenameCopy, CommitAction::RenameTemp)
        } else {
            (
                CommitState {
                    stage: CommitStage::DropTempAfterError,
                    failure: Some(CommitFailure::CopyAcross),
                    ..s
                },
                CommitAction::RemoveTemp,
            )
        },
        CommitStage::RenameCopy => if ok {
            after_install(s)
        } else {
            (
                CommitState {
                    stage: CommitStage::DropTempAfterError,
                    failure: Some(CommitFailure::RenameCopy),
                    ..s
                },
                CommitAction::RemoveTemp,
            )
        },
        CommitStage::RetryRename => if ok {
            after_install(s)
        } else {
            (
                CommitState {
                    stage: CommitStage::DropStagedAfterError,
                    failure: Some(CommitFailure::RetryRename),
                    ..s
                },
                CommitAction::RemoveStaged,
            )
        },
        CommitStage::DropTempAfterError => go(CommitStage::DropStagedAfterError, CommitAction::RemoveStaged),
        CommitStage::DropStagedAfterError => if s.trash {
            (
                CommitState { stage: CommitStage::DropTrashAfterError, trash: false, ..s },
                CommitAction::RemoveTrash,
            )
        } else {
            go(CommitStage::Failed, CommitAction::ReturnError(failed_step(s)))
        },
        CommitStage::DropTrashAfterError => go(CommitStage::Failed, CommitAction::ReturnError(failed_step(s))),
        CommitStage::DropTrash => after_trash(s),
        CommitStage::SyncInstalled => go(CommitStage::SyncParent, CommitAction::SyncInstalledParent),
        CommitStage::SyncParent => go(CommitStage::DropStaged, CommitAction::RemoveStaged),
        CommitStage::DropStaged => go(CommitStage::Succeeded, CommitAction::ReturnOk),
        CommitStage::Succeeded => go(CommitStage::Succeeded, CommitAction::ReturnOk),
        CommitStage::Failed => go(CommitStage::Failed, CommitAction::ReturnError(failed_step(s))),
    }
}

/// Begins an install under the given durability.
pub fn commit_start(durability: Durability) -> (r: (CommitState, CommitAction))
    ensures
        r == commit_begin(durability),
{
    let flush = match durability {
        Durability::Flush => true,
        Durability::NoSync => false,
    };
    (
        CommitState { stage: CommitStage::CheckInstalled, flush, trash: false, failure: None },
        CommitAction::CheckInstalled,
    )
}

fn goto(s: CommitState, stage: CommitStage, a: CommitAction) -> (r: (CommitState, CommitAction))
    ensures
        r == (CommitState { stage, ..s }, a),
{
    (CommitState { stage, flush: s.flush, trash: s.trash, failure: s.failure }, a)
}

fn fail(s: CommitState, stage: CommitStage, f: CommitFailure, a: CommitAction) -> (r: (CommitState, CommitAction))
    ensures
        r == (CommitState { stage, failure: Some(f), ..s }, a),
{
    (CommitState { stage, flush: s.flush, trash: s.trash, failure: Some(f) }, a)
}

fn step_of(s: CommitState) -> (f: CommitFailure)
    ensures
        f == failed_step(s),
{
    match s.failure {
        Some(f) => f,
        None => CommitFailure::WriteMarker,
    }
}

fn next_after_trash(s: CommitState) -> (r: (CommitState, CommitAction))
    ensures
        r == after_trash(s),
{
    if s.flush {
        goto(s, CommitStage::SyncInstalled, CommitAction::SyncInstalled)
    } else {
        goto(s, CommitStage::DropStaged, CommitAction::RemoveStaged)
    }
}

fn next_after_install(s: CommitState) -> (r: (CommitState, CommitAction))
    ensures
        r == after_install(s),
{
    if s.trash {
        (
            CommitState { stage: CommitStage::DropTrash, flush: s.flush, trash: false, failure: s.failure },
            CommitAction::RemoveTrash,
        )
    } else {
        next_after_trash(s)
    }
}

/// Advances an install: `ok` is the outcome of the action that `s` awaits.
pub fn commit_step(s: CommitState, ok: bool) -> (r: (CommitState, CommitAction))
    ensures
        r == commit_transition(s, ok),
{
    match s.stage {
        CommitStage::CheckInstalled => if ok {
            goto(s, CommitStage::DropStaged, CommitAction::RemoveStaged)
        } else {
            goto(s, CommitStage::WriteMarker, CommitAction::WriteMarker)
        },
        CommitStage::WriteMarker => if !ok {
            fail(
                s,
                CommitStage::Failed,
                CommitFailure::WriteMarker,
                CommitAction::ReturnError(CommitFailure::WriteMarker),
            )
        } else if s.flush {
            goto(s, CommitStage::SyncStaged, CommitAction::SyncStaged)
        } else {
            goto(s, CommitStage::Rename, CommitAction::RenameStaged)
        },
        CommitStage::SyncStaged => goto(s, CommitStage::Rename, CommitAction::RenameStaged),
        CommitStage::Rename => if ok {
            next_after_trash(s)
        } else {
            goto(s, CommitStage::CheckRaceWon, CommitAction::CheckInstalled)
        },
        CommitStage::CheckRaceWon => if ok {
            goto(s, CommitStage::DropStaged, CommitAction::RemoveStaged)
        } else {
            goto(s, CommitStage::CheckDamaged, CommitAction::CheckDestinationExists)
        },
        CommitStage::CheckDamaged => if ok {
            goto(s, CommitStage::TrashDamaged, CommitAction::TrashDestination)
        } else {
            goto(s, CommitStage::CheckCrossDevice, CommitAction::CheckCrossDevice)
        },
        CommitStage::TrashDamaged => if ok {
            (
                CommitState {
                    stage: CommitStage::CheckCrossDevice,
                    flush: s.flush,
                    trash: true,
                    failure: s.failure,
                },
                CommitAction::CheckCrossDevice,
            )
        } else {
            goto(s, CommitStage::RemoveDamaged, CommitAction::RemoveDestination)
        },
        CommitStage::RemoveDamaged => goto(s, CommitStage::CheckCrossDevice, CommitAction::CheckCrossDevice),
        CommitStage::CheckCrossDevice => if ok {
            goto(s, CommitStage::CopyAcross, CommitAction::CopyStagedToTemp)
        } else {
            goto(s, CommitStage::RetryRename, CommitAction::RenameStaged)
        },
        CommitStage::CopyAcross => if ok {
            goto(s, CommitStage::RenameCopy, CommitAction::RenameTemp)
        } else {
            fail(s, CommitStage::DropTempAfterError, CommitFailure::CopyAcross, CommitAction::RemoveTemp)
        },
        CommitStage::RenameCopy => if ok {
            next_after_install(s)
        } else {
            fail(s, CommitStage::DropTempAfterError, CommitFailure::RenameCopy, CommitAction::RemoveTemp)
        },
        CommitStage::RetryRename => if ok {
            next_after_install(s)
        } else {
            fail(s, CommitStage::DropStagedAfterError, CommitFailure::RetryRename, CommitAction::RemoveStaged)
        },
        CommitStage::DropTempAfterError => goto(s, CommitStage::DropStagedAfterError, CommitAction::RemoveStaged),
        CommitStage::DropStagedAfterError => if s.trash {
            (
                CommitState {
                    stage: CommitStage::DropTrashAfterError,
                    flush: s.flush,
                    trash: false,
                    failure: s.failure,
                },
                CommitAction::RemoveTrash,
            )
        } else {
            goto(s, CommitStage::Failed, CommitAction::ReturnError(step_of(s)))
        },
        CommitStage::DropTrashAfterError => goto(s, CommitStage::Failed, CommitAction::ReturnError(step_of(s))),
        CommitStage::DropTrash => next_after_trash(s),
        CommitStage::SyncInstalled => goto(s, CommitStage::SyncParent, CommitAction::SyncInstalledParent),
        CommitStage::SyncParent => goto(s, CommitStage::DropStaged, CommitAction::RemoveStaged),
        CommitStage::DropStaged => goto(s, CommitStage::Succeeded, CommitAction::ReturnOk),
        CommitStage::Succeeded => goto(s, CommitStage::Succeeded, CommitAction::ReturnOk),
        CommitStage::Failed => goto(s, CommitStage::Failed, CommitAction::ReturnError(step_of(s))),
    }
}

/// The install has answered.
pub open spec fn commit_finished(stage: CommitStage) -> bool {
    stage == CommitStage::Succeeded || stage == CommitStage::Failed
}

/// A measure that every step of an unfinished install lowers.
pub open spec fn commit_rank(stage: CommitStage) -> nat {
    match stage {
        CommitStage::CheckInstalled => 20,
        CommitStage::WriteMarker => 19,
        CommitStage::SyncStaged => 18,
        CommitStage::Rename => 17,
        CommitStage::CheckRaceWon => 16,
        CommitStage::CheckDamaged => 15,
        CommitStage::TrashDamaged => 14,
        CommitStage::RemoveDamaged => 13,
        CommitStage::CheckCrossDevice => 12,
        CommitStage::CopyAcross => 11,
        CommitStage::RenameCopy => 10,
        CommitStage::RetryRename => 9,
        CommitStage::DropTempAfterError => 8,
        CommitStage::DropStagedAfterError => 7,
        CommitStage::DropTrashAfterError => 6,
        CommitStage::DropTrash => 5,
        CommitStage::SyncInstalled => 4,
        CommitStage::SyncParent => 3,
        CommitStage::DropStaged => 2,
        CommitStage::Succeeded => 0,
        CommitStage::Failed => 0,
    }
}

/// The states an install can be in: a trashed directory only awaits removal
/// between its trashing and the return, and a non-flushing install is never
/// at a flush.
pub open spec fn commit_wf(s: CommitState) -> bool {
    &&& s.trash ==> (s.stage == CommitStage::CheckCrossDevice || s.stage == CommitStage::CopyAcross
        || s.stage == CommitStage::RenameCopy || s.stage == CommitStage::RetryRename || s.stage
        == CommitStage::DropTempAfterError || s.stage == CommitStage::DropStagedAfterError)
    &&& !s.flush ==> (s.stage != CommitStage::SyncStaged && s.stage != CommitStage::SyncInstalled
        && s.stage != CommitStage::SyncParent)
    &&& (s.failure is Some <==> commit_failing(s.stage))
}

/// The stages after a step failed.
pub open spec fn commit_failing(stage: CommitStage) -> bool {
    stage == CommitStage::DropTempAfterError || stage == CommitStage::DropStagedAfterError || stage
        == CommitStage::DropTrashAfterError || stage == CommitStage::Failed
}

/// A failed install returns the error of the step that failed: entering the
/// failure stages follows a failed marker write, copy, rename of the copy or
/// retried rename, records that step, and every error return names it.
pub proof fn lemma_commit_error_names_failed_step(s: CommitState, ok: bool)
    requires
        commit_wf(s),
    ensures
        ({
            let (n, a) = commit_transition(s, ok);
            &&& (!commit_failing(s.stage) && commit_failing(n.stage)) ==> (!ok && n.failure == Some(
                match s.stage {
                    CommitStage::WriteMarker => CommitFailure::WriteMarker,
                    CommitStage::CopyAcross => CommitFailure::CopyAcross,
                    CommitStage::RenameCopy => CommitFailure::RenameCopy,
                    _ => CommitFailure::RetryRename,
                },
            ) && (s.stage == CommitStage::WriteMarker || s.stage == CommitStage::CopyAcross
                || s.stage == CommitStage::RenameCopy || s.stage == CommitStage::RetryRename))
            &&& commit_failing(s.stage) ==> n.failure == s.failure
            &&& a is ReturnError ==> n.failure == Some(a->ReturnError_0)
        }),
{
}

/// The stages after the package was seen in place.
pub open spec fn commit_installed(stage: CommitStage) -> bool {
    stage == CommitStage::DropTrash || stage == CommitStage::SyncInstalled || stage
        == CommitStage::SyncParent || stage == CommitStage::DropStaged || stage
        == CommitStage::Succeeded
}

/// An install ends: each step of an unfinished install lowers its rank, so
/// it answers within twenty steps, and once answered it keeps its answer.
pub proof fn lemma_commit_ends(s: CommitState, ok: bool)
    ensures
        !commit_finished(s.stage) ==> commit_rank(commit_transition(s, ok).0.stage) < commit_rank(
            s.stage,
        ),
        commit_finished(s.stage) ==> commit_transition(s, ok).0 == s,
        s.stage == CommitStage::Succeeded ==> commit_transition(s, ok).1 == CommitAction::ReturnOk,
        s.stage == CommitStage::Failed ==> commit_transition(s, ok).1 is ReturnError,
{
}

/// Every install begins in, and steps only between, well-formed states.
pub proof fn lemma_commit_wf(d: Durability, s: CommitState, ok: bool)
    ensures
        commit_wf(commit_begin(d).0),
        commit_wf(s) ==> commit_wf(commit_transition(s, ok).0),
{
}

/// An install leaves no trashed directory behind: whenever it returns, on
/// success or on error, the trashed directory was handed to removal.
pub proof fn lemma_commit_no_trash_left(s: CommitState, ok: bool)
    requires
        commit_wf(s),
    ensures
        ({
            let (n, a) = commit_transition(s, ok);
            (a == CommitAction::ReturnOk || a is ReturnError) ==> !n.trash
        }),
{
}

/// An install reports success only once the package was seen in place: the
/// first step into the installed stages follows a yes from the completeness
/// check or a successful rename into the final directory, and `ReturnOk`
/// comes only from installed stages.
pub proof fn lemma_commit_success_means_installed(s: CommitState, ok: bool)
    ensures
        ({
            let (n, a) = commit_transition(s, ok);
            &&& (!commit_installed(s.stage) && commit_installed(n.stage)) ==> (ok && (s.stage
                == CommitStage::CheckInstalled || s.stage == CommitStage::Rename || s.stage
                == CommitStage::CheckRaceWon || s.stage == CommitStage::RenameCopy || s.stage
                == CommitStage::RetryRename))
            &&& a == CommitAction::ReturnOk ==> commit_installed(s.stage)
        }),
{
}

/// An install without flushing never flushes.
pub proof fn lemma_commit_flush_only_when_asked(s: CommitState, ok: bool)
    requires
        commit_wf(s),
        !s.flush,
    ensures
        ({
            let (n, a) = commit_transition(s, ok);
            &&& !n.flush
            &&& a != CommitAction::SyncStaged
            &&& a != CommitAction::SyncInstalled
            &&& a != CommitAction::SyncInstalledParent
        }),
{
}

/// An install returns an error only where its first write failed, before
/// anything was moved, or after the staged directory was handed to removal.
pub proof fn lemma_commit_error_cleans_up(s: CommitState, ok: bool)
    ensures
        commit_transition(s, ok).1 is ReturnError ==> ((s.stage
            == CommitStage::WriteMarker && !ok) || s.stage == CommitStage::DropStagedAfterError
            || s.stage == CommitStage::DropTrashAfterError || s.stage == CommitStage::Failed),
        (commit_transition(s, ok).0.stage == CommitStage::DropStagedAfterError && s.stage
            != CommitStage::DropStagedAfterError) ==> commit_transition(s, ok).1
            == CommitAction::RemoveStaged,
{
}

/// The state an install reaches from `s` when its actions have the outcomes
/// `outcomes`, in order.
pub open spec fn commit_after(s: CommitState, outcomes: Seq<bool>) -> CommitState
    decreases outcomes.len(),
{
    if outcomes.len() == 0 {
        s
    } else {
        commit_after(commit_transition(s, outcomes[0]).0, outcomes.drop_first())
    }
}

/// Whatever the outcomes of its actions, an install has answered after as
/// many steps as its rank (twenty from the start), stays well-formed, and
/// holds no trashed directory once it has answered.
pub proof fn lemma_commit_answers_within_rank(s: CommitState, outcomes: Seq<bool>)
    requires
        commit_wf(s),
        outcomes.len() >= commit_rank(s.stage),
    ensures
        commit_finished(commit_after(s, outcomes).stage),
        commit_wf(commit_after(s, outcomes)),
        !commit_after(s, outcomes).trash,
    decreases outcomes.len(),
{
    if outcomes.len() > 0 {
        let n = commit_transition(s, outcomes[0]).0;
        lemma_commit_ends(s, outcomes[0]);
        lemma_commit_wf(Durability::NoSync, s, outcomes[0]);
        lemma_commit_answers_within_rank(n, outcomes.drop_first());
    } else {
        assert(commit_rank(s.stage) == 0);
    }
}

/// The action an install in a given state awaits the outcome of.
pub open spec fn commit_awaited(s: CommitState) -> CommitAction {
    match s.stage {
        CommitStage::CheckInstalled => CommitAction::CheckInstalled,
        CommitStage::WriteMarker => CommitAction::WriteMarker,
        CommitStage::SyncStaged => CommitAction::SyncStaged,
        CommitStage::Rename => CommitAction::RenameStaged,
        CommitStage::CheckRaceWon => CommitAction::CheckInstalled,
        CommitStage::CheckDamaged => CommitAction::CheckDestinationExists,
        CommitStage::TrashDamaged => CommitAction::TrashDestination,
        CommitStage::RemoveDamaged => CommitAction::RemoveDestination,
        CommitStage::CheckCrossDevice => CommitAction::CheckCrossDevice,
        CommitStage::CopyAcross => CommitAction::CopyStagedToTemp,
        CommitStage::RenameCopy => CommitAction::RenameTemp,
        CommitStage::RetryRename => CommitAction::RenameStaged,
        CommitStage::DropTempAfterError => CommitAction::RemoveTemp,
        CommitStage::DropStagedAfterError => CommitAction::RemoveStaged,
        CommitStage::DropTrashAfterError => CommitAction::RemoveTrash,
        CommitStage::DropTrash => CommitAction::RemoveTrash,
        CommitStage::SyncInstalled => CommitAction::SyncInstalled,
        CommitStage::SyncParent => CommitAction::SyncInstalledParent,
        CommitStage::DropStaged => CommitAction::RemoveStaged,
        CommitStage::Succeeded => CommitAction::ReturnOk,
        CommitStage::Failed => CommitAction::ReturnError(failed_step(s)),
    }
}

/// Every action an install asks for is the one its new state awaits.
proof fn lemma_commit_awaited(d: Durability, s: CommitState, ok: bool)
    ensures
        commit_begin(d).1 == commit_awaited(commit_begin(d).0),
        commit_transition(s, ok).1 == commit_awaited(commit_transition(s, ok).0),
{
}

/// The actions an install asks for from state `s`, which awaits `a`, when
/// they have the outcomes `outcomes` in order: `a` first, then one more per
/// outcome. The outcome of the `i`th action is `outcomes[i]`.
pub open spec fn commit_actions(s: CommitState, a: CommitAction, outcomes: Seq<bool>) -> Seq<
    CommitAction,
>
    decreases outcomes.len(),
{
    if outcomes.len() == 0 {
        seq![a]
    } else {
        seq![a] + commit_actions(
            commit_transition(s, outcomes[0]).0,
            commit_transition(s, outcomes[0]).1,
            outcomes.drop_first(),
        )
    }
}

/// The actions of a whole install under `durability`, started by
/// `commit_start`, whose actions have the outcomes `outcomes`.
pub open spec fn commit_run(durability: Durability, outcomes: Seq<bool>) -> Seq<CommitAction> {
    commit_actions(commit_begin(durability).0, commit_begin(durability).1, outcomes)
}

proof fn lemma_commit_actions_shape(s: CommitState, a: CommitAction, outcomes: Seq<bool>)
    ensures
        commit_actions(s, a, outcomes).len() == outcomes.len() + 1,
        commit_actions(s, a, outcomes)[0] == a,
        outcomes.len() > 0 ==> forall|k: int|
            1 <= k <= outcomes.len() ==> #[trigger] commit_actions(s, a, outcomes)[k]
                == commit_actions(
                commit_transition(s, outcomes[0]).0,
                commit_transition(s, outcomes[0]).1,
                outcomes.drop_first(),
            )[k - 1],
    decreases outcomes.len(),
{
    if outcomes.len() > 0 {
        lemma_commit_actions_shape(
            commit_transition(s, outcomes[0]).0,
            commit_transition(s, outcomes[0]).1,
            outcomes.drop_first(),
        );
    }
}

/// From a state whose failed step is `f`, no later action reports success
/// and every error returned is `f`'s.
proof fn lemma_after_commit_failure(s: CommitState, f: CommitFailure, outcomes: Seq<bool>, k: int)
    requires
        commit_wf(s),
        s.failure == Some(f),
        0 <= k <= outcomes.len(),
    ensures
        ({
            let b = commit_actions(s, commit_awaited(s), outcomes)[k];
            &&& b != CommitAction::ReturnOk
            &&& b is ReturnError ==> b == CommitAction::ReturnError(f)
        }),
    decreases k,
{
    lemma_commit_actions_shape(s, commit_awaited(s), outcomes);
    if k > 0 {
        let n = commit_transition(s, outcomes[0]).0;
        lemma_commit_awaited(Durability::NoSync, s, outcomes[0]);
        lemma_commit_wf(Durability::NoSync, s, outcomes[0]);
        lemma_commit_error_names_failed_step(s, outcomes[0]);
        lemma_after_commit_failure(n, f, outcomes.drop_first(), k - 1);
    }
}

proof fn lemma_commit_failure_from(
    s: CommitState,
    f: CommitFailure,
    outcomes: Seq<bool>,
    i: int,
    j: int,
)
    requires
        commit_wf(s),
        0 <= i < j <= outcomes.len(),
        ({
            let a = commit_actions(s, commit_awaited(s), outcomes)[i];
            ||| a == CommitAction::WriteMarker && f == CommitFailure::WriteMarker
            ||| a == CommitAction::CopyStagedToTemp && f == CommitFailure::CopyAcross
            ||| a == CommitAction::RenameTemp && f == CommitFailure::RenameCopy
        }),
        !outcomes[i],
    ensures
        ({
            let b = commit_actions(s, commit_awaited(s), outcomes)[j];
            &&& b != CommitAction::ReturnOk
            &&& b is ReturnError ==> b == CommitAction::ReturnError(f)
        }),
    decreases i,
{
    lemma_commit_actions_shape(s, commit_awaited(s), outcomes);
    let n = commit_transition(s, outcomes[0]).0;
    lemma_commit_awaited(Durability::NoSync, s, outcomes[0]);
    lemma_commit_wf(Durability::NoSync, s, outcomes[0]);
    if i == 0 {
        assert(n.failure == Some(f));
        lemma_after_commit_failure(n, f, outcomes.drop_first(), j - 1);
    } else {
        assert(outcomes.drop_first()[i - 1] == outcomes[i]);
        lemma_commit_failure_from(n, f, outcomes.drop_first(), i - 1, j - 1);
    }
}

/// A failed marker write, copy across devices or rename of that copy fails
/// the install: no later action reports success, and any error returned is
/// that step's.
pub proof fn lemma_commit_failure_is_final(
    durability: Durability,
    outcomes: Seq<bool>,
    f: CommitFailure,
    i: int,
    j: int,
)
    requires
        0 <= i < j <= outcomes.len(),
        ({
            let a = commit_run(durability, outcomes)[i];
            ||| a == CommitAction::WriteMarker && f == CommitFailure::WriteMarker
            ||| a == CommitAction::CopyStagedToTemp && f == CommitFailure::CopyAcross
            ||| a == CommitAction::RenameTemp && f == CommitFailure::RenameCopy
        }),
        !outcomes[i],
    ensures
        commit_run(durability, outcomes)[j] != CommitAction::ReturnOk,
        commit_run(durability, outcomes)[j] is ReturnError ==> commit_run(durability, outcomes)[j]
            == CommitAction::ReturnError(f),
{
    lemma_commit_awaited(durability, commit_begin(durability).0, true);
    lemma_commit_wf(durability, commit_begin(durability).0, true);
    lemma_commit_failure_from(commit_begin(durability).0, f, outcomes, i, j);
}

/// Before position `j`, the package was seen complete, or a rename into the
/// final directory succeeded.
pub open spec fn seen_in_place(actions: Seq<CommitAction>, outcomes: Seq<bool>, j: int) -> bool {
    exists|i: int|
        0 <= i < j && (#[trigger] actions[i] == CommitAction::CheckInstalled || actions[i]
            == CommitAction::RenameStaged || actions[i] == CommitAction::RenameTemp) && outcomes[i]
}

proof fn lemma_in_place_grows(pa: Seq<CommitAction>, po: Seq<bool>, a: CommitAction, o: bool)
    requires
        pa.len() == po.len(),
    ensures
        seen_in_place(pa, po, pa.len() as int) ==> seen_in_place(pa.push(a), po.push(o), pa.len() + 1int),
        ((a == CommitAction::CheckInstalled || a == CommitAction::RenameStaged || a
            == CommitAction::RenameTemp) && o) ==> seen_in_place(pa.push(a), po.push(o), pa.len() + 1int),
{
    let qa = pa.push(a);
    let qo = po.push(o);
    if seen_in_place(pa, po, pa.len() as int) {
        let i = choose|i: int|
            0 <= i < pa.len() && (#[trigger] pa[i] == CommitAction::CheckInstalled || pa[i]
                == CommitAction::RenameStaged || pa[i] == CommitAction::RenameTemp) && po[i];
        assert(qa[i] == pa[i] && qo[i] == po[i]);
    }
    let w = pa.len() as int;
    assert(qa[w] == a && qo[w] == o);
}

proof fn lemma_ok_backed(
    s: CommitState,
    pa: Seq<CommitAction>,
    po: Seq<bool>,
    outcomes: Seq<bool>,
    j: int,
)
    requires
        pa.len() == po.len(),
        commit_installed(s.stage) ==> seen_in_place(pa, po, pa.len() as int),
        pa.len() <= j <= pa.len() + outcomes.len(),
        (pa + commit_actions(s, commit_awaited(s), outcomes))[j] == CommitAction::ReturnOk,
    ensures
        seen_in_place(pa + commit_actions(s, commit_awaited(s), outcomes), po + outcomes, j),
    decreases outcomes.len(),
{
    let fa = pa + commit_actions(s, commit_awaited(s), outcomes);
    let fo = po + outcomes;
    lemma_commit_actions_shape(s, commit_awaited(s), outcomes);
    if j == pa.len() {
        assert(s.stage == CommitStage::Succeeded);
        let i = choose|i: int|
            0 <= i < pa.len() && (#[trigger] pa[i] == CommitAction::CheckInstalled || pa[i]
                == CommitAction::RenameStaged || pa[i] == CommitAction::RenameTemp) && po[i];
        assert(fa[i] == pa[i] && fo[i] == po[i]);
    } else {
        let ok = outcomes[0];
        let n = commit_transition(s, ok).0;
        lemma_commit_awaited(Durability::NoSync, s, ok);
        lemma_commit_success_means_installed(s, ok);
        lemma_in_place_grows(pa, po, commit_awaited(s), ok);
        let qa = pa.push(commit_awaited(s));
        let qo = po.push(ok);
        let rest = outcomes.drop_first();
        lemma_commit_actions_shape(n, commit_awaited(n), rest);
        assert(fa =~= qa + commit_actions(n, commit_awaited(n), rest));
        assert(fo =~= qo + rest);
        lemma_ok_backed(n, qa, qo, rest, j);
    }
}

/// An install reports success only after the package was seen complete in
/// the final directory, or after a rename into it (of the staged directory
/// or of its copy) succeeded.
pub proof fn lemma_commit_ok_only_when_in_place(durability: Durability, outcomes: Seq<bool>, j: int)
    requires
        0 <= j <= outcomes.len(),
        commit_run(durability, outcomes)[j] == CommitAction::ReturnOk,
    ensures
        seen_in_place(commit_run(durability, outcomes), outcomes, j),
{
    let s = commit_begin(durability).0;
    lemma_commit_awaited(durability, s, true);
    let e = Seq::<CommitAction>::empty();
    let eo = Seq::<bool>::empty();
    assert(e + commit_run(durability, outcomes) =~= commit_run(durability, outcomes));
    assert(eo + outcomes =~= outcomes);
    lemma_ok_backed(s, e, eo, outcomes, j);
}

} // verus!
