//! Resolving a package to its directory in the store, fetching it when the
//! refresh mode asks for it.
//!
//! As with installs, the decisions are a machine: from its state and the
//! outcome of the last action it gives the next state and action, and the
//! caller performs each action and reports whether it succeeded (for checks:
//! whether the answer is yes). Locks are the package's lock file; the caller
//! releases any lock it holds when it returns.

use vstd::prelude::*;
use crate::manager::cache::{CacheError, Refresh, validate_package_id, valid_package_id};

verus! {

/// The file-system and network work of a resolve.
#[derive(Debug, Clone, Copy, PartialEq, Eq, Structural)]
pub enum ResolveAction {
    /// Take the package's lock, shared.
    LockShared,
    /// Take the package's lock, exclusive.
    LockExclusive,
    /// Release the package's lock.
    Unlock,
    /// Ask whether the package's directory holds a complete package.
    CheckInstalled,
    /// Create a fresh staging directory in the store.
    CreateStaging,
    /// Remove the staging directory (best effort).
    RemoveStaging,
    /// Ask whether the staging directory still exists.
    CheckStagingExists,
    /// Fetch the package into the staging directory.
    Fetch,
    /// Install the staging directory as the package.
    Commit,
    /// Return the package's directory.
    ReturnPackage,
    /// Return the error of the step that failed.
    ReturnError(ResolveFailure),
    /// Return the offline-mode not-found error.
    ReturnNotFound,
}

/// The step whose error a failed resolve returns.
#[derive(Debug, Clone, Copy, PartialEq, Eq, Structural)]
pub enum ResolveFailure {
    /// Taking the shared lock.
    LockShared,
    /// Creating the staging directory.
    CreateStaging,
    /// Taking the exclusive lock.
    LockExclusive,
    /// Fetching the package.
    Fetch,
    /// Installing the fetched package.
    Commit,
}

/// Where a resolve stands: the action it awaits the outcome of.
#[derive(Debug, Clone, Copy, PartialEq, Eq, Structural)]
pub enum ResolveStage {
    LockShared,
    CheckShared,
    UnlockShared,
    CreateStaging,
    LockExclusive,
    CheckExclusive,
    DropStagingFound,
    Fetch,
    DropStagingFetchFailed,
    Commit,
    UnlockAfterSuccess,
    UnlockAfterFailure,
    CheckStagingLeft,
    DropStagingLeft,
    Found,
    Missing,
    Failed,
}

/// The state of a resolve.
#[derive(Debug, Clone, Copy, PartialEq, Eq, Structural)]
pub struct ResolveState {
    pub mode: Refresh,
    pub stage: ResolveStage,
    /// A staging directory was created and not yet handed to removal or to
    /// the install.
    pub staging: bool,
    /// The step that failed, once one has.
    pub failure: Option<ResolveFailure>,
}

/// The failed step a resolve reports.
pub open spec fn failed_step(s: ResolveState) -> ResolveFailure {
    match s.failure {
        Some(f) => f,
        None => ResolveFailure::LockShared,
    }
}

/// The state and action that begin a resolve of a valid package identifier.
pub open spec fn resolve_begin(mode: Refresh) -> (ResolveState, ResolveAction) {
    match mode {
        Refresh::Force => (
            ResolveState { mode, stage: ResolveStage::CreateStaging, staging: false, failure: None },
            ResolveAction::CreateStaging,
        ),
        _ => (
            ResolveState { mode, stage: ResolveStage::LockShared, staging: false, failure: None },
            ResolveAction::LockShared,
        ),
    }
}

/// The next state and action of a resolve, given whether the awaited action
/// succeeded.
pub open spec fn resolve_transition(s: ResolveState, ok: bool) -> (ResolveState, ResolveAction) {
    let go = |stage: ResolveStage, a: ResolveAction| (ResolveState { stage, ..s }, a);
    let clear = |stage: ResolveStage, a: ResolveAction| (ResolveState { stage, staging: false, ..s }, a);
    let fail = |stage: ResolveStage, f: ResolveFailure, a: ResolveAction| (
        ResolveState { stage, failure: Some(f), ..s },
        a,
    );
    match s.stage {
        ResolveStage::LockShared => if ok {
            go(ResolveStage::CheckShared, ResolveAction::CheckInstalled)
        } else {
            fail(
                ResolveStage::Failed,
                ResolveFailure::LockShared,
                ResolveAction::ReturnError(ResolveFailure::LockShared),
            )
        },
        ResolveStage::CheckShared => if ok {
            go(ResolveStage::Found, ResolveAction::ReturnPackage)
        } else if s.mode == Refresh::Offline {
            go(ResolveStage::Missing, ResolveAction::ReturnNotFound)
        } else {
            go(ResolveStage::UnlockShared, ResolveAction::Unlock)
        },
        ResolveStage::UnlockShared => go(ResolveStage::CreateStaging, ResolveAction::CreateStaging),
        ResolveStage::CreateStaging => if ok {
            (
                ResolveState { stage: ResolveStage::LockExclusive, staging: true, ..s },
                ResolveAction::LockExclusive,
            )
        } else {
            fail(
                ResolveStage::Failed,
                ResolveFailure::CreateStaging,
                ResolveAction::ReturnError(ResolveFailure::CreateStaging),
            )
        },
        ResolveStage::LockExclusive => if !ok {
            fail(
                ResolveStage::CheckStagingLeft,
                ResolveFailure::LockExclusive,
                ResolveAction::CheckStagingExists,
            )
        } else if s.mode == Refresh::Default {
            go(ResolveStage::CheckExclusive, ResolveAction::CheckInstalled)
        } else {
            go(ResolveStage::Fetch, ResolveAction::Fetch)
        },
        ResolveStage::CheckExclusive => if ok {
            clear(ResolveStage::DropStagingFound, ResolveAction::RemoveStaging)
        } else {
            go(ResolveStage::Fetch, ResolveAction::Fetch)
        },
        ResolveStage::DropStagingFound => go(ResolveStage::UnlockAfterSuccess, ResolveAction::Unlock),
        ResolveStage::Fetch => if ok {
            go(ResolveStage::Commit, ResolveAction::Commit)
        } else {
            (
                ResolveState {
                    stage: ResolveStage::DropStagingFetchFailed,
                    staging: false,
                    failure: Some(ResolveFailure::Fetch),
                    ..s
                },
                ResolveAction::RemoveStaging,
            )
        },
        ResolveStage::DropStagingFetchFailed => go(ResolveStage::UnlockAfterFailure, ResolveAction::Unlock),
        ResolveStage::Commit => if ok {
            clear(ResolveStage::UnlockAfterSuccess, ResolveAction::Unlock)
        } else {
            fail(ResolveStage::UnlockAfterFailure, ResolveFailure::Commit, ResolveAction::Unlock)
        },
        ResolveStage::UnlockAfterSuccess => go(ResolveStage::Found, ResolveAction::ReturnPackage),
        ResolveStage::UnlockAfterFailure => go(ResolveStage::CheckStagingLeft, ResolveAction::CheckStagingExists),
        ResolveStage::CheckStagingLeft => if ok {
            clear(ResolveStage::DropStagingLeft, ResolveAction::RemoveStaging)
        } else {
            clear(ResolveStage::Failed, ResolveAction::ReturnError(failed_step(s)))
        },
        ResolveStage::DropStagingLeft => go(ResolveStage::Failed, ResolveAction::ReturnError(failed_step(s))),
        ResolveStage::Found => go(ResolveStage::Found, ResolveAction::ReturnPackage),
        ResolveStage::Missing => go(ResolveStage::Missing, ResolveAction::ReturnNotFound),
        ResolveStage::Failed => go(ResolveStage::Failed, ResolveAction::ReturnError(failed_step(s))),
    }
}

/// Begins a resolve: checks the package identifier, then starts the
/// machine for the refresh mode.
pub fn resolve_start(package_id: &str, mode: Refresh) -> (r: Result<(ResolveState, ResolveAction), CacheError>)
    ensures
        valid_package_id(package_id@) ==> r == Ok::<(ResolveState, ResolveAction), CacheError>(resolve_begin(mode)),
        !valid_package_id(package_id@) ==> (r matches Err(e) && validate_package_id_result(package_id@, e)),
{
    match validate_package_id(package_id) {
        Err(e) => Err(e),
        Ok(()) => match mode {
            Refresh::Force => Ok(
                (
                    ResolveState { mode, stage: ResolveStage::CreateStaging, staging: false, failure: None },
                    ResolveAction::CreateStaging,
                ),
            ),
            _ => Ok(
                (
                    ResolveState { mode, stage: ResolveStage::LockShared, staging: false, failure: None },
                    ResolveAction::LockShared,
                ),
            ),
        },
    }
}

/// The error that the identifier check raises on an invalid identifier.
pub open spec fn validate_package_id_result(id: Seq<char>, e: CacheError) -> bool {
    if id.len() == 0 {
        e == CacheError::EmptyPackageId
    } else {
        e matches CacheError::InvalidPackageId(s) && s@ == id
    }
}

fn goto(s: ResolveState, stage: ResolveStage, a: ResolveAction) -> (r: (ResolveState, ResolveAction))
    ensures
        r == (ResolveState { stage, ..s }, a),
{
    (ResolveState { mode: s.mode, stage, staging: s.staging, failure: s.failure }, a)
}

fn goto_clear(s: ResolveState, stage: ResolveStage, a: ResolveAction) -> (r: (ResolveState, ResolveAction))
    ensures
        r == (ResolveState { stage, staging: false, ..s }, a),
{
    (ResolveState { mode: s.mode, stage, staging: false, failure: s.failure }, a)
}

fn goto_fail(s: ResolveState, stage: ResolveStage, f: ResolveFailure, a: ResolveAction) -> (r: (
    ResolveState,
    ResolveAction,
))
    ensures
        r == (ResolveState { stage, failure: Some(f), ..s }, a),
{
    (ResolveState { mode: s.mode, stage, staging: s.staging, failure: Some(f) }, a)
}

fn step_of(s: ResolveState) -> (f: ResolveFailure)
    ensures
        f == failed_step(s),
{
    match s.failure {
        Some(f) => f,
        None => ResolveFailure::LockShared,
    }
}

/// Advances a resolve: `ok` is the outcome of the action that `s` awaits.
pub fn resolve_step(s: ResolveState, ok: bool) -> (r: (ResolveState, ResolveAction))
    ensures
        r == resolve_transition(s, ok),
{
    match s.stage {
        ResolveStage::LockShared => if ok {
            goto(s, ResolveStage::CheckShared, ResolveAction::CheckInstalled)
        } else {
            goto_fail(
                s,
                ResolveStage::Failed,
                ResolveFailure::LockShared,
                ResolveAction::ReturnError(ResolveFailure::LockShared),
            )
        },
        ResolveStage::CheckShared => if ok {
            goto(s, ResolveStage::Found, ResolveAction::ReturnPackage)
        } else if s.mode == Refresh::Offline {
            goto(s, ResolveStage::Missing, ResolveAction::ReturnNotFound)
        } else {
            goto(s, ResolveStage::UnlockShared, ResolveAction::Unlock)
        },
        ResolveStage::UnlockShared => goto(s, ResolveStage::CreateStaging, ResolveAction::CreateStaging),
        ResolveStage::CreateStaging => if ok {
            (
                ResolveState {
                    mode: s.mode,
                    stage: ResolveStage::LockExclusive,
                    staging: true,
                    failure: s.failure,
                },
                ResolveAction::LockExclusive,
            )
        } else {
            goto_fail(
                s,
                ResolveStage::Failed,
                ResolveFailure::CreateStaging,
                ResolveAction::ReturnError(ResolveFailure::CreateStaging),
            )
        },
        ResolveStage::LockExclusive => if !ok {
            goto_fail(
                s,
                ResolveStage::CheckStagingLeft,
                ResolveFailure::LockExclusive,
                ResolveAction::CheckStagingExists,
            )
        } else if s.mode == Refresh::Default {
            goto(s, ResolveStage::CheckExclusive, ResolveAction::CheckInstalled)
        } else {
            goto(s, ResolveStage::Fetch, ResolveAction::Fetch)
        },
        ResolveStage::CheckExclusive => if ok {
            goto_clear(s, ResolveStage::DropStagingFound, ResolveAction::RemoveStaging)
        } else {
            goto(s, ResolveStage::Fetch, ResolveAction::Fetch)
        },
        ResolveStage::DropStagingFound => goto(s, ResolveStage::UnlockAfterSuccess, ResolveAction::Unlock),
        ResolveStage::Fetch => if ok {
            goto(s, ResolveStage::Commit, ResolveAction::Commit)
        } else {
            (
                ResolveState {
                    mode: s.mode,
                    stage: ResolveStage::DropStagingFetchFailed,
                    staging: false,
                    failure: Some(ResolveFailure::Fetch),
                },
                ResolveAction::RemoveStaging,
            )
        },
        ResolveStage::DropStagingFetchFailed => goto(s, ResolveStage::UnlockAfterFailure, ResolveAction::Unlock),
        ResolveStage::Commit => if ok {
            goto_clear(s, ResolveStage::UnlockAfterSuccess, ResolveAction::Unlock)
        } else {
            goto_fail(s, ResolveStage::UnlockAfterFailure, ResolveFailure::Commit, ResolveAction::Unlock)
        },
        ResolveStage::UnlockAfterSuccess => goto(s, ResolveStage::Found, ResolveAction::ReturnPackage),
        ResolveStage::UnlockAfterFailure => goto(s, ResolveStage::CheckStagingLeft, ResolveAction::CheckStagingExists),
        ResolveStage::CheckStagingLeft => if ok {
            goto_clear(s, ResolveStage::DropStagingLeft, ResolveAction::RemoveStaging)
        } else {
            goto_clear(s, ResolveStage::Failed, ResolveAction::ReturnError(step_of(s)))
        },
        ResolveStage::DropStagingLeft => goto(s, ResolveStage::Failed, ResolveAction::ReturnError(step_of(s))),
        ResolveStage::Found => goto(s, ResolveStage::Found, ResolveAction::ReturnPackage),
        ResolveStage::Missing => goto(s, ResolveStage::Missing, ResolveAction::ReturnNotFound),
        ResolveStage::Failed => goto(s, ResolveStage::Failed, ResolveAction::ReturnError(step_of(s))),
    }
}

/// The resolve has answered.
pub open spec fn resolve_finished(stage: ResolveStage) -> bool {
    stage == ResolveStage::Found || stage == ResolveStage::Missing || stage == ResolveStage::Failed
}

/// A measure that every step of an unfinished resolve lowers.
pub open spec fn resolve_rank(stage: ResolveStage) -> nat {
    match stage {
        ResolveStage::LockShared => 14,
        ResolveStage::CheckShared => 13,
        ResolveStage::UnlockShared => 12,
        ResolveStage::CreateStaging => 11,
        ResolveStage::LockExclusive => 10,
        ResolveStage::CheckExclusive => 9,
        ResolveStage::Fetch => 8,
        ResolveStage::Commit => 7,
        ResolveStage::DropStagingFound => 6,
        ResolveStage::DropStagingFetchFailed => 6,
        ResolveStage::UnlockAfterFailure => 5,
        ResolveStage::CheckStagingLeft => 4,
        ResolveStage::DropStagingLeft => 3,
        ResolveStage::UnlockAfterSuccess => 2,
        ResolveStage::Found => 0,
        ResolveStage::Missing => 0,
        ResolveStage::Failed => 0,
    }
}

/// The states a resolve can be in.
pub open spec fn resolve_wf(s: ResolveState) -> bool {
    &&& s.mode == Refresh::Offline ==> (s.stage == ResolveStage::LockShared || s.stage
        == ResolveStage::CheckShared || s.stage == ResolveStage::Found || s.stage
        == ResolveStage::Missing || s.stage == ResolveStage::Failed)
    &&& s.mode == Refresh::Force ==> (s.stage != ResolveStage::LockShared && s.stage
        != ResolveStage::CheckShared && s.stage != ResolveStage::UnlockShared && s.stage
        != ResolveStage::CheckExclusive && s.stage != ResolveStage::DropStagingFound)
    &&& s.stage == ResolveStage::Missing ==> s.mode == Refresh::Offline
    &&& s.staging ==> (s.stage == ResolveStage::LockExclusive || s.stage
        == ResolveStage::CheckExclusive || s.stage == ResolveStage::Fetch || s.stage
        == ResolveStage::Commit || s.stage == ResolveStage::UnlockAfterFailure || s.stage
        == ResolveStage::CheckStagingLeft)
    &&& (s.stage == ResolveStage::LockExclusive || s.stage == ResolveStage::CheckExclusive
        || s.stage == ResolveStage::Fetch || s.stage == ResolveStage::Commit) ==> s.staging
    &&& (s.failure is Some <==> resolve_failing(s.stage))
}

/// The stages after a step failed.
pub open spec fn resolve_failing(stage: ResolveStage) -> bool {
    stage == ResolveStage::DropStagingFetchFailed || stage == ResolveStage::UnlockAfterFailure || stage
        == ResolveStage::CheckStagingLeft || stage == ResolveStage::DropStagingLeft || stage
        == ResolveStage::Failed
}

/// A failed resolve returns the error of the step that failed: entering the
/// failure stages follows a failed lock, staging creation, fetch or install,
/// records that step, and every error return names it.
pub proof fn lemma_resolve_error_names_failed_step(s: ResolveState, ok: bool)
    requires
        resolve_wf(s),
    ensures
        ({
            let (n, a) = resolve_transition(s, ok);
            &&& (!resolve_failing(s.stage) && resolve_failing(n.stage)) ==> (!ok && n.failure == Some(
                match s.stage {
                    ResolveStage::LockShared => ResolveFailure::LockShared,
                    ResolveStage::CreateStaging => ResolveFailure::CreateStaging,
                    ResolveStage::LockExclusive => ResolveFailure::LockExclusive,
                    ResolveStage::Fetch => ResolveFailure::Fetch,
                    _ => ResolveFailure::Commit,
                },
            ) && (s.stage == ResolveStage::LockShared || s.stage == ResolveStage::CreateStaging
                || s.stage == ResolveStage::LockExclusive || s.stage == ResolveStage::Fetch || s.stage
                == ResolveStage::Commit))
            &&& resolve_failing(s.stage) ==> n.failure == s.failure
            &&& a is ReturnError ==> n.failure == Some(a->ReturnError_0)
        }),
{
}

/// A resolve ends: each step of an unfinished resolve lowers its rank, so it
/// answers within fourteen steps, and once answered it keeps its answer.
pub proof fn lemma_resolve_ends(s: ResolveState, ok: bool)
    ensures
        !resolve_finished(s.stage) ==> resolve_rank(resolve_transition(s, ok).0.stage)
            < resolve_rank(s.stage),
        resolve_finished(s.stage) ==> resolve_transition(s, ok).0 == s,
{
}

/// Every resolve begins in, and steps only between, well-formed states.
pub proof fn lemma_resolve_wf(mode: Refresh, s: ResolveState, ok: bool)
    ensures
        resolve_wf(resolve_begin(mode).0),
        resolve_wf(s) ==> resolve_wf(resolve_transition(s, ok).0),
        resolve_transition(s, ok).0.mode == s.mode,
{
}

/// Offline mode never touches the network or the store: it takes only the
/// shared lock and looks, and answers with the package or not-found.
pub proof fn lemma_offline_never_fetches(s: ResolveState, ok: bool)
    requires
        resolve_wf(s),
        s.mode == Refresh::Offline,
    ensures
        ({
            let a = resolve_transition(s, ok).1;
            a == ResolveAction::CheckInstalled || a == ResolveAction::ReturnPackage || a
                == ResolveAction::ReturnNotFound || a is ReturnError
        }),
        resolve_begin(Refresh::Offline).1 == ResolveAction::LockShared,
{
}

/// A fetch happens only under the exclusive lock, into a staging directory:
/// in force mode right after the lock is taken, in default mode only after
/// the package was found missing while holding it. Default mode returns a
/// package found complete under the shared lock without further work.
pub proof fn lemma_fetch_only_when_missing(s: ResolveState, ok: bool)
    requires
        resolve_wf(s),
    ensures
        resolve_transition(s, ok).1 == ResolveAction::Fetch ==> (s.staging && ((s.stage
            == ResolveStage::LockExclusive && ok && s.mode == Refresh::Force) || (s.stage
            == ResolveStage::CheckExclusive && !ok && s.mode == Refresh::Default))),
        (s.stage == ResolveStage::CheckShared && ok) ==> resolve_transition(s, ok) == (
            ResolveState { stage: ResolveStage::Found, ..s },
            ResolveAction::ReturnPackage,
        ),
        (s.stage == ResolveStage::CheckExclusive && ok) ==> resolve_transition(s, ok).1
            == ResolveAction::RemoveStaging,
{
}

/// A resolve leaves no staging directory behind: whenever it answers, the
/// staging directory it created was removed, found gone, or installed.
pub proof fn lemma_resolve_no_staging_left(s: ResolveState, ok: bool)
    requires
        resolve_wf(s),
    ensures
        ({
            let (n, a) = resolve_transition(s, ok);
            (a == ResolveAction::ReturnPackage || a is ReturnError || a
                == ResolveAction::ReturnNotFound) ==> !n.staging
        }),
{
}

/// The state a resolve reaches from `s` when its actions have the outcomes
/// `outcomes`, in order.
pub open spec fn resolve_after(s: ResolveState, outcomes: Seq<bool>) -> ResolveState
    decreases outcomes.len(),
{
    if outcomes.len() == 0 {
        s
    } else {
        resolve_after(resolve_transition(s, outcomes[0]).0, outcomes.drop_first())
    }
}

/// Whatever the outcomes of its actions, a resolve has answered after as
/// many steps as its rank (fourteen from the start), keeps its refresh mode,
/// and stays well-formed.
pub proof fn lemma_resolve_answers_within_rank(s: ResolveState, outcomes: Seq<bool>)
    requires
        resolve_wf(s),
        outcomes.len() >= resolve_rank(s.stage),
    ensures
        resolve_finished(resolve_after(s, outcomes).stage),
        resolve_wf(resolve_after(s, outcomes)),
        resolve_after(s, outcomes).mode == s.mode,
    decreases outcomes.len(),
{
    if outcomes.len() > 0 {
        let n = resolve_transition(s, outcomes[0]).0;
        lemma_resolve_ends(s, outcomes[0]);
        lemma_resolve_wf(s.mode, s, outcomes[0]);
        lemma_resolve_answers_within_rank(n, outcomes.drop_first());
    } else {
        assert(resolve_rank(s.stage) == 0);
    }
}

/// Whatever the outcomes of its actions, an offline resolve stays among the
/// offline stages, so it never creates, fetches or installs anything.
pub proof fn lemma_offline_run_never_fetches(outcomes: Seq<bool>, ok: bool)
    ensures
        ({
            let s = resolve_after(resolve_begin(Refresh::Offline).0, outcomes);
            let a = resolve_transition(s, ok).1;
            &&& s.mode == Refresh::Offline
            &&& !s.staging
            &&& a != ResolveAction::Fetch
            &&& a != ResolveAction::Commit
            &&& a != ResolveAction::CreateStaging
            &&& a != ResolveAction::LockExclusive
        }),
{
    lemma_resolve_wf(Refresh::Offline, resolve_begin(Refresh::Offline).0, ok);
    lemma_resolve_run_wf(resolve_begin(Refresh::Offline).0, outcomes);
    let s = resolve_after(resolve_begin(Refresh::Offline).0, outcomes);
    lemma_offline_never_fetches(s, ok);
}

/// Runs stay well-formed and keep their mode.
proof fn lemma_resolve_run_wf(s: ResolveState, outcomes: Seq<bool>)
    requires
        resolve_wf(s),
    ensures
        resolve_wf(resolve_after(s, outcomes)),
        resolve_after(s, outcomes).mode == s.mode,
    decreases outcomes.len(),
{
    if outcomes.len() > 0 {
        lemma_resolve_wf(s.mode, s, outcomes[0]);
        lemma_resolve_run_wf(resolve_transition(s, outcomes[0]).0, outcomes.drop_first());
    }
}


/// The action a resolve in a given state awaits the outcome of.
pub open spec fn awaited_action(s: ResolveState) -> ResolveAction {
    match s.stage {
        ResolveStage::LockShared => ResolveAction::LockShared,
        ResolveStage::CheckShared => ResolveAction::CheckInstalled,
        ResolveStage::UnlockShared => ResolveAction::Unlock,
        ResolveStage::CreateStaging => ResolveAction::CreateStaging,
        ResolveStage::LockExclusive => ResolveAction::LockExclusive,
        ResolveStage::CheckExclusive => ResolveAction::CheckInstalled,
        ResolveStage::DropStagingFound => ResolveAction::RemoveStaging,
        ResolveStage::Fetch => ResolveAction::Fetch,
        ResolveStage::DropStagingFetchFailed => ResolveAction::RemoveStaging,
        ResolveStage::Commit => ResolveAction::Commit,
        ResolveStage::UnlockAfterSuccess => ResolveAction::Unlock,
        ResolveStage::UnlockAfterFailure => ResolveAction::Unlock,
        ResolveStage::CheckStagingLeft => ResolveAction::CheckStagingExists,
        ResolveStage::DropStagingLeft => ResolveAction::RemoveStaging,
        ResolveStage::Found => ResolveAction::ReturnPackage,
        ResolveStage::Missing => ResolveAction::ReturnNotFound,
        ResolveStage::Failed => ResolveAction::ReturnError(failed_step(s)),
    }
}

/// Every action a resolve asks for is the one its new state awaits.
proof fn lemma_awaited(mode: Refresh, s: ResolveState, ok: bool)
    ensures
        resolve_begin(mode).1 == awaited_action(resolve_begin(mode).0),
        resolve_transition(s, ok).1 == awaited_action(resolve_transition(s, ok).0),
{
}

/// The actions a resolve asks for from state `s`, which awaits `a`, when
/// they have the outcomes `outcomes` in order: `a` first, then one more per
/// outcome. The outcome of the `i`th action is `outcomes[i]`.
pub open spec fn resolve_actions(s: ResolveState, a: ResolveAction, outcomes: Seq<bool>) -> Seq<
    ResolveAction,
>
    decreases outcomes.len(),
{
    if outcomes.len() == 0 {
        seq![a]
    } else {
        seq![a] + resolve_actions(
            resolve_transition(s, outcomes[0]).0,
            resolve_transition(s, outcomes[0]).1,
            outcomes.drop_first(),
        )
    }
}

/// The actions of a whole resolve in refresh mode `mode`, started by
/// `resolve_start`, whose actions have the outcomes `outcomes`.
pub open spec fn resolve_run(mode: Refresh, outcomes: Seq<bool>) -> Seq<ResolveAction> {
    resolve_actions(resolve_begin(mode).0, resolve_begin(mode).1, outcomes)
}

proof fn lemma_actions_shape(s: ResolveState, a: ResolveAction, outcomes: Seq<bool>)
    ensures
        resolve_actions(s, a, outcomes).len() == outcomes.len() + 1,
        resolve_actions(s, a, outcomes)[0] == a,
        outcomes.len() > 0 ==> forall|k: int|
            1 <= k <= outcomes.len() ==> #[trigger] resolve_actions(s, a, outcomes)[k]
                == resolve_actions(
                resolve_transition(s, outcomes[0]).0,
                resolve_transition(s, outcomes[0]).1,
                outcomes.drop_first(),
            )[k - 1],
    decreases outcomes.len(),
{
    if outcomes.len() > 0 {
        lemma_actions_shape(
            resolve_transition(s, outcomes[0]).0,
            resolve_transition(s, outcomes[0]).1,
            outcomes.drop_first(),
        );
    }
}

/// How many more steps a resolve that failed needs before it answers.
spec fn steps_to_answer(stage: ResolveStage) -> nat {
    match stage {
        ResolveStage::DropStagingFetchFailed => 4,
        ResolveStage::UnlockAfterFailure => 3,
        ResolveStage::CheckStagingLeft => 2,
        ResolveStage::DropStagingLeft => 1,
        _ => 0,
    }
}

/// From a state whose failed step is the fetch, every later action is no
/// package or not-found answer, every answer is the fetch's error, and the
/// answer comes within the steps left.
proof fn lemma_after_failed_fetch(s: ResolveState, outcomes: Seq<bool>, k: int)
    requires
        resolve_wf(s),
        s.failure == Some(ResolveFailure::Fetch),
        0 <= k <= outcomes.len(),
    ensures
        ({
            let b = resolve_actions(s, awaited_action(s), outcomes)[k];
            &&& b != ResolveAction::ReturnPackage
            &&& b != ResolveAction::ReturnNotFound
            &&& b is ReturnError ==> b == ResolveAction::ReturnError(ResolveFailure::Fetch)
            &&& k >= steps_to_answer(s.stage) ==> b == ResolveAction::ReturnError(
                ResolveFailure::Fetch,
            )
        }),
    decreases k,
{
    lemma_actions_shape(s, awaited_action(s), outcomes);
    if k > 0 {
        let n = resolve_transition(s, outcomes[0]).0;
        lemma_awaited(s.mode, s, outcomes[0]);
        lemma_resolve_wf(s.mode, s, outcomes[0]);
        lemma_resolve_error_names_failed_step(s, outcomes[0]);
        lemma_after_failed_fetch(n, outcomes.drop_first(), k - 1);
    }
}

/// A failed fetch fails the resolve, in every refresh mode: no action after
/// it returns the package or not-found, any answer is the fetch's error, and
/// within five actions of the fetch the resolve answers with that error.
pub proof fn lemma_failed_fetch_fails_resolve(mode: Refresh, outcomes: Seq<bool>, i: int, j: int)
    requires
        0 <= i < j <= outcomes.len(),
        resolve_run(mode, outcomes)[i] == ResolveAction::Fetch,
        !outcomes[i],
    ensures
        resolve_run(mode, outcomes)[j] != ResolveAction::ReturnPackage,
        resolve_run(mode, outcomes)[j] != ResolveAction::ReturnNotFound,
        resolve_run(mode, outcomes)[j] is ReturnError ==> resolve_run(mode, outcomes)[j]
            == ResolveAction::ReturnError(ResolveFailure::Fetch),
        j >= i + 5 ==> resolve_run(mode, outcomes)[j] == ResolveAction::ReturnError(
            ResolveFailure::Fetch,
        ),
{
    lemma_awaited(mode, resolve_begin(mode).0, true);
    lemma_resolve_wf(mode, resolve_begin(mode).0, true);
    lemma_failed_fetch_from(resolve_begin(mode).0, outcomes, i, j);
}

proof fn lemma_failed_fetch_from(s: ResolveState, outcomes: Seq<bool>, i: int, j: int)
    requires
        resolve_wf(s),
        0 <= i < j <= outcomes.len(),
        resolve_actions(s, awaited_action(s), outcomes)[i] == ResolveAction::Fetch,
        !outcomes[i],
    ensures
        ({
            let b = resolve_actions(s, awaited_action(s), outcomes)[j];
            &&& b != ResolveAction::ReturnPackage
            &&& b != ResolveAction::ReturnNotFound
            &&& b is ReturnError ==> b == ResolveAction::ReturnError(ResolveFailure::Fetch)
            &&& j >= i + 5 ==> b == ResolveAction::ReturnError(ResolveFailure::Fetch)
        }),
    decreases i,
{
    lemma_actions_shape(s, awaited_action(s), outcomes);
    let n = resolve_transition(s, outcomes[0]).0;
    lemma_awaited(s.mode, s, outcomes[0]);
    lemma_resolve_wf(s.mode, s, outcomes[0]);
    assert(outcomes.drop_first().len() == outcomes.len() - 1);
    if i == 0 {
        assert(s.stage == ResolveStage::Fetch);
        assert(n.failure == Some(ResolveFailure::Fetch));
        assert(n.stage == ResolveStage::DropStagingFetchFailed);
        lemma_after_failed_fetch(n, outcomes.drop_first(), j - 1);
    } else {
        assert(outcomes.drop_first()[i - 1] == outcomes[i]);
        lemma_failed_fetch_from(n, outcomes.drop_first(), i - 1, j - 1);
    }
}

/// Before position `j`, the installed check answered yes.
pub open spec fn seen_installed(actions: Seq<ResolveAction>, outcomes: Seq<bool>, j: int) -> bool {
    exists|i: int|
        0 <= i < j && #[trigger] actions[i] == ResolveAction::CheckInstalled && outcomes[i]
}

/// Before position `j`, a fetch succeeded and a later install succeeded.
pub open spec fn fetched_and_installed(actions: Seq<ResolveAction>, outcomes: Seq<bool>, j: int) -> bool {
    exists|k: int, i: int|
        0 <= k < i < j && #[trigger] actions[k] == ResolveAction::Fetch && outcomes[k]
            && #[trigger] actions[i] == ResolveAction::Commit && outcomes[i]
}

/// Before position `j`, a fetch succeeded.
spec fn fetched(actions: Seq<ResolveAction>, outcomes: Seq<bool>, j: int) -> bool {
    exists|k: int| 0 <= k < j && #[trigger] actions[k] == ResolveAction::Fetch && outcomes[k]
}

/// What a resolve's history guarantees about the stage it is in.
spec fn history_backs(s: ResolveState, pa: Seq<ResolveAction>, po: Seq<bool>) -> bool {
    &&& (s.stage == ResolveStage::DropStagingFound || s.stage == ResolveStage::UnlockAfterSuccess
        || s.stage == ResolveStage::Found) ==> (seen_installed(pa, po, pa.len() as int)
        || fetched_and_installed(pa, po, pa.len() as int))
    &&& s.stage == ResolveStage::Commit ==> fetched(pa, po, pa.len() as int)
}

/// Extending a history keeps what held of its prefix.
proof fn lemma_history_grows(pa: Seq<ResolveAction>, po: Seq<bool>, a: ResolveAction, o: bool)
    requires
        pa.len() == po.len(),
    ensures
        seen_installed(pa, po, pa.len() as int) ==> seen_installed(pa.push(a), po.push(o), pa.len() + 1int),
        fetched_and_installed(pa, po, pa.len() as int) ==> fetched_and_installed(
            pa.push(a),
            po.push(o),
            pa.len() + 1int,
        ),
        fetched(pa, po, pa.len() as int) ==> fetched(pa.push(a), po.push(o), pa.len() + 1int),
{
    if seen_installed(pa, po, pa.len() as int) {
        let i = choose|i: int|
            0 <= i < pa.len() && #[trigger] pa[i] == ResolveAction::CheckInstalled && po[i];
        assert(pa.push(a)[i] == ResolveAction::CheckInstalled && po.push(o)[i]);
    }
    if fetched_and_installed(pa, po, pa.len() as int) {
        let (k, i) = choose|k: int, i: int|
            0 <= k < i < pa.len() && #[trigger] pa[k] == ResolveAction::Fetch && po[k]
                && #[trigger] pa[i] == ResolveAction::Commit && po[i];
        assert(pa.push(a)[k] == ResolveAction::Fetch && po.push(o)[k]);
        assert(pa.push(a)[i] == ResolveAction::Commit && po.push(o)[i]);
    }
    if fetched(pa, po, pa.len() as int) {
        let k = choose|k: int| 0 <= k < pa.len() && #[trigger] pa[k] == ResolveAction::Fetch && po[k];
        assert(pa.push(a)[k] == ResolveAction::Fetch && po.push(o)[k]);
    }
}

/// One step keeps the history backing the stage.
proof fn lemma_history_step(s: ResolveState, pa: Seq<ResolveAction>, po: Seq<bool>, ok: bool)
    requires
        resolve_wf(s),
        pa.len() == po.len(),
        history_backs(s, pa, po),
    ensures
        history_backs(resolve_transition(s, ok).0, pa.push(awaited_action(s)), po.push(ok)),
{
    lemma_history_grows(pa, po, awaited_action(s), ok);
    let qa = pa.push(awaited_action(s));
    let qo = po.push(ok);
    let w = pa.len() as int;
    assert(qa[w] == awaited_action(s) && qo[w] == ok);
    if s.stage == ResolveStage::Commit && ok {
        let k = choose|k: int| 0 <= k < pa.len() && #[trigger] pa[k] == ResolveAction::Fetch && po[k];
        assert(qa[k] == ResolveAction::Fetch && qo[k]);
        assert(fetched_and_installed(qa, qo, qa.len() as int));
    }
}

/// Histories in the form the lemmas take them.
proof fn lemma_package_backed(
    s: ResolveState,
    pa: Seq<ResolveAction>,
    po: Seq<bool>,
    outcomes: Seq<bool>,
    j: int,
)
    requires
        resolve_wf(s),
        pa.len() == po.len(),
        history_backs(s, pa, po),
        pa.len() <= j <= pa.len() + outcomes.len(),
        (pa + resolve_actions(s, awaited_action(s), outcomes))[j] == ResolveAction::ReturnPackage,
    ensures
        seen_installed(pa + resolve_actions(s, awaited_action(s), outcomes), po + outcomes, j)
            || fetched_and_installed(
            pa + resolve_actions(s, awaited_action(s), outcomes),
            po + outcomes,
            j,
        ),
    decreases outcomes.len(),
{
    let fa = pa + resolve_actions(s, awaited_action(s), outcomes);
    let fo = po + outcomes;
    lemma_actions_shape(s, awaited_action(s), outcomes);
    if j == pa.len() {
        assert(s.stage == ResolveStage::Found);
        if seen_installed(pa, po, pa.len() as int) {
            let i = choose|i: int|
                0 <= i < pa.len() && #[trigger] pa[i] == ResolveAction::CheckInstalled && po[i];
            assert(fa[i] == ResolveAction::CheckInstalled && fo[i]);
        } else {
            let (k, i) = choose|k: int, i: int|
                0 <= k < i < pa.len() && #[trigger] pa[k] == ResolveAction::Fetch && po[k]
                    && #[trigger] pa[i] == ResolveAction::Commit && po[i];
            assert(fa[k] == ResolveAction::Fetch && fo[k]);
            assert(fa[i] == ResolveAction::Commit && fo[i]);
        }
    } else {
        let ok = outcomes[0];
        let n = resolve_transition(s, ok).0;
        lemma_awaited(s.mode, s, ok);
        lemma_resolve_wf(s.mode, s, ok);
        lemma_history_step(s, pa, po, ok);
        let qa = pa.push(awaited_action(s));
        let qo = po.push(ok);
        let rest = outcomes.drop_first();
        lemma_actions_shape(n, awaited_action(n), rest);
        assert(fa =~= qa + resolve_actions(n, awaited_action(n), rest));
        assert(fo =~= qo + rest);
        lemma_package_backed(n, qa, qo, rest, j);
    }
}

/// A resolve returns the package only after the package was seen complete
/// in the store, or after a fetch and then the install of what it fetched
/// both succeeded, in every refresh mode.
pub proof fn lemma_package_only_when_installed(mode: Refresh, outcomes: Seq<bool>, j: int)
    requires
        0 <= j <= outcomes.len(),
        resolve_run(mode, outcomes)[j] == ResolveAction::ReturnPackage,
    ensures
        seen_installed(resolve_run(mode, outcomes), outcomes, j) || fetched_and_installed(
            resolve_run(mode, outcomes),
            outcomes,
            j,
        ),
{
    let s = resolve_begin(mode).0;
    lemma_awaited(mode, s, true);
    lemma_resolve_wf(mode, s, true);
    let e = Seq::<ResolveAction>::empty();
    let eo = Seq::<bool>::empty();
    assert(e + resolve_run(mode, outcomes) =~= resolve_run(mode, outcomes));
    assert(eo + outcomes =~= outcomes);
    lemma_package_backed(s, e, eo, outcomes, j);
}

} // verus!
