use vstd::prelude::*;
use crate::runtime::transactions::{
    FinalizedSettingsTransaction, SettingsTransactionOrigin, SettingsTransactionOutcome, SettingsTransactionToken,
};
use crate::settings::mapping_ops::{MappingObjectRef, MutationEffect};
use crate::settings::model::AppSettings;
use crate::settings::session::{CommittedSettings, PersistenceMode};

verus! {

/// Where an admitted settings transaction stands.
#[derive(Clone, Copy, Debug, PartialEq, Eq, Structural)]
pub enum TxState {
    /// Admitted by the runtime; nothing done yet.
    Admitted,
    /// The candidate settings are being built and validated.
    Building,
    /// The changed candidate is being compiled into a request policy.
    Compiling,
    /// The settings file write is being prepared.
    Preparing,
    /// Waiting for the worker that will commit.
    AwaitingCommit,
    /// The commit has been asked to begin.
    Beginning,
    /// The prepared write is being completed.
    Committing,
    /// The transaction ended with this result.
    Done(TxResult),
}

/// How an admitted settings transaction ends.
#[derive(Clone, Copy, Debug, PartialEq, Eq, Structural)]
pub enum TxResult {
    /// The candidate equals the current settings: nothing was compiled or written.
    Unchanged,
    /// The candidate was compiled, written and committed.
    Committed,
    /// Cancelled before any work.
    CancelledAfterAdmission,
    /// Cancelled while the candidate was built, compiled or its write prepared.
    CancelledDuringWork,
    /// Cancelled after the write was prepared and before it was committed.
    CancelledBeforeCommit,
    /// The change did not validate.
    Invalid,
    /// The candidate's request policy did not compile.
    CompileFailed,
    /// Preparing the write failed.
    PrepareFailed,
    /// Beginning the commit failed.
    BeginCommitFailed,
    /// Completing the write failed.
    CommitFailed,
}

/// What the worker reports to an admitted transaction.
#[derive(Clone, Copy, Debug, PartialEq, Eq, Structural)]
pub enum TxEvent {
    /// The transaction starts; whether it was cancelled meanwhile.
    Start { cancelled: bool },
    /// The candidate was built: its effect, or `None` where the change did not validate.
    CandidateBuilt { effect: Option<MutationEffect> },
    Compiled { ok: bool },
    Prepared { ok: bool },
    /// The commit worker was obtained; whether the transaction was cancelled meanwhile.
    CommitWorker { cancelled: bool },
    CommitBegun { ok: bool },
    CommitCompleted { ok: bool },
    /// The transaction was cancelled while a worker built, compiled or prepared.
    WorkerCancelled,
}

/// What the admitted transaction does next.
#[derive(Clone, Copy, Debug, PartialEq, Eq, Structural)]
pub enum TxAction {
    BuildCandidate,
    Compile,
    Prepare,
    AcquireCommitWorker,
    BeginCommit,
    CompleteCommit,
    /// Report the result.
    Finish(TxResult),
    /// The event does not belong to this stage; nothing changes.
    Ignore,
}

pub open spec fn finish(result: TxResult) -> (TxState, TxAction) {
    (TxState::Done(result), TxAction::Finish(result))
}

/// One step of an admitted settings transaction. Its stages come in order: build the
/// candidate, compile it, prepare the write, obtain the commit worker, begin and complete
/// the commit. A cancellation is honoured before any work and again before the commit; an
/// unchanged candidate ends the transaction at once, with nothing compiled or written; any
/// failure ends it with that failure.
pub open spec fn transaction_step_spec(state: TxState, event: TxEvent) -> (TxState, TxAction) {
    match (state, event) {
        (TxState::Admitted, TxEvent::Start { cancelled }) => if cancelled {
            finish(TxResult::CancelledAfterAdmission)
        } else {
            (TxState::Building, TxAction::BuildCandidate)
        },
        (TxState::Building, TxEvent::CandidateBuilt { effect }) => match effect {
            None => finish(TxResult::Invalid),
            Some(MutationEffect::Unchanged) => finish(TxResult::Unchanged),
            Some(MutationEffect::Changed) => (TxState::Compiling, TxAction::Compile),
        },
        (TxState::Compiling, TxEvent::Compiled { ok }) => if ok {
            (TxState::Preparing, TxAction::Prepare)
        } else {
            finish(TxResult::CompileFailed)
        },
        (TxState::Preparing, TxEvent::Prepared { ok }) => if ok {
            (TxState::AwaitingCommit, TxAction::AcquireCommitWorker)
        } else {
            finish(TxResult::PrepareFailed)
        },
        (TxState::AwaitingCommit, TxEvent::CommitWorker { cancelled }) => if cancelled {
            finish(TxResult::CancelledBeforeCommit)
        } else {
            (TxState::Beginning, TxAction::BeginCommit)
        },
        (TxState::Beginning, TxEvent::CommitBegun { ok }) => if ok {
            (TxState::Committing, TxAction::CompleteCommit)
        } else {
            finish(TxResult::BeginCommitFailed)
        },
        (TxState::Committing, TxEvent::CommitCompleted { ok }) => if ok {
            finish(TxResult::Committed)
        } else {
            finish(TxResult::CommitFailed)
        },
        (TxState::Building, TxEvent::WorkerCancelled) => finish(TxResult::CancelledDuringWork),
        (TxState::Compiling, TxEvent::WorkerCancelled) => finish(TxResult::CancelledDuringWork),
        (TxState::Preparing, TxEvent::WorkerCancelled) => finish(TxResult::CancelledDuringWork),
        _ => (state, TxAction::Ignore),
    }
}

/// One step of an admitted settings transaction, as `transaction_step_spec` describes.
pub fn transaction_step(state: TxState, event: TxEvent) -> (r: (TxState, TxAction))
    ensures
        r == transaction_step_spec(state, event),
{
    match (state, event) {
        (TxState::Admitted, TxEvent::Start { cancelled }) => if cancelled {
            (TxState::Done(TxResult::CancelledAfterAdmission), TxAction::Finish(TxResult::CancelledAfterAdmission))
        } else {
            (TxState::Building, TxAction::BuildCandidate)
        },
        (TxState::Building, TxEvent::CandidateBuilt { effect }) => match effect {
            None => (TxState::Done(TxResult::Invalid), TxAction::Finish(TxResult::Invalid)),
            Some(MutationEffect::Unchanged) => (TxState::Done(TxResult::Unchanged), TxAction::Finish(TxResult::Unchanged)),
            Some(MutationEffect::Changed) => (TxState::Compiling, TxAction::Compile),
        },
        (TxState::Compiling, TxEvent::Compiled { ok }) => if ok {
            (TxState::Preparing, TxAction::Prepare)
        } else {
            (TxState::Done(TxResult::CompileFailed), TxAction::Finish(TxResult::CompileFailed))
        },
        (TxState::Preparing, TxEvent::Prepared { ok }) => if ok {
            (TxState::AwaitingCommit, TxAction::AcquireCommitWorker)
        } else {
            (TxState::Done(TxResult::PrepareFailed), TxAction::Finish(TxResult::PrepareFailed))
        },
        (TxState::AwaitingCommit, TxEvent::CommitWorker { cancelled }) => if cancelled {
            (TxState::Done(TxResult::CancelledBeforeCommit), TxAction::Finish(TxResult::CancelledBeforeCommit))
        } else {
            (TxState::Beginning, TxAction::BeginCommit)
        },
        (TxState::Beginning, TxEvent::CommitBegun { ok }) => if ok {
            (TxState::Committing, TxAction::CompleteCommit)
        } else {
            (TxState::Done(TxResult::BeginCommitFailed), TxAction::Finish(TxResult::BeginCommitFailed))
        },
        (TxState::Committing, TxEvent::CommitCompleted { ok }) => if ok {
            (TxState::Done(TxResult::Committed), TxAction::Finish(TxResult::Committed))
        } else {
            (TxState::Done(TxResult::CommitFailed), TxAction::Finish(TxResult::CommitFailed))
        },
        (TxState::Building, TxEvent::WorkerCancelled) | (TxState::Compiling, TxEvent::WorkerCancelled) | (
            TxState::Preparing,
            TxEvent::WorkerCancelled,
        ) => (TxState::Done(TxResult::CancelledDuringWork), TxAction::Finish(TxResult::CancelledDuringWork)),
        _ => (state, TxAction::Ignore),
    }
}

/// Whatever the events, a transaction reaches `Committed` only through a compile, a
/// prepared write and a commit begun and completed, in that order; and an unchanged
/// candidate ends it before anything is compiled or written.
pub proof fn lemma_commit_needs_every_stage(state: TxState, event: TxEvent)
    ensures
        transaction_step_spec(state, event).0 == TxState::Done(TxResult::Committed) && state
            != TxState::Done(TxResult::Committed) ==> state == TxState::Committing && event
            == (TxEvent::CommitCompleted { ok: true }),
        transaction_step_spec(state, event).1 == TxAction::Compile ==> state == TxState::Building && event
            == (TxEvent::CandidateBuilt { effect: Some(MutationEffect::Changed) }),
        transaction_step_spec(state, event).1 == TxAction::Prepare ==> state == TxState::Compiling,
        transaction_step_spec(state, event).1 == TxAction::CompleteCommit ==> state == TxState::Beginning,
        state is Done ==> transaction_step_spec(state, event) == (state, TxAction::Ignore),
{
}

/// Each stage of a transaction is entered only from the stage before it, and only when that
/// stage succeeded: the candidate is built after a start that was not cancelled; it is
/// compiled only when it changed the settings; the write is prepared only after the policy
/// compiled; the commit worker is sought only after the write was prepared; the commit
/// begins only with a worker and no cancellation, and is completed only after it began.
/// Conversely, each success moves on to the next stage.
pub proof fn lemma_stages_follow_success(state: TxState, event: TxEvent)
    ensures
        ({
            let (next, action) = transaction_step_spec(state, event);
            &&& action == TxAction::BuildCandidate <==> (state == TxState::Admitted && event
                == (TxEvent::Start { cancelled: false }))
            &&& action == TxAction::Compile <==> (state == TxState::Building && event == (TxEvent::CandidateBuilt {
                effect: Some(MutationEffect::Changed),
            }))
            &&& action == TxAction::Prepare <==> (state == TxState::Compiling && event == (TxEvent::Compiled {
                ok: true,
            }))
            &&& action == TxAction::AcquireCommitWorker <==> (state == TxState::Preparing && event
                == (TxEvent::Prepared { ok: true }))
            &&& action == TxAction::BeginCommit <==> (state == TxState::AwaitingCommit && event
                == (TxEvent::CommitWorker { cancelled: false }))
            &&& action == TxAction::CompleteCommit <==> (state == TxState::Beginning && event
                == (TxEvent::CommitBegun { ok: true }))
            &&& action == TxAction::BuildCandidate ==> next == TxState::Building
            &&& action == TxAction::Compile ==> next == TxState::Compiling
            &&& action == TxAction::Prepare ==> next == TxState::Preparing
            &&& action == TxAction::AcquireCommitWorker ==> next == TxState::AwaitingCommit
            &&& action == TxAction::BeginCommit ==> next == TxState::Beginning
            &&& action == TxAction::CompleteCommit ==> next == TxState::Committing
        }),
{
}

/// A failure or a cancellation at a stage ends the transaction at once with that stage's
/// result, and the result is reported as it is recorded: a policy that did not compile
/// ends it as `CompileFailed`, never reaching the write. A completed commit ends it as
/// `Committed`. Nothing else ends a transaction, and an event that does not belong to the
/// stage changes nothing.
pub proof fn lemma_failures_end_the_transaction(state: TxState, event: TxEvent)
    ensures
        state == TxState::Admitted && event == (TxEvent::Start { cancelled: true }) ==> transaction_step_spec(
            state,
            event,
        ) == (TxState::Done(TxResult::CancelledAfterAdmission), TxAction::Finish(TxResult::CancelledAfterAdmission)),
        state == TxState::Building && event == (TxEvent::CandidateBuilt { effect: None }) ==> transaction_step_spec(
            state,
            event,
        ) == (TxState::Done(TxResult::Invalid), TxAction::Finish(TxResult::Invalid)),
        state == TxState::Building && event == (TxEvent::CandidateBuilt { effect: Some(MutationEffect::Unchanged) })
            ==> transaction_step_spec(state, event) == (TxState::Done(TxResult::Unchanged), TxAction::Finish(
            TxResult::Unchanged,
        )),
        state == TxState::Compiling && event == (TxEvent::Compiled { ok: false }) ==> transaction_step_spec(
            state,
            event,
        ) == (TxState::Done(TxResult::CompileFailed), TxAction::Finish(TxResult::CompileFailed)),
        state == TxState::Preparing && event == (TxEvent::Prepared { ok: false }) ==> transaction_step_spec(
            state,
            event,
        ) == (TxState::Done(TxResult::PrepareFailed), TxAction::Finish(TxResult::PrepareFailed)),
        state == TxState::AwaitingCommit && event == (TxEvent::CommitWorker { cancelled: true })
            ==> transaction_step_spec(state, event) == (TxState::Done(TxResult::CancelledBeforeCommit), TxAction::Finish(
            TxResult::CancelledBeforeCommit,
        )),
        state == TxState::Beginning && event == (TxEvent::CommitBegun { ok: false }) ==> transaction_step_spec(
            state,
            event,
        ) == (TxState::Done(TxResult::BeginCommitFailed), TxAction::Finish(TxResult::BeginCommitFailed)),
        state == TxState::Committing && event == (TxEvent::CommitCompleted { ok: false }) ==> transaction_step_spec(
            state,
            event,
        ) == (TxState::Done(TxResult::CommitFailed), TxAction::Finish(TxResult::CommitFailed)),
        (state == TxState::Building || state == TxState::Compiling || state == TxState::Preparing) && event
            == TxEvent::WorkerCancelled ==> transaction_step_spec(state, event) == (TxState::Done(
            TxResult::CancelledDuringWork,
        ), TxAction::Finish(TxResult::CancelledDuringWork)),
        transaction_step_spec(state, event).1 matches TxAction::Finish(r) ==> transaction_step_spec(state, event).0
            == TxState::Done(r) && !(state is Done),
        transaction_step_spec(state, event).1 == TxAction::Ignore ==> transaction_step_spec(state, event).0 == state,
        state == TxState::Committing && event == (TxEvent::CommitCompleted { ok: true }) ==> transaction_step_spec(
            state,
            event,
        ) == (TxState::Done(TxResult::Committed), TxAction::Finish(TxResult::Committed)),
        transaction_step_spec(state, event).1 is Finish ==> match (state, event) {
            (TxState::Admitted, TxEvent::Start { cancelled }) => cancelled,
            (TxState::Building, TxEvent::CandidateBuilt { effect }) => effect != Some(MutationEffect::Changed),
            (TxState::Compiling, TxEvent::Compiled { ok }) => !ok,
            (TxState::Preparing, TxEvent::Prepared { ok }) => !ok,
            (TxState::AwaitingCommit, TxEvent::CommitWorker { cancelled }) => cancelled,
            (TxState::Beginning, TxEvent::CommitBegun { ok }) => !ok,
            (TxState::Committing, TxEvent::CommitCompleted { .. }) => true,
            (TxState::Building, TxEvent::WorkerCancelled) => true,
            (TxState::Compiling, TxEvent::WorkerCancelled) => true,
            (TxState::Preparing, TxEvent::WorkerCancelled) => true,
            _ => false,
        },
{
}

// ---------------------------------------------------------------- what the transaction hands back

/// What an admitted transaction hands back: the settings it leaves, the request policy
/// compiled for them where they changed, its outcome, the object it touched, and whether
/// the settings were written.
pub struct AdmittedSettingsCommit<P> {
    pub settings: AppSettings,
    pub policy: Option<P>,
    pub outcome: SettingsTransactionOutcome,
    pub affected: MappingObjectRef,
    pub persistence: PersistenceMode,
}

/// The record of a transaction whose change left the settings as they were: the settings
/// it began from, no policy, nothing written beyond what the session already does.
pub fn unchanged_commit<P>(begun: &AppSettings, persistence: PersistenceMode, affected: MappingObjectRef) -> (r:
    AdmittedSettingsCommit<P>)
    ensures
        r.settings@ == begun@,
        r.policy is None,
        r.outcome == SettingsTransactionOutcome::Unchanged,
        r.affected@ == affected@,
        r.persistence == persistence,
{
    AdmittedSettingsCommit {
        settings: begun.clone(),
        policy: None,
        outcome: SettingsTransactionOutcome::Unchanged,
        affected,
        persistence,
    }
}

/// The record of a transaction whose changed settings were compiled and committed.
pub fn committed_commit<P>(committed: CommittedSettings, policy: P, affected: MappingObjectRef) -> (r:
    AdmittedSettingsCommit<P>)
    ensures
        r.settings@ == committed.settings@,
        r.policy == Some(policy),
        r.outcome == SettingsTransactionOutcome::Committed,
        r.affected@ == affected@,
        r.persistence == committed.persistence,
{
    AdmittedSettingsCommit {
        settings: committed.settings,
        policy: Some(policy),
        outcome: SettingsTransactionOutcome::Committed,
        affected,
        persistence: committed.persistence,
    }
}

/// How an admitted transaction is closed with the runtime.
pub enum TransactionClose<P, E> {
    /// The work failed: abort the transaction under its token and report the error.
    Abort { token: SettingsTransactionToken, error: E },
    /// The work is done: finalize the transaction under its token with this record.
    Finalize {
        token: SettingsTransactionToken,
        finalized: FinalizedSettingsTransaction<P>,
        affected: MappingObjectRef,
        persistence: PersistenceMode,
    },
}

/// Closes an admitted transaction: a failed one is aborted, once, under its token and
/// never finalized; a finished one is finalized, once, under its token and never aborted,
/// with its settings, policy and outcome and the origin it was admitted for.
pub fn close_transaction<P, E>(
    token: SettingsTransactionToken,
    origin: SettingsTransactionOrigin,
    admitted: Result<AdmittedSettingsCommit<P>, E>,
) -> (r: TransactionClose<P, E>)
    ensures
        match admitted {
            Err(e) => r matches TransactionClose::Abort { token: t, error } && t == token && error == e,
            Ok(c) => r matches TransactionClose::Finalize { token: t, finalized, affected, persistence } && t
                == token && finalized.settings@ == c.settings@ && finalized.policy == c.policy
                && finalized.origin == origin && finalized.outcome == c.outcome && affected@ == c.affected@
                && persistence == c.persistence,
        },
{
    match admitted {
        Err(error) => TransactionClose::Abort { token, error },
        Ok(c) => TransactionClose::Finalize {
            token,
            finalized: FinalizedSettingsTransaction {
                settings: c.settings,
                policy: c.policy,
                origin,
                outcome: c.outcome,
            },
            affected: c.affected,
            persistence: c.persistence,
        },
    }
}

/// Accepts the runtime's answer to a finalization only when it reports the outcome the
/// transaction finalized with.
pub fn check_finalized_outcome(sent: SettingsTransactionOutcome, reported: SettingsTransactionOutcome) -> (r: bool)
    ensures
        r == (sent == reported),
{
    sent == reported
}

} // verus!
