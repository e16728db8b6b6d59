use fluxcope::runtime::admitted::{
    check_finalized_outcome, close_transaction, transaction_step, unchanged_commit, AdmittedSettingsCommit,
    TransactionClose, TxAction, TxEvent, TxResult, TxState,
};
use fluxcope::runtime::transactions::{SettingsTransactionOrigin, SettingsTransactionOutcome, SettingsTransactionToken};
use fluxcope::settings::mapping_ops::MappingObjectRef;
use fluxcope::settings::model::AppSettings;
use fluxcope::settings::session::PersistenceMode;
use fluxcope::runtime::cache::{CaptureChange, CaptureChangeKind};
use fluxcope::runtime::event_loop::{runtime_step, LoopAction, LoopEvent, LoopFailure, LoopState};
use fluxcope::runtime::publish::{publish_step, ProbeOutcome, PublishAction, PublishEvent, PublishFailure};
use fluxcope::runtime::search::capture_search_batch;
use fluxcope::runtime::services::ServiceKind;
use fluxcope::runtime::wait::{wait_timeout_ms, ControlErrorCode, WaitAction, WaitEvent, WaitInspection, WaitState};
use fluxcope::settings::mapping_ops::MutationEffect;
use fluxcope::text::char_is_whitespace;

fn retained(range: std::ops::RangeInclusive<u64>) -> Vec<u64> {
    range.collect()
}

fn newest_first_batch() {
    let (rows, next) = capture_search_batch(&retained(1..=40), None, 100);
    assert_eq!(rows.len(), 32);
    assert_eq!(rows, (9..=40).rev().collect::<Vec<_>>());
    assert_eq!(next, Some(8));
}

fn inclusive_older_cursor() {
    let (rows, next) = capture_search_batch(&retained(1..=40), Some(30), 10);
    assert_eq!(rows, (21..=30).rev().collect::<Vec<_>>());
    assert_eq!(next, Some(20));
}

#[test]
fn capture_search_tests_runtime_capture_batches_are_newest_first_and_never_exceed_thirty_two_snapshots() {
    newest_first_batch();
}

#[test]
fn task8_tests_runtime_capture_batches_are_newest_first_and_never_exceed_thirty_two_snapshots() {
    newest_first_batch();
}

#[test]
fn capture_search_tests_runtime_capture_batch_respects_an_inclusive_older_cursor() {
    inclusive_older_cursor();
}

#[test]
fn task8_tests_runtime_capture_batch_respects_an_inclusive_older_cursor() {
    inclusive_older_cursor();
}

#[test]
fn a_last_batch_has_no_next_cursor_and_a_cursor_between_captures_is_inclusive_of_older_ones() {
    let captures = vec![2, 5, 9];
    assert_eq!(capture_search_batch(&captures, None, 10), (vec![9, 5, 2], None));
    assert_eq!(capture_search_batch(&captures, Some(8), 1), (vec![5], Some(4)));
    assert_eq!(capture_search_batch(&captures, Some(1), 10), (vec![], None));
    assert_eq!(capture_search_batch(&captures, None, 0), (vec![], None));
}

#[test]
fn wait_for_capture_timeout_default_clamp_and_zero_are_exact() {
    assert_eq!(wait_timeout_ms(None), Ok(30_000));
    assert_eq!(wait_timeout_ms(Some(u64::MAX)), Ok(300_000));
    assert_eq!(wait_timeout_ms(Some(0)), Err(ControlErrorCode::InvalidArgument));
    assert_eq!(wait_timeout_ms(Some(1_500)), Ok(1_500));
}

fn change(sequence: u64, revision: u64, kind: CaptureChangeKind) -> CaptureChange {
    CaptureChange { epoch: 1, sequence, revision, kind }
}

#[test]
fn a_wait_reads_back_newer_revisions_and_fails_when_a_pending_capture_goes() {
    let mut wait = WaitState::new();
    assert_eq!(wait.step(WaitEvent::Inspected { sequence: 7, revision: 2, inspection: WaitInspection::Pending }), WaitAction::Continue);
    assert_eq!(wait.step(WaitEvent::Inspected { sequence: 8, revision: 1, inspection: WaitInspection::Ignore }), WaitAction::Continue);
    assert_eq!(wait.step(WaitEvent::Change(change(7, 2, CaptureChangeKind::RecordUpdated))), WaitAction::Continue);
    assert_eq!(
        wait.step(WaitEvent::Change(change(7, 3, CaptureChangeKind::RecordUpdated))),
        WaitAction::Materialize { sequence: 7 }
    );
    assert_eq!(wait.step(WaitEvent::Change(change(8, 1, CaptureChangeKind::ExplicitDelete))), WaitAction::Continue);
    assert!(wait.seen(8).is_none());
    assert_eq!(
        wait.step(WaitEvent::Change(change(7, 2, CaptureChangeKind::RetentionEviction))),
        WaitAction::Lost { sequence: 7, revision: 2 }
    );
    assert!(wait.seen(7).is_none());
    assert_eq!(wait.step(WaitEvent::Inspected { sequence: 9, revision: 1, inspection: WaitInspection::Matched }), WaitAction::Matched);
    assert_eq!(wait.step(WaitEvent::Deadline), WaitAction::Unmatched);
    assert_eq!(wait.step(WaitEvent::Cancelled), WaitAction::Fail(ControlErrorCode::Cancelled));
}

#[test]
fn an_unchanged_candidate_is_neither_compiled_nor_written() {
    let (state, action) = transaction_step(TxState::Admitted, TxEvent::Start { cancelled: false });
    assert_eq!(action, TxAction::BuildCandidate);
    let (state, action) =
        transaction_step(state, TxEvent::CandidateBuilt { effect: Some(MutationEffect::Unchanged) });
    assert_eq!((state, action), (TxState::Done(TxResult::Unchanged), TxAction::Finish(TxResult::Unchanged)));
    assert_eq!(transaction_step(state, TxEvent::Compiled { ok: true }).1, TxAction::Ignore);
}

#[test]
fn a_changed_candidate_is_compiled_prepared_and_committed_in_order() {
    let mut state = TxState::Admitted;
    let steps = [
        (TxEvent::Start { cancelled: false }, TxAction::BuildCandidate),
        (TxEvent::CandidateBuilt { effect: Some(MutationEffect::Changed) }, TxAction::Compile),
        (TxEvent::Compiled { ok: true }, TxAction::Prepare),
        (TxEvent::Prepared { ok: true }, TxAction::AcquireCommitWorker),
        (TxEvent::CommitWorker { cancelled: false }, TxAction::BeginCommit),
        (TxEvent::CommitBegun { ok: true }, TxAction::CompleteCommit),
        (TxEvent::CommitCompleted { ok: true }, TxAction::Finish(TxResult::Committed)),
    ];
    for (event, expected) in steps {
        let (next, action) = transaction_step(state, event);
        assert_eq!(action, expected);
        state = next;
    }
    assert_eq!(state, TxState::Done(TxResult::Committed));
    assert_eq!(
        transaction_step(TxState::Admitted, TxEvent::Start { cancelled: true }).1,
        TxAction::Finish(TxResult::CancelledAfterAdmission)
    );
    assert_eq!(
        transaction_step(TxState::AwaitingCommit, TxEvent::CommitWorker { cancelled: true }).1,
        TxAction::Finish(TxResult::CancelledBeforeCommit)
    );
    assert_eq!(
        transaction_step(TxState::Building, TxEvent::CandidateBuilt { effect: None }).1,
        TxAction::Finish(TxResult::Invalid)
    );
    assert_eq!(transaction_step(TxState::Preparing, TxEvent::Compiled { ok: true }).1, TxAction::Ignore);
}

#[test]
fn the_event_loop_quits_on_the_quit_key_fails_on_fatal_services_and_draws_only_when_dirty() {
    let start = LoopState::initial(0);
    assert_eq!(runtime_step(start, LoopEvent::FrameTick).1, LoopAction::Continue);
    let (dirty, action) = runtime_step(start, LoopEvent::Terminal { quit: false, save_changed_screen: false });
    assert!(dirty.dirty);
    assert_eq!(action, LoopAction::Continue);
    assert_eq!(runtime_step(dirty, LoopEvent::FrameTick).1, LoopAction::Draw);
    assert_eq!(runtime_step(start, LoopEvent::Terminal { quit: true, save_changed_screen: false }).1, LoopAction::Quit);
    assert_eq!(
        runtime_step(start, LoopEvent::ServiceEnded { kind: ServiceKind::Proxy, ok: true }).1,
        LoopAction::Fail(LoopFailure::ServiceStopped(ServiceKind::Proxy))
    );
    assert_eq!(
        runtime_step(start, LoopEvent::ServiceEnded { kind: ServiceKind::Logger, ok: false }).1,
        LoopAction::LogServiceEnd { kind: ServiceKind::Logger, ok: false }
    );
    let (raised, action) = runtime_step(start, LoopEvent::CaptureDirty { pressure: 3 });
    assert_eq!(action, LoopAction::EvictOldestCapture);
    assert_eq!(raised.last_capture_pressure, 3);
    assert_eq!(runtime_step(raised, LoopEvent::CaptureDirty { pressure: 3 }).1, LoopAction::Continue);
    let (closed, _) = runtime_step(start, LoopEvent::Capture { present: false });
    assert!(!closed.captures_open);
    assert_eq!(runtime_step(start, LoopEvent::TerminalClosed).1, LoopAction::Fail(LoopFailure::TerminalClosed));
}

#[test]
fn white_space_is_exactly_what_the_standard_library_calls_white_space() {
    for c in (0u32..=0x10FFFF).filter_map(char::from_u32) {
        assert_eq!(char_is_whitespace(c), c.is_whitespace(), "{:#x}", c as u32);
    }
}

#[test]
fn an_unchanged_transaction_hands_back_the_begun_settings_without_a_policy() {
    let mut begun = AppSettings::default();
    begun.server.port = 9300;
    let record: AdmittedSettingsCommit<u8> =
        unchanged_commit(&begun, PersistenceMode::Persistent, MappingObjectRef::ActivePreset);
    assert_eq!(record.settings, begun);
    assert!(record.policy.is_none());
    assert_eq!(record.outcome, SettingsTransactionOutcome::Unchanged);
    assert_eq!(record.persistence, PersistenceMode::Persistent);

    let token = SettingsTransactionToken { value: 4 };
    match close_transaction::<u8, &str>(token, SettingsTransactionOrigin::Mcp, Ok(record)) {
        TransactionClose::Finalize { token: t, finalized, persistence, .. } => {
            assert_eq!(t, token);
            assert_eq!(finalized.outcome, SettingsTransactionOutcome::Unchanged);
            assert_eq!(finalized.origin, SettingsTransactionOrigin::Mcp);
            assert_eq!(finalized.settings.server.port, 9300);
            assert_eq!(persistence, PersistenceMode::Persistent);
        }
        TransactionClose::Abort { .. } => panic!("a finished transaction is finalized"),
    }
    match close_transaction::<u8, &str>(token, SettingsTransactionOrigin::Tui, Err("validation failed")) {
        TransactionClose::Abort { token: t, error } => assert_eq!((t, error), (token, "validation failed")),
        TransactionClose::Finalize { .. } => panic!("a failed transaction is aborted"),
    }
    assert!(!check_finalized_outcome(SettingsTransactionOutcome::Committed, SettingsTransactionOutcome::Unchanged));
}

#[test]
fn a_cancellation_during_work_ends_the_transaction_cancelled() {
    for state in [TxState::Building, TxState::Compiling, TxState::Preparing] {
        assert_eq!(
            transaction_step(state, TxEvent::WorkerCancelled),
            (TxState::Done(TxResult::CancelledDuringWork), TxAction::Finish(TxResult::CancelledDuringWork))
        );
    }
    assert_eq!(transaction_step(TxState::Committing, TxEvent::WorkerCancelled).1, TxAction::Ignore);
}

#[test]
fn publishing_probes_a_claimed_endpoint_and_replaces_only_a_stale_descriptor() {
    assert_eq!(publish_step(PublishEvent::Scanned { existing: false, cancelled: false }), PublishAction::Publish);
    assert_eq!(publish_step(PublishEvent::Scanned { existing: true, cancelled: false }), PublishAction::Probe);
    assert_eq!(
        publish_step(PublishEvent::Probed { outcome: ProbeOutcome::Live, cancelled: false }),
        PublishAction::Fail(PublishFailure::LiveEndpointConflict)
    );
    assert_eq!(
        publish_step(PublishEvent::Probed { outcome: ProbeOutcome::DefinitivelyStale, cancelled: false }),
        PublishAction::RemoveStale
    );
    assert_eq!(
        publish_step(PublishEvent::StaleRemoved { removed: false, cancelled: false }),
        PublishAction::Fail(PublishFailure::DescriptorChanged)
    );
    assert_eq!(publish_step(PublishEvent::StaleRemoved { removed: true, cancelled: false }), PublishAction::Publish);
    assert_eq!(
        publish_step(PublishEvent::StaleRemoved { removed: true, cancelled: true }),
        PublishAction::Fail(PublishFailure::Cancelled)
    );
}
