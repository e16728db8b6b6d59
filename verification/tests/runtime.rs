use fluxcope::runtime::render::{
    is_runtime_quit_key, render_dirty_frame, BodyDisplayPreparation, FrameRenderOutcome, RenderPolicy, MODIFIER_CONTROL,
};
use fluxcope::select::SelectKey;
use std::time::Duration;
use crossterm::event::{KeyCode, KeyEvent, KeyEventKind, KeyEventState, KeyModifiers};
use fluxcope::runtime::body::{should_cache_decoded_body, BodyStatus, BodyStreamState};
use fluxcope::runtime::mcp::{effective_mcp_enabled, McpOverride};
use fluxcope::runtime::recording::{InstanceScope, RecordingSwitch};
use fluxcope::runtime::services::{is_fatal_service, ServiceKind};
use fluxcope::runtime::transactions::{
    transaction_result_revision, FinalizedSettingsTransaction, SettingsAuthority, SettingsRevision,
    SettingsTransactionError, SettingsTransactionOrigin, SettingsTransactionOutcome, SettingsTransactionToken,
    SETTINGS_TRANSACTION_QUEUE_CAPACITY,
};
use fluxcope::settings::model::AppSettings;

fn status(stream: BodyStreamState, retained_bytes: usize) -> BodyStatus {
    BodyStatus { stream, observed_bytes: retained_bytes as u64, retained_bytes }
}

#[test]
fn decoded_cache_accepts_only_terminal_stream_states() {
    for (stream, expected) in [
        (BodyStreamState::Pending, false),
        (BodyStreamState::Streaming, false),
        (BodyStreamState::Complete, true),
        (BodyStreamState::Failed, true),
        (BodyStreamState::Cancelled, true),
    ] {
        assert_eq!(should_cache_decoded_body(&status(stream, 4)), expected, "{stream:?}");
    }
}

#[test]
fn fatal_service_policy_matches_runtime_contract() {
    assert!(is_fatal_service(ServiceKind::ControlRpc));
    assert!(is_fatal_service(ServiceKind::Proxy));
    assert!(!is_fatal_service(ServiceKind::CertificateDownload));
    assert!(!is_fatal_service(ServiceKind::Logger));
}

#[test]
fn settings_transaction_service_is_bounded_serial_and_supervised_as_fatal() {
    assert_eq!(SETTINGS_TRANSACTION_QUEUE_CAPACITY, 8);
    assert!(ServiceKind::SettingsTransactions.is_fatal());
}

#[test]
fn every_mcp_override_has_cli_over_settings_precedence() {
    let cases = [
        (McpOverride::Inherit, false, false),
        (McpOverride::Inherit, true, true),
        (McpOverride::Enabled, false, true),
        (McpOverride::Enabled, true, true),
        (McpOverride::Disabled, false, false),
        (McpOverride::Disabled, true, false),
    ];

    for (mcp_override, configured, expected) in cases {
        let mut settings = AppSettings::default();
        settings.mcp.enable = configured;
        assert_eq!(
            effective_mcp_enabled(mcp_override, &settings),
            expected,
            "unexpected MCP result for {mcp_override:?} over configured={configured}"
        );
    }
}

fn recording_setter_scenario() {
    let mut settings = AppSettings::default();
    settings.recording.start_record_on_launch = false;
    let identity = InstanceScope { proxy_endpoint: "127.0.0.1:10".to_string(), run_id: "run-10".to_string() };
    let mut app = RecordingSwitch::new(identity.clone(), settings.recording.start_record_on_launch);
    assert!(!app.start_record_on_launch());

    for (enabled, expected_previous, expected_current) in [(true, false, true), (true, true, true), (false, true, false)] {
        let result = app.set_recording_enabled(enabled);
        assert_eq!(result.instance, identity);
        assert_eq!(result.previous, expected_previous);
        assert_eq!(result.current, expected_current);
        assert_eq!(app.is_recording(), expected_current);
        assert!(
            !app.start_record_on_launch(),
            "live recording mutation must not rewrite the launch setting"
        );
    }
}

#[test]
fn recording_tests_recording_setter_reports_previous_and_current_and_never_changes_launch_settings() {
    recording_setter_scenario();
}

#[test]
fn task8_tests_recording_setter_reports_previous_and_current_and_never_changes_launch_settings() {
    recording_setter_scenario();
}

#[test]
fn revision_starts_at_one_and_stale_revision_changes_nothing() {
    let mut authority: SettingsAuthority<u32> = SettingsAuthority::new(AppSettings::default(), 0);
    assert_eq!(authority.revision().get(), 1);
    let error = authority
        .begin(Some(SettingsRevision::new(7)), SettingsTransactionOrigin::Mcp)
        .unwrap_err();
    assert_eq!(error, SettingsTransactionError::RevisionConflict { expected: 7, current: 1 });
    assert_eq!(authority.revision().get(), 1);
    assert!(!authority.settings_transaction_pending());
}

#[test]
fn one_transaction_holds_the_settings_and_a_commit_advances_the_revision() {
    let mut authority: SettingsAuthority<u32> = SettingsAuthority::new(AppSettings::default(), 0);
    let begun = authority.begin(Some(SettingsRevision::initial()), SettingsTransactionOrigin::Mcp).expect("admitted");
    assert_eq!(begun.token, SettingsTransactionToken { value: 1 });
    assert_eq!(
        authority.begin(None, SettingsTransactionOrigin::Tui).unwrap_err(),
        SettingsTransactionError::TransactionPending
    );
    let mut next = AppSettings::default();
    next.server.port = 9100;
    let wrong = authority.finalize(
        SettingsTransactionToken { value: 2 },
        FinalizedSettingsTransaction {
            settings: AppSettings::default(),
            policy: Some(1),
            origin: SettingsTransactionOrigin::Mcp,
            outcome: SettingsTransactionOutcome::Committed,
        },
    );
    assert_eq!(wrong.unwrap_err(), SettingsTransactionError::TokenMismatch);
    let outcome = authority
        .finalize(
            begun.token,
            FinalizedSettingsTransaction {
                settings: next,
                policy: Some(5),
                origin: SettingsTransactionOrigin::Mcp,
                outcome: SettingsTransactionOutcome::Committed,
            },
        )
        .expect("finalized");
    assert_eq!(outcome, SettingsTransactionOutcome::Committed);
    assert_eq!(authority.revision().get(), 2);
    assert_eq!(authority.settings().server.port, 9100);
    assert_eq!(*authority.policy(), 5);
    assert!(!authority.settings_transaction_pending());
    assert_eq!(transaction_result_revision(outcome, begun.revision).get(), 2);
}

#[test]
fn mcp_writer_is_refused_over_a_dirty_draft_and_abort_releases_the_settings() {
    let mut authority: SettingsAuthority<u32> = SettingsAuthority::new(AppSettings::default(), 0);
    authority.set_draft_dirty(true);
    assert_eq!(
        authority.begin(None, SettingsTransactionOrigin::Mcp).unwrap_err(),
        SettingsTransactionError::TuiDraftConflict { current: 1 }
    );
    let begun = authority.begin(None, SettingsTransactionOrigin::Tui).expect("tui admitted");
    assert_eq!(
        authority.abort(SettingsTransactionToken { value: 9 }).unwrap_err(),
        SettingsTransactionError::TokenMismatch
    );
    authority.abort(begun.token).expect("aborted");
    assert!(!authority.settings_transaction_pending());
    assert_eq!(authority.revision().get(), 1);
    assert!(authority.request_tui_save());
    assert!(!authority.request_tui_save());
}

#[test]
fn render_policy_bounds_event_work() {
    let policy = RenderPolicy::default();

    assert_eq!(policy.max_events_per_turn, 256);
    assert_eq!(Duration::from_millis(policy.event_budget_ms), Duration::from_millis(2));
    assert!(Duration::from_millis(policy.frame_interval_ms) >= Duration::from_millis(16));
    assert_eq!(Duration::from_millis(policy.body_loading_grace_ms), Duration::from_millis(100));
}

#[test]
fn fast_body_result_draws_ready_frame_without_intermediate_loading_draw() {
    let started_at: u64 = 1_000;
    let grace = 100;
    let before_grace = started_at + 99;
    let mut dirty = true;
    let mut draws = 0;

    let deferred = render_dirty_frame(&mut dirty, BodyDisplayPreparation::Pending { started_at_ms: started_at }, before_grace, grace, || {
        draws += 1;
        Ok::<(), ()>(())
    })
    .expect("deferral should not fail");
    assert_eq!(deferred, FrameRenderOutcome::Deferred);
    assert!(dirty);
    assert_eq!(draws, 0);

    let drawn = render_dirty_frame(&mut dirty, BodyDisplayPreparation::ReadyToRender, before_grace, grace, || {
        draws += 1;
        Ok::<(), ()>(())
    })
    .expect("ready draw should not fail");
    assert_eq!(drawn, FrameRenderOutcome::Drawn);
    assert!(!dirty);
    assert_eq!(draws, 1);
}

#[test]
fn slow_body_draws_loading_once_grace_expires() {
    let started_at: u64 = 1_000;
    let grace = 100;
    let mut dirty = true;
    let mut draws = 0;

    let outcome = render_dirty_frame(&mut dirty, BodyDisplayPreparation::Pending { started_at_ms: started_at }, started_at + grace, grace, || {
        draws += 1;
        Ok::<(), ()>(())
    })
    .expect("loading draw should not fail");

    assert_eq!(outcome, FrameRenderOutcome::Drawn);
    assert!(!dirty);
    assert_eq!(draws, 1);
}

fn quits(event: KeyEvent) -> bool {
    let code = match event.code {
        KeyCode::Char(c) => SelectKey::Char(c),
        _ => SelectKey::Other,
    };
    is_runtime_quit_key(code, event.modifiers.bits())
}

#[test]
fn ctrl_c_remains_the_runtime_quit_chord() {
    for character in ['c', 'C'] {
        assert!(quits(KeyEvent {
            code: KeyCode::Char(character),
            modifiers: KeyModifiers::CONTROL,
            kind: KeyEventKind::Press,
            state: KeyEventState::NONE,
        }));
    }
    assert!(!quits(KeyEvent::new(KeyCode::Char('c'), KeyModifiers::NONE)));
}

#[test]
fn a_failed_draw_leaves_the_frame_dirty_and_other_chords_do_not_quit() {
    let mut dirty = true;
    let outcome = render_dirty_frame(&mut dirty, BodyDisplayPreparation::ReadyToRender, 10, 100, || Err::<(), &str>("terminal gone"));
    assert_eq!(outcome, Err("terminal gone"));
    assert!(dirty);
    let clock_went_back = render_dirty_frame(&mut dirty, BodyDisplayPreparation::Pending { started_at_ms: 50 }, 10, 100, || Err::<(), &str>("not drawn"));
    assert_eq!(clock_went_back, Ok(FrameRenderOutcome::Deferred));
    assert!(!is_runtime_quit_key(SelectKey::Char('c'), MODIFIER_CONTROL | 1));
    assert!(!is_runtime_quit_key(SelectKey::Char('d'), MODIFIER_CONTROL));
}
