use vstd::prelude::*;
use crate::runtime::services::{is_fatal_service, service_is_fatal, ServiceKind};

verus! {

/// What the terminal event loop keeps between events: whether a frame is due, which event
/// sources are still open, and the capture memory pressure last acted on.
#[derive(Clone, Copy, Debug, PartialEq, Eq, Structural)]
pub struct LoopState {
    pub dirty: bool,
    pub captures_open: bool,
    pub decode_results_open: bool,
    pub request_search_results_open: bool,
    pub logs_open: bool,
    pub logging_status_open: bool,
    pub control_open: bool,
    pub last_capture_pressure: u64,
}

/// One event of the terminal event loop, with what the application reported of it.
#[derive(Clone, Copy, Debug, PartialEq, Eq, Structural)]
pub enum LoopEvent {
    /// The terminal event stream ended.
    TerminalClosed,
    /// Reading a terminal event failed.
    TerminalReadFailed,
    /// A terminal event was handled: whether it asked to quit, and whether a settings save
    /// it started changed the screen.
    Terminal { quit: bool, save_changed_screen: bool },
    /// A settings transaction started from the terminal finished (`present`), or its
    /// channel had nothing.
    SettingsCompletion { present: bool },
    /// A control command was processed; whether it changed the screen.
    ControlCommand { changed_screen: bool },
    /// The control channel closed.
    ControlClosed,
    /// A capture arrived (`present`), or the capture channel closed.
    Capture { present: bool },
    /// The capture store signalled a change, at this memory pressure.
    CaptureDirty { pressure: u64 },
    /// A decode result arrived (`present`, and whether it changed the screen), or the
    /// channel closed.
    DecodeResult { present: bool, changed_screen: bool },
    /// The request search results changed (`open`, and whether that changed the screen),
    /// or their channel closed.
    SearchResults { open: bool, changed_screen: bool },
    /// A log record arrived (`present`), or the log channel closed.
    Log { present: bool },
    /// The logging service reported it is degraded (`present`), or its channel closed.
    LoggingStatus { present: bool },
    /// A supervised service ended, successfully or not.
    ServiceEnded { kind: ServiceKind, ok: bool },
    /// No supervised service is left.
    ServicesExhausted,
    /// The metrics were refreshed; whether that changed the screen.
    MetricsTick { changed_screen: bool },
    /// The live body was refreshed; whether that changed the screen.
    LiveBodyTick { changed_screen: bool },
    /// A frame is due.
    FrameTick,
}

/// Why the event loop stops with an error.
#[derive(Clone, Copy, Debug, PartialEq, Eq, Structural)]
pub enum LoopFailure {
    TerminalClosed,
    TerminalReadFailed,
    /// A service that the runtime cannot do without failed.
    ServiceFailed(ServiceKind),
    /// A service that the runtime cannot do without stopped.
    ServiceStopped(ServiceKind),
    AllServicesExited,
}

/// What the event loop does after an event.
#[derive(Clone, Copy, Debug, PartialEq, Eq, Structural)]
pub enum LoopAction {
    Continue,
    /// Stop: the user asked to quit.
    Quit,
    Fail(LoopFailure),
    /// Memory pressure rose: drop the oldest capture.
    EvictOldestCapture,
    /// A service that can be done without ended: log it.
    LogServiceEnd { kind: ServiceKind, ok: bool },
    /// Draw the dirty frame.
    Draw,
}

pub open spec fn mark(s: LoopState, changed: bool) -> LoopState {
    LoopState { dirty: s.dirty || changed, ..s }
}

/// One turn of the terminal event loop: the screen is dirty after anything that changed
/// it; the loop quits on the quit key, and fails when the terminal or a service it cannot
/// do without goes away; rising capture memory pressure evicts the oldest capture; a
/// closed source is no longer listened to; a due frame is drawn only when dirty.
pub open spec fn runtime_step_spec(s: LoopState, event: LoopEvent) -> (LoopState, LoopAction) {
    match event {
        LoopEvent::TerminalClosed => (s, LoopAction::Fail(LoopFailure::TerminalClosed)),
        LoopEvent::TerminalReadFailed => (s, LoopAction::Fail(LoopFailure::TerminalReadFailed)),
        LoopEvent::Terminal { quit, .. } => if quit {
            (s, LoopAction::Quit)
        } else {
            (mark(s, true), LoopAction::Continue)
        },
        LoopEvent::SettingsCompletion { present } => (mark(s, present), LoopAction::Continue),
        LoopEvent::ControlCommand { changed_screen } => (mark(s, changed_screen), LoopAction::Continue),
        LoopEvent::ControlClosed => (LoopState { control_open: false, ..s }, LoopAction::Continue),
        LoopEvent::Capture { present } => if present {
            (mark(s, true), LoopAction::Continue)
        } else {
            (LoopState { captures_open: false, ..s }, LoopAction::Continue)
        },
        LoopEvent::CaptureDirty { pressure } => if pressure > s.last_capture_pressure {
            (LoopState { dirty: true, last_capture_pressure: pressure, ..s }, LoopAction::EvictOldestCapture)
        } else {
            (mark(s, true), LoopAction::Continue)
        },
        LoopEvent::DecodeResult { present, changed_screen } => if present {
            (mark(s, changed_screen), LoopAction::Continue)
        } else {
            (LoopState { decode_results_open: false, ..s }, LoopAction::Continue)
        },
        LoopEvent::SearchResults { open, changed_screen } => if open {
            (mark(s, changed_screen), LoopAction::Continue)
        } else {
            (LoopState { request_search_results_open: false, ..s }, LoopAction::Continue)
        },
        LoopEvent::Log { present } => if present {
            (mark(s, true), LoopAction::Continue)
        } else {
            (LoopState { logs_open: false, ..s }, LoopAction::Continue)
        },
        LoopEvent::LoggingStatus { present } => if present {
            (mark(s, true), LoopAction::Continue)
        } else {
            (LoopState { logging_status_open: false, ..s }, LoopAction::Continue)
        },
        LoopEvent::ServiceEnded { kind, ok } => if service_is_fatal(kind) {
            (s, LoopAction::Fail(if ok { LoopFailure::ServiceStopped(kind) } else { LoopFailure::ServiceFailed(kind) }))
        } else {
            (mark(s, true), LoopAction::LogServiceEnd { kind, ok })
        },
        LoopEvent::ServicesExhausted => (s, LoopAction::Fail(LoopFailure::AllServicesExited)),
        LoopEvent::MetricsTick { changed_screen } => (mark(s, changed_screen), LoopAction::Continue),
        LoopEvent::LiveBodyTick { changed_screen } => (mark(s, changed_screen), LoopAction::Continue),
        LoopEvent::FrameTick => if s.dirty {
            (s, LoopAction::Draw)
        } else {
            (s, LoopAction::Continue)
        },
    }
}

impl LoopState {
    /// The state at the start of the loop, after the first frame was drawn: nothing due,
    /// every source open.
    pub fn initial(last_capture_pressure: u64) -> (r: Self)
        ensures
            r == (LoopState {
                dirty: false,
                captures_open: true,
                decode_results_open: true,
                request_search_results_open: true,
                logs_open: true,
                logging_status_open: true,
                control_open: true,
                last_capture_pressure,
            }),
    {
        LoopState {
            dirty: false,
            captures_open: true,
            decode_results_open: true,
            request_search_results_open: true,
            logs_open: true,
            logging_status_open: true,
            control_open: true,
            last_capture_pressure,
        }
    }
}

/// One turn of the terminal event loop, as `runtime_step_spec` describes.
pub fn runtime_step(s: LoopState, event: LoopEvent) -> (r: (LoopState, LoopAction))
    ensures
        r == runtime_step_spec(s, event),
{
    match event {
        LoopEvent::TerminalClosed => (s, LoopAction::Fail(LoopFailure::TerminalClosed)),
        LoopEvent::TerminalReadFailed => (s, LoopAction::Fail(LoopFailure::TerminalReadFailed)),
        LoopEvent::Terminal { quit, .. } => if quit {
            (s, LoopAction::Quit)
        } else {
            (LoopState { dirty: true, ..s }, LoopAction::Continue)
        },
        LoopEvent::SettingsCompletion { present } => (LoopState { dirty: s.dirty || present, ..s }, LoopAction::Continue),
        LoopEvent::ControlCommand { changed_screen } => (
            LoopState { dirty: s.dirty || changed_screen, ..s },
            LoopAction::Continue,
        ),
        LoopEvent::ControlClosed => (LoopState { control_open: false, ..s }, LoopAction::Continue),
        LoopEvent::Capture { present } => if present {
            (LoopState { dirty: true, ..s }, LoopAction::Continue)
        } else {
            (LoopState { captures_open: false, ..s }, LoopAction::Continue)
        },
        LoopEvent::CaptureDirty { pressure } => if pressure > s.last_capture_pressure {
            (LoopState { dirty: true, last_capture_pressure: pressure, ..s }, LoopAction::EvictOldestCapture)
        } else {
            (LoopState { dirty: true, ..s }, LoopAction::Continue)
        },
        LoopEvent::DecodeResult { present, changed_screen } => if present {
            (LoopState { dirty: s.dirty || changed_screen, ..s }, LoopAction::Continue)
        } else {
            (LoopState { decode_results_open: false, ..s }, LoopAction::Continue)
        },
        LoopEvent::SearchResults { open, changed_screen } => if open {
            (LoopState { dirty: s.dirty || changed_screen, ..s }, LoopAction::Continue)
        } else {
            (LoopState { request_search_results_open: false, ..s }, LoopAction::Continue)
        },
        LoopEvent::Log { present } => if present {
            (LoopState { dirty: true, ..s }, LoopAction::Continue)
        } else {
            (LoopState { logs_open: false, ..s }, LoopAction::Continue)
        },
        LoopEvent::LoggingStatus { present } => if present {
            (LoopState { dirty: true, ..s }, LoopAction::Continue)
        } else {
            (LoopState { logging_status_open: false, ..s }, LoopAction::Continue)
        },
        LoopEvent::ServiceEnded { kind, ok } => if is_fatal_service(kind) {
            (s, LoopAction::Fail(if ok { LoopFailure::ServiceStopped(kind) } else { LoopFailure::ServiceFailed(kind) }))
        } else {
            (LoopState { dirty: true, ..s }, LoopAction::LogServiceEnd { kind, ok })
        },
        LoopEvent::ServicesExhausted => (s, LoopAction::Fail(LoopFailure::AllServicesExited)),
        LoopEvent::MetricsTick { changed_screen } => (LoopState { dirty: s.dirty || changed_screen, ..s }, LoopAction::Continue),
        LoopEvent::LiveBodyTick { changed_screen } => (
            LoopState { dirty: s.dirty || changed_screen, ..s },
            LoopAction::Continue,
        ),
        LoopEvent::FrameTick => if s.dirty {
            (s, LoopAction::Draw)
        } else {
            (s, LoopAction::Continue)
        },
    }
}

/// Only the quit key ends the loop without an error, and only a failing source or service
/// ends it with one; a frame is drawn only when something changed the screen since the
/// last one was drawn.
pub proof fn lemma_loop_ends_only_on_quit_or_failure(s: LoopState, event: LoopEvent)
    ensures
        runtime_step_spec(s, event).1 == LoopAction::Quit ==> event matches LoopEvent::Terminal { quit: true, .. },
        runtime_step_spec(s, event).1 == LoopAction::Draw ==> s.dirty,
        runtime_step_spec(s, event).1 is Fail ==> (event is TerminalClosed || event is TerminalReadFailed
            || event is ServicesExhausted || (event matches LoopEvent::ServiceEnded { kind, .. } && service_is_fatal(kind))),
        runtime_step_spec(s, event).0.last_capture_pressure >= s.last_capture_pressure,
{
}

/// Whether an event brings something new to the screen: a terminal event that does not
/// quit, a new capture, a capture store change, a log line, a logging status, a service
/// that may end without ending the loop, or a source that reports a changed screen.
pub open spec fn brings_new_content(event: LoopEvent) -> bool {
    match event {
        LoopEvent::Terminal { quit, .. } => !quit,
        LoopEvent::SettingsCompletion { present } => present,
        LoopEvent::ControlCommand { changed_screen } => changed_screen,
        LoopEvent::Capture { present } => present,
        LoopEvent::CaptureDirty { .. } => true,
        LoopEvent::DecodeResult { present, changed_screen } => present && changed_screen,
        LoopEvent::SearchResults { open, changed_screen } => open && changed_screen,
        LoopEvent::Log { present } => present,
        LoopEvent::LoggingStatus { present } => present,
        LoopEvent::ServiceEnded { kind, .. } => !service_is_fatal(kind),
        LoopEvent::MetricsTick { changed_screen } => changed_screen,
        LoopEvent::LiveBodyTick { changed_screen } => changed_screen,
        _ => false,
    }
}

/// A step never forgets that the screen must be drawn, and an event that brings something
/// new to the screen always leaves it to be drawn; an event that brings nothing new does
/// not. The next frame tick then draws it, and a frame tick draws nothing on a screen with
/// nothing new.
pub proof fn lemma_new_content_is_drawn(s: LoopState, event: LoopEvent)
    ensures
        s.dirty && !(runtime_step_spec(s, event).1 is Fail) && runtime_step_spec(s, event).1 != LoopAction::Quit
            ==> runtime_step_spec(s, event).0.dirty,
        brings_new_content(event) ==> runtime_step_spec(s, event).0.dirty,
        brings_new_content(event) ==> runtime_step_spec(runtime_step_spec(s, event).0, LoopEvent::FrameTick).1
            == LoopAction::Draw,
        !s.dirty && !brings_new_content(event) ==> !runtime_step_spec(s, event).0.dirty,
        runtime_step_spec(s, LoopEvent::FrameTick) == (s, if s.dirty { LoopAction::Draw } else { LoopAction::Continue }),
{
    match event {
        LoopEvent::TerminalClosed => {},
        LoopEvent::TerminalReadFailed => {},
        LoopEvent::Terminal { .. } => {},
        LoopEvent::SettingsCompletion { .. } => {},
        LoopEvent::ControlCommand { .. } => {},
        LoopEvent::ControlClosed => {},
        LoopEvent::Capture { .. } => {},
        LoopEvent::CaptureDirty { .. } => {},
        LoopEvent::DecodeResult { .. } => {},
        LoopEvent::SearchResults { .. } => {},
        LoopEvent::Log { .. } => {},
        LoopEvent::LoggingStatus { .. } => {},
        LoopEvent::ServiceEnded { .. } => {},
        LoopEvent::ServicesExhausted => {},
        LoopEvent::MetricsTick { .. } => {},
        LoopEvent::LiveBodyTick { .. } => {},
        LoopEvent::FrameTick => {},
    }
}

/// A source that closes is no longer listened to and everything else stays as it was;
/// capture memory pressure that rises evicts the oldest capture once and is remembered,
/// and pressure that does not rise evicts nothing.
pub proof fn lemma_sources_and_pressure(s: LoopState, pressure: u64)
    ensures
        runtime_step_spec(s, LoopEvent::Capture { present: false }) == (LoopState { captures_open: false, ..s },
        LoopAction::Continue),
        runtime_step_spec(s, LoopEvent::ControlClosed) == (LoopState { control_open: false, ..s },
        LoopAction::Continue),
        runtime_step_spec(s, LoopEvent::Log { present: false }) == (LoopState { logs_open: false, ..s },
        LoopAction::Continue),
        pressure > s.last_capture_pressure ==> runtime_step_spec(s, LoopEvent::CaptureDirty { pressure }).1
            == LoopAction::EvictOldestCapture && runtime_step_spec(s, LoopEvent::CaptureDirty { pressure }).0.last_capture_pressure
            == pressure,
        pressure <= s.last_capture_pressure ==> runtime_step_spec(s, LoopEvent::CaptureDirty { pressure }).1
            == LoopAction::Continue && runtime_step_spec(s, LoopEvent::CaptureDirty { pressure }).0.last_capture_pressure
            == s.last_capture_pressure,
{
}

/// The loop quits on the quit key and fails with the failure its event names: the terminal
/// closed or unreadable, every service gone, or a service it cannot do without stopped or
/// failed; a service it can do without is logged as ended. A source that closes is no
/// longer listened to. Apart from these, from whether the screen must be drawn and from
/// rising capture pressure, a step leaves the loop state as it was.
pub proof fn lemma_step_does_what_its_event_says(s: LoopState, event: LoopEvent)
    ensures
        event == (LoopEvent::Terminal { quit: true, save_changed_screen: event->save_changed_screen })
            ==> runtime_step_spec(s, event) == (s, LoopAction::Quit),
        runtime_step_spec(s, LoopEvent::TerminalClosed) == (s, LoopAction::Fail(LoopFailure::TerminalClosed)),
        runtime_step_spec(s, LoopEvent::TerminalReadFailed) == (s, LoopAction::Fail(LoopFailure::TerminalReadFailed)),
        runtime_step_spec(s, LoopEvent::ServicesExhausted) == (s, LoopAction::Fail(LoopFailure::AllServicesExited)),
        (event matches LoopEvent::ServiceEnded { kind, ok } && service_is_fatal(kind)) ==> runtime_step_spec(s, event)
            == (s, LoopAction::Fail(if event->ok { LoopFailure::ServiceStopped(event->kind) } else {
            LoopFailure::ServiceFailed(event->kind)
        })),
        (event matches LoopEvent::ServiceEnded { kind, ok } && !service_is_fatal(kind)) ==> runtime_step_spec(
            s,
            event,
        ).1 == (LoopAction::LogServiceEnd { kind: event->kind, ok: event->ok }),
        runtime_step_spec(s, LoopEvent::DecodeResult { present: false, changed_screen: false }).0 == (LoopState {
            decode_results_open: false,
            ..s
        }),
        runtime_step_spec(s, LoopEvent::SearchResults { open: false, changed_screen: false }).0 == (LoopState {
            request_search_results_open: false,
            ..s
        }),
        runtime_step_spec(s, LoopEvent::LoggingStatus { present: false }).0 == (LoopState {
            logging_status_open: false,
            ..s
        }),
        !(event matches LoopEvent::Capture { present: false }) && !(event is ControlClosed) && !(event matches LoopEvent::DecodeResult {
            present: false,
            ..
        }) && !(event matches LoopEvent::SearchResults { open: false, .. }) && !(event matches LoopEvent::Log {
            present: false,
        }) && !(event matches LoopEvent::LoggingStatus { present: false }) && !(event is CaptureDirty)
            ==> runtime_step_spec(s, event).0 == (LoopState { dirty: runtime_step_spec(s, event).0.dirty, ..s }),
{
    match event {
        LoopEvent::TerminalClosed => {},
        LoopEvent::TerminalReadFailed => {},
        LoopEvent::Terminal { .. } => {},
        LoopEvent::SettingsCompletion { .. } => {},
        LoopEvent::ControlCommand { .. } => {},
        LoopEvent::ControlClosed => {},
        LoopEvent::Capture { .. } => {},
        LoopEvent::CaptureDirty { .. } => {},
        LoopEvent::DecodeResult { .. } => {},
        LoopEvent::SearchResults { .. } => {},
        LoopEvent::Log { .. } => {},
        LoopEvent::LoggingStatus { .. } => {},
        LoopEvent::ServiceEnded { .. } => {},
        LoopEvent::ServicesExhausted => {},
        LoopEvent::MetricsTick { .. } => {},
        LoopEvent::LiveBodyTick { .. } => {},
        LoopEvent::FrameTick => {},
    }
}

} // verus!
