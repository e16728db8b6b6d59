use vstd::prelude::*;
use crate::select::SelectKey;

verus! {

/// How much terminal work one turn of the event loop may do; times in milliseconds.
#[derive(Clone, Copy, Debug, PartialEq, Eq, Structural)]
pub struct RenderPolicy {
    pub frame_interval_ms: u64,
    pub max_events_per_turn: usize,
    pub event_budget_ms: u64,
    pub metrics_interval_ms: u64,
    pub shutdown_grace_ms: u64,
    /// How long a body that is still being prepared may hold back a frame before the
    /// loading state is drawn.
    pub body_loading_grace_ms: u64,
}

impl Default for RenderPolicy {
    /// Sixty frames a second, at most 256 events and 2 ms of event work a turn, metrics
    /// every second, 3 s to shut down, and 100 ms before a loading body is drawn.
    fn default() -> (r: Self)
        ensures
            r == (RenderPolicy {
                frame_interval_ms: 16,
                max_events_per_turn: 256,
                event_budget_ms: 2,
                metrics_interval_ms: 1000,
                shutdown_grace_ms: 3000,
                body_loading_grace_ms: 100,
            }),
    {
        RenderPolicy {
            frame_interval_ms: 1000 / 60,
            max_events_per_turn: 256,
            event_budget_ms: 2,
            metrics_interval_ms: 1000,
            shutdown_grace_ms: 3000,
            body_loading_grace_ms: 100,
        }
    }
}

/// Whether the selected body can be drawn, or is still being prepared since a moment in
/// milliseconds.
#[derive(Clone, Copy, Debug, PartialEq, Eq, Structural)]
pub enum BodyDisplayPreparation {
    ReadyToRender,
    Pending { started_at_ms: u64 },
}

#[derive(Clone, Copy, Debug, PartialEq, Eq, Structural)]
pub enum FrameRenderOutcome {
    Deferred,
    Drawn,
}

/// A frame waits while the body it shows has been in preparation for less than the grace
/// period.
pub open spec fn frame_deferred(preparation: BodyDisplayPreparation, now_ms: u64, loading_grace_ms: u64) -> bool {
    match preparation {
        BodyDisplayPreparation::Pending { started_at_ms } => (if now_ms >= started_at_ms {
            now_ms - started_at_ms
        } else {
            0
        }) < loading_grace_ms,
        BodyDisplayPreparation::ReadyToRender => false,
    }
}

/// Draws a dirty frame with `draw` unless the body it shows is still within its loading
/// grace period; a frame drawn is no longer dirty, and a failed draw leaves it dirty.
pub fn render_dirty_frame<E, F: FnOnce() -> Result<(), E>>(
    dirty: &mut bool,
    preparation: BodyDisplayPreparation,
    now_ms: u64,
    loading_grace_ms: u64,
    draw: F,
) -> (r: Result<FrameRenderOutcome, E>)
    requires
        frame_deferred(preparation, now_ms, loading_grace_ms) || call_requires(draw, ()),
    ensures
        frame_deferred(preparation, now_ms, loading_grace_ms) ==> r is Ok && r->Ok_0 == FrameRenderOutcome::Deferred
            && *final(dirty) == *old(dirty),
        !frame_deferred(preparation, now_ms, loading_grace_ms) ==> match r {
            Ok(outcome) => outcome == FrameRenderOutcome::Drawn && !*final(dirty) && call_ensures(
                draw,
                (),
                Ok::<(), E>(()),
            ),
            Err(e) => *final(dirty) == *old(dirty) && call_ensures(draw, (), Err::<(), E>(e)),
        },
{
    let deferred = match preparation {
        BodyDisplayPreparation::Pending { started_at_ms } => now_ms.saturating_sub(started_at_ms) < loading_grace_ms,
        BodyDisplayPreparation::ReadyToRender => false,
    };
    if deferred {
        return Ok(FrameRenderOutcome::Deferred);
    }
    let drawn = draw();
    match drawn {
        Ok(unit) => {
            assert(drawn == Ok::<(), E>(unit));
            *dirty = false;
            Ok(FrameRenderOutcome::Drawn)
        },
        Err(e) => Err(e),
    }
}

/// The control modifier, as the terminal reports modifiers: one bit each for shift,
/// control, alt, super, hyper and meta.
pub const MODIFIER_CONTROL: u8 = 2;

/// Control-C, with no other modifier and either case of the letter, quits the runtime.
pub fn is_runtime_quit_key(code: SelectKey, modifiers: u8) -> (r: bool)
    ensures
        r == (modifiers == MODIFIER_CONTROL && (code == SelectKey::Char('c') || code == SelectKey::Char('C'))),
{
    modifiers == MODIFIER_CONTROL && match code {
        SelectKey::Char(c) => c == 'c' || c == 'C',
        _ => false,
    }
}

} // verus!
