use vstd::prelude::*;
use crate::runtime::cache::{CaptureChange, CaptureChangeKind};

verus! {

/// The class of a failed control request.
#[derive(Clone, Copy, Debug, PartialEq, Eq, Structural)]
pub enum ControlErrorCode {
    InvalidArgument,
    CaptureNotFound,
    CaptureRevisionConflict,
    InstanceGenerationConflict,
    ServiceUnavailable,
    Cancelled,
}

/// How long a capture wait lasts when the request names no timeout.
pub const DEFAULT_WAIT_TIMEOUT_MS: u64 = 30_000;

/// The longest a capture wait lasts.
pub const MAX_WAIT_TIMEOUT_MS: u64 = 300_000;

/// The timeout of a capture wait: the default where none is asked for, at most the
/// maximum, and a timeout of zero refused.
pub fn wait_timeout_ms(timeout_ms: Option<u64>) -> (r: Result<u64, ControlErrorCode>)
    ensures
        r == match timeout_ms {
            None => Ok::<u64, ControlErrorCode>(DEFAULT_WAIT_TIMEOUT_MS),
            Some(t) => if t == 0 {
                Err(ControlErrorCode::InvalidArgument)
            } else if t > MAX_WAIT_TIMEOUT_MS {
                Ok(MAX_WAIT_TIMEOUT_MS)
            } else {
                Ok(t)
            },
        },
{
    match timeout_ms {
        None => Ok(DEFAULT_WAIT_TIMEOUT_MS),
        Some(t) => if t == 0 {
            Err(ControlErrorCode::InvalidArgument)
        } else if t > MAX_WAIT_TIMEOUT_MS {
            Ok(MAX_WAIT_TIMEOUT_MS)
        } else {
            Ok(t)
        },
    }
}

/// What inspecting one capture snapshot against the wait's query and milestone found.
#[derive(Clone, Copy, Debug, PartialEq, Eq, Structural)]
pub enum WaitInspection {
    /// The capture matches and reached the milestone.
    Matched,
    /// The capture matches, or may still, and has not reached the milestone yet.
    Pending,
    /// The capture can no longer satisfy the wait.
    Ignore,
}

/// What the wait last saw of one capture.
#[derive(Clone, Copy, Debug, PartialEq, Eq, Structural)]
pub struct WaitSequenceState {
    pub sequence: u64,
    pub revision: u64,
    pub pending: bool,
}

/// What happens to a capture wait: each snapshot of its initial search, and then each
/// change, is inspected in turn.
#[derive(Clone, Copy, Debug, PartialEq, Eq, Structural)]
pub enum WaitEvent {
    /// The capture store reported a change.
    Change(CaptureChange),
    /// A changed capture was read back and inspected.
    Inspected { sequence: u64, revision: u64, inspection: WaitInspection },
    /// A changed capture could not be read back: it is no longer retained.
    NotFound { sequence: u64, revision: u64 },
    /// A changed capture was read back from another instance generation.
    OtherInstance,
    /// The deadline passed.
    Deadline,
    /// The caller cancelled the wait.
    Cancelled,
    /// The change feed lost changes.
    FeedGap,
}

/// What the wait does next.
#[derive(Clone, Copy, Debug, PartialEq, Eq, Structural)]
pub enum WaitAction {
    /// Keep waiting for changes.
    Continue,
    /// Read back the capture at its current revision and inspect it.
    Materialize { sequence: u64 },
    /// Answer that a capture matched.
    Matched,
    /// Answer that no capture matched in time.
    Unmatched,
    /// Fail: a capture that was on its way to matching is gone.
    Lost { sequence: u64, revision: u64 },
    /// Fail with this error.
    Fail(ControlErrorCode),
}

/// What the wait last saw of capture `sequence`: the latest record of it.
pub open spec fn seen(s: Seq<WaitSequenceState>, sequence: u64) -> Option<WaitSequenceState>
    decreases s.len(),
{
    if s.len() == 0 {
        None
    } else if s.last().sequence == sequence {
        Some(s.last())
    } else {
        seen(s.drop_last(), sequence)
    }
}

/// The records of `s` of captures other than `sequence`.
pub open spec fn forget(s: Seq<WaitSequenceState>, sequence: u64) -> Seq<WaitSequenceState>
    decreases s.len(),
{
    if s.len() == 0 {
        s
    } else if s.last().sequence == sequence {
        forget(s.drop_last(), sequence)
    } else {
        forget(s.drop_last(), sequence).push(s.last())
    }
}

/// One step of a capture wait, from what it has seen and an event
/// to what it has seen then and what it does.
pub open spec fn wait_step_spec(s: Seq<WaitSequenceState>, event: WaitEvent) -> (Seq<WaitSequenceState>, WaitAction) {
    match event {
        WaitEvent::Change(c) => match c.kind {
            CaptureChangeKind::RetentionEviction | CaptureChangeKind::ExplicitDelete | CaptureChangeKind::Clear => {
                let lost = match seen(s, c.sequence) {
                    Some(st) => st.pending,
                    None => false,
                };
                (
                    forget(s, c.sequence),
                    if lost {
                        WaitAction::Lost { sequence: c.sequence, revision: c.revision }
                    } else {
                        WaitAction::Continue
                    },
                )
            },
            CaptureChangeKind::Admitted | CaptureChangeKind::RecordUpdated => match seen(s, c.sequence) {
                Some(st) if c.revision <= st.revision => (s, WaitAction::Continue),
                _ => (s, WaitAction::Materialize { sequence: c.sequence }),
            },
        },
        WaitEvent::Inspected { sequence, revision, inspection } => match inspection {
            WaitInspection::Matched => (s, WaitAction::Matched),
            WaitInspection::Pending => (
                s.push(WaitSequenceState { sequence, revision, pending: true }),
                WaitAction::Continue,
            ),
            WaitInspection::Ignore => (
                s.push(WaitSequenceState { sequence, revision, pending: false }),
                WaitAction::Continue,
            ),
        },
        WaitEvent::NotFound { sequence, revision } => (s, WaitAction::Lost { sequence, revision }),
        WaitEvent::OtherInstance => (s, WaitAction::Fail(ControlErrorCode::InstanceGenerationConflict)),
        WaitEvent::Deadline => (s, WaitAction::Unmatched),
        WaitEvent::Cancelled => (s, WaitAction::Fail(ControlErrorCode::Cancelled)),
        WaitEvent::FeedGap => (s, WaitAction::Fail(ControlErrorCode::ServiceUnavailable)),
    }
}

/// The captures a wait has seen, with what it saw of each.
pub struct WaitState {
    pub sequences: Vec<WaitSequenceState>,
}

impl WaitState {
    pub fn new() -> (r: Self)
        ensures
            r.sequences@ == Seq::<WaitSequenceState>::empty(),
    {
        WaitState { sequences: Vec::new() }
    }

    /// What the wait last saw of capture `sequence`.
    pub fn seen(&self, sequence: u64) -> (r: Option<WaitSequenceState>)
        ensures
            r == seen(self.sequences@, sequence),
    {
        let mut i: usize = self.sequences.len();
        assert(self.sequences@.take(i as int) =~= self.sequences@);
        while i > 0
            invariant
                i <= self.sequences@.len(),
                seen(self.sequences@, sequence) == seen(self.sequences@.take(i as int), sequence),
            decreases i,
        {
            proof {
                let t = self.sequences@.take(i as int);
                assert(t.drop_last() =~= self.sequences@.take(i - 1));
            }
            if self.sequences[i - 1].sequence == sequence {
                return Some(self.sequences[i - 1]);
            }
            i = i - 1;
        }
        proof {
            assert(self.sequences@.take(0) =~= Seq::<WaitSequenceState>::empty());
        }
        None
    }

    /// Forgets what the wait saw of capture `sequence`.
    pub fn forget(&mut self, sequence: u64)
        ensures
            final(self).sequences@ == forget(old(self).sequences@, sequence),
    {
        let mut kept: Vec<WaitSequenceState> = Vec::new();
        let mut i: usize = 0;
        proof {
            assert(self.sequences@.take(0) =~= Seq::<WaitSequenceState>::empty());
        }
        while i < self.sequences.len()
            invariant
                i <= self.sequences@.len(),
                kept@ == forget(self.sequences@.take(i as int), sequence),
            decreases self.sequences.len() - i,
        {
            proof {
                let t = self.sequences@.take(i + 1);
                assert(t.drop_last() =~= self.sequences@.take(i as int));
                assert(t.last() == self.sequences@[i as int]);
            }
            let entry = self.sequences[i];
            if entry.sequence != sequence {
                kept.push(entry);
            }
            i = i + 1;
        }
        proof {
            assert(self.sequences@.take(i as int) =~= self.sequences@);
        }
        self.sequences = kept;
    }

    /// Takes one step of the wait, as `wait_step_spec` describes.
    pub fn step(&mut self, event: WaitEvent) -> (r: WaitAction)
        ensures
            (final(self).sequences@, r) == wait_step_spec(old(self).sequences@, event),
    {
        match event {
            WaitEvent::Change(c) => match c.kind {
                CaptureChangeKind::RetentionEviction | CaptureChangeKind::ExplicitDelete | CaptureChangeKind::Clear => {
                    let lost = match self.seen(c.sequence) {
                        Some(st) => st.pending,
                        None => false,
                    };
                    self.forget(c.sequence);
                    if lost {
                        WaitAction::Lost { sequence: c.sequence, revision: c.revision }
                    } else {
                        WaitAction::Continue
                    }
                },
                CaptureChangeKind::Admitted | CaptureChangeKind::RecordUpdated => match self.seen(c.sequence) {
                    Some(st) if c.revision <= st.revision => WaitAction::Continue,
                    _ => WaitAction::Materialize { sequence: c.sequence },
                },
            },
            WaitEvent::Inspected { sequence, revision, inspection } => match inspection {
                WaitInspection::Matched => WaitAction::Matched,
                WaitInspection::Pending => {
                    self.sequences.push(WaitSequenceState { sequence, revision, pending: true });
                    WaitAction::Continue
                },
                WaitInspection::Ignore => {
                    self.sequences.push(WaitSequenceState { sequence, revision, pending: false });
                    WaitAction::Continue
                },
            },
            WaitEvent::NotFound { sequence, revision } => WaitAction::Lost { sequence, revision },
            WaitEvent::OtherInstance => WaitAction::Fail(ControlErrorCode::InstanceGenerationConflict),
            WaitEvent::Deadline => WaitAction::Unmatched,
            WaitEvent::Cancelled => WaitAction::Fail(ControlErrorCode::Cancelled),
            WaitEvent::FeedGap => WaitAction::Fail(ControlErrorCode::ServiceUnavailable),
        }
    }
}

// ---------------------------------------------------------------- what a wait does

proof fn lemma_forget_seen(s: Seq<WaitSequenceState>, sequence: u64, other: u64)
    ensures
        seen(forget(s, sequence), sequence) is None,
        other != sequence ==> seen(forget(s, sequence), other) == seen(s, other),
    decreases s.len(),
{
    if s.len() > 0 {
        lemma_forget_seen(s.drop_last(), sequence, other);
        let f = forget(s.drop_last(), sequence);
        if s.last().sequence != sequence {
            assert(f.push(s.last()).drop_last() =~= f);
        }
    }
}

/// A capture change that admits or updates a capture makes the wait read the capture back
/// and inspect it, unless the wait already inspected that capture at this revision or a
/// later one; then it keeps waiting. What the wait has seen is not changed.
pub proof fn lemma_wait_inspects_new_captures(s: Seq<WaitSequenceState>, c: CaptureChange)
    requires
        c.kind == CaptureChangeKind::Admitted || c.kind == CaptureChangeKind::RecordUpdated,
    ensures
        wait_step_spec(s, WaitEvent::Change(c)).0 == s,
        seen(s, c.sequence) is None ==> wait_step_spec(s, WaitEvent::Change(c)).1 == (WaitAction::Materialize {
            sequence: c.sequence,
        }),
        (seen(s, c.sequence) matches Some(st) && st.revision < c.revision) ==> wait_step_spec(
            s,
            WaitEvent::Change(c),
        ).1 == (WaitAction::Materialize { sequence: c.sequence }),
        (seen(s, c.sequence) matches Some(st) && c.revision <= st.revision) ==> wait_step_spec(
            s,
            WaitEvent::Change(c),
        ).1 == WaitAction::Continue,
{
}

/// A capture change that removes a capture (evicted, deleted, or the store cleared) makes
/// the wait forget it and keep everything it saw of other captures; the wait fails as lost
/// exactly when that capture was on its way to matching, and keeps waiting otherwise.
pub proof fn lemma_wait_forgets_removed_captures(s: Seq<WaitSequenceState>, c: CaptureChange, other: u64)
    requires
        c.kind == CaptureChangeKind::RetentionEviction || c.kind == CaptureChangeKind::ExplicitDelete || c.kind
            == CaptureChangeKind::Clear,
    ensures
        seen(wait_step_spec(s, WaitEvent::Change(c)).0, c.sequence) is None,
        other != c.sequence ==> seen(wait_step_spec(s, WaitEvent::Change(c)).0, other) == seen(s, other),
        (seen(s, c.sequence) matches Some(st) && st.pending) ==> wait_step_spec(s, WaitEvent::Change(c)).1 == (
        WaitAction::Lost { sequence: c.sequence, revision: c.revision }),
        !(seen(s, c.sequence) matches Some(st) && st.pending) ==> wait_step_spec(s, WaitEvent::Change(c)).1
            == WaitAction::Continue,
{
    lemma_forget_seen(s, c.sequence, other);
}

/// An inspection that matched answers the wait; one that is pending or no longer matching
/// is remembered for that capture at that revision, and the wait goes on. Everything seen
/// of other captures stays as it was.
pub proof fn lemma_wait_remembers_inspections(
    s: Seq<WaitSequenceState>,
    sequence: u64,
    revision: u64,
    inspection: WaitInspection,
    other: u64,
)
    ensures
        ({
            let (next, action) = wait_step_spec(s, WaitEvent::Inspected { sequence, revision, inspection });
            &&& inspection == WaitInspection::Matched ==> action == WaitAction::Matched && next == s
            &&& inspection != WaitInspection::Matched ==> action == WaitAction::Continue && seen(next, sequence) == Some(
                WaitSequenceState { sequence, revision, pending: inspection == WaitInspection::Pending },
            )
            &&& other != sequence ==> seen(next, other) == seen(s, other)
        }),
{
    let pending = WaitSequenceState { sequence, revision, pending: true };
    let ignored = WaitSequenceState { sequence, revision, pending: false };
    assert(s.push(pending).drop_last() =~= s);
    assert(s.push(ignored).drop_last() =~= s);
}

/// After a capture was inspected at a revision without matching, a change of it at that
/// revision or an earlier one is not inspected again, and a change to a later revision is.
pub proof fn lemma_wait_reinspects_only_later_revisions(
    s: Seq<WaitSequenceState>,
    sequence: u64,
    revision: u64,
    inspection: WaitInspection,
    c: CaptureChange,
)
    requires
        inspection != WaitInspection::Matched,
        c.sequence == sequence,
        c.kind == CaptureChangeKind::Admitted || c.kind == CaptureChangeKind::RecordUpdated,
    ensures
        ({
            let next = wait_step_spec(s, WaitEvent::Inspected { sequence, revision, inspection }).0;
            &&& c.revision <= revision ==> wait_step_spec(next, WaitEvent::Change(c)).1 == WaitAction::Continue
            &&& revision < c.revision ==> wait_step_spec(next, WaitEvent::Change(c)).1 == (WaitAction::Materialize {
                sequence,
            })
        }),
{
    lemma_wait_remembers_inspections(s, sequence, revision, inspection, sequence);
    let next = wait_step_spec(s, WaitEvent::Inspected { sequence, revision, inspection }).0;
    lemma_wait_inspects_new_captures(next, c);
}

/// The wait ends only by an answer or a failure that its event calls for: the deadline
/// answers that nothing matched, a cancelled caller, another instance generation and a
/// gap in the change feed fail with their own errors, and a capture that cannot be read
/// back is lost; none of these changes what the wait has seen.
pub proof fn lemma_wait_endings(s: Seq<WaitSequenceState>, sequence: u64, revision: u64)
    ensures
        wait_step_spec(s, WaitEvent::Deadline) == (s, WaitAction::Unmatched),
        wait_step_spec(s, WaitEvent::Cancelled) == (s, WaitAction::Fail(ControlErrorCode::Cancelled)),
        wait_step_spec(s, WaitEvent::OtherInstance) == (s, WaitAction::Fail(ControlErrorCode::InstanceGenerationConflict)),
        wait_step_spec(s, WaitEvent::FeedGap) == (s, WaitAction::Fail(ControlErrorCode::ServiceUnavailable)),
        wait_step_spec(s, WaitEvent::NotFound { sequence, revision }) == (s, WaitAction::Lost { sequence, revision }),
        forall|e: WaitEvent| #![trigger wait_step_spec(s, e)] wait_step_spec(s, e).1 == WaitAction::Matched ==> e matches WaitEvent::Inspected {
            inspection: WaitInspection::Matched,
            ..
        },
        forall|e: WaitEvent| #![trigger wait_step_spec(s, e)] wait_step_spec(s, e).1 == WaitAction::Unmatched ==> e == WaitEvent::Deadline,
{
}

} // verus!
