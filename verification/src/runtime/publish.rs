use vstd::prelude::*;

verus! {

/// What probing the control endpoint of an existing instance descriptor found.
#[derive(Clone, Copy, Debug, PartialEq, Eq, Structural)]
pub enum ProbeOutcome {
    /// A live instance answered.
    Live,
    /// Connecting failed in a way that shows the descriptor is stale.
    DefinitivelyStale,
    /// An instance of another generation answered.
    GenerationConflict,
    /// The probe failed otherwise.
    Failed,
}

/// What happens while the private control endpoint is published.
#[derive(Clone, Copy, Debug, PartialEq, Eq, Structural)]
pub enum PublishEvent {
    /// The registry was read for this endpoint: whether a descriptor already claims it.
    Scanned { existing: bool, cancelled: bool },
    /// The existing descriptor's endpoint was probed.
    Probed { outcome: ProbeOutcome, cancelled: bool },
    /// Removing the stale descriptor was attempted: whether it was removed.
    StaleRemoved { removed: bool, cancelled: bool },
}

/// Why publishing fails.
#[derive(Clone, Copy, Debug, PartialEq, Eq, Structural)]
pub enum PublishFailure {
    Cancelled,
    /// A live instance holds the endpoint.
    LiveEndpointConflict,
    /// The probe failed.
    Probe,
    /// The descriptor changed after it was probed.
    DescriptorChanged,
}

/// What publishing does next.
#[derive(Clone, Copy, Debug, PartialEq, Eq, Structural)]
pub enum PublishAction {
    /// Probe the endpoint of the existing descriptor.
    Probe,
    /// Remove the stale descriptor, unless cancelled meanwhile.
    RemoveStale,
    /// Publish this instance's descriptor.
    Publish,
    Fail(PublishFailure),
}

/// One step of publishing the private control endpoint: a cancellation seen at any step
/// fails it; an endpoint nobody claims is published; a claimed one is probed, and published
/// only once its descriptor proved stale and was removed; a live instance or one of another
/// generation keeps the endpoint.
pub open spec fn publish_step_spec(event: PublishEvent) -> PublishAction {
    match event {
        PublishEvent::Scanned { existing, cancelled } => if cancelled {
            PublishAction::Fail(PublishFailure::Cancelled)
        } else if existing {
            PublishAction::Probe
        } else {
            PublishAction::Publish
        },
        PublishEvent::Probed { outcome, cancelled } => if cancelled {
            PublishAction::Fail(PublishFailure::Cancelled)
        } else {
            match outcome {
                ProbeOutcome::Live => PublishAction::Fail(PublishFailure::LiveEndpointConflict),
                ProbeOutcome::DefinitivelyStale => PublishAction::RemoveStale,
                ProbeOutcome::GenerationConflict => PublishAction::Fail(PublishFailure::LiveEndpointConflict),
                ProbeOutcome::Failed => PublishAction::Fail(PublishFailure::Probe),
            }
        },
        PublishEvent::StaleRemoved { removed, cancelled } => if cancelled {
            PublishAction::Fail(PublishFailure::Cancelled)
        } else if !removed {
            PublishAction::Fail(PublishFailure::DescriptorChanged)
        } else {
            PublishAction::Publish
        },
    }
}

/// One step of publishing the private control endpoint, as `publish_step_spec` describes.
pub fn publish_step(event: PublishEvent) -> (r: PublishAction)
    ensures
        r == publish_step_spec(event),
{
    match event {
        PublishEvent::Scanned { existing, cancelled } => if cancelled {
            PublishAction::Fail(PublishFailure::Cancelled)
        } else if existing {
            PublishAction::Probe
        } else {
            PublishAction::Publish
        },
        PublishEvent::Probed { outcome, cancelled } => if cancelled {
            PublishAction::Fail(PublishFailure::Cancelled)
        } else {
            match outcome {
                ProbeOutcome::Live => PublishAction::Fail(PublishFailure::LiveEndpointConflict),
                ProbeOutcome::DefinitivelyStale => PublishAction::RemoveStale,
                ProbeOutcome::GenerationConflict => PublishAction::Fail(PublishFailure::LiveEndpointConflict),
                ProbeOutcome::Failed => PublishAction::Fail(PublishFailure::Probe),
            }
        },
        PublishEvent::StaleRemoved { removed, cancelled } => if cancelled {
            PublishAction::Fail(PublishFailure::Cancelled)
        } else if !removed {
            PublishAction::Fail(PublishFailure::DescriptorChanged)
        } else {
            PublishAction::Publish
        },
    }
}

/// A descriptor is published over an existing one only after that one proved stale and
/// was removed, and never after a cancellation.
pub proof fn lemma_publish_only_over_stale(event: PublishEvent)
    ensures
        publish_step_spec(event) == PublishAction::Publish ==> (event matches PublishEvent::Scanned {
            existing: false,
            cancelled: false,
        } || event matches PublishEvent::StaleRemoved { removed: true, cancelled: false }),
{
}

} // verus!
