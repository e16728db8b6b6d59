use vstd::prelude::*;

verus! {

/// How far the capture of a body has come.
#[derive(Clone, Copy, Debug, PartialEq, Eq, Structural)]
pub enum BodyStreamState {
    Pending,
    Streaming,
    Complete,
    Failed,
    Cancelled,
}

/// What is known of a captured body.
#[derive(Clone, Copy, Debug, PartialEq, Eq, Structural)]
pub struct BodyStatus {
    pub stream: BodyStreamState,
    pub observed_bytes: u64,
    pub retained_bytes: usize,
}

/// A body has reached its final state once it completed, failed or was cancelled.
pub open spec fn stream_is_terminal(s: BodyStreamState) -> bool {
    s == BodyStreamState::Complete || s == BodyStreamState::Failed || s == BodyStreamState::Cancelled
}

/// A decoded body is cached only once its capture can no longer change.
pub fn should_cache_decoded_body(status: &BodyStatus) -> (r: bool)
    ensures
        r == stream_is_terminal(status.stream),
{
    matches!(status.stream, BodyStreamState::Complete | BodyStreamState::Failed | BodyStreamState::Cancelled)
}

} // verus!
