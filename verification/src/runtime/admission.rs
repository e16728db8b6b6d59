use vstd::prelude::*;
use crate::runtime::body::{should_cache_decoded_body, stream_is_terminal, BodyStatus};
use crate::runtime::cache::{
    lookup, without, BodyCacheKey, BodyRepresentation, BodySide, DecodedBodyCache, DecodedView,
};
use crate::runtime::paging::DecodedBytes;

verus! {

/// A request for a window of a captured body.
#[derive(Clone, Copy, Debug, PartialEq, Eq, Structural)]
pub struct BodyContentRequest {
    pub capture_id: u64,
    pub capture_revision: u64,
    pub side: BodySide,
    pub representation: BodyRepresentation,
    pub offset: usize,
    pub length: usize,
}

/// What the runtime reports of a captured body before it is read.
#[derive(Clone, Copy, Debug, PartialEq, Eq, Structural)]
pub struct BodyMetadata {
    pub instance: u64,
    pub capture_id: u64,
    pub capture_revision: u64,
    pub side: BodySide,
    pub status: BodyStatus,
    pub retained_bytes: usize,
}

/// Why a reply of the runtime cannot serve a body request.
#[derive(Clone, Copy, Debug, PartialEq, Eq, Structural)]
pub enum BodyCheckError {
    /// The metadata is of another capture or side.
    MismatchedMetadata,
    /// The snapshot is of another capture or side.
    MismatchedSnapshot,
    /// The snapshot's retained byte count is not the length of its preview.
    InconsistentSnapshotBytes,
    /// The capture moved on to another revision.
    RevisionConflict { capture_id: u64, expected_revision: u64, current_revision: u64 },
}

/// The cache key under which the body of `request` is cached for `instance`.
pub open spec fn request_key(instance: u64, request: BodyContentRequest) -> BodyCacheKey {
    BodyCacheKey {
        instance,
        capture_id: request.capture_id,
        capture_revision: request.capture_revision,
        side: request.side,
        representation: request.representation,
    }
}

/// Accepts the capture's current revision when it is the one the request asked for.
pub fn validate_body_revision(request: &BodyContentRequest, current_revision: u64) -> (r: Result<(), BodyCheckError>)
    ensures
        r == if current_revision == request.capture_revision {
            Ok::<(), BodyCheckError>(())
        } else {
            Err(
                BodyCheckError::RevisionConflict {
                    capture_id: request.capture_id,
                    expected_revision: request.capture_revision,
                    current_revision,
                },
            )
        },
{
    if current_revision == request.capture_revision {
        return Ok(());
    }
    Err(
        BodyCheckError::RevisionConflict {
            capture_id: request.capture_id,
            expected_revision: request.capture_revision,
            current_revision,
        },
    )
}

/// Accepts a capture's current revision unless the caller expected another one.
pub fn validate_capture_revision(capture_id: u64, expected_revision: Option<u64>, current_revision: u64) -> (r: Result<
    (),
    BodyCheckError,
>)
    ensures
        r == match expected_revision {
            Some(expected) if expected != current_revision => Err::<(), BodyCheckError>(
                BodyCheckError::RevisionConflict { capture_id, expected_revision: expected, current_revision },
            ),
            _ => Ok(()),
        },
{
    if let Some(expected) = expected_revision {
        if expected != current_revision {
            return Err(BodyCheckError::RevisionConflict { capture_id, expected_revision: expected, current_revision });
        }
    }
    Ok(())
}

/// Accepts metadata of the requested capture and side at the requested revision.
pub fn validate_body_metadata(request: &BodyContentRequest, reply: &BodyMetadata) -> (r: Result<(), BodyCheckError>)
    ensures
        r == if reply.capture_id != request.capture_id || reply.side != request.side {
            Err::<(), BodyCheckError>(BodyCheckError::MismatchedMetadata)
        } else if reply.capture_revision != request.capture_revision {
            Err(
                BodyCheckError::RevisionConflict {
                    capture_id: request.capture_id,
                    expected_revision: request.capture_revision,
                    current_revision: reply.capture_revision,
                },
            )
        } else {
            Ok(())
        },
{
    if reply.capture_id != request.capture_id || reply.side != request.side {
        return Err(BodyCheckError::MismatchedMetadata);
    }
    validate_body_revision(request, reply.capture_revision)
}

/// Accepts a snapshot of the requested capture and side, whose retained byte count is the
/// length of its preview, at the requested revision.
pub fn validate_body_snapshot(
    request: &BodyContentRequest,
    capture_id: u64,
    side: BodySide,
    capture_revision: u64,
    retained_bytes: usize,
    preview_len: usize,
) -> (r: Result<(), BodyCheckError>)
    ensures
        r == if capture_id != request.capture_id || side != request.side {
            Err::<(), BodyCheckError>(BodyCheckError::MismatchedSnapshot)
        } else if retained_bytes != preview_len {
            Err(BodyCheckError::InconsistentSnapshotBytes)
        } else if capture_revision != request.capture_revision {
            Err(
                BodyCheckError::RevisionConflict {
                    capture_id: request.capture_id,
                    expected_revision: request.capture_revision,
                    current_revision: capture_revision,
                },
            )
        } else {
            Ok(())
        },
{
    if capture_id != request.capture_id || side != request.side {
        return Err(BodyCheckError::MismatchedSnapshot);
    }
    if retained_bytes != preview_len {
        return Err(BodyCheckError::InconsistentSnapshotBytes);
    }
    validate_body_revision(request, capture_revision)
}

/// The request that reads the start of a decoded body, to inspect it.
pub fn decoded_inspection_target(capture_id: u64, capture_revision: u64, side: BodySide) -> (r: BodyContentRequest)
    ensures
        r == (BodyContentRequest {
            capture_id,
            capture_revision,
            side,
            representation: BodyRepresentation::Decoded,
            offset: 0,
            length: 1,
        }),
{
    BodyContentRequest {
        capture_id,
        capture_revision,
        side,
        representation: BodyRepresentation::Decoded,
        offset: 0,
        length: 1,
    }
}

/// How a body read is admitted: under which key, how many bytes it is charged, and the
/// decoded body the cache already holds for it.
pub struct BodyAdmissionPlan {
    pub key: BodyCacheKey,
    pub charge_bytes: usize,
    pub cached: Option<DecodedBytes>,
}

impl BodyAdmissionPlan {
    /// A plan made again after waiting must be admitted anew when it differs from this
    /// one in its key, its charge, or whether it is served from the cache.
    pub fn requires_readmission(&self, current: &Self) -> (r: bool)
        ensures
            r == (self.key != current.key || self.charge_bytes != current.charge_bytes || self.cached.is_some()
                != current.cached.is_some()),
    {
        self.key != current.key || self.charge_bytes != current.charge_bytes || self.cached.is_some()
            != current.cached.is_some()
    }
}

/// Whether a read of `request` may be served from the decoded cache: only decoded bodies
/// whose capture can no longer change are cached.
pub open spec fn cache_eligible(request: BodyContentRequest, status: BodyStatus) -> bool {
    request.representation == BodyRepresentation::Decoded && stream_is_terminal(status.stream)
}

/// Plans the read of `request` on the body described by `metadata`: a cached decoded body
/// is charged its own length, which also marks it as recently used; anything else is
/// charged the retained bytes.
pub fn admission_plan(cache: &mut DecodedBodyCache, request: &BodyContentRequest, metadata: &BodyMetadata) -> (r:
    BodyAdmissionPlan)
    requires
        old(cache).wf(),
    ensures
        final(cache).wf(),
        final(cache)@.capacity == old(cache)@.capacity,
        r.key == request_key(metadata.instance, *request),
        ({
            let found: Option<DecodedView> = if cache_eligible(*request, metadata.status) {
                lookup(old(cache)@.entries, r.key)
            } else {
                None
            };
            match found {
                Some(d) => {
                    &&& r.cached is Some
                    &&& r.cached->0@ == d
                    &&& r.charge_bytes == d.bytes.len()
                    &&& final(cache)@.entries == without(old(cache)@.entries, r.key).push((r.key, d))
                },
                None => {
                    &&& r.cached is None
                    &&& r.charge_bytes == metadata.retained_bytes
                    &&& final(cache)@ == old(cache)@
                },
            }
        }),
{
    let key = BodyCacheKey {
        instance: metadata.instance,
        capture_id: request.capture_id,
        capture_revision: request.capture_revision,
        side: request.side,
        representation: request.representation,
    };
    let cached = if request.representation == BodyRepresentation::Decoded && should_cache_decoded_body(
        &metadata.status,
    ) {
        cache.get_decoded(&key)
    } else {
        None
    };
    let charge_bytes = match &cached {
        Some(decoded) => decoded.bytes.len(),
        None => metadata.retained_bytes,
    };
    BodyAdmissionPlan { key, charge_bytes, cached }
}

} // verus!
