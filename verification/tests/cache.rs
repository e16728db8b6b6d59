use fluxcope::runtime::admission::{
    admission_plan, decoded_inspection_target, validate_body_metadata, validate_body_revision, validate_body_snapshot,
    validate_capture_revision, BodyCheckError, BodyContentRequest, BodyMetadata,
};
use fluxcope::runtime::body::{BodyStatus, BodyStreamState};
use fluxcope::runtime::cache::{
    BodyCacheKey, BodyRepresentation, BodySide, CaptureChange, CaptureChangeError, CaptureChangeKind,
    DecodedBodyCache,
};
use fluxcope::runtime::paging::DecodedBytes;

fn scope(port: u16) -> u64 {
    port as u64
}

fn key(instance: u64, revision: u64, side: BodySide) -> BodyCacheKey {
    BodyCacheKey {
        instance,
        capture_id: 7,
        capture_revision: revision,
        side,
        representation: BodyRepresentation::Decoded,
    }
}

fn body(bytes: &[u8]) -> Vec<u8> {
    bytes.to_vec()
}

#[test]
fn decoded_cache_keys_exact_generation_revision_side_and_representation() {
    let mut cache = DecodedBodyCache::new(64);
    let first = key(scope(19010), 3, BodySide::Request);
    let other_generation = key(scope(19011), 3, BodySide::Request);
    let other_revision = key(scope(19010), 4, BodySide::Request);
    let other_side = key(scope(19010), 3, BodySide::Response);
    cache.insert(first, body(b"first"));

    assert_eq!(cache.get(&first).as_deref(), Some(b"first".as_slice()));
    assert!(cache.get(&other_generation).is_none());
    assert!(cache.get(&other_revision).is_none());
    assert!(cache.get(&other_side).is_none());
}

#[test]
fn decoded_cache_preserves_utf8_validity_and_decode_metadata() {
    let mut cache = DecodedBodyCache::new(64);
    let cache_key = key(scope(19010), 3, BodySide::Response);
    cache.insert_decoded(
        cache_key,
        DecodedBytes { bytes: vec![0xff, 0x00], encoding_chain: vec!["gzip".to_owned()], output_limited: true },
    );

    let cached = cache.get_decoded(&cache_key).expect("decoded cache hit");
    assert!(!cached.is_utf8());
    assert_eq!(cached.encoding_chain, ["gzip"]);
    assert!(cached.output_limited);
}

#[test]
fn decoded_cache_replacement_and_lru_eviction_are_byte_accounted() {
    let mut cache = DecodedBodyCache::new(9);
    let a = key(scope(19010), 1, BodySide::Request);
    let b = key(scope(19010), 2, BodySide::Request);
    let c = key(scope(19010), 3, BodySide::Request);
    cache.insert(a, body(b"aaa"));
    cache.insert(b, body(b"bbb"));
    cache.insert(c, body(b"ccc"));
    assert_eq!(cache.snapshot().1, 9);
    assert_eq!(cache.get(&a).as_deref(), Some(b"aaa".as_slice()));

    cache.insert(c, body(b"CCCC"));
    assert_eq!(cache.snapshot().1, 7);
    assert!(cache.get(&b).is_none(), "least-recently-used entry evicted");
    assert_eq!(cache.get(&a).as_deref(), Some(b"aaa".as_slice()));
    assert_eq!(cache.get(&c).as_deref(), Some(b"CCCC".as_slice()));
}

#[test]
fn capture_changes_purge_obsolete_cache_entries_and_a_feed_gap_invalidates_all() {
    let instance = scope(19010);
    let mut cache = DecodedBodyCache::new(64);
    let rev1 = key(instance, 1, BodySide::Request);
    let rev2 = key(instance, 2, BodySide::Request);
    let unrelated = BodyCacheKey { capture_id: 8, ..rev1 };
    for key in [rev1, rev2, unrelated] {
        cache.insert(key, body(b"body"));
    }
    cache.apply_change(CaptureChange { epoch: 1, sequence: 7, revision: 2, kind: CaptureChangeKind::RecordUpdated });
    assert!(cache.get(&rev1).is_none());
    assert!(cache.get(&rev2).is_some());
    assert!(cache.get(&unrelated).is_some());

    for kind in [CaptureChangeKind::RetentionEviction, CaptureChangeKind::ExplicitDelete] {
        cache.insert(rev2, body(b"body"));
        cache.apply_change(CaptureChange { epoch: 2, sequence: 7, revision: 2, kind });
        assert!(cache.get(&rev2).is_none(), "{kind:?}");
    }

    cache.insert(rev2, body(b"body"));
    cache.apply_change(CaptureChange { epoch: 3, sequence: 0, revision: 0, kind: CaptureChangeKind::Clear });
    assert_eq!(cache.snapshot().0, 0);

    cache.insert(unrelated, body(b"body"));
    cache.apply_feed_error(CaptureChangeError::Gap { expected_epoch: 4, oldest_available_epoch: 9 });
    assert_eq!(cache.snapshot().0, 0);
    assert_eq!(cache.snapshot().1, 0);
}

#[test]
fn a_body_larger_than_the_budget_is_not_cached_and_drops_the_old_one() {
    let mut cache = DecodedBodyCache::new(4);
    let a = key(1, 1, BodySide::Request);
    cache.insert(a, body(b"ok"));
    assert_eq!(cache.snapshot(), (1, 2));
    cache.insert(a, body(b"too long"));
    assert_eq!(cache.snapshot(), (0, 0));
    assert!(cache.get(&a).is_none());
}

#[test]
fn a_body_that_fits_is_found_right_after_insert_even_when_it_evicts_everything_else() {
    let mut cache = DecodedBodyCache::new(5);
    let a = key(1, 1, BodySide::Request);
    let b = key(1, 2, BodySide::Response);
    cache.insert(a, body(b"abc"));
    cache.insert(b, body(b"defgh"));
    assert_eq!(cache.snapshot(), (1, 5));
    assert_eq!(cache.get(&b).as_deref(), Some(b"defgh".as_slice()));
    assert!(cache.get(&a).is_none());
}

#[test]
fn a_get_refreshes_recency_so_the_other_body_is_evicted() {
    let mut cache = DecodedBodyCache::new(6);
    let a = key(1, 1, BodySide::Request);
    let b = key(1, 2, BodySide::Request);
    let c = key(1, 3, BodySide::Request);
    cache.insert(a, body(b"aa"));
    cache.insert(b, body(b"bb"));
    assert!(cache.get(&a).is_some());
    cache.insert(c, body(b"cccc"));
    assert_eq!(cache.snapshot(), (2, 6));
    assert!(cache.get(&b).is_none());
    assert!(cache.get(&a).is_some());
}

#[test]
fn admitted_keeps_only_the_current_revision_and_the_last_change_wins() {
    let mut cache = DecodedBodyCache::new(64);
    let rev1 = key(1, 1, BodySide::Request);
    let rev2 = key(1, 2, BodySide::Request);
    cache.insert(rev1, body(b"one"));
    cache.insert(rev2, body(b"two"));
    let changes = vec![
        CaptureChange { epoch: 1, sequence: 7, revision: 2, kind: CaptureChangeKind::ExplicitDelete },
        CaptureChange { epoch: 2, sequence: 7, revision: 1, kind: CaptureChangeKind::Admitted },
    ];
    cache.apply_changes(&changes);
    assert_eq!(cache.snapshot(), (1, 3));
    assert_eq!(cache.get(&rev1).as_deref(), Some(b"one".as_slice()));
    assert!(cache.get(&rev2).is_none());
}

#[test]
fn a_clear_followed_by_an_update_leaves_nothing_cached() {
    let mut cache = DecodedBodyCache::new(64);
    let rev1 = key(1, 1, BodySide::Request);
    cache.insert(rev1, body(b"one"));
    let changes = vec![
        CaptureChange { epoch: 1, sequence: 0, revision: 0, kind: CaptureChangeKind::Clear },
        CaptureChange { epoch: 2, sequence: 7, revision: 1, kind: CaptureChangeKind::RecordUpdated },
    ];
    cache.apply_changes(&changes);
    assert_eq!(cache.snapshot(), (0, 0));
}

fn request(representation: BodyRepresentation) -> BodyContentRequest {
    BodyContentRequest { capture_id: 7, capture_revision: 3, side: BodySide::Response, representation, offset: 0, length: 16 }
}

fn metadata(stream: BodyStreamState, retained_bytes: usize) -> BodyMetadata {
    BodyMetadata {
        instance: 19010,
        capture_id: 7,
        capture_revision: 3,
        side: BodySide::Response,
        status: BodyStatus { stream, observed_bytes: retained_bytes as u64, retained_bytes },
        retained_bytes,
    }
}

#[test]
fn a_cached_decoded_body_is_charged_its_own_length() {
    let mut cache = DecodedBodyCache::new(64);
    let req = request(BodyRepresentation::Decoded);
    let cache_key = BodyCacheKey {
        instance: 19010,
        capture_id: 7,
        capture_revision: 3,
        side: BodySide::Response,
        representation: BodyRepresentation::Decoded,
    };
    cache.insert(cache_key, body(b"decoded"));
    let plan = admission_plan(&mut cache, &req, &metadata(BodyStreamState::Complete, 100));
    assert_eq!(plan.key, cache_key);
    assert_eq!(plan.charge_bytes, 7);
    assert_eq!(plan.cached.map(|d| d.bytes), Some(b"decoded".to_vec()));
}

#[test]
fn an_unfinished_or_raw_body_is_charged_its_retained_bytes() {
    let mut cache = DecodedBodyCache::new(64);
    let cache_key = BodyCacheKey {
        instance: 19010,
        capture_id: 7,
        capture_revision: 3,
        side: BodySide::Response,
        representation: BodyRepresentation::Decoded,
    };
    cache.insert(cache_key, body(b"decoded"));
    let streaming = admission_plan(&mut cache, &request(BodyRepresentation::Decoded), &metadata(BodyStreamState::Streaming, 100));
    assert_eq!(streaming.charge_bytes, 100);
    assert!(streaming.cached.is_none());
    let raw = admission_plan(&mut cache, &request(BodyRepresentation::Raw), &metadata(BodyStreamState::Complete, 40));
    assert_eq!(raw.charge_bytes, 40);
    assert!(raw.cached.is_none());
    assert_eq!(raw.key.representation, BodyRepresentation::Raw);
    assert!(streaming.requires_readmission(&raw));
    assert!(!raw.requires_readmission(&admission_plan(
        &mut cache,
        &request(BodyRepresentation::Raw),
        &metadata(BodyStreamState::Complete, 40)
    )));
}

#[test]
fn body_replies_are_checked_against_the_request() {
    let req = request(BodyRepresentation::Raw);
    assert_eq!(validate_body_revision(&req, 3), Ok(()));
    assert_eq!(
        validate_body_revision(&req, 4),
        Err(BodyCheckError::RevisionConflict { capture_id: 7, expected_revision: 3, current_revision: 4 })
    );
    let mut reply = metadata(BodyStreamState::Complete, 10);
    assert_eq!(validate_body_metadata(&req, &reply), Ok(()));
    reply.side = BodySide::Request;
    assert_eq!(validate_body_metadata(&req, &reply), Err(BodyCheckError::MismatchedMetadata));
    assert_eq!(validate_body_snapshot(&req, 7, BodySide::Response, 3, 10, 10), Ok(()));
    assert_eq!(validate_body_snapshot(&req, 8, BodySide::Response, 3, 10, 10), Err(BodyCheckError::MismatchedSnapshot));
    assert_eq!(
        validate_body_snapshot(&req, 7, BodySide::Response, 3, 10, 9),
        Err(BodyCheckError::InconsistentSnapshotBytes)
    );
    assert_eq!(
        validate_body_snapshot(&req, 7, BodySide::Response, 5, 10, 10),
        Err(BodyCheckError::RevisionConflict { capture_id: 7, expected_revision: 3, current_revision: 5 })
    );
    assert_eq!(validate_capture_revision(7, None, 9), Ok(()));
    assert_eq!(validate_capture_revision(7, Some(9), 9), Ok(()));
    assert_eq!(
        validate_capture_revision(7, Some(2), 9),
        Err(BodyCheckError::RevisionConflict { capture_id: 7, expected_revision: 2, current_revision: 9 })
    );
    let target = decoded_inspection_target(7, 3, BodySide::Request);
    assert_eq!((target.offset, target.length, target.representation), (0, 1, BodyRepresentation::Decoded));
}

#[test]
fn a_read_after_a_sequence_of_operations_gives_the_body_last_inserted_or_nothing() {
    let mut cache = DecodedBodyCache::new(8);
    let a = key(1, 3, BodySide::Request);
    let b = key(1, 3, BodySide::Response);
    cache.insert(a, body(b"aaa"));
    cache.insert(b, body(b"bbb"));
    assert_eq!(cache.get(&a).as_deref(), Some(b"aaa".as_slice()));
    cache.insert(a, body(b"AA"));
    cache.remove(&b);
    assert!(cache.get(&b).is_none());
    assert_eq!(cache.get(&a).as_deref(), Some(b"AA".as_slice()));
    cache.insert(b, body(b"bbbbbb"));
    assert_eq!(cache.get(&a).as_deref(), Some(b"AA".as_slice()));
    cache.insert(b, body(b"bbbbbbbbb"));
    assert!(cache.get(&b).is_none());
    assert_eq!(cache.get(&a).as_deref(), Some(b"AA".as_slice()));
    cache.apply_feed_error(CaptureChangeError::Gap { expected_epoch: 2, oldest_available_epoch: 5 });
    assert!(cache.get(&a).is_none());
    assert_eq!(cache.snapshot(), (0, 0));
}
