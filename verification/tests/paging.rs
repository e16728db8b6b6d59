use fluxcope::runtime::paging::{
    is_utf8_boundary, page_decoded_body, page_raw_chunks, DecodedBytes, MisalignedOffset,
};

fn decoded(bytes: &[u8], chain: &[&str], limited: bool) -> DecodedBytes {
    DecodedBytes {
        bytes: bytes.to_vec(),
        encoding_chain: chain.iter().map(|c| c.to_string()).collect(),
        output_limited: limited,
    }
}

#[test]
fn raw_page_slices_across_preview_chunks_without_flattening_before_transport() {
    let retained = format!("{}abcdef{}", "x".repeat(64 * 1_024 - 3), "y".repeat(65_000));
    let bytes = retained.as_bytes();
    let chunks: Vec<Vec<u8>> = bytes.chunks(64 * 1_024).map(|c| c.to_vec()).collect();
    assert!(chunks.len() > 1, "fixture must cross chunk nodes");

    let page = page_raw_chunks(&chunks, 64 * 1_024 - 4, 8);
    assert_eq!(page.content, b"xabcdefy");
    assert_eq!(page.start, 64 * 1_024 - 4);
    assert_eq!(page.content.len(), 8);
    assert_eq!(page.next_offset(), Some(64 * 1_024 + 4));
}

#[test]
fn raw_page_is_byte_exact_and_clamps_offsets_beyond_the_retained_body() {
    let chunks = vec![vec![0xff, 0x00, 0x80, b'a']];
    let page = page_raw_chunks(&chunks, 1, 2);
    assert_eq!(page.content, vec![0x00, 0x80]);
    assert_eq!(page.start, 1);
    assert_eq!(page.total_bytes, 4);
    assert_eq!(page.next_offset(), Some(3));

    let beyond = page_raw_chunks(&chunks, usize::MAX, 2);
    assert!(beyond.content.is_empty());
    assert_eq!(beyond.start, 4);
    assert_eq!(beyond.total_bytes, 4);
    assert_eq!(beyond.next_offset(), None);
}

#[test]
fn decoded_utf8_rejects_only_a_misaligned_start_and_reports_nearest_boundaries() {
    let body = decoded("中a".as_bytes(), &["gzip"], false);
    let error = page_decoded_body(&body, 1, 2).expect_err("misaligned UTF-8 start");
    assert_eq!(error, MisalignedOffset { offset: 1, nearest_start: 0, nearest_end: 3 });
}

#[test]
fn decoded_utf8_treats_length_as_a_maximum_and_aligns_actual_end_down() {
    let body = decoded("a中".as_bytes(), &[], false);
    let page = page_decoded_body(&body, 0, 2).expect("aligned UTF-8 start");
    assert_eq!(page.content, b"a");
    assert_eq!((page.start, page.content.len()), (0, 1));
    assert_eq!(page.next_offset(), Some(1));

    let final_page = page_decoded_body(&body, 1, 64).expect("final aligned page");
    assert_eq!(final_page.content, "中".as_bytes());
    assert_eq!((final_page.start, final_page.content.len()), (1, 3));
    assert_eq!(final_page.next_offset(), None);
}

#[test]
fn decoded_utf8_short_page_advances_to_the_next_character_boundary() {
    let body = decoded("中a".as_bytes(), &[], false);
    let page = page_decoded_body(&body, 0, 1).expect("short decoded page");
    assert_eq!(page.content, "中".as_bytes());
    assert_eq!((page.start, page.content.len(), page.total_bytes), (0, 3, 4));
    assert_eq!(page.next_offset(), Some(3));
}

#[test]
fn decoded_valid_utf8_aligns_ranges_even_without_a_textual_media_type() {
    let body = decoded("中".as_bytes(), &[], false);
    let error = page_decoded_body(&body, 1, 1).expect_err("valid UTF-8 must use character boundaries");
    assert_eq!(error, MisalignedOffset { offset: 1, nearest_start: 0, nearest_end: 3 });
}

#[test]
fn decoded_binary_ranges_remain_byte_exact_without_utf8_alignment() {
    let body = decoded(&[0xff, 0x00, 0x80, b'a'], &["gzip"], false);
    let page = page_decoded_body(&body, 1, 2).expect("decoded binary range");
    assert_eq!(page.content, vec![0x00, 0x80]);
    assert_eq!(page.start, 1);
}

#[test]
fn decoded_page_owns_only_its_bounded_window() {
    let body = decoded(&vec![b'x'; 1024 * 1024], &[], false);
    let page = page_decoded_body(&body, 128, 64).expect("decoded page");
    assert_eq!(page.content.len(), 64);
    assert_eq!(page.total_bytes, 1024 * 1024);
}

#[test]
fn utf8_boundaries_are_character_starts_and_the_end() {
    let bytes = "a中".as_bytes().to_vec();
    assert!(is_utf8_boundary(&bytes, 0));
    assert!(is_utf8_boundary(&bytes, 1));
    assert!(!is_utf8_boundary(&bytes, 2));
    assert!(!is_utf8_boundary(&bytes, 3));
    assert!(is_utf8_boundary(&bytes, 4));
    assert!(!is_utf8_boundary(&bytes, 5));
}
