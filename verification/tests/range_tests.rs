use robrix::file_server::{
    plan_response, read_request_head, request_head_of_text, requested_range, response_header_text,
    BodyTransfer, ResponsePlan, MAX_RESPONSE_BYTES, STREAM_CHUNK_BYTES,
};
use robrix::file_server::{connection_step, ConnectionEvent, ConnectionStep};
use robrix::http_range::parse_range;

#[test]
fn range_with_start_and_end() {
    assert_eq!(parse_range("Range: bytes=0-1023", 5000), (0, 1023));
}

#[test]
fn range_open_ended() {
    assert_eq!(parse_range("Range: bytes=100-", 5000), (100, 4999));
}

#[test]
fn range_without_start_starts_at_zero() {
    assert_eq!(parse_range("Range: bytes=-500", 5000), (0, 500));
}

#[test]
fn range_is_clamped_to_last_byte() {
    assert_eq!(parse_range("Range: bytes=0-99999", 5000), (0, 4999));
    assert_eq!(parse_range("Range: bytes=6000-7000", 5000), (4999, 4999));
}

#[test]
fn range_without_equals_or_dash_is_whole_file() {
    assert_eq!(parse_range("Range: bytes", 5000), (0, 4999));
    assert_eq!(parse_range("Range: bytes=abc", 5000), (0, 4999));
}

#[test]
fn range_start_is_not_trimmed_on_its_own() {
    // " 10 - 20 " is trimmed as a whole; "10 " does not parse, " 20" is trimmed.
    assert_eq!(parse_range("range: bytes= 10 - 20 ", 100), (0, 20));
}

#[test]
fn range_numbers_take_a_plus_sign() {
    assert_eq!(parse_range("Range: bytes=+5-+9", 100), (5, 9));
}

#[test]
fn range_bad_end_means_last_byte() {
    assert_eq!(parse_range("Range: bytes=5-x", 100), (5, 99));
}

#[test]
fn range_overflowing_start_means_zero() {
    assert_eq!(parse_range("Range: bytes=99999999999999999999-5", 100), (0, 5));
}

#[test]
fn range_trims_unicode_white_space() {
    assert_eq!(parse_range("Range: bytes=\u{3000}7-8\u{a0}", 100), (7, 8));
}

#[test]
fn range_on_one_byte_file() {
    assert_eq!(parse_range("Range: bytes=3-9", 1), (0, 0));
}

#[test]
fn request_head_of_get_with_range() {
    let h = read_request_head(b"GET /video.mp4 HTTP/1.1\r\nHost: x\r\nRange: bytes=0-10\r\n\r\n");
    assert_eq!(h.request_line, "GET /video.mp4 HTTP/1.1");
    assert!(!h.is_head);
    assert_eq!(h.range_line.as_deref(), Some("Range: bytes=0-10"));
    assert_eq!(requested_range(&h, 5000), (0, 10));
}

#[test]
fn request_head_of_head_request_with_upper_case_range() {
    let h = read_request_head(b"HEAD / HTTP/1.1\r\nRANGE: bytes=5-\r\n");
    assert!(h.is_head);
    assert_eq!(h.range_line.as_deref(), Some("RANGE: bytes=5-"));
    assert_eq!(requested_range(&h, 50), (5, 49));
}

#[test]
fn request_head_without_range_asks_whole_file() {
    let h = read_request_head(b"GET / HTTP/1.1\nHost: y\n");
    assert_eq!(h.request_line, "GET / HTTP/1.1");
    assert!(h.range_line.is_none());
    assert_eq!(requested_range(&h, 77), (0, 76));
}

#[test]
fn request_head_decodes_invalid_utf8_lossily() {
    let h = read_request_head(b"GET /\xff HTTP/1.1\r\n");
    assert_eq!(h.request_line, "GET /\u{FFFD} HTTP/1.1");
}

#[test]
fn request_head_of_empty_text_is_question_mark() {
    let h = request_head_of_text("");
    assert_eq!(h.request_line, "?");
    assert!(!h.is_head);
    assert!(h.range_line.is_none());
}

#[test]
fn request_head_takes_first_range_line() {
    let h = request_head_of_text("GET / HTTP/1.1\r\nrange: bytes=1-2\r\nRange: bytes=3-4\r\n");
    assert_eq!(h.range_line.as_deref(), Some("range: bytes=1-2"));
}

#[test]
fn plan_for_small_range_is_partial() {
    let p = plan_response(true, 0, 1023, 5000);
    assert_eq!(p, ResponsePlan { partial: true, start: 0, end: 1023, length: 1024, size: 5000 });
    assert_eq!(p.status_code(), 206);
}

#[test]
fn plan_for_whole_small_file_is_ok() {
    let p = plan_response(false, 0, 4999, 5000);
    assert_eq!(p, ResponsePlan { partial: false, start: 0, end: 4999, length: 5000, size: 5000 });
    assert_eq!(p.status_code(), 200);
}

#[test]
fn plan_caps_at_four_mebibytes() {
    let p = plan_response(false, 0, 9_999_999, 10_000_000);
    assert_eq!(MAX_RESPONSE_BYTES, 4 * 1024 * 1024);
    assert_eq!(p.end, 4_194_303);
    assert_eq!(p.length, 4_194_304);
    assert!(p.partial);
}

#[test]
fn header_for_partial_response() {
    let p = plan_response(true, 0, 1023, 5000);
    assert_eq!(
        response_header_text(&p),
        "HTTP/1.1 206 Partial Content\r\nContent-Type: video/mp4\r\nContent-Length: 1024\r\nContent-Range: bytes 0-1023/5000\r\nAccept-Ranges: bytes\r\n\r\n"
    );
}

#[test]
fn header_for_full_response() {
    let p = plan_response(false, 0, 4999, 5000);
    assert_eq!(
        response_header_text(&p),
        "HTTP/1.1 200 OK\r\nContent-Type: video/mp4\r\nContent-Length: 5000\r\nAccept-Ranges: bytes\r\n\r\n"
    );
}

#[test]
fn body_transfer_reads_in_chunks() {
    let mut t = BodyTransfer::new(100_000);
    assert_eq!(t.next_read_len(STREAM_CHUNK_BYTES), 65536);
    t.record_sent(65536);
    assert_eq!(t.remaining, 34_464);
    assert_eq!(t.next_read_len(STREAM_CHUNK_BYTES), 34_464);
    t.record_sent(34_464);
    assert!(t.is_done());
    assert_eq!(t.sent, 100_000);
}

#[test]
fn response_stays_within_file() {
    // law: whatever range is asked, the plan lies within the file and the cap.
    for &(start, end, size) in &[(0u64, 0u64, 1u64), (10, 20, 21), (0, 5_000_000, 6_000_000), (7, 7, 100)] {
        for &has_range in &[false, true] {
            let p = plan_response(has_range, start, end, size);
            assert_eq!(p.start, start);
            assert!(p.start <= p.end && p.end < size);
            assert_eq!(p.length, p.end - p.start + 1);
            assert!(p.length <= MAX_RESPONSE_BYTES);
            assert_eq!(!p.partial, !has_range && p.length == size);
        }
    }
}

#[test]
fn requested_range_is_read_back() {
    // law: `Range: bytes=A-B` inside the file is read as (A, B).
    for &(a, b, size) in &[(0u64, 0u64, 1u64), (0, 1023, 5000), (17, 4999, 5000), (123456789, 987654321, u64::MAX)] {
        assert_eq!(parse_range(&format!("Range: bytes={}-{}", a, b), size), (a, b));
    }
}

#[test]
fn connection_closes_on_failed_or_empty_read() {
    assert_eq!(connection_step(ConnectionEvent::RequestRead { len: None }), ConnectionStep::Close);
    assert_eq!(connection_step(ConnectionEvent::RequestRead { len: Some(0) }), ConnectionStep::Close);
    assert_eq!(connection_step(ConnectionEvent::RequestRead { len: Some(120) }), ConnectionStep::Respond);
}

#[test]
fn head_request_gets_no_body() {
    assert_eq!(
        connection_step(ConnectionEvent::HeaderSent { ok: true, is_head: true }),
        ConnectionStep::ReadRequest
    );
    assert_eq!(
        connection_step(ConnectionEvent::HeaderSent { ok: true, is_head: false }),
        ConnectionStep::SendBody
    );
    assert_eq!(
        connection_step(ConnectionEvent::HeaderSent { ok: false, is_head: true }),
        ConnectionStep::Close
    );
}

#[test]
fn connection_stays_open_after_a_body() {
    assert_eq!(connection_step(ConnectionEvent::BodySent { ok: true }), ConnectionStep::ReadRequest);
    assert_eq!(connection_step(ConnectionEvent::BodySent { ok: false }), ConnectionStep::Close);
}
