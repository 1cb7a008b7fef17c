use robrix::signals::{
    bgra_pixels, on_frame, report_rect_change, report_size_change, request_click, set_desired_size,
    set_overlay_rect, store_frame, take_latest_frame, texture_reusable, video_download_status, CefSignals,
    FrameData, OverlaySignals, DOWNLOAD_COMPLETE, DOWNLOAD_FAILED, DOWNLOAD_IDLE, DOWNLOAD_RUNNING,
};

#[test]
fn frame_is_taken_once() {
    let mut s = CefSignals::new();
    assert!(take_latest_frame(&mut s).is_none());
    store_frame(&mut s, FrameData { pixels: vec![1, 2], width: 2, height: 1 });
    let f = take_latest_frame(&mut s).unwrap();
    assert_eq!(f.pixels, vec![1, 2]);
    assert_eq!((f.width, f.height), (2, 1));
    assert!(take_latest_frame(&mut s).is_none());
}

#[test]
fn newer_frame_replaces_older() {
    let mut s = CefSignals::new();
    store_frame(&mut s, FrameData { pixels: vec![1], width: 1, height: 1 });
    store_frame(&mut s, FrameData { pixels: vec![9], width: 1, height: 1 });
    assert_eq!(take_latest_frame(&mut s).unwrap().pixels, vec![9]);
}

#[test]
fn bgra_bytes_become_little_endian_pixels() {
    let p = bgra_pixels(&[1, 2, 3, 4, 5, 6, 7, 8, 9]);
    assert_eq!(p, vec![0x04030201, 0x08070605]);
    assert_eq!(p, vec![u32::from_le_bytes([1, 2, 3, 4]), u32::from_le_bytes([5, 6, 7, 8])]);
    assert!(bgra_pixels(&[1, 2, 3]).is_empty());
}

#[test]
fn view_frames_are_stored_popups_are_not() {
    let mut s = CefSignals::new();
    on_frame(&mut s, false, &[0; 8], 2, 1);
    assert!(s.latest_frame.is_none());
    on_frame(&mut s, true, &[255, 0, 0, 255, 0, 255, 0, 255], 2, 1);
    let f = take_latest_frame(&mut s).unwrap();
    assert_eq!(f.pixels, vec![0xFF0000FF, 0xFF00FF00]);
}

#[test]
fn desired_size_is_read_back() {
    let mut s = CefSignals::new();
    set_desired_size(&mut s, 300, 200);
    assert_eq!((s.desired_width, s.desired_height), (300, 200));
}

#[test]
fn click_is_taken_once() {
    let mut s = CefSignals::new();
    assert_eq!(s.take_pending_click(), None);
    request_click(&mut s, -5, 7);
    assert_eq!(s.take_pending_click(), Some((-5, 7)));
    assert_eq!(s.take_pending_click(), None);
}

#[test]
fn download_status_follows_download() {
    let mut s = CefSignals::new();
    assert_eq!(video_download_status(&s), (DOWNLOAD_IDLE, 0));
    s.begin_download();
    assert_eq!(video_download_status(&s), (DOWNLOAD_RUNNING, 0));
    s.record_progress(55);
    assert_eq!(video_download_status(&s), (1, 55));
    s.finish_download(None);
    assert_eq!(video_download_status(&s), (DOWNLOAD_COMPLETE, 100));
    assert_eq!(s.video_file_name.as_deref(), Some("video.mp4"));
    s.fail_download();
    assert_eq!(video_download_status(&s).0, DOWNLOAD_FAILED);
    assert_eq!(DOWNLOAD_FAILED, 3);
}

#[test]
fn overlay_rect_counts_reports_and_wraps() {
    let mut o = OverlaySignals::new();
    set_overlay_rect(&mut o, 1, 2, 3, 4);
    assert_eq!((o.x, o.y, o.w, o.h, o.draw_counter), (1, 2, 3, 4, 1));
    o.draw_counter = u64::MAX;
    set_overlay_rect(&mut o, 1, 2, 3, 4);
    assert_eq!(o.draw_counter, 0);
}

#[test]
fn sizes_are_reported_on_change_only() {
    let mut last = (0u32, 0u32);
    assert!(!report_size_change(&mut last, 0, 100));
    assert!(report_size_change(&mut last, 100, 50));
    assert_eq!(last, (100, 50));
    assert!(!report_size_change(&mut last, 100, 50));
    let mut r = (0i32, 0i32, 0u32, 0u32);
    assert!(report_rect_change(&mut r, -1, 2, 3, 4));
    assert!(!report_rect_change(&mut r, -1, 2, 3, 4));
    assert!(report_rect_change(&mut r, 0, 2, 3, 4));
    assert_eq!(r, (0, 2, 3, 4));
}

#[test]
fn texture_reuse_needs_same_size() {
    assert!(texture_reusable(true, 10, 20, 10, 20));
    assert!(!texture_reusable(true, 10, 20, 11, 20));
    assert!(!texture_reusable(false, 10, 20, 10, 20));
}

#[test]
fn download_status_through_a_download() {
    let mut s = CefSignals::new();
    assert_eq!(video_download_status(&s), (DOWNLOAD_IDLE, 0));
    s.begin_download();
    assert_eq!(video_download_status(&s), (DOWNLOAD_RUNNING, 0));
    s.record_progress(37);
    assert_eq!(video_download_status(&s), (DOWNLOAD_RUNNING, 37));
    s.record_progress(100);
    s.finish_download(None);
    assert_eq!(video_download_status(&s), (DOWNLOAD_COMPLETE, 100));
    assert_eq!(s.video_file_name.as_deref(), Some("video.mp4"));
    s.begin_download();
    s.record_progress(12);
    s.fail_download();
    assert_eq!(video_download_status(&s), (DOWNLOAD_FAILED, 12));
}

#[test]
fn download_status_getters_match_status() {
    let mut s = CefSignals::new();
    s.begin_download();
    s.record_progress(64);
    assert_eq!(s.video_download.state(), DOWNLOAD_RUNNING);
    assert_eq!(s.video_download.progress(), 64);
}
