use robrix::download::{is_cache_hit, video_file_name, DownloadProgress};

#[test]
fn file_name_is_last_segment() {
    assert_eq!(video_file_name("https://example.org/media/video.mp4"), "video.mp4");
    assert_eq!(video_file_name("noslash"), "noslash");
    assert_eq!(video_file_name("https://example.org/dir/"), "");
}

#[test]
fn cache_hit_needs_expected_size() {
    assert!(is_cache_hit(Some(100), Some(100)));
    assert!(is_cache_hit(Some(101), Some(100)));
    assert!(!is_cache_hit(Some(99), Some(100)));
    assert!(!is_cache_hit(Some(100), None));
    assert!(!is_cache_hit(None, Some(1)));
}

#[test]
fn total_comes_from_length_then_hint() {
    assert_eq!(DownloadProgress::new(Some(1000), Some(5)).total, 1000);
    assert_eq!(DownloadProgress::new(None, Some(5)).total, 5);
    assert_eq!(DownloadProgress::new(None, None).total, 0);
}

#[test]
fn progress_is_reported_when_it_changes() {
    let mut p = DownloadProgress::new(Some(1000), None);
    assert_eq!(p.on_chunk(5), None);
    assert_eq!(p.on_chunk(100), Some(10));
    assert_eq!(p.on_chunk(0), None);
    assert_eq!(p.on_chunk(890), Some(99));
    assert_eq!(p.on_chunk(10), Some(100));
    assert_eq!(p.on_chunk(500), None); // more than announced: stays at 100
    assert_eq!(p.downloaded, 1505);
}

#[test]
fn unknown_total_reports_nothing() {
    let mut p = DownloadProgress::new(None, None);
    assert_eq!(p.on_chunk(12345), None);
    assert_eq!(p.last_pct, 0);
}

#[test]
fn published_percentages_rise_and_stop_at_100() {
    let mut p = DownloadProgress::new(Some(1000), None);
    let mut published = Vec::new();
    for len in [100u64, 0, 5, 95, 300, 600, 50] {
        if let Some(pct) = p.on_chunk(len) {
            published.push(pct);
        }
    }
    assert_eq!(published, vec![10, 20, 50, 100]);
    assert_eq!(p.downloaded, 1150);
    assert_eq!(p.last_pct, 100);
}

#[test]
fn nothing_published_without_a_total() {
    let mut p = DownloadProgress::new(None, None);
    assert_eq!(p.on_chunk(500), None);
    assert_eq!(p.on_chunk(500), None);
    assert_eq!(p.last_pct, 0);
}
