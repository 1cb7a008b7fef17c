use robrix::browser::{BrowserMessage, CefManager, INIT_TIMEOUT_SECS};
use robrix::signals::{request_click, set_desired_size, CefSignals};

fn ready_manager(signals: &mut CefSignals) -> CefManager {
    let mut m = CefManager::new("https://example.org/", 800, 600);
    signals.mark_cef_initialized();
    assert!(m.poll_startup(signals, 0));
    m.browser_created(true);
    m
}

#[test]
fn startup_waits_for_context() {
    let mut s = CefSignals::new();
    let mut m = CefManager::new("https://example.org/", 800, 600);
    assert!(!m.poll_startup(&mut s, 1));
    assert!(!s.cef_initialized);
}

#[test]
fn startup_times_out_and_creates() {
    let mut s = CefSignals::new();
    let mut m = CefManager::new("https://example.org/", 800, 600);
    assert_eq!(INIT_TIMEOUT_SECS, 3);
    assert!(m.poll_startup(&mut s, 3));
    assert!(s.cef_initialized);
    assert_eq!((m.browser_width, m.browser_height), (800, 600));
}

#[test]
fn startup_uses_desired_size() {
    let mut s = CefSignals::new();
    set_desired_size(&mut s, 1024, 768);
    s.mark_cef_initialized();
    let mut m = CefManager::new("https://example.org/", 800, 600);
    assert!(m.poll_startup(&mut s, 0));
    assert_eq!((m.browser_width, m.browser_height), (1024, 768));
}

#[test]
fn no_second_creation_once_created() {
    let mut s = CefSignals::new();
    let mut m = ready_manager(&mut s);
    assert!(!m.poll_startup(&mut s, 100));
}

#[test]
fn failed_creation_is_retried() {
    let mut s = CefSignals::new();
    s.mark_cef_initialized();
    let mut m = CefManager::new("u", 1, 1);
    assert!(m.poll_startup(&mut s, 0));
    m.browser_created(false);
    assert!(m.poll_startup(&mut s, 0));
}

#[test]
fn resize_once_per_change() {
    let mut s = CefSignals::new();
    let mut m = ready_manager(&mut s);
    set_desired_size(&mut s, 640, 480);
    assert_eq!(m.poll(&mut s).resize, Some((640, 480)));
    assert_eq!(m.poll(&mut s).resize, None);
    set_desired_size(&mut s, 0, 480);
    assert_eq!(m.poll(&mut s).resize, None);
}

#[test]
fn click_is_sent_once() {
    let mut s = CefSignals::new();
    let mut m = ready_manager(&mut s);
    request_click(&mut s, 10, 20);
    assert_eq!(m.poll(&mut s).click, Some((10, 20)));
    assert_eq!(m.poll(&mut s).click, None);
    assert_eq!(s.pending_click_x, i32::MIN);
}

#[test]
fn click_with_unset_coordinate_is_not_sent() {
    let mut s = CefSignals::new();
    let mut m = ready_manager(&mut s);
    request_click(&mut s, i32::MIN, 20);
    assert_eq!(m.poll(&mut s).click, None);
    assert_eq!(s.pending_click_y, 20);
}

#[test]
fn click_before_browser_is_dropped() {
    let mut s = CefSignals::new();
    let mut m = CefManager::new("u", 1, 1);
    request_click(&mut s, 1, 2);
    assert_eq!(m.poll(&mut s).click, None);
    assert_eq!(s.pending_click_x, i32::MIN);
}

#[test]
fn progress_messages_only_on_change() {
    let mut s = CefSignals::new();
    let mut m = ready_manager(&mut s);
    s.begin_download();
    s.record_progress(42);
    assert!(m.poll(&mut s).message.is_none()); // page not loaded yet
    s.mark_page_loaded();
    assert!(matches!(m.poll(&mut s).message, Some(BrowserMessage::Progress(42))));
    assert!(m.poll(&mut s).message.is_none());
    s.record_progress(43);
    assert!(matches!(m.poll(&mut s).message, Some(BrowserMessage::Progress(43))));
}

#[test]
fn complete_download_plays_video_once_server_runs() {
    let mut s = CefSignals::new();
    let mut m = ready_manager(&mut s);
    s.mark_page_loaded();
    s.finish_download(Some("clip.mp4".to_string()));
    assert!(m.poll(&mut s).message.is_none()); // no server yet
    s.set_file_server_port(8080);
    match m.poll(&mut s).message {
        Some(BrowserMessage::PlayVideo { port, file_name }) => {
            assert_eq!(port, 8080);
            assert_eq!(file_name, "clip.mp4");
        }
        _ => panic!("expected the video"),
    }
    assert!(m.video_url_sent);
    assert!(m.poll(&mut s).message.is_none());
}

#[test]
fn failed_download_is_reported_once() {
    let mut s = CefSignals::new();
    let mut m = ready_manager(&mut s);
    s.mark_page_loaded();
    s.fail_download();
    assert!(matches!(m.poll(&mut s).message, Some(BrowserMessage::DownloadFailed)));
    assert!(m.poll(&mut s).message.is_none());
}
