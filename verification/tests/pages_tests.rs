use robrix::pages::{
    download_failed_message, file_url, navigate_message, play_page_html, progress_message, video_url,
    PLAY_PAGE_HEAD,
};
use robrix::text::{chars_of, decimal_string};

#[test]
fn progress_message_text() {
    assert_eq!(progress_message(42), r#"{"type":"progress","pct":42}"#);
    assert_eq!(progress_message(0), r#"{"type":"progress","pct":0}"#);
}

#[test]
fn navigate_message_text() {
    assert_eq!(navigate_message("file:///a/b.html"), r#"{"type":"navigate","url":"file:///a/b.html"}"#);
}

#[test]
fn failure_message_text() {
    assert_eq!(download_failed_message(), r#"{"type":"error","message":"Video download failed"}"#);
}

#[test]
fn video_url_text() {
    assert_eq!(video_url(8080, "v.mp4"), "http://127.0.0.1:8080/v.mp4");
}

#[test]
fn file_urls() {
    assert_eq!(file_url("C:\\Users\\me\\page.html"), "file:///C:/Users/me/page.html");
    assert_eq!(file_url("/home/me/p.html"), "file:///home/me/p.html");
    assert_eq!(file_url("\\\\?\\C:\\x"), "file:///?/C:/x");
    assert_eq!(file_url(""), "file:///");
}

#[test]
fn play_page_embeds_url() {
    let h = play_page_html("http://127.0.0.1:1/v.mp4");
    assert!(h.starts_with("<!DOCTYPE html>"));
    assert!(h.contains("<source src=\"http://127.0.0.1:1/v.mp4\" type=\"video/mp4\">"));
    assert!(h.starts_with(PLAY_PAGE_HEAD));
    assert!(h.contains("v.oncanplay  = function() { s.textContent"));
}

#[test]
fn decimal_rendering() {
    assert_eq!(decimal_string(0), "0");
    assert_eq!(decimal_string(1234567890), "1234567890");
    assert_eq!(decimal_string(u64::MAX), u64::MAX.to_string());
}

#[test]
fn chars_of_unicode() {
    assert_eq!(chars_of("aé▸"), vec!['a', 'é', '▸']);
}

#[test]
fn file_urls_have_no_backslash() {
    for p in ["C:\\a\\b", "\\\\server\\share\\x.html", "///x"] {
        let u = file_url(p);
        assert!(u.starts_with("file:///"));
        assert!(!u.contains('\\'));
    }
}
