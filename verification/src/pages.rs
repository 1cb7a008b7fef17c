//! Text the browser manager sends or writes: the JSON messages for the
//! page, the URL of the served video, the playback page, and `file://` URLs.
use vstd::prelude::*;
use crate::text::{append_decimal, chars_of, decimal, push_char};

verus! {

/// The playback page up to the video URL.
pub const PLAY_PAGE_HEAD: &'static str = r#"<!DOCTYPE html>
<html>
<head>
<style>
  body { margin: 0; background: #000; overflow: hidden; }
  video { width: 100vw; height: 100vh; object-fit: contain; display: block; }
  #status { position: fixed; top: 10px; left: 10px; color: lime;
            font: 14px monospace; z-index: 10; }
</style>
</head>
<body>
<div id="status">Loading video...</div>
<video id="v" autoplay muted playsinline loop preload="auto">
  <source src=""#;

/// The playback page after the video URL.
pub const PLAY_PAGE_TAIL: &'static str = r#"" type="video/mp4">
</video>
<script>
var s = document.getElementById('status');
var v = document.getElementById('v');
v.oncanplay  = function() { s.textContent = 'Can play, starting...';
                             v.play().catch(function(e) {
                               s.textContent = 'Play error: ' + e.message;
                             }); };
v.onplaying  = function() { s.textContent = 'Playing!';
                             setTimeout(function() { s.style.display = 'none'; }, 2000); };
v.onwaiting  = function() { s.textContent = 'Buffering...'; s.style.display = 'block'; };
v.onerror    = function() { s.textContent = 'Error: ' +
                             (v.error ? v.error.message : 'unknown'); };
setTimeout(function() {
  if (v.paused) {
    s.textContent = 'Retrying play()...';
    v.play().catch(function(e) {
      s.textContent = 'Retry failed: ' + e.message;
    });
  }
}, 2000);
</script>
</body>
</html>"#;

/// The message telling the page the download progress.
pub open spec fn spec_progress_message(pct: u8) -> Seq<char> {
    "{\"type\":\"progress\",\"pct\":"@ + decimal(pct as nat) + "}"@
}

/// The message telling the page to navigate to `url`.
pub open spec fn spec_navigate_message(url: Seq<char>) -> Seq<char> {
    "{\"type\":\"navigate\",\"url\":\""@ + url + "\"}"@
}

/// The URL at which the local file server serves `file_name`.
pub open spec fn spec_video_url(port: u32, file_name: Seq<char>) -> Seq<char> {
    "http://127.0.0.1:"@ + decimal(port as nat) + "/"@ + file_name
}

/// The playback page for the video at `video_url`.
pub open spec fn spec_play_page(video_url: Seq<char>) -> Seq<char> {
    PLAY_PAGE_HEAD@ + video_url + PLAY_PAGE_TAIL@
}

/// `\` turned into `/`.
pub open spec fn forward_slash(c: char) -> char {
    if c == '\\' {
        '/'
    } else {
        c
    }
}

/// `s` without its leading `/` characters.
pub open spec fn trim_leading_slashes(s: Seq<char>) -> Seq<char>
    decreases s.len(),
{
    if s.len() > 0 && s[0] == '/' {
        trim_leading_slashes(s.drop_first())
    } else {
        s
    }
}

/// The `file://` URL of a local path: backslashes become slashes, leading
/// slashes are dropped, and `file:///` goes in front.
pub open spec fn spec_file_url(path: Seq<char>) -> Seq<char> {
    "file:///"@ + trim_leading_slashes(path.map_values(|c: char| forward_slash(c)))
}

/// The progress message for `pct` percent.
pub fn progress_message(pct: u8) -> (m: String)
    ensures
        m@ == spec_progress_message(pct),
{
    let mut m = String::new();
    m.append("{\"type\":\"progress\",\"pct\":");
    append_decimal(&mut m, pct as u64);
    m.append("}");
    assert(m@ =~= spec_progress_message(pct));
    m
}

/// The navigation message for the page at `url`.
pub fn navigate_message(url: &str) -> (m: String)
    ensures
        m@ == spec_navigate_message(url@),
{
    let mut m = String::new();
    m.append("{\"type\":\"navigate\",\"url\":\"");
    m.append(url);
    m.append("\"}");
    assert(m@ =~= spec_navigate_message(url@));
    m
}

/// The message telling the page that the download failed.
pub fn download_failed_message() -> (m: &'static str)
    ensures
        m@ == "{\"type\":\"error\",\"message\":\"Video download failed\"}"@,
{
    "{\"type\":\"error\",\"message\":\"Video download failed\"}"
}

/// The URL of `file_name` on the local file server at `port`.
pub fn video_url(port: u32, file_name: &str) -> (u: String)
    ensures
        u@ == spec_video_url(port, file_name@),
{
    let mut u = String::new();
    u.append("http://127.0.0.1:");
    append_decimal(&mut u, port as u64);
    u.append("/");
    u.append(file_name);
    assert(u@ =~= spec_video_url(port, file_name@));
    u
}

/// The playback page for the video at `video_url`.
pub fn play_page_html(video_url: &str) -> (h: String)
    ensures
        h@ == spec_play_page(video_url@),
{
    let mut h = String::new();
    h.append(PLAY_PAGE_HEAD);
    h.append(video_url);
    h.append(PLAY_PAGE_TAIL);
    assert(h@ =~= spec_play_page(video_url@));
    h
}

/// The `file://` URL of the local path `path`.
pub fn file_url(path: &str) -> (u: String)
    ensures
        u@ == spec_file_url(path@),
{
    let v = chars_of(path);
    let ghost mapped = path@.map_values(|c: char| forward_slash(c));
    let n = v.len();
    let mut i: usize = 0;
    assert(mapped.skip(0) =~= mapped);
    while i < n && (v[i] == '/' || v[i] == '\\')
        invariant
            i <= n,
            n == v@.len(),
            v@ == path@,
            mapped == path@.map_values(|c: char| forward_slash(c)),
            trim_leading_slashes(mapped) == trim_leading_slashes(mapped.skip(i as int)),
        decreases n - i,
    {
        assert(mapped.skip(i as int).drop_first() =~= mapped.skip(i + 1));
        assert(mapped.skip(i as int)[0] == '/');
        i = i + 1;
    }
    assert(trim_leading_slashes(mapped.skip(i as int)) == mapped.skip(i as int));
    let mut u = String::new();
    u.append("file:///");
    let start = i;
    while i < n
        invariant
            start <= i <= n,
            n == v@.len(),
            v@ == path@,
            mapped == path@.map_values(|c: char| forward_slash(c)),
            u@ == "file:///"@ + mapped.subrange(start as int, i as int),
        decreases n - i,
    {
        let c = v[i];
        let d = if c == '\\' {
            '/'
        } else {
            c
        };
        push_char(&mut u, d);
        assert(mapped.subrange(start as int, i + 1) =~= mapped.subrange(start as int, i as int).push(d));
        i = i + 1;
    }
    assert(mapped.subrange(start as int, n as int) =~= mapped.skip(start as int));
    u
}

/// Dropping leading slashes keeps a suffix of the string.
proof fn lemma_trim_leading_slashes_suffix(s: Seq<char>)
    ensures
        exists|k: int| 0 <= k <= s.len() && trim_leading_slashes(s) == s.skip(k),
    decreases s.len(),
{
    if s.len() > 0 && s[0] == '/' {
        lemma_trim_leading_slashes_suffix(s.drop_first());
        let k = choose|k: int|
            0 <= k <= s.drop_first().len() && trim_leading_slashes(s.drop_first())
                == s.drop_first().skip(k);
        assert(s.drop_first().skip(k) =~= s.skip(k + 1));
    } else {
        assert(s.skip(0) =~= s);
    }
}

/// A `file://` URL starts with `file:///` and holds no backslash.
pub proof fn law_file_url_shape(path: Seq<char>)
    ensures
        spec_file_url(path).take(8) == "file:///"@,
        forall|i: int| 0 <= i < spec_file_url(path).len() ==> spec_file_url(path)[i] != '\\',
{
    reveal_strlit("file:///");
    let mapped = path.map_values(|c: char| forward_slash(c));
    lemma_trim_leading_slashes_suffix(mapped);
    let k = choose|k: int| 0 <= k <= mapped.len() && trim_leading_slashes(mapped) == mapped.skip(k);
    let u = spec_file_url(path);
    assert(u.take(8) =~= "file:///"@);
    assert forall|i: int| 0 <= i < u.len() implies u[i] != '\\' by {
        if i >= 8 {
            assert(u[i] == mapped[k + i - 8]);
        } else {
            assert(u[i] == "file:///"@[i]);
        }
    }
}

} // verus!
