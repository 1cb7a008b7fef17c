//! The state shared between the browser engine's callbacks, the widgets and
//! the browser manager: the latest rendered frame, the size and clicks the
//! widget asks for, and the progress of the video download.
use vstd::prelude::*;

verus! {

/// Download state: nothing started.
pub const DOWNLOAD_IDLE: u8 = 0;

/// Download state: in progress.
pub const DOWNLOAD_RUNNING: u8 = 1;

/// Download state: the video is on disk.
pub const DOWNLOAD_COMPLETE: u8 = 2;

/// Download state: the download failed.
pub const DOWNLOAD_FAILED: u8 = 3;

/// A rendered frame: `width * height` pixels, each a `u32` whose bytes are
/// blue, green, red, alpha from the least significant up.
pub struct FrameData {
    pub pixels: Vec<u32>,
    pub width: u32,
    pub height: u32,
}

/// The shared state of the off-screen browser.
pub struct CefSignals {
    /// The engine's context is initialized and browsers can be created.
    pub cef_initialized: bool,
    /// The latest frame not yet taken by the widget.
    pub latest_frame: Option<FrameData>,
    /// The size the widget asks the browser to have (0 where not known).
    pub desired_width: u32,
    pub desired_height: u32,
    /// The requested click; `i32::MIN` in either coordinate means none.
    pub pending_click_x: i32,
    pub pending_click_y: i32,
    /// The page has finished loading.
    pub page_loaded: bool,
    /// The state of the video download and its progress.
    pub video_download: DownloadStatus,
    /// The file name of the downloaded video, once it is on disk.
    pub video_file_name: Option<String>,
    /// The port of the local file server (0 until it runs).
    pub file_server_port: u32,
}

/// The state of the video download, one of `DOWNLOAD_*`, and its progress
/// in percent. Only this module makes one, so every value keeps the bounds.
pub struct DownloadStatus {
    state: u8,
    progress: u8,
}

impl DownloadStatus {
    /// The state is a `DOWNLOAD_*` state and the progress at most 100.
    #[verifier::type_invariant]
    spec fn within_bounds(self) -> bool {
        self.state <= DOWNLOAD_FAILED && self.progress <= 100
    }

    /// The state.
    pub fn state(&self) -> (s: u8)
        ensures
            s == self@.0,
    {
        self.state
    }

    /// The progress in percent.
    pub fn progress(&self) -> (p: u8)
        ensures
            p == self@.1,
    {
        self.progress
    }
}

impl View for DownloadStatus {
    type V = (u8, u8);

    /// The state and the progress.
    closed spec fn view(&self) -> (u8, u8) {
        (self.state, self.progress)
    }
}

/// The click that `x`, `y` describe, if any.
pub open spec fn pending_click(x: i32, y: i32) -> Option<(i32, i32)> {
    if x != i32::MIN && y != i32::MIN {
        Some((x, y))
    } else {
        None
    }
}

/// The shared state after a click at `x`, `y` was requested.
pub open spec fn with_click(s: CefSignals, x: i32, y: i32) -> CefSignals {
    CefSignals { pending_click_x: x, pending_click_y: y, ..s }
}

/// The shared state after the pending click was taken: cleared where there
/// was one.
pub open spec fn click_taken(s: CefSignals) -> CefSignals {
    if pending_click(s.pending_click_x, s.pending_click_y) is Some {
        CefSignals { pending_click_x: i32::MIN, pending_click_y: i32::MIN, ..s }
    } else {
        s
    }
}

/// The shared state after `frame` was stored.
pub open spec fn with_frame(s: CefSignals, frame: FrameData) -> CefSignals {
    CefSignals { latest_frame: Some(frame), ..s }
}

/// The shared state after the latest frame was taken.
pub open spec fn frame_taken(s: CefSignals) -> CefSignals {
    CefSignals { latest_frame: None, ..s }
}

impl CefSignals {
    /// The state before anything happened.
    pub fn new() -> (s: CefSignals)
        ensures
            !s.cef_initialized,
            s.latest_frame is None,
            s.desired_width == 0 && s.desired_height == 0,
            s.pending_click_x == i32::MIN && s.pending_click_y == i32::MIN,
            !s.page_loaded,
            s.video_download@ == (DOWNLOAD_IDLE, 0u8),
            s.video_file_name is None,
            s.file_server_port == 0,
    {
        CefSignals {
            cef_initialized: false,
            latest_frame: None,
            desired_width: 0,
            desired_height: 0,
            pending_click_x: i32::MIN,
            pending_click_y: i32::MIN,
            page_loaded: false,
            video_download: DownloadStatus { state: DOWNLOAD_IDLE, progress: 0 },
            video_file_name: None,
            file_server_port: 0,
        }
    }

    /// Takes the pending click, if both coordinates are set; it is then cleared.
    pub fn take_pending_click(&mut self) -> (c: Option<(i32, i32)>)
        ensures
            c == pending_click(old(self).pending_click_x, old(self).pending_click_y),
            *final(self) == click_taken(*old(self)),
    {
        let x = self.pending_click_x;
        let y = self.pending_click_y;
        if x != i32::MIN && y != i32::MIN {
            self.pending_click_x = i32::MIN;
            self.pending_click_y = i32::MIN;
            Some((x, y))
        } else {
            None
        }
    }

    /// The engine's context is ready.
    pub fn mark_cef_initialized(&mut self)
        ensures
            *final(self) == (CefSignals { cef_initialized: true, ..*old(self) }),
    {
        self.cef_initialized = true;
    }

    /// The browser's page finished loading.
    pub fn mark_page_loaded(&mut self)
        ensures
            *final(self) == (CefSignals { page_loaded: true, ..*old(self) }),
    {
        self.page_loaded = true;
    }

    /// The local file server listens on `port`.
    pub fn set_file_server_port(&mut self, port: u16)
        ensures
            *final(self) == (CefSignals { file_server_port: port as u32, ..*old(self) }),
    {
        self.file_server_port = port as u32;
    }

    /// A download starts: state running, progress 0.
    pub fn begin_download(&mut self)
        ensures
            *final(self) == (CefSignals { video_download: final(self).video_download, ..*old(self) }),
            final(self).video_download@ == (DOWNLOAD_RUNNING, 0u8),
    {
        self.video_download = DownloadStatus { state: DOWNLOAD_RUNNING, progress: 0 };
    }

    /// The download reached `pct` percent (at most 100).
    pub fn record_progress(&mut self, pct: u8)
        requires
            pct <= 100,
        ensures
            *final(self) == (CefSignals { video_download: final(self).video_download, ..*old(self) }),
            final(self).video_download@ == (old(self).video_download@.0, pct),
    {
        proof {
            use_type_invariant(&self.video_download);
        }
        self.video_download = DownloadStatus { state: self.video_download.state, progress: pct };
    }

    /// The video is on disk (downloaded, or found in the cache): its file
    /// name is recorded (`video.mp4` where the path has none), progress is
    /// 100 and the state complete.
    pub fn finish_download(&mut self, file_name: Option<String>)
        ensures
            final(self).video_download@ == (DOWNLOAD_COMPLETE, 100u8),
            final(self).video_file_name matches Some(n) && n@ == match file_name {
                Some(f) => f@,
                None => "video.mp4"@,
            },
            final(self).cef_initialized == old(self).cef_initialized,
            final(self).latest_frame == old(self).latest_frame,
            final(self).desired_width == old(self).desired_width,
            final(self).desired_height == old(self).desired_height,
            final(self).pending_click_x == old(self).pending_click_x,
            final(self).pending_click_y == old(self).pending_click_y,
            final(self).page_loaded == old(self).page_loaded,
            final(self).file_server_port == old(self).file_server_port,
    {
        let name = match file_name {
            Some(f) => f,
            None => "video.mp4".to_owned(),
        };
        self.video_file_name = Some(name);
        self.video_download = DownloadStatus { state: DOWNLOAD_COMPLETE, progress: 100 };
    }

    /// The download failed.
    pub fn fail_download(&mut self)
        ensures
            *final(self) == (CefSignals { video_download: final(self).video_download, ..*old(self) }),
            final(self).video_download@ == (DOWNLOAD_FAILED, old(self).video_download@.1),
    {
        proof {
            use_type_invariant(&self.video_download);
        }
        self.video_download = DownloadStatus {
            state: DOWNLOAD_FAILED,
            progress: self.video_download.progress,
        };
    }
}

/// Takes the latest frame, if there is one; it is then gone.
pub fn take_latest_frame(signals: &mut CefSignals) -> (f: Option<FrameData>)
    ensures
        f == old(signals).latest_frame,
        *final(signals) == frame_taken(*old(signals)),
{
    signals.latest_frame.take()
}

/// Stores a frame as the latest, in place of any not yet taken.
pub fn store_frame(signals: &mut CefSignals, frame: FrameData)
    ensures
        *final(signals) == with_frame(*old(signals), frame),
{
    signals.latest_frame = Some(frame);
}

/// Asks the browser to take the size `width` by `height`.
pub fn set_desired_size(signals: &mut CefSignals, width: u32, height: u32)
    ensures
        *final(signals) == (CefSignals {
            desired_width: width,
            desired_height: height,
            ..*old(signals)
        }),
{
    signals.desired_width = width;
    signals.desired_height = height;
}

/// Asks for a click at `x`, `y`, sent on the next poll.
pub fn request_click(signals: &mut CefSignals, x: i32, y: i32)
    ensures
        *final(signals) == with_click(*old(signals), x, y),
{
    signals.pending_click_x = x;
    signals.pending_click_y = y;
}

/// The download state (one of `DOWNLOAD_*`) and its progress in percent.
pub fn video_download_status(signals: &CefSignals) -> (r: (u8, u8))
    ensures
        r == signals.video_download@,
        r.0 <= DOWNLOAD_FAILED && r.1 <= 100,
{
    proof {
        use_type_invariant(&signals.video_download);
    }
    (signals.video_download.state(), signals.video_download.progress())
}

/// The colour of pixel `i` of a BGRA byte buffer: its four bytes, the first
/// the least significant.
pub open spec fn pixel_at(buffer: Seq<u8>, i: int) -> u32 {
    (buffer[4 * i] as int + 256 * buffer[4 * i + 1] as int + 65536 * buffer[4 * i + 2] as int
        + 16777216 * buffer[4 * i + 3] as int) as u32
}

/// The pixels of a BGRA byte buffer, four bytes each; bytes past the last
/// whole pixel are dropped.
pub fn bgra_pixels(buffer: &[u8]) -> (p: Vec<u32>)
    ensures
        p@.len() == buffer@.len() / 4,
        forall|i: int| 0 <= i < p@.len() ==> p@[i] == pixel_at(buffer@, i),
{
    let len = buffer.len();
    let n = len / 4;
    let mut p: Vec<u32> = Vec::new();
    let mut i: usize = 0;
    while i < n
        invariant
            len == buffer@.len(),
            n == buffer@.len() / 4,
            i <= n,
            p@.len() == i,
            forall|k: int| 0 <= k < i ==> p@[k] == pixel_at(buffer@, k),
        decreases n - i,
    {
        assert(4 * i + 3 < buffer@.len()) by (nonlinear_arith)
            requires
                i < n,
                n == buffer@.len() / 4,
        ;
        let b0 = buffer[4 * i] as u32;
        let b1 = buffer[4 * i + 1] as u32;
        let b2 = buffer[4 * i + 2] as u32;
        let b3 = buffer[4 * i + 3] as u32;
        let v = b0 + 256 * b1 + 65536 * b2 + 16777216 * b3;
        p.push(v);
        i = i + 1;
    }
    p
}

/// What the browser's frame callback does: a frame of the view (not of a
/// pop-up) becomes the latest frame; others are ignored.
pub fn on_frame(signals: &mut CefSignals, is_view: bool, buffer: &[u8], width: u32, height: u32)
    ensures
        !is_view ==> *final(signals) == *old(signals),
        is_view ==> (final(signals).latest_frame matches Some(f) && f.width == width && f.height
            == height && f.pixels@.len() == buffer@.len() / 4 && forall|i: int|
            0 <= i < f.pixels@.len() ==> f.pixels@[i] == pixel_at(buffer@, i)),
        is_view ==> *final(signals) == (CefSignals {
            latest_frame: final(signals).latest_frame,
            ..*old(signals)
        }),
{
    if !is_view {
        return;
    }
    let pixels = bgra_pixels(buffer);
    store_frame(signals, FrameData { pixels, width, height });
}

/// The rectangle the overlay widget reports, and a count of its reports.
pub struct OverlaySignals {
    pub x: i32,
    pub y: i32,
    pub w: u32,
    pub h: u32,
    pub draw_counter: u64,
}

impl OverlaySignals {
    /// No rectangle reported yet.
    pub fn new() -> (s: OverlaySignals)
        ensures
            s.x == 0 && s.y == 0 && s.w == 0 && s.h == 0 && s.draw_counter == 0,
    {
        OverlaySignals { x: 0, y: 0, w: 0, h: 0, draw_counter: 0 }
    }
}

/// The overlay widget reports its rectangle (in logical pixels); the report
/// count goes up by one, wrapping around.
pub fn set_overlay_rect(signals: &mut OverlaySignals, x: i32, y: i32, w: u32, h: u32)
    ensures
        final(signals).x == x,
        final(signals).y == y,
        final(signals).w == w,
        final(signals).h == h,
        final(signals).draw_counter == (if old(signals).draw_counter == u64::MAX {
            0
        } else {
            old(signals).draw_counter + 1
        }),
{
    signals.x = x;
    signals.y = y;
    signals.w = w;
    signals.h = h;
    signals.draw_counter = if signals.draw_counter == u64::MAX {
        0
    } else {
        signals.draw_counter + 1
    };
}

/// A widget reports a new layout size only where it is non-empty and
/// differs from the last one reported; `last` then becomes it.
pub fn report_size_change(last: &mut (u32, u32), w: u32, h: u32) -> (changed: bool)
    ensures
        changed == (w > 0 && h > 0 && (w, h) != *old(last)),
        *final(last) == if changed {
            (w, h)
        } else {
            *old(last)
        },
{
    if w > 0 && h > 0 && (w != last.0 || h != last.1) {
        *last = (w, h);
        true
    } else {
        false
    }
}

/// The overlay widget reports a new rectangle only where it is non-empty
/// and differs from the last one reported; `last` then becomes it.
pub fn report_rect_change(last: &mut (i32, i32, u32, u32), x: i32, y: i32, w: u32, h: u32) -> (changed: bool)
    ensures
        changed == (w > 0 && h > 0 && (x, y, w, h) != *old(last)),
        *final(last) == if changed {
            (x, y, w, h)
        } else {
            *old(last)
        },
{
    if w > 0 && h > 0 && (x != last.0 || y != last.1 || w != last.2 || h != last.3) {
        *last = (x, y, w, h);
        true
    } else {
        false
    }
}

/// Whether a frame of `frame_width` by `frame_height` can be swapped into
/// the existing texture: there is one and it has exactly that size.
pub fn texture_reusable(
    has_texture: bool,
    tex_width: usize,
    tex_height: usize,
    frame_width: usize,
    frame_height: usize,
) -> (b: bool)
    ensures
        b == (has_texture && frame_width == tex_width && frame_height == tex_height),
{
    has_texture && frame_width == tex_width && frame_height == tex_height
}

/// A frame stored and then taken is the frame the widget gets; taking it
/// leaves the rest of the state as storing found it, and a second take
/// finds nothing.
pub proof fn law_frame_taken_once(s: CefSignals, frame: FrameData)
    ensures
        with_frame(s, frame).latest_frame == Some(frame),
        frame_taken(with_frame(s, frame)) == frame_taken(s),
        frame_taken(with_frame(s, frame)).latest_frame is None,
{
}

/// A click requested with both coordinates set is taken exactly once, and
/// one with an unset coordinate is never taken.
pub proof fn law_click_taken_once(s: CefSignals, x: i32, y: i32)
    ensures
        x != i32::MIN && y != i32::MIN ==> pending_click(
            with_click(s, x, y).pending_click_x,
            with_click(s, x, y).pending_click_y,
        ) == Some((x, y)),
        ({
            let t = click_taken(with_click(s, x, y));
            &&& pending_click(t.pending_click_x, t.pending_click_y) is None
            &&& click_taken(t) == t
        }),
        x == i32::MIN || y == i32::MIN ==> pending_click(
            with_click(s, x, y).pending_click_x,
            with_click(s, x, y).pending_click_y,
        ) is None,
{
}

} // verus!
