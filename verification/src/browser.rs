//! The decisions of the off-screen browser manager on each poll: when to
//! create the browser, when to resize it, which click to send, and which
//! message about the video download to send to its page.
use vstd::prelude::*;
use crate::signals::{
    click_taken, pending_click, CefSignals, DOWNLOAD_COMPLETE, DOWNLOAD_FAILED, DOWNLOAD_RUNNING,
};

verus! {

/// Seconds after which the manager stops waiting for the engine to report
/// its context ready, and goes on as if it had.
pub const INIT_TIMEOUT_SECS: u64 = 3;

/// The browser manager's own state. The engine objects themselves (message
/// loop, runtime, web view) are held by the caller; `webview_created` says
/// whether the web view exists.
pub struct CefManager {
    pub browser_url: String,
    pub browser_width: u32,
    pub browser_height: u32,
    pub webview_created: bool,
    /// The page was told to play the video, or that the download failed.
    pub video_url_sent: bool,
    /// The last download percentage sent to the page.
    pub last_sent_progress: u8,
}

/// A message for the browser's page about the video download.
pub enum BrowserMessage {
    /// The download reached this percentage.
    Progress(u8),
    /// The video is served at port `port` under `file_name`: write the
    /// playback page and navigate to it.
    PlayVideo { port: u32, file_name: String },
    /// The download failed.
    DownloadFailed,
}

/// The view of a `BrowserMessage`.
pub enum MessageView {
    Progress(u8),
    PlayVideo { port: u32, file_name: Seq<char> },
    DownloadFailed,
}

/// The view of an optional message.
pub open spec fn message_view(m: Option<BrowserMessage>) -> Option<MessageView> {
    match m {
        None => None,
        Some(BrowserMessage::Progress(p)) => Some(MessageView::Progress(p)),
        Some(BrowserMessage::PlayVideo { port, file_name }) => Some(
            MessageView::PlayVideo { port, file_name: file_name@ },
        ),
        Some(BrowserMessage::DownloadFailed) => Some(MessageView::DownloadFailed),
    }
}

/// What one poll asks the caller to do with the web view, in this order:
/// resize it, click it (move, press, release), send a message.
pub struct PollCommands {
    pub resize: Option<(u32, u32)>,
    pub click: Option<(i32, i32)>,
    pub message: Option<BrowserMessage>,
}

/// The resize a poll asks for: to the desired size, where the web view
/// exists and the desired size is known and differs from its size.
pub open spec fn spec_resize(webview: bool, width: u32, height: u32, desired_width: u32, desired_height: u32) -> Option<(u32, u32)> {
    if webview && desired_width > 0 && desired_height > 0 && (desired_width != width
        || desired_height != height) {
        Some((desired_width, desired_height))
    } else {
        None
    }
}

/// The message a poll sends, once the web view exists, its page has loaded
/// and the page has not yet been sent to the video or told of a failure:
/// while downloading, the percentage where it changed since the last one
/// sent; when complete, the video to play once the file server runs and
/// the file is known; when failed, the failure.
pub open spec fn spec_message(
    webview: bool,
    video_url_sent: bool,
    page_loaded: bool,
    state: u8,
    progress: u8,
    last_sent_progress: u8,
    port: u32,
    file_name: Option<Seq<char>>,
) -> Option<MessageView> {
    if !webview || video_url_sent || !page_loaded {
        None
    } else if state == DOWNLOAD_RUNNING {
        if progress != last_sent_progress {
            Some(MessageView::Progress(progress))
        } else {
            None
        }
    } else if state == DOWNLOAD_COMPLETE {
        if port > 0 {
            match file_name {
                Some(f) => Some(MessageView::PlayVideo { port, file_name: f }),
                None => None,
            }
        } else {
            None
        }
    } else if state == DOWNLOAD_FAILED {
        Some(MessageView::DownloadFailed)
    } else {
        None
    }
}

/// The view of an optional string.
pub open spec fn opt_str_view(o: Option<String>) -> Option<Seq<char>> {
    match o {
        Some(s) => Some(s@),
        None => None,
    }
}

impl CefManager {
    /// A manager for a browser that will show `url` at `width` by `height`
    /// until the widget reports its size.
    pub fn new(url: &str, width: u32, height: u32) -> (m: CefManager)
        ensures
            m.browser_url@ == url@,
            m.browser_width == width,
            m.browser_height == height,
            !m.webview_created,
            !m.video_url_sent,
            m.last_sent_progress == 0,
    {
        CefManager {
            browser_url: url.to_owned(),
            browser_width: width,
            browser_height: height,
            webview_created: false,
            video_url_sent: false,
            last_sent_progress: 0,
        }
    }

    /// The start of a poll, `elapsed_secs` after the manager was made. Before
    /// the web view exists: if the engine has not reported its context ready
    /// within `INIT_TIMEOUT_SECS`, it is taken as ready; once ready, the
    /// browser is to be created (the result), at the desired size where the
    /// widget reported one.
    pub fn poll_startup(&mut self, signals: &mut CefSignals, elapsed_secs: u64) -> (create: bool)
        ensures
            ({
                let ready = old(signals).cef_initialized || (!old(self).webview_created
                    && elapsed_secs >= INIT_TIMEOUT_SECS);
                let sized = create && old(signals).desired_width > 0
                    && old(signals).desired_height > 0;
                &&& *final(signals) == (CefSignals { cef_initialized: ready, ..*old(signals) })
                &&& create == (!old(self).webview_created && ready)
                &&& final(self).browser_width == if sized {
                    old(signals).desired_width
                } else {
                    old(self).browser_width
                }
                &&& final(self).browser_height == if sized {
                    old(signals).desired_height
                } else {
                    old(self).browser_height
                }
                &&& final(self).browser_url == old(self).browser_url
                &&& final(self).webview_created == old(self).webview_created
                &&& final(self).video_url_sent == old(self).video_url_sent
                &&& final(self).last_sent_progress == old(self).last_sent_progress
            }),
    {
        if !self.webview_created && !signals.cef_initialized {
            if elapsed_secs >= INIT_TIMEOUT_SECS {
                signals.mark_cef_initialized();
            }
        }
        if !self.webview_created && signals.cef_initialized {
            let dw = signals.desired_width;
            let dh = signals.desired_height;
            if dw > 0 && dh > 0 {
                self.browser_width = dw;
                self.browser_height = dh;
            }
            true
        } else {
            false
        }
    }

    /// The caller tried to create the browser; `created` says whether it exists now.
    pub fn browser_created(&mut self, created: bool)
        ensures
            final(self).webview_created == (old(self).webview_created || created),
            final(self).browser_url == old(self).browser_url,
            final(self).browser_width == old(self).browser_width,
            final(self).browser_height == old(self).browser_height,
            final(self).video_url_sent == old(self).video_url_sent,
            final(self).last_sent_progress == old(self).last_sent_progress,
    {
        if created {
            self.webview_created = true;
        }
    }

    /// The rest of a poll: the resize, the pending click (taken whether or
    /// not a web view is there to receive it), and the download message.
    pub fn poll(&mut self, signals: &mut CefSignals) -> (c: PollCommands)
        ensures
            c.resize == spec_resize(
                old(self).webview_created,
                old(self).browser_width,
                old(self).browser_height,
                old(signals).desired_width,
                old(signals).desired_height,
            ),
            (final(self).browser_width, final(self).browser_height) == match c.resize {
                Some(d) => d,
                None => (old(self).browser_width, old(self).browser_height),
            },
            c.click == if old(self).webview_created {
                pending_click(old(signals).pending_click_x, old(signals).pending_click_y)
            } else {
                None
            },
            *final(signals) == click_taken(*old(signals)),
            message_view(c.message) == spec_message(
                old(self).webview_created,
                old(self).video_url_sent,
                old(signals).page_loaded,
                old(signals).video_download@.0,
                old(signals).video_download@.1,
                old(self).last_sent_progress,
                old(signals).file_server_port,
                opt_str_view(old(signals).video_file_name),
            ),
            final(self).video_url_sent == (old(self).video_url_sent || (c.message matches Some(m)
                && !(m is Progress))),
            final(self).last_sent_progress == match c.message {
                Some(BrowserMessage::Progress(p)) => p,
                _ => old(self).last_sent_progress,
            },
            final(self).browser_url == old(self).browser_url,
            final(self).webview_created == old(self).webview_created,
    {
        let mut resize = None;
        if self.webview_created {
            let dw = signals.desired_width;
            let dh = signals.desired_height;
            if dw > 0 && dh > 0 && (dw != self.browser_width || dh != self.browser_height) {
                self.browser_width = dw;
                self.browser_height = dh;
                resize = Some((dw, dh));
            }
        }
        let pending = signals.take_pending_click();
        let click = if self.webview_created {
            pending
        } else {
            None
        };
        let mut message = None;
        if self.webview_created && !self.video_url_sent && signals.page_loaded {
            let state = signals.video_download.state();
            if state == DOWNLOAD_RUNNING {
                let pct = signals.video_download.progress();
                if pct != self.last_sent_progress {
                    self.last_sent_progress = pct;
                    message = Some(BrowserMessage::Progress(pct));
                }
            } else if state == DOWNLOAD_COMPLETE {
                let port = signals.file_server_port;
                if port > 0 {
                    match &signals.video_file_name {
                        Some(name) => {
                            message = Some(
                                BrowserMessage::PlayVideo { port, file_name: name.clone() },
                            );
                            self.video_url_sent = true;
                        },
                        None => {},
                    }
                }
            } else if state == DOWNLOAD_FAILED {
                message = Some(BrowserMessage::DownloadFailed);
                self.video_url_sent = true;
            }
        }
        PollCommands { resize, click, message }
    }
}

/// After a resize, the browser has the desired size, so the next poll
/// with the same desired size asks for none.
pub proof fn law_resize_settles(webview: bool, width: u32, height: u32, dw: u32, dh: u32)
    ensures
        spec_resize(webview, width, height, dw, dh) matches Some(d) ==> spec_resize(
            webview,
            d.0,
            d.1,
            dw,
            dh,
        ) is None,
{
}

/// Once the web view exists, a non-zero desired size that differs from the
/// browser's size in width or in height (either one alone is enough) is
/// asked for exactly; in every other case no resize is asked for.
pub proof fn law_resize_follows_desired(webview: bool, width: u32, height: u32, dw: u32, dh: u32)
    ensures
        webview && dw > 0 && dh > 0 && dw != width ==> spec_resize(webview, width, height, dw, dh)
            == Some((dw, dh)),
        webview && dw > 0 && dh > 0 && dh != height ==> spec_resize(webview, width, height, dw, dh)
            == Some((dw, dh)),
        !webview || dw == 0 || dh == 0 || (dw == width && dh == height) ==> spec_resize(
            webview,
            width,
            height,
            dw,
            dh,
        ) is None,
{
}

/// Once the page was sent to the video or told of a failure, no poll sends
/// it anything more; and a percentage already sent is not sent again.
pub proof fn law_messages_stop(
    webview: bool,
    page_loaded: bool,
    state: u8,
    progress: u8,
    port: u32,
    file_name: Option<Seq<char>>,
)
    ensures
        spec_message(webview, true, page_loaded, state, progress, progress, port, file_name)
            is None,
        spec_message(webview, false, page_loaded, state, progress, progress, port, file_name)
            matches Some(m) ==> !(m is Progress),
{
}

} // verus!
