//! The native-window overlay backend: a browser in a child window placed
//! over the widget's rectangle. One poll is a dialogue with the caller, who
//! does the window-system work: `OverlayBackend::step` takes what the
//! caller found out and says what to do next.
use vstd::prelude::*;

verus! {

/// Platform-agnostic interface for web-view rendering backends.
pub trait WebViewBackend {
    /// Sets the page to show.
    fn load_url(&mut self, url: &str);

    /// Places the view at `x`, `y` with the given size.
    fn set_bounds(&mut self, x: i32, y: i32, width: u32, height: u32);

    /// Shows or hides the view.
    fn set_visible(&mut self, visible: bool);

    /// Sends a message to the page.
    fn send_message(&self, message: &str);

    /// Drives the backend.
    fn poll(&mut self);
}

/// A rectangle: position and size, in logical pixels.
#[derive(PartialEq, Eq, Structural, Clone, Copy, Debug)]
pub struct Bounds {
    pub x: i32,
    pub y: i32,
    pub w: u32,
    pub h: u32,
}

/// Where a poll of the overlay stands.
#[derive(PartialEq, Eq, Structural, Clone, Copy, Debug)]
pub enum OverlayStage {
    /// No poll under way.
    Idle,
    /// Waiting for the parent window to be looked up.
    AwaitParent,
    /// Waiting for the browser to be created.
    AwaitBrowser,
    /// Waiting for the first placement of the new browser window.
    AwaitFirstPlacement,
    /// Waiting for the browser window's handle to be looked up.
    AwaitHandle,
    /// Waiting for the browser window to be moved to the new rectangle.
    AwaitPlacement,
    /// Waiting for the browser window to be shown or hidden.
    AwaitVisibility,
}

/// Polls in a row on which the widget's draw counter has not moved, after
/// which the widget counts as no longer drawn (another tab is in front) and
/// the browser window is hidden. The widget draws on every frame it is on
/// screen, so a handful of quiet polls already means it is gone; ten leaves
/// room for frames that are skipped while it is still shown.
pub const HIDE_AFTER_IDLE_POLLS: u64 = 10;

/// What the caller reports to the overlay backend.
#[derive(PartialEq, Eq, Structural, Clone, Copy, Debug)]
pub enum OverlayEvent {
    /// A poll starts: whether the engine's context is ready, the rectangle
    /// the widget last reported, and the widget's draw counter.
    Poll { initialized: bool, rect: Bounds, draw_counter: u64 },
    /// The result of looking up the parent window (nonzero where found).
    ParentFound(Option<isize>),
    /// The result of creating the browser: whether it exists, and its window
    /// handle where the engine gave one.
    BrowserCreated { created: bool, hwnd: Option<isize> },
    /// The result of looking up the browser's window handle.
    HandleFound(Option<isize>),
    /// The requested placement was done.
    Placed,
    /// The requested show or hide was done.
    VisibilitySet,
}

/// What the overlay backend asks the caller to do next.
#[derive(PartialEq, Eq, Structural, Clone, Copy, Debug)]
pub enum OverlayRequest {
    /// Look up the parent window; answer with `ParentFound`.
    FindParent,
    /// Create the browser as a child of `parent`; answer with `BrowserCreated`.
    CreateBrowser { parent: isize },
    /// Look up the browser's window handle; answer with `HandleFound`.
    QueryHandle,
    /// Move the browser window to `bounds` (logical pixels, to be scaled by
    /// the parent's DPI factor); answer with `Placed`.
    Reposition { hwnd: isize, bounds: Bounds },
    /// Show the browser window; answer with `VisibilitySet`.
    Show { hwnd: isize },
    /// Hide the browser window; answer with `VisibilitySet`.
    Hide { hwnd: isize },
    /// The poll is over.
    Finished,
}

/// The overlay backend's state. The engine objects are held by the caller;
/// `webview_created` says whether the browser exists. The window starts
/// hidden and is shown only once the widget draws: `last_draw_counter` is
/// the draw counter seen at the last poll, and `idle_polls` counts the polls
/// in a row (up to `HIDE_AFTER_IDLE_POLLS`) on which it had not moved.
pub struct OverlayBackend {
    pub url: String,
    pub webview_created: bool,
    pub cef_hwnd: Option<isize>,
    pub parent_hwnd: Option<isize>,
    pub last_bounds: Bounds,
    pub currently_visible: bool,
    pub last_draw_counter: u64,
    pub idle_polls: u64,
    pub stage: OverlayStage,
    pub poll_initialized: bool,
    pub poll_rect: Bounds,
}

/// The state of the backend as polls see it.
pub struct OverlayModel {
    pub url: Seq<char>,
    pub webview: bool,
    pub cef: Option<isize>,
    pub parent: Option<isize>,
    pub last: Bounds,
    pub visible: bool,
    pub counter: u64,
    pub idle: u64,
    pub stage: OverlayStage,
    pub initialized: bool,
    pub rect: Bounds,
}

impl OverlayBackend {
    /// The model of this backend.
    pub open spec fn model(&self) -> OverlayModel {
        OverlayModel {
            url: self.url@,
            webview: self.webview_created,
            cef: self.cef_hwnd,
            parent: self.parent_hwnd,
            last: self.last_bounds,
            visible: self.currently_visible,
            counter: self.last_draw_counter,
            idle: self.idle_polls,
            stage: self.stage,
            initialized: self.poll_initialized,
            rect: self.poll_rect,
        }
    }
}

/// The windows are linked as polls make them: a child window only for a
/// browser, a browser only under a found parent, and a pending creation or
/// handle lookup only where its parent or browser is there.
pub open spec fn overlay_linked(m: OverlayModel) -> bool {
    &&& m.cef is Some ==> m.webview
    &&& m.webview ==> m.parent is Some
    &&& m.stage == OverlayStage::AwaitBrowser ==> m.parent is Some
    &&& m.stage == OverlayStage::AwaitHandle ==> m.webview
}

/// Whether the widget counts as drawn: its counter moved within the last
/// `HIDE_AFTER_IDLE_POLLS` polls.
pub open spec fn drawn_lately(m: OverlayModel) -> bool {
    m.idle < HIDE_AFTER_IDLE_POLLS
}

/// The idle count after a poll that saw `draw_counter`: back to zero where
/// the counter moved, else one more, up to `HIDE_AFTER_IDLE_POLLS`.
pub open spec fn next_idle(m: OverlayModel, draw_counter: u64) -> u64 {
    if draw_counter != m.counter {
        0
    } else if m.idle < HIDE_AFTER_IDLE_POLLS {
        (m.idle + 1) as u64
    } else {
        HIDE_AFTER_IDLE_POLLS
    }
}

/// The last step of a poll: show the browser window where the widget was
/// drawn lately and it is hidden, hide it where the widget was not and it is
/// shown.
pub open spec fn visibility_step(m: OverlayModel) -> (OverlayModel, OverlayRequest) {
    match m.cef {
        Some(h) => if drawn_lately(m) && !m.visible {
            (
                OverlayModel { visible: true, stage: OverlayStage::AwaitVisibility, ..m },
                OverlayRequest::Show { hwnd: h },
            )
        } else if !drawn_lately(m) && m.visible {
            (
                OverlayModel { visible: false, stage: OverlayStage::AwaitVisibility, ..m },
                OverlayRequest::Hide { hwnd: h },
            )
        } else {
            (OverlayModel { stage: OverlayStage::Idle, ..m }, OverlayRequest::Finished)
        },
        None => (OverlayModel { stage: OverlayStage::Idle, ..m }, OverlayRequest::Finished),
    }
}

/// Move the browser window where the rectangle is non-empty and differs
/// from where it was last put; then see to its visibility.
pub open spec fn place_step(m: OverlayModel) -> (OverlayModel, OverlayRequest) {
    match m.cef {
        Some(h) => if m.rect.w > 0 && m.rect.h > 0 && m.rect != m.last {
            (
                OverlayModel { last: m.rect, stage: OverlayStage::AwaitPlacement, ..m },
                OverlayRequest::Reposition { hwnd: h, bounds: m.rect },
            )
        } else {
            visibility_step(m)
        },
        None => (OverlayModel { stage: OverlayStage::Idle, ..m }, OverlayRequest::Finished),
    }
}

/// Look up the browser's window handle where the browser exists without one.
pub open spec fn handle_step(m: OverlayModel) -> (OverlayModel, OverlayRequest) {
    if m.cef is None && m.webview {
        (OverlayModel { stage: OverlayStage::AwaitHandle, ..m }, OverlayRequest::QueryHandle)
    } else {
        place_step(m)
    }
}

/// Create the browser once the context is ready and the parent is known.
pub open spec fn create_step(m: OverlayModel) -> (OverlayModel, OverlayRequest) {
    if !m.webview && m.initialized && m.parent is Some {
        (
            OverlayModel { stage: OverlayStage::AwaitBrowser, ..m },
            OverlayRequest::CreateBrowser { parent: m.parent->0 },
        )
    } else {
        handle_step(m)
    }
}

/// The end of a poll, where a report does not answer the pending request.
pub open spec fn finish(m: OverlayModel) -> (OverlayModel, OverlayRequest) {
    (OverlayModel { stage: OverlayStage::Idle, ..m }, OverlayRequest::Finished)
}

/// One step of a poll: the new model and the next request. A poll records
/// the draw counter, then looks up the parent window until it is known;
/// reports that do not answer the pending request end the poll.
pub open spec fn overlay_step(m: OverlayModel, e: OverlayEvent) -> (OverlayModel, OverlayRequest) {
    match e {
        OverlayEvent::Poll { initialized, rect, draw_counter } => {
            let m1 = OverlayModel {
                initialized,
                rect,
                counter: draw_counter,
                idle: next_idle(m, draw_counter),
                ..m
            };
            if m1.parent is None {
                (OverlayModel { stage: OverlayStage::AwaitParent, ..m1 }, OverlayRequest::FindParent)
            } else {
                create_step(m1)
            }
        },
        OverlayEvent::ParentFound(p) => if m.stage == OverlayStage::AwaitParent {
            create_step(
                match p {
                    Some(h) => OverlayModel { parent: Some(h), ..m },
                    None => m,
                },
            )
        } else {
            finish(m)
        },
        OverlayEvent::BrowserCreated { created, hwnd } => if m.stage == OverlayStage::AwaitBrowser {
            if !created {
                handle_step(m)
            } else {
                let m1 = OverlayModel { webview: true, ..m };
                match hwnd {
                    Some(h) => {
                        let m2 = OverlayModel { cef: Some(h), ..m1 };
                        if m2.rect.w > 0 && m2.rect.h > 0 {
                            (
                                OverlayModel {
                                    last: m2.rect,
                                    stage: OverlayStage::AwaitFirstPlacement,
                                    ..m2
                                },
                                OverlayRequest::Reposition { hwnd: h, bounds: m2.rect },
                            )
                        } else {
                            handle_step(m2)
                        }
                    },
                    None => handle_step(m1),
                }
            }
        } else {
            finish(m)
        },
        OverlayEvent::HandleFound(h) => if m.stage == OverlayStage::AwaitHandle {
            match h {
                Some(x) => place_step(OverlayModel { cef: Some(x), last: Bounds { x: 0, y: 0, w: 0, h: 0 }, ..m }),
                None => place_step(m),
            }
        } else {
            finish(m)
        },
        OverlayEvent::Placed => if m.stage == OverlayStage::AwaitFirstPlacement {
            handle_step(m)
        } else if m.stage == OverlayStage::AwaitPlacement {
            visibility_step(m)
        } else {
            finish(m)
        },
        OverlayEvent::VisibilitySet => finish(m),
    }
}

impl OverlayBackend {
    /// A backend for a browser showing `url`, not yet created, hidden until
    /// the widget draws.
    pub fn new(url: &str) -> (b: OverlayBackend)
        ensures
            b.model() == (OverlayModel {
                url: url@,
                webview: false,
                cef: None,
                parent: None,
                last: Bounds { x: 0, y: 0, w: 0, h: 0 },
                visible: false,
                counter: 0,
                idle: HIDE_AFTER_IDLE_POLLS,
                stage: OverlayStage::Idle,
                initialized: false,
                rect: Bounds { x: 0, y: 0, w: 0, h: 0 },
            }),
            overlay_linked(b.model()),
    {
        OverlayBackend {
            url: url.to_owned(),
            webview_created: false,
            cef_hwnd: None,
            parent_hwnd: None,
            last_bounds: Bounds { x: 0, y: 0, w: 0, h: 0 },
            currently_visible: false,
            last_draw_counter: 0,
            idle_polls: HIDE_AFTER_IDLE_POLLS,
            stage: OverlayStage::Idle,
            poll_initialized: false,
            poll_rect: Bounds { x: 0, y: 0, w: 0, h: 0 },
        }
    }

    fn finish(&mut self) -> (r: OverlayRequest)
        ensures
            (final(self).model(), r) == finish(old(self).model()),
    {
        self.stage = OverlayStage::Idle;
        OverlayRequest::Finished
    }

    fn show_or_hide(&mut self) -> (r: OverlayRequest)
        ensures
            (final(self).model(), r) == visibility_step(old(self).model()),
    {
        match self.cef_hwnd {
            Some(h) => {
                let drawn = self.idle_polls < HIDE_AFTER_IDLE_POLLS;
                if drawn && !self.currently_visible {
                    self.currently_visible = true;
                    self.stage = OverlayStage::AwaitVisibility;
                    OverlayRequest::Show { hwnd: h }
                } else if !drawn && self.currently_visible {
                    self.currently_visible = false;
                    self.stage = OverlayStage::AwaitVisibility;
                    OverlayRequest::Hide { hwnd: h }
                } else {
                    self.finish()
                }
            },
            None => self.finish(),
        }
    }

    fn place(&mut self) -> (r: OverlayRequest)
        ensures
            (final(self).model(), r) == place_step(old(self).model()),
    {
        let rect = self.poll_rect;
        match self.cef_hwnd {
            Some(h) => {
                if rect.w > 0 && rect.h > 0 && (rect.x != self.last_bounds.x || rect.y
                    != self.last_bounds.y || rect.w != self.last_bounds.w || rect.h
                    != self.last_bounds.h) {
                    self.last_bounds = rect;
                    self.stage = OverlayStage::AwaitPlacement;
                    OverlayRequest::Reposition { hwnd: h, bounds: rect }
                } else {
                    self.show_or_hide()
                }
            },
            None => self.finish(),
        }
    }

    fn handle(&mut self) -> (r: OverlayRequest)
        ensures
            (final(self).model(), r) == handle_step(old(self).model()),
    {
        if self.cef_hwnd.is_none() && self.webview_created {
            self.stage = OverlayStage::AwaitHandle;
            OverlayRequest::QueryHandle
        } else {
            self.place()
        }
    }

    fn create(&mut self) -> (r: OverlayRequest)
        ensures
            (final(self).model(), r) == create_step(old(self).model()),
    {
        match self.parent_hwnd {
            Some(p) => {
                if !self.webview_created && self.poll_initialized {
                    self.stage = OverlayStage::AwaitBrowser;
                    return OverlayRequest::CreateBrowser { parent: p };
                }
            },
            None => {},
        }
        self.handle()
    }

    /// One step of a poll: takes the caller's report and returns the next
    /// request (see `overlay_step`).
    pub fn step(&mut self, event: OverlayEvent) -> (r: OverlayRequest)
        ensures
            (final(self).model(), r) == overlay_step(old(self).model(), event),
            overlay_linked(old(self).model()) ==> overlay_linked(final(self).model()),
    {
        proof {
            if overlay_linked(self.model()) {
                law_step_keeps_linked(self.model(), event);
            }
        }
        match event {
            OverlayEvent::Poll { initialized, rect, draw_counter } => {
                if draw_counter != self.last_draw_counter {
                    self.idle_polls = 0;
                } else if self.idle_polls < HIDE_AFTER_IDLE_POLLS {
                    self.idle_polls = self.idle_polls + 1;
                } else {
                    self.idle_polls = HIDE_AFTER_IDLE_POLLS;
                }
                self.last_draw_counter = draw_counter;
                self.poll_initialized = initialized;
                self.poll_rect = rect;
                if self.parent_hwnd.is_none() {
                    self.stage = OverlayStage::AwaitParent;
                    OverlayRequest::FindParent
                } else {
                    self.create()
                }
            },
            OverlayEvent::ParentFound(p) => {
                if self.stage == OverlayStage::AwaitParent {
                    if p.is_some() {
                        self.parent_hwnd = p;
                    }
                    self.create()
                } else {
                    self.finish()
                }
            },
            OverlayEvent::BrowserCreated { created, hwnd } => {
                if self.stage == OverlayStage::AwaitBrowser {
                    if !created {
                        self.handle()
                    } else {
                        self.webview_created = true;
                        match hwnd {
                            Some(h) => {
                                self.cef_hwnd = Some(h);
                                let rect = self.poll_rect;
                                if rect.w > 0 && rect.h > 0 {
                                    self.last_bounds = rect;
                                    self.stage = OverlayStage::AwaitFirstPlacement;
                                    OverlayRequest::Reposition { hwnd: h, bounds: rect }
                                } else {
                                    self.handle()
                                }
                            },
                            None => self.handle(),
                        }
                    }
                } else {
                    self.finish()
                }
            },
            OverlayEvent::HandleFound(h) => {
                if self.stage == OverlayStage::AwaitHandle {
                    match h {
                        Some(x) => {
                            self.cef_hwnd = Some(x);
                            self.last_bounds = Bounds { x: 0, y: 0, w: 0, h: 0 };
                            self.place()
                        },
                        None => self.place(),
                    }
                } else {
                    self.finish()
                }
            },
            OverlayEvent::Placed => {
                if self.stage == OverlayStage::AwaitFirstPlacement {
                    self.handle()
                } else if self.stage == OverlayStage::AwaitPlacement {
                    self.show_or_hide()
                } else {
                    self.finish()
                }
            },
            OverlayEvent::VisibilitySet => self.finish(),
        }
    }

    /// Sets the page to show; the browser itself is not navigated, and the
    /// rest of the state is kept.
    pub fn load_url(&mut self, url: &str)
        ensures
            final(self).model() == (OverlayModel { url: url@, ..old(self).model() }),
    {
        self.url = url.to_owned();
    }
}

/// Installs a fresh backend for `url` in `slot`.
pub fn init(slot: &mut Option<OverlayBackend>, url: &str)
    ensures
        *final(slot) matches Some(b) && b.model() == (OverlayModel {
            url: url@,
            webview: false,
            cef: None,
            parent: None,
            last: Bounds { x: 0, y: 0, w: 0, h: 0 },
            visible: false,
            counter: 0,
            idle: HIDE_AFTER_IDLE_POLLS,
            stage: OverlayStage::Idle,
            initialized: false,
            rect: Bounds { x: 0, y: 0, w: 0, h: 0 },
        }),
{
    *slot = Some(OverlayBackend::new(url));
}

/// Drives the installed backend with `event`; without one, the poll is over at once.
pub fn poll(slot: &mut Option<OverlayBackend>, event: OverlayEvent) -> (r: OverlayRequest)
    ensures
        match *old(slot) {
            None => *final(slot) is None && r == OverlayRequest::Finished,
            Some(b) => *final(slot) matches Some(b2) && (b2.model(), r) == overlay_step(
                b.model(),
                event,
            ),
        },
{
    match slot {
        Some(b) => b.step(event),
        None => OverlayRequest::Finished,
    }
}

/// Every step keeps the windows linked, so every backend that `new` makes
/// and `step` drives is linked.
pub proof fn law_step_keeps_linked(m: OverlayModel, e: OverlayEvent)
    requires
        overlay_linked(m),
    ensures
        overlay_linked(overlay_step(m, e).0),
{
}

/// Once the browser window exists, a poll whose rectangle is non-empty and
/// differs from the last placed one in any of its position or size asks to
/// move the window to exactly that rectangle, which becomes the last placed.
pub proof fn law_moved_rect_is_placed(m: OverlayModel, initialized: bool, rect: Bounds, draw_counter: u64)
    requires
        overlay_linked(m),
        m.cef is Some,
        rect.w > 0,
        rect.h > 0,
        rect.x != m.last.x || rect.y != m.last.y || rect.w != m.last.w || rect.h != m.last.h,
    ensures
        ({
            let (m1, r) = overlay_step(m, OverlayEvent::Poll { initialized, rect, draw_counter });
            &&& r == OverlayRequest::Reposition { hwnd: m.cef->0, bounds: rect }
            &&& m1.last == rect
            &&& m1.stage == OverlayStage::AwaitPlacement
        }),
{
}

/// A poll with the rectangle where the browser window already is asks for
/// no move once the windows and the browser exist.
pub proof fn law_no_move_without_change(m: OverlayModel, initialized: bool, draw_counter: u64)
    requires
        overlay_linked(m),
        m.cef is Some,
    ensures
        !(overlay_step(m, OverlayEvent::Poll { initialized, rect: m.last, draw_counter }).1 is Reposition),
{
}

/// After a move, the same rectangle asks for no further move.
pub proof fn law_move_settles(m: OverlayModel, initialized: bool, rect: Bounds, draw_counter: u64)
    requires
        overlay_linked(m),
        m.cef is Some,
    ensures
        ({
            let (m1, r) = overlay_step(m, OverlayEvent::Poll { initialized, rect, draw_counter });
            r is Reposition ==> m1.last == rect && !(overlay_step(
                OverlayModel { stage: OverlayStage::Idle, ..m1 },
                OverlayEvent::Poll { initialized, rect, draw_counter },
            ).1 is Reposition)
        }),
{
}

/// Every poll records the draw counter it was given.
pub proof fn law_poll_records_counter(m: OverlayModel, initialized: bool, rect: Bounds, draw_counter: u64)
    ensures
        overlay_step(m, OverlayEvent::Poll { initialized, rect, draw_counter }).0.counter == draw_counter,
{
}

/// A poll on which the draw counter has moved never hides the window, and
/// shows it where it is hidden (once the windows and the browser exist and
/// no move is due).
pub proof fn law_drawing_shows(m: OverlayModel, initialized: bool, draw_counter: u64)
    requires
        overlay_linked(m),
        m.cef is Some,
        draw_counter != m.counter,
    ensures
        ({
            let (m1, r) = overlay_step(m, OverlayEvent::Poll { initialized, rect: m.last, draw_counter });
            &&& !(r is Hide)
            &&& !m.visible ==> r == OverlayRequest::Show { hwnd: m.cef->0 } && m1.visible
            &&& m1.visible
        }),
{
}

/// A poll on which the draw counter has not moved, after
/// `HIDE_AFTER_IDLE_POLLS - 1` such polls, hides a shown window.
pub proof fn law_idle_hides(m: OverlayModel, initialized: bool)
    requires
        overlay_linked(m),
        m.cef is Some,
        m.visible,
        m.idle + 1 >= HIDE_AFTER_IDLE_POLLS,
    ensures
        ({
            let (m1, r) = overlay_step(
                m,
                OverlayEvent::Poll { initialized, rect: m.last, draw_counter: m.counter },
            );
            r == OverlayRequest::Hide { hwnd: m.cef->0 } && !m1.visible
        }),
{
}

/// The model after one whole poll with the windows in place: the poll, and
/// the answer to a show or hide request where one came.
pub open spec fn poll_round(m: OverlayModel, initialized: bool, rect: Bounds, draw_counter: u64) -> OverlayModel {
    let (m1, r) = overlay_step(m, OverlayEvent::Poll { initialized, rect, draw_counter });
    if r is Show || r is Hide {
        overlay_step(m1, OverlayEvent::VisibilitySet).0
    } else {
        m1
    }
}

/// The model after `n` whole polls that all see the same draw counter.
pub open spec fn poll_rounds(m: OverlayModel, initialized: bool, rect: Bounds, draw_counter: u64, n: nat) -> OverlayModel
    decreases n,
{
    if n == 0 {
        m
    } else {
        poll_round(poll_rounds(m, initialized, rect, draw_counter, (n - 1) as nat), initialized, rect, draw_counter)
    }
}

proof fn lemma_quiet_rounds(m: OverlayModel, initialized: bool, n: nat)
    requires
        overlay_linked(m),
        m.cef is Some,
    ensures
        ({
            let q = poll_rounds(m, initialized, m.last, m.counter, n);
            &&& q.parent == m.parent
            &&& q.webview
            &&& q.cef == m.cef
            &&& q.last == m.last
            &&& q.counter == m.counter
            &&& n >= 1 ==> q.idle <= HIDE_AFTER_IDLE_POLLS && q.visible == (q.idle < HIDE_AFTER_IDLE_POLLS)
            &&& n <= HIDE_AFTER_IDLE_POLLS ==> q.idle >= n
            &&& n >= HIDE_AFTER_IDLE_POLLS ==> q.idle >= HIDE_AFTER_IDLE_POLLS
        }),
    decreases n,
{
    if n > 0 {
        lemma_quiet_rounds(m, initialized, (n - 1) as nat);
    }
}

/// While the widget is not drawn, `HIDE_AFTER_IDLE_POLLS` polls in a row
/// leave the browser window hidden, whatever it was before.
pub proof fn law_hidden_after_idle_polls(m: OverlayModel, initialized: bool)
    requires
        overlay_linked(m),
        m.cef is Some,
    ensures
        !poll_rounds(m, initialized, m.last, m.counter, HIDE_AFTER_IDLE_POLLS as nat).visible,
{
    lemma_quiet_rounds(m, initialized, HIDE_AFTER_IDLE_POLLS as nat);
}

/// The browser is asked for only while it does not exist, and never twice
/// in one poll from a state where it exists.
pub proof fn law_create_only_without_browser(m: OverlayModel, e: OverlayEvent)
    ensures
        overlay_step(m, e).1 is CreateBrowser ==> !m.webview,
{
}

} // verus!
