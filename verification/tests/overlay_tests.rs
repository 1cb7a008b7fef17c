use robrix::overlay::{
    init, poll, Bounds, OverlayBackend, OverlayEvent, OverlayRequest, OverlayStage,
    HIDE_AFTER_IDLE_POLLS,
};

fn rect(x: i32, y: i32, w: u32, h: u32) -> Bounds {
    Bounds { x, y, w, h }
}

fn poll_event(initialized: bool, r: Bounds, draw_counter: u64) -> OverlayEvent {
    OverlayEvent::Poll { initialized, rect: r, draw_counter }
}

/// A backend whose browser window 200 exists, is placed at `r` and shown.
fn shown_backend(r: Bounds) -> OverlayBackend {
    let mut b = OverlayBackend::new("https://example.org/");
    assert_eq!(b.step(poll_event(true, r, 1)), OverlayRequest::FindParent);
    assert_eq!(b.step(OverlayEvent::ParentFound(Some(100))), OverlayRequest::CreateBrowser { parent: 100 });
    assert_eq!(
        b.step(OverlayEvent::BrowserCreated { created: true, hwnd: Some(200) }),
        OverlayRequest::Reposition { hwnd: 200, bounds: r }
    );
    assert_eq!(b.step(OverlayEvent::Placed), OverlayRequest::Show { hwnd: 200 });
    assert_eq!(b.step(OverlayEvent::VisibilitySet), OverlayRequest::Finished);
    assert!(b.currently_visible);
    b
}

#[test]
fn first_poll_looks_for_parent() {
    let mut b = OverlayBackend::new("https://example.org/");
    let r = b.step(poll_event(false, rect(0, 0, 10, 10), 0));
    assert_eq!(r, OverlayRequest::FindParent);
    let r = b.step(OverlayEvent::ParentFound(Some(100)));
    assert_eq!(r, OverlayRequest::Finished);
    assert_eq!(b.parent_hwnd, Some(100));
}

#[test]
fn browser_is_created_and_placed() {
    let mut b = shown_backend(rect(1, 2, 30, 40));
    assert_eq!(b.stage, OverlayStage::Idle);
    // same rectangle, still drawn: nothing to do
    assert_eq!(b.step(poll_event(true, rect(1, 2, 30, 40), 2)), OverlayRequest::Finished);
    // moved: placed again, once
    assert_eq!(
        b.step(poll_event(true, rect(5, 2, 30, 40), 3)),
        OverlayRequest::Reposition { hwnd: 200, bounds: rect(5, 2, 30, 40) }
    );
    assert_eq!(b.step(OverlayEvent::Placed), OverlayRequest::Finished);
    assert_eq!(b.step(poll_event(true, rect(5, 2, 30, 40), 4)), OverlayRequest::Finished);
}

#[test]
fn overlay_starts_hidden_until_drawn() {
    let mut b = OverlayBackend::new("u");
    assert!(!b.currently_visible);
    // never drawn: counter stays at 0
    b.step(poll_event(true, rect(0, 0, 5, 5), 0));
    b.step(OverlayEvent::ParentFound(Some(7)));
    assert_eq!(
        b.step(OverlayEvent::BrowserCreated { created: true, hwnd: Some(3) }),
        OverlayRequest::Reposition { hwnd: 3, bounds: rect(0, 0, 5, 5) }
    );
    assert_eq!(b.step(OverlayEvent::Placed), OverlayRequest::Finished);
    assert!(!b.currently_visible);
    // the widget draws: shown
    assert_eq!(b.step(poll_event(true, rect(0, 0, 5, 5), 1)), OverlayRequest::Show { hwnd: 3 });
    assert!(b.currently_visible);
    assert_eq!(b.last_draw_counter, 1);
}

#[test]
fn overlay_hides_after_idle_polls_and_shows_again() {
    let r = rect(1, 2, 30, 40);
    let mut b = shown_backend(r);
    // the counter stays at 1 for HIDE_AFTER_IDLE_POLLS polls
    for _ in 1..HIDE_AFTER_IDLE_POLLS {
        assert_eq!(b.step(poll_event(true, r, 1)), OverlayRequest::Finished);
        assert!(b.currently_visible);
    }
    assert_eq!(b.step(poll_event(true, r, 1)), OverlayRequest::Hide { hwnd: 200 });
    assert!(!b.currently_visible);
    assert_eq!(b.step(OverlayEvent::VisibilitySet), OverlayRequest::Finished);
    // still not drawn: stays hidden, asks nothing
    assert_eq!(b.step(poll_event(true, r, 1)), OverlayRequest::Finished);
    assert_eq!(b.idle_polls, HIDE_AFTER_IDLE_POLLS);
    // drawing resumes: shown again
    assert_eq!(b.step(poll_event(true, r, 2)), OverlayRequest::Show { hwnd: 200 });
    assert!(b.currently_visible);
    assert_eq!(b.idle_polls, 0);
}

#[test]
fn move_then_hide_in_one_poll() {
    let r = rect(1, 2, 30, 40);
    let mut b = shown_backend(r);
    for _ in 1..HIDE_AFTER_IDLE_POLLS {
        b.step(poll_event(true, r, 1));
    }
    let moved = rect(9, 9, 30, 40);
    assert_eq!(b.step(poll_event(true, moved, 1)), OverlayRequest::Reposition { hwnd: 200, bounds: moved });
    assert_eq!(b.step(OverlayEvent::Placed), OverlayRequest::Hide { hwnd: 200 });
}

#[test]
fn missing_handle_is_looked_up() {
    let mut b = OverlayBackend::new("u");
    b.step(poll_event(true, rect(0, 0, 5, 5), 0));
    b.step(OverlayEvent::ParentFound(Some(7)));
    assert_eq!(b.step(OverlayEvent::BrowserCreated { created: true, hwnd: None }), OverlayRequest::QueryHandle);
    assert_eq!(b.step(OverlayEvent::HandleFound(None)), OverlayRequest::Finished);
    assert_eq!(b.step(poll_event(true, rect(0, 0, 5, 5), 0)), OverlayRequest::QueryHandle);
    assert_eq!(
        b.step(OverlayEvent::HandleFound(Some(9))),
        OverlayRequest::Reposition { hwnd: 9, bounds: rect(0, 0, 5, 5) }
    );
}

#[test]
fn empty_rectangle_is_not_placed() {
    let mut b = OverlayBackend::new("u");
    b.step(poll_event(true, rect(0, 0, 0, 5), 0));
    b.step(OverlayEvent::ParentFound(Some(7)));
    assert_eq!(b.step(OverlayEvent::BrowserCreated { created: true, hwnd: Some(3) }), OverlayRequest::Finished);
    assert_eq!(b.cef_hwnd, Some(3));
}

#[test]
fn failed_creation_is_retried_next_poll() {
    let mut b = OverlayBackend::new("u");
    b.step(poll_event(true, rect(0, 0, 5, 5), 0));
    b.step(OverlayEvent::ParentFound(Some(7)));
    assert_eq!(b.step(OverlayEvent::BrowserCreated { created: false, hwnd: None }), OverlayRequest::Finished);
    assert_eq!(b.step(poll_event(true, rect(0, 0, 5, 5), 0)), OverlayRequest::CreateBrowser { parent: 7 });
}

#[test]
fn unexpected_report_ends_poll() {
    let mut b = OverlayBackend::new("u");
    assert_eq!(b.step(OverlayEvent::Placed), OverlayRequest::Finished);
    assert_eq!(b.step(OverlayEvent::HandleFound(Some(1))), OverlayRequest::Finished);
    assert_eq!(b.step(OverlayEvent::VisibilitySet), OverlayRequest::Finished);
    assert_eq!(b.cef_hwnd, None);
}

#[test]
fn poll_without_backend_finishes() {
    let mut slot: Option<OverlayBackend> = None;
    assert_eq!(poll(&mut slot, OverlayEvent::Placed), OverlayRequest::Finished);
    init(&mut slot, "https://example.org/");
    assert_eq!(slot.as_ref().unwrap().url, "https://example.org/");
    assert_eq!(poll(&mut slot, poll_event(false, rect(0, 0, 1, 1), 0)), OverlayRequest::FindParent);
}

#[test]
fn load_url_keeps_state() {
    let mut b = shown_backend(rect(1, 1, 2, 2));
    b.load_url("b");
    assert_eq!(b.url, "b");
    assert!(b.webview_created);
    assert!(b.currently_visible);
    assert_eq!(b.last_draw_counter, 1);
}
