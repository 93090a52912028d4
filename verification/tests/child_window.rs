use aperture::layout::{
    clamp_to_surface, hit_test, saturating_minus, surface_size, thumbs_per_page, viewer_rect,
    HT_BOTTOM, HT_BOTTOMLEFT, HT_BOTTOMRIGHT, HT_CLIENT, HT_LEFT, HT_RIGHT, HT_TOP, HT_TOPLEFT,
    HT_TOPRIGHT, MIN_H, MIN_W, STATUS_BAR_HEIGHT, THUMB_WIDTH, TOOLBAR_HEIGHT, TREE_WIDTH,
};
use aperture::present::{PresentRetry, PresentStep, WAS_STILL_DRAWING};
use aperture::viewer_child::{ResizeAction, ViewerChildWindow, BIG_JUMP_PIXELS, SETTLE_MILLIS};

#[test]
fn small_changes_wait_and_jumps_do_not() {
    let mut c = ViewerChildWindow::new(0, 0, 800, 600);
    assert_eq!(c.resize(0, 0, 800, 600, 0), ResizeAction::Keep);
    assert_eq!(c.resize(0, 0, 850, 650, 0), ResizeAction::Deferred);
    assert_eq!(c.size(), (850, 650));
    assert_eq!(c.flush_pending_resize(SETTLE_MILLIS - 1, false), None);
    assert_eq!(c.flush_pending_resize(SETTLE_MILLIS, false), Some((850, 650)));
    assert_eq!(c.flush_pending_resize(10_000, false), None);
    assert_eq!(c.resize(0, 0, 951, 650, 5), ResizeAction::Immediate);
    assert_eq!(c.flush_pending_resize(10_000, true), None);
    assert_eq!(BIG_JUMP_PIXELS, 100);
    assert_eq!(SETTLE_MILLIS, 150);
}

#[test]
fn animations_flush_at_once() {
    let mut c = ViewerChildWindow::new(0, 0, 800, 600);
    c.resize(0, 0, 801, 600, 1000);
    assert_eq!(c.flush_pending_resize(1000, true), Some((801, 600)));
}

#[test]
fn the_window_follows_every_request() {
    let mut c = ViewerChildWindow::new(0, 0, 800, 600);
    c.resize(1, 2, 801, 601, 0);
    assert_eq!(c.last_applied_rect, (0, 0, 800, 600));
    assert!(c.apply_position(1, 2, 801, 601));
    assert!(!c.apply_position(1, 2, 801, 601));
    assert_eq!(c.last_applied_rect, (1, 2, 801, 601));
    assert_eq!(c.resize(1, 2, 801, 601, 9), ResizeAction::Keep);
}

#[test]
fn points_in_the_child() {
    let c = ViewerChildWindow::new(10, 20, 100, 50);
    assert_eq!(c.cursor_to_local(10, 20), Some((0, 0)));
    assert_eq!(c.cursor_to_local(109, 69), Some((99, 49)));
    assert_eq!(c.cursor_to_local(110, 20), None);
    assert_eq!(c.cursor_to_local(9, 20), None);
    assert_eq!(c.cursor_to_local(10, 70), None);
}

#[test]
fn presenting_backs_off() {
    let mut r = PresentRetry::new();
    let mut pauses = Vec::new();
    loop {
        match r.presented(Some(WAS_STILL_DRAWING)) {
            PresentStep::Retry(ms) => pauses.push(ms),
            PresentStep::Fail(code) => {
                assert_eq!(code, WAS_STILL_DRAWING);
                break;
            }
            PresentStep::Done => panic!("not presented"),
        }
    }
    assert_eq!(pauses, vec![2, 4, 8, 16, 32, 32]);
}

#[test]
fn other_errors_are_tried_once_more() {
    let mut r = PresentRetry::new();
    assert_eq!(r.presented(Some(5)), PresentStep::Retry(2));
    assert_eq!(r.presented(Some(5)), PresentStep::Fail(5));
    let mut r = PresentRetry::new();
    assert_eq!(r.presented(None), PresentStep::Done);
    assert_eq!(r.presented(Some(5)), PresentStep::Retry(2));
    assert_eq!(r.presented(None), PresentStep::Done);
}

#[test]
fn the_viewer_lies_between_the_panels() {
    let r = viewer_rect(
        1280,
        800,
        TREE_WIDTH,
        THUMB_WIDTH,
        TOOLBAR_HEIGHT,
        STATUS_BAR_HEIGHT,
    );
    assert_eq!(r, (240, 40, 820, 712));
    assert_eq!(viewer_rect(100, 50, 240, 220, 40, 48), (240, 40, 0, 0));
    assert_eq!(saturating_minus(5, 7), 0);
    assert_eq!(saturating_minus(7, 5), 2);
    assert_eq!((MIN_W, MIN_H), (480, 320));
}

#[test]
fn rectangles_are_cut_to_the_surface() {
    assert_eq!(clamp_to_surface((10, 20, 30, 40), (100, 100)), Some((10, 20, 30, 40)));
    assert_eq!(clamp_to_surface((-5, 90, 300, 40), (100, 100)), Some((0, 90, 100, 10)));
    assert_eq!(clamp_to_surface((100, 0, 5, 5), (100, 100)), None);
    assert_eq!(clamp_to_surface((200, 0, 5, 5), (100, 100)), None);
    assert_eq!(clamp_to_surface((0, 0, 0, 5), (100, 100)), None);
}

#[test]
fn borders_resize_the_window() {
    let w = (0, 0, 200, 100);
    let at = |x: i16, y: i16| hit_test(w, x, y, 96, false);
    assert_eq!(at(0, 0), HT_TOPLEFT);
    assert_eq!(at(199, 0), HT_TOPRIGHT);
    assert_eq!(at(0, 99), HT_BOTTOMLEFT);
    assert_eq!(at(199, 99), HT_BOTTOMRIGHT);
    assert_eq!(at(7, 50), HT_LEFT);
    assert_eq!(at(8, 50), HT_CLIENT);
    assert_eq!(at(193, 50), HT_RIGHT);
    assert_eq!(at(192, 50), HT_CLIENT);
    assert_eq!(at(100, 7), HT_TOP);
    assert_eq!(at(100, 93), HT_BOTTOM);
    assert_eq!(hit_test(w, 15, 50, 192, false), HT_LEFT);
    assert_eq!(hit_test(w, 16, 50, 192, false), HT_CLIENT);
    assert_eq!(hit_test(w, 7, 50, 10, false), HT_LEFT);
    assert_eq!(hit_test(w, 0, 0, 96, true), HT_CLIENT);
    assert_eq!(hit_test((5, 5, 5, 9), 5, 5, 96, false), HT_CLIENT);
    assert_eq!((HT_CLIENT, HT_LEFT, HT_BOTTOMRIGHT), (1, 10, 17));
}

#[test]
fn surfaces_and_pages() {
    assert_eq!(surface_size(0, 0), (1, 1));
    assert_eq!(surface_size(5, 6), (5, 6));
    assert_eq!(thumbs_per_page(0), 1);
    assert_eq!(thumbs_per_page(712), 3);
    assert_eq!(thumbs_per_page(1_000_000), 100);
}
