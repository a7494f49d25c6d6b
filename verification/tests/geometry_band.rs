use jinagam::app_state::{AppState, CommandEffects};
use jinagam::geometry::{clamp_center, pick_boundary_axis, Point, Rect};
use jinagam::monitor_cache::{MonitorCache, MonitorRect};
use jinagam::overlay::OverlayOptimizationMode;
use jinagam::settings::{default_settings, BoundarySpanMode, Settings};
use jinagam::tray::{
    TrayOptimizationMode, ID_COLOR_PICKER, ID_DURATION_LONG, ID_DURATION_NORMAL,
    ID_DURATION_SHORT, ID_EXIT, ID_OPTIMIZE_EFFICIENT, ID_OPTIMIZE_SMOOTH, ID_RELOAD_MONITORS,
    ID_RESET_DEFAULTS, ID_SPAN_FULL, ID_SPAN_SEGMENT, ID_TOGGLE_ENABLED, ID_WIDTH_NORMAL,
    ID_WIDTH_THICK, ID_WIDTH_THIN,
};

fn rect(left: i32, top: i32, right: i32, bottom: i32) -> Rect {
    Rect { left, top, right, bottom }
}

const LEFT: Rect = Rect { left: 0, top: 0, right: 1920, bottom: 1080 };
const RIGHT: Rect = Rect { left: 1920, top: 0, right: 3840, bottom: 1080 };
const SCREEN: Rect = Rect { left: 0, top: 0, right: 3840, bottom: 1080 };

fn segment_settings(width: i32) -> Settings {
    let mut s = default_settings();
    s.span_mode = BoundarySpanMode::CrossingSegment;
    s.overlay.width = width;
    s
}

#[test]
fn clamp_center_keeps_segment_inside() {
    assert_eq!(clamp_center(50, 0, 100, 20), 50);
    assert_eq!(clamp_center(5, 0, 100, 20), 10);
    assert_eq!(clamp_center(95, 0, 100, 20), 90);
    assert_eq!(clamp_center(-300, 0, 100, 20), 10);
    // a segment longer than the range is centred on the range
    assert_eq!(clamp_center(2, 0, 10, 40), 5);
    assert_eq!(clamp_center(9, 0, 11, 40), 6);
    // extreme coordinates do not overflow
    assert_eq!(clamp_center(0, i32::MIN, i32::MAX, 10), 0);
    assert_eq!(clamp_center(i32::MIN, i32::MIN, i32::MAX, 10), i32::MIN + 5);
}

#[test]
fn clamp_center_rounds_toward_zero() {
    // (end - start) / 2 with end - start = 5 is 2, and span / 2 with span = -3 is -1
    assert_eq!(clamp_center(0, 0, 5, 20), 2);
    assert_eq!(clamp_center(0, 0, 5, -3), 0);
    assert_eq!(clamp_center(7, 0, 5, -3), 6);
}

#[test]
fn boundary_axis_follows_the_exit_side() {
    assert_eq!(pick_boundary_axis(LEFT, RIGHT, Point { x: 1925, y: 500 }), (true, 1920));
    assert_eq!(pick_boundary_axis(RIGHT, LEFT, Point { x: 1900, y: 500 }), (true, 1920));
    let top = rect(0, -1080, 1920, 0);
    assert_eq!(pick_boundary_axis(LEFT, top, Point { x: 100, y: -3 }), (false, 0));
    assert_eq!(pick_boundary_axis(top, LEFT, Point { x: 100, y: 4 }), (false, 0));
}

#[test]
fn boundary_axis_prefers_the_farther_exit() {
    // diagonal move: 5 px right of the edge, 9 px below it
    let diag = rect(1920, 1080, 3840, 2160);
    assert_eq!(pick_boundary_axis(LEFT, diag, Point { x: 1924, y: 1088 }), (false, 1080));
    // a tie keeps the horizontal move
    assert_eq!(pick_boundary_axis(LEFT, diag, Point { x: 1924, y: 1084 }), (true, 1920));
}

#[test]
fn boundary_axis_falls_back_to_monitor_centres() {
    // the cursor is still inside the previous monitor
    assert_eq!(pick_boundary_axis(LEFT, RIGHT, Point { x: 100, y: 100 }), (true, 1920));
    let below = rect(0, 1080, 1920, 2160);
    assert_eq!(pick_boundary_axis(LEFT, below, Point { x: 100, y: 100 }), (false, 1080));
}

#[test]
fn full_boundary_band() {
    let st = AppState::new(default_settings());
    let band = st.compute_boundary_band(LEFT, RIGHT, Point { x: 1925, y: 500 }, SCREEN);
    assert_eq!(band, Some((rect(1904, 0, 1936, 1080), true)));
    let big = rect(-100, -100, 5000, 5000);
    let band = st.compute_boundary_band(LEFT, RIGHT, Point { x: 1925, y: 500 }, big);
    assert_eq!(band, Some((rect(1904, -4, 1936, 1084), true)));
}

#[test]
fn crossing_segment_band() {
    let st = AppState::new(segment_settings(32));
    // 10 px past the edge: 60 px, raised to twice the thickness (64)
    let band = st.compute_boundary_band(LEFT, RIGHT, Point { x: 1930, y: 500 }, SCREEN);
    assert_eq!(band, Some((rect(1904, 468, 1936, 532), true)));
    // 100 px past: 600, capped at 220, and pushed down from the top edge
    let band = st.compute_boundary_band(LEFT, RIGHT, Point { x: 2020, y: 3 }, SCREEN);
    assert_eq!(band, Some((rect(1904, 0, 1936, 220), true)));
}

#[test]
fn odd_width_puts_extra_pixel_after_boundary() {
    let mut s = default_settings();
    s.overlay.width = 33;
    let st = AppState::new(s);
    let band = st.compute_boundary_band(LEFT, RIGHT, Point { x: 1925, y: 500 }, SCREEN);
    assert_eq!(band, Some((rect(1904, 0, 1937, 1080), true)));
    s.overlay.width = 3;
    let st = AppState::new(s);
    let band = st.compute_boundary_band(LEFT, RIGHT, Point { x: 1925, y: 500 }, SCREEN);
    assert_eq!(band, Some((rect(1914, 0, 1926, 1080), true)));
}

#[test]
fn segment_without_overlap_shows_nothing() {
    let st = AppState::new(segment_settings(32));
    let far = rect(1920, 2000, 3840, 3000);
    assert_eq!(st.compute_boundary_band(LEFT, far, Point { x: 1925, y: 2500 }, SCREEN), None);
}

#[test]
fn band_off_screen_shows_nothing() {
    let st = AppState::new(default_settings());
    let tiny = rect(5000, 5000, 5001, 5001);
    assert_eq!(st.compute_boundary_band(LEFT, RIGHT, Point { x: 1925, y: 500 }, tiny), None);
}

#[test]
fn horizontal_band() {
    let below = rect(0, 1080, 1920, 2160);
    let st = AppState::new(default_settings());
    let screen = rect(0, 0, 1920, 2160);
    let band = st.compute_boundary_band(LEFT, below, Point { x: 700, y: 1085 }, screen);
    assert_eq!(band, Some((rect(0, 1064, 1920, 1096), false)));
}

fn cache() -> MonitorCache {
    let mut c = MonitorCache::new();
    c.refresh(vec![MonitorRect { handle: 11, rect: LEFT }, MonitorRect { handle: 22, rect: RIGHT }]);
    c
}

#[test]
fn poll_sequence() {
    let cache = cache();
    let mut st = AppState::new(default_settings());
    let p = Point { x: 100, y: 100 };
    assert_eq!(st.on_poll(&cache, 11, p, SCREEN), None);
    assert!(st.initialized);
    assert_eq!(st.last_monitor, 11);
    assert_eq!(st.last_rect, LEFT);
    assert_eq!(st.on_poll(&cache, 11, p, SCREEN), None);
    let band = st.on_poll(&cache, 22, Point { x: 1925, y: 500 }, SCREEN);
    assert_eq!(band, Some((rect(1904, 0, 1936, 1080), true)));
    assert_eq!(st.last_monitor, 22);
    assert_eq!(st.last_rect, RIGHT);
    assert_eq!(st.on_poll(&cache, 22, Point { x: 3000, y: 500 }, SCREEN), None);
}

#[test]
fn poll_to_unknown_monitor_remembers_it_without_band() {
    let cache = cache();
    let mut st = AppState::new(default_settings());
    st.on_poll(&cache, 11, Point { x: 100, y: 100 }, SCREEN);
    assert_eq!(st.on_poll(&cache, 99, Point { x: 1925, y: 500 }, SCREEN), None);
    assert_eq!(st.last_monitor, 99);
    assert_eq!(st.last_rect, Rect::zero());
}

#[test]
fn disabled_poll_does_nothing() {
    let cache = cache();
    let mut s = default_settings();
    s.enabled = false;
    let mut st = AppState::new(s);
    let before = st;
    assert_eq!(st.on_poll(&cache, 22, Point { x: 1925, y: 500 }, SCREEN), None);
    assert_eq!(st, before);
}

#[test]
fn can_poll_reports_an_inverted_segment_clamp() {
    let cache = cache();
    let mut st = AppState::new(segment_settings(200));
    assert!(st.can_poll(&cache, 11, Point { x: 100, y: 100 }));
    st.on_poll(&cache, 11, Point { x: 100, y: 100 }, SCREEN);
    assert!(st.can_poll(&cache, 11, Point { x: 100, y: 100 }));
    assert!(!st.can_poll(&cache, 22, Point { x: 1925, y: 500 }));
    let mut narrow = AppState::new(segment_settings(110));
    narrow.on_poll(&cache, 11, Point { x: 100, y: 100 }, SCREEN);
    assert!(narrow.can_poll(&cache, 22, Point { x: 1925, y: 500 }));
    let mut full = AppState::new(default_settings());
    full.settings.overlay.width = 200;
    full.on_poll(&cache, 11, Point { x: 100, y: 100 }, SCREEN);
    assert!(full.can_poll(&cache, 22, Point { x: 1925, y: 500 }));
}

fn no_effects() -> CommandEffects {
    CommandEffects { hide_overlay: false, reload_monitors: false, pick_color: false, close: false }
}

#[test]
fn commands_change_settings() {
    let mut st = AppState::new(default_settings());
    let cases: [(usize, fn(&Settings) -> bool); 10] = [
        (ID_WIDTH_THIN, |s| s.overlay.width == 32),
        (ID_WIDTH_NORMAL, |s| s.overlay.width == 48),
        (ID_WIDTH_THICK, |s| s.overlay.width == 72),
        (ID_DURATION_SHORT, |s| s.overlay.duration_ms == 140),
        (ID_DURATION_NORMAL, |s| s.overlay.duration_ms == 220),
        (ID_DURATION_LONG, |s| s.overlay.duration_ms == 340),
        (ID_SPAN_SEGMENT, |s| s.span_mode == BoundarySpanMode::CrossingSegment),
        (ID_SPAN_FULL, |s| s.span_mode == BoundarySpanMode::FullBoundary),
        (ID_OPTIMIZE_SMOOTH, |s| s.optimization == OverlayOptimizationMode::Smooth),
        (ID_OPTIMIZE_EFFICIENT, |s| s.optimization == OverlayOptimizationMode::Efficient),
    ];
    for (id, check) in cases {
        assert_eq!(st.handle_command(id), no_effects());
        assert!(check(&st.settings), "{}", id);
    }
}

#[test]
fn toggle_twice_restores_and_hides_when_off() {
    let mut st = AppState::new(default_settings());
    let fx = st.handle_command(ID_TOGGLE_ENABLED);
    assert!(!st.settings.enabled);
    assert_eq!(fx, CommandEffects { hide_overlay: true, ..no_effects() });
    let fx = st.handle_command(ID_TOGGLE_ENABLED);
    assert!(st.settings.enabled);
    assert_eq!(fx, no_effects());
    assert_eq!(st.settings, default_settings());
}

#[test]
fn other_commands_ask_for_effects() {
    let mut st = AppState::new(default_settings());
    assert_eq!(st.handle_command(ID_RELOAD_MONITORS), CommandEffects { reload_monitors: true, ..no_effects() });
    assert_eq!(st.handle_command(ID_COLOR_PICKER), CommandEffects { pick_color: true, ..no_effects() });
    assert_eq!(st.handle_command(ID_EXIT), CommandEffects { close: true, ..no_effects() });
    assert_eq!(st.handle_command(ID_RESET_DEFAULTS), no_effects());
    assert_eq!(st.handle_command(12345), no_effects());
    assert_eq!(st.settings, default_settings());
}

#[test]
fn picked_color_is_taken() {
    let mut st = AppState::new(default_settings());
    st.apply_picked_color(0x0012_3456);
    assert_eq!(st.settings.overlay.color, 0x0012_3456);
}

#[test]
fn menu_state_mirrors_settings() {
    let mut st = AppState::new(default_settings());
    st.handle_command(ID_SPAN_SEGMENT);
    st.handle_command(ID_OPTIMIZE_SMOOTH);
    let m = st.tray_menu_state();
    assert!(m.enabled);
    assert_eq!(m.width, 32);
    assert_eq!(m.duration_ms, 220);
    assert!(!m.span_full);
    assert_eq!(m.color, 0x00FF_B46E);
    assert_eq!(m.optimization, TrayOptimizationMode::Smooth);
}

#[test]
fn rect_for_finds_the_first_match() {
    let mut c = MonitorCache::new();
    assert_eq!(c.rect_for(1), None);
    c.refresh(vec![
        MonitorRect { handle: 1, rect: LEFT },
        MonitorRect { handle: 2, rect: RIGHT },
        MonitorRect { handle: 1, rect: SCREEN },
    ]);
    assert_eq!(c.rect_for(1), Some(LEFT));
    assert_eq!(c.rect_for(2), Some(RIGHT));
    assert_eq!(c.rect_for(3), None);
    c.refresh(Vec::new());
    assert_eq!(c.rect_for(1), None);
}
