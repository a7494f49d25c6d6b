//! The application's decisions: where the glow goes when the cursor moves to
//! another monitor, and what each tray command changes.
use vstd::prelude::*;

use crate::geometry::{
    abs_int, boundary_axis, clamp_center, clamp_int, max_int, min_int, pick_boundary_axis,
    spec_clamp_center, Point, Rect,
};
use crate::monitor_cache::{lookup_rect, MonitorCache, MonitorRect};
use crate::overlay::{OverlayOptimizationMode, OverlayStyle};
use crate::settings::{BoundarySpanMode, Settings};
use crate::tray::{
    color_label_text, item_checked, item_id, spec_tray_menu, MenuEntryView, TrayMenuView,
    TrayMenuState, TrayOptimizationMode, DURATION_LONG, DURATION_NORMAL, DURATION_SHORT, ID_COLOR_PICKER,
    ID_DURATION_LONG, ID_DURATION_NORMAL, ID_DURATION_SHORT, ID_EXIT, ID_OPTIMIZE_EFFICIENT,
    ID_OPTIMIZE_SMOOTH, ID_RELOAD_MONITORS, ID_SPAN_FULL, ID_SPAN_SEGMENT, ID_TOGGLE_ENABLED,
    ID_WIDTH_NORMAL, ID_WIDTH_THICK, ID_WIDTH_THIN, WIDTH_NORMAL, WIDTH_THICK, WIDTH_THIN,
};

verus! {

/// How far the full-boundary glow reaches past the monitors' shared edge.
pub const SPAN_PAD: i32 = 4;

/// The thinnest band drawn, whatever the configured width.
pub const MIN_BAND_THICKNESS: i32 = 12;

/// The longest crossing segment.
pub const MAX_SEGMENT_LEN: i32 = 220;

/// The band's thickness across the boundary.
pub open spec fn band_thickness(settings: Settings) -> int {
    max_int(settings.overlay.width as int, MIN_BAND_THICKNESS as int)
}

/// The crossing segment inside the overlap `[lo, hi)` of the two monitors:
/// six times as long as the cursor is far past the boundary (at least one
/// pixel), kept between twice the thickness and `MAX_SEGMENT_LEN`, centred
/// on the cursor as far as the overlap allows, and cut to the overlap.
pub open spec fn segment_span(lo: int, hi: int, offset: int, pos: int, thickness: int) -> (int, int) {
    let movement = max_int(abs_int(offset), 1);
    let len = clamp_int(movement * 6, 2 * thickness, MAX_SEGMENT_LEN as int);
    let center = spec_clamp_center(pos, lo, hi, len);
    (max_int(center - len / 2, lo), min_int(center + len / 2, hi))
}

/// The band's extent along the boundary, from the previous monitor's extent
/// `[p_lo, p_hi)` and the current one's `[c_lo, c_hi)`: `None` in segment
/// mode when the two do not overlap.
pub open spec fn band_extent(
    mode: BoundarySpanMode,
    p_lo: int,
    p_hi: int,
    c_lo: int,
    c_hi: int,
    offset: int,
    pos: int,
    thickness: int,
) -> Option<(int, int)> {
    match mode {
        BoundarySpanMode::CrossingSegment => {
            let lo = max_int(p_lo, c_lo);
            let hi = min_int(p_hi, c_hi);
            if hi <= lo {
                None
            } else {
                Some(segment_span(lo, hi, offset, pos, thickness))
            }
        },
        BoundarySpanMode::FullBoundary => Some(
            (min_int(p_lo, c_lo) - SPAN_PAD, max_int(p_hi, c_hi) + SPAN_PAD),
        ),
    }
}

/// The band before it is cut to the screen, as `(left, top, right, bottom,
/// vertical)`: `thickness` across the boundary line (the odd pixel after
/// it), and `band_extent` along it.
pub open spec fn raw_band(settings: Settings, previous: Rect, current: Rect, cursor: Point) -> Option<
    (int, int, int, int, bool),
> {
    let (vertical, boundary) = boundary_axis(previous, current, cursor);
    let t = band_thickness(settings);
    if vertical {
        match band_extent(
            settings.span_mode,
            previous.top as int,
            previous.bottom as int,
            current.top as int,
            current.bottom as int,
            cursor.x - boundary,
            cursor.y as int,
            t,
        ) {
            Some((top, bottom)) => Some((boundary - t / 2, top, boundary + (t + 1) / 2, bottom, true)),
            None => None,
        }
    } else {
        match band_extent(
            settings.span_mode,
            previous.left as int,
            previous.right as int,
            current.left as int,
            current.right as int,
            cursor.y - boundary,
            cursor.x as int,
            t,
        ) {
            Some((left, right)) => Some((left, boundary - t / 2, right, boundary + (t + 1) / 2, false)),
            None => None,
        }
    }
}

/// The band to flash when the cursor moved from `previous` to `current`,
/// cut to the virtual screen; `None` when nothing of it is left.
pub open spec fn spec_band(
    settings: Settings,
    previous: Rect,
    current: Rect,
    cursor: Point,
    screen: Rect,
) -> Option<(Rect, bool)> {
    match raw_band(settings, previous, current, cursor) {
        None => None,
        Some((l, t, r, b, vertical)) => {
            let left = max_int(l, screen.left as int);
            let top = max_int(t, screen.top as int);
            let right = min_int(r, screen.right as int);
            let bottom = min_int(b, screen.bottom as int);
            if right <= left || bottom <= top {
                None
            } else {
                Some(
                    (
                        Rect {
                            left: left as i32,
                            top: top as i32,
                            right: right as i32,
                            bottom: bottom as i32,
                        },
                        vertical,
                    ),
                )
            }
        },
    }
}

/// The band can be computed: in segment mode with overlapping monitors the
/// segment length is clamped between twice the thickness and
/// `MAX_SEGMENT_LEN`, which needs the former not to exceed the latter.
pub open spec fn band_defined(settings: Settings, previous: Rect, current: Rect, cursor: Point) -> bool {
    let vertical = boundary_axis(previous, current, cursor).0;
    let overlapping = if vertical {
        min_int(previous.bottom as int, current.bottom as int) > max_int(
            previous.top as int,
            current.top as int,
        )
    } else {
        min_int(previous.right as int, current.right as int) > max_int(
            previous.left as int,
            current.left as int,
        )
    };
    settings.span_mode == BoundarySpanMode::CrossingSegment && overlapping ==> 2 * band_thickness(
        settings,
    ) <= MAX_SEGMENT_LEN
}

fn max_i64(a: i64, b: i64) -> (r: i64)
    ensures
        r == max_int(a as int, b as int),
{
    if a >= b {
        a
    } else {
        b
    }
}

fn min_i64(a: i64, b: i64) -> (r: i64)
    ensures
        r == min_int(a as int, b as int),
{
    if a <= b {
        a
    } else {
        b
    }
}

fn band_extent_exec(
    mode: BoundarySpanMode,
    p_lo: i32,
    p_hi: i32,
    c_lo: i32,
    c_hi: i32,
    offset: i64,
    pos: i32,
    thickness: i64,
) -> (r: Option<(i64, i64)>)
    requires
        MIN_BAND_THICKNESS <= thickness <= i32::MAX,
        -0x1_0000_0000 <= offset <= 0x1_0000_0000,
        mode == BoundarySpanMode::CrossingSegment && min_int(p_hi as int, c_hi as int) > max_int(
            p_lo as int,
            c_lo as int,
        ) ==> 2 * thickness <= MAX_SEGMENT_LEN,
    ensures
        match r {
            Some((a, b)) => band_extent(
                mode,
                p_lo as int,
                p_hi as int,
                c_lo as int,
                c_hi as int,
                offset as int,
                pos as int,
                thickness as int,
            ) == Some((a as int, b as int)),
            None => band_extent(
                mode,
                p_lo as int,
                p_hi as int,
                c_lo as int,
                c_hi as int,
                offset as int,
                pos as int,
                thickness as int,
            ) is None,
        },
{
    match mode {
        BoundarySpanMode::CrossingSegment => {
            let lo: i32 = if p_lo >= c_lo {
                p_lo
            } else {
                c_lo
            };
            let hi: i32 = if p_hi <= c_hi {
                p_hi
            } else {
                c_hi
            };
            if hi <= lo {
                return None;
            }
            let magnitude: i64 = if offset < 0 {
                -offset
            } else {
                offset
            };
            let movement: i64 = if magnitude >= 1 {
                magnitude
            } else {
                1
            };
            let lowest: i64 = 2 * thickness;
            let stretched: i64 = movement * 6;
            let len: i64 = if stretched < lowest {
                lowest
            } else if stretched > MAX_SEGMENT_LEN as i64 {
                MAX_SEGMENT_LEN as i64
            } else {
                stretched
            };
            proof {
                let reach = min_int(len as int / 2, (hi - lo) / 2);
                assert(lo + reach <= hi - reach);
            }
            let center: i32 = clamp_center(pos, lo, hi, len as i32);
            let half: i64 = len / 2;
            let first: i64 = max_i64(center as i64 - half, lo as i64);
            let last: i64 = min_i64(center as i64 + half, hi as i64);
            Some((first, last))
        },
        BoundarySpanMode::FullBoundary => {
            let first: i64 = min_i64(p_lo as i64, c_lo as i64) - SPAN_PAD as i64;
            let last: i64 = max_i64(p_hi as i64, c_hi as i64) + SPAN_PAD as i64;
            Some((first, last))
        },
    }
}

/// The state the application keeps between polls of the cursor.
#[derive(Clone, Copy, Debug, PartialEq, Eq, Structural)]
pub struct AppState {
    pub settings: Settings,
    /// A monitor has been seen since the application started.
    pub initialized: bool,
    /// The handle of the monitor the cursor was last on.
    pub last_monitor: usize,
    /// That monitor's rectangle.
    pub last_rect: Rect,
}

/// What a tray command asks the application to do besides changing the
/// settings. After any command the overlay takes the new style and the
/// settings are saved.
#[derive(Clone, Copy, Debug, PartialEq, Eq, Structural)]
pub struct CommandEffects {
    /// Hide the glow now.
    pub hide_overlay: bool,
    /// Enumerate the monitors again.
    pub reload_monitors: bool,
    /// Ask the user for a color (see `AppState::apply_picked_color`).
    pub pick_color: bool,
    /// Close the application.
    pub close: bool,
}

/// One poll of the cursor: `monitor` is the monitor it is on, `cursor` where
/// it is, `screen` the virtual screen. Nothing happens while the glow is
/// disabled. The first poll only records the monitor. Later, a move to
/// another monitor records it and, when its rectangle is known and not
/// empty, flashes the band between the two.
pub open spec fn poll_step(
    state: AppState,
    monitors: Seq<MonitorRect>,
    monitor: usize,
    cursor: Point,
    screen: Rect,
) -> (AppState, Option<(Rect, bool)>) {
    if !state.settings.enabled {
        (state, None)
    } else {
        let rect = match lookup_rect(monitors, monitor) {
            Some(r) => r,
            None => Rect::spec_zero(),
        };
        if !state.initialized {
            (AppState { initialized: true, last_monitor: monitor, last_rect: rect, ..state }, None)
        } else if monitor == state.last_monitor {
            (state, None)
        } else {
            let moved = AppState { last_monitor: monitor, last_rect: rect, ..state };
            if rect.spec_is_empty() {
                (moved, None)
            } else {
                (moved, spec_band(state.settings, state.last_rect, rect, cursor, screen))
            }
        }
    }
}

/// A poll can be carried out: when it computes a band, `band_defined` holds.
pub open spec fn poll_defined(
    state: AppState,
    monitors: Seq<MonitorRect>,
    monitor: usize,
    cursor: Point,
) -> bool {
    let rect = match lookup_rect(monitors, monitor) {
        Some(r) => r,
        None => Rect::spec_zero(),
    };
    state.settings.enabled && state.initialized && monitor != state.last_monitor
        && !rect.spec_is_empty() ==> band_defined(state.settings, state.last_rect, rect, cursor)
}

/// The settings after a tray command.
pub open spec fn command_settings(s: Settings, command: usize) -> Settings {
    if command == ID_TOGGLE_ENABLED {
        Settings { enabled: !s.enabled, ..s }
    } else if command == ID_WIDTH_THIN {
        Settings { overlay: OverlayStyle { width: WIDTH_THIN, ..s.overlay }, ..s }
    } else if command == ID_WIDTH_NORMAL {
        Settings { overlay: OverlayStyle { width: WIDTH_NORMAL, ..s.overlay }, ..s }
    } else if command == ID_WIDTH_THICK {
        Settings { overlay: OverlayStyle { width: WIDTH_THICK, ..s.overlay }, ..s }
    } else if command == ID_DURATION_SHORT {
        Settings { overlay: OverlayStyle { duration_ms: DURATION_SHORT, ..s.overlay }, ..s }
    } else if command == ID_DURATION_NORMAL {
        Settings { overlay: OverlayStyle { duration_ms: DURATION_NORMAL, ..s.overlay }, ..s }
    } else if command == ID_DURATION_LONG {
        Settings { overlay: OverlayStyle { duration_ms: DURATION_LONG, ..s.overlay }, ..s }
    } else if command == ID_SPAN_SEGMENT {
        Settings { span_mode: BoundarySpanMode::CrossingSegment, ..s }
    } else if command == ID_SPAN_FULL {
        Settings { span_mode: BoundarySpanMode::FullBoundary, ..s }
    } else if command == ID_OPTIMIZE_SMOOTH {
        Settings { optimization: OverlayOptimizationMode::Smooth, ..s }
    } else if command == ID_OPTIMIZE_EFFICIENT {
        Settings { optimization: OverlayOptimizationMode::Efficient, ..s }
    } else {
        s
    }
}

/// What else a tray command asks for.
pub open spec fn command_effects(s: Settings, command: usize) -> CommandEffects {
    CommandEffects {
        hide_overlay: command == ID_TOGGLE_ENABLED && s.enabled,
        reload_monitors: command == ID_RELOAD_MONITORS,
        pick_color: command == ID_COLOR_PICKER,
        close: command == ID_EXIT,
    }
}

pub open spec fn spec_tray_menu_state(s: Settings) -> TrayMenuState {
    TrayMenuState {
        enabled: s.enabled,
        width: s.overlay.width,
        duration_ms: s.overlay.duration_ms,
        span_full: s.span_mode == BoundarySpanMode::FullBoundary,
        color: s.overlay.color,
        optimization: match s.optimization {
            OverlayOptimizationMode::Smooth => TrayOptimizationMode::Smooth,
            OverlayOptimizationMode::Efficient => TrayOptimizationMode::Efficient,
        },
    }
}

impl AppState {
    /// The state at start-up, before any monitor has been seen.
    pub fn new(settings: Settings) -> (state: AppState)
        ensures
            state.settings == settings,
            !state.initialized,
            state.last_monitor == 0,
            state.last_rect == Rect::spec_zero(),
    {
        AppState { settings, initialized: false, last_monitor: 0, last_rect: Rect::zero() }
    }

    /// The band to flash for a move of the cursor from `previous` to
    /// `current` (see `spec_band`), as the rectangle and whether the
    /// boundary is vertical. Intermediate values are computed without
    /// overflow.
    pub fn compute_boundary_band(&self, previous: Rect, current: Rect, cursor: Point, screen: Rect) -> (r:
        Option<(Rect, bool)>)
        requires
            band_defined(self.settings, previous, current, cursor),
        ensures
            r == spec_band(self.settings, previous, current, cursor, screen),
            r matches Some((band, vertical)) ==> {
                &&& !band.spec_is_empty()
                &&& band.within(screen)
                &&& vertical == boundary_axis(previous, current, cursor).0
            },
            self.settings.span_mode == BoundarySpanMode::CrossingSegment ==> segment_covers_cursor(
                r,
                previous,
                current,
                cursor,
                screen,
            ),
    {
        proof {
            if self.settings.span_mode == BoundarySpanMode::CrossingSegment {
                lemma_segment_covers_cursor(self.settings, previous, current, cursor, screen);
            }
        }
        let (vertical, boundary) = pick_boundary_axis(previous, current, cursor);
        let width = self.settings.overlay.width;
        let thickness: i64 = if width >= MIN_BAND_THICKNESS {
            width as i64
        } else {
            MIN_BAND_THICKNESS as i64
        };
        let near: i64 = boundary as i64 - thickness / 2;
        let far: i64 = boundary as i64 + (thickness + 1) / 2;
        let raw: Option<(i64, i64, i64, i64)> = if vertical {
            match band_extent_exec(
                self.settings.span_mode,
                previous.top,
                previous.bottom,
                current.top,
                current.bottom,
                cursor.x as i64 - boundary as i64,
                cursor.y,
                thickness,
            ) {
                Some((top, bottom)) => Some((near, top, far, bottom)),
                None => None,
            }
        } else {
            match band_extent_exec(
                self.settings.span_mode,
                previous.left,
                previous.right,
                current.left,
                current.right,
                cursor.y as i64 - boundary as i64,
                cursor.x,
                thickness,
            ) {
                Some((left, right)) => Some((left, near, right, far)),
                None => None,
            }
        };
        match raw {
            None => None,
            Some((l, t, r, b)) => {
                let left = max_i64(l, screen.left as i64);
                let top = max_i64(t, screen.top as i64);
                let right = min_i64(r, screen.right as i64);
                let bottom = min_i64(b, screen.bottom as i64);
                if right <= left || bottom <= top {
                    None
                } else {
                    Some(
                        (
                            Rect {
                                left: left as i32,
                                top: top as i32,
                                right: right as i32,
                                bottom: bottom as i32,
                            },
                            vertical,
                        ),
                    )
                }
            },
        }
    }

    /// Whether `on_poll` can be called with these arguments (see
    /// `poll_defined`).
    pub fn can_poll(&self, cache: &MonitorCache, monitor: usize, cursor: Point) -> (b: bool)
        ensures
            b == poll_defined(*self, cache@, monitor, cursor),
    {
        if !(self.settings.enabled && self.initialized && monitor != self.last_monitor) {
            return true;
        }
        let rect = match cache.rect_for(monitor) {
            Some(r) => r,
            None => Rect::zero(),
        };
        if rect.is_empty() {
            return true;
        }
        let (vertical, _boundary) = pick_boundary_axis(self.last_rect, rect, cursor);
        let previous = self.last_rect;
        let overlapping = if vertical {
            min_i64(previous.bottom as i64, rect.bottom as i64) > max_i64(
                previous.top as i64,
                rect.top as i64,
            )
        } else {
            min_i64(previous.right as i64, rect.right as i64) > max_i64(
                previous.left as i64,
                rect.left as i64,
            )
        };
        let width = self.settings.overlay.width;
        let thickness: i64 = if width >= MIN_BAND_THICKNESS {
            width as i64
        } else {
            MIN_BAND_THICKNESS as i64
        };
        !(self.settings.span_mode == BoundarySpanMode::CrossingSegment && overlapping) || 2
            * thickness <= MAX_SEGMENT_LEN as i64
    }

    /// Polls the cursor (see `poll_step`); returns the band to flash, if
    /// any.
    pub fn on_poll(&mut self, cache: &MonitorCache, monitor: usize, cursor: Point, screen: Rect) -> (band:
        Option<(Rect, bool)>)
        requires
            poll_defined(*old(self), cache@, monitor, cursor),
        ensures
            (*final(self), band) == poll_step(*old(self), cache@, monitor, cursor, screen),
    {
        if !self.settings.enabled {
            return None;
        }
        let rect = match cache.rect_for(monitor) {
            Some(r) => r,
            None => Rect::zero(),
        };
        if !self.initialized {
            self.last_monitor = monitor;
            self.last_rect = rect;
            self.initialized = true;
            return None;
        }
        if monitor == self.last_monitor {
            return None;
        }
        let previous = self.last_rect;
        if rect.is_empty() {
            self.last_monitor = monitor;
            self.last_rect = rect;
            return None;
        }
        let band = self.compute_boundary_band(previous, rect, cursor, screen);
        self.last_monitor = monitor;
        self.last_rect = rect;
        band
    }

    /// Carries out a tray command on the settings (see `command_settings`)
    /// and says what else it asks for (see `command_effects`).
    pub fn handle_command(&mut self, command: usize) -> (effects: CommandEffects)
        ensures
            final(self).settings == command_settings(old(self).settings, command),
            final(self).initialized == old(self).initialized,
            final(self).last_monitor == old(self).last_monitor,
            final(self).last_rect == old(self).last_rect,
            effects == command_effects(old(self).settings, command),
            old(self).settings.well_formed() ==> final(self).settings.well_formed(),
            changes_only_its_setting(old(self).settings, command, final(self).settings),
    {
        proof {
            lemma_command_changes_only_its_setting(self.settings, command);
        }
        let was_enabled = self.settings.enabled;
        if command == ID_TOGGLE_ENABLED {
            self.settings.enabled = !self.settings.enabled;
        } else if command == ID_WIDTH_THIN {
            self.settings.overlay.width = WIDTH_THIN;
        } else if command == ID_WIDTH_NORMAL {
            self.settings.overlay.width = WIDTH_NORMAL;
        } else if command == ID_WIDTH_THICK {
            self.settings.overlay.width = WIDTH_THICK;
        } else if command == ID_DURATION_SHORT {
            self.settings.overlay.duration_ms = DURATION_SHORT;
        } else if command == ID_DURATION_NORMAL {
            self.settings.overlay.duration_ms = DURATION_NORMAL;
        } else if command == ID_DURATION_LONG {
            self.settings.overlay.duration_ms = DURATION_LONG;
        } else if command == ID_SPAN_SEGMENT {
            self.settings.span_mode = BoundarySpanMode::CrossingSegment;
        } else if command == ID_SPAN_FULL {
            self.settings.span_mode = BoundarySpanMode::FullBoundary;
        } else if command == ID_OPTIMIZE_SMOOTH {
            self.settings.optimization = OverlayOptimizationMode::Smooth;
        } else if command == ID_OPTIMIZE_EFFICIENT {
            self.settings.optimization = OverlayOptimizationMode::Efficient;
        }
        CommandEffects {
            hide_overlay: command == ID_TOGGLE_ENABLED && was_enabled,
            reload_monitors: command == ID_RELOAD_MONITORS,
            pick_color: command == ID_COLOR_PICKER,
            close: command == ID_EXIT,
        }
    }

    /// Takes the color the user picked for the glow.
    pub fn apply_picked_color(&mut self, color: u32)
        ensures
            final(self).settings == (Settings {
                overlay: OverlayStyle { color, ..old(self).settings.overlay },
                ..old(self).settings
            }),
            final(self).initialized == old(self).initialized,
            final(self).last_monitor == old(self).last_monitor,
            final(self).last_rect == old(self).last_rect,
            old(self).settings.well_formed() ==> final(self).settings.well_formed(),
    {
        self.settings.overlay.color = color;
    }

    /// What the tray menu shows for the current settings.
    pub fn tray_menu_state(&self) -> (m: TrayMenuState)
        ensures
            m == spec_tray_menu_state(self.settings),
            m.enabled == self.settings.enabled,
            m.width == self.settings.overlay.width,
            m.duration_ms == self.settings.overlay.duration_ms,
            m.color == self.settings.overlay.color,
            m.span_full <==> self.settings.span_mode == BoundarySpanMode::FullBoundary,
            m.optimization == TrayOptimizationMode::Smooth <==> self.settings.optimization
                == OverlayOptimizationMode::Smooth,
    {
        TrayMenuState {
            enabled: self.settings.enabled,
            width: self.settings.overlay.width,
            duration_ms: self.settings.overlay.duration_ms,
            span_full: self.settings.span_mode == BoundarySpanMode::FullBoundary,
            color: self.settings.overlay.color,
            optimization: match self.settings.optimization {
                OverlayOptimizationMode::Smooth => TrayOptimizationMode::Smooth,
                OverlayOptimizationMode::Efficient => TrayOptimizationMode::Efficient,
            },
        }
    }
}

// ---------------------------------------------------------------------------
// Laws
// ---------------------------------------------------------------------------

/// A band that is flashed is never empty and lies on the virtual screen.
pub proof fn lemma_band_on_screen(
    settings: Settings,
    previous: Rect,
    current: Rect,
    cursor: Point,
    screen: Rect,
)
    ensures
        spec_band(settings, previous, current, cursor, screen) matches Some((band, _)) ==> {
            &&& !band.spec_is_empty()
            &&& band.within(screen)
        },
{
}

/// While the glow is disabled a poll changes nothing and flashes nothing.
pub proof fn lemma_disabled_poll_idle(
    state: AppState,
    monitors: Seq<MonitorRect>,
    monitor: usize,
    cursor: Point,
    screen: Rect,
)
    requires
        !state.settings.enabled,
    ensures
        poll_step(state, monitors, monitor, cursor, screen) == (state, None::<(Rect, bool)>),
{
}

/// After a poll, polling again on the same monitor changes nothing and
/// flashes nothing, wherever the cursor is.
pub proof fn lemma_same_monitor_quiet(
    state: AppState,
    monitors: Seq<MonitorRect>,
    monitor: usize,
    cursor: Point,
    screen: Rect,
    next_cursor: Point,
    next_screen: Rect,
)
    ensures
        ({
            let after = poll_step(state, monitors, monitor, cursor, screen).0;
            poll_step(after, monitors, monitor, next_cursor, next_screen) == (after, None::<
                (Rect, bool),
            >)
        }),
{
}

/// After a poll while enabled, the monitor the cursor is on is the one
/// remembered.
pub proof fn lemma_poll_remembers_monitor(
    state: AppState,
    monitors: Seq<MonitorRect>,
    monitor: usize,
    cursor: Point,
    screen: Rect,
)
    requires
        state.settings.enabled,
    ensures
        ({
            let after = poll_step(state, monitors, monitor, cursor, screen).0;
            &&& after.initialized
            &&& after.last_monitor == monitor
            &&& !(state.initialized && monitor == state.last_monitor) ==> after.last_rect
                == match lookup_rect(monitors, monitor) {
                Some(r) => r,
                None => Rect::spec_zero(),
            }
            &&& after.settings == state.settings
        }),
{
}

/// Choosing "Enabled" twice restores the settings.
pub proof fn lemma_toggle_twice(s: Settings)
    ensures
        command_settings(command_settings(s, ID_TOGGLE_ENABLED), ID_TOGGLE_ENABLED) == s,
{
}

/// Turning the glow off hides it; turning it on does not.
pub proof fn lemma_toggle_hides_when_turning_off(s: Settings)
    ensures
        command_effects(s, ID_TOGGLE_ENABLED).hide_overlay == !command_settings(
            s,
            ID_TOGGLE_ENABLED,
        ).enabled,
{
}

/// Every command keeps the settings well formed.
pub proof fn lemma_commands_keep_well_formed(s: Settings, command: usize)
    requires
        s.well_formed(),
    ensures
        command_settings(s, command).well_formed(),
{
}

/// The submenu whose items choose the same setting as `command`, if it is
/// such a choice.
pub open spec fn choice_group(menu: TrayMenuView, command: usize) -> Seq<MenuEntryView> {
    if command == ID_WIDTH_THIN || command == ID_WIDTH_NORMAL || command == ID_WIDTH_THICK {
        menu.width
    } else if command == ID_DURATION_SHORT || command == ID_DURATION_NORMAL || command
        == ID_DURATION_LONG {
        menu.duration
    } else if command == ID_SPAN_SEGMENT || command == ID_SPAN_FULL {
        menu.span
    } else if command == ID_OPTIMIZE_SMOOTH || command == ID_OPTIMIZE_EFFICIENT {
        menu.performance
    } else {
        seq![]
    }
}

pub open spec fn is_choice_command(command: usize) -> bool {
    ||| command == ID_WIDTH_THIN
    ||| command == ID_WIDTH_NORMAL
    ||| command == ID_WIDTH_THICK
    ||| command == ID_DURATION_SHORT
    ||| command == ID_DURATION_NORMAL
    ||| command == ID_DURATION_LONG
    ||| command == ID_SPAN_SEGMENT
    ||| command == ID_SPAN_FULL
    ||| command == ID_OPTIMIZE_SMOOTH
    ||| command == ID_OPTIMIZE_EFFICIENT
}

/// After a width, duration, span or performance choice, the menu checks
/// exactly the chosen item of that submenu.
pub proof fn lemma_menu_shows_choice(s: Settings, command: usize)
    requires
        is_choice_command(command),
    ensures
        ({
            let group = choice_group(
                spec_tray_menu(spec_tray_menu_state(command_settings(s, command))),
                command,
            );
            &&& forall|i: int|
                0 <= i < group.len() ==> (#[trigger] group[i] is Item && (item_checked(group[i])
                    <==> item_id(group[i]) == command))
            &&& exists|i: int| 0 <= i < group.len() && item_id(#[trigger] group[i]) == command
        }),
{
    let group = choice_group(
        spec_tray_menu(spec_tray_menu_state(command_settings(s, command))),
        command,
    );
    if command == ID_WIDTH_THIN || command == ID_DURATION_SHORT || command == ID_SPAN_SEGMENT
        || command == ID_OPTIMIZE_SMOOTH {
        assert(item_id(group[0]) == command);
    } else if command == ID_WIDTH_NORMAL || command == ID_DURATION_NORMAL || command == ID_SPAN_FULL
        || command == ID_OPTIMIZE_EFFICIENT {
        assert(item_id(group[1]) == command);
    } else {
        assert(item_id(group[2]) == command);
    }
}

/// Where the screen does not cut it off, the band is as thick across the
/// boundary as the configured width (at least `MIN_BAND_THICKNESS`); the
/// boundary runs through it wherever it lies on the screen.
pub proof fn lemma_band_thickness(
    settings: Settings,
    previous: Rect,
    current: Rect,
    cursor: Point,
    screen: Rect,
)
    requires
        spec_band(settings, previous, current, cursor, screen) is Some,
    ensures
        ({
            let (band, vertical) = spec_band(settings, previous, current, cursor, screen)->0;
            let boundary = boundary_axis(previous, current, cursor).1;
            let t = band_thickness(settings);
            &&& vertical && screen.left <= boundary <= screen.right ==> band.left <= boundary
                <= band.right
            &&& !vertical && screen.top <= boundary <= screen.bottom ==> band.top <= boundary
                <= band.bottom
            &&& vertical && screen.left <= boundary - t / 2 && boundary + (t + 1) / 2 <= screen.right
                ==> band.right - band.left == t
            &&& !vertical && screen.top <= boundary - t / 2 && boundary + (t + 1) / 2
                <= screen.bottom ==> band.bottom - band.top == t
        }),
{
}

/// A crossing segment lies where both monitors border each other and is at
/// most `MAX_SEGMENT_LEN` long.
pub proof fn lemma_segment_band_bounded(
    settings: Settings,
    previous: Rect,
    current: Rect,
    cursor: Point,
    screen: Rect,
)
    requires
        settings.span_mode == BoundarySpanMode::CrossingSegment,
        band_defined(settings, previous, current, cursor),
        spec_band(settings, previous, current, cursor, screen) is Some,
    ensures
        ({
            let (band, vertical) = spec_band(settings, previous, current, cursor, screen)->0;
            &&& vertical ==> {
                &&& max_int(previous.top as int, current.top as int) <= band.top
                &&& band.bottom <= min_int(previous.bottom as int, current.bottom as int)
                &&& band.bottom - band.top <= MAX_SEGMENT_LEN
            }
            &&& !vertical ==> {
                &&& max_int(previous.left as int, current.left as int) <= band.left
                &&& band.right <= min_int(previous.right as int, current.right as int)
                &&& band.right - band.left <= MAX_SEGMENT_LEN
            }
        }),
{
}

/// In segment mode, a band shown for a crossing covers the cursor's
/// position along the boundary whenever that position lies where the two
/// monitors border each other and on the screen.
pub open spec fn segment_covers_cursor(
    r: Option<(Rect, bool)>,
    previous: Rect,
    current: Rect,
    cursor: Point,
    screen: Rect,
) -> bool {
    r matches Some((band, vertical)) ==> {
        &&& vertical && max_int(previous.top as int, current.top as int) <= cursor.y <= min_int(
            previous.bottom as int,
            current.bottom as int,
        ) && screen.top <= cursor.y <= screen.bottom ==> band.top <= cursor.y <= band.bottom
        &&& !vertical && max_int(previous.left as int, current.left as int) <= cursor.x <= min_int(
            previous.right as int,
            current.right as int,
        ) && screen.left <= cursor.x <= screen.right ==> band.left <= cursor.x <= band.right
    }
}

/// A crossing segment is placed around the point where the cursor crossed:
/// its extent along the boundary covers the cursor's coordinate along the
/// boundary (within the monitors' overlap and the screen).
pub proof fn lemma_segment_covers_cursor(
    settings: Settings,
    previous: Rect,
    current: Rect,
    cursor: Point,
    screen: Rect,
)
    requires
        settings.span_mode == BoundarySpanMode::CrossingSegment,
    ensures
        segment_covers_cursor(
            spec_band(settings, previous, current, cursor, screen),
            previous,
            current,
            cursor,
            screen,
        ),
{
}

/// The settings after `command` differ from `before` only in the one
/// setting the command is about: "Enabled" flips `enabled`; a width,
/// duration, span or performance choice replaces just that field; every
/// other command leaves the settings alone.
pub open spec fn changes_only_its_setting(before: Settings, command: usize, after: Settings) -> bool {
    if command == ID_TOGGLE_ENABLED {
        after == Settings { enabled: !before.enabled, ..before }
    } else if command == ID_WIDTH_THIN || command == ID_WIDTH_NORMAL || command == ID_WIDTH_THICK {
        after == Settings { overlay: OverlayStyle { width: after.overlay.width, ..before.overlay }, ..before }
    } else if command == ID_DURATION_SHORT || command == ID_DURATION_NORMAL || command
        == ID_DURATION_LONG {
        after == Settings {
            overlay: OverlayStyle { duration_ms: after.overlay.duration_ms, ..before.overlay },
            ..before
        }
    } else if command == ID_SPAN_SEGMENT || command == ID_SPAN_FULL {
        after == Settings { span_mode: after.span_mode, ..before }
    } else if command == ID_OPTIMIZE_SMOOTH || command == ID_OPTIMIZE_EFFICIENT {
        after == Settings { optimization: after.optimization, ..before }
    } else {
        after == before
    }
}

/// Each tray command changes only its own setting.
pub proof fn lemma_command_changes_only_its_setting(s: Settings, command: usize)
    ensures
        changes_only_its_setting(s, command, command_settings(s, command)),
{
}

/// A choice item's label names the value its command selects.
pub open spec fn label_names_choice(label: Seq<char>, after: Settings) -> bool {
    ||| label == "Thin (32px)"@ && after.overlay.width == 32
    ||| label == "Normal (48px)"@ && after.overlay.width == 48
    ||| label == "Thick (72px)"@ && after.overlay.width == 72
    ||| label == "Short"@ && after.overlay.duration_ms == 140
    ||| label == "Normal"@ && after.overlay.duration_ms == 220
    ||| label == "Long"@ && after.overlay.duration_ms == 340
    ||| label == "Crossing segment"@ && after.span_mode == BoundarySpanMode::CrossingSegment
    ||| label == "Full boundary"@ && after.span_mode == BoundarySpanMode::FullBoundary
    ||| label == "Smooth"@ && after.optimization == OverlayOptimizationMode::Smooth
    ||| label == "Efficient"@ && after.optimization == OverlayOptimizationMode::Efficient
}

pub open spec fn item_label(e: MenuEntryView) -> Seq<char> {
    match e {
        MenuEntryView::Item { label, .. } => label,
        _ => Seq::empty(),
    }
}

/// The items of the width, duration, span and performance submenus.
pub open spec fn choice_items(menu: TrayMenuView) -> Seq<MenuEntryView> {
    menu.width + menu.duration + menu.span + menu.performance
}

/// In the menu shown for settings `s`: every choice item is a command item
/// whose label names the value its command selects, and it is checked
/// exactly when choosing it would leave the settings as they are; the
/// "Enabled" item toggles the glow and is checked exactly when it is on.
pub proof fn lemma_menu_matches_settings(s: Settings)
    ensures
        ({
            let menu = spec_tray_menu(spec_tray_menu_state(s));
            let items = choice_items(menu);
            &&& forall|i: int|
                0 <= i < items.len() ==> {
                    &&& #[trigger] items[i] is Item
                    &&& label_names_choice(item_label(items[i]), command_settings(s, item_id(items[i])))
                    &&& item_checked(items[i]) <==> command_settings(s, item_id(items[i])) == s
                }
            &&& menu.main[0] is Item
            &&& item_id(menu.main[0]) == ID_TOGGLE_ENABLED
            &&& item_label(menu.main[0]) == "Enabled"@
            &&& item_checked(menu.main[0]) == s.enabled
        }),
{
    let menu = spec_tray_menu(spec_tray_menu_state(s));
    let items = choice_items(menu);
    assert(items.len() == 10);
    assert forall|i: int| 0 <= i < items.len() implies {
        &&& #[trigger] items[i] is Item
        &&& label_names_choice(item_label(items[i]), command_settings(s, item_id(items[i])))
        &&& item_checked(items[i]) <==> command_settings(s, item_id(items[i])) == s
    } by {
        if i < 3 {
            assert(items[i] == menu.width[i]);
        } else if i < 6 {
            assert(items[i] == menu.duration[i - 3]);
        } else if i < 8 {
            assert(items[i] == menu.span[i - 6]);
        } else {
            assert(items[i] == menu.performance[i - 8]);
        }
    }
}

/// A command that asks for something besides a settings change changes no
/// setting; hiding the glow is asked for only when the command turned it
/// off; and a command asks for at most one thing.
pub proof fn lemma_command_effects(s: Settings, command: usize)
    ensures
        ({
            let e = command_effects(s, command);
            let after = command_settings(s, command);
            &&& e.hide_overlay ==> !after.enabled && s.enabled
            &&& e.reload_monitors || e.pick_color || e.close ==> after == s
            &&& (e.hide_overlay as int) + (e.reload_monitors as int) + (e.pick_color as int) + (
            e.close as int) <= 1
        }),
{
}

/// In the menu shown for settings `s`, the commands of the main menu and of
/// the color submenu do what their labels say: "Enabled" turns the glow on
/// or off, "Reload monitors" re-enumerates the monitors, "Quit" closes the
/// application, "Choose color..." asks for a color, and the grayed first
/// color item names the current color.
pub proof fn lemma_menu_commands_match_labels(s: Settings)
    ensures
        ({
            let menu = spec_tray_menu(spec_tray_menu_state(s));
            &&& forall|i: int|
                0 <= i < menu.main.len() && (#[trigger] menu.main[i] is Item) ==> {
                    let id = item_id(menu.main[i]);
                    let label = item_label(menu.main[i]);
                    &&& label == "Enabled"@ ==> command_settings(s, id).enabled == !s.enabled
                    &&& label == "Reload monitors"@ ==> command_effects(s, id).reload_monitors
                    &&& label == "Quit"@ ==> command_effects(s, id).close
                }
            &&& forall|i: int|
                0 <= i < menu.color.len() && (#[trigger] menu.color[i] is Item) ==> {
                    let id = item_id(menu.color[i]);
                    let label = item_label(menu.color[i]);
                    &&& label == "Choose color..."@ ==> command_effects(s, id).pick_color
                }
            &&& menu.color[0] matches MenuEntryView::Item { label, grayed, .. } && grayed && label
                == color_label_text(s.overlay.color)
        }),
{
    let menu = spec_tray_menu(spec_tray_menu_state(s));
    reveal_strlit("Enabled");
    reveal_strlit("Reload monitors");
    reveal_strlit("Reset to defaults");
    reveal_strlit("Quit");
    reveal_strlit("Choose color...");
    assert("Enabled"@.len() == 7);
    assert("Reload monitors"@.len() == 15);
    assert("Reset to defaults"@.len() == 17);
    assert("Quit"@.len() == 4);
    assert forall|i: int| 0 <= i < menu.main.len() && (#[trigger] menu.main[i] is Item) implies {
        let id = item_id(menu.main[i]);
        let label = item_label(menu.main[i]);
        &&& label == "Enabled"@ ==> command_settings(s, id).enabled == !s.enabled
        &&& label == "Reload monitors"@ ==> command_effects(s, id).reload_monitors
        &&& label == "Quit"@ ==> command_effects(s, id).close
    } by {
        assert(i == 0 || i == 1 || i == 2 || i == 10);
    }
    assert forall|i: int| 0 <= i < menu.color.len() && (#[trigger] menu.color[i] is Item) implies {
        let id = item_id(menu.color[i]);
        let label = item_label(menu.color[i]);
        label == "Choose color..."@ ==> command_effects(s, id).pick_color
    } by {
        if i == 0 {
            let label = color_label_text(s.overlay.color);
            assert(label[0] == 'C');
            assert("Choose color..."@[1] == 'h');
            assert(label[1] == 'u');
        }
    }
}

/// A crossing segment that the screen does not cut is as long as the
/// monitors' overlap allows, and at least twice the band's thickness and
/// six times the distance the cursor went past the boundary, up to
/// `MAX_SEGMENT_LEN`.
pub proof fn lemma_segment_length(
    settings: Settings,
    previous: Rect,
    current: Rect,
    cursor: Point,
    screen: Rect,
)
    requires
        settings.span_mode == BoundarySpanMode::CrossingSegment,
        band_defined(settings, previous, current, cursor),
        spec_band(settings, previous, current, cursor, screen) is Some,
    ensures
        ({
            let (band, vertical) = spec_band(settings, previous, current, cursor, screen)->0;
            let boundary = boundary_axis(previous, current, cursor).1;
            let t = band_thickness(settings);
            &&& vertical && screen.top <= max_int(previous.top as int, current.top as int)
                && min_int(previous.bottom as int, current.bottom as int) <= screen.bottom ==> {
                let overlap = min_int(previous.bottom as int, current.bottom as int) - max_int(
                    previous.top as int,
                    current.top as int,
                );
                &&& band.bottom - band.top >= min_int(2 * t, overlap)
                &&& band.bottom - band.top >= min_int(
                    min_int(6 * abs_int(cursor.x - boundary), MAX_SEGMENT_LEN as int),
                    overlap,
                )
            }
            &&& !vertical && screen.left <= max_int(previous.left as int, current.left as int)
                && min_int(previous.right as int, current.right as int) <= screen.right ==> {
                let overlap = min_int(previous.right as int, current.right as int) - max_int(
                    previous.left as int,
                    current.left as int,
                );
                &&& band.right - band.left >= min_int(2 * t, overlap)
                &&& band.right - band.left >= min_int(
                    min_int(6 * abs_int(cursor.y - boundary), MAX_SEGMENT_LEN as int),
                    overlap,
                )
            }
        }),
{
}

/// In full-boundary mode the band runs along the whole of both monitors'
/// edges and at most `SPAN_PAD` beyond, as far as the screen reaches.
pub proof fn lemma_full_band_spans_both(
    settings: Settings,
    previous: Rect,
    current: Rect,
    cursor: Point,
    screen: Rect,
)
    requires
        settings.span_mode == BoundarySpanMode::FullBoundary,
        spec_band(settings, previous, current, cursor, screen) is Some,
    ensures
        ({
            let (band, vertical) = spec_band(settings, previous, current, cursor, screen)->0;
            let lo_v = min_int(previous.top as int, current.top as int);
            let hi_v = max_int(previous.bottom as int, current.bottom as int);
            let lo_h = min_int(previous.left as int, current.left as int);
            let hi_h = max_int(previous.right as int, current.right as int);
            &&& vertical ==> {
                &&& band.top <= max_int(lo_v, screen.top as int)
                &&& band.bottom >= min_int(hi_v, screen.bottom as int)
                &&& band.top >= lo_v - SPAN_PAD
                &&& band.bottom <= hi_v + SPAN_PAD
            }
            &&& !vertical ==> {
                &&& band.left <= max_int(lo_h, screen.left as int)
                &&& band.right >= min_int(hi_h, screen.right as int)
                &&& band.left >= lo_h - SPAN_PAD
                &&& band.right <= hi_h + SPAN_PAD
            }
        }),
{
}

} // verus!
