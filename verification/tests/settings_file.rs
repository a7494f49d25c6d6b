use jinagam::overlay::{OverlayOptimizationMode, OverlayStyle};
use jinagam::settings::{
    default_settings, parse_settings, serialize_settings, settings_or_default, BoundarySpanMode,
    Settings,
};

fn with_width(width: i32) -> Settings {
    let mut s = default_settings();
    s.overlay.width = width;
    s
}

#[test]
fn defaults_are_the_documented_ones() {
    let s = default_settings();
    assert!(s.enabled);
    assert_eq!(s.overlay.color, 0x00FF_B46E);
    assert_eq!(s.overlay.width, 32);
    assert_eq!(s.overlay.intensity, 220);
    assert_eq!(s.overlay.duration_ms, 220);
    assert_eq!(s.span_mode, BoundarySpanMode::FullBoundary);
    assert_eq!(s.optimization, OverlayOptimizationMode::Efficient);
}

#[test]
fn empty_file_gives_defaults() {
    assert_eq!(parse_settings(""), Some(default_settings()));
}

#[test]
fn empty_line_makes_file_unreadable() {
    assert_eq!(parse_settings("\n"), None);
    assert_eq!(parse_settings("width=40\n\nenabled=1\n"), None);
}

#[test]
fn line_without_equals_makes_file_unreadable() {
    assert_eq!(parse_settings("enabled\n"), None);
    assert_eq!(parse_settings("width=40\nnonsense"), None);
}

#[test]
fn full_file_is_read() {
    let text = "enabled=0\ncolor=00112233\nwidth=50\nduration_ms=100\nspan_mode=segment\noptimization=smooth\n";
    let s = parse_settings(text).unwrap();
    assert!(!s.enabled);
    assert_eq!(s.overlay.color, 0x0011_2233);
    assert_eq!(s.overlay.width, 50);
    assert_eq!(s.overlay.duration_ms, 100);
    assert_eq!(s.overlay.intensity, 220);
    assert_eq!(s.span_mode, BoundarySpanMode::CrossingSegment);
    assert_eq!(s.optimization, OverlayOptimizationMode::Smooth);
}

#[test]
fn enabled_words() {
    for word in ["1", "true", "yes", " yes "] {
        let text = format!("enabled={}", word);
        assert!(parse_settings(&text).unwrap().enabled, "{}", word);
    }
    for word in ["0", "TRUE", "Yes", "on", ""] {
        let text = format!("enabled={}", word);
        assert!(!parse_settings(&text).unwrap().enabled, "{}", word);
    }
}

#[test]
fn width_and_duration_are_raised_to_minimum() {
    assert_eq!(parse_settings("width=5").unwrap().overlay.width, 12);
    assert_eq!(parse_settings("width=-7").unwrap().overlay.width, 12);
    assert_eq!(parse_settings("width=12").unwrap().overlay.width, 12);
    assert_eq!(parse_settings("width=-2147483648").unwrap().overlay.width, 12);
    assert_eq!(parse_settings("width=+90").unwrap().overlay.width, 90);
    assert_eq!(parse_settings("duration_ms=30").unwrap().overlay.duration_ms, 60);
    assert_eq!(parse_settings("duration_ms=61").unwrap().overlay.duration_ms, 61);
    assert_eq!(parse_settings("duration_ms=4294967295").unwrap().overlay.duration_ms, 4294967295);
}

#[test]
fn bad_numbers_make_file_unreadable() {
    for text in [
        "width=abc",
        "width=",
        "width=+",
        "width=-",
        "width=2147483648",
        "width=-2147483649",
        "width=1 2",
        "color=xyz",
        "color=",
        "color=0xff",
        "color=100000000",
        "color=-1",
        "duration_ms=-5",
        "duration_ms=4294967296",
        "duration_ms=1.5",
    ] {
        assert_eq!(parse_settings(text), None, "{}", text);
    }
}

#[test]
fn hex_colors_take_either_case_and_a_plus() {
    assert_eq!(parse_settings("color=ff").unwrap().overlay.color, 0xff);
    assert_eq!(parse_settings("color=+FfEe").unwrap().overlay.color, 0xffee);
    assert_eq!(parse_settings("color=0000000000ABCDEF").unwrap().overlay.color, 0x00AB_CDEF);
}

#[test]
fn keys_and_values_are_trimmed() {
    let s = parse_settings("  width = 50 \r\n\tduration_ms\t=\t70\r\n").unwrap();
    assert_eq!(s.overlay.width, 50);
    assert_eq!(s.overlay.duration_ms, 70);
    let s = parse_settings("\u{3000}width\u{2003}=\u{a0}44\u{85}").unwrap();
    assert_eq!(s.overlay.width, 44);
}

#[test]
fn only_the_first_equals_splits() {
    assert_eq!(parse_settings("width=4=4"), None);
    assert_eq!(parse_settings("span_mode=segment=x").unwrap().span_mode, BoundarySpanMode::FullBoundary);
}

#[test]
fn modes_ignore_ascii_case() {
    assert_eq!(parse_settings("span_mode=SeGmEnT").unwrap().span_mode, BoundarySpanMode::CrossingSegment);
    assert_eq!(parse_settings("span_mode=full").unwrap().span_mode, BoundarySpanMode::FullBoundary);
    assert_eq!(parse_settings("span_mode=other").unwrap().span_mode, BoundarySpanMode::FullBoundary);
    assert_eq!(parse_settings("optimization=SMOOTH").unwrap().optimization, OverlayOptimizationMode::Smooth);
    assert_eq!(parse_settings("optimization=fast").unwrap().optimization, OverlayOptimizationMode::Efficient);
}

#[test]
fn unknown_keys_are_ignored_and_later_lines_win() {
    assert_eq!(parse_settings("foo=bar\nWidth=99"), Some(default_settings()));
    let s = parse_settings("width=40\nwidth=60").unwrap();
    assert_eq!(s.overlay.width, 60);
}

#[test]
fn default_settings_are_written_as_documented() {
    let text = serialize_settings(&default_settings());
    assert_eq!(
        text,
        "enabled=1\ncolor=00FFB46E\nwidth=32\nduration_ms=220\nspan_mode=full\noptimization=efficient\n"
    );
}

#[test]
fn negative_width_and_other_modes_are_written() {
    let s = Settings {
        enabled: false,
        overlay: OverlayStyle { color: 0xABCDEF01, width: -2147483648, intensity: 7, duration_ms: 0 },
        span_mode: BoundarySpanMode::CrossingSegment,
        optimization: OverlayOptimizationMode::Smooth,
    };
    assert_eq!(
        serialize_settings(&s),
        "enabled=0\ncolor=ABCDEF01\nwidth=-2147483648\nduration_ms=0\nspan_mode=segment\noptimization=smooth\n"
    );
}

#[test]
fn written_settings_read_back() {
    let s = Settings {
        enabled: false,
        overlay: OverlayStyle { color: 0x0000_0001, width: 72, intensity: 220, duration_ms: 340 },
        span_mode: BoundarySpanMode::CrossingSegment,
        optimization: OverlayOptimizationMode::Smooth,
    };
    assert_eq!(parse_settings(&serialize_settings(&s)), Some(s));
    let low = Settings {
        overlay: OverlayStyle { color: 0xFFFF_FFFF, width: 3, intensity: 9, duration_ms: 1 },
        ..s
    };
    let back = parse_settings(&serialize_settings(&low)).unwrap();
    assert_eq!(back.overlay.width, 12);
    assert_eq!(back.overlay.duration_ms, 60);
    assert_eq!(back.overlay.intensity, 220);
    assert_eq!(back.overlay.color, 0xFFFF_FFFF);
    assert_eq!(parse_settings(&serialize_settings(&with_width(-40))).unwrap().overlay.width, 12);
}

#[test]
fn settings_fall_back_to_defaults() {
    assert_eq!(settings_or_default(None), default_settings());
    assert_eq!(settings_or_default(Some("width")), default_settings());
    assert_eq!(settings_or_default(Some("width=64")).overlay.width, 64);
}
