use jinagam::geometry::Rect;
use jinagam::overlay::{color_channels, OverlayState, OverlayStyle, SurfacePlan};
use jinagam::tray::{
    encode_wide, fill_wstr, format_color_label, tray_menu, tray_message_action, MenuEntry,
    SubmenuKind, TrayMenuState, TrayMessageAction, TrayOptimizationMode, ID_COLOR_CURRENT,
    ID_EXIT, ID_SPAN_FULL, ID_SPAN_SEGMENT, ID_TOGGLE_ENABLED, ID_WIDTH_NORMAL, ID_WIDTH_THICK,
    ID_WIDTH_THIN, WM_TRAY,
};

#[test]
fn tray_messages() {
    assert_eq!(WM_TRAY, 0x804D);
    assert_eq!(tray_message_action(WM_TRAY, 0x0205), TrayMessageAction::ShowMenu);
    assert_eq!(tray_message_action(WM_TRAY, 0x0202), TrayMessageAction::Handled);
    assert_eq!(tray_message_action(WM_TRAY, 0x0200), TrayMessageAction::NotHandled);
    assert_eq!(tray_message_action(WM_TRAY, 0x1_0000_0205), TrayMessageAction::ShowMenu);
    assert_eq!(tray_message_action(0x0113, 0x0205), TrayMessageAction::NotHandled);
}

#[test]
fn wide_strings_are_nul_terminated() {
    assert_eq!(encode_wide(""), vec![0]);
    assert_eq!(encode_wide("ab"), vec![97, 98, 0]);
    assert_eq!(encode_wide("é😀"), vec![0xE9, 0xD83D, 0xDE00, 0]);
    let s = "jinagam-rs monitor boundary glow ✓ 𝄞";
    let mut expected: Vec<u16> = s.encode_utf16().collect();
    expected.push(0);
    assert_eq!(encode_wide(s), expected);
}

#[test]
fn fill_wstr_truncates_and_zeroes() {
    let mut buf = [7u16; 5];
    fill_wstr(&mut buf, "abcdefg");
    assert_eq!(buf, [97, 98, 99, 100, 0]);
    let mut buf = [7u16; 5];
    fill_wstr(&mut buf, "ab");
    assert_eq!(buf, [97, 98, 0, 0, 0]);
    let mut buf = [7u16; 1];
    fill_wstr(&mut buf, "ab");
    assert_eq!(buf, [0]);
    let mut buf: [u16; 0] = [];
    fill_wstr(&mut buf, "ab");
    // a surrogate pair may be cut
    let mut buf = [7u16; 3];
    fill_wstr(&mut buf, "a😀");
    assert_eq!(buf, [97, 0xD83D, 0]);
}

#[test]
fn color_label_is_rgb_hex() {
    assert_eq!(format_color_label(0x00FF_B46E), "Current #6EB4FF");
    assert_eq!(format_color_label(0x0000_0000), "Current #000000");
    assert_eq!(format_color_label(0xFF01_0203), "Current #030201");
}

#[test]
fn channels_of_a_color() {
    assert_eq!(color_channels(0x0011_2233), (0x33, 0x22, 0x11));
    assert_eq!(color_channels(0xFFFF_FFFF), (0xFF, 0xFF, 0xFF));
}

fn state() -> TrayMenuState {
    TrayMenuState {
        enabled: true,
        width: 48,
        duration_ms: 999,
        span_full: false,
        color: 0x00FF_B46E,
        optimization: TrayOptimizationMode::Efficient,
    }
}

fn item(e: &MenuEntry) -> (usize, String, bool, bool) {
    match e {
        MenuEntry::Item { id, label, checked, grayed } => (*id, label.clone(), *checked, *grayed),
        _ => panic!("not an item"),
    }
}

#[test]
fn tray_menu_layout() {
    let m = tray_menu(&state());
    assert_eq!(m.main.len(), 11);
    assert_eq!(item(&m.main[0]), (ID_TOGGLE_ENABLED, "Enabled".to_string(), true, false));
    assert_eq!(m.main[3], MenuEntry::Separator);
    assert_eq!(m.main[4], MenuEntry::Submenu { kind: SubmenuKind::Color, label: "Color".to_string() });
    assert_eq!(m.main[8], MenuEntry::Submenu { kind: SubmenuKind::Performance, label: "Performance".to_string() });
    assert_eq!(item(&m.main[10]), (ID_EXIT, "Quit".to_string(), false, false));
    assert_eq!(item(&m.color[0]), (ID_COLOR_CURRENT, "Current #6EB4FF".to_string(), true, true));
    assert_eq!(item(&m.color[2]).1, "Choose color...");
}

#[test]
fn tray_menu_checks_current_choices() {
    let m = tray_menu(&state());
    assert_eq!(item(&m.width[0]), (ID_WIDTH_THIN, "Thin (32px)".to_string(), false, false));
    assert_eq!(item(&m.width[1]), (ID_WIDTH_NORMAL, "Normal (48px)".to_string(), true, false));
    assert_eq!(item(&m.width[2]), (ID_WIDTH_THICK, "Thick (72px)".to_string(), false, false));
    assert!(m.duration.iter().all(|e| !item(e).2));
    assert_eq!(item(&m.span[0]), (ID_SPAN_SEGMENT, "Crossing segment".to_string(), true, false));
    assert_eq!(item(&m.span[1]), (ID_SPAN_FULL, "Full boundary".to_string(), false, false));
    assert!(!item(&m.performance[0]).2);
    assert!(item(&m.performance[1]).2);
}

#[test]
fn overlay_state_transitions() {
    let mut o = OverlayState::new();
    assert!(!o.visible);
    assert_eq!(o.style, OverlayStyle { color: 0x002830FF, width: 48, intensity: 220, duration_ms: 220 });
    let band = Rect { left: 10, top: 20, right: 42, bottom: 1020 };
    assert_eq!(o.show_band(band, true), (10, 20, 32, 1000));
    assert!(o.visible);
    assert_eq!(o.band_rect, band);
    let style = OverlayStyle { color: 1, width: 72, intensity: 220, duration_ms: 340 };
    assert!(o.update_style(style));
    assert_eq!(o.style, style);
    o.hide_band();
    assert!(!o.visible);
    assert!(!o.update_style(style));
}

#[test]
fn surface_plans() {
    let mut o = OverlayState::new();
    assert_eq!(o.surface_plan(0, 10, false), SurfacePlan::Invalid);
    assert_eq!(o.surface_plan(10, -1, true), SurfacePlan::Invalid);
    assert_eq!(o.surface_plan(32, 100, false), SurfacePlan::Recreate);
    o.surface_created(32, 100);
    assert_eq!(o.surface_plan(32, 100, true), SurfacePlan::Reuse);
    assert_eq!(o.surface_plan(32, 100, false), SurfacePlan::Recreate);
    assert_eq!(o.surface_plan(33, 100, true), SurfacePlan::Recreate);
    o.surface_released();
    assert_eq!((o.surface_w, o.surface_h), (0, 0));
}
