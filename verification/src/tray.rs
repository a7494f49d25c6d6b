//! The tray icon's menu: command identifiers, the state the menu shows, and
//! the text the icon and menu are given.
use vstd::prelude::*;

use crate::overlay::{blue, color_channels, green, red};
use crate::text::{
    all_digits, digits_value, hex_fixed, lemma_hex_fixed, lemma_hex_fixed_len, pow16, push_hex, string_from_chars, utf16,
    utf16_units,
};

verus! {

/// The window message the tray icon reports mouse events with.
pub const WM_TRAY: u32 = 0x8000 + 77;

pub const ID_TOGGLE_ENABLED: usize = 1001;

pub const ID_RELOAD_MONITORS: usize = 1002;

pub const ID_RESET_DEFAULTS: usize = 1003;

pub const ID_EXIT: usize = 1004;

pub const ID_COLOR_CURRENT: usize = 2000;

pub const ID_COLOR_PICKER: usize = 2001;

pub const ID_WIDTH_THIN: usize = 2101;

pub const ID_WIDTH_NORMAL: usize = 2102;

pub const ID_WIDTH_THICK: usize = 2103;

pub const ID_DURATION_SHORT: usize = 2301;

pub const ID_DURATION_NORMAL: usize = 2302;

pub const ID_DURATION_LONG: usize = 2303;

pub const ID_SPAN_SEGMENT: usize = 2401;

pub const ID_SPAN_FULL: usize = 2402;

pub const ID_OPTIMIZE_SMOOTH: usize = 2501;

pub const ID_OPTIMIZE_EFFICIENT: usize = 2502;

/// The widths and durations the menu offers.
pub const WIDTH_THIN: i32 = 32;

pub const WIDTH_NORMAL: i32 = 48;

pub const WIDTH_THICK: i32 = 72;

pub const DURATION_SHORT: u32 = 140;

pub const DURATION_NORMAL: u32 = 220;

pub const DURATION_LONG: u32 = 340;

#[derive(Clone, Copy, Debug, PartialEq, Eq, Structural)]
pub enum TrayOptimizationMode {
    Smooth,
    Efficient,
}

/// What the tray menu shows as selected.
#[derive(Clone, Copy, Debug, PartialEq, Eq, Structural)]
pub struct TrayMenuState {
    pub enabled: bool,
    pub width: i32,
    pub duration_ms: u32,
    pub span_full: bool,
    pub color: u32,
    pub optimization: TrayOptimizationMode,
}

/// What a message to the tray icon's window asks for.
#[derive(Clone, Copy, Debug, PartialEq, Eq, Structural)]
pub enum TrayMessageAction {
    /// Not a tray message, or one the tray ignores: the window handles it.
    NotHandled,
    /// A tray message that needs nothing more.
    Handled,
    /// Show the tray menu; the message is handled.
    ShowMenu,
}

/// Tray messages carry the mouse event in `lparam`: a right-button release
/// (`0x0205`) opens the menu, a left-button release (`0x0202`) is taken and
/// ignored, anything else is left to the window.
pub open spec fn spec_tray_message_action(msg: u32, lparam: isize) -> TrayMessageAction {
    if msg != WM_TRAY {
        TrayMessageAction::NotHandled
    } else if lparam as u32 == 0x0205 {
        TrayMessageAction::ShowMenu
    } else if lparam as u32 == 0x0202 {
        TrayMessageAction::Handled
    } else {
        TrayMessageAction::NotHandled
    }
}

pub fn tray_message_action(msg: u32, lparam: isize) -> (a: TrayMessageAction)
    ensures
        a == spec_tray_message_action(msg, lparam),
        a == TrayMessageAction::ShowMenu <==> msg == WM_TRAY && lparam as u32 == 0x0205,
        a == TrayMessageAction::Handled <==> msg == WM_TRAY && lparam as u32 == 0x0202,
        a == TrayMessageAction::NotHandled <==> !(msg == WM_TRAY && (lparam as u32 == 0x0205
            || lparam as u32 == 0x0202)),
{
    proof {
        lemma_tray_menu_opens_on_right_release(msg, lparam);
    }
    if msg != WM_TRAY {
        return TrayMessageAction::NotHandled;
    }
    let event = lparam as u32;
    if event == 0x0205 {
        TrayMessageAction::ShowMenu
    } else if event == 0x0202 {
        TrayMessageAction::Handled
    } else {
        TrayMessageAction::NotHandled
    }
}

/// `s` as a NUL-terminated UTF-16 string.
pub fn encode_wide(s: &str) -> (wide: Vec<u16>)
    ensures
        wide@ == utf16(s@).push(0),
{
    let mut wide = utf16_units(s);
    wide.push(0);
    wide
}

/// How many code units of `s` fit in a buffer of `len` units before the
/// terminating NUL.
pub open spec fn fitting_units(s: Seq<char>, len: nat) -> nat {
    let room: nat = if len >= 1 {
        (len - 1) as nat
    } else {
        0
    };
    if utf16(s).len() <= room {
        utf16(s).len()
    } else {
        room
    }
}

/// Writes `s` into `buf` as UTF-16, cut to leave room for a NUL, and zeroes
/// the rest of the buffer.
pub fn fill_wstr(buf: &mut [u16], s: &str)
    ensures
        final(buf)@.len() == old(buf)@.len(),
        forall|i: int|
            0 <= i < fitting_units(s@, old(buf)@.len()) ==> #[trigger] final(buf)@[i] == utf16(s@)[i],
        forall|i: int|
            fitting_units(s@, old(buf)@.len()) <= i < old(buf)@.len() ==> #[trigger] final(buf)@[i]
                == 0,
        old(buf)@.len() > 0 ==> final(buf)@[old(buf)@.len() - 1] == 0,
{
    let units = utf16_units(s);
    let room: usize = if buf.len() >= 1 {
        buf.len() - 1
    } else {
        0
    };
    let count: usize = if units.len() <= room {
        units.len()
    } else {
        room
    };
    let ghost len0 = buf@.len();
    let mut i: usize = 0;
    while i < buf.len()
        invariant
            i <= buf@.len(),
            buf@.len() == len0,
            count as nat == fitting_units(s@, len0),
            units@ == utf16(s@),
            count <= units@.len(),
            forall|j: int| 0 <= j < i && j < count ==> #[trigger] buf@[j] == units@[j],
            forall|j: int| count <= j < i ==> #[trigger] buf@[j] == 0,
        decreases buf@.len() - i,
    {
        if i < count {
            buf[i] = units[i];
        } else {
            buf[i] = 0;
        }
        i += 1;
    }
}

/// The label of the menu's current-color item: `Current #RRGGBB`.
pub open spec fn color_label_text(color: u32) -> Seq<char> {
    seq!['C', 'u', 'r', 'r', 'e', 'n', 't', ' ', '#'] + hex_fixed(red(color), 2) + hex_fixed(
        green(color),
        2,
    ) + hex_fixed(blue(color), 2)
}

pub fn format_color_label(color: u32) -> (label: String)
    ensures
        label@ == color_label_text(color),
{
    let (r, g, b) = color_channels(color);
    let mut out: Vec<char> = vec!['C', 'u', 'r', 'r', 'e', 'n', 't', ' ', '#'];
    push_hex(&mut out, r as u32, 2);
    push_hex(&mut out, g as u32, 2);
    push_hex(&mut out, b as u32, 2);
    string_from_chars(&out)
}

/// The submenus of the tray menu.
#[derive(Clone, Copy, Debug, PartialEq, Eq, Structural)]
pub enum SubmenuKind {
    Color,
    Width,
    Duration,
    Span,
    Performance,
}

/// One entry of a tray menu.
#[derive(Debug, PartialEq, Eq)]
pub enum MenuEntry {
    /// A command; `grayed` items cannot be chosen.
    Item { id: usize, label: String, checked: bool, grayed: bool },
    Separator,
    /// Opens the submenu `kind`.
    Submenu { kind: SubmenuKind, label: String },
}

pub enum MenuEntryView {
    Item { id: usize, label: Seq<char>, checked: bool, grayed: bool },
    Separator,
    Submenu { kind: SubmenuKind, label: Seq<char> },
}

impl View for MenuEntry {
    type V = MenuEntryView;

    open spec fn view(&self) -> MenuEntryView {
        match self {
            MenuEntry::Item { id, label, checked, grayed } => MenuEntryView::Item {
                id: *id,
                label: label@,
                checked: *checked,
                grayed: *grayed,
            },
            MenuEntry::Separator => MenuEntryView::Separator,
            MenuEntry::Submenu { kind, label } => MenuEntryView::Submenu { kind: *kind, label: label@ },
        }
    }
}

/// The tray menu: the main menu and its submenus.
pub struct TrayMenu {
    pub main: Vec<MenuEntry>,
    pub color: Vec<MenuEntry>,
    pub width: Vec<MenuEntry>,
    pub duration: Vec<MenuEntry>,
    pub span: Vec<MenuEntry>,
    pub performance: Vec<MenuEntry>,
}

pub struct TrayMenuView {
    pub main: Seq<MenuEntryView>,
    pub color: Seq<MenuEntryView>,
    pub width: Seq<MenuEntryView>,
    pub duration: Seq<MenuEntryView>,
    pub span: Seq<MenuEntryView>,
    pub performance: Seq<MenuEntryView>,
}

/// The identifier of a command item (zero for other entries).
pub open spec fn item_id(e: MenuEntryView) -> usize {
    match e {
        MenuEntryView::Item { id, .. } => id,
        _ => 0,
    }
}

/// Whether an entry is a checked command item.
pub open spec fn item_checked(e: MenuEntryView) -> bool {
    match e {
        MenuEntryView::Item { checked, .. } => checked,
        _ => false,
    }
}

pub open spec fn entries_view(entries: Seq<MenuEntry>) -> Seq<MenuEntryView> {
    entries.map_values(|e: MenuEntry| e@)
}

impl View for TrayMenu {
    type V = TrayMenuView;

    open spec fn view(&self) -> TrayMenuView {
        TrayMenuView {
            main: entries_view(self.main@),
            color: entries_view(self.color@),
            width: entries_view(self.width@),
            duration: entries_view(self.duration@),
            span: entries_view(self.span@),
            performance: entries_view(self.performance@),
        }
    }
}

pub open spec fn item_view(id: usize, label: Seq<char>, checked: bool) -> MenuEntryView {
    MenuEntryView::Item { id, label, checked, grayed: false }
}

/// The tray menu for `state`: each choice is checked when the state holds
/// it, and the color submenu shows the current color as a grayed, checked
/// item.
pub open spec fn spec_tray_menu(state: TrayMenuState) -> TrayMenuView {
    TrayMenuView {
        main: seq![
            item_view(ID_TOGGLE_ENABLED, "Enabled"@, state.enabled),
            item_view(ID_RELOAD_MONITORS, "Reload monitors"@, false),
            item_view(ID_RESET_DEFAULTS, "Reset to defaults"@, false),
            MenuEntryView::Separator,
            MenuEntryView::Submenu { kind: SubmenuKind::Color, label: "Color"@ },
            MenuEntryView::Submenu { kind: SubmenuKind::Width, label: "Width"@ },
            MenuEntryView::Submenu { kind: SubmenuKind::Duration, label: "Duration"@ },
            MenuEntryView::Submenu { kind: SubmenuKind::Span, label: "Span"@ },
            MenuEntryView::Submenu { kind: SubmenuKind::Performance, label: "Performance"@ },
            MenuEntryView::Separator,
            item_view(ID_EXIT, "Quit"@, false),
        ],
        color: seq![
            MenuEntryView::Item {
                id: ID_COLOR_CURRENT,
                label: color_label_text(state.color),
                checked: true,
                grayed: true,
            },
            MenuEntryView::Separator,
            item_view(ID_COLOR_PICKER, "Choose color..."@, false),
        ],
        width: seq![
            item_view(ID_WIDTH_THIN, "Thin (32px)"@, state.width == WIDTH_THIN),
            item_view(ID_WIDTH_NORMAL, "Normal (48px)"@, state.width == WIDTH_NORMAL),
            item_view(ID_WIDTH_THICK, "Thick (72px)"@, state.width == WIDTH_THICK),
        ],
        duration: seq![
            item_view(ID_DURATION_SHORT, "Short"@, state.duration_ms == DURATION_SHORT),
            item_view(ID_DURATION_NORMAL, "Normal"@, state.duration_ms == DURATION_NORMAL),
            item_view(ID_DURATION_LONG, "Long"@, state.duration_ms == DURATION_LONG),
        ],
        span: seq![
            item_view(ID_SPAN_SEGMENT, "Crossing segment"@, !state.span_full),
            item_view(ID_SPAN_FULL, "Full boundary"@, state.span_full),
        ],
        performance: seq![
            item_view(
                ID_OPTIMIZE_SMOOTH,
                "Smooth"@,
                state.optimization == TrayOptimizationMode::Smooth,
            ),
            item_view(
                ID_OPTIMIZE_EFFICIENT,
                "Efficient"@,
                state.optimization == TrayOptimizationMode::Efficient,
            ),
        ],
    }
}

fn menu_item(id: usize, label: &str, checked: bool) -> (e: MenuEntry)
    ensures
        e@ == item_view(id, label@, checked),
{
    MenuEntry::Item { id, label: String::from_str(label), checked, grayed: false }
}

fn submenu(kind: SubmenuKind, label: &str) -> (e: MenuEntry)
    ensures
        e@ == (MenuEntryView::Submenu { kind, label: label@ }),
{
    MenuEntry::Submenu { kind, label: String::from_str(label) }
}

/// The entries of the tray menu for `state` (see `spec_tray_menu`).
pub fn tray_menu(state: &TrayMenuState) -> (menu: TrayMenu)
    ensures
        menu@ == spec_tray_menu(*state),
{
    let mut main: Vec<MenuEntry> = Vec::new();
    main.push(menu_item(ID_TOGGLE_ENABLED, "Enabled", state.enabled));
    main.push(menu_item(ID_RELOAD_MONITORS, "Reload monitors", false));
    main.push(menu_item(ID_RESET_DEFAULTS, "Reset to defaults", false));
    main.push(MenuEntry::Separator);
    main.push(submenu(SubmenuKind::Color, "Color"));
    main.push(submenu(SubmenuKind::Width, "Width"));
    main.push(submenu(SubmenuKind::Duration, "Duration"));
    main.push(submenu(SubmenuKind::Span, "Span"));
    main.push(submenu(SubmenuKind::Performance, "Performance"));
    main.push(MenuEntry::Separator);
    main.push(menu_item(ID_EXIT, "Quit", false));

    let mut color: Vec<MenuEntry> = Vec::new();
    color.push(
        MenuEntry::Item {
            id: ID_COLOR_CURRENT,
            label: format_color_label(state.color),
            checked: true,
            grayed: true,
        },
    );
    color.push(MenuEntry::Separator);
    color.push(menu_item(ID_COLOR_PICKER, "Choose color...", false));

    let mut width: Vec<MenuEntry> = Vec::new();
    width.push(menu_item(ID_WIDTH_THIN, "Thin (32px)", state.width == WIDTH_THIN));
    width.push(menu_item(ID_WIDTH_NORMAL, "Normal (48px)", state.width == WIDTH_NORMAL));
    width.push(menu_item(ID_WIDTH_THICK, "Thick (72px)", state.width == WIDTH_THICK));

    let mut duration: Vec<MenuEntry> = Vec::new();
    duration.push(menu_item(ID_DURATION_SHORT, "Short", state.duration_ms == DURATION_SHORT));
    duration.push(menu_item(ID_DURATION_NORMAL, "Normal", state.duration_ms == DURATION_NORMAL));
    duration.push(menu_item(ID_DURATION_LONG, "Long", state.duration_ms == DURATION_LONG));

    let mut span: Vec<MenuEntry> = Vec::new();
    span.push(menu_item(ID_SPAN_SEGMENT, "Crossing segment", !state.span_full));
    span.push(menu_item(ID_SPAN_FULL, "Full boundary", state.span_full));

    let mut performance: Vec<MenuEntry> = Vec::new();
    performance.push(
        menu_item(
            ID_OPTIMIZE_SMOOTH,
            "Smooth",
            state.optimization == TrayOptimizationMode::Smooth,
        ),
    );
    performance.push(
        menu_item(
            ID_OPTIMIZE_EFFICIENT,
            "Efficient",
            state.optimization == TrayOptimizationMode::Efficient,
        ),
    );
    let menu = TrayMenu { main, color, width, duration, span, performance };
    proof {
        let expected = spec_tray_menu(*state);
        assert(menu@.main =~= expected.main);
        assert(menu@.color =~= expected.color);
        assert(menu@.width =~= expected.width);
        assert(menu@.duration =~= expected.duration);
        assert(menu@.span =~= expected.span);
        assert(menu@.performance =~= expected.performance);
    }
    menu
}

/// The tray menu opens only on a right-button release on the icon; a
/// left-button release is taken and ignored; every other message, and every
/// other mouse event on the icon, is left to the window.
pub proof fn lemma_tray_menu_opens_on_right_release(msg: u32, lparam: isize)
    ensures
        spec_tray_message_action(msg, lparam) == TrayMessageAction::ShowMenu <==> msg == WM_TRAY
            && lparam as u32 == 0x0205,
        spec_tray_message_action(msg, lparam) == TrayMessageAction::Handled <==> msg == WM_TRAY
            && lparam as u32 == 0x0202,
        spec_tray_message_action(msg, lparam) == TrayMessageAction::NotHandled <==> !(msg == WM_TRAY
            && (lparam as u32 == 0x0205 || lparam as u32 == 0x0202)),
{
}

/// The color label reads back as the color: after `Current #` come two
/// hexadecimal digits each for red, green and blue, in that order.
pub proof fn lemma_color_label_denotes(color: u32)
    ensures
        ({
            let label = color_label_text(color);
            &&& label.len() == 15
            &&& label.take(9) == seq!['C', 'u', 'r', 'r', 'e', 'n', 't', ' ', '#']
            &&& all_digits(label.subrange(9, 11), 16)
            &&& digits_value(label.subrange(9, 11), 16) == red(color)
            &&& all_digits(label.subrange(11, 13), 16)
            &&& digits_value(label.subrange(11, 13), 16) == green(color)
            &&& all_digits(label.subrange(13, 15), 16)
            &&& digits_value(label.subrange(13, 15), 16) == blue(color)
        }),
{
    assert(pow16(2) == 256) by {
        reveal_with_fuel(pow16, 3);
    }
    lemma_hex_fixed(red(color), 2);
    lemma_hex_fixed(green(color), 2);
    lemma_hex_fixed(blue(color), 2);
    lemma_hex_fixed_len(red(color), 2);
    lemma_hex_fixed_len(green(color), 2);
    lemma_hex_fixed_len(blue(color), 2);
    let label = color_label_text(color);
    let prefix = seq!['C', 'u', 'r', 'r', 'e', 'n', 't', ' ', '#'];
    assert(label.take(9) =~= prefix);
    assert(label.subrange(9, 11) =~= hex_fixed(red(color), 2));
    assert(label.subrange(11, 13) =~= hex_fixed(green(color), 2));
    assert(label.subrange(13, 15) =~= hex_fixed(blue(color), 2));
}

} // verus!
