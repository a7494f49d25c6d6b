//! The user's settings, and the text file they are kept in.
//!
//! The file has one `key=value` pair per line. Reading starts from the
//! defaults and applies each line in turn; unknown keys are ignored, and a
//! line without `=` or a number that does not parse makes the whole file
//! unreadable.
use vstd::prelude::*;

use crate::overlay::{OverlayOptimizationMode, OverlayStyle};
use crate::text::{
    append_chars, chars_eq_ignore_ascii_case, chars_equal, chars_of, decimal,
    eq_ignore_ascii_case, find_char_from, find_from, hex_fixed, is_white_space, lacks,
    lemma_decimal, lemma_parse_decimal, lemma_parse_hex8, lemma_parse_signed_decimal,
    no_white_space, parse_i32, parse_signed32, parse_u32_radix, parse_unsigned, push_decimal,
    push_hex8, push_signed_decimal, signed_decimal, string_from_chars, sub_chars, trim,
    trim_chars, trim_start,
};

verus! {

/// How much of the boundary the glow covers.
#[derive(Clone, Copy, Debug, PartialEq, Eq, Structural)]
pub enum BoundarySpanMode {
    /// A segment around the point where the cursor crossed.
    CrossingSegment,
    /// The whole shared edge of the two monitors.
    FullBoundary,
}

#[derive(Clone, Copy, Debug, PartialEq, Eq, Structural)]
pub struct Settings {
    pub enabled: bool,
    pub overlay: OverlayStyle,
    pub span_mode: BoundarySpanMode,
    pub optimization: OverlayOptimizationMode,
}

pub const DEFAULT_COLOR: u32 = 0x00FF_B46E;

pub const DEFAULT_WIDTH: i32 = 32;

pub const DEFAULT_INTENSITY: u8 = 220;

pub const DEFAULT_DURATION_MS: u32 = 220;

/// The narrowest glow a settings file can ask for.
pub const MIN_WIDTH: i32 = 12;

/// The shortest fade a settings file can ask for.
pub const MIN_DURATION_MS: u32 = 60;

pub open spec fn spec_default_settings() -> Settings {
    Settings {
        enabled: true,
        overlay: OverlayStyle {
            color: DEFAULT_COLOR,
            width: DEFAULT_WIDTH,
            intensity: DEFAULT_INTENSITY,
            duration_ms: DEFAULT_DURATION_MS,
        },
        span_mode: BoundarySpanMode::FullBoundary,
        optimization: OverlayOptimizationMode::Efficient,
    }
}

/// The settings used when none are saved.
pub fn default_settings() -> (s: Settings)
    ensures
        s == spec_default_settings(),
        s.well_formed(),
{
    Settings {
        enabled: true,
        overlay: OverlayStyle {
            color: DEFAULT_COLOR,
            width: DEFAULT_WIDTH,
            intensity: DEFAULT_INTENSITY,
            duration_ms: DEFAULT_DURATION_MS,
        },
        span_mode: BoundarySpanMode::FullBoundary,
        optimization: OverlayOptimizationMode::Efficient,
    }
}

impl Settings {
    /// What every settings value the application holds satisfies: the glow
    /// is at least `MIN_WIDTH` wide, fades over at least `MIN_DURATION_MS`,
    /// and has the default intensity (nothing changes it).
    pub open spec fn well_formed(self) -> bool {
        &&& self.overlay.width >= MIN_WIDTH
        &&& self.overlay.duration_ms >= MIN_DURATION_MS
        &&& self.overlay.intensity == DEFAULT_INTENSITY
    }
}

// ---------------------------------------------------------------------------
// Keys and words of the file
// ---------------------------------------------------------------------------

pub open spec fn key_enabled() -> Seq<char> {
    seq!['e', 'n', 'a', 'b', 'l', 'e', 'd']
}

pub open spec fn key_color() -> Seq<char> {
    seq!['c', 'o', 'l', 'o', 'r']
}

pub open spec fn key_width() -> Seq<char> {
    seq!['w', 'i', 'd', 't', 'h']
}

pub open spec fn key_duration() -> Seq<char> {
    seq!['d', 'u', 'r', 'a', 't', 'i', 'o', 'n', '_', 'm', 's']
}

pub open spec fn key_span_mode() -> Seq<char> {
    seq!['s', 'p', 'a', 'n', '_', 'm', 'o', 'd', 'e']
}

pub open spec fn key_optimization() -> Seq<char> {
    seq!['o', 'p', 't', 'i', 'm', 'i', 'z', 'a', 't', 'i', 'o', 'n']
}

pub open spec fn word_true() -> Seq<char> {
    seq!['t', 'r', 'u', 'e']
}

pub open spec fn word_yes() -> Seq<char> {
    seq!['y', 'e', 's']
}

pub open spec fn word_segment() -> Seq<char> {
    seq!['s', 'e', 'g', 'm', 'e', 'n', 't']
}

pub open spec fn word_full() -> Seq<char> {
    seq!['f', 'u', 'l', 'l']
}

pub open spec fn word_smooth() -> Seq<char> {
    seq!['s', 'm', 'o', 'o', 't', 'h']
}

pub open spec fn word_efficient() -> Seq<char> {
    seq!['e', 'f', 'f', 'i', 'c', 'i', 'e', 'n', 't']
}

fn chars_enabled() -> (v: Vec<char>)
    ensures
        v@ == key_enabled(),
{
    vec!['e', 'n', 'a', 'b', 'l', 'e', 'd']
}

fn chars_color() -> (v: Vec<char>)
    ensures
        v@ == key_color(),
{
    vec!['c', 'o', 'l', 'o', 'r']
}

fn chars_width() -> (v: Vec<char>)
    ensures
        v@ == key_width(),
{
    vec!['w', 'i', 'd', 't', 'h']
}

fn chars_duration() -> (v: Vec<char>)
    ensures
        v@ == key_duration(),
{
    vec!['d', 'u', 'r', 'a', 't', 'i', 'o', 'n', '_', 'm', 's']
}

fn chars_span_mode() -> (v: Vec<char>)
    ensures
        v@ == key_span_mode(),
{
    vec!['s', 'p', 'a', 'n', '_', 'm', 'o', 'd', 'e']
}

fn chars_optimization() -> (v: Vec<char>)
    ensures
        v@ == key_optimization(),
{
    vec!['o', 'p', 't', 'i', 'm', 'i', 'z', 'a', 't', 'i', 'o', 'n']
}

fn chars_true() -> (v: Vec<char>)
    ensures
        v@ == word_true(),
{
    vec!['t', 'r', 'u', 'e']
}

fn chars_yes() -> (v: Vec<char>)
    ensures
        v@ == word_yes(),
{
    vec!['y', 'e', 's']
}

fn chars_one() -> (v: Vec<char>)
    ensures
        v@ == seq!['1'],
{
    vec!['1']
}

fn chars_segment() -> (v: Vec<char>)
    ensures
        v@ == word_segment(),
{
    vec!['s', 'e', 'g', 'm', 'e', 'n', 't']
}

fn chars_full() -> (v: Vec<char>)
    ensures
        v@ == word_full(),
{
    vec!['f', 'u', 'l', 'l']
}

fn chars_smooth() -> (v: Vec<char>)
    ensures
        v@ == word_smooth(),
{
    vec!['s', 'm', 'o', 'o', 't', 'h']
}

fn chars_efficient() -> (v: Vec<char>)
    ensures
        v@ == word_efficient(),
{
    vec!['e', 'f', 'f', 'i', 'c', 'i', 'e', 'n', 't']
}

// ---------------------------------------------------------------------------
// Reading
// ---------------------------------------------------------------------------

/// `line` without one trailing carriage return.
pub open spec fn strip_cr(line: Seq<char>) -> Seq<char> {
    if line.len() > 0 && line.last() == '\r' {
        line.drop_last()
    } else {
        line
    }
}

pub proof fn lemma_find_from_range(s: Seq<char>, c: char, start: int)
    requires
        0 <= start <= s.len(),
    ensures
        start <= find_from(s, c, start) <= s.len(),
        find_from(s, c, start) < s.len() ==> s[find_from(s, c, start)] == c,
        forall|j: int| start <= j < find_from(s, c, start) ==> s[j] != c,
    decreases s.len() - start,
{
    if start < s.len() && s[start] != c {
        lemma_find_from_range(s, c, start + 1);
    }
}

/// The lines of a text: split at line feeds, a carriage return before a line
/// feed dropped, and no empty last line after a final line feed.
pub open spec fn lines(s: Seq<char>) -> Seq<Seq<char>>
    decreases s.len(),
{
    if s.len() == 0 {
        seq![]
    } else {
        let e = find_from(s, '\n', 0);
        proof {
            lemma_find_from_range(s, '\n', 0);
        }
        if e < s.len() {
            seq![strip_cr(s.take(e))] + lines(s.skip(e + 1))
        } else {
            seq![s]
        }
    }
}

/// Applies one trimmed `key` and `value`: `None` when the value of a numeric
/// key does not parse; unknown keys leave the settings as they are.
pub open spec fn apply_key_value(s: Settings, key: Seq<char>, value: Seq<char>) -> Option<Settings> {
    if key == key_enabled() {
        Some(
            Settings {
                enabled: value == seq!['1'] || value == word_true() || value == word_yes(),
                ..s
            },
        )
    } else if key == key_color() {
        match parse_unsigned(value, 16, u32::MAX as nat) {
            Some(c) => Some(Settings { overlay: OverlayStyle { color: c as u32, ..s.overlay }, ..s }),
            None => None,
        }
    } else if key == key_width() {
        match parse_signed32(value) {
            Some(w) => Some(
                Settings {
                    overlay: OverlayStyle {
                        width: if w >= MIN_WIDTH { w as i32 } else { MIN_WIDTH },
                        ..s.overlay
                    },
                    ..s
                },
            ),
            None => None,
        }
    } else if key == key_duration() {
        match parse_unsigned(value, 10, u32::MAX as nat) {
            Some(d) => Some(
                Settings {
                    overlay: OverlayStyle {
                        duration_ms: if d >= MIN_DURATION_MS { d as u32 } else { MIN_DURATION_MS },
                        ..s.overlay
                    },
                    ..s
                },
            ),
            None => None,
        }
    } else if key == key_span_mode() {
        Some(
            Settings {
                span_mode: if eq_ignore_ascii_case(value, word_segment()) {
                    BoundarySpanMode::CrossingSegment
                } else {
                    BoundarySpanMode::FullBoundary
                },
                ..s
            },
        )
    } else if key == key_optimization() {
        Some(
            Settings {
                optimization: if eq_ignore_ascii_case(value, word_smooth()) {
                    OverlayOptimizationMode::Smooth
                } else {
                    OverlayOptimizationMode::Efficient
                },
                ..s
            },
        )
    } else {
        Some(s)
    }
}

/// Applies one line: `None` when it has no `=`; otherwise the text before
/// the first `=` is the key and the rest the value, both trimmed.
pub open spec fn apply_line(s: Settings, line: Seq<char>) -> Option<Settings> {
    let k = find_from(line, '=', 0);
    if k >= line.len() {
        None
    } else {
        apply_key_value(s, trim(line.take(k)), trim(line.skip(k + 1)))
    }
}

pub open spec fn apply_lines(ls: Seq<Seq<char>>, s: Settings) -> Option<Settings>
    decreases ls.len(),
{
    if ls.len() == 0 {
        Some(s)
    } else {
        match apply_line(s, ls[0]) {
            Some(next) => apply_lines(ls.drop_first(), next),
            None => None,
        }
    }
}

/// The settings a file holds, read over the defaults.
pub open spec fn spec_parse_settings(text: Seq<char>) -> Option<Settings> {
    apply_lines(lines(text), spec_default_settings())
}

pub proof fn lemma_find_from_skip(s: Seq<char>, c: char, pos: int, j: int)
    requires
        0 <= pos <= j <= s.len(),
    ensures
        find_from(s, c, j) == pos + find_from(s.skip(pos), c, j - pos),
    decreases s.len() - j,
{
    if j < s.len() {
        assert(s.skip(pos)[j - pos] == s[j]);
        if s[j] != c {
            lemma_find_from_skip(s, c, pos, j + 1);
        }
    }
}

fn apply_key_value_exec(s: Settings, key: &Vec<char>, value: &Vec<char>) -> (r: Option<Settings>)
    ensures
        r == apply_key_value(s, key@, value@),
{
    if chars_equal(key, &chars_enabled()) {
        let on = chars_equal(value, &chars_one()) || chars_equal(value, &chars_true())
            || chars_equal(value, &chars_yes());
        Some(Settings { enabled: on, ..s })
    } else if chars_equal(key, &chars_color()) {
        match parse_u32_radix(value, 16) {
            Some(c) => Some(Settings { overlay: OverlayStyle { color: c, ..s.overlay }, ..s }),
            None => None,
        }
    } else if chars_equal(key, &chars_width()) {
        match parse_i32(value) {
            Some(w) => Some(
                Settings {
                    overlay: OverlayStyle {
                        width: if w >= MIN_WIDTH {
                            w
                        } else {
                            MIN_WIDTH
                        },
                        ..s.overlay
                    },
                    ..s
                },
            ),
            None => None,
        }
    } else if chars_equal(key, &chars_duration()) {
        match parse_u32_radix(value, 10) {
            Some(d) => Some(
                Settings {
                    overlay: OverlayStyle {
                        duration_ms: if d >= MIN_DURATION_MS {
                            d
                        } else {
                            MIN_DURATION_MS
                        },
                        ..s.overlay
                    },
                    ..s
                },
            ),
            None => None,
        }
    } else if chars_equal(key, &chars_span_mode()) {
        let span_mode = if chars_eq_ignore_ascii_case(value, &chars_segment()) {
            BoundarySpanMode::CrossingSegment
        } else {
            BoundarySpanMode::FullBoundary
        };
        Some(Settings { span_mode, ..s })
    } else if chars_equal(key, &chars_optimization()) {
        let optimization = if chars_eq_ignore_ascii_case(value, &chars_smooth()) {
            OverlayOptimizationMode::Smooth
        } else {
            OverlayOptimizationMode::Efficient
        };
        Some(Settings { optimization, ..s })
    } else {
        Some(s)
    }
}

fn apply_line_exec(s: Settings, line: &Vec<char>) -> (r: Option<Settings>)
    ensures
        r == apply_line(s, line@),
{
    let k = find_char_from(line, '=', 0);
    if k >= line.len() {
        return None;
    }
    let key = trim_chars(&sub_chars(line, 0, k));
    let value = trim_chars(&sub_chars(line, k + 1, line.len()));
    proof {
        assert(line@.take(k as int) =~= line@.subrange(0, k as int));
        assert(line@.skip(k + 1) =~= line@.subrange(k + 1, line@.len() as int));
    }
    apply_key_value_exec(s, &key, &value)
}

/// Reads a settings file: `None` when a line has no `=` or a color, width or
/// duration does not parse; otherwise the defaults with each line applied
/// in turn. A width below `MIN_WIDTH` or a duration below
/// `MIN_DURATION_MS` is raised to that minimum.
pub fn parse_settings(content: &str) -> (r: Option<Settings>)
    ensures
        r == spec_parse_settings(content@),
        r matches Some(s) ==> s.well_formed(),
{
    proof {
        lemma_apply_lines_well_formed(lines(content@), spec_default_settings());
    }
    let v = chars_of(content);
    let mut cur = default_settings();
    let mut pos: usize = 0;
    proof {
        assert(v@.skip(0) =~= v@);
    }
    while pos < v.len()
        invariant
            pos <= v.len(),
            v@ == content@,
            spec_parse_settings(v@) == apply_lines(lines(v@.skip(pos as int)), cur),
        decreases v.len() - pos,
    {
        let ghost rest = v@.skip(pos as int);
        let e = find_char_from(&v, '\n', pos);
        proof {
            lemma_find_from_skip(v@, '\n', pos as int, pos as int);
            lemma_find_from_range(rest, '\n', 0);
        }
        let terminated = e < v.len();
        let line_end = if terminated && e > pos && v[e - 1] == '\r' {
            e - 1
        } else {
            e
        };
        let line = sub_chars(&v, pos, line_end);
        let ghost rel = (e - pos) as int;
        proof {
            assert(rest.len() > 0);
            if terminated {
                assert(rest.take(rel) =~= v@.subrange(pos as int, e as int));
                if e > pos && v@[e - 1] == '\r' {
                    assert(strip_cr(rest.take(rel)) =~= line@);
                } else {
                    assert(strip_cr(rest.take(rel)) =~= line@);
                }
                assert(rest.skip(rel + 1) =~= v@.skip(e + 1));
                assert(lines(rest) == seq![line@] + lines(v@.skip(e + 1)));
            } else {
                assert(rest =~= line@);
                assert(lines(rest) == seq![line@]);
                assert(v@.skip(v@.len() as int) =~= seq![]);
                assert(lines(v@.skip(v@.len() as int)) == Seq::<Seq<char>>::empty());
            }
        }
        match apply_line_exec(cur, &line) {
            Some(next) => {
                proof {
                    let ls = lines(rest);
                    assert(ls[0] == line@);
                    if terminated {
                        assert(ls.drop_first() =~= lines(v@.skip(e + 1)));
                    } else {
                        assert(ls.drop_first() =~= lines(v@.skip(v@.len() as int)));
                    }
                }
                cur = next;
            },
            None => {
                proof {
                    assert(lines(rest)[0] == line@);
                }
                return None;
            },
        }
        pos = if terminated {
            e + 1
        } else {
            v.len()
        };
    }
    proof {
        assert(v@.skip(pos as int) =~= seq![]);
    }
    Some(cur)
}

// ---------------------------------------------------------------------------
// Writing
// ---------------------------------------------------------------------------

pub open spec fn setting_line(key: Seq<char>, value: Seq<char>) -> Seq<char> {
    key + seq!['='] + value + seq!['\n']
}

/// The file that keeps `s`: the enabled flag as `1` or `0`, the color as
/// eight upper-case hexadecimal digits, width and duration in decimal, and
/// the two modes as words. The intensity is not kept.
pub open spec fn settings_text(s: Settings) -> Seq<char> {
    setting_line(key_enabled(), if s.enabled { seq!['1'] } else { seq!['0'] })
        + setting_line(key_color(), hex_fixed(s.overlay.color as nat, 8))
        + setting_line(key_width(), signed_decimal(s.overlay.width as int))
        + setting_line(key_duration(), decimal(s.overlay.duration_ms as nat))
        + setting_line(
        key_span_mode(),
        match s.span_mode {
            BoundarySpanMode::CrossingSegment => word_segment(),
            BoundarySpanMode::FullBoundary => word_full(),
        },
    ) + setting_line(
        key_optimization(),
        match s.optimization {
            OverlayOptimizationMode::Smooth => word_smooth(),
            OverlayOptimizationMode::Efficient => word_efficient(),
        },
    )
}

fn push_line_start(out: &mut Vec<char>, key: &Vec<char>)
    ensures
        final(out)@ == old(out)@ + key@ + seq!['='],
{
    append_chars(out, key);
    out.push('=');
}

/// Writes the settings file that keeps `s` (see `settings_text`).
pub fn serialize_settings(s: &Settings) -> (text: String)
    ensures
        text@ == settings_text(*s),
{
    let mut out: Vec<char> = Vec::new();
    push_line_start(&mut out, &chars_enabled());
    out.push(if s.enabled {
        '1'
    } else {
        '0'
    });
    out.push('\n');
    let ghost a = out@;
    push_line_start(&mut out, &chars_color());
    push_hex8(&mut out, s.overlay.color);
    out.push('\n');
    let ghost b = out@;
    push_line_start(&mut out, &chars_width());
    push_signed_decimal(&mut out, s.overlay.width);
    out.push('\n');
    let ghost c = out@;
    push_line_start(&mut out, &chars_duration());
    push_decimal(&mut out, s.overlay.duration_ms);
    out.push('\n');
    let ghost d = out@;
    push_line_start(&mut out, &chars_span_mode());
    match s.span_mode {
        BoundarySpanMode::CrossingSegment => append_chars(&mut out, &chars_segment()),
        BoundarySpanMode::FullBoundary => append_chars(&mut out, &chars_full()),
    }
    out.push('\n');
    let ghost e = out@;
    push_line_start(&mut out, &chars_optimization());
    match s.optimization {
        OverlayOptimizationMode::Smooth => append_chars(&mut out, &chars_smooth()),
        OverlayOptimizationMode::Efficient => append_chars(&mut out, &chars_efficient()),
    }
    out.push('\n');
    proof {
        let l1 = setting_line(key_enabled(), if s.enabled { seq!['1'] } else { seq!['0'] });
        assert(a =~= l1);
        let l2 = setting_line(key_color(), hex_fixed(s.overlay.color as nat, 8));
        assert(b =~= l1 + l2);
        let l3 = setting_line(key_width(), signed_decimal(s.overlay.width as int));
        assert(c =~= l1 + l2 + l3);
        let l4 = setting_line(key_duration(), decimal(s.overlay.duration_ms as nat));
        assert(d =~= l1 + l2 + l3 + l4);
        let l5 = setting_line(
            key_span_mode(),
            match s.span_mode {
                BoundarySpanMode::CrossingSegment => word_segment(),
                BoundarySpanMode::FullBoundary => word_full(),
            },
        );
        assert(e =~= l1 + l2 + l3 + l4 + l5);
        assert(out@ =~= settings_text(*s));
    }
    string_from_chars(&out)
}

// ---------------------------------------------------------------------------
// Reading back what was written
// ---------------------------------------------------------------------------

/// A nonempty run of characters that is neither split nor trimmed by the
/// reader.
pub open spec fn plain_word(w: Seq<char>) -> bool {
    &&& w.len() > 0
    &&& no_white_space(w)
    &&& lacks(w, '=')
    &&& lacks(w, '\n')
    &&& w.last() != '\r'
}

pub proof fn lemma_words_plain()
    ensures
        plain_word(key_enabled()),
        plain_word(key_color()),
        plain_word(key_width()),
        plain_word(key_duration()),
        plain_word(key_span_mode()),
        plain_word(key_optimization()),
        plain_word(seq!['1']),
        plain_word(seq!['0']),
        plain_word(word_segment()),
        plain_word(word_full()),
        plain_word(word_smooth()),
        plain_word(word_efficient()),
{
}

proof fn lemma_find_first_from(a: Seq<char>, c: char, b: Seq<char>, j: int)
    requires
        lacks(a, c),
        0 <= j <= a.len(),
    ensures
        find_from(a + seq![c] + b, c, j) == a.len(),
    decreases a.len() - j,
{
    let x = a + seq![c] + b;
    if j < a.len() {
        assert(x[j] == a[j]);
        lemma_find_first_from(a, c, b, j + 1);
    } else {
        assert(x[j] == c);
    }
}

pub proof fn lemma_trim_plain(s: Seq<char>)
    requires
        no_white_space(s),
    ensures
        trim(s) == s,
{
    if s.len() > 0 {
        assert(!is_white_space(s[0]));
        assert(!is_white_space(s.last()));
    }
    assert(trim_start(s) == s);
}

proof fn lemma_lines_cons(a: Seq<char>, rest: Seq<char>)
    requires
        lacks(a, '\n'),
        a.len() > 0,
        a.last() != '\r',
    ensures
        lines(a + seq!['\n'] + rest) == seq![a] + lines(rest),
{
    let s = a + seq!['\n'] + rest;
    lemma_find_first_from(a, '\n', rest, 0);
    assert(s.take(a.len() as int) =~= a);
    assert(s.skip(a.len() as int + 1) =~= rest);
}

proof fn lemma_apply_setting_line(s: Settings, key: Seq<char>, value: Seq<char>)
    requires
        plain_word(key),
        plain_word(value),
    ensures
        apply_line(s, key + seq!['='] + value) == apply_key_value(s, key, value),
        lacks(key + seq!['='] + value, '\n'),
        (key + seq!['='] + value).last() != '\r',
{
    let line = key + seq!['='] + value;
    lemma_find_first_from(key, '=', value, 0);
    assert(line.take(key.len() as int) =~= key);
    assert(line.skip(key.len() as int + 1) =~= value);
    lemma_trim_plain(key);
    lemma_trim_plain(value);
    assert forall|i: int| 0 <= i < line.len() implies #[trigger] line[i] != '\n' by {
        if i < key.len() {
            assert(line[i] == key[i]);
        } else if i > key.len() {
            assert(line[i] == value[i - key.len() - 1]);
        }
    }
    assert(line.last() == value.last());
}

proof fn lemma_apply_lines_cons(l: Seq<char>, ls: Seq<Seq<char>>, s: Settings)
    ensures
        apply_lines(seq![l] + ls, s) == match apply_line(s, l) {
            Some(next) => apply_lines(ls, next),
            None => None,
        },
{
    assert((seq![l] + ls).drop_first() =~= ls);
}

/// One `key=value` line at the front of a file.
proof fn lemma_read_line(
    s: Settings,
    key: Seq<char>,
    value: Seq<char>,
    rest: Seq<char>,
)
    requires
        plain_word(key),
        plain_word(value),
    ensures
        apply_lines(lines(setting_line(key, value) + rest), s) == match apply_key_value(
            s,
            key,
            value,
        ) {
            Some(next) => apply_lines(lines(rest), next),
            None => None,
        },
{
    let body = key + seq!['='] + value;
    lemma_apply_setting_line(s, key, value);
    assert(setting_line(key, value) + rest =~= body + seq!['\n'] + rest);
    lemma_lines_cons(body, rest);
    lemma_apply_lines_cons(body, lines(rest), s);
}

/// The settings a file of `s` is read back as: `s`, with the width and
/// duration raised to their minimums and the default intensity.
pub open spec fn read_back(s: Settings) -> Settings {
    Settings {
        enabled: s.enabled,
        overlay: OverlayStyle {
            color: s.overlay.color,
            width: if s.overlay.width >= MIN_WIDTH {
                s.overlay.width
            } else {
                MIN_WIDTH
            },
            intensity: DEFAULT_INTENSITY,
            duration_ms: if s.overlay.duration_ms >= MIN_DURATION_MS {
                s.overlay.duration_ms
            } else {
                MIN_DURATION_MS
            },
        },
        span_mode: s.span_mode,
        optimization: s.optimization,
    }
}

/// Reading a settings file gives back the settings that were written to it,
/// up to the minimum width and duration and the default intensity.
#[verifier::rlimit(60)]
pub proof fn lemma_settings_read_back(s: Settings)
    ensures
        spec_parse_settings(settings_text(s)) == Some(read_back(s)),
{
    lemma_words_plain();
    let v1 = if s.enabled {
        seq!['1']
    } else {
        seq!['0']
    };
    let v2 = hex_fixed(s.overlay.color as nat, 8);
    let v3 = signed_decimal(s.overlay.width as int);
    let v4 = decimal(s.overlay.duration_ms as nat);
    let v5 = match s.span_mode {
        BoundarySpanMode::CrossingSegment => word_segment(),
        BoundarySpanMode::FullBoundary => word_full(),
    };
    let v6 = match s.optimization {
        OverlayOptimizationMode::Smooth => word_smooth(),
        OverlayOptimizationMode::Efficient => word_efficient(),
    };
    lemma_parse_hex8(s.overlay.color);
    lemma_parse_signed_decimal(s.overlay.width);
    lemma_decimal(s.overlay.duration_ms as nat);
    lemma_parse_decimal(s.overlay.duration_ms as nat, u32::MAX as nat);
    assert(plain_word(v2));
    assert(plain_word(v3));
    assert(plain_word(v4));
    let l1 = setting_line(key_enabled(), v1);
    let l2 = setting_line(key_color(), v2);
    let l3 = setting_line(key_width(), v3);
    let l4 = setting_line(key_duration(), v4);
    let l5 = setting_line(key_span_mode(), v5);
    let l6 = setting_line(key_optimization(), v6);
    let t6 = l6;
    let t5 = l5 + t6;
    let t4 = l4 + t5;
    let t3 = l3 + t4;
    let t2 = l2 + t3;
    let t1 = l1 + t2;
    assert(settings_text(s) =~= t1);
    let s0 = spec_default_settings();
    let s1 = Settings { enabled: s.enabled, ..s0 };
    let s2 = Settings { overlay: OverlayStyle { color: s.overlay.color, ..s1.overlay }, ..s1 };
    let s3 = Settings { overlay: OverlayStyle { width: read_back(s).overlay.width, ..s2.overlay }, ..s2 };
    let s4 = Settings {
        overlay: OverlayStyle { duration_ms: read_back(s).overlay.duration_ms, ..s3.overlay },
        ..s3
    };
    let s5 = Settings { span_mode: s.span_mode, ..s4 };
    let s6 = Settings { optimization: s.optimization, ..s5 };
    assert(apply_key_value(s0, key_enabled(), v1) == Some(s1));
    lemma_read_line(s0, key_enabled(), v1, t2);
    assert(apply_key_value(s1, key_color(), v2) == Some(s2));
    lemma_read_line(s1, key_color(), v2, t3);
    assert(apply_key_value(s2, key_width(), v3) == Some(s3));
    lemma_read_line(s2, key_width(), v3, t4);
    assert(apply_key_value(s3, key_duration(), v4) == Some(s4));
    lemma_read_line(s3, key_duration(), v4, t5);
    assert(apply_key_value(s4, key_span_mode(), v5) == Some(s5));
    lemma_read_line(s4, key_span_mode(), v5, t6);
    assert(apply_key_value(s5, key_optimization(), v6) == Some(s6));
    assert(t6 =~= t6 + Seq::<char>::empty());
    lemma_read_line(s5, key_optimization(), v6, Seq::<char>::empty());
    assert(lines(Seq::<char>::empty()) == Seq::<Seq<char>>::empty());
    assert(s6 == read_back(s));
}

/// Saving well-formed settings and reading the file back restores them
/// exactly.
pub proof fn lemma_saved_settings_restored(s: Settings)
    requires
        s.well_formed(),
    ensures
        spec_parse_settings(settings_text(s)) == Some(s),
{
    lemma_settings_read_back(s);
    assert(read_back(s) == s);
}

pub proof fn lemma_apply_lines_well_formed(ls: Seq<Seq<char>>, s: Settings)
    requires
        s.well_formed(),
    ensures
        apply_lines(ls, s) matches Some(r) ==> r.well_formed(),
    decreases ls.len(),
{
    if ls.len() > 0 {
        let l = ls[0];
        let k = find_from(l, '=', 0);
        if k < l.len() {
            if let Some(next) = apply_line(s, l) {
                lemma_apply_lines_well_formed(ls.drop_first(), next);
            }
        }
    }
}

/// The settings to run with: those the file holds, or the defaults when
/// there is no file or it cannot be read.
pub fn settings_or_default(content: Option<&str>) -> (s: Settings)
    ensures
        s == match content {
            Some(text) => match spec_parse_settings(text@) {
                Some(parsed) => parsed,
                None => spec_default_settings(),
            },
            None => spec_default_settings(),
        },
        s.well_formed(),
{
    match content {
        Some(text) => match parse_settings(text) {
            Some(parsed) => parsed,
            None => default_settings(),
        },
        None => default_settings(),
    }
}

} // verus!
