//! Text as sequences of characters: trimming, searching, decimal and
//! hexadecimal numbers, and UTF-16 encoding.
use vstd::prelude::*;

verus! {

// ---------------------------------------------------------------------------
// Characters
// ---------------------------------------------------------------------------

/// The Unicode `White_Space` characters.
pub open spec fn is_white_space(c: char) -> bool {
    let u = c as u32;
    ||| 0x09 <= u <= 0x0d
    ||| u == 0x20
    ||| u == 0x85
    ||| u == 0xa0
    ||| u == 0x1680
    ||| 0x2000 <= u <= 0x200a
    ||| u == 0x2028
    ||| u == 0x2029
    ||| u == 0x202f
    ||| u == 0x205f
    ||| u == 0x3000
}

pub fn white_space(c: char) -> (b: bool)
    ensures
        b == is_white_space(c),
{
    let u = c as u32;
    (0x09 <= u && u <= 0x0d) || u == 0x20 || u == 0x85 || u == 0xa0 || u == 0x1680 || (0x2000 <= u
        && u <= 0x200a) || u == 0x2028 || u == 0x2029 || u == 0x202f || u == 0x205f || u == 0x3000
}

/// The value of `c` as a digit in base `radix` (10 or 16), if it is one;
/// hexadecimal letters may be of either case.
pub open spec fn digit_value(c: char, radix: nat) -> Option<nat> {
    let u = c as u32;
    if 0x30 <= u <= 0x39 {
        Some((u - 0x30) as nat)
    } else if radix == 16 && 0x41 <= u <= 0x46 {
        Some((u - 0x41 + 10) as nat)
    } else if radix == 16 && 0x61 <= u <= 0x66 {
        Some((u - 0x61 + 10) as nat)
    } else {
        None
    }
}

pub open spec fn all_digits(s: Seq<char>, radix: nat) -> bool {
    forall|i: int| 0 <= i < s.len() ==> (#[trigger] digit_value(s[i], radix)) is Some
}

/// The number that the digits `s` denote in base `radix`.
pub open spec fn digits_value(s: Seq<char>, radix: nat) -> nat
    decreases s.len(),
{
    if s.len() == 0 {
        0
    } else {
        digits_value(s.drop_last(), radix) * radix + match digit_value(s.last(), radix) {
            Some(d) => d,
            None => 0,
        }
    }
}

/// ASCII case folding of one character.
pub open spec fn ascii_lower(c: char) -> char {
    if 'A' <= c <= 'Z' {
        ((c as u32) + 32) as char
    } else {
        c
    }
}

/// Equal up to the case of ASCII letters.
pub open spec fn eq_ignore_ascii_case(a: Seq<char>, b: Seq<char>) -> bool {
    &&& a.len() == b.len()
    &&& forall|i: int| 0 <= i < a.len() ==> ascii_lower(#[trigger] a[i]) == ascii_lower(b[i])
}

// ---------------------------------------------------------------------------
// Searching and trimming
// ---------------------------------------------------------------------------

/// The first index at or after `start` that holds `c`, or `s.len()`.
pub open spec fn find_from(s: Seq<char>, c: char, start: int) -> int
    decreases s.len() - start,
{
    if start >= s.len() {
        s.len() as int
    } else if s[start] == c {
        start
    } else {
        find_from(s, c, start + 1)
    }
}

/// `s` without its leading white space.
pub open spec fn trim_start(s: Seq<char>) -> Seq<char>
    decreases s.len(),
{
    if s.len() > 0 && is_white_space(s[0]) {
        trim_start(s.drop_first())
    } else {
        s
    }
}

/// `s` without its trailing white space.
pub open spec fn trim_end(s: Seq<char>) -> Seq<char>
    decreases s.len(),
{
    if s.len() > 0 && is_white_space(s.last()) {
        trim_end(s.drop_last())
    } else {
        s
    }
}

/// `s` without leading and trailing white space.
pub open spec fn trim(s: Seq<char>) -> Seq<char> {
    trim_end(trim_start(s))
}

pub open spec fn no_white_space(s: Seq<char>) -> bool {
    forall|i: int| 0 <= i < s.len() ==> !is_white_space(#[trigger] s[i])
}

pub open spec fn lacks(s: Seq<char>, c: char) -> bool {
    forall|i: int| 0 <= i < s.len() ==> #[trigger] s[i] != c
}

/// The characters of a string.
pub fn chars_of(s: &str) -> (v: Vec<char>)
    ensures
        v@ == s@,
{
    let mut v: Vec<char> = Vec::new();
    for c in it: s.chars()
        invariant
            v@ == it.seq().take(it.index() as int),
    {
        v.push(c);
    }
    v
}

/// A copy of `v[lo..hi]`.
pub fn sub_chars(v: &Vec<char>, lo: usize, hi: usize) -> (r: Vec<char>)
    requires
        lo <= hi <= v.len(),
    ensures
        r@ == v@.subrange(lo as int, hi as int),
{
    let mut r: Vec<char> = Vec::new();
    let mut i = lo;
    while i < hi
        invariant
            lo <= i <= hi <= v.len(),
            r@ == v@.subrange(lo as int, i as int),
        decreases hi - i,
    {
        r.push(v[i]);
        i += 1;
    }
    r
}

/// The first index at or after `start` holding `c`, or `v.len()`.
pub fn find_char_from(v: &Vec<char>, c: char, start: usize) -> (k: usize)
    requires
        start <= v.len(),
    ensures
        k as int == find_from(v@, c, start as int),
        start <= k <= v.len(),
{
    let mut j = start;
    while j < v.len() && v[j] != c
        invariant
            start <= j <= v.len(),
            find_from(v@, c, start as int) == find_from(v@, c, j as int),
        decreases v.len() - j,
    {
        j += 1;
    }
    j
}

pub proof fn lemma_trim_start_skip(s: Seq<char>, i: int)
    requires
        0 <= i <= s.len(),
        forall|j: int| 0 <= j < i ==> is_white_space(#[trigger] s[j]),
    ensures
        trim_start(s) == trim_start(s.subrange(i, s.len() as int)),
    decreases i,
{
    if i > 0 {
        assert(s.drop_first() =~= s.subrange(1, s.len() as int));
        lemma_trim_start_skip(s.drop_first(), i - 1);
        assert(s.drop_first().subrange(i - 1, s.drop_first().len() as int) =~= s.subrange(
            i,
            s.len() as int,
        ));
    } else {
        assert(s.subrange(0, s.len() as int) =~= s);
    }
}

pub proof fn lemma_trim_end_cut(s: Seq<char>, k: int)
    requires
        0 <= k <= s.len(),
        forall|j: int| k <= j < s.len() ==> is_white_space(#[trigger] s[j]),
    ensures
        trim_end(s) == trim_end(s.subrange(0, k)),
    decreases s.len() - k,
{
    if k < s.len() {
        assert(s.drop_last() =~= s.subrange(0, s.len() - 1));
        lemma_trim_end_cut(s.drop_last(), k);
        assert(s.drop_last().subrange(0, k) =~= s.subrange(0, k));
    } else {
        assert(s.subrange(0, k) =~= s);
    }
}

/// `trim(v)`: the characters of `v` without surrounding white space.
pub fn trim_chars(v: &Vec<char>) -> (r: Vec<char>)
    ensures
        r@ == trim(v@),
{
    let mut lo: usize = 0;
    while lo < v.len() && white_space(v[lo])
        invariant
            lo <= v.len(),
            forall|j: int| 0 <= j < lo ==> is_white_space(#[trigger] v@[j]),
        decreases v.len() - lo,
    {
        lo += 1;
    }
    let ghost rest = v@.subrange(lo as int, v@.len() as int);
    proof {
        lemma_trim_start_skip(v@, lo as int);
        if rest.len() > 0 {
            assert(rest[0] == v@[lo as int]);
        }
    }
    assert(trim_start(v@) == rest) by {
        reveal_with_fuel(trim_start, 2);
    }
    let mut hi: usize = v.len();
    while hi > lo && white_space(v[hi - 1])
        invariant
            lo <= hi <= v.len(),
            forall|j: int| hi <= j < v.len() ==> is_white_space(#[trigger] v@[j]),
        decreases hi,
    {
        hi -= 1;
    }
    proof {
        let k = hi - lo;
        assert forall|j: int| k <= j < rest.len() implies is_white_space(#[trigger] rest[j]) by {
            assert(rest[j] == v@[lo + j]);
        }
        lemma_trim_end_cut(rest, k);
        let cut = rest.subrange(0, k);
        assert(cut =~= v@.subrange(lo as int, hi as int));
        if cut.len() > 0 {
            assert(cut.last() == v@[hi - 1]);
        }
        reveal_with_fuel(trim_end, 2);
    }
    sub_chars(v, lo, hi)
}

/// Compares two character sequences for equality.
pub fn chars_equal(a: &Vec<char>, b: &Vec<char>) -> (r: bool)
    ensures
        r == (a@ == b@),
{
    if a.len() != b.len() {
        return false;
    }
    let mut i: usize = 0;
    while i < a.len()
        invariant
            a.len() == b.len(),
            i <= a.len(),
            forall|j: int| 0 <= j < i ==> a@[j] == b@[j],
        decreases a.len() - i,
    {
        if a[i] != b[i] {
            return false;
        }
        i += 1;
    }
    assert(a@ =~= b@);
    true
}

fn lower_ascii(c: char) -> (r: char)
    ensures
        r == ascii_lower(c),
{
    if 'A' <= c && c <= 'Z' {
        let u: u32 = c as u32 + 32;
        proof {
            assert(0x61 <= u <= 0x7a);
        }
        char_from_ascii(u)
    } else {
        c
    }
}

/// The character with an ASCII code.
fn char_from_ascii(u: u32) -> (c: char)
    requires
        u < 0x80,
    ensures
        c == u as char,
        c as u32 == u,
{
    let b: u8 = u as u8;
    b as char
}

/// Compares two character sequences, ignoring the case of ASCII letters.
pub fn chars_eq_ignore_ascii_case(a: &Vec<char>, b: &Vec<char>) -> (r: bool)
    ensures
        r == eq_ignore_ascii_case(a@, b@),
{
    if a.len() != b.len() {
        return false;
    }
    let mut i: usize = 0;
    while i < a.len()
        invariant
            a.len() == b.len(),
            i <= a.len(),
            forall|j: int| 0 <= j < i ==> ascii_lower(#[trigger] a@[j]) == ascii_lower(b@[j]),
        decreases a.len() - i,
    {
        if lower_ascii(a[i]) != lower_ascii(b[i]) {
            return false;
        }
        i += 1;
    }
    true
}

// ---------------------------------------------------------------------------
// Numbers
// ---------------------------------------------------------------------------

/// An unsigned number in base `radix` with an optional leading `+`, as
/// integer parsing reads it: `None` for an empty text, a lone sign, any
/// other character, or a value above `max`.
pub open spec fn parse_unsigned(s: Seq<char>, radix: nat, max: nat) -> Option<nat> {
    if s.len() == 0 {
        None
    } else {
        let body = if s[0] == '+' {
            s.drop_first()
        } else {
            s
        };
        if body.len() > 0 && all_digits(body, radix) && digits_value(body, radix) <= max {
            Some(digits_value(body, radix))
        } else {
            None
        }
    }
}

/// A decimal `i32` with an optional leading `+` or `-`, as integer parsing
/// reads it: `None` for an empty text, a lone sign, any other character, or
/// a value out of range.
pub open spec fn parse_signed32(s: Seq<char>) -> Option<int> {
    if s.len() == 0 {
        None
    } else if s[0] == '-' {
        let body = s.drop_first();
        if body.len() > 0 && all_digits(body, 10) && digits_value(body, 10) <= 0x8000_0000 {
            Some(-digits_value(body, 10))
        } else {
            None
        }
    } else {
        match parse_unsigned(s, 10, 0x7fff_ffff) {
            Some(n) => Some(n as int),
            None => None,
        }
    }
}

pub proof fn lemma_digits_value_step(s: Seq<char>, radix: nat, j: int)
    requires
        0 <= j < s.len(),
    ensures
        digits_value(s.take(j + 1), radix) == digits_value(s.take(j), radix) * radix + match digit_value(s[j], radix) {
            Some(d) => d,
            None => 0,
        },
{
    assert(s.take(j + 1).drop_last() =~= s.take(j));
}

pub proof fn lemma_digits_value_monotone(s: Seq<char>, radix: nat, j: int)
    requires
        0 <= j <= s.len(),
        radix >= 1,
    ensures
        digits_value(s.take(j), radix) <= digits_value(s, radix),
    decreases s.len() - j,
{
    if j < s.len() {
        lemma_digits_value_step(s, radix, j);
        let v = digits_value(s.take(j), radix);
        assert(v <= v * radix) by (nonlinear_arith)
            requires
                radix >= 1,
        ;
        lemma_digits_value_monotone(s, radix, j + 1);
    } else {
        assert(s.take(j) =~= s);
    }
}

/// Reads the digits `v[start..]` in base `radix`, refusing any other
/// character and any value above `max`.
fn parse_digits(v: &Vec<char>, start: usize, radix: u32, max: u64) -> (r: Option<u64>)
    requires
        start <= v.len(),
        radix == 10 || radix == 16,
        max <= 0x1_0000_0000,
    ensures
        ({
            let body = v@.subrange(start as int, v@.len() as int);
            match r {
                Some(n) => all_digits(body, radix as nat) && digits_value(body, radix as nat) == n
                    && n <= max,
                None => !(all_digits(body, radix as nat) && digits_value(body, radix as nat)
                    <= max),
            }
        }),
{
    let ghost body = v@.subrange(start as int, v@.len() as int);
    let mut value: u64 = 0;
    let mut i: usize = start;
    while i < v.len()
        invariant
            start <= i <= v.len(),
            radix == 10 || radix == 16,
            max <= 0x1_0000_0000,
            body == v@.subrange(start as int, v@.len() as int),
            value <= max,
            all_digits(body.take(i - start), radix as nat),
            value == digits_value(body.take(i - start), radix as nat),
        decreases v.len() - i,
    {
        let c = v[i];
        let u = c as u32;
        let d: u32 = if 0x30 <= u && u <= 0x39 {
            u - 0x30
        } else if radix == 16 && 0x41 <= u && u <= 0x46 {
            u - 0x41 + 10
        } else if radix == 16 && 0x61 <= u && u <= 0x66 {
            u - 0x61 + 10
        } else {
            proof {
                assert(body[i - start] == c);
                assert(digit_value(body[i - start], radix as nat) is None);
            }
            return None;
        };
        proof {
            assert(body[i - start] == c);
            lemma_digits_value_step(body, radix as nat, i - start);
        }
        assert(value * (radix as u64) <= 0x1_0000_0000 * 16) by (nonlinear_arith)
            requires
                value <= 0x1_0000_0000,
                radix <= 16,
        ;
        let next: u64 = value * (radix as u64) + d as u64;
        if next > max {
            proof {
                lemma_digits_value_monotone(body, radix as nat, i - start + 1);
            }
            return None;
        }
        value = next;
        i += 1;
        proof {
            assert forall|j: int| 0 <= j < i - start implies (#[trigger] digit_value(
                body.take(i - start)[j],
                radix as nat,
            )) is Some by {
                if j < i - start - 1 {
                    assert(body.take(i - start)[j] == body.take(i - start - 1)[j]);
                }
            }
        }
    }
    proof {
        assert(body.take(i - start) =~= body);
    }
    Some(value)
}

/// Parses an unsigned 32-bit number in base `radix` (10 or 16), as
/// `u32::from_str_radix` does.
pub fn parse_u32_radix(v: &Vec<char>, radix: u32) -> (r: Option<u32>)
    requires
        radix == 10 || radix == 16,
    ensures
        match r {
            Some(n) => parse_unsigned(v@, radix as nat, u32::MAX as nat) == Some(n as nat),
            None => parse_unsigned(v@, radix as nat, u32::MAX as nat) is None,
        },
{
    if v.len() == 0 {
        return None;
    }
    let start: usize = if v[0] == '+' {
        1
    } else {
        0
    };
    proof {
        if v@[0] == '+' {
            assert(v@.drop_first() =~= v@.subrange(1, v@.len() as int));
        } else {
            assert(v@ =~= v@.subrange(0, v@.len() as int));
        }
    }
    if start == v.len() {
        return None;
    }
    match parse_digits(v, start, radix, 0xffff_ffff) {
        Some(n) => Some(n as u32),
        None => None,
    }
}

/// Parses a decimal `i32`, as `str::parse::<i32>` does.
pub fn parse_i32(v: &Vec<char>) -> (r: Option<i32>)
    ensures
        match r {
            Some(n) => parse_signed32(v@) == Some(n as int),
            None => parse_signed32(v@) is None,
        },
{
    if v.len() == 0 {
        return None;
    }
    if v[0] == '-' {
        proof {
            assert(v@.drop_first() =~= v@.subrange(1, v@.len() as int));
        }
        if v.len() == 1 {
            return None;
        }
        match parse_digits(v, 1, 10, 0x8000_0000) {
            Some(n) => {
                let neg: i64 = -(n as i64);
                Some(neg as i32)
            },
            None => None,
        }
    } else {
        proof {
            if v@[0] == '+' {
                assert(v@.drop_first() =~= v@.subrange(1, v@.len() as int));
            } else {
                assert(v@ =~= v@.subrange(0, v@.len() as int));
            }
        }
        let start: usize = if v[0] == '+' {
            1
        } else {
            0
        };
        if start == v.len() {
            return None;
        }
        match parse_digits(v, start, 10, 0x7fff_ffff) {
            Some(n) => Some(n as i32),
            None => None,
        }
    }
}

/// The character of digit `d` (below 16); letters are upper case.
pub open spec fn digit_char(d: nat) -> char {
    if d < 10 {
        (0x30 + d) as char
    } else {
        (0x41 + d - 10) as char
    }
}

/// `n` in decimal, without leading zeros.
pub open spec fn decimal(n: nat) -> Seq<char>
    decreases n,
{
    if n < 10 {
        seq![digit_char(n)]
    } else {
        decimal(n / 10).push(digit_char(n % 10))
    }
}

/// `n` in decimal with a leading `-` when negative.
pub open spec fn signed_decimal(n: int) -> Seq<char> {
    if n < 0 {
        seq!['-'] + decimal((-n) as nat)
    } else {
        decimal(n as nat)
    }
}

/// The last `k` hexadecimal digits of `n`, upper case, zero padded.
pub open spec fn hex_fixed(n: nat, k: nat) -> Seq<char>
    decreases k,
{
    if k == 0 {
        seq![]
    } else {
        hex_fixed(n / 16, (k - 1) as nat).push(digit_char(n % 16))
    }
}

fn digit_to_char(d: u32) -> (c: char)
    requires
        d < 16,
    ensures
        c == digit_char(d as nat),
{
    if d < 10 {
        char_from_ascii(0x30 + d)
    } else {
        char_from_ascii(0x41 + d - 10)
    }
}

/// Appends `n` in decimal to `out`.
pub fn push_decimal(out: &mut Vec<char>, n: u32)
    ensures
        final(out)@ == old(out)@ + decimal(n as nat),
{
    let mut digits: Vec<char> = Vec::new();
    let mut m: u32 = n;
    while m >= 10
        invariant
            decimal(n as nat) == decimal(m as nat) + digits@,
        decreases m,
    {
        let ghost before = digits@;
        digits.insert(0, digit_to_char(m % 10));
        proof {
            assert(decimal(m as nat) == decimal((m / 10) as nat).push(digit_char((m % 10) as nat)));
            assert(decimal((m / 10) as nat).push(digit_char((m % 10) as nat)) + before
                =~= decimal((m / 10) as nat) + digits@);
        }
        m = m / 10;
    }
    digits.insert(0, digit_to_char(m));
    let ghost first = out@;
    let mut i: usize = 0;
    while i < digits.len()
        invariant
            i <= digits.len(),
            out@ == first + digits@.take(i as int),
        decreases digits.len() - i,
    {
        out.push(digits[i]);
        i += 1;
        proof {
            assert(digits@.take(i as int) =~= digits@.take(i - 1).push(digits@[i - 1]));
        }
    }
    proof {
        assert(digits@.take(i as int) =~= digits@);
        assert(digits@ =~= decimal(n as nat));
    }
}

/// Appends `n` in decimal, with a `-` when negative, to `out`.
pub fn push_signed_decimal(out: &mut Vec<char>, n: i32)
    ensures
        final(out)@ == old(out)@ + signed_decimal(n as int),
{
    if n < 0 {
        let ghost first = out@;
        out.push('-');
        let magnitude: u32 = (-(n as i64)) as u32;
        push_decimal(out, magnitude);
        proof {
            assert(first.push('-') + decimal(magnitude as nat) =~= first + (seq!['-'] + decimal(
                magnitude as nat,
            )));
        }
    } else {
        push_decimal(out, n as u32);
    }
}

/// Appends the last `k` upper-case hexadecimal digits of `n` to `out`.
pub fn push_hex(out: &mut Vec<char>, n: u32, k: usize)
    requires
        k <= 8,
    ensures
        final(out)@ == old(out)@ + hex_fixed(n as nat, k as nat),
{
    let mut digits: Vec<char> = Vec::new();
    let mut m: u32 = n;
    let mut done: usize = 0;
    while done < k
        invariant
            done <= k <= 8,
            hex_fixed(n as nat, k as nat) == hex_fixed(m as nat, (k - done) as nat) + digits@,
        decreases k - done,
    {
        let ghost before = digits@;
        digits.insert(0, digit_to_char(m % 16));
        proof {
            assert(hex_fixed(m as nat, (k - done) as nat) == hex_fixed(
                (m / 16) as nat,
                (k - done - 1) as nat,
            ).push(digit_char((m % 16) as nat)));
            assert(hex_fixed((m / 16) as nat, (k - done - 1) as nat).push(
                digit_char((m % 16) as nat),
            ) + before =~= hex_fixed((m / 16) as nat, (k - done - 1) as nat) + digits@);
        }
        m = m / 16;
        done += 1;
    }
    proof {
        assert(hex_fixed(m as nat, 0) =~= seq![]);
        assert(digits@ =~= hex_fixed(n as nat, k as nat));
    }
    append_chars(out, &digits);
}

/// Appends the eight upper-case hexadecimal digits of `n` to `out`.
pub fn push_hex8(out: &mut Vec<char>, n: u32)
    ensures
        final(out)@ == old(out)@ + hex_fixed(n as nat, 8),
{
    push_hex(out, n, 8);
}

// ---------------------------------------------------------------------------
// Written numbers read back
// ---------------------------------------------------------------------------

pub open spec fn pow16(k: nat) -> nat
    decreases k,
{
    if k == 0 {
        1
    } else {
        16 * pow16((k - 1) as nat)
    }
}

/// A digit character is a digit of any base it fits in, and is neither a
/// sign, white space, `=`, a line feed nor a carriage return.
pub proof fn lemma_digit_char(d: nat, radix: nat)
    requires
        d < radix,
        radix == 10 || radix == 16,
    ensures
        digit_value(digit_char(d), radix) == Some(d),
        !is_white_space(digit_char(d)),
        digit_char(d) != '+',
        digit_char(d) != '-',
        digit_char(d) != '=',
        digit_char(d) != '\n',
        digit_char(d) != '\r',
{
    if d < 10 {
        assert((0x30 + d) as char as u32 == 0x30 + d);
    } else {
        assert((0x41 + d - 10) as char as u32 == 0x41 + d - 10);
    }
}

/// Properties every written decimal number has.
pub open spec fn plain_number(s: Seq<char>, radix: nat) -> bool {
    &&& s.len() > 0
    &&& all_digits(s, radix)
    &&& no_white_space(s)
    &&& lacks(s, '=')
    &&& lacks(s, '\n')
    &&& s[0] != '+'
    &&& s[0] != '-'
    &&& s.last() != '\r'
}

pub proof fn lemma_push_digit(s: Seq<char>, d: nat, radix: nat)
    requires
        plain_number(s, radix) || s.len() == 0,
        d < radix,
        radix == 10 || radix == 16,
    ensures
        plain_number(s.push(digit_char(d)), radix),
        digits_value(s.push(digit_char(d)), radix) == digits_value(s, radix) * radix + d,
{
    lemma_digit_char(d, radix);
    let t = s.push(digit_char(d));
    assert(t.drop_last() =~= s);
    assert forall|i: int| 0 <= i < t.len() implies (#[trigger] digit_value(t[i], radix)) is Some
        && !is_white_space(t[i]) && t[i] != '=' && t[i] != '\n' by {
        if i < s.len() {
            assert(t[i] == s[i]);
        }
    }
}

pub proof fn lemma_decimal(n: nat)
    ensures
        plain_number(decimal(n), 10),
        digits_value(decimal(n), 10) == n,
    decreases n,
{
    if n < 10 {
        lemma_push_digit(seq![], n, 10);
        assert(seq![].push(digit_char(n)) =~= decimal(n));
    } else {
        lemma_decimal(n / 10);
        lemma_push_digit(decimal(n / 10), n % 10, 10);
    }
}

pub proof fn lemma_hex_fixed(n: nat, k: nat)
    requires
        k > 0,
        n < pow16(k),
    ensures
        plain_number(hex_fixed(n, k), 16),
        digits_value(hex_fixed(n, k), 16) == n,
    decreases k,
{
    assert(n == (n / 16) * 16 + n % 16);
    if k == 1 {
        assert(pow16(1) == 16) by {
            reveal_with_fuel(pow16, 2);
        }
        assert(hex_fixed(n / 16, 0) =~= seq![]);
        lemma_push_digit(seq![], n % 16, 16);
        assert(digits_value(seq![], 16) == 0);
    } else {
        lemma_hex_fixed(n / 16, (k - 1) as nat);
        lemma_push_digit(hex_fixed(n / 16, (k - 1) as nat), n % 16, 16);
    }
}

/// A decimal number written out is read back as the same number.
pub proof fn lemma_parse_decimal(n: nat, max: nat)
    requires
        n <= max,
    ensures
        parse_unsigned(decimal(n), 10, max) == Some(n),
{
    lemma_decimal(n);
}

/// A signed decimal number written out is read back as the same number.
pub proof fn lemma_parse_signed_decimal(n: i32)
    ensures
        parse_signed32(signed_decimal(n as int)) == Some(n as int),
        signed_decimal(n as int).len() > 0,
        no_white_space(signed_decimal(n as int)),
        lacks(signed_decimal(n as int), '='),
        lacks(signed_decimal(n as int), '\n'),
        signed_decimal(n as int).last() != '\r',
{
    if n < 0 {
        let m = (-n) as nat;
        lemma_decimal(m);
        let s = seq!['-'] + decimal(m);
        assert(s.drop_first() =~= decimal(m));
        assert forall|i: int| 0 <= i < s.len() implies !is_white_space(#[trigger] s[i]) && s[i]
            != '=' && s[i] != '\n' by {
            if i > 0 {
                assert(s[i] == decimal(m)[i - 1]);
            }
        }
        assert(s.last() == decimal(m).last());
    } else {
        lemma_decimal(n as nat);
    }
}

/// Eight hexadecimal digits written out are read back as the same number.
pub proof fn lemma_parse_hex8(n: u32)
    ensures
        parse_unsigned(hex_fixed(n as nat, 8), 16, u32::MAX as nat) == Some(n as nat),
        plain_number(hex_fixed(n as nat, 8), 16),
{
    assert(pow16(8) == 0x1_0000_0000) by {
        reveal_with_fuel(pow16, 9);
    }
    lemma_hex_fixed(n as nat, 8);
}

// ---------------------------------------------------------------------------
// Strings
// ---------------------------------------------------------------------------

/// `String::push`: appends one character.
#[verifier::external_body]
fn string_push(s: &mut String, c: char)
    ensures
        final(s)@ == old(s)@.push(c),
{
    s.push(c);
}

/// A string holding the characters `v`.
pub fn string_from_chars(v: &Vec<char>) -> (s: String)
    ensures
        s@ == v@,
{
    let mut s = String::new();
    let mut i: usize = 0;
    while i < v.len()
        invariant
            i <= v.len(),
            s@ == v@.take(i as int),
        decreases v.len() - i,
    {
        string_push(&mut s, v[i]);
        i += 1;
        proof {
            assert(v@.take(i as int) =~= v@.take(i - 1).push(v@[i - 1]));
        }
    }
    proof {
        assert(v@.take(i as int) =~= v@);
    }
    s
}

/// Appends all of `src` to `out`.
pub fn append_chars(out: &mut Vec<char>, src: &Vec<char>)
    ensures
        final(out)@ == old(out)@ + src@,
{
    let ghost first = out@;
    let mut i: usize = 0;
    while i < src.len()
        invariant
            i <= src.len(),
            out@ == first + src@.take(i as int),
        decreases src.len() - i,
    {
        out.push(src[i]);
        i += 1;
        proof {
            assert(src@.take(i as int) =~= src@.take(i - 1).push(src@[i - 1]));
        }
    }
    proof {
        assert(src@.take(i as int) =~= src@);
    }
}

// ---------------------------------------------------------------------------
// UTF-16
// ---------------------------------------------------------------------------

/// The UTF-16 code units of one character: itself below `0x10000`, a
/// surrogate pair above.
pub open spec fn utf16_char(c: char) -> Seq<u16> {
    let u = c as u32;
    if u < 0x1_0000 {
        seq![u as u16]
    } else {
        let v = u - 0x1_0000;
        seq![(0xD800 + v / 0x400) as u16, (0xDC00 + v % 0x400) as u16]
    }
}

/// The UTF-16 encoding of a character sequence.
pub open spec fn utf16(s: Seq<char>) -> Seq<u16>
    decreases s.len(),
{
    if s.len() == 0 {
        seq![]
    } else {
        utf16(s.drop_last()) + utf16_char(s.last())
    }
}

fn push_utf16_char(out: &mut Vec<u16>, c: char)
    ensures
        final(out)@ == old(out)@ + utf16_char(c),
{
    let u = c as u32;
    if u < 0x1_0000 {
        out.push(u as u16);
        proof {
            assert(old(out)@ + utf16_char(c) =~= old(out)@.push(u as u16));
        }
    } else {
        let v: u32 = u - 0x1_0000;
        let high: u16 = (0xD800 + v / 0x400) as u16;
        let low: u16 = (0xDC00 + v % 0x400) as u16;
        out.push(high);
        out.push(low);
        proof {
            assert(old(out)@ + utf16_char(c) =~= old(out)@.push(high).push(low));
        }
    }
}

/// The UTF-16 code units of `s`.
pub fn utf16_units(s: &str) -> (units: Vec<u16>)
    ensures
        units@ == utf16(s@),
{
    let v = chars_of(s);
    let mut units: Vec<u16> = Vec::new();
    let mut i: usize = 0;
    while i < v.len()
        invariant
            i <= v.len(),
            units@ == utf16(v@.take(i as int)),
        decreases v.len() - i,
    {
        push_utf16_char(&mut units, v[i]);
        i += 1;
        proof {
            let next = v@.take(i as int);
            assert(next.drop_last() =~= v@.take(i - 1));
            assert(next.last() == v@[i - 1]);
        }
    }
    proof {
        assert(v@.take(i as int) =~= s@);
    }
    units
}

/// Each character's UTF-16 units decode back to it: one unit equal to the
/// character below `0x10000`; otherwise a high surrogate and a low surrogate
/// whose payloads give the character.
pub proof fn lemma_utf16_char_decodes(c: char)
    ensures
        (c as u32) < 0x1_0000 ==> utf16_char(c).len() == 1 && utf16_char(c)[0] as u32 == c as u32,
        (c as u32) >= 0x1_0000 ==> {
            let hi = utf16_char(c)[0] as int;
            let lo = utf16_char(c)[1] as int;
            &&& utf16_char(c).len() == 2
            &&& 0xD800 <= hi <= 0xDBFF
            &&& 0xDC00 <= lo <= 0xDFFF
            &&& (hi - 0xD800) * 0x400 + (lo - 0xDC00) + 0x1_0000 == c as u32
        },
{
    let u = c as u32;
    if u >= 0x1_0000 {
        let v = u - 0x1_0000;
        assert(v <= 0xF_FFFF);
        assert(v / 0x400 <= 0x3FF);
        assert((v / 0x400) * 0x400 + v % 0x400 == v);
    }
}

/// The encoding of a text is the encodings of its parts, one after the
/// other.
pub proof fn lemma_utf16_concat(a: Seq<char>, b: Seq<char>)
    ensures
        utf16(a + b) == utf16(a) + utf16(b),
    decreases b.len(),
{
    if b.len() == 0 {
        assert(a + b =~= a);
        assert(utf16(b) =~= seq![]);
        assert(utf16(a) + utf16(b) =~= utf16(a));
    } else {
        let ab = a + b;
        assert(ab.drop_last() =~= a + b.drop_last());
        assert(ab.last() == b.last());
        lemma_utf16_concat(a, b.drop_last());
        assert(utf16(a) + utf16(b.drop_last()) + utf16_char(b.last()) =~= utf16(a) + (utf16(
            b.drop_last(),
        ) + utf16_char(b.last())));
    }
}

pub proof fn lemma_hex_fixed_len(n: nat, k: nat)
    ensures
        hex_fixed(n, k).len() == k,
    decreases k,
{
    if k > 0 {
        lemma_hex_fixed_len(n / 16, (k - 1) as nat);
    }
}

} // verus!
