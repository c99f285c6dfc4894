//! Fixed-point colours and the conversions between hexadecimal text,
//! RGB triples and hue / saturation / value.

use vstd::prelude::*;
use vstd::arithmetic::div_mod::lemma_fundamental_div_mod;

verus! {

/// Hue units in one degree: hue is kept in thousandths of a degree.
pub const HUE_PER_DEGREE: u32 = 1000;

/// Hue units in a full turn of the colour wheel.
pub const HUE_TURN: u32 = 360_000;

/// Hue units in one sixth of the wheel.
pub const HUE_SECTOR: u32 = 60_000;

/// The level that stands for 1.0 in saturation and value.
pub const LEVEL_MAX: u32 = 10_000;

/// A colour as hue, saturation and value in fixed point.
#[derive(Clone, Copy, Debug, PartialEq, Eq, Structural)]
pub struct Color {
    /// Hue in thousandths of a degree, below a full turn.
    pub hue: u32,
    /// Saturation in ten-thousandths.
    pub sat: u32,
    /// Value (brightness) in ten-thousandths.
    pub val: u32,
}

/// The colour that `Color::new` makes of three raw numbers: the hue wrapped
/// into one turn, the two levels capped at one.
pub open spec fn normalized(hue: u32, sat: u32, val: u32) -> Color {
    Color {
        hue: hue % HUE_TURN,
        sat: if sat > LEVEL_MAX { LEVEL_MAX } else { sat },
        val: if val > LEVEL_MAX { LEVEL_MAX } else { val },
    }
}

impl Color {
    /// Hue is below a full turn and both levels are at most one.
    pub open spec fn wf(self) -> bool {
        &&& self.hue < HUE_TURN
        &&& self.sat <= LEVEL_MAX
        &&& self.val <= LEVEL_MAX
    }

    /// The neutral placeholder that a fresh slot holds: black.
    pub open spec fn spec_neutral() -> Color {
        Color { hue: 0, sat: 0, val: 0 }
    }

    /// Builds a colour from raw numbers, wrapping the hue and capping the
    /// levels so that the result is always well formed.
    pub fn new(hue: u32, sat: u32, val: u32) -> (c: Color)
        ensures
            c == normalized(hue, sat, val),
            c.wf(),
            (Color { hue, sat, val }).wf() ==> c == (Color { hue, sat, val }),
    {
        Color {
            hue: hue % HUE_TURN,
            sat: if sat > LEVEL_MAX { LEVEL_MAX } else { sat },
            val: if val > LEVEL_MAX { LEVEL_MAX } else { val },
        }
    }

    /// The neutral placeholder colour.
    #[verifier::when_used_as_spec(spec_neutral)]
    pub fn neutral() -> (c: Color)
        ensures
            c == Color::spec_neutral(),
            c.wf(),
    {
        Color { hue: 0, sat: 0, val: 0 }
    }

    /// Hue, saturation and value as a triple.
    pub fn get_hsv_values(&self) -> (t: (u32, u32, u32))
        ensures
            t == (self.hue, self.sat, self.val),
    {
        (self.hue, self.sat, self.val)
    }
}

/// `num / den` rounded to the nearest whole number, halves upwards.
pub open spec fn div_round(num: int, den: int) -> int {
    (2 * num + den) / (2 * den)
}

/// The value of a hexadecimal digit; zero for any other character.
pub open spec fn spec_hex_value(c: char) -> u8 {
    let n = c as u32;
    if 48 <= n <= 57 {
        (n - 48) as u8
    } else if 97 <= n <= 102 {
        (n - 87) as u8
    } else if 65 <= n <= 70 {
        (n - 55) as u8
    } else {
        0
    }
}

/// Whether `c` is one of `0-9`, `a-f`, `A-F`.
pub open spec fn is_hex_char(c: char) -> bool {
    let n = c as u32;
    48 <= n <= 57 || 97 <= n <= 102 || 65 <= n <= 70
}

/// Whether `c` is one of `0-9`, `a-f`: a digit as this library writes it.
pub open spec fn is_lower_hex_char(c: char) -> bool {
    let n = c as u32;
    48 <= n <= 57 || 97 <= n <= 102
}

/// The value of the digit at place `i` of `text`; zero past its end.
pub open spec fn digit_at(text: Seq<char>, i: int) -> u8 {
    if 0 <= i < text.len() {
        spec_hex_value(text[i])
    } else {
        0
    }
}

/// The red, green and blue that the first six characters of `text` spell,
/// two digits each. Missing digits and characters that are no digits count
/// as zero; characters after the sixth are ignored.
pub open spec fn spec_hex2rgb(text: Seq<char>) -> (u8, u8, u8) {
    (
        (16 * digit_at(text, 0) + digit_at(text, 1)) as u8,
        (16 * digit_at(text, 2) + digit_at(text, 3)) as u8,
        (16 * digit_at(text, 4) + digit_at(text, 5)) as u8,
    )
}

/// The lower-case hexadecimal digit of a number below sixteen.
pub open spec fn spec_hex_digit(n: u8) -> char {
    if n < 10 {
        (n + 48) as char
    } else {
        (n + 87) as char
    }
}

/// Six lower-case hexadecimal digits for red, green and blue.
pub open spec fn spec_rgb2hex(r: u8, g: u8, b: u8) -> Seq<char> {
    seq![
        spec_hex_digit(r / 16),
        spec_hex_digit(r % 16),
        spec_hex_digit(g / 16),
        spec_hex_digit(g % 16),
        spec_hex_digit(b / 16),
        spec_hex_digit(b % 16),
    ]
}

/// The largest of three.
pub open spec fn max3(r: int, g: int, b: int) -> int {
    if r >= g && r >= b {
        r
    } else if g >= b {
        g
    } else {
        b
    }
}

/// The smallest of three.
pub open spec fn min3(r: int, g: int, b: int) -> int {
    if r <= g && r <= b {
        r
    } else if g <= b {
        g
    } else {
        b
    }
}

/// The share `part / whole` of one sixth of the wheel, in hue units,
/// rounded to the nearest.
pub open spec fn sector_share(part: int, whole: int) -> int {
    div_round(HUE_SECTOR * part, whole)
}

/// The hue of an RGB triple: zero for a grey; else the sixth of the wheel
/// that belongs to the largest channel (red first, then green, then blue),
/// moved towards the neighbour that the middle channel points to.
pub open spec fn spec_hue(r: int, g: int, b: int) -> int {
    let mx = max3(r, g, b);
    let d = mx - min3(r, g, b);
    if d == 0 {
        0
    } else if mx == r {
        if g >= b {
            sector_share(g - b, d)
        } else {
            6 * HUE_SECTOR - sector_share(b - g, d)
        }
    } else if mx == g {
        if b >= r {
            2 * HUE_SECTOR + sector_share(b - r, d)
        } else {
            2 * HUE_SECTOR - sector_share(r - b, d)
        }
    } else if r >= g {
        4 * HUE_SECTOR + sector_share(r - g, d)
    } else {
        4 * HUE_SECTOR - sector_share(g - r, d)
    }
}

/// Hue, saturation and value of an RGB triple: the value is the largest
/// channel as a share of 255, the saturation the spread between largest and
/// smallest channel as a share of the largest, each rounded to the nearest
/// level.
#[verifier::opaque]
pub open spec fn spec_rgb2hsv(r: u8, g: u8, b: u8) -> Color {
    let mx = max3(r as int, g as int, b as int);
    let d = mx - min3(r as int, g as int, b as int);
    Color {
        hue: spec_hue(r as int, g as int, b as int) as u32,
        sat: if mx == 0 {
            0
        } else {
            div_round(d * LEVEL_MAX, mx) as u32
        },
        val: div_round(mx * LEVEL_MAX, 255) as u32,
    }
}

/// The channel, out of 255, of a colour with value `val` and saturation
/// `sat` that lies `w` hue units away from the full channel: `w` is zero
/// for the largest channel and a whole sector for the smallest.
pub open spec fn spec_level(val: int, sat: int, w: int) -> int {
    div_round(
        255 * val * (LEVEL_MAX * HUE_SECTOR - sat * w),
        LEVEL_MAX * LEVEL_MAX * HUE_SECTOR,
    )
}

/// Red, green and blue of a colour, each from 0 to 255.
#[verifier::opaque]
pub open spec fn spec_hsv2rgb(c: Color) -> (u8, u8, u8) {
    let sector = c.hue / HUE_SECTOR;
    let f = (c.hue % HUE_SECTOR) as int;
    let high = spec_level(c.val as int, c.sat as int, 0) as u8;
    let low = spec_level(c.val as int, c.sat as int, HUE_SECTOR as int) as u8;
    let rising = spec_level(c.val as int, c.sat as int, HUE_SECTOR - f) as u8;
    let falling = spec_level(c.val as int, c.sat as int, f) as u8;
    if sector == 0 {
        (high, rising, low)
    } else if sector == 1 {
        (falling, high, low)
    } else if sector == 2 {
        (low, high, rising)
    } else if sector == 3 {
        (low, falling, high)
    } else if sector == 4 {
        (rising, low, high)
    } else {
        (high, low, falling)
    }
}

/// The colour that up to six hexadecimal digits spell.
pub open spec fn spec_hex2hsv(text: Seq<char>) -> Color {
    let (r, g, b) = spec_hex2rgb(text);
    spec_rgb2hsv(r, g, b)
}

/// The six hexadecimal digits of a colour.
pub open spec fn spec_hsv2hex(c: Color) -> Seq<char> {
    let (r, g, b) = spec_hsv2rgb(c);
    spec_rgb2hex(r, g, b)
}

/// A rounded quotient is within half the divisor of the exact one.
pub proof fn lemma_div_round(num: int, den: int)
    requires
        0 <= num,
        0 < den,
    ensures
        -den < 2 * (den * div_round(num, den) - num) <= den,
        0 <= div_round(num, den),
{
    lemma_fundamental_div_mod(2 * num + den, 2 * den);
    let q = div_round(num, den);
    assert((2 * den) * q == 2 * (den * q)) by (nonlinear_arith);
    assert(q >= 0) by (nonlinear_arith)
        requires
            q == (2 * num + den) / (2 * den),
            0 <= num,
            0 < den,
    ;
}

/// A rounded share of a whole is at most the whole, and at least one unit
/// when the part is at least one and the whole no more than twice the unit
/// count.
pub proof fn lemma_share(unit: int, part: int, whole: int)
    requires
        0 <= part <= whole,
        0 < whole,
        0 < unit,
    ensures
        0 <= div_round(unit * part, whole) <= unit,
        part >= 1 && whole <= 2 * unit ==> div_round(unit * part, whole) >= 1,
        -whole < 2 * (whole * div_round(unit * part, whole) - unit * part) <= whole,
{
    assert(0 <= unit * part <= unit * whole) by (nonlinear_arith)
        requires
            0 <= part <= whole,
            0 < unit,
    ;
    lemma_div_round(unit * part, whole);
    let q = div_round(unit * part, whole);
    assert(q <= unit) by (nonlinear_arith)
        requires
            2 * (whole * q - unit * part) <= whole,
            unit * part <= unit * whole,
            0 < whole,
    ;
    if part >= 1 && whole <= 2 * unit {
        assert(unit * part >= unit) by (nonlinear_arith)
            requires
                part >= 1,
                0 < unit,
        ;
        assert(q >= 1) by (nonlinear_arith)
            requires
                -whole < 2 * (whole * q - unit * part),
                unit * part >= unit,
                whole <= 2 * unit,
                0 < whole,
                part >= 1,
                0 < unit,
        ;
    }
}

/// A channel computed from well-formed levels lies between 0 and 255.
pub proof fn lemma_level_range(val: int, sat: int, w: int)
    requires
        0 <= val <= LEVEL_MAX,
        0 <= sat <= LEVEL_MAX,
        0 <= w <= HUE_SECTOR,
    ensures
        0 <= spec_level(val, sat, w) <= 255,
        0 <= sat * w <= 600_000_000,
        0 <= 255 * val * (600_000_000 - sat * w) <= 1_530_000_000_000_000,
{
    assert(0 <= sat * w <= 600_000_000) by (nonlinear_arith)
        requires
            0 <= sat <= 10_000,
            0 <= w <= 60_000,
    ;
    let rest = 600_000_000 - sat * w;
    assert(0 <= val * rest <= 6_000_000_000_000) by (nonlinear_arith)
        requires
            0 <= val <= 10_000,
            0 <= rest <= 600_000_000,
    ;
    assert(255 * val * rest == 255 * (val * rest)) by (nonlinear_arith);
    assert(LEVEL_MAX * HUE_SECTOR == 600_000_000);
    assert(LEVEL_MAX * LEVEL_MAX * HUE_SECTOR == 6_000_000_000_000);
}

/// The value of a hexadecimal digit; zero for any other character.
pub fn hex_value(c: char) -> (v: u8)
    ensures
        v == spec_hex_value(c),
        v < 16,
{
    let n: u32 = c as u32;
    if 48 <= n && n <= 57 {
        (n - 48) as u8
    } else if 97 <= n && n <= 102 {
        (n - 87) as u8
    } else if 65 <= n && n <= 70 {
        (n - 55) as u8
    } else {
        0
    }
}

/// The value of the digit at place `i` of a text of `len` characters.
fn digit(text: &str, len: usize, i: usize) -> (v: u8)
    requires
        len == text@.len(),
    ensures
        v == digit_at(text@, i as int),
        v < 16,
{
    if i < len {
        hex_value(text.get_char(i))
    } else {
        0
    }
}

/// Reads red, green and blue from up to six hexadecimal digits. The
/// function is total: a missing digit, or a character that is no digit,
/// counts as zero, and what follows the sixth character is ignored.
pub fn hex2rgb(text: &str) -> (rgb: (u8, u8, u8))
    ensures
        rgb == spec_hex2rgb(text@),
{
    let len: usize = text.unicode_len();
    let r: u8 = 16 * digit(text, len, 0) + digit(text, len, 1);
    let g: u8 = 16 * digit(text, len, 2) + digit(text, len, 3);
    let b: u8 = 16 * digit(text, len, 4) + digit(text, len, 5);
    (r, g, b)
}

/// The value of the digit at place `i` of `digits`.
fn digit_of(digits: &Vec<char>, i: usize) -> (v: u8)
    ensures
        v == digit_at(digits@, i as int),
        v < 16,
{
    if i < digits.len() {
        hex_value(digits[i])
    } else {
        0
    }
}

/// Reads red, green and blue from up to six hexadecimal digits held as
/// characters, as `hex2rgb` does from text.
pub fn digits2rgb(digits: &Vec<char>) -> (rgb: (u8, u8, u8))
    ensures
        rgb == spec_hex2rgb(digits@),
{
    let r: u8 = 16 * digit_of(digits, 0) + digit_of(digits, 1);
    let g: u8 = 16 * digit_of(digits, 2) + digit_of(digits, 3);
    let b: u8 = 16 * digit_of(digits, 4) + digit_of(digits, 5);
    (r, g, b)
}

/// Whether `c` is one of `0-9`, `a-f`, `A-F`.
pub fn is_hex(c: char) -> (b: bool)
    ensures
        b == is_hex_char(c),
{
    let n: u32 = c as u32;
    (48 <= n && n <= 57) || (97 <= n && n <= 102) || (65 <= n && n <= 70)
}

/// `num / den` rounded to the nearest whole number.
fn round_div(num: u64, den: u64) -> (q: u64)
    requires
        0 < den <= 0x1000_0000_0000_0000,
        num <= 0x1000_0000_0000_0000,
    ensures
        q == div_round(num as int, den as int),
{
    (2 * num + den) / (2 * den)
}

/// The share `part / whole` of one sixth of the wheel.
fn hue_share(part: u8, whole: u8) -> (t: u32)
    requires
        part <= whole,
        0 < whole,
    ensures
        t == sector_share(part as int, whole as int),
        t <= HUE_SECTOR,
        part >= 1 ==> t >= 1,
{
    proof {
        lemma_share(HUE_SECTOR as int, part as int, whole as int);
    }
    round_div(60_000 * (part as u64), whole as u64) as u32
}

/// Hue, saturation and value of an RGB triple.
pub fn rgb2hsv(r: u8, g: u8, b: u8) -> (c: Color)
    ensures
        c == spec_rgb2hsv(r, g, b),
        c.wf(),
{
    let mx: u8 = if r >= g && r >= b {
        r
    } else if g >= b {
        g
    } else {
        b
    };
    let mn: u8 = if r <= g && r <= b {
        r
    } else if g <= b {
        g
    } else {
        b
    };
    let d: u8 = mx - mn;
    let hue: u32 = if d == 0 {
        0
    } else if mx == r {
        if g >= b {
            hue_share(g - b, d)
        } else {
            6 * HUE_SECTOR - hue_share(b - g, d)
        }
    } else if mx == g {
        if b >= r {
            2 * HUE_SECTOR + hue_share(b - r, d)
        } else {
            2 * HUE_SECTOR - hue_share(r - b, d)
        }
    } else if r >= g {
        4 * HUE_SECTOR + hue_share(r - g, d)
    } else {
        4 * HUE_SECTOR - hue_share(g - r, d)
    };
    proof {
        if mx > 0 {
            lemma_share(LEVEL_MAX as int, d as int, mx as int);
        }
    }
    let sat: u32 = if mx == 0 {
        0
    } else {
        round_div(10_000 * (d as u64), mx as u64) as u32
    };
    let val: u32 = round_div(10_000 * (mx as u64), 255) as u32;
    proof {
        reveal(spec_rgb2hsv);
    }
    Color { hue, sat, val }
}

/// One channel of a colour, from 0 to 255.
fn level(val: u32, sat: u32, w: u32) -> (l: u8)
    requires
        val <= LEVEL_MAX,
        sat <= LEVEL_MAX,
        w <= HUE_SECTOR,
    ensures
        l == spec_level(val as int, sat as int, w as int),
{
    proof {
        lemma_level_range(val as int, sat as int, w as int);
        assert(LEVEL_MAX * HUE_SECTOR == 600_000_000);
        assert(LEVEL_MAX * LEVEL_MAX * HUE_SECTOR == 6_000_000_000_000);
    }
    let taken: u64 = (sat as u64) * (w as u64);
    let rest: u64 = 600_000_000 - taken;
    assert(0 <= val * rest <= 6_000_000_000_000) by (nonlinear_arith)
        requires
            0 <= val <= 10_000,
            0 <= rest <= 600_000_000,
    ;
    let scaled: u64 = (val as u64) * rest;
    assert(255 * val * rest == 255 * (val * rest)) by (nonlinear_arith);
    round_div(255 * scaled, 6_000_000_000_000) as u8
}

/// Red, green and blue of a colour, each from 0 to 255.
pub fn hsv2rgb(c: &Color) -> (rgb: (u8, u8, u8))
    requires
        c.wf(),
    ensures
        rgb == spec_hsv2rgb(*c),
{
    proof {
        reveal(spec_hsv2rgb);
    }
    let sector: u32 = c.hue / HUE_SECTOR;
    let f: u32 = c.hue % HUE_SECTOR;
    let high = level(c.val, c.sat, 0);
    let low = level(c.val, c.sat, HUE_SECTOR);
    let rising = level(c.val, c.sat, HUE_SECTOR - f);
    let falling = level(c.val, c.sat, f);
    if sector == 0 {
        (high, rising, low)
    } else if sector == 1 {
        (falling, high, low)
    } else if sector == 2 {
        (low, high, rising)
    } else if sector == 3 {
        (low, falling, high)
    } else if sector == 4 {
        (rising, low, high)
    } else {
        (high, low, falling)
    }
}

/// The lower-case hexadecimal digit of a number below sixteen, as text.
fn hex_digit(n: u8) -> (s: &'static str)
    requires
        n < 16,
    ensures
        s@ == seq![spec_hex_digit(n)],
{
    proof {
        reveal_strlit("0");
        reveal_strlit("1");
        reveal_strlit("2");
        reveal_strlit("3");
        reveal_strlit("4");
        reveal_strlit("5");
        reveal_strlit("6");
        reveal_strlit("7");
        reveal_strlit("8");
        reveal_strlit("9");
        reveal_strlit("a");
        reveal_strlit("b");
        reveal_strlit("c");
        reveal_strlit("d");
        reveal_strlit("e");
        reveal_strlit("f");
    }
    let s = match n {
        0 => "0",
        1 => "1",
        2 => "2",
        3 => "3",
        4 => "4",
        5 => "5",
        6 => "6",
        7 => "7",
        8 => "8",
        9 => "9",
        10 => "a",
        11 => "b",
        12 => "c",
        13 => "d",
        14 => "e",
        _ => "f",
    };
    assert(s@ =~= seq![spec_hex_digit(n)]);
    s
}

/// Six lower-case hexadecimal digits for red, green and blue, without a
/// leading `#`.
pub fn rgb2hex(r: u8, g: u8, b: u8) -> (text: String)
    ensures
        text@ == spec_rgb2hex(r, g, b),
{
    let mut text = String::new();
    text.append(hex_digit(r / 16));
    text.append(hex_digit(r % 16));
    text.append(hex_digit(g / 16));
    text.append(hex_digit(g % 16));
    text.append(hex_digit(b / 16));
    text.append(hex_digit(b % 16));
    assert(text@ =~= spec_rgb2hex(r, g, b));
    text
}

/// The six hexadecimal digits of a colour.
pub fn hsv2hex(c: &Color) -> (text: String)
    requires
        c.wf(),
    ensures
        text@ == spec_hsv2hex(*c),
{
    let (r, g, b) = hsv2rgb(c);
    rgb2hex(r, g, b)
}

impl Color {
    /// The six hexadecimal digits of the colour.
    pub fn get_hex(&self) -> (text: String)
        requires
            self.wf(),
        ensures
            text@ == spec_hsv2hex(*self),
    {
        hsv2hex(self)
    }

    /// The colour that up to six hexadecimal digits spell.
    pub fn from_hex(text: &str) -> (c: Color)
        ensures
            c == spec_hex2hsv(text@),
            c.wf(),
    {
        let (r, g, b) = hex2rgb(text);
        rgb2hsv(r, g, b)
    }
}

/// The value that `spec_rgb2hsv` gives to a largest channel `mx`.
pub open spec fn value_of(mx: int) -> int {
    div_round(mx * LEVEL_MAX, 255)
}

/// The saturation that `spec_rgb2hsv` gives to a largest channel `mx` and
/// a spread `d`.
pub open spec fn saturation_of(mx: int, d: int) -> int {
    if mx == 0 {
        0
    } else {
        div_round(d * LEVEL_MAX, mx)
    }
}

/// The channel that lies `x` below the largest channel `mx` comes back
/// exactly from the value and saturation of the triple, when its distance
/// `w` on the wheel is the rounded share `x / d` of a sector.
pub proof fn lemma_level_exact(mx: int, d: int, x: int, w: int)
    requires
        0 <= d <= mx <= 255,
        0 <= x <= d,
        0 <= w <= HUE_SECTOR,
        -d <= 2 * (d * w - HUE_SECTOR * x) <= d,
    ensures
        spec_level(value_of(mx), saturation_of(mx, d), w) == mx - x,
{
    let v = value_of(mx);
    let s = saturation_of(mx, d);
    assert(LEVEL_MAX * HUE_SECTOR == 600_000_000);
    assert(LEVEL_MAX * LEVEL_MAX * HUE_SECTOR == 6_000_000_000_000);
    assert(mx * LEVEL_MAX == mx * 10_000);
    lemma_div_round(mx * LEVEL_MAX, 255);
    if mx == 0 {
        assert(v == 0);
        assert(255 * v * (600_000_000 - s * w) == 0) by (nonlinear_arith)
            requires
                v == 0,
        ;
    } else {
        assert(d * LEVEL_MAX == LEVEL_MAX * d) by (nonlinear_arith);
        lemma_share(LEVEL_MAX as int, d, mx);
        let a = 255 * v - mx * 10_000;
        let b = mx * s - 10_000 * d;
        let c = d * w - 60_000 * x;
        let y = mx - x;
        let n = 255 * v * (600_000_000 - s * w);
        assert(-127 <= a <= 127);
        assert(-127 <= b <= 127);
        assert(-127 <= c <= 127);
        assert(0 <= s <= 10_000);
        assert(0 <= s * w <= 600_000_000) by (nonlinear_arith)
            requires
                0 <= s <= 10_000,
                0 <= w <= 60_000,
        ;
        assert(n == 6_000_000_000_000 * y - 100_000_000 * c - 10_000 * (b * w) + a * (600_000_000
            - s * w)) by (nonlinear_arith)
            requires
                a == 255 * v - mx * 10_000,
                b == mx * s - 10_000 * d,
                c == d * w - 60_000 * x,
                y == mx - x,
                n == 255 * v * (600_000_000 - s * w),
        ;
        assert(-7_620_000 <= b * w <= 7_620_000) by (nonlinear_arith)
            requires
                -127 <= b <= 127,
                0 <= w <= 60_000,
        ;
        let rest = 600_000_000 - s * w;
        assert(-76_200_000_000 <= a * rest <= 76_200_000_000) by (nonlinear_arith)
            requires
                -127 <= a <= 127,
                0 <= rest <= 600_000_000,
        ;
        assert(spec_level(v, s, w) == div_round(n, 6_000_000_000_000));
        assert(n >= 0) by (nonlinear_arith)
            requires
                n == 255 * v * rest,
                v >= 0,
                rest >= 0,
        ;
        lemma_div_round(n, 6_000_000_000_000);
        assert(div_round(n, 6_000_000_000_000) == y);
    }
}

/// The largest channel comes back exactly.
pub proof fn lemma_high_exact(mx: int, d: int)
    requires
        0 <= d <= mx <= 255,
    ensures
        spec_level(value_of(mx), saturation_of(mx, d), 0) == mx,
{
    assert(d * 0 - HUE_SECTOR * 0 == 0);
    lemma_level_exact(mx, d, 0, 0);
}

/// The smallest channel comes back exactly.
pub proof fn lemma_low_exact(mx: int, d: int)
    requires
        0 <= d <= mx <= 255,
    ensures
        spec_level(value_of(mx), saturation_of(mx, d), HUE_SECTOR as int) == mx - d,
{
    assert(d * HUE_SECTOR - HUE_SECTOR * d == 0) by (nonlinear_arith);
    lemma_level_exact(mx, d, d, HUE_SECTOR as int);
}

/// The middle channel, `u` above the smallest, comes back exactly.
pub proof fn lemma_mid_exact(mx: int, d: int, u: int)
    requires
        0 < d <= mx <= 255,
        0 <= u <= d,
    ensures
        spec_level(
            value_of(mx),
            saturation_of(mx, d),
            HUE_SECTOR - sector_share(u, d),
        ) == mx - d + u,
        0 <= sector_share(u, d) <= HUE_SECTOR,
        u >= 1 ==> sector_share(u, d) >= 1,
{
    lemma_share(HUE_SECTOR as int, u, d);
    let t = sector_share(u, d);
    let w = HUE_SECTOR - t;
    assert(d * w - HUE_SECTOR * (d - u) == -(d * t - HUE_SECTOR * u)) by (nonlinear_arith)
        requires
            w == HUE_SECTOR - t,
    ;
    lemma_level_exact(mx, d, d - u, w);
}

/// From RGB to hue, saturation and value and back gives the same RGB,
/// channel for channel.
pub proof fn lemma_rgb_round_trip(r: u8, g: u8, b: u8)
    ensures
        spec_rgb2hsv(r, g, b).wf(),
        spec_hsv2rgb(spec_rgb2hsv(r, g, b)) == (r, g, b),
{
    reveal(spec_rgb2hsv);
    reveal(spec_hsv2rgb);
    let mx = max3(r as int, g as int, b as int);
    let mn = min3(r as int, g as int, b as int);
    let d = mx - mn;
    let c = spec_rgb2hsv(r, g, b);
    lemma_div_round(mx * LEVEL_MAX, 255);
    if mx > 0 {
        lemma_share(LEVEL_MAX as int, d, mx);
        assert(d * LEVEL_MAX == LEVEL_MAX * d) by (nonlinear_arith);
    }
    assert(c.val == value_of(mx));
    assert(c.sat == saturation_of(mx, d));
    lemma_high_exact(mx, d);
    lemma_low_exact(mx, d);
    if d == 0 {
        assert(c.hue == 0);
    } else if mx == r {
        if g >= b {
            lemma_mid_exact(mx, d, g - b);
            assert(c.hue == sector_share(g - b, d));
        } else {
            lemma_mid_exact(mx, d, b - g);
            assert(c.hue == 6 * HUE_SECTOR - sector_share(b - g, d));
        }
    } else if mx == g {
        if b >= r {
            lemma_mid_exact(mx, d, b - r);
            assert(c.hue == 2 * HUE_SECTOR + sector_share(b - r, d));
        } else {
            lemma_mid_exact(mx, d, r - b);
            assert(c.hue == 2 * HUE_SECTOR - sector_share(r - b, d));
        }
    } else {
        if r >= g {
            lemma_mid_exact(mx, d, r - g);
            assert(c.hue == 4 * HUE_SECTOR + sector_share(r - g, d));
        } else {
            lemma_mid_exact(mx, d, g - r);
            assert(c.hue == 4 * HUE_SECTOR - sector_share(g - r, d));
        }
    }
}

/// Reading the six digits written for an RGB triple gives the triple.
pub proof fn lemma_hex_of_rgb(r: u8, g: u8, b: u8)
    ensures
        spec_rgb2hex(r, g, b).len() == 6,
        spec_hex2rgb(spec_rgb2hex(r, g, b)) == (r, g, b),
        forall|i: int| 0 <= i < 6 ==> is_hex_char(#[trigger] spec_rgb2hex(r, g, b)[i]),
{
    let text = spec_rgb2hex(r, g, b);
    lemma_hex_digit((r / 16) as u8);
    lemma_hex_digit((r % 16) as u8);
    lemma_hex_digit((g / 16) as u8);
    lemma_hex_digit((g % 16) as u8);
    lemma_hex_digit((b / 16) as u8);
    lemma_hex_digit((b % 16) as u8);
    assert(digit_at(text, 0) == r / 16);
    assert(digit_at(text, 1) == r % 16);
    assert(digit_at(text, 2) == g / 16);
    assert(digit_at(text, 3) == g % 16);
    assert(digit_at(text, 4) == b / 16);
    assert(digit_at(text, 5) == b % 16);
}

/// The digit written for a number below sixteen reads as that number.
pub proof fn lemma_hex_digit(n: u8)
    requires
        n < 16,
    ensures
        spec_hex_value(spec_hex_digit(n)) == n,
        is_hex_char(spec_hex_digit(n)),
{
}

/// A lower-case digit is the digit written for its value.
pub proof fn lemma_digit_of_value(c: char)
    requires
        is_lower_hex_char(c),
    ensures
        spec_hex_digit(spec_hex_value(c)) == c,
        spec_hex_value(c) < 16,
{
}

/// Writing the six digits of the RGB triple that six lower-case digits
/// spell gives the same six digits.
pub proof fn lemma_rgb_of_hex(text: Seq<char>)
    requires
        text.len() == 6,
        forall|i: int| 0 <= i < 6 ==> is_lower_hex_char(#[trigger] text[i]),
    ensures
        ({
            let (r, g, b) = spec_hex2rgb(text);
            spec_rgb2hex(r, g, b) == text
        }),
{
    let (r, g, b) = spec_hex2rgb(text);
    let back = spec_rgb2hex(r, g, b);
    assert forall|i: int| 0 <= i < 6 implies back[i] == text[i] by {
        assert(is_lower_hex_char(text[i]));
        lemma_digit_of_value(text[i]);
        assert(digit_at(text, i) == spec_hex_value(text[i]));
    }
    assert(back =~= text);
}

/// For every text of six hexadecimal digits: reading it as RGB, turning
/// that into hue, saturation and value and writing the colour out again
/// gives six digits that read as the same RGB, channel for channel. They
/// are the same six digits when the text holds no upper-case letter.
pub proof fn lemma_hex_round_trip(text: Seq<char>)
    requires
        text.len() == 6,
        forall|i: int| 0 <= i < 6 ==> is_hex_char(#[trigger] text[i]),
    ensures
        ({
            let (r, g, b) = spec_hex2rgb(text);
            let back = spec_hsv2hex(spec_rgb2hsv(r, g, b));
            &&& back.len() == 6
            &&& spec_hex2rgb(back) == spec_hex2rgb(text)
            &&& (forall|i: int| 0 <= i < 6 ==> is_lower_hex_char(#[trigger] text[i])) ==> back
                == text
        }),
{
    let (r, g, b) = spec_hex2rgb(text);
    lemma_rgb_round_trip(r, g, b);
    lemma_hex_of_rgb(r, g, b);
    if forall|i: int| 0 <= i < 6 ==> is_lower_hex_char(#[trigger] text[i]) {
        lemma_rgb_of_hex(text);
    }
}

} // verus!
