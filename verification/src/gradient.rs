//! Letter-by-letter colour gradients: a sweep through the hues, or a walk
//! along a list of colour stops.
//!
//! Positions and factors are exact fractions, and a channel is the whole
//! part of its exact value: nothing here is rounded before the final
//! truncation.

use vstd::prelude::*;

use crate::strings::chars_of;
use crate::text::{run_views, Color, RGBColor, RunView, StyledRun, StyledText};

verus! {

/// The upper-case hexadecimal digit for `n`, which is below 16.
pub open spec fn hex_digit(n: int) -> char {
    if n == 0 {
        '0'
    } else if n == 1 {
        '1'
    } else if n == 2 {
        '2'
    } else if n == 3 {
        '3'
    } else if n == 4 {
        '4'
    } else if n == 5 {
        '5'
    } else if n == 6 {
        '6'
    } else if n == 7 {
        '7'
    } else if n == 8 {
        '8'
    } else if n == 9 {
        '9'
    } else if n == 10 {
        'A'
    } else if n == 11 {
        'B'
    } else if n == 12 {
        'C'
    } else if n == 13 {
        'D'
    } else if n == 14 {
        'E'
    } else {
        'F'
    }
}

/// `#RRGGBB`: a hash sign, then two upper-case hexadecimal digits for each
/// of red, green and blue, the higher digit first.
pub open spec fn hex_text(rgb: (u8, u8, u8)) -> Seq<char> {
    seq![
        '#',
        hex_digit(rgb.0 as int / 16),
        hex_digit(rgb.0 as int % 16),
        hex_digit(rgb.1 as int / 16),
        hex_digit(rgb.1 as int % 16),
        hex_digit(rgb.2 as int / 16),
        hex_digit(rgb.2 as int % 16),
    ]
}

fn hex_char(n: u8) -> (digit: char)
    requires
        n < 16,
    ensures
        digit == hex_digit(n as int),
{
    match n {
        0 => '0',
        1 => '1',
        2 => '2',
        3 => '3',
        4 => '4',
        5 => '5',
        6 => '6',
        7 => '7',
        8 => '8',
        9 => '9',
        10 => 'A',
        11 => 'B',
        12 => 'C',
        13 => 'D',
        14 => 'E',
        _ => 'F',
    }
}

/// The colour as the seven characters `#RRGGBB`, upper case and zero
/// padded.
pub fn rgb_to_hex(rgb: (u8, u8, u8)) -> (hex: String)
    ensures
        hex@ == hex_text(rgb),
        hex@.len() == 7,
{
    let mut hex = String::new();
    hex.push('#');
    hex.push(hex_char(rgb.0 / 16));
    hex.push(hex_char(rgb.0 % 16));
    hex.push(hex_char(rgb.1 / 16));
    hex.push(hex_char(rgb.1 % 16));
    hex.push(hex_char(rgb.2 / 16));
    hex.push(hex_char(rgb.2 % 16));
    assert(hex@ =~= hex_text(rgb));
    hex
}

/// The number by which positions and factors are divided: `len` itself,
/// and one in place of zero, as for the empty text.
pub open spec fn span(len: int) -> int {
    if len == 0 {
        1
    } else {
        len
    }
}

/// The factor `num / den`, held to at most one.
pub open spec fn clamped_num(num: int, den: int) -> int {
    if num > den {
        den
    } else {
        num
    }
}

/// The whole part of `a + (b - a) * t` for the factor `t = num / den`
/// between zero and one.
pub open spec fn lerp_channel(a: int, b: int, num: int, den: int) -> int {
    (a * den + (b - a) * num) / den
}

/// The colour at factor `num / den` on the straight line from `a` to `b`,
/// channel by channel. A factor over one counts as one.
pub open spec fn lerp_color(a: (u8, u8, u8), b: (u8, u8, u8), num: int, den: int) -> (
    int,
    int,
    int,
) {
    let t = clamped_num(num, den);
    (
        lerp_channel(a.0 as int, b.0 as int, t, den),
        lerp_channel(a.1 as int, b.1 as int, t, den),
        lerp_channel(a.2 as int, b.2 as int, t, den),
    )
}

/// A product of bounded factors is bounded by the product of the bounds.
proof fn lemma_product_bound(x: int, y: int, x_max: int, y_max: int)
    by (nonlinear_arith)
    requires
        0 <= x <= x_max,
        0 <= y <= y_max,
    ensures
        0 <= x * y <= x_max * y_max,
{
}

/// A quotient lies between two bounds when the dividend lies between their
/// multiples of the divisor.
proof fn lemma_quotient_between(lo: int, hi: int, top: int, den: int)
    by (nonlinear_arith)
    requires
        0 < den,
        lo * den <= top <= hi * den,
    ensures
        lo <= top / den <= hi,
{
}

/// An interpolated channel lies between its two ends.
pub proof fn lemma_lerp_channel_bounds(a: int, b: int, num: int, den: int)
    requires
        0 <= num <= den,
        0 < den,
    ensures
        a <= b ==> a <= lerp_channel(a, b, num, den) <= b,
        b <= a ==> b <= lerp_channel(a, b, num, den) <= a,
{
    let top = a * den + (b - a) * num;
    assert(a <= b ==> a * den <= top <= b * den) by (nonlinear_arith)
        requires
            0 <= num <= den,
            top == a * den + (b - a) * num,
    ;
    assert(b <= a ==> b * den <= top <= a * den) by (nonlinear_arith)
        requires
            0 <= num <= den,
            top == a * den + (b - a) * num,
    ;
    if a <= b {
        lemma_quotient_between(a, b, top, den);
    } else {
        lemma_quotient_between(b, a, top, den);
    }
}

fn lerp_one(a: u8, b: u8, num: u64, den: u64) -> (c: u8)
    requires
        num <= den,
        0 < den,
    ensures
        c == lerp_channel(a as int, b as int, num as int, den as int),
{
    proof {
        lemma_lerp_channel_bounds(a as int, b as int, num as int, den as int);
        lemma_product_bound(a as int, den as int, 255, 0xffff_ffff_ffff_ffff);
    }
    let base: u128 = a as u128 * den as u128;
    if a <= b {
        proof {
            lemma_product_bound(b - a, num as int, 255, 0xffff_ffff_ffff_ffff);
        }
        let rise: u128 = (b - a) as u128 * num as u128;
        ((base + rise) / den as u128) as u8
    } else {
        proof {
            lemma_product_bound(a - b, num as int, 255, 0xffff_ffff_ffff_ffff);
            lemma_product_bound(a - b, num as int, a as int, den as int);
            assert((b - a) * num == -((a - b) * num)) by (nonlinear_arith);
        }
        let fall: u128 = (a - b) as u128 * num as u128;
        ((base - fall) / den as u128) as u8
    }
}

/// The colour at factor `t_num / t_den` between `a` and `b`, each channel
/// interpolated on its own and cut to its whole part. A factor over one
/// counts as one, and a denominator of zero as one.
pub fn lerp_rgb(a: (u8, u8, u8), b: (u8, u8, u8), t_num: u64, t_den: u64) -> (rgb: (u8, u8, u8))
    ensures
        (rgb.0 as int, rgb.1 as int, rgb.2 as int) == lerp_color(
            a,
            b,
            t_num as int,
            span(t_den as int),
        ),
{
    let den: u64 = if t_den == 0 {
        1
    } else {
        t_den
    };
    let t: u64 = if t_num > den {
        den
    } else {
        t_num
    };
    (lerp_one(a.0, b.0, t, den), lerp_one(a.1, b.1, t, den), lerp_one(a.2, b.2, t, den))
}

/// Saturation and value are counted in thousandths: this is one.
pub const UNIT: u16 = 1000;

/// A saturation or value in thousandths, held to at most one.
pub open spec fn clamp_unit(x: int) -> int {
    if x > 1000 {
        1000
    } else {
        x
    }
}

/// The sixth of the colour circle in which the hue `num / den` of a full
/// turn lies, counted from zero; six and more past a full turn.
pub open spec fn hue_sector(num: int, den: int) -> int {
    (6 * num) / den
}

/// `den * (1 - |(h / 60° mod 2) - 1|)` for the hue `h = num / den` of a full
/// turn: it rises from zero to `den` over one sector and falls back over the
/// next.
pub open spec fn hue_ramp(num: int, den: int) -> int {
    let r = (6 * num) % (2 * den);
    if r <= den {
        r
    } else {
        2 * den - r
    }
}

/// The strongest channel, `255 * v`, cut to its whole part.
pub open spec fn channel_top(v: int) -> int {
    (255 * v) / 1000
}

/// The weakest channel, `255 * (v - c)` with the chroma `c = v * s`, cut to
/// its whole part.
pub open spec fn channel_low(s: int, v: int) -> int {
    (255 * (v * (1000 - s))) / 1_000_000
}

/// The channel in between, `255 * (x + v - c)` with
/// `x = c * (1 - |(h / 60° mod 2) - 1|)`, cut to its whole part.
pub open spec fn channel_mid(num: int, den: int, s: int, v: int) -> int {
    (255 * (s * v * hue_ramp(num, den) + v * (1000 - s) * den)) / (1_000_000 * den)
}

/// The colour of hue `num / den` of a full turn at saturation `s` and value
/// `v` in thousandths, by the six-sector formula; each channel is cut to
/// its whole part. Past a full turn no channel gets any chroma.
pub open spec fn hsv_color(num: int, den: int, s: int, v: int) -> (int, int, int) {
    let s = clamp_unit(s);
    let v = clamp_unit(v);
    let top = channel_top(v);
    let mid = channel_mid(num, den, s, v);
    let low = channel_low(s, v);
    let sector = hue_sector(num, den);
    if sector == 0 {
        (top, mid, low)
    } else if sector == 1 {
        (mid, top, low)
    } else if sector == 2 {
        (low, top, mid)
    } else if sector == 3 {
        (low, mid, top)
    } else if sector == 4 {
        (mid, low, top)
    } else if sector == 5 {
        (top, low, mid)
    } else {
        (low, low, low)
    }
}

/// The largest numerator and denominator of a hue that the conversion
/// takes.
const HUE_PART_MAX: u128 = 0x1_0000_0000_0000_0000_0000_0000;

/// The three channel values are bytes, and the weakest is no stronger than
/// the one in between, which is no stronger than the strongest.
pub proof fn lemma_hsv_channels(num: int, den: int, s: int, v: int)
    requires
        0 <= num,
        0 < den,
        0 <= s <= 1000,
        0 <= v <= 1000,
    ensures
        0 <= channel_low(s, v) <= channel_mid(num, den, s, v) <= channel_top(v) <= 255,
        0 <= hue_ramp(num, den) <= den,
{
    let w = hue_ramp(num, den);
    let rest = v * (1000 - s);
    let chroma = s * v;
    lemma_product_bound(v, 1000 - s, 1000, 1000);
    lemma_product_bound(s, v, 1000, 1000);
    lemma_product_bound(chroma, w, chroma, den);
    assert(chroma + rest == 1000 * v) by (nonlinear_arith)
        requires
            chroma == s * v,
            rest == v * (1000 - s),
    ;
    let mid_top = chroma * w + rest * den;
    assert(rest * den <= mid_top <= (1000 * v) * den) by (nonlinear_arith)
        requires
            mid_top == chroma * w + rest * den,
            0 <= chroma * w <= chroma * den,
            chroma + rest == 1000 * v,
    ;
    let wide = 1_000_000 * den;
    let low = channel_low(s, v);
    let top = channel_top(v);
    assert(low * wide <= 255 * mid_top) by (nonlinear_arith)
        requires
            low == (255 * rest) / 1_000_000,
            rest * den <= mid_top,
            wide == 1_000_000 * den,
            0 < den,
            0 <= rest,
    ;
    assert(255 * mid_top <= (top + 1) * wide - 1 || 255 * mid_top <= top * wide) by (nonlinear_arith)
        requires
            top == (255 * v) / 1000,
            mid_top <= (1000 * v) * den,
            wide == 1_000_000 * den,
            0 < den,
            0 <= v,
    ;
    assert(0 < wide) by (nonlinear_arith)
        requires
            wide == 1_000_000 * den,
            0 < den,
    ;
    assert(low <= (255 * mid_top) / wide) by (nonlinear_arith)
        requires
            low * wide <= 255 * mid_top,
            0 < wide,
    ;
    assert((255 * mid_top) / wide <= top) by (nonlinear_arith)
        requires
            255 * mid_top <= (top + 1) * wide - 1 || 255 * mid_top <= top * wide,
            0 < wide,
    ;
    assert(s * v * w == chroma * w);
}

fn clamp_to_unit(x: u16) -> (c: u128)
    ensures
        c == clamp_unit(x as int),
{
    if x > UNIT {
        UNIT as u128
    } else {
        x as u128
    }
}

/// The conversion of `hsv_to_rgb` on wider numbers.
fn turn_to_rgb(num: u128, den: u128, s: u16, v: u16) -> (rgb: (u8, u8, u8))
    requires
        0 < den <= HUE_PART_MAX,
        num <= HUE_PART_MAX,
    ensures
        (rgb.0 as int, rgb.1 as int, rgb.2 as int) == hsv_color(
            num as int,
            den as int,
            s as int,
            v as int,
        ),
{
    let s = clamp_to_unit(s);
    let v = clamp_to_unit(v);
    proof {
        lemma_hsv_channels(num as int, den as int, s as int, v as int);
    }
    let turned: u128 = 6 * num;
    let sector: u128 = turned / den;
    let r: u128 = turned % (2 * den);
    let ramp: u128 = if r <= den {
        r
    } else {
        2 * den - r
    };
    proof {
        lemma_product_bound(v as int, 1000 - s, 1000, 1000);
        lemma_product_bound(s as int, v as int, 1000, 1000);
        lemma_product_bound(s * v, ramp as int, 1_000_000, HUE_PART_MAX as int);
        lemma_product_bound(v * (1000 - s), den as int, 1_000_000, HUE_PART_MAX as int);
        lemma_product_bound(1_000_000, den as int, 1_000_000, HUE_PART_MAX as int);
    }
    let rest: u128 = v * (1000 - s);
    let top: u128 = (255 * v) / 1000;
    let low: u128 = (255 * rest) / 1_000_000;
    let mid: u128 = (255 * (s * v * ramp + rest * den)) / (1_000_000 * den);
    let (r1, g1, b1) = if sector == 0 {
        (top, mid, low)
    } else if sector == 1 {
        (mid, top, low)
    } else if sector == 2 {
        (low, top, mid)
    } else if sector == 3 {
        (low, mid, top)
    } else if sector == 4 {
        (mid, low, top)
    } else if sector == 5 {
        (top, low, mid)
    } else {
        (low, low, low)
    };
    (r1 as u8, g1 as u8, b1 as u8)
}

/// The colour of the hue `h_num / h_den` of a full turn at saturation `s`
/// and value `v`, both in thousandths and held to at most one. A
/// denominator of zero counts as one.
pub fn hsv_to_rgb(h_num: u64, h_den: u64, s: u16, v: u16) -> (rgb: (u8, u8, u8))
    ensures
        (rgb.0 as int, rgb.1 as int, rgb.2 as int) == hsv_color(
            h_num as int,
            span(h_den as int),
            s as int,
            v as int,
        ),
{
    let den: u64 = if h_den == 0 {
        1
    } else {
        h_den
    };
    turn_to_rgb(h_num as u128, den as u128, s, v)
}

/// A sweep through the hues: the hue runs from `start_hue` to `end_hue`, in
/// degrees, over the length of the text, at a fixed saturation and value,
/// both in thousandths and held to at most one.
#[derive(Clone, Copy, Debug, PartialEq, Eq, Structural)]
pub struct HsvSweep {
    pub start_hue: u16,
    pub end_hue: u16,
    pub saturation: u16,
    pub value: u16,
}

/// How to colour a text letter by letter.
#[derive(Clone, Debug, PartialEq, Eq)]
pub enum GradientSpec {
    /// A sweep through the hues.
    Hsv(HsvSweep),
    /// A walk along colour stops, equally spaced over the text.
    Rgb(Vec<(u8, u8, u8)>),
}

/// The colour with the given channel values.
pub open spec fn rgb_color(rgb: (int, int, int)) -> Color {
    Color::Rgb(RGBColor { red: rgb.0 as u8, green: rgb.1 as u8, blue: rgb.2 as u8 })
}

/// The run that holds the one letter `ch` in the given colour.
pub open spec fn letter_run(ch: char, color: Option<Color>) -> RunView {
    RunView { text: seq![ch], color, format: None }
}

/// The full sweep at full saturation and value.
pub open spec fn rainbow_sweep() -> HsvSweep {
    HsvSweep { start_hue: 0, end_hue: 360, saturation: 1000, value: 1000 }
}

/// The hue of the letter at `index` of `len`, in degrees times `len`: the
/// sweep's hue at the position `index / len`.
pub open spec fn sweep_hue(sweep: HsvSweep, index: int, len: int) -> int {
    sweep.start_hue * len + (sweep.end_hue - sweep.start_hue) * index
}

/// The colour that the sweep gives the letter at `index` of `len`.
pub open spec fn sweep_color(sweep: HsvSweep, index: int, len: int) -> (int, int, int) {
    hsv_color(
        sweep_hue(sweep, index, len),
        360 * len,
        sweep.saturation as int,
        sweep.value as int,
    )
}

/// One run for each letter of `text`, in order, coloured by the sweep at
/// the letter's position.
pub open spec fn hsv_sweep_runs(text: Seq<char>, sweep: HsvSweep) -> Seq<RunView> {
    Seq::new(
        text.len(),
        |i: int| letter_run(text[i], Some(rgb_color(sweep_color(sweep, i, span(text.len() as int))))),
    )
}

/// One run for each letter of `text`, in order: the letter at `i` of `len`
/// has the hue `i / len` of a full turn, at full saturation and value.
pub open spec fn rainbow_runs(text: Seq<char>) -> Seq<RunView> {
    Seq::new(
        text.len(),
        |i: int|
            letter_run(text[i], Some(rgb_color(hsv_color(i, span(text.len() as int), 1000, 1000)))),
    )
}

/// The channel values of a stop.
pub open spec fn stop_channels(stop: (u8, u8, u8)) -> (int, int, int) {
    (stop.0 as int, stop.1 as int, stop.2 as int)
}

/// The colour at the position `index / len` along `stops`, which are spaced
/// equally from zero to one: the position picks the segment between two
/// neighbouring stops, and its place within the segment is the factor of
/// the interpolation. From the last stop on the colour is the last stop.
pub open spec fn stops_color(stops: Seq<(u8, u8, u8)>, index: int, len: int) -> (int, int, int) {
    let last = stops.len() - 1;
    let scaled = index * last;
    let segment = scaled / len;
    if segment >= last {
        stop_channels(stops[last])
    } else {
        lerp_color(stops[segment], stops[segment + 1], scaled % len, len)
    }
}

/// One run for each letter of `text`, in order, coloured by its position
/// along `stops`; without a stop the letters have no colour.
pub open spec fn stops_runs(text: Seq<char>, stops: Seq<(u8, u8, u8)>) -> Seq<RunView> {
    Seq::new(
        text.len(),
        |i: int|
            letter_run(
                text[i],
                if stops.len() == 0 {
                    None
                } else {
                    Some(rgb_color(stops_color(stops, i, span(text.len() as int))))
                },
            ),
    )
}

/// Yellow, orange, red.
pub open spec fn fire_stops() -> Seq<(u8, u8, u8)> {
    seq![(255u8, 255u8, 0u8), (255u8, 128u8, 0u8), (255u8, 0u8, 0u8)]
}

/// The runs that a gradient makes of `text`.
pub open spec fn gradient_runs(text: Seq<char>, spec: GradientSpec) -> Seq<RunView> {
    match spec {
        GradientSpec::Hsv(sweep) => hsv_sweep_runs(text, sweep),
        GradientSpec::Rgb(stops) => stops_runs(text, stops@),
    }
}

/// The run that holds the one letter `ch` in the given colour.
fn letter(ch: char, color: Option<Color>) -> (run: StyledRun)
    ensures
        run@ == letter_run(ch, color),
{
    let mut text = String::new();
    text.push(ch);
    assert(text@ =~= seq![ch]);
    StyledRun { text, color, format: None }
}

fn rgb_of(rgb: (u8, u8, u8)) -> (color: Color)
    ensures
        color == rgb_color(stop_channels(rgb)),
{
    Color::Rgb(RGBColor::new(rgb.0, rgb.1, rgb.2))
}

/// Colours `text` letter by letter with the hues from red round to red.
pub fn apply_rainbow_gradient(text: &str) -> (result: StyledText)
    ensures
        result@ == rainbow_runs(text@),
{
    let chars = chars_of(text);
    let len = chars.len();
    let mut runs: Vec<StyledRun> = Vec::new();
    let mut i: usize = 0;
    while i < len
        invariant
            i <= len,
            len == chars.len(),
            chars@ == text@,
            run_views(runs@) =~= rainbow_runs(text@).take(i as int),
        decreases len - i,
    {
        let rgb = hsv_to_rgb(i as u64, len as u64, UNIT, UNIT);
        let ghost before = runs@;
        runs.push(letter(chars[i], Some(rgb_of(rgb))));
        assert(run_views(runs@) =~= run_views(before).push(rainbow_runs(text@)[i as int]));
        i += 1;
    }
    StyledText { runs }
}

/// Colours `text` letter by letter along the sweep.
pub fn hsv_sweep(text: &str, sweep: &HsvSweep) -> (result: StyledText)
    ensures
        result@ == hsv_sweep_runs(text@, *sweep),
{
    let chars = chars_of(text);
    let len = chars.len();
    let mut runs: Vec<StyledRun> = Vec::new();
    let mut i: usize = 0;
    while i < len
        invariant
            i <= len,
            len == chars.len(),
            chars@ == text@,
            run_views(runs@) =~= hsv_sweep_runs(text@, *sweep).take(i as int),
        decreases len - i,
    {
        proof {
            lemma_product_bound(sweep.start_hue as int, len as int, 0xffff, 0xffff_ffff_ffff_ffff);
            lemma_product_bound(360, len as int, 360, 0xffff_ffff_ffff_ffff);
        }
        let base: u128 = sweep.start_hue as u128 * len as u128;
        let hue: u128 = if sweep.end_hue >= sweep.start_hue {
            proof {
                lemma_product_bound(
                    sweep.end_hue - sweep.start_hue,
                    i as int,
                    0xffff,
                    0xffff_ffff_ffff_ffff,
                );
            }
            base + (sweep.end_hue - sweep.start_hue) as u128 * i as u128
        } else {
            proof {
                lemma_product_bound(
                    sweep.start_hue - sweep.end_hue,
                    i as int,
                    sweep.start_hue as int,
                    len as int,
                );
                assert((sweep.end_hue - sweep.start_hue) * i == -((sweep.start_hue
                    - sweep.end_hue) * i)) by (nonlinear_arith);
            }
            base - (sweep.start_hue - sweep.end_hue) as u128 * i as u128
        };
        let rgb = turn_to_rgb(hue, 360 * len as u128, sweep.saturation, sweep.value);
        let ghost before = runs@;
        runs.push(letter(chars[i], Some(rgb_of(rgb))));
        assert(run_views(runs@) =~= run_views(before).push(hsv_sweep_runs(text@, *sweep)[i as int]));
        i += 1;
    }
    StyledText { runs }
}

/// A position below the length falls into a segment before the last stop.
proof fn lemma_segment_in_range(index: int, len: int, last: int)
    by (nonlinear_arith)
    requires
        0 <= index < len,
        0 < last,
    ensures
        0 <= (index * last) / len < last,
        0 <= (index * last) % len < len,
{
}

/// Colours `text` letter by letter along `stops`. With one stop every
/// letter has its colour; without any the letters have none.
pub fn rgb_stops(text: &str, stops: &Vec<(u8, u8, u8)>) -> (result: StyledText)
    ensures
        result@ == stops_runs(text@, stops@),
{
    let chars = chars_of(text);
    let len = chars.len();
    let count = stops.len();
    let mut runs: Vec<StyledRun> = Vec::new();
    let mut i: usize = 0;
    while i < len
        invariant
            i <= len,
            len == chars.len(),
            count == stops.len(),
            chars@ == text@,
            run_views(runs@) =~= stops_runs(text@, stops@).take(i as int),
        decreases len - i,
    {
        let color = if count == 0 {
            None
        } else if count == 1 {
            Some(rgb_of(stops[0]))
        } else {
            let last = count - 1;
            proof {
                lemma_product_bound(i as int, last as int, 0xffff_ffff_ffff_ffff, 0xffff_ffff_ffff_ffff);
                lemma_segment_in_range(i as int, len as int, last as int);
            }
            let scaled: u128 = i as u128 * last as u128;
            let segment = (scaled / len as u128) as usize;
            let within = (scaled % len as u128) as u64;
            let rgb = lerp_rgb(stops[segment], stops[segment + 1], within, len as u64);
            Some(rgb_of(rgb))
        };
        let ghost before = runs@;
        runs.push(letter(chars[i], color));
        assert(run_views(runs@) =~= run_views(before).push(stops_runs(text@, stops@)[i as int]));
        i += 1;
    }
    StyledText { runs }
}

/// Colours `text` letter by letter from yellow over orange to red.
pub fn apply_fire_gradient(text: &str) -> (result: StyledText)
    ensures
        result@ == stops_runs(text@, fire_stops()),
{
    let mut stops: Vec<(u8, u8, u8)> = Vec::new();
    stops.push((255, 255, 0));
    stops.push((255, 128, 0));
    stops.push((255, 0, 0));
    assert(stops@ =~= fire_stops());
    rgb_stops(text, &stops)
}

/// Colours `text` letter by letter as `spec` says.
pub fn apply_gradient(text: &str, spec: &GradientSpec) -> (result: StyledText)
    ensures
        result@ == gradient_runs(text@, *spec),
{
    match spec {
        GradientSpec::Hsv(sweep) => hsv_sweep(text, sweep),
        GradientSpec::Rgb(stops) => rgb_stops(text, stops),
    }
}

} // verus!
