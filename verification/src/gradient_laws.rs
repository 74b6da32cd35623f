//! What holds of the gradients on every text.

use vstd::arithmetic::div_mod::{lemma_div_multiples_vanish_quotient, lemma_truncate_middle};
use vstd::prelude::*;

use crate::gradient::{
    channel_mid, clamp_unit, gradient_runs, hsv_color, hsv_sweep_runs, hue_ramp, hue_sector,
    lerp_channel, lerp_color, rainbow_runs, rainbow_sweep, span, stop_channels, stops_color,
    sweep_hue, GradientSpec,
};
use crate::text::{joined_text, RunView};

verus! {

/// A colour depends on its hue as a fraction only: the same fraction of a
/// turn written with other numbers is the same colour.
pub proof fn lemma_hsv_scale(k: int, num: int, den: int, s: int, v: int)
    requires
        0 < k,
        0 <= num,
        0 < den,
        0 <= s,
        0 <= v,
    ensures
        hsv_color(k * num, k * den, s, v) == hsv_color(num, den, s, v),
{
    let s = clamp_unit(s);
    let v = clamp_unit(v);
    assert(6 * (k * num) == k * (6 * num)) by (nonlinear_arith);
    assert(2 * (k * den) == k * (2 * den)) by (nonlinear_arith);
    lemma_div_multiples_vanish_quotient(k, 6 * num, den);
    assert(hue_sector(k * num, k * den) == hue_sector(num, den));
    lemma_truncate_middle(6 * num, k, 2 * den);
    let r = (6 * num) % (2 * den);
    assert((6 * (k * num)) % (2 * (k * den)) == k * r);
    assert(k * r <= k * den <==> r <= den) by (nonlinear_arith)
        requires
            0 < k,
    ;
    assert(2 * (k * den) - k * r == k * (2 * den - r)) by (nonlinear_arith);
    let w = hue_ramp(num, den);
    assert(hue_ramp(k * num, k * den) == k * w);
    let inner = s * v * w + v * (1000 - s) * den;
    assert(0 <= w);
    assert(0 <= inner) by (nonlinear_arith)
        requires
            0 <= s <= 1000,
            0 <= v,
            0 <= w,
            0 < den,
            inner == s * v * w + v * (1000 - s) * den,
    ;
    assert(255 * (s * v * (k * w) + v * (1000 - s) * (k * den)) == k * (255 * inner))
        by (nonlinear_arith)
        requires
            inner == s * v * w + v * (1000 - s) * den,
    ;
    assert(1_000_000 * (k * den) == k * (1_000_000 * den)) by (nonlinear_arith);
    lemma_div_multiples_vanish_quotient(k, 255 * inner, 1_000_000 * den);
    assert(channel_mid(k * num, k * den, s, v) == channel_mid(num, den, s, v));
}

/// The rainbow is the sweep over the full circle at full saturation and
/// value.
pub proof fn lemma_rainbow_is_full_sweep(text: Seq<char>)
    ensures
        rainbow_runs(text) == hsv_sweep_runs(text, rainbow_sweep()),
{
    let len = span(text.len() as int);
    assert forall|i: int| 0 <= i < text.len() implies rainbow_runs(text)[i] == hsv_sweep_runs(
        text,
        rainbow_sweep(),
    )[i] by {
        assert(sweep_hue(rainbow_sweep(), i, len) == 360 * i) by (nonlinear_arith);
        lemma_hsv_scale(360, i, len, 1000, 1000);
    }
    assert(rainbow_runs(text) =~= hsv_sweep_runs(text, rainbow_sweep()));
}

/// At factor zero the interpolated colour is the first colour, at factor
/// one the second.
pub proof fn lemma_lerp_ends(a: (u8, u8, u8), b: (u8, u8, u8), den: int)
    requires
        0 < den,
    ensures
        lerp_color(a, b, 0, den) == stop_channels(a),
        lerp_color(a, b, den, den) == stop_channels(b),
{
    assert forall|x: int, y: int| lerp_channel(x, y, 0, den) == x && lerp_channel(x, y, den, den)
        == y by {
        assert((x * den + (y - x) * 0) / den == x) by (nonlinear_arith)
            requires
                0 < den,
        ;
        assert((x * den + (y - x) * den) / den == y) by (nonlinear_arith)
            requires
                0 < den,
        ;
    }
}

/// The first letter has the colour of the first stop.
pub proof fn lemma_stops_start(stops: Seq<(u8, u8, u8)>, len: int)
    requires
        stops.len() > 0,
        0 < len,
    ensures
        stops_color(stops, 0, len) == stop_channels(stops[0]),
{
    let last = stops.len() - 1;
    assert(0 * last == 0);
    assert(0int / len == 0 && 0int % len == 0) by (nonlinear_arith)
        requires
            0 < len,
    ;
    if last > 0 {
        lemma_lerp_ends(stops[0], stops[1], len);
    }
}

/// Runs of one letter each read as their letters in order.
proof fn lemma_letters_join(runs: Seq<RunView>, text: Seq<char>)
    requires
        runs.len() == text.len(),
        forall|i: int| 0 <= i < runs.len() ==> (#[trigger] runs[i]).text == seq![text[i]],
    ensures
        joined_text(runs) == text,
    decreases runs.len(),
{
    if runs.len() == 0 {
        assert(text =~= Seq::empty());
    } else {
        let earlier = runs.drop_last();
        assert forall|i: int| 0 <= i < earlier.len() implies (#[trigger] earlier[i]).text == seq![
            text.drop_last()[i],
        ] by {
            assert(earlier[i] == runs[i]);
        }
        lemma_letters_join(earlier, text.drop_last());
        assert(runs.last().text == seq![text.last()]);
        assert(text.drop_last() + seq![text.last()] =~= text);
    }
}

/// A gradient changes colours only: it makes one run of each letter, and
/// the runs read as the text.
pub proof fn lemma_gradient_keeps_text(text: Seq<char>, spec: GradientSpec)
    ensures
        gradient_runs(text, spec).len() == text.len(),
        joined_text(gradient_runs(text, spec)) == text,
        forall|i: int|
            0 <= i < text.len() ==> (#[trigger] gradient_runs(text, spec)[i]).text == seq![text[i]]
                && gradient_runs(text, spec)[i].format is None,
{
    lemma_letters_join(gradient_runs(text, spec), text);
}

} // verus!
