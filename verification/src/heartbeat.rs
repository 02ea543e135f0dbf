//! A meter of a value over time: a smoothed reading, a peak that decays, a
//! window of the most recent readings, and a display range that follows the
//! window. Each reading becomes a bar whose height places it in that range.

use crate::fixed::{
    clamp_int, in_range, max_int, min_int, one, raw_max, raw_min, sat_add, sat_div, sat_mul,
    sat_sub, Fixed,
};
use crate::fixed_lemmas::{
    lemma_mul_contracts, lemma_mul_contracts_nonpos, lemma_mul_monotone, lemma_mul_nonneg,
    lemma_mul_one,
};
use vstd::prelude::*;

verus! {

/// The narrowest span of values that the display range can cover: 0.001.
pub const MIN_SPAN_RAW: i64 = 4_294_967;

/// The share of the window's span that is added below and above it: 0.08.
pub const RANGE_PAD_RAW: i64 = 343_597_383;

/// The share of the display range, from its top, in which a reading counts
/// as a peak: 0.1.
pub const PEAK_BAND_RAW: i64 = 429_496_729;

/// The padding inside the meter that holds no bar, both edges together: 8.
pub const NODE_PADDING_RAW: i64 = 0x8_0000_0000;

/// The model of the meter.
pub struct HeartbeatModel {
    /// The size that the window grows to.
    pub max_samples: int,
    /// The window of readings, oldest first.
    pub samples: Seq<int>,
    /// The smoothed reading.
    pub ema: int,
    /// The weight of a new value in the smoothed reading.
    pub ema_alpha: int,
    /// The decaying peak.
    pub peak: int,
    /// How fast the peak drops, per second.
    pub peak_fall_per_s: int,
    /// The bottom of the display range.
    pub scale_min: int,
    /// The top of the display range.
    pub scale_max: int,
    /// The share of the way that the display range moves toward the window
    /// on each tick.
    pub scale_lerp: int,
    /// The width of a bar.
    pub bar_width_px: int,
    /// The height of the lowest bar.
    pub min_bar_px: int,
}

/// The point that lies the share `t` of the way from `a` to `b`.
pub open spec fn lerp(a: int, b: int, t: int) -> int {
    sat_add(a, sat_mul(sat_sub(b, a), t))
}

/// A window of `n` zeros.
pub open spec fn zeros(n: int) -> Seq<int> {
    Seq::new(n as nat, |i: int| 0int)
}

/// The smallest of `s`, or the largest raw value where `s` is empty.
pub open spec fn seq_min(s: Seq<int>) -> int
    decreases s.len(),
{
    if s.len() == 0 {
        raw_max()
    } else {
        min_int(seq_min(s.drop_last()), s.last())
    }
}

/// The largest of `s`, or the smallest raw value where `s` is empty.
pub open spec fn seq_max(s: Seq<int>) -> int
    decreases s.len(),
{
    if s.len() == 0 {
        raw_min()
    } else {
        max_int(seq_max(s.drop_last()), s.last())
    }
}

/// The smoothed reading after the value `v`: `v` itself on an empty window,
/// otherwise the old reading moved toward `v` by the weight.
pub open spec fn smoothed(h: HeartbeatModel, v: int) -> int {
    if h.samples.len() == 0 {
        v
    } else {
        lerp(h.ema, v, h.ema_alpha)
    }
}

/// The peak after a tick of `dt`: raised to the reading, then dropped by
/// its fall, but never below the reading.
pub open spec fn decayed_peak(h: HeartbeatModel, ema: int, dt: int) -> int {
    max_int(sat_sub(max_int(h.peak, ema), sat_mul(h.peak_fall_per_s, dt)), ema)
}

/// The window after the reading `ema`: a full window loses its oldest
/// reading, the new one is added at the end, and a window that is still
/// short is filled with zeros at the front.
pub open spec fn advanced_window(samples: Seq<int>, max_samples: int, ema: int) -> Seq<int> {
    let kept = if samples.len() >= max_samples {
        samples.drop_first()
    } else {
        samples
    };
    let pushed = kept.push(ema);
    if pushed.len() < max_samples {
        zeros(max_samples - pushed.len()) + pushed
    } else {
        pushed
    }
}

/// The span of the display range, at least [`MIN_SPAN_RAW`].
pub open spec fn display_span(scale_min: int, scale_max: int) -> int {
    max_int(sat_sub(scale_max, scale_min), MIN_SPAN_RAW as int)
}

/// One tick of the meter with the value `v` after `dt` seconds.
pub open spec fn heartbeat_step(h: HeartbeatModel, v: int, dt: int) -> HeartbeatModel {
    let ema = smoothed(h, v);
    let samples = advanced_window(h.samples, h.max_samples, ema);
    let low = seq_min(samples);
    let high = seq_max(samples);
    let pad = sat_mul(max_int(sat_sub(high, low), MIN_SPAN_RAW as int), RANGE_PAD_RAW as int);
    HeartbeatModel {
        ema,
        peak: decayed_peak(h, ema, dt),
        samples,
        scale_min: lerp(h.scale_min, sat_sub(low, pad), h.scale_lerp),
        scale_max: lerp(h.scale_max, sat_add(high, pad), h.scale_lerp),
        ..h
    }
}

/// The height of the bar of `sample` in a meter of height `node_height`:
/// the lowest bar plus the sample's place in the display range, as a share
/// of the height inside the padding.
pub open spec fn bar_height_spec(h: HeartbeatModel, sample: int, node_height: int) -> int {
    let inner = max_int(sat_sub(node_height, NODE_PADDING_RAW as int), one());
    let span = display_span(h.scale_min, h.scale_max);
    let place = clamp_int(sat_div(sat_sub(sample, h.scale_min), span), 0, one());
    sat_add(h.min_bar_px, sat_mul(place, inner))
}

/// Whether `sample` lies in the top band of the display range.
pub open spec fn is_peak_spec(h: HeartbeatModel, sample: int) -> bool {
    let span = display_span(h.scale_min, h.scale_max);
    sample >= sat_sub(h.scale_max, sat_mul(PEAK_BAND_RAW as int, span))
}

/// The meter at the start: a window of 120 zeros and a display range from
/// zero to one.
pub open spec fn initial_heartbeat() -> HeartbeatModel {
    HeartbeatModel {
        max_samples: 120,
        samples: zeros(120),
        ema: 0,
        ema_alpha: sat_div(25, 100),
        peak: 0,
        peak_fall_per_s: 6 * one(),
        scale_min: 0,
        scale_max: one(),
        scale_lerp: sat_div(12, 100),
        bar_width_px: 2 * one(),
        min_bar_px: one(),
    }
}

/// The raw integers of a window of readings.
pub open spec fn raw_values(samples: Seq<Fixed>) -> Seq<int> {
    Seq::new(samples.len(), |i: int| samples[i]@)
}

/// A meter of a value over time.
#[derive(Clone, Debug, PartialEq, Eq)]
pub struct Heartbeat {
    /// The size that the window grows to.
    pub max_samples: usize,
    /// The window of readings, oldest first.
    pub samples: Vec<Fixed>,
    /// The smoothed reading.
    pub ema: Fixed,
    /// The weight of a new value in the smoothed reading.
    pub ema_alpha: Fixed,
    /// The decaying peak.
    pub peak: Fixed,
    /// How fast the peak drops, per second.
    pub peak_fall_per_s: Fixed,
    /// The bottom of the display range.
    pub scale_min: Fixed,
    /// The top of the display range.
    pub scale_max: Fixed,
    /// The share of the way that the display range moves toward the window
    /// on each tick.
    pub scale_lerp: Fixed,
    /// The width of a bar.
    pub bar_width_px: Fixed,
    /// The height of the lowest bar.
    pub min_bar_px: Fixed,
}

impl View for Heartbeat {
    type V = HeartbeatModel;

    open spec fn view(&self) -> HeartbeatModel {
        HeartbeatModel {
            max_samples: self.max_samples as int,
            samples: raw_values(self.samples@),
            ema: self.ema@,
            ema_alpha: self.ema_alpha@,
            peak: self.peak@,
            peak_fall_per_s: self.peak_fall_per_s@,
            scale_min: self.scale_min@,
            scale_max: self.scale_max@,
            scale_lerp: self.scale_lerp@,
            bar_width_px: self.bar_width_px@,
            min_bar_px: self.min_bar_px@,
        }
    }
}

/// One bar of the meter.
#[derive(Clone, Copy, Debug, PartialEq, Eq)]
pub struct Bar {
    /// The height of the bar.
    pub height: Fixed,
    /// Whether the bar shows a peak.
    pub is_peak: bool,
}

fn lerp_to(a: Fixed, b: Fixed, t: Fixed) -> (r: Fixed)
    ensures
        r@ == lerp(a@, b@, t@),
{
    a.add(b.sub(a).mul(t))
}

/// A window of `n` zeros.
fn zero_window(n: usize) -> (r: Vec<Fixed>)
    ensures
        raw_values(r@) == zeros(n as int),
{
    let mut window: Vec<Fixed> = Vec::new();
    let mut i: usize = 0;
    while i < n
        invariant
            i <= n,
            window@.len() == i,
            forall|j: int| 0 <= j < i ==> (#[trigger] window@[j])@ == 0,
        decreases n - i,
    {
        window.push(Fixed::zero());
        i = i + 1;
    }
    assert(raw_values(window@) =~= zeros(n as int));
    window
}

impl Default for Heartbeat {
    /// The meter at the start: a window of 120 zeros and a display range
    /// from zero to one.
    fn default() -> (r: Heartbeat)
        ensures
            r@ == initial_heartbeat(),
    {
        Heartbeat {
            max_samples: 120,
            samples: zero_window(120),
            ema: Fixed::zero(),
            ema_alpha: Fixed::from_ratio(25, 100),
            peak: Fixed::zero(),
            peak_fall_per_s: Fixed::from_int(6),
            scale_min: Fixed::zero(),
            scale_max: Fixed::one(),
            scale_lerp: Fixed::from_ratio(12, 100),
            bar_width_px: Fixed::from_int(2),
            min_bar_px: Fixed::one(),
        }
    }
}

/// The smallest and the largest reading of a window.
fn window_bounds(samples: &Vec<Fixed>) -> (r: (Fixed, Fixed))
    ensures
        r.0@ == seq_min(raw_values(samples@)),
        r.1@ == seq_max(raw_values(samples@)),
{
    let mut low = Fixed { raw: 0x7fff_ffff_ffff_ffff };
    let mut high = Fixed { raw: -0x8000_0000_0000_0000 };
    let mut i: usize = 0;
    while i < samples.len()
        invariant
            i <= samples.len(),
            low@ == seq_min(raw_values(samples@).take(i as int)),
            high@ == seq_max(raw_values(samples@).take(i as int)),
        decreases samples.len() - i,
    {
        proof {
            let values = raw_values(samples@);
            assert(values.take(i + 1).drop_last() == values.take(i as int));
            assert(values.take(i + 1).last() == samples@[i as int]@);
        }
        low = low.min(samples[i]);
        high = high.max(samples[i]);
        i = i + 1;
    }
    proof {
        let values = raw_values(samples@);
        assert(values.take(samples.len() as int) == values);
    }
    (low, high)
}

/// Advances the meter by one tick: smooths the value into the reading,
/// lets the peak decay, moves the window on by the new reading and draws
/// the display range toward the window.
pub fn heartbeat_tick(hb: &mut Heartbeat, value: Fixed, dt: Fixed)
    requires
        old(hb).samples.len() > 0 || old(hb).max_samples > 0,
        old(hb).samples.len() < usize::MAX,
    ensures
        final(hb)@ == heartbeat_step(old(hb)@, value@, dt@),
        final(hb).samples.len() == max_int(
            old(hb).samples.len() as int,
            old(hb).max_samples as int,
        ),
        final(hb).samples@.last() == final(hb).ema,
{
    let ghost before = hb.samples@;
    if hb.samples.is_empty() {
        hb.ema = value;
    } else {
        hb.ema = lerp_to(hb.ema, value, hb.ema_alpha);
    }
    hb.peak = hb.peak.max(hb.ema);
    hb.peak = hb.peak.sub(hb.peak_fall_per_s.mul(dt)).max(hb.ema);

    if hb.samples.len() >= hb.max_samples {
        hb.samples.remove(0);
    }
    let ema = hb.ema;
    hb.samples.push(ema);
    let ghost pushed = hb.samples@;

    if hb.samples.len() < hb.max_samples {
        let missing = hb.max_samples - hb.samples.len();
        let mut padded = zero_window(missing);
        padded.append(&mut hb.samples);
        hb.samples = padded;
    }
    proof {
        let kept = if before.len() >= hb.max_samples {
            before.drop_first()
        } else {
            before
        };
        assert(raw_values(kept) =~= if before.len() >= hb.max_samples {
            raw_values(before).drop_first()
        } else {
            raw_values(before)
        });
        assert(raw_values(pushed) =~= raw_values(kept).push(ema@));
        assert(raw_values(hb.samples@) =~= advanced_window(
            raw_values(before),
            hb.max_samples as int,
            ema@,
        ));
    }

    let (low, high) = window_bounds(&hb.samples);
    let pad = high.sub(low).max(Fixed { raw: MIN_SPAN_RAW }).mul(Fixed { raw: RANGE_PAD_RAW });
    hb.scale_min = lerp_to(hb.scale_min, low.sub(pad), hb.scale_lerp);
    hb.scale_max = lerp_to(hb.scale_max, high.add(pad), hb.scale_lerp);
}

/// The span of the display range, at least [`MIN_SPAN_RAW`].
fn span_of(hb: &Heartbeat) -> (r: Fixed)
    ensures
        r@ == display_span(hb@.scale_min, hb@.scale_max),
{
    hb.scale_max.sub(hb.scale_min).max(Fixed { raw: MIN_SPAN_RAW })
}

/// The height of the bar of `sample` in a meter of height `node_height`.
pub fn bar_height(hb: &Heartbeat, sample: Fixed, node_height: Fixed) -> (r: Fixed)
    ensures
        r@ == bar_height_spec(hb@, sample@, node_height@),
{
    let inner = node_height.sub(Fixed { raw: NODE_PADDING_RAW }).max(Fixed::one());
    let place = sample.sub(hb.scale_min).div(span_of(hb)).clamp(Fixed::zero(), Fixed::one());
    hb.min_bar_px.add(place.mul(inner))
}

/// Whether `sample` lies in the top band of the display range.
pub fn is_peak(hb: &Heartbeat, sample: Fixed) -> (r: bool)
    ensures
        r == is_peak_spec(hb@, sample@),
{
    let threshold = hb.scale_max.sub(Fixed { raw: PEAK_BAND_RAW }.mul(span_of(hb)));
    sample.raw >= threshold.raw
}

/// The bars of the meter in a node of height `node_height`: one for each of
/// the first `bar_count` readings of the window, oldest first.
pub fn heartbeat_render(hb: &Heartbeat, node_height: Fixed, bar_count: usize) -> (bars: Vec<Bar>)
    ensures
        bars.len() == min_int(hb.samples.len() as int, bar_count as int),
        forall|i: int|
            0 <= i < bars.len() ==> {
                &&& (#[trigger] bars[i]).height@ == bar_height_spec(
                    hb@,
                    hb.samples[i]@,
                    node_height@,
                )
                &&& bars[i].is_peak == is_peak_spec(hb@, hb.samples[i]@)
            },
{
    let mut bars: Vec<Bar> = Vec::new();
    let mut i: usize = 0;
    while i < hb.samples.len() && i < bar_count
        invariant
            i <= hb.samples.len(),
            i <= bar_count,
            bars.len() == i,
            forall|j: int|
                0 <= j < i ==> {
                    &&& (#[trigger] bars[j]).height@ == bar_height_spec(
                        hb@,
                        hb.samples[j]@,
                        node_height@,
                    )
                    &&& bars[j].is_peak == is_peak_spec(hb@, hb.samples[j]@)
                },
        decreases hb.samples.len() - i,
    {
        let sample = hb.samples[i];
        let height = bar_height(hb, sample, node_height);
        bars.push(Bar { height, is_peak: is_peak(hb, sample) });
        i = i + 1;
    }
    bars
}

/// A full window moves on by one reading: the oldest leaves, the others
/// keep their order, and the new reading is the last.
pub proof fn law_full_window_shifts(h: HeartbeatModel, v: int, dt: int)
    requires
        h.samples.len() == h.max_samples,
        h.max_samples > 0,
    ensures
        heartbeat_step(h, v, dt).samples == h.samples.drop_first().push(smoothed(h, v)),
        heartbeat_step(h, v, dt).samples.len() == h.max_samples,
{
}

/// After a tick the peak is at least the smoothed reading.
pub proof fn law_peak_covers_reading(h: HeartbeatModel, v: int, dt: int)
    ensures
        heartbeat_step(h, v, dt).peak >= heartbeat_step(h, v, dt).ema,
{
}

/// With a weight between zero and one, the smoothed reading moves toward
/// the new value and never past it.
pub proof fn law_reading_moves_toward_value(h: HeartbeatModel, v: int, dt: int)
    requires
        0 <= h.ema_alpha <= one(),
        in_range(h.ema),
        in_range(v),
    ensures
        min_int(h.ema, v) <= heartbeat_step(h, v, dt).ema <= max_int(h.ema, v),
{
    if h.samples.len() > 0 {
        let d = sat_sub(v, h.ema);
        if d >= 0 {
            lemma_mul_contracts(d, h.ema_alpha);
        } else {
            lemma_mul_contracts_nonpos(d, h.ema_alpha);
        }
    }
}

/// A bar is never lower than the lowest bar, and never higher than the
/// lowest bar plus the height inside the padding.
pub proof fn law_bar_height_bounded(h: HeartbeatModel, sample: int, node_height: int)
    requires
        in_range(h.min_bar_px),
    ensures
        ({
            let inner = max_int(sat_sub(node_height, NODE_PADDING_RAW as int), one());
            h.min_bar_px <= bar_height_spec(h, sample, node_height) <= sat_add(h.min_bar_px, inner)
        }),
{
    let inner = max_int(sat_sub(node_height, NODE_PADDING_RAW as int), one());
    let span = display_span(h.scale_min, h.scale_max);
    let place = clamp_int(sat_div(sat_sub(sample, h.scale_min), span), 0, one());
    lemma_mul_nonneg(place, inner);
    lemma_mul_monotone(inner, place, one());
    lemma_mul_one(inner);
}

} // verus!
