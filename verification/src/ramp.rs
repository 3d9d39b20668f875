//! Colours of the bars: each palette runs from its low over its middle to its high colour.
use crate::reading::{lemma_exact_constants, lemma_order_by_bits, Reading, HALF, ONE, ZERO};
use vstd::prelude::*;

verus! {

/// Which pair of quantities the bars show.
#[derive(Clone, Copy, Debug, PartialEq, Eq, Structural)]
pub enum Palette {
    /// Processor and memory: green over yellow to red.
    CpuRam,
    /// Disk and network: blue over violet to pink.
    DiskNet,
}

/// One half of a palette, as red, green and blue of its two ends.
#[derive(Clone, Copy, Debug, PartialEq, Eq)]
pub struct Segment {
    /// Colour at the lower end.
    pub from: [u8; 3],
    /// Colour at the upper end.
    pub to: [u8; 3],
    /// Whether this is the upper half, which starts at one half of the way.
    pub upper: bool,
}

/// Red, green and blue of the lowest colour.
pub open spec fn low_color(palette: Palette) -> [u8; 3] {
    match palette {
        Palette::CpuRam => [0x29u8, 0xBFu8, 0x12u8],
        Palette::DiskNet => [0x24u8, 0x7Bu8, 0xFFu8],
    }
}

/// Red, green and blue of the colour half way.
pub open spec fn middle_color(palette: Palette) -> [u8; 3] {
    match palette {
        Palette::CpuRam => [0xF2u8, 0xCCu8, 0x0Cu8],
        Palette::DiskNet => [0x73u8, 0x3Au8, 0xE6u8],
    }
}

/// Red, green and blue of the highest colour.
pub open spec fn high_color(palette: Palette) -> [u8; 3] {
    match palette {
        Palette::CpuRam => [0xEFu8, 0x23u8, 0x3Cu8],
        Palette::DiskNet => [0xE6u8, 0x1Eu8, 0x9Au8],
    }
}

/// The half of the palette in which the position `t` lies.
pub open spec fn segment_at(palette: Palette, t: Reading) -> Segment {
    if t.less(Reading { bits: HALF }) {
        Segment { from: low_color(palette), to: middle_color(palette), upper: false }
    } else {
        Segment { from: middle_color(palette), to: high_color(palette), upper: true }
    }
}

/// Position on a palette, in `0 ..= 1`, of a share.
pub open spec fn position_of(share: Reading) -> Reading {
    share.clamped(Reading { bits: ZERO }, Reading { bits: ONE })
}

/// Brings a share of the whole into `0 ..= 1`.
pub fn ramp_position(share: Reading) -> (r: Reading)
    ensures
        r == position_of(share),
{
    proof {
        lemma_exact_constants();
        crate::reading::lemma_constants_are_numbers();
    }
    share.clamp(Reading { bits: ZERO }, Reading { bits: ONE })
}

/// The half of the processor and memory palette for a position.
pub fn color_ramp(t: Reading) -> (r: Segment)
    ensures
        r == segment_at(Palette::CpuRam, t),
{
    if t.less_than(Reading { bits: HALF }) {
        Segment { from: [0x29, 0xBF, 0x12], to: [0xF2, 0xCC, 0x0C], upper: false }
    } else {
        Segment { from: [0xF2, 0xCC, 0x0C], to: [0xEF, 0x23, 0x3C], upper: true }
    }
}

/// The half of the disk and network palette for a position.
pub fn color_ramp_disk(t: Reading) -> (r: Segment)
    ensures
        r == segment_at(Palette::DiskNet, t),
{
    if t.less_than(Reading { bits: HALF }) {
        Segment { from: [0x24, 0x7B, 0xFF], to: [0x73, 0x3A, 0xE6], upper: false }
    } else {
        Segment { from: [0x73, 0x3A, 0xE6], to: [0xE6, 0x1E, 0x9A], upper: true }
    }
}

/// The half of a palette for a position.
pub fn palette_segment(palette: Palette, t: Reading) -> (r: Segment)
    ensures
        r == segment_at(palette, t),
{
    match palette {
        Palette::CpuRam => color_ramp(t),
        Palette::DiskNet => color_ramp_disk(t),
    }
}

/// The number nearest to `n` that lies between the ends, whichever of them is the larger.
pub open spec fn between(n: u8, end1: u8, end2: u8) -> u8 {
    let low = if end1 < end2 {
        end1
    } else {
        end2
    };
    let high = if end1 < end2 {
        end2
    } else {
        end1
    };
    if n < low {
        low
    } else if n > high {
        high
    } else {
        n
    }
}

/// The opaque colour on a half of a palette that the mixed red, green and blue give.
pub open spec fn color_on(segment: Segment, mixed: [u8; 3]) -> [u8; 4] {
    [
        between(mixed[0], segment.from[0], segment.to[0]),
        between(mixed[1], segment.from[1], segment.to[1]),
        between(mixed[2], segment.from[2], segment.to[2]),
        0xFFu8,
    ]
}

/// Brings a channel between the ends.
fn bound_channel(n: u8, end1: u8, end2: u8) -> (r: u8)
    ensures
        r == between(n, end1, end2),
{
    let (low, high) = if end1 < end2 {
        (end1, end2)
    } else {
        (end2, end1)
    };
    if n < low {
        low
    } else if n > high {
        high
    } else {
        n
    }
}

/// The colour of a bar: red, green and blue as they were mixed on a half of a palette, each between
/// the ends of that half, and nothing shines through.
pub fn lerp_rgb(segment: Segment, mixed: [u8; 3]) -> (r: [u8; 4])
    ensures
        r == color_on(segment, mixed),
{
    [
        bound_channel(mixed[0], segment.from[0], segment.to[0]),
        bound_channel(mixed[1], segment.from[1], segment.to[1]),
        bound_channel(mixed[2], segment.from[2], segment.to[2]),
        0xFF,
    ]
}

/// A colour on a half of a palette is opaque, and each of its channels lies between those of the
/// two ends; channels that were mixed between the ends are kept.
pub proof fn lemma_color_between_ends(segment: Segment, mixed: [u8; 3], k: int)
    requires
        0 <= k < 3,
    ensures
        color_on(segment, mixed)[3] == 255,
        segment.from[k] <= color_on(segment, mixed)[k] <= segment.to[k] || segment.to[k]
            <= color_on(segment, mixed)[k] <= segment.from[k],
        segment.from[k] <= mixed[k] <= segment.to[k] || segment.to[k] <= mixed[k]
            <= segment.from[k] ==> color_on(segment, mixed)[k] == mixed[k],
{
    assert(k == 0 || k == 1 || k == 2);
}

/// The two halves of a palette meet: the lower one ends in the colour the upper one starts with.
pub proof fn lemma_halves_meet(palette: Palette, below: Reading, above: Reading)
    requires
        below.less(Reading { bits: HALF }),
        (Reading { bits: HALF }).less_eq(above),
    ensures
        segment_at(palette, below).to == segment_at(palette, above).from,
        !segment_at(palette, below).upper,
        segment_at(palette, above).upper,
{
}

/// The position of a share that is a number lies on the palette.
pub proof fn lemma_position_in_range(share: Reading)
    requires
        !share.nan(),
    ensures
        (Reading { bits: ZERO }).less_eq(position_of(share)),
        position_of(share).less_eq(Reading { bits: ONE }),
{
    lemma_exact_constants();
    crate::reading::lemma_constants_are_numbers();
}

/// The end colours at every position of the processor and memory palette: from green to yellow
/// below one half, from yellow to red from there on and for what is no number.
pub proof fn lemma_cpu_ram_colors(t: Reading)
    ensures
        t.bits < 0x3FE0_0000_0000_0000 || 0x8000_0000_0000_0000 <= t.bits <= 0xFFF0_0000_0000_0000
            ==> segment_at(Palette::CpuRam, t).from == [0x29u8, 0xBFu8, 0x12u8],
        t.bits < 0x3FE0_0000_0000_0000 || 0x8000_0000_0000_0000 <= t.bits <= 0xFFF0_0000_0000_0000
            ==> segment_at(Palette::CpuRam, t).to == [0xF2u8, 0xCCu8, 0x0Cu8],
        0x3FE0_0000_0000_0000 <= t.bits < 0x8000_0000_0000_0000 || 0xFFF0_0000_0000_0000 < t.bits
            ==> segment_at(Palette::CpuRam, t).from == [0xF2u8, 0xCCu8, 0x0Cu8],
        0x3FE0_0000_0000_0000 <= t.bits < 0x8000_0000_0000_0000 || 0xFFF0_0000_0000_0000 < t.bits
            ==> segment_at(Palette::CpuRam, t).to == [0xEFu8, 0x23u8, 0x3Cu8],
{
    lemma_order_by_bits(t, Reading { bits: HALF });
}

/// The end colours at every position of the disk and network palette: from blue to violet below one
/// half, from violet to pink from there on and for what is no number.
pub proof fn lemma_disk_net_colors(t: Reading)
    ensures
        t.bits < 0x3FE0_0000_0000_0000 || 0x8000_0000_0000_0000 <= t.bits <= 0xFFF0_0000_0000_0000
            ==> segment_at(Palette::DiskNet, t).from == [0x24u8, 0x7Bu8, 0xFFu8],
        t.bits < 0x3FE0_0000_0000_0000 || 0x8000_0000_0000_0000 <= t.bits <= 0xFFF0_0000_0000_0000
            ==> segment_at(Palette::DiskNet, t).to == [0x73u8, 0x3Au8, 0xE6u8],
        0x3FE0_0000_0000_0000 <= t.bits < 0x8000_0000_0000_0000 || 0xFFF0_0000_0000_0000 < t.bits
            ==> segment_at(Palette::DiskNet, t).from == [0x73u8, 0x3Au8, 0xE6u8],
        0x3FE0_0000_0000_0000 <= t.bits < 0x8000_0000_0000_0000 || 0xFFF0_0000_0000_0000 < t.bits
            ==> segment_at(Palette::DiskNet, t).to == [0xE6u8, 0x1Eu8, 0x9Au8],
{
    lemma_order_by_bits(t, Reading { bits: HALF });
}

/// Two positions in the same half of a palette have the same end colours, and only the upper half
/// is marked as such.
pub proof fn lemma_same_half_same_colors(palette: Palette, t: Reading, u: Reading)
    ensures
        t.less(Reading { bits: HALF }) && u.less(Reading { bits: HALF }) ==> segment_at(palette, t)
            == segment_at(palette, u) && !segment_at(palette, t).upper,
        (Reading { bits: HALF }).less_eq(t) && (Reading { bits: HALF }).less_eq(u) ==> segment_at(
            palette,
            t,
        ) == segment_at(palette, u) && segment_at(palette, t).upper,
        t.nan() ==> segment_at(palette, t).upper,
{
}

/// The position of a share is the share from zero to one, one above, zero below, and no number
/// where the share is none.
pub proof fn lemma_position_by_bits(share: Reading)
    ensures
        share.bits <= 0x3FF0_0000_0000_0000 || share.bits == 0x8000_0000_0000_0000 ==> position_of(
            share,
        ) == share,
        0x3FF0_0000_0000_0000 <= share.bits <= 0x7FF0_0000_0000_0000 ==> position_of(share).bits
            == 0x3FF0_0000_0000_0000,
        0x8000_0000_0000_0000 < share.bits <= 0xFFF0_0000_0000_0000 ==> position_of(share).bits
            == 0,
        0x7FF0_0000_0000_0000 < share.bits < 0x8000_0000_0000_0000 || 0xFFF0_0000_0000_0000
            < share.bits ==> position_of(share) == share,
{
    lemma_order_by_bits(share, Reading { bits: ZERO });
    lemma_order_by_bits(Reading { bits: ONE }, share);
}

/// A channel that was mixed outside of the ends takes the nearer end.
pub proof fn lemma_channel_at_nearer_end(segment: Segment, mixed: [u8; 3], k: int)
    requires
        0 <= k < 3,
    ensures
        mixed[k] <= segment.from[k] <= segment.to[k] ==> color_on(segment, mixed)[k]
            == segment.from[k],
        mixed[k] <= segment.to[k] <= segment.from[k] ==> color_on(segment, mixed)[k]
            == segment.to[k],
        segment.from[k] <= segment.to[k] <= mixed[k] ==> color_on(segment, mixed)[k]
            == segment.to[k],
        segment.to[k] <= segment.from[k] <= mixed[k] ==> color_on(segment, mixed)[k]
            == segment.from[k],
{
    assert(k == 0 || k == 1 || k == 2);
}

} // verus!
