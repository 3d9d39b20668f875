//! What the tray is told after each round of measurement.
use crate::icon::{
    bars_pixel, lemma_left_bar, lemma_opaque_or_clear, lemma_right_bar, make_icon_bars, shows_bars,
    Bar,
};
use crate::metrics::{bars_for, bars_shown, tooltip, tooltip_of, Metrics, Mode};
use crate::overlay::OverlayFigures;
use crate::ramp::{color_on, lerp_rgb, palette_segment, segment_at, Palette};
use crate::reading::Reading;
use vstd::prelude::*;

verus! {

/// What the tray is told.
#[derive(Debug)]
pub enum AppEvent {
    /// Show this from now on.
    Update {
        /// Text beside the pointer.
        tooltip: String,
        /// Bytes of the icon.
        rgba: Vec<u8>,
        /// Width of the icon.
        w: u32,
        /// Height of the icon.
        h: u32,
    },
}

/// How a bar is drawn: what floating point makes of its percentage.
#[derive(Clone, Copy, Debug, PartialEq, Eq)]
pub struct BarLook {
    /// Its percentage of the rows free for it, rounded; see [`Bar`].
    pub share: u32,
    /// Place of its percentage on the palette, as [`ramp_position`](crate::ramp::ramp_position)
    /// gives it, rounded to single precision.
    pub position: Reading,
    /// Red, green and blue mixed for that place.
    pub mixed: [u8; 3],
}

/// A bar for a percentage in the colours of a palette, drawn so.
pub open spec fn bar_of(pct: Reading, palette: Palette, look: BarLook) -> Bar {
    Bar {
        pct,
        share: look.share,
        color: color_on(segment_at(palette, look.position), look.mixed),
    }
}

/// The two bars of a mode, drawn so.
pub open spec fn bars_of(mode: Mode, m: Metrics, first: BarLook, second: BarLook) -> (Bar, Bar) {
    let (pct1, pct2, palette) = bars_shown(mode, m);
    (bar_of(pct1, palette, first), bar_of(pct2, palette, second))
}

/// A bar for a percentage in the colours of a palette, drawn so.
fn draw_as(pct: Reading, palette: Palette, look: BarLook) -> (r: Bar)
    ensures
        r == bar_of(pct, palette, look),
{
    let segment = palette_segment(palette, look.position);
    Bar { pct, share: look.share, color: lerp_rgb(segment, look.mixed) }
}

/// What the tray is told of a round in a mode: the tooltip of the mode, and the icon with the bars
/// of the mode in its palette. `figures` are those of the round as they are written, `first` and `second` the
/// looks of the bars that [`bars_for`] gives.
pub fn update_event(
    w: u32,
    h: u32,
    mode: Mode,
    m: &Metrics,
    figures: &OverlayFigures,
    first: BarLook,
    second: BarLook,
) -> (r: AppEvent)
    requires
        4 * w <= usize::MAX,
        4 * w * h <= isize::MAX,
    ensures
        match r {
            AppEvent::Update { tooltip: text, rgba, w: width, h: height } => {
                &&& text@ == tooltip_of(mode, *figures)
                &&& shows_bars(
                    rgba@,
                    w,
                    h,
                    bars_of(mode, *m, first, second).0,
                    bars_of(mode, *m, first, second).1,
                )
                &&& width == w
                &&& height == h
            },
        },
{
    let (pct1, pct2, palette) = bars_for(mode, m);
    let v1 = draw_as(pct1, palette, first);
    let v2 = draw_as(pct2, palette, second);
    AppEvent::Update { tooltip: tooltip(mode, figures), rgba: make_icon_bars(w, h, v1, v2), w, h }
}

/// Every pixel of the icon is opaque or clear.
pub proof fn lemma_update_opaque_or_clear(
    w: int,
    h: int,
    mode: Mode,
    m: Metrics,
    first: BarLook,
    second: BarLook,
    px: int,
    py: int,
)
    ensures
        ({
            let (v1, v2) = bars_of(mode, m, first, second);
            let pixel = bars_pixel(w, h, v1, v2, px, py);
            pixel[3] == 255 || pixel == [0u8, 0u8, 0u8, 0u8]
        }),
{
    let (v1, v2) = bars_of(mode, m, first, second);
    lemma_opaque_or_clear(w, h, v1, v2, px, py);
}

/// The bars of a mode: each shows its quantity as it was measured, with the rows and in the colour
/// of its own look on the palette of the mode.
pub proof fn lemma_bars_drawn(mode: Mode, m: Metrics, first: BarLook, second: BarLook)
    ensures
        ({
            let (v1, v2) = bars_of(mode, m, first, second);
            let palette = if mode == Mode::CpuRam {
                Palette::CpuRam
            } else {
                Palette::DiskNet
            };
            &&& mode == Mode::CpuRam ==> v1.pct == m.cpu_pct && v2.pct == m.ram_pct
            &&& mode == Mode::DiskNet ==> v1.pct == m.disk_pct && v2.pct == m.net_pct
            &&& v1.share == first.share && v2.share == second.share
            &&& v1.color == color_on(segment_at(palette, first.position), first.mixed)
            &&& v2.color == color_on(segment_at(palette, second.position), second.mixed)
        }),
{
}

/// In the bytes of the icon the left bar of a mode has exactly as many opaque rows as its rounded
/// share says, above the bottom margin, where that fits and its percentage lies between zero and
/// 99.5: for the load of the processor in one mode, for the disk in the other.
pub proof fn lemma_left_rows_opaque(
    bytes: Seq<u8>,
    w: u32,
    h: u32,
    mode: Mode,
    m: Metrics,
    first: BarLook,
    second: BarLook,
    x: u32,
    y: u32,
)
    requires
        shows_bars(
            bytes,
            w,
            h,
            bars_of(mode, m, first, second).0,
            bars_of(mode, m, first, second).1,
        ),
        mode == Mode::CpuRam ==> 0 < m.cpu_pct.bits < 0x4058_E000_0000_0000,
        mode == Mode::DiskNet ==> 0 < m.disk_pct.bits < 0x4058_E000_0000_0000,
        1 <= first.share <= h - 4,
        x < w && y < h,
        w < 8 ==> x == 2,
        8 <= w ==> 2 <= x < 2 + (w - 6) / 2,
    ensures
        bytes[4 * (y * w + x) + 3] == 255 <==> h - 2 - first.share <= y < h - 2,
        bytes[4 * (y * w + x) + 3] == 0 <==> y < h - 2 - first.share || h - 2 <= y,
{
    let (v1, v2) = bars_of(mode, m, first, second);
    lemma_left_bar(bytes, w, h, v1, v2, x, y, 3);
}

/// The same of the right bar: for the memory in one mode, for the network in the other.
pub proof fn lemma_right_rows_opaque(
    bytes: Seq<u8>,
    w: u32,
    h: u32,
    mode: Mode,
    m: Metrics,
    first: BarLook,
    second: BarLook,
    x: u32,
    y: u32,
)
    requires
        shows_bars(
            bytes,
            w,
            h,
            bars_of(mode, m, first, second).0,
            bars_of(mode, m, first, second).1,
        ),
        mode == Mode::CpuRam ==> 0 < m.ram_pct.bits < 0x4058_E000_0000_0000,
        mode == Mode::DiskNet ==> 0 < m.net_pct.bits < 0x4058_E000_0000_0000,
        1 <= second.share <= h - 4,
        x < w && y < h,
        w < 8 ==> x == 5,
        8 <= w ==> 4 + (w - 6) / 2 <= x < 4 + 2 * ((w - 6) / 2),
    ensures
        bytes[4 * (y * w + x) + 3] == 255 <==> h - 2 - second.share <= y < h - 2,
        bytes[4 * (y * w + x) + 3] == 0 <==> y < h - 2 - second.share || h - 2 <= y,
{
    let (v1, v2) = bars_of(mode, m, first, second);
    lemma_right_bar(bytes, w, h, v1, v2, x, y, 3);
}

} // verus!
