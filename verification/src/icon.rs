//! The tray icon: two vertical bars side by side on a transparent ground.
use crate::canvas::{byte_index, canvas_pixels, canvas_size, Canvas};
use crate::reading::{
    lemma_exact_constants, lemma_kinds_by_bits, lemma_order_by_bits, Reading, HUNDRED,
    NEARLY_HUNDRED, ZERO,
};
use crate::text::{parse_u32, parsed_u32};
use vstd::prelude::*;

verus! {

/// Clear space, in pixels, around and between the bars.
pub const MARGIN: u32 = 2;

/// Whether `(px, py)` lies in the bar that is `w` wide and `h` high, whose left column is `x` and
/// which stands on row `base_y`, that row itself left out.
pub open spec fn in_bar(x: int, base_y: int, w: int, h: int, px: int, py: int) -> bool {
    &&& x <= px < x + w
    &&& base_y - h <= py < base_y
}

/// Width of each bar of an icon that is `w` wide.
pub open spec fn bar_width(w: int) -> int {
    if w < 8 {
        1
    } else {
        (w - 6) / 2
    }
}

/// Row that the bars of an icon stand on.
pub open spec fn base_row(h: int) -> int {
    if h < 2 {
        0
    } else {
        h - 2
    }
}

/// Height left for a bar between the margins.
pub open spec fn inner_rows(h: int) -> int {
    if h < 4 {
        0
    } else {
        h - 4
    }
}

/// Colour of the pixel `(px, py)` of an icon whose bars have heights `h1`, `h2` and colours `c1`,
/// `c2`.
pub open spec fn icon_pixel(
    w: int,
    h: int,
    h1: int,
    h2: int,
    c1: [u8; 4],
    c2: [u8; 4],
    px: int,
    py: int,
) -> [u8; 4] {
    if in_bar(2, base_row(h), bar_width(w), h1, px, py) {
        c1
    } else if in_bar(4 + bar_width(w), base_row(h), bar_width(w), h2, px, py) {
        c2
    } else {
        [0u8, 0u8, 0u8, 0u8]
    }
}

/// Side of the icon, in pixels, where none is asked for.
pub const DEFAULT_SIDE: u32 = 24;

/// A percentage brought into `0 ..= 100`; zero where it is not finite.
pub open spec fn clamped_pct(p: Reading) -> Reading {
    if p.finite() {
        p.clamped(Reading { bits: ZERO }, Reading { bits: HUNDRED })
    } else {
        Reading { bits: ZERO }
    }
}

/// Rows of the bar for a percentage, where `inner` rows are free and `share` of them, rounded, is
/// the percentage of them: none for zero, all from 99.5 on, and from one to all in between.
pub open spec fn bar_rows(inner: int, p: Reading, share: int) -> int {
    if inner == 0 {
        0
    } else if (Reading { bits: NEARLY_HUNDRED }).less_eq(p) {
        inner
    } else if p.less_eq(Reading { bits: ZERO }) {
        0
    } else if share < 1 {
        1
    } else if share > inner {
        inner
    } else {
        share
    }
}

/// Width and height of the icon: square, with the side that the setting writes.
pub fn icon_size(setting: Option<&str>) -> (r: (u32, u32))
    ensures
        r.0 == r.1,
        r.0 == match setting {
            None => DEFAULT_SIDE,
            Some(s) => match parsed_u32(s@) {
                None => DEFAULT_SIDE,
                Some(n) => n,
            },
        },
        setting is None ==> r.0 == 24,
        setting matches Some(s) ==> (parsed_u32(s@) is None ==> r.0 == 24),
{
    if let Some(s) = setting {
        if let Some(n) = parse_u32(s) {
            return (n, n);
        }
    }
    (DEFAULT_SIDE, DEFAULT_SIDE)
}

/// The bytes of an icon that shows nothing.
pub fn blank_icon(w: u32, h: u32) -> (bytes: Vec<u8>)
    requires
        4 * w * h <= u32::MAX,
        4 * w * h <= isize::MAX,
    ensures
        bytes@.len() == 4 * w * h,
        forall|i: int| 0 <= i < bytes@.len() ==> bytes@[i] == 0,
{
    proof {
        assert(w * h <= 4 * w * h) by (nonlinear_arith)
            requires
                w >= 0,
                h >= 0,
        ;
        assert(w * h * 4 == 4 * w * h) by (nonlinear_arith);
    }
    vec![0u8; (w * h * 4) as usize]
}

/// Brings a percentage into `0 ..= 100`.
pub fn clamp_pct(p: Reading) -> (r: Reading)
    ensures
        r == clamped_pct(p),
{
    if p.is_finite() {
        proof {
            lemma_exact_constants();
            crate::reading::lemma_constants_are_numbers();
        }
        p.clamp(Reading { bits: ZERO }, Reading { bits: HUNDRED })
    } else {
        Reading { bits: ZERO }
    }
}

/// Rows between the margins of an icon.
pub fn inner_height(h: u32) -> (r: u32)
    ensures
        r == inner_rows(h as int),
{
    h.saturating_sub(MARGIN * 2)
}

/// Height of the bar for a percentage. `share` is that percentage of `inner`, rounded.
pub fn bar_height(inner: u32, p: Reading, share: u32) -> (r: u32)
    ensures
        r == bar_rows(inner as int, p, share as int),
{
    if inner == 0 {
        0
    } else if (Reading { bits: NEARLY_HUNDRED }).at_most(p) {
        inner
    } else if p.at_most(Reading { bits: ZERO }) {
        0
    } else if share < 1 {
        1
    } else if share > inner {
        inner
    } else {
        share
    }
}

/// Paints a bar on the canvas, as much of it as lies inside.
pub(crate) fn draw_bar(img: &mut Canvas, x: u32, base_y: u32, w: u32, h: u32, color: [u8; 4])
    requires
        base_y == 0 || x + w <= u32::MAX,
    ensures
        canvas_size(*final(img)) == canvas_size(*old(img)),
        forall|px: u32, py: u32|
            px < canvas_size(*old(img)).0 && py < canvas_size(*old(img)).1
                ==> #[trigger] canvas_pixels(*final(img))[(px, py)] == (if in_bar(
                x as int,
                base_y as int,
                w as int,
                h as int,
                px as int,
                py as int,
            ) {
                color
            } else {
                canvas_pixels(*old(img))[(px, py)]
            }),
{
    if w == 0 || base_y == 0 {
        return ;
    }
    let y0: u32 = base_y.saturating_sub(h);
    let width: u32 = img.width();
    let height: u32 = img.height();
    let x1: u32 = if x + w < width {
        x + w
    } else {
        width
    };
    let y1: u32 = if base_y < height {
        base_y
    } else {
        height
    };
    let mut yy: u32 = y0;
    while yy < y1
        invariant
            y0 <= yy,
            y1 <= height,
            yy <= y1 || yy == y0,
            x1 <= width,
            canvas_size(*img) == (width, height),
            forall|px: u32, py: u32|
                px < width && py < height ==> #[trigger] canvas_pixels(*img)[(px, py)] == (if x
                    <= px < x1 && y0 <= py < yy {
                    color
                } else {
                    canvas_pixels(*old(img))[(px, py)]
                }),
        decreases y1 - yy,
    {
        let mut xx: u32 = x;
        while xx < x1
            invariant
                yy < y1,
                y0 <= yy,
                y1 <= height,
                x <= xx,
                xx <= x1 || xx == x,
                x1 <= width,
                canvas_size(*img) == (width, height),
                forall|px: u32, py: u32|
                    px < width && py < height ==> #[trigger] canvas_pixels(*img)[(px, py)] == (if (x
                        <= px < x1 && y0 <= py < yy) || (x <= px < xx && py == yy) {
                        color
                    } else {
                        canvas_pixels(*old(img))[(px, py)]
                    }),
            decreases x1 - xx,
        {
            img.set_pixel(xx, yy, color);
            xx = xx + 1;
        }
        yy = yy + 1;
    }
}

/// One bar of the icon.
#[derive(Clone, Copy, Debug, PartialEq, Eq)]
pub struct Bar {
    /// The percentage that it shows.
    pub pct: Reading,
    /// That percentage, as [`clamp_pct`] gives it, of [`inner_height`], rounded.
    pub share: u32,
    /// Its colour.
    pub color: [u8; 4],
}

/// Rows of a bar on an icon that is `h` high.
pub open spec fn rows_of(h: int, bar: Bar) -> int {
    bar_rows(inner_rows(h), clamped_pct(bar.pct), bar.share as int)
}

/// Whether the bytes are those of an icon with the two bars.
pub open spec fn shows_bars(bytes: Seq<u8>, w: u32, h: u32, v1: Bar, v2: Bar) -> bool {
    &&& bytes.len() == 4 * w * h
    &&& forall|x: u32, y: u32, k: int|
        x < w && y < h && 0 <= k < 4 ==> #[trigger] bytes[byte_index(
            w as int,
            x as int,
            y as int,
            k,
        )] == bars_pixel(w as int, h as int, v1, v2, x as int, y as int)[k]
}

/// Colour of the pixel `(px, py)` of an icon with the two bars.
pub open spec fn bars_pixel(w: int, h: int, v1: Bar, v2: Bar, px: int, py: int) -> [u8; 4] {
    icon_pixel(w, h, rows_of(h, v1), rows_of(h, v2), v1.color, v2.color, px, py)
}

/// Draws the icon: two bars that stand on the bottom margin, as its RGBA bytes.
pub fn make_icon_bars(w: u32, h: u32, v1: Bar, v2: Bar) -> (bytes: Vec<u8>)
    requires
        4 * w <= usize::MAX,
        4 * w * h <= isize::MAX,
    ensures
        shows_bars(bytes@, w, h, v1, v2),
        bytes@.len() == 4 * w * h,
{
    let mut img = Canvas::from_pixel(w, h, [0u8, 0u8, 0u8, 0u8]);
    let inner: u32 = inner_height(h);
    let mut bar_w: u32 = w.saturating_sub(MARGIN * 3) / 2;
    if bar_w == 0 {
        bar_w = 1;
    }
    let left_x: u32 = MARGIN;
    let right_x: u32 = MARGIN * 2 + bar_w;
    let v1_h: u32 = bar_height(inner, clamp_pct(v1.pct), v1.share);
    let v2_h: u32 = bar_height(inner, clamp_pct(v2.pct), v2.share);
    let base_y: u32 = h.saturating_sub(MARGIN);
    draw_bar(&mut img, left_x, base_y, bar_w, v1_h, v1.color);
    draw_bar(&mut img, right_x, base_y, bar_w, v2_h, v2.color);
    img.into_raw()
}

/// Every byte of the icon belongs to one pixel: the contract of [`make_icon_bars`] leaves none out.
pub proof fn lemma_every_byte_has_a_pixel(w: int, h: int, i: int)
    requires
        0 < w,
        0 <= i < 4 * w * h,
    ensures
        0 <= (i / 4) % w < w,
        0 <= (i / 4) / w < h,
        0 <= i % 4 < 4,
        i == byte_index(w, (i / 4) % w, (i / 4) / w, i % 4),
{
    let p = i / 4;
    assert(4 * w * h == 4 * (w * h)) by (nonlinear_arith);
    assert(0 <= p < w * h);
    vstd::arithmetic::div_mod::lemma_fundamental_div_mod(p, w);
    vstd::arithmetic::div_mod::lemma_mod_bound(p, w);
    vstd::arithmetic::div_mod::lemma_div_pos_is_pos(p, w);
    vstd::arithmetic::mul::lemma_mul_is_commutative(p / w, w);
    assert(p / w < h) by (nonlinear_arith)
        requires
            p == w * (p / w) + p % w,
            0 <= p % w,
            p < w * h,
            0 < w,
    ;
}

/// A percentage is drawn inside `0 ..= 100`, whatever it was.
pub proof fn lemma_clamped_pct_in_range(p: Reading)
    ensures
        (Reading { bits: ZERO }).less_eq(clamped_pct(p)),
        clamped_pct(p).less_eq(Reading { bits: HUNDRED }),
{
    lemma_exact_constants();
    crate::reading::lemma_constants_are_numbers();
}

/// A bar is never higher than the rows free for it, a positive percentage always shows, and zero
/// never does.
pub proof fn lemma_bar_rows_fit(inner: int, p: Reading, share: int)
    requires
        0 <= inner,
    ensures
        0 <= bar_rows(inner, p, share) <= inner,
        0 < inner && !p.nan() ==> (bar_rows(inner, p, share) > 0 <==> p.value() > 0),
{
    lemma_exact_constants();
    crate::reading::lemma_constants_are_numbers();
}

/// A bar never shrinks as its percentage, and the rounded share of it, grow.
pub proof fn lemma_bar_rows_grow(inner: int, p: Reading, q: Reading, sp: int, sq: int)
    requires
        0 <= inner,
        sp <= sq,
        p.less_eq(q),
    ensures
        bar_rows(inner, p, sp) <= bar_rows(inner, q, sq),
{
    lemma_exact_constants();
    crate::reading::lemma_constants_are_numbers();
}

/// A pixel that shows does not vanish as the percentages grow, in colours that show at all.
pub proof fn lemma_icon_grows(
    w: int,
    h: int,
    v1: Bar,
    v2: Bar,
    grown1: Bar,
    grown2: Bar,
    px: int,
    py: int,
)
    requires
        v1.pct.finite() && grown1.pct.finite() && v1.pct.less_eq(grown1.pct),
        v2.pct.finite() && grown2.pct.finite() && v2.pct.less_eq(grown2.pct),
        v1.share <= grown1.share,
        v2.share <= grown2.share,
        grown1.color[3] != 0,
        grown2.color[3] != 0,
        bars_pixel(w, h, v1, v2, px, py)[3] != 0,
    ensures
        bars_pixel(w, h, grown1, grown2, px, py)[3] != 0,
{
    lemma_exact_constants();
    crate::reading::lemma_constants_are_numbers();
    let inner = inner_rows(h);
    assert(clamped_pct(v1.pct).less_eq(clamped_pct(grown1.pct)));
    assert(clamped_pct(v2.pct).less_eq(clamped_pct(grown2.pct)));
    lemma_bar_rows_grow(
        inner,
        clamped_pct(v1.pct),
        clamped_pct(grown1.pct),
        v1.share as int,
        grown1.share as int,
    );
    lemma_bar_rows_grow(
        inner,
        clamped_pct(v2.pct),
        clamped_pct(grown2.pct),
        v2.share as int,
        grown2.share as int,
    );
}

/// The margins, and the gap between the bars, stay clear, whatever the bars show. Left out are the
/// few widths at which a bar of one column has to stand in a margin.
pub proof fn lemma_margins_stay_clear(w: int, h: int, v1: Bar, v2: Bar, px: int, py: int)
    requires
        0 <= px < w,
        0 <= py < h,
        w <= 2 || w == 5 || 8 <= w,
        px < 2 || w - 2 <= px || py < 2 || h - 2 <= py || 2 + bar_width(w) <= px < 4 + bar_width(w),
    ensures
        bars_pixel(w, h, v1, v2, px, py) == [0u8, 0u8, 0u8, 0u8],
{
    lemma_bar_rows_fit(inner_rows(h), clamped_pct(v1.pct), v1.share as int);
    lemma_bar_rows_fit(inner_rows(h), clamped_pct(v2.pct), v2.share as int);
}

/// Every pixel is opaque or clear, where the colours of the bars are opaque.
pub proof fn lemma_opaque_or_clear(w: int, h: int, v1: Bar, v2: Bar, px: int, py: int)
    requires
        v1.color[3] == 255,
        v2.color[3] == 255,
    ensures
        bars_pixel(w, h, v1, v2, px, py)[3] == 255 || bars_pixel(w, h, v1, v2, px, py) == [
            0u8,
            0u8,
            0u8,
            0u8,
        ],
{
}

/// The bars never share a pixel, so neither is drawn over the other.
pub proof fn lemma_bars_apart(w: int, base_y: int, h1: int, h2: int, px: int, py: int)
    ensures
        !(in_bar(2, base_y, bar_width(w), h1, px, py) && in_bar(
            4 + bar_width(w),
            base_y,
            bar_width(w),
            h2,
            px,
            py,
        )),
{
}

/// A percentage that is drawn, read off the bits: it stays as it is from zero to a hundred, is a
/// hundred above, and zero where it is negative or not finite.
pub proof fn lemma_clamped_pct_by_bits(p: Reading)
    ensures
        p.bits <= 0x4059_0000_0000_0000 ==> clamped_pct(p) == p,
        0x4059_0000_0000_0000 <= p.bits < 0x7FF0_0000_0000_0000 ==> clamped_pct(p).bits
            == 0x4059_0000_0000_0000,
        p.bits == 0x8000_0000_0000_0000 ==> clamped_pct(p) == p,
        0x7FF0_0000_0000_0000 <= p.bits && p.bits != 0x8000_0000_0000_0000 ==> clamped_pct(p).bits
            == 0,
{
    lemma_order_by_bits(p, Reading { bits: ZERO });
    lemma_order_by_bits(Reading { bits: HUNDRED }, p);
    lemma_kinds_by_bits(p);
}

/// The rows free for a bar and the two margins make up the icon; none are free where the margins
/// take it all.
pub proof fn lemma_margins_and_rows(h: int)
    requires
        0 <= h,
    ensures
        4 <= h ==> inner_rows(h) + 4 == h,
        h <= 4 ==> inner_rows(h) == 0,
{
}

/// Rows of a bar, read off the bits of its percentage: all of them from 99.5 on, none for zero and
/// less, and else, where there are any, exactly the rounded share if that is from one to all of
/// them, one if it is less, and all if it is more.
pub proof fn lemma_bar_rows_by_bits(inner: int, p: Reading, share: int)
    requires
        0 <= inner,
    ensures
        inner == 0 ==> bar_rows(inner, p, share) == 0,
        0x4058_E000_0000_0000 <= p.bits <= 0x7FF0_0000_0000_0000 ==> bar_rows(inner, p, share)
            == inner,
        p.bits == 0 || 0x8000_0000_0000_0000 <= p.bits <= 0xFFF0_0000_0000_0000 ==> bar_rows(
            inner,
            p,
            share,
        ) == 0,
        0 < p.bits < 0x4058_E000_0000_0000 || 0x7FF0_0000_0000_0000 < p.bits < 0x8000_0000_0000_0000
            || 0xFFF0_0000_0000_0000 < p.bits ==> {
            &&& 1 <= share <= inner ==> bar_rows(inner, p, share) == share
            &&& share <= 1 <= inner ==> bar_rows(inner, p, share) == 1
            &&& inner <= share ==> bar_rows(inner, p, share) == inner
        },
{
    lemma_order_by_bits(Reading { bits: NEARLY_HUNDRED }, p);
    lemma_order_by_bits(p, Reading { bits: ZERO });
}

/// The left bar in the bytes of an icon. Its columns start at the third and number half of what
/// three margins leave, at least one. In them a byte is that of its colour or zero: the colour in
/// as many rows above the bottom margin as the rounded share says, for a percentage between zero
/// and 99.5 whose share fits; in all rows between the margins from 99.5 on; in one row, or all of
/// them, for a share that is less or more; and in none for zero, less than zero, or what is not
/// finite.
pub proof fn lemma_left_bar(
    bytes: Seq<u8>,
    w: u32,
    h: u32,
    v1: Bar,
    v2: Bar,
    x: u32,
    y: u32,
    k: int,
)
    requires
        shows_bars(bytes, w, h, v1, v2),
        x < w && y < h,
        0 <= k < 4,
        w < 8 ==> x == 2,
        8 <= w ==> 2 <= x < 2 + (w - 6) / 2,
    ensures
        0 < v1.pct.bits < 0x4058_E000_0000_0000 && 1 <= v1.share <= h - 4 ==> bytes[4 * (y * w + x)
            + k] == (if h - 2 - v1.share <= y < h - 2 {
            v1.color[k]
        } else {
            0
        }),
        0 < v1.pct.bits < 0x4058_E000_0000_0000 && v1.share == 0 && 5 <= h ==> bytes[4 * (y * w + x)
            + k] == (if y == h - 3 {
            v1.color[k]
        } else {
            0
        }),
        0 < v1.pct.bits < 0x7FF0_0000_0000_0000 && (0x4058_E000_0000_0000 <= v1.pct.bits || h - 4
            <= v1.share) && 5 <= h ==> bytes[4 * (y * w + x) + k] == (if 2 <= y < h - 2 {
            v1.color[k]
        } else {
            0
        }),
        v1.pct.bits == 0 || 0x7FF0_0000_0000_0000 <= v1.pct.bits || h <= 4 ==> bytes[4 * (y * w
            + x) + k] == 0,
{
    lemma_clamped_pct_by_bits(v1.pct);
    lemma_bar_rows_by_bits(inner_rows(h as int), clamped_pct(v1.pct), v1.share as int);
    assert(bytes[byte_index(w as int, x as int, y as int, k)] == bars_pixel(
        w as int,
        h as int,
        v1,
        v2,
        x as int,
        y as int,
    )[k]);
}

/// The right bar in the bytes of an icon: as wide as the left one, two columns after it, and drawn
/// for its own percentage and share as the left one is for its.
pub proof fn lemma_right_bar(
    bytes: Seq<u8>,
    w: u32,
    h: u32,
    v1: Bar,
    v2: Bar,
    x: u32,
    y: u32,
    k: int,
)
    requires
        shows_bars(bytes, w, h, v1, v2),
        x < w && y < h,
        0 <= k < 4,
        w < 8 ==> x == 5,
        8 <= w ==> 4 + (w - 6) / 2 <= x < 4 + 2 * ((w - 6) / 2),
    ensures
        0 < v2.pct.bits < 0x4058_E000_0000_0000 && 1 <= v2.share <= h - 4 ==> bytes[4 * (y * w + x)
            + k] == (if h - 2 - v2.share <= y < h - 2 {
            v2.color[k]
        } else {
            0
        }),
        0 < v2.pct.bits < 0x4058_E000_0000_0000 && v2.share == 0 && 5 <= h ==> bytes[4 * (y * w + x)
            + k] == (if y == h - 3 {
            v2.color[k]
        } else {
            0
        }),
        0 < v2.pct.bits < 0x7FF0_0000_0000_0000 && (0x4058_E000_0000_0000 <= v2.pct.bits || h - 4
            <= v2.share) && 5 <= h ==> bytes[4 * (y * w + x) + k] == (if 2 <= y < h - 2 {
            v2.color[k]
        } else {
            0
        }),
        v2.pct.bits == 0 || 0x7FF0_0000_0000_0000 <= v2.pct.bits || h <= 4 ==> bytes[4 * (y * w
            + x) + k] == 0,
{
    lemma_clamped_pct_by_bits(v2.pct);
    lemma_bar_rows_by_bits(inner_rows(h as int), clamped_pct(v2.pct), v2.share as int);
    assert(bytes[byte_index(w as int, x as int, y as int, k)] == bars_pixel(
        w as int,
        h as int,
        v1,
        v2,
        x as int,
        y as int,
    )[k]);
}

/// Beside the bars every byte of an icon is zero: left of the third column, in the two columns
/// between the bars, and right of both. An icon has four bytes for each of its pixels.
pub proof fn lemma_beside_bars(
    bytes: Seq<u8>,
    w: u32,
    h: u32,
    v1: Bar,
    v2: Bar,
    x: u32,
    y: u32,
    k: int,
)
    requires
        shows_bars(bytes, w, h, v1, v2),
        x < w && y < h,
        0 <= k < 4,
        w < 8 ==> x != 2 && x != 5,
        8 <= w ==> x < 2 || 2 + (w - 6) / 2 <= x < 4 + (w - 6) / 2 || 4 + 2 * ((w - 6) / 2) <= x,
    ensures
        bytes.len() == 4 * w * h,
        bytes[4 * (y * w + x) + k] == 0,
{
    assert(bytes[byte_index(w as int, x as int, y as int, k)] == bars_pixel(
        w as int,
        h as int,
        v1,
        v2,
        x as int,
        y as int,
    )[k]);
}

} // verus!
