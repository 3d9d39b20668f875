//! The overlay window: what it paints, where it can be dragged, and how it answers its messages.
use vstd::prelude::*;
use vstd::string::StringExecFns;

verus! {

/// Upper left corner of the overlay on the screen.
#[derive(Clone, Copy, Debug, PartialEq, Eq, Structural)]
pub struct WindowPosition {
    /// Distance from the left.
    pub x: i32,
    /// Distance from the top.
    pub y: i32,
}

/// What the overlay can be told to do.
#[derive(Clone, Copy, Debug, PartialEq, Eq, Structural)]
pub enum OverlayCmd {
    /// Keep the position and close.
    Close,
}

/// Width of the overlay.
pub const OVERLAY_WIDTH: i32 = 300;

/// Height of the overlay.
pub const OVERLAY_HEIGHT: i32 = 160;

/// Side of the square by which the overlay is dragged.
pub const HANDLE: i32 = 16;

/// A rectangle, its right column and its bottom row left out.
#[derive(Clone, Copy, Debug, PartialEq, Eq, Structural)]
pub struct Area {
    /// First column.
    pub left: i32,
    /// First row.
    pub top: i32,
    /// Column after the last.
    pub right: i32,
    /// Row after the last.
    pub bottom: i32,
}

/// What the overlay does on a window message.
#[derive(Clone, Copy, Debug, PartialEq, Eq, Structural)]
pub enum Reply {
    /// Say what lies under the pointer.
    HitTest,
    /// Paint.
    Paint,
    /// Destroy the window.
    Destroy,
    /// End the message loop.
    Quit,
    /// Leave it to the system.
    Default,
}

/// What lies under the pointer.
#[derive(Clone, Copy, Debug, PartialEq, Eq, Structural)]
pub enum Hit {
    /// The handle, by which the window is dragged as by its caption.
    Caption,
    /// Nothing of the overlay; the pointer acts on what lies behind.
    Transparent,
}

/// A step in painting the ground of the overlay.
#[derive(Clone, Copy, Debug, PartialEq, Eq, Structural)]
pub enum PaintStep {
    /// Fill an area with a colour.
    Fill {
        /// What to fill.
        area: Area,
        /// With what.
        color: u32,
    },
    /// Let the ground show through what is written.
    ClearTextGround,
    /// Write in a colour.
    TextColor(u32),
}

/// The figures of the overlay, as they are written.
#[derive(Debug)]
pub struct OverlayFigures {
    /// Load of the processor.
    pub cpu_pct: String,
    /// Memory in use.
    pub ram_pct: String,
    /// Megabytes read in a second.
    pub disk_r_mbps: String,
    /// Megabytes written in a second.
    pub disk_w_mbps: String,
    /// Megabytes read and written in a second.
    pub disk_mbps: String,
    /// Disk throughput in percent of its scale.
    pub disk_pct: String,
    /// Network throughput with its unit.
    pub net: String,
    /// Network throughput in percent of its scale.
    pub net_pct: String,
    /// The connected network.
    pub net_info: String,
}

/// A line of text on the overlay.
#[derive(Debug)]
pub struct TextLine {
    /// Left end.
    pub x: i32,
    /// Top.
    pub y: i32,
    /// What it says.
    pub text: String,
}

/// The message that asks what lies under the pointer.
pub const WM_NCHITTEST: u32 = 0x0084;

/// The message that asks to paint.
pub const WM_PAINT: u32 = 0x000F;

/// The message that asks to close.
pub const WM_CLOSE: u32 = 0x0010;

/// The message that says that the window is destroyed.
pub const WM_DESTROY: u32 = 0x0002;

/// The message that ends the message loop.
pub const WM_QUIT: u32 = 0x0012;

/// Whether a message ends the message loop, and with it the overlay.
pub fn ends_loop(msg: u32) -> (r: bool)
    ensures
        r == (msg == WM_QUIT),
        r == (msg == 0x12),
{
    msg == WM_QUIT
}

/// What the overlay does on a message.
pub open spec fn reply_to(msg: u32) -> Reply {
    if msg == WM_NCHITTEST {
        Reply::HitTest
    } else if msg == WM_PAINT {
        Reply::Paint
    } else if msg == WM_CLOSE {
        Reply::Destroy
    } else if msg == WM_DESTROY {
        Reply::Quit
    } else {
        Reply::Default
    }
}

/// What the overlay does on a window message.
pub fn window_reply(msg: u32) -> (r: Reply)
    ensures
        r == reply_to(msg),
{
    match msg {
        WM_NCHITTEST => Reply::HitTest,
        WM_PAINT => Reply::Paint,
        WM_CLOSE => Reply::Destroy,
        WM_DESTROY => Reply::Quit,
        _ => Reply::Default,
    }
}

/// Where the overlay opens first.
pub fn first_position() -> (r: WindowPosition)
    ensures
        r == (WindowPosition { x: 8, y: 8 }),
{
    WindowPosition { x: 8, y: 8 }
}

/// Where the overlay opens next, once it closes with the given upper left corner, if that is known.
pub fn kept_position(position: WindowPosition, corner: Option<(i32, i32)>) -> (r: WindowPosition)
    ensures
        r == match corner {
            Some((x, y)) => WindowPosition { x, y },
            None => position,
        },
{
    match corner {
        Some((x, y)) => WindowPosition { x, y },
        None => position,
    }
}

/// A colour as the system's drawing functions take it: red in the lowest byte, then green and blue.
pub open spec fn color_ref(r: u8, g: u8, b: u8) -> int {
    r + 256 * g + 65536 * b
}

/// The colour with the given red, green and blue.
pub fn rgb(r: u8, g: u8, b: u8) -> (c: u32)
    ensures
        c == color_ref(r, g, b),
{
    proof {
        assert((r as u32) | ((g as u32) << 8) | ((b as u32) << 16) == r as u32 + 256 * (g as u32)
            + 65536 * (b as u32)) by (bit_vector);
    }
    (r as u32) | ((g as u32) << 8) | ((b as u32) << 16)
}

/// Sixteen bits read as a signed number.
pub open spec fn signed16(bits: int) -> int {
    if bits < 0x8000 {
        bits
    } else {
        bits - 0x10000
    }
}

/// Column that a pointer message names: its lowest sixteen bits.
pub open spec fn pointer_x(l: int) -> int {
    signed16(l % 0x10000)
}

/// Row that a pointer message names: the sixteen bits above.
pub open spec fn pointer_y(l: int) -> int {
    signed16((l / 0x10000) % 0x10000)
}

/// Column and row that a pointer message names.
pub fn pointer_position(l: i64) -> (r: (i32, i32))
    ensures
        r.0 == pointer_x(l as int),
        r.1 == pointer_y(l as int),
{
    let low: u32 = (l as u32) & 0xFFFF;
    let high: u32 = ((l as u32) >> 16) & 0xFFFF;
    proof {
        let word: u32 = l as u32;
        let wide: u64 = l as u64;
        assert(word & 0xFFFF == word % 0x10000) by (bit_vector);
        assert((word >> 16) & 0xFFFF == word / 0x10000) by (bit_vector);
        assert(l as u32 == (l as u64) % 0x1_0000_0000) by (bit_vector);
        assert(l >= 0 ==> l as u64 == l) by (bit_vector);
        assert(l < 0 ==> l as u64 == l + 0x1_0000_0000_0000_0000) by (bit_vector);
        assert(word == l as int % 0x1_0000_0000);
        assert(word as int % 0x10000 == l as int % 0x10000);
        assert(word as int / 0x10000 == (l as int / 0x10000) % 0x10000);
    }
    let x: i32 = if low < 0x8000 {
        low as i32
    } else {
        low as i32 - 0x10000
    };
    let y: i32 = if high < 0x8000 {
        high as i32
    } else {
        high as i32 - 0x10000
    };
    (x, y)
}

/// What lies under the pointer that a message names: the handle, or nothing.
pub open spec fn hit_of(l: int, left: int, top: int) -> Hit {
    if left <= pointer_x(l) < left + HANDLE && top <= pointer_y(l) < top + HANDLE {
        Hit::Caption
    } else {
        Hit::Transparent
    }
}

/// What lies under the pointer that a message names, on an overlay with the given upper left
/// corner: the handle in that corner, or nothing.
pub fn hit_test(l: i64, left: i32, top: i32) -> (r: Hit)
    requires
        left + HANDLE <= i32::MAX,
        top + HANDLE <= i32::MAX,
    ensures
        r == hit_of(l as int, left as int, top as int),
{
    let (x, y) = pointer_position(l);
    let right: i32 = left + HANDLE;
    let bottom: i32 = top + HANDLE;
    if left <= x && x < right && top <= y && y < bottom {
        Hit::Caption
    } else {
        Hit::Transparent
    }
}

/// The colour that the system leaves out when it shows the overlay.
pub fn color_key() -> (c: u32)
    ensures
        c == color_ref(255, 0, 255),
        c == 0xFF00FF,
{
    rgb(255, 0, 255)
}

/// The colour of the lines of text.
pub fn line_color() -> (c: u32)
    ensures
        c == color_ref(255, 255, 255),
        c == 0xFFFFFF,
{
    rgb(255, 255, 255)
}

/// How the ground of the overlay is painted: all of it in the colour left out, then the handle in
/// grey; text is then written in light grey, with nothing behind it.
pub fn ground_steps() -> (r: Vec<PaintStep>)
    ensures
        r@ == seq![
            PaintStep::Fill {
                area: Area { left: 0, top: 0, right: 300, bottom: 160 },
                color: color_ref(255, 0, 255) as u32,
            },
            PaintStep::Fill {
                area: Area { left: 0, top: 0, right: 16, bottom: 16 },
                color: color_ref(100, 100, 100) as u32,
            },
            PaintStep::ClearTextGround,
            PaintStep::TextColor(color_ref(200, 200, 200) as u32),
        ],
{
    let whole = Area { left: 0, top: 0, right: OVERLAY_WIDTH, bottom: OVERLAY_HEIGHT };
    let handle = Area { left: 0, top: 0, right: HANDLE, bottom: HANDLE };
    let key: u32 = color_key();
    let grey: u32 = rgb(100, 100, 100);
    let text: u32 = rgb(200, 200, 200);
    let mut r: Vec<PaintStep> = Vec::new();
    r.push(PaintStep::Fill { area: whole, color: key });
    r.push(PaintStep::Fill { area: handle, color: grey });
    r.push(PaintStep::ClearTextGround);
    r.push(PaintStep::TextColor(text));
    r
}

/// Number of lines of text.
pub const LINES: usize = 8;

/// Top of each line: the heading and the last line stand a little apart.
pub open spec fn line_top(i: int) -> int {
    if i == 0 {
        6
    } else if i < 7 {
        8 + 18 * i
    } else {
        136
    }
}

/// Text of each line.
pub open spec fn line_text(f: OverlayFigures, i: int) -> Seq<char> {
    if i == 0 {
        "--System Usage--"@
    } else if i == 1 {
        "CPU: "@ + f.cpu_pct@ + "%"@
    } else if i == 2 {
        "RAM: "@ + f.ram_pct@ + "%"@
    } else if i == 3 {
        "DISK R: "@ + f.disk_r_mbps@ + " MB/s"@
    } else if i == 4 {
        "DISK W: "@ + f.disk_w_mbps@ + " MB/s"@
    } else if i == 5 {
        "DISK TOT: "@ + f.disk_mbps@ + " MB/s ("@ + f.disk_pct@ + " %)"@
    } else if i == 6 {
        "NET: "@ + f.net@ + " ("@ + f.net_pct@ + " %)"@
    } else {
        f.net_info@
    }
}

/// A text between two others.
fn framed(before: &str, middle: &str, after: &str) -> (r: String)
    ensures
        r@ == before@ + middle@ + after@,
{
    let mut r = before.to_owned();
    r.append(middle);
    r.append(after);
    r
}

/// The lines of text on the overlay; none before there are figures.
pub fn overlay_lines(figures: Option<&OverlayFigures>) -> (r: Vec<TextLine>)
    ensures
        match figures {
            None => r@.len() == 0,
            Some(f) => {
                &&& r@.len() == LINES
                &&& r@.len() == 8
                &&& forall|i: int|
                    0 <= i < r@.len() ==> (#[trigger] r@[i]).x == 8 && r@[i].y == line_top(i)
                        && r@[i].text@ == line_text(*f, i)
            },
        },
{
    let mut r: Vec<TextLine> = Vec::new();
    if let Some(f) = figures {
        let mut y: i32 = 6;
        r.push(TextLine { x: 8, y, text: "--System Usage--".to_owned() });
        y = y + 20;
        r.push(TextLine { x: 8, y, text: framed("CPU: ", f.cpu_pct.as_str(), "%") });
        y = y + 18;
        r.push(TextLine { x: 8, y, text: framed("RAM: ", f.ram_pct.as_str(), "%") });
        y = y + 18;
        r.push(TextLine { x: 8, y, text: framed("DISK R: ", f.disk_r_mbps.as_str(), " MB/s") });
        y = y + 18;
        r.push(TextLine { x: 8, y, text: framed("DISK W: ", f.disk_w_mbps.as_str(), " MB/s") });
        y = y + 18;
        let mut disk = framed("DISK TOT: ", f.disk_mbps.as_str(), " MB/s (");
        disk.append(f.disk_pct.as_str());
        disk.append(" %)");
        r.push(TextLine { x: 8, y, text: disk });
        y = y + 18;
        let mut net = framed("NET: ", f.net.as_str(), " (");
        net.append(f.net_pct.as_str());
        net.append(" %)");
        r.push(TextLine { x: 8, y, text: net });
        y = y + 20;
        r.push(TextLine { x: 8, y, text: f.net_info.clone() });
    }
    r
}

/// Lines stand in order, at least eighteen rows apart, and start inside the overlay.
pub proof fn lemma_lines_apart(i: int, j: int)
    requires
        0 <= i < j < LINES,
    ensures
        0 <= line_top(i),
        line_top(i) + 18 <= line_top(j),
        line_top(j) + 18 <= OVERLAY_HEIGHT,
{
}

/// A pointer message says where the pointer is: each column and row of sixteen signed bits is read
/// back from it, whatever stands in the bits above.
pub proof fn lemma_pointer_reads_back(x: int, y: int, above: int)
    requires
        -0x8000 <= x < 0x8000,
        -0x8000 <= y < 0x8000,
    ensures
        pointer_x(above * 0x1_0000_0000 + (y % 0x10000) * 0x10000 + x % 0x10000) == x,
        pointer_y(above * 0x1_0000_0000 + (y % 0x10000) * 0x10000 + x % 0x10000) == y,
{
    let l = above * 0x1_0000_0000 + (y % 0x10000) * 0x10000 + x % 0x10000;
    assert(l % 0x10000 == x % 0x10000);
    assert(l / 0x10000 == above * 0x10000 + y % 0x10000);
    assert((l / 0x10000) % 0x10000 == y % 0x10000);
}

/// Different colours have different numbers.
pub proof fn lemma_colors_differ(r1: u8, g1: u8, b1: u8, r2: u8, g2: u8, b2: u8)
    requires
        color_ref(r1, g1, b1) == color_ref(r2, g2, b2),
    ensures
        r1 == r2,
        g1 == g2,
        b1 == b2,
{
}

/// The channels of a colour read back from its number: red from the lowest byte, green from the
/// next, blue from the one above, and nothing stands above that.
pub proof fn lemma_color_reads_back(r: u8, g: u8, b: u8)
    ensures
        color_ref(r, g, b) % 256 == r,
        (color_ref(r, g, b) / 256) % 256 == g,
        color_ref(r, g, b) / 65536 == b,
{
}

/// The overlay is dragged by the square of sixteen rows and columns in its upper left corner and
/// by nothing else, wherever on the screen it stands.
pub proof fn lemma_dragged_by_corner(x: int, y: int, above: int, left: int, top: int)
    requires
        -0x8000 <= x < 0x8000,
        -0x8000 <= y < 0x8000,
    ensures
        ({
            let l = above * 0x1_0000_0000 + (y % 0x10000) * 0x10000 + x % 0x10000;
            &&& hit_of(l, left, top) == Hit::Caption <==> left <= x <= left + 15 && top <= y <= top
                + 15
            &&& hit_of(l, left, top) == Hit::Transparent <==> x < left || left + 16 <= x || y < top
                || top + 16 <= y
        }),
{
    lemma_pointer_reads_back(x, y, above);
}

/// Each message that the overlay answers itself has an answer of its own, and all others are left
/// to the system.
pub proof fn lemma_replies(msg: u32)
    ensures
        reply_to(msg) == Reply::HitTest <==> msg == 0x84,
        reply_to(msg) == Reply::Paint <==> msg == 0x0F,
        reply_to(msg) == Reply::Destroy <==> msg == 0x10,
        reply_to(msg) == Reply::Quit <==> msg == 0x02,
        reply_to(msg) == Reply::Default <==> msg != 0x84 && msg != 0x0F && msg != 0x10 && msg
            != 0x02,
{
}

/// The heading stands six rows down, the line after it and the last line twenty rows below the one
/// before, and every other line eighteen.
pub proof fn lemma_line_steps(i: int)
    requires
        0 <= i < 7,
    ensures
        line_top(0) == 6,
        i == 0 || i == 6 ==> line_top(i + 1) - line_top(i) == 20,
        0 < i < 6 ==> line_top(i + 1) - line_top(i) == 18,
{
}

/// Every line says its own figure, framed by what names it, whatever the other figures are.
pub proof fn lemma_lines_say_figures(f: OverlayFigures)
    ensures
        line_text(f, 0) == "--System Usage--"@,
        line_text(f, 1) == seq!['C', 'P', 'U', ':', ' '] + f.cpu_pct@ + seq!['%'],
        line_text(f, 2) == seq!['R', 'A', 'M', ':', ' '] + f.ram_pct@ + seq!['%'],
        line_text(f, 3) == seq!['D', 'I', 'S', 'K', ' ', 'R', ':', ' '] + f.disk_r_mbps@ + seq![
            ' ',
            'M',
            'B',
            '/',
            's',
        ],
        line_text(f, 4) == seq!['D', 'I', 'S', 'K', ' ', 'W', ':', ' '] + f.disk_w_mbps@ + seq![
            ' ',
            'M',
            'B',
            '/',
            's',
        ],
        line_text(f, 5) == seq!['D', 'I', 'S', 'K', ' ', 'T', 'O', 'T', ':', ' '] + f.disk_mbps@
            + seq![' ', 'M', 'B', '/', 's', ' ', '('] + f.disk_pct@ + seq![' ', '%', ')'],
        line_text(f, 6) == seq!['N', 'E', 'T', ':', ' '] + f.net@ + seq![' ', '('] + f.net_pct@
            + seq![' ', '%', ')'],
        line_text(f, 7) == f.net_info@,
{
    reveal_strlit("CPU: ");
    reveal_strlit("RAM: ");
    reveal_strlit("%");
    reveal_strlit("DISK R: ");
    reveal_strlit("DISK W: ");
    reveal_strlit(" MB/s");
    reveal_strlit("DISK TOT: ");
    reveal_strlit(" MB/s (");
    reveal_strlit("NET: ");
    reveal_strlit(" (");
    reveal_strlit(" %)");
}

} // verus!
