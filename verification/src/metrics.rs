//! What one round of measurement found.
use crate::overlay::OverlayFigures;
use crate::ramp::Palette;
use crate::reading::{Reading, ZERO};
use crate::speed::{auto_format, format_speed_auto, SpeedFormat};
use vstd::prelude::*;
use vstd::string::StringExecFns;

verus! {

/// Which pair of quantities the tray icon shows.
#[derive(Clone, Copy, Debug, PartialEq, Eq, Structural)]
pub enum Mode {
    /// Processor and memory.
    CpuRam,
    /// Disk and network.
    DiskNet,
}

/// The figures that the icon, the overlay and the serial line show.
#[derive(Clone, Debug)]
pub struct Metrics {
    /// Load of the processor, in percent.
    pub cpu_pct: Reading,
    /// Memory in use, in percent.
    pub ram_pct: Reading,
    /// Megabytes read from disk in a second.
    pub disk_r_mbps: Reading,
    /// Megabytes written to disk in a second.
    pub disk_w_mbps: Reading,
    /// Megabytes read and written in a second.
    pub disk_mbps: Reading,
    /// Kilobytes received and sent in a second.
    pub net_kbps: Reading,
    /// Disk throughput, in percent of its scale.
    pub disk_pct: Reading,
    /// Network throughput, in percent of its scale.
    pub net_pct: Reading,
    /// The connected network.
    pub net_info: String,
}

impl Default for Metrics {
    fn default() -> (r: Metrics)
        ensures
            r.cpu_pct.bits == 0,
            r.ram_pct.bits == 0,
            r.disk_r_mbps.bits == 0,
            r.disk_w_mbps.bits == 0,
            r.disk_mbps.bits == 0,
            r.net_kbps.bits == 0,
            r.disk_pct.bits == 0,
            r.net_pct.bits == 0,
            r.net_info@ == Seq::<char>::empty(),
    {
        let zero = Reading { bits: ZERO };
        Metrics {
            cpu_pct: zero,
            ram_pct: zero,
            disk_r_mbps: zero,
            disk_w_mbps: zero,
            disk_mbps: zero,
            net_kbps: zero,
            disk_pct: zero,
            net_pct: zero,
            net_info: String::new(),
        }
    }
}

/// The two percentages that the bars show in a mode, and their colours.
pub open spec fn bars_shown(mode: Mode, m: Metrics) -> (Reading, Reading, Palette) {
    match mode {
        Mode::CpuRam => (m.cpu_pct, m.ram_pct, Palette::CpuRam),
        Mode::DiskNet => (m.disk_pct, m.net_pct, Palette::DiskNet),
    }
}

/// The two percentages that the bars show in a mode, and their colours.
pub fn bars_for(mode: Mode, m: &Metrics) -> (r: (Reading, Reading, Palette))
    ensures
        r == bars_shown(mode, *m),
{
    match mode {
        Mode::CpuRam => (m.cpu_pct, m.ram_pct, Palette::CpuRam),
        Mode::DiskNet => (m.disk_pct, m.net_pct, Palette::DiskNet),
    }
}

/// Decimals of the processor load and of the memory in use.
pub const LOAD_DECIMALS: usize = 1;

/// Decimals of a disk throughput.
pub const RATE_DECIMALS: usize = 2;

/// Decimals of a throughput in percent of its scale.
pub const SHARE_DECIMALS: usize = 0;

/// A number and how many decimals it is written with.
#[derive(Clone, Copy, Debug, PartialEq, Eq, Structural)]
pub struct NumberFormat {
    /// The number.
    pub value: Reading,
    /// Digits after the decimal point.
    pub decimals: usize,
}

/// How each figure is written.
#[derive(Clone, Copy, Debug, PartialEq, Eq, Structural)]
pub struct FigureFormats {
    /// Load of the processor.
    pub cpu_pct: NumberFormat,
    /// Memory in use.
    pub ram_pct: NumberFormat,
    /// Megabytes read in a second.
    pub disk_r_mbps: NumberFormat,
    /// Megabytes written in a second.
    pub disk_w_mbps: NumberFormat,
    /// Megabytes read and written in a second.
    pub disk_mbps: NumberFormat,
    /// Disk throughput in percent of its scale.
    pub disk_pct: NumberFormat,
    /// Kilobytes received and sent in a second.
    pub net_kbps: Reading,
    /// How they are written.
    pub net: SpeedFormat,
    /// Network throughput in percent of its scale.
    pub net_pct: NumberFormat,
}

/// How the figures of a round are written, on the tooltip and on the overlay alike.
pub open spec fn formats_of(m: Metrics) -> FigureFormats {
    FigureFormats {
        cpu_pct: NumberFormat { value: m.cpu_pct, decimals: LOAD_DECIMALS },
        ram_pct: NumberFormat { value: m.ram_pct, decimals: LOAD_DECIMALS },
        disk_r_mbps: NumberFormat { value: m.disk_r_mbps, decimals: RATE_DECIMALS },
        disk_w_mbps: NumberFormat { value: m.disk_w_mbps, decimals: RATE_DECIMALS },
        disk_mbps: NumberFormat { value: m.disk_mbps, decimals: RATE_DECIMALS },
        disk_pct: NumberFormat { value: m.disk_pct, decimals: SHARE_DECIMALS },
        net_kbps: m.net_kbps,
        net: auto_format(m.net_kbps),
        net_pct: NumberFormat { value: m.net_pct, decimals: SHARE_DECIMALS },
    }
}

/// How the figures of a round are written.
pub fn figure_formats(m: &Metrics) -> (r: FigureFormats)
    ensures
        r == formats_of(*m),
{
    FigureFormats {
        cpu_pct: NumberFormat { value: m.cpu_pct, decimals: LOAD_DECIMALS },
        ram_pct: NumberFormat { value: m.ram_pct, decimals: LOAD_DECIMALS },
        disk_r_mbps: NumberFormat { value: m.disk_r_mbps, decimals: RATE_DECIMALS },
        disk_w_mbps: NumberFormat { value: m.disk_w_mbps, decimals: RATE_DECIMALS },
        disk_mbps: NumberFormat { value: m.disk_mbps, decimals: RATE_DECIMALS },
        disk_pct: NumberFormat { value: m.disk_pct, decimals: SHARE_DECIMALS },
        net_kbps: m.net_kbps,
        net: format_speed_auto(m.net_kbps),
        net_pct: NumberFormat { value: m.net_pct, decimals: SHARE_DECIMALS },
    }
}

/// Tooltip of a mode, from the figures as they are written.
pub open spec fn tooltip_of(mode: Mode, f: OverlayFigures) -> Seq<char> {
    match mode {
        Mode::CpuRam => "CPU: "@ + f.cpu_pct@ + "% | RAM: "@ + f.ram_pct@ + "%"@,
        Mode::DiskNet => "Disk R/W: "@ + f.disk_r_mbps@ + "/"@ + f.disk_w_mbps@ + " MB/s ("@
            + f.disk_pct@ + "%) | Net: "@ + f.net@ + " ("@ + f.net_pct@ + "%)"@,
    }
}

/// Tooltip of a mode, from the figures as they are written.
pub fn tooltip(mode: Mode, f: &OverlayFigures) -> (r: String)
    ensures
        r@ == tooltip_of(mode, *f),
{
    match mode {
        Mode::CpuRam => cpu_ram_tooltip(f.cpu_pct.as_str(), f.ram_pct.as_str()),
        Mode::DiskNet => disk_net_tooltip(
            f.disk_r_mbps.as_str(),
            f.disk_w_mbps.as_str(),
            f.disk_pct.as_str(),
            f.net.as_str(),
            f.net_pct.as_str(),
        ),
    }
}

/// Tooltip for processor and memory, from the two percentages as they are written.
pub fn cpu_ram_tooltip(cpu: &str, ram: &str) -> (r: String)
    ensures
        r@ == "CPU: "@ + cpu@ + "% | RAM: "@ + ram@ + "%"@,
{
    let mut r = "CPU: ".to_owned();
    r.append(cpu);
    r.append("% | RAM: ");
    r.append(ram);
    r.append("%");
    r
}

/// Tooltip for disk and network, from the figures as they are written.
pub fn disk_net_tooltip(
    disk_r: &str,
    disk_w: &str,
    disk_pct: &str,
    net: &str,
    net_pct: &str,
) -> (r: String)
    ensures
        r@ == "Disk R/W: "@ + disk_r@ + "/"@ + disk_w@ + " MB/s ("@ + disk_pct@ + "%) | Net: "@
            + net@ + " ("@ + net_pct@ + "%)"@,
{
    let mut r = "Disk R/W: ".to_owned();
    r.append(disk_r);
    r.append("/");
    r.append(disk_w);
    r.append(" MB/s (");
    r.append(disk_pct);
    r.append("%) | Net: ");
    r.append(net);
    r.append(" (");
    r.append(net_pct);
    r.append("%)");
    r
}

/// The bars show the quantities of the mode, each at its own side and as it was measured, in the
/// palette of the mode.
pub proof fn lemma_bars_of_mode(m: Metrics)
    ensures
        bars_shown(Mode::CpuRam, m).0 == m.cpu_pct,
        bars_shown(Mode::CpuRam, m).1 == m.ram_pct,
        bars_shown(Mode::CpuRam, m).2 == Palette::CpuRam,
        bars_shown(Mode::DiskNet, m).0 == m.disk_pct,
        bars_shown(Mode::DiskNet, m).1 == m.net_pct,
        bars_shown(Mode::DiskNet, m).2 == Palette::DiskNet,
{
}

/// Every figure is written as it was measured: load and memory to one decimal, disk throughputs to
/// two, percentages of a scale to none, and the network throughput in the unit that it fills.
pub proof fn lemma_figures_as_measured(m: Metrics)
    ensures
        ({
            let f = formats_of(m);
            &&& f.cpu_pct.value == m.cpu_pct && f.cpu_pct.decimals == 1
            &&& f.ram_pct.value == m.ram_pct && f.ram_pct.decimals == 1
            &&& f.disk_r_mbps.value == m.disk_r_mbps && f.disk_r_mbps.decimals == 2
            &&& f.disk_w_mbps.value == m.disk_w_mbps && f.disk_w_mbps.decimals == 2
            &&& f.disk_mbps.value == m.disk_mbps && f.disk_mbps.decimals == 2
            &&& f.disk_pct.value == m.disk_pct && f.disk_pct.decimals == 0
            &&& f.net_pct.value == m.net_pct && f.net_pct.decimals == 0
            &&& f.net_kbps == m.net_kbps && f.net == auto_format(m.net_kbps)
        }),
{
}

/// The tooltip for processor and memory says both percentages, in this order, whatever the other
/// figures are.
pub proof fn lemma_cpu_ram_tooltip(f: OverlayFigures)
    ensures
        tooltip_of(Mode::CpuRam, f) == seq!['C', 'P', 'U', ':', ' '] + f.cpu_pct@ + seq![
            '%',
            ' ',
            '|',
            ' ',
            'R',
            'A',
            'M',
            ':',
            ' ',
        ] + f.ram_pct@ + seq!['%'],
{
    reveal_strlit("CPU: ");
    reveal_strlit("% | RAM: ");
    reveal_strlit("%");
}

/// The tooltip for disk and network says what is read and written, the disk's percentage, the
/// network's throughput and its percentage, in this order, whatever the other figures are.
pub proof fn lemma_disk_net_tooltip(f: OverlayFigures)
    ensures
        tooltip_of(Mode::DiskNet, f) == seq!['D', 'i', 's', 'k', ' ', 'R', '/', 'W', ':', ' ']
            + f.disk_r_mbps@ + seq!['/'] + f.disk_w_mbps@ + seq![
            ' ',
            'M',
            'B',
            '/',
            's',
            ' ',
            '(',
        ] + f.disk_pct@ + seq!['%', ')', ' ', '|', ' ', 'N', 'e', 't', ':', ' '] + f.net@ + seq![
            ' ',
            '(',
        ] + f.net_pct@ + seq!['%', ')'],
{
    reveal_strlit("Disk R/W: ");
    reveal_strlit("/");
    reveal_strlit(" MB/s (");
    reveal_strlit("%) | Net: ");
    reveal_strlit(" (");
    reveal_strlit("%)");
}

} // verus!
