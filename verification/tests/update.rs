use crmonitor::icon::{make_icon_bars, Bar};
use crmonitor::metrics::{tooltip, Metrics, Mode};
use crmonitor::overlay::OverlayFigures;
use crmonitor::reading::Reading;
use crmonitor::update::{update_event, AppEvent, BarLook};

fn num(x: f64) -> Reading {
    Reading { bits: x.to_bits() }
}

fn metrics() -> Metrics {
    let mut m = Metrics::default();
    m.cpu_pct = num(50.0);
    m.ram_pct = num(25.0);
    m.disk_pct = num(100.0);
    m.net_pct = num(0.0);
    m
}

fn figures() -> OverlayFigures {
    OverlayFigures {
        cpu_pct: "50.0".to_string(),
        ram_pct: "25.0".to_string(),
        disk_r_mbps: "1.00".to_string(),
        disk_w_mbps: "2.00".to_string(),
        disk_mbps: "3.00".to_string(),
        disk_pct: "100".to_string(),
        net: "0 KB/s".to_string(),
        net_pct: "0".to_string(),
        net_info: "Home".to_string(),
    }
}

fn first() -> BarLook {
    BarLook { share: 10, position: num(0.5), mixed: [0xF0, 0x80, 0x20] }
}

fn second() -> BarLook {
    BarLook { share: 5, position: num(0.25), mixed: [0x60, 0x50, 0xF0] }
}

fn bars(v1: f64, c1: [u8; 4], v2: f64, c2: [u8; 4]) -> Vec<u8> {
    make_icon_bars(
        24,
        20,
        Bar { pct: num(v1), share: 10, color: c1 },
        Bar { pct: num(v2), share: 5, color: c2 },
    )
}

#[test]
fn processor_and_memory_are_shown() {
    let AppEvent::Update { tooltip, rgba, w, h } =
        update_event(24, 20, Mode::CpuRam, &metrics(), &figures(), first(), second());
    assert_eq!(tooltip, "CPU: 50.0% | RAM: 25.0%");
    let want = bars(50.0, [0xF0, 0x80, 0x20, 255], 25.0, [0x60, 0xBF, 0x12, 255]);
    assert_eq!(rgba, want);
    assert_eq!((w, h), (24, 20));
}

#[test]
fn disk_and_network_are_shown() {
    let AppEvent::Update { tooltip, rgba, w, h } =
        update_event(24, 20, Mode::DiskNet, &metrics(), &figures(), first(), second());
    assert_eq!(tooltip, "Disk R/W: 1.00/2.00 MB/s (100%) | Net: 0 KB/s (0%)");
    let want = bars(100.0, [0xE6, 0x3A, 0x9A, 255], 0.0, [0x60, 0x50, 0xF0, 255]);
    assert_eq!(rgba, want);
    assert_eq!((w, h), (24, 20));
}

#[test]
fn tooltips_by_mode() {
    assert_eq!(tooltip(Mode::CpuRam, &figures()), "CPU: 50.0% | RAM: 25.0%");
    assert_ne!(tooltip(Mode::DiskNet, &figures()), tooltip(Mode::CpuRam, &figures()));
}
