use crmonitor::counters::{DiskBytes, NetBytes};
use crmonitor::metrics::{
    bars_for, cpu_ram_tooltip, disk_net_tooltip, figure_formats, Metrics, Mode, NumberFormat,
};
use crmonitor::monitor::{
    bound_share, interval, memory_fraction, quiet_rates, Monitor, MonitorCmd, Rates, Scales,
    Traffic,
};
use crmonitor::ramp::Palette;
use crmonitor::reading::Reading;
use crmonitor::speed::{SpeedFormat, SpeedUnit};

fn num(x: f64) -> Reading {
    Reading { bits: x.to_bits() }
}

fn net(rx: u64, tx: u64) -> NetBytes {
    NetBytes { rx, tx }
}

fn disk(read: u64, write: u64) -> DiskBytes {
    DiskBytes { read, write }
}

fn rates(r: f64, w: f64, total: f64, net: f64) -> Rates {
    Rates {
        disk_r_mbps: num(r),
        disk_w_mbps: num(w),
        disk_mbps: num(total),
        net_kbps: num(net),
    }
}

fn started() -> Monitor {
    Monitor::start((4, "home".to_string()), net(100, 200), disk(10, 20), 1000, 1000)
}

#[test]
fn traffic_of_a_round() {
    let mut m = started();
    assert_eq!(m.clock(2_000_001_000), 2_000_000_000);
    let traffic = m.count(net(150, 200), disk(5, 50), num(2.0));
    assert_eq!(traffic, Traffic { net: Some((50, 0)), disk: Some((0, 30)) });
    assert_eq!(m.prev_net, net(150, 200));
    assert_eq!(m.prev_disk, disk(5, 50));
    assert_eq!(m.clock(5), 0);
}

#[test]
fn a_command_rebases_the_counters() {
    let mut m = started();
    assert_eq!(m.begin(None), None);
    assert_eq!(m.begin(Some(MonitorCmd::ResetDiffs)), Some(4));
    m.scales(&rates(0.0, 0.0, 9.0, 90.0), &Scales { disk: num(8.0), net: num(80.0) });
    m.rebase(net(7, 8), disk(9, 10), 77);
    assert_eq!((m.prev_net, m.prev_disk, m.last), (net(7, 8), disk(9, 10), 77));
    assert_eq!((m.max_disk_mbps.val, m.max_net_kbps.val), (num(0.0), num(0.0)));
    let traffic = m.count(net(7, 8), disk(9, 10), interval(num(0.0)));
    assert_eq!(traffic, Traffic { net: Some((0, 0)), disk: Some((0, 0)) });
}

#[test]
fn a_round_lasts_at_least_a_millisecond() {
    assert_eq!(interval(num(0.0)), num(0.001));
    assert_eq!(interval(num(1.25)), num(1.25));
    assert_eq!(interval(num(f64::NAN)), num(0.001));
}

#[test]
fn noise_is_taken_out() {
    let quiet = quiet_rates(rates(0.0009, 0.001, -1.0, 0.09));
    assert_eq!(quiet, rates(0.0, 0.001, 0.0, 0.0));
    let kept = rates(f64::INFINITY, 2.0, 0.0011, 0.1);
    assert_eq!(quiet_rates(kept), kept);
    assert_eq!(quiet_rates(quiet), quiet);
}

#[test]
fn scales_have_floors() {
    let mut m = started();
    let idle = rates(0.0, 0.0, 0.0, 0.0);
    assert_eq!(m.peaks(&idle), Scales { disk: num(0.25), net: num(4.0) });
    let faded = Scales { disk: num(0.25 * 0.985), net: num(4.0 * 0.985) };
    assert_eq!(m.scales(&idle, &faded), Scales { disk: num(0.25), net: num(4.0) });
    let busy = rates(1.0, 1.0, 2.0, 500.0);
    assert_eq!(m.peaks(&busy), Scales { disk: num(2.0), net: num(500.0) });
    let faded = Scales { disk: num(1.97), net: num(492.5) };
    assert_eq!(m.scales(&busy, &faded), Scales { disk: num(2.0), net: num(500.0) });
    assert_eq!(m.max_disk_mbps.val, num(2.0));
    assert_eq!(m.peaks(&idle), Scales { disk: num(2.0), net: num(500.0) });
}

#[test]
fn the_network_is_asked_for_after_a_minute() {
    let m = started();
    assert!(!m.profile_due(1000));
    assert!(!m.profile_due(60_000_001_000));
    assert!(m.profile_due(60_000_001_001));
    assert!(!m.profile_due(0));
}

#[test]
fn a_new_interface_is_counted_anew() {
    let mut m = started();
    assert_eq!(m.take_profile((4, "same".to_string()), 5), None);
    assert_eq!((m.net_info.as_str(), m.last_net_info_check), ("same", 5));
    assert_eq!(m.take_profile((9, "other".to_string()), 6), Some(9));
    assert_eq!(m.active_if_index, 9);
    m.rebase_net(net(1, 2));
    assert_eq!(m.prev_net, net(1, 2));
    assert_eq!(m.prev_disk, disk(10, 20));
}

#[test]
fn a_report_holds_the_round() {
    let m = started();
    let r = m.report(num(12.5), num(60.0), &rates(1.0, 2.0, 3.0, 4.0), num(150.0), num(-1.0));
    assert_eq!((r.cpu_pct, r.ram_pct), (num(12.5), num(60.0)));
    assert_eq!((r.disk_r_mbps, r.disk_w_mbps), (num(1.0), num(2.0)));
    assert_eq!((r.disk_mbps, r.net_kbps), (num(3.0), num(4.0)));
    assert_eq!((r.disk_pct, r.net_pct), (num(100.0), num(0.0)));
    assert_eq!(r.net_info, "home");
    assert_eq!(bound_share(num(33.0)), num(33.0));
}

#[test]
fn memory_is_divided_only_where_there_is_some() {
    assert_eq!(memory_fraction(3, 4), Some((3, 4)));
    assert_eq!(memory_fraction(0, 0), None);
}

#[test]
fn the_mode_chooses_the_bars() {
    let mut m = Metrics::default();
    assert_eq!(m.net_info, "");
    m.cpu_pct = num(1.0);
    m.ram_pct = num(2.0);
    m.disk_pct = num(3.0);
    m.net_pct = num(4.0);
    assert_eq!(bars_for(Mode::CpuRam, &m), (num(1.0), num(2.0), Palette::CpuRam));
    assert_eq!(bars_for(Mode::DiskNet, &m), (num(3.0), num(4.0), Palette::DiskNet));
}

#[test]
fn tooltips() {
    assert_eq!(cpu_ram_tooltip("12.5", "60.0"), "CPU: 12.5% | RAM: 60.0%");
    assert_eq!(
        disk_net_tooltip("1.00", "2.00", "30", "4 KB/s", "5"),
        "Disk R/W: 1.00/2.00 MB/s (30%) | Net: 4 KB/s (5%)"
    );
}

#[test]
fn figures_have_their_decimals() {
    let mut m = Metrics::default();
    m.cpu_pct = num(1.0);
    m.ram_pct = num(2.0);
    m.disk_r_mbps = num(3.0);
    m.disk_w_mbps = num(4.0);
    m.disk_mbps = num(5.0);
    m.disk_pct = num(6.0);
    m.net_kbps = num(2048.0);
    m.net_pct = num(7.0);
    let f = figure_formats(&m);
    assert_eq!(f.cpu_pct, NumberFormat { value: num(1.0), decimals: 1 });
    assert_eq!(f.ram_pct, NumberFormat { value: num(2.0), decimals: 1 });
    assert_eq!(f.disk_r_mbps, NumberFormat { value: num(3.0), decimals: 2 });
    assert_eq!(f.disk_w_mbps, NumberFormat { value: num(4.0), decimals: 2 });
    assert_eq!(f.disk_mbps, NumberFormat { value: num(5.0), decimals: 2 });
    assert_eq!(f.disk_pct, NumberFormat { value: num(6.0), decimals: 0 });
    assert_eq!(f.net_pct, NumberFormat { value: num(7.0), decimals: 0 });
    assert_eq!(f.net_kbps, num(2048.0));
    assert_eq!(f.net, SpeedFormat { divisor: 1024, decimals: 1, unit: SpeedUnit::Mega });
}

#[test]
fn shares_stay_under_what_the_floors_allow() {
    let mut m = started();
    let idle = rates(0.05, 0.05, 0.1, 1.0);
    let faded = Scales { disk: num(0.2), net: num(3.0) };
    let scales = m.scales(&idle, &faded);
    let share = |rate: f64, scale: Reading| num(rate / f64::from_bits(scale.bits) * 100.0);
    let r = m.report(num(0.0), num(0.0), &idle, share(0.1, scales.disk), share(1.0, scales.net));
    assert_eq!(r.disk_pct, num(0.1 / 0.25 * 100.0));
    assert_eq!(r.net_pct, num(25.0));
}

#[test]
fn the_first_scale_is_the_larger_of_rate_and_floor() {
    let mut m = started();
    for (disk_rate, net_rate) in [(0.0, 1000.0), (7.5, 0.0), (0.25, 4.0)] {
        m.rebase(net(0, 0), disk(0, 0), 0);
        let r = rates(0.0, 0.0, disk_rate, net_rate);
        let peaks = m.peaks(&r);
        assert_eq!(peaks, Scales { disk: num(disk_rate.max(0.25)), net: num(net_rate.max(4.0)) });
        let fade = |p: Reading| num(f64::from_bits(p.bits) * 0.985);
        let faded = Scales { disk: fade(peaks.disk), net: fade(peaks.net) };
        assert_eq!(m.scales(&r, &faded), peaks);
    }
}
