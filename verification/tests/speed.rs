use crmonitor::reading::Reading;
use crmonitor::speed::{format_speed_auto, format_speed_bytes, speed_text, SpeedFormat, SpeedUnit};

fn num(x: f64) -> Reading {
    Reading { bits: x.to_bits() }
}

fn form(divisor: u64, decimals: usize, unit: SpeedUnit) -> SpeedFormat {
    SpeedFormat { divisor, decimals, unit }
}

#[test]
fn kilobytes() {
    assert_eq!(format_speed_auto(num(0.0)), form(1, 0, SpeedUnit::Kilo));
    assert_eq!(format_speed_auto(num(1023.9)), form(1, 0, SpeedUnit::Kilo));
    assert_eq!(format_speed_auto(num(1024.0)), form(1024, 1, SpeedUnit::Mega));
    assert_eq!(format_speed_auto(num(1048575.9)), form(1024, 1, SpeedUnit::Mega));
    assert_eq!(format_speed_auto(num(1048576.0)), form(1048576, 1, SpeedUnit::Giga));
    assert_eq!(format_speed_auto(num(f64::NAN)), form(1048576, 1, SpeedUnit::Giga));
}

#[test]
fn bytes() {
    assert_eq!(format_speed_bytes(num(1023.0)), form(1, 0, SpeedUnit::Bytes));
    assert_eq!(format_speed_bytes(num(1024.0)), form(1024, 1, SpeedUnit::Kilo));
    assert_eq!(format_speed_bytes(num(1048576.0)), form(1048576, 2, SpeedUnit::Mega));
    assert_eq!(format_speed_bytes(num(1073741824.0)), form(1073741824, 2, SpeedUnit::Giga));
    assert_eq!(format_speed_bytes(num(f64::NAN)), form(1, 0, SpeedUnit::Bytes));
}

#[test]
fn texts_of_speeds() {
    assert_eq!(speed_text("12", SpeedUnit::Bytes), "12 B/s");
    assert_eq!(speed_text("1.5", SpeedUnit::Kilo), "1.5 KB/s");
    assert_eq!(speed_text("1.50", SpeedUnit::Mega), "1.50 MB/s");
    assert_eq!(speed_text("2.00", SpeedUnit::Giga), "2.00 GB/s");
}
