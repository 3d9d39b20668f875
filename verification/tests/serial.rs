use crmonitor::panel::SerialCfg;
use crmonitor::serial::{get_primary_ip, serial_line, serial_step, SerialStep, BAUD};

fn cfg(enabled: bool, port: &str) -> SerialCfg {
    SerialCfg { enabled, port: port.to_string() }
}

fn step(close: bool, open: bool, send: bool) -> SerialStep {
    SerialStep { close, open, send }
}

#[test]
fn a_line_that_is_off_has_no_port() {
    let open = "COM1".to_string();
    assert_eq!(serial_step(&cfg(false, "COM1"), None), step(false, false, false));
    assert_eq!(serial_step(&cfg(false, "COM1"), Some(&open)), step(true, false, false));
}

#[test]
fn the_configured_port_is_opened_and_kept() {
    let open = "COM1".to_string();
    assert_eq!(serial_step(&cfg(true, "COM1"), None), step(false, true, true));
    assert_eq!(serial_step(&cfg(true, "COM1"), Some(&open)), step(false, false, true));
}

#[test]
fn another_port_is_replaced() {
    let open = "COM1".to_string();
    let unnamed = String::new();
    assert_eq!(serial_step(&cfg(true, "COM2"), Some(&open)), step(true, true, true));
    assert_eq!(serial_step(&cfg(true, "COM2"), Some(&unnamed)), step(true, true, true));
}

#[test]
fn the_line() {
    let line = serial_line(12, -3, "1.50 MB/s", "0 B/s", "2.0 KB/s", "10.0.0.7");
    assert_eq!(line, "12,-3,1.50 MB/s,0 B/s,2.0 KB/s,10.0.0.7\n");
}

#[test]
fn the_fields_of_the_line_read_back() {
    let line = serial_line(0, 100, "a", "b", "c", "0.0.0.0");
    let fields: Vec<&str> = line.trim_end().split(',').collect();
    assert_eq!(fields, vec!["0", "100", "a", "b", "c", "0.0.0.0"]);
}

#[test]
fn the_address() {
    assert_eq!(get_primary_ip(Some("10.0.0.7".to_string())), "10.0.0.7");
    assert_eq!(get_primary_ip(None), "0.0.0.0");
    assert_eq!(BAUD, 115200);
}

#[test]
fn what_is_sent_is_one_line() {
    let line = serial_line(0, 0, "NaN B/s", "inf GB/s", "0 B/s", "fe80::1");
    assert_eq!(line.matches(',').count(), 5);
    assert_eq!(line.matches('\n').count(), 1);
    assert!(line.ends_with('\n'));
    assert!(line.trim_end().split(',').all(|field| !field.is_empty()));
}
