use crmonitor::counters::{
    diff_disk, diff_network, disk_total, snapshot_disk, snapshot_network, DiskBytes, DiskCounters, DiskRow,
    InterfaceRow, NetBytes, PerfDisk,
};
use crmonitor::reading::Reading;

fn num(x: f64) -> Reading {
    Reading { bits: x.to_bits() }
}

fn disk(name: &str, read: Option<u64>, write: Option<u64>) -> PerfDisk {
    PerfDisk {
        Name: name.to_string(),
        DiskReadBytesPerSec: read,
        DiskWriteBytesPerSec: write,
    }
}

fn table() -> Option<Vec<InterfaceRow>> {
    Some(vec![
        InterfaceRow { index: 0, in_octets: 1, out_octets: 2 },
        InterfaceRow { index: 7, in_octets: 30, out_octets: 40 },
        InterfaceRow { index: 7, in_octets: 50, out_octets: 60 },
    ])
}

#[test]
fn total_of_no_disks_is_zero() {
    let rows: Vec<PerfDisk> = Vec::new();
    assert_eq!(DiskCounters::new(rows).read_total(), (0, 0));
}

#[test]
fn total_row_is_found_among_others() {
    let rows = vec![
        disk("0 C:", Some(5), Some(6)),
        disk("_Total", Some(100), Some(200)),
        disk("_Total", Some(1), Some(2)),
    ];
    assert_eq!(DiskCounters::new(rows).read_total(), (100, 200));
}

#[test]
fn total_without_counters_is_zero() {
    let rows = vec![disk("_Total", None, Some(9))];
    assert_eq!(DiskCounters::new(rows).read_total(), (0, 9));
    let rows = vec![disk("Total", Some(1), Some(9))];
    assert_eq!(DiskCounters::new(rows).read_total(), (0, 0));
}

#[test]
fn interface_counters_come_from_its_first_row() {
    assert_eq!(snapshot_network(7, &table()), NetBytes { rx: 30, tx: 40 });
}

#[test]
fn interface_zero_and_missing_ones_count_nothing() {
    assert_eq!(snapshot_network(0, &table()), NetBytes { rx: 0, tx: 0 });
    assert_eq!(snapshot_network(8, &table()), NetBytes { rx: 0, tx: 0 });
    assert_eq!(snapshot_network(7, &None), NetBytes::default());
}

#[test]
fn sectors_are_added_up() {
    let rows = vec![
        DiskRow { read_sectors: Some(2), write_sectors: Some(1) },
        DiskRow { read_sectors: Some(3), write_sectors: None },
    ];
    assert_eq!(snapshot_disk(&rows), DiskBytes { read: 2560, write: 512 });
    assert_eq!(snapshot_disk(&vec![]), DiskBytes::default());
}

#[test]
fn sums_of_sectors_are_cut_off() {
    let many = u64::MAX / 512;
    let rows = vec![
        DiskRow { read_sectors: Some(many), write_sectors: Some(0) },
        DiskRow { read_sectors: Some(many), write_sectors: Some(0) },
    ];
    assert_eq!(snapshot_disk(&rows), DiskBytes { read: u64::MAX, write: 0 });
}

#[test]
fn network_growth() {
    let a = NetBytes { rx: 100, tx: 500 };
    let b = NetBytes { rx: 150, tx: 400 };
    assert_eq!(diff_network(a, b, num(1.0)), (Some((50, 0)), b));
    assert_eq!(diff_network(a, b, num(0.0)), (None, b));
    assert_eq!(diff_network(a, b, num(f64::NAN)), (None, b));
    assert_eq!(diff_network(a, b, num(-1.0)), (None, b));
}

#[test]
fn disk_growth() {
    let a = DiskBytes { read: 10, write: 20 };
    let b = DiskBytes { read: 5, write: 27 };
    assert_eq!(diff_disk(a, b, num(0.001)), (Some((0, 7)), b));
    assert_eq!(diff_disk(a, b, num(-0.0)), (None, b));
}

#[test]
fn growth_adds_up_over_two_rounds() {
    let states = [
        NetBytes { rx: 1, tx: 2 },
        NetBytes { rx: 11, tx: 2 },
        NetBytes { rx: 31, tx: 9 },
    ];
    let one = num(1.0);
    let first = diff_network(states[0], states[1], one).0.unwrap();
    let second = diff_network(states[1], states[2], one).0.unwrap();
    let both = diff_network(states[0], states[2], one).0.unwrap();
    assert_eq!((first.0 + second.0, first.1 + second.1), both);
}

#[test]
fn a_query_without_answer_counts_as_no_throughput() {
    assert_eq!(disk_total(Some((3, 4))), (3, 4));
    assert_eq!(disk_total(None), (0, 0));
}
