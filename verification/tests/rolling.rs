use crmonitor::reading::Reading;
use crmonitor::rolling::RollingMax;

fn num(x: f64) -> Reading {
    Reading { bits: x.to_bits() }
}

fn feed(max: &mut RollingMax, current: f64) -> f64 {
    let peak = f64::from_bits(max.peak(num(current)).bits);
    f64::from_bits(max.update(num(current), num(peak * 0.985)).bits)
}

#[test]
fn a_new_scale_is_zero() {
    assert_eq!(RollingMax::default().val, num(0.0));
}

#[test]
fn a_peak_is_taken_at_once_and_fades() {
    let mut max = RollingMax::default();
    assert_eq!(feed(&mut max, 10.0), 10.0);
    assert_eq!(feed(&mut max, 1.0), 10.0 * 0.985);
    assert_eq!(feed(&mut max, 1.0), 10.0 * 0.985 * 0.985);
    assert_eq!(feed(&mut max, 20.0), 20.0);
    assert_eq!(max.val, num(20.0));
}

#[test]
fn a_vanishing_scale_becomes_one() {
    let mut max = RollingMax::default();
    assert_eq!(feed(&mut max, 0.0), 1.0);
    let mut max = RollingMax::default();
    assert_eq!(feed(&mut max, 1e-6), 1.0);
    let mut max = RollingMax::default();
    assert_eq!(feed(&mut max, 2e-6), 2e-6);
}

#[test]
fn the_scale_covers_every_reading() {
    let mut max = RollingMax::default();
    for x in [3.0, 0.5, 4.0, 3.99, 0.0, 12.5, 12.4] {
        let scale = feed(&mut max, x);
        assert!(scale >= x && scale > 0.0);
    }
}
