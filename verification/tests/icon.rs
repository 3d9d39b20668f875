use crmonitor::icon::{
    bar_height, blank_icon, clamp_pct, icon_size, inner_height, make_icon_bars, Bar,
};
use crmonitor::reading::Reading;

fn num(x: f64) -> Reading {
    Reading { bits: x.to_bits() }
}

fn pixel(bytes: &[u8], w: usize, x: usize, y: usize) -> [u8; 4] {
    let i = (y * w + x) * 4;
    [bytes[i], bytes[i + 1], bytes[i + 2], bytes[i + 3]]
}

const RED: [u8; 4] = [255, 1, 2, 255];
const BLUE: [u8; 4] = [3, 4, 250, 255];
const CLEAR: [u8; 4] = [0, 0, 0, 0];

#[test]
fn icon_size_is_read_from_the_setting() {
    assert_eq!(icon_size(None), (24, 24));
    assert_eq!(icon_size(Some("32")), (32, 32));
    assert_eq!(icon_size(Some("+16")), (16, 16));
    assert_eq!(icon_size(Some("0")), (0, 0));
    assert_eq!(icon_size(Some("4294967295")), (u32::MAX, u32::MAX));
}

#[test]
fn an_unreadable_size_is_the_usual_one() {
    for s in ["", "+", "-1", " 32", "32 ", "3x", "4294967296", "99999999999999999999999"] {
        assert_eq!(icon_size(Some(s)), (24, 24), "{:?}", s);
    }
}

#[test]
fn a_blank_icon_is_all_zero() {
    assert_eq!(blank_icon(3, 5), vec![0u8; 60]);
    assert_eq!(blank_icon(0, 5), Vec::<u8>::new());
}

#[test]
fn percentages_are_brought_into_range() {
    assert_eq!(clamp_pct(num(50.0)), num(50.0));
    assert_eq!(clamp_pct(num(-3.0)), num(0.0));
    assert_eq!(clamp_pct(num(101.0)), num(100.0));
    assert_eq!(clamp_pct(num(f64::INFINITY)), num(0.0));
    assert_eq!(clamp_pct(num(f64::NAN)), num(0.0));
}

#[test]
fn heights_of_bars() {
    assert_eq!(inner_height(24), 20);
    assert_eq!(inner_height(3), 0);
    assert_eq!(bar_height(20, num(50.0), 10), 10);
    assert_eq!(bar_height(20, num(0.1), 0), 1);
    assert_eq!(bar_height(20, num(0.0), 0), 0);
    assert_eq!(bar_height(20, num(99.5), 19), 20);
    assert_eq!(bar_height(20, num(99.4), 19), 19);
    assert_eq!(bar_height(0, num(80.0), 0), 0);
    assert_eq!(bar_height(4, num(50.0), 6), 4);
}

#[test]
fn bars_stand_side_by_side() {
    let v1 = Bar { pct: num(100.0), share: 20, color: RED };
    let v2 = Bar { pct: num(25.0), share: 5, color: BLUE };
    let bytes = make_icon_bars(24, 24, v1, v2);
    assert_eq!(bytes.len(), 24 * 24 * 4);
    for y in 0..24usize {
        for x in 0..24usize {
            let want = if (2..11).contains(&x) && (2..22).contains(&y) {
                RED
            } else if (13..22).contains(&x) && (17..22).contains(&y) {
                BLUE
            } else {
                CLEAR
            };
            assert_eq!(pixel(&bytes, 24, x, y), want, "({}, {})", x, y);
        }
    }
}

#[test]
fn bars_on_an_icon_that_is_not_square() {
    let v1 = Bar { pct: num(10.0), share: 1, color: RED };
    let v2 = Bar { pct: num(200.0), share: 8, color: BLUE };
    let bytes = make_icon_bars(10, 12, v1, v2);
    assert_eq!(pixel(&bytes, 10, 2, 9), RED);
    assert_eq!(pixel(&bytes, 10, 3, 9), RED);
    assert_eq!(pixel(&bytes, 10, 4, 9), CLEAR);
    assert_eq!(pixel(&bytes, 10, 2, 8), CLEAR);
    assert_eq!(pixel(&bytes, 10, 6, 2), BLUE);
    assert_eq!(pixel(&bytes, 10, 7, 9), BLUE);
    assert_eq!(pixel(&bytes, 10, 6, 1), CLEAR);
    assert_eq!(pixel(&bytes, 10, 6, 10), CLEAR);
}

#[test]
fn tiny_icons_are_cut_off() {
    let full = Bar { pct: num(100.0), share: 9, color: RED };
    assert_eq!(make_icon_bars(2, 6, full, full), vec![0u8; 48]);
    let bytes = make_icon_bars(3, 6, full, full);
    assert_eq!(pixel(&bytes, 3, 2, 3), RED);
    assert_eq!(pixel(&bytes, 3, 1, 3), CLEAR);
    assert_eq!(make_icon_bars(24, 1, full, full), vec![0u8; 96]);
    assert_eq!(make_icon_bars(0, 0, full, full), Vec::<u8>::new());
}

#[test]
fn a_percentage_that_is_no_number_draws_nothing() {
    let v = Bar { pct: num(f64::NAN), share: 7, color: RED };
    assert_eq!(make_icon_bars(16, 16, v, v), vec![0u8; 1024]);
}

#[test]
fn bars_never_shrink_as_percentages_grow() {
    let mut before = vec![0u8; 24 * 24 * 4];
    for step in 0..=200u32 {
        let pct = step as f64 / 2.0;
        let share = (20.0 * (pct / 100.0)).round() as u32;
        let bar = Bar { pct: num(pct), share, color: RED };
        let bytes = make_icon_bars(24, 24, bar, bar);
        for i in (3..bytes.len()).step_by(4) {
            assert!(before[i] == 0 || bytes[i] != 0, "{}", pct);
        }
        before = bytes;
    }
}

#[test]
fn margins_stay_clear_whatever_the_share() {
    let v = Bar { pct: num(50.0), share: 6, color: RED };
    let bytes = make_icon_bars(8, 8, v, v);
    for x in 0..8usize {
        for y in [0usize, 1, 6, 7] {
            assert_eq!(pixel(&bytes, 8, x, y), CLEAR);
        }
    }
    assert_eq!(pixel(&bytes, 8, 2, 2), RED);
}

#[test]
fn heights_agree_with_the_rounded_product() {
    for h in 0..64u32 {
        let inner = inner_height(h);
        for step in 0..=1000u32 {
            let pct = step as f64 / 10.0;
            let share = (inner as f64 * (pct / 100.0)).round() as u32;
            let want = if inner == 0 {
                0
            } else if pct >= 99.5 {
                inner
            } else if pct <= 0.0 {
                0
            } else {
                share.max(1)
            };
            assert_eq!(bar_height(inner, num(pct), share), want);
        }
    }
}

#[test]
fn pixels_are_opaque_or_clear() {
    let v1 = Bar { pct: num(70.0), share: 14, color: RED };
    let v2 = Bar { pct: num(30.0), share: 6, color: BLUE };
    let bytes = make_icon_bars(24, 24, v1, v2);
    for y in 0..24usize {
        for x in 0..24usize {
            let p = pixel(&bytes, 24, x, y);
            assert!(p[3] == 255 || p == CLEAR);
        }
    }
}
