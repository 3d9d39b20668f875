use crmonitor::ramp::{
    color_ramp, color_ramp_disk, lerp_rgb, palette_segment, ramp_position, Palette,
};
use crmonitor::reading::Reading;

fn num(x: f64) -> Reading {
    Reading { bits: x.to_bits() }
}

#[test]
fn processor_palette() {
    let low = color_ramp(num(0.49));
    assert_eq!((low.from, low.to, low.upper), ([0x29, 0xBF, 0x12], [0xF2, 0xCC, 0x0C], false));
    let high = color_ramp(num(0.5));
    assert_eq!((high.from, high.to, high.upper), ([0xF2, 0xCC, 0x0C], [0xEF, 0x23, 0x3C], true));
}

#[test]
fn disk_palette() {
    let low = color_ramp_disk(num(0.0));
    assert_eq!((low.from, low.to, low.upper), ([0x24, 0x7B, 0xFF], [0x73, 0x3A, 0xE6], false));
    let high = color_ramp_disk(num(1.0));
    assert_eq!((high.from, high.to, high.upper), ([0x73, 0x3A, 0xE6], [0xE6, 0x1E, 0x9A], true));
}

#[test]
fn palettes_by_name() {
    for t in [0.0, 0.3, 0.5, 1.0, f64::NAN] {
        assert_eq!(palette_segment(Palette::CpuRam, num(t)), color_ramp(num(t)));
        assert_eq!(palette_segment(Palette::DiskNet, num(t)), color_ramp_disk(num(t)));
    }
}

#[test]
fn halves_meet() {
    assert_eq!(color_ramp(num(0.2)).to, color_ramp(num(0.7)).from);
    assert_eq!(color_ramp_disk(num(0.2)).to, color_ramp_disk(num(0.7)).from);
}

#[test]
fn positions() {
    assert_eq!(ramp_position(num(-0.5)), num(0.0));
    assert_eq!(ramp_position(num(0.25)), num(0.25));
    assert_eq!(ramp_position(num(1.5)), num(1.0));
}

#[test]
fn colors_are_opaque_and_on_the_palette() {
    let low = color_ramp(num(0.0));
    assert_eq!(lerp_rgb(low, [0x29, 0xBF, 0x12]), [0x29, 0xBF, 0x12, 255]);
    assert_eq!(lerp_rgb(low, [0x80, 0xC0, 0x10]), [0x80, 0xC0, 0x10, 255]);
    assert_eq!(lerp_rgb(low, [0, 255, 255]), [0x29, 0xCC, 0x12, 255]);
    assert_eq!(lerp_rgb(low, [255, 0, 0]), [0xF2, 0xBF, 0x0C, 255]);
}

#[test]
fn channels_mixed_in_single_precision_are_kept() {
    for palette in [Palette::CpuRam, Palette::DiskNet] {
        for step in 0..=10_000u32 {
            let t = step as f32 / 10_000.0;
            let segment = palette_segment(palette, num(t as f64));
            let along = if segment.upper { (t - 0.5) * 2.0 } else { t * 2.0 };
            let mix = |a: u8, b: u8| -> u8 {
                ((a as f32) + (b as f32 - a as f32) * along).round().clamp(0.0, 255.0) as u8
            };
            let (a, b) = (segment.from, segment.to);
            let mixed = [mix(a[0], b[0]), mix(a[1], b[1]), mix(a[2], b[2])];
            assert_eq!(lerp_rgb(segment, mixed), [mixed[0], mixed[1], mixed[2], 255]);
        }
    }
}
