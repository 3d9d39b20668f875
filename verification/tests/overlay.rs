use crmonitor::overlay::{
    color_key, ends_loop, first_position, ground_steps, hit_test, kept_position, line_color,
    overlay_lines, pointer_position, rgb, window_reply, Area, Hit, OverlayFigures, PaintStep,
    Reply, WindowPosition,
};

fn figures() -> OverlayFigures {
    OverlayFigures {
        cpu_pct: "1.0".to_string(),
        ram_pct: "2.0".to_string(),
        disk_r_mbps: "3.00".to_string(),
        disk_w_mbps: "4.00".to_string(),
        disk_mbps: "7.00".to_string(),
        disk_pct: "50".to_string(),
        net: "8 KB/s".to_string(),
        net_pct: "9".to_string(),
        net_info: "Home".to_string(),
    }
}

#[test]
fn colors() {
    assert_eq!(rgb(1, 2, 3), 0x030201);
    assert_eq!(rgb(255, 255, 255), 0xFFFFFF);
    assert_eq!(color_key(), 0xFF00FF);
    assert_eq!(line_color(), 0xFFFFFF);
}

#[test]
fn colors_differ() {
    assert_ne!(rgb(1, 0, 0), rgb(0, 1, 0));
    assert_ne!(rgb(0, 1, 0), rgb(0, 0, 1));
}

#[test]
fn pointer_positions() {
    assert_eq!(pointer_position(0x0005_0003), (3, 5));
    assert_eq!(pointer_position(0xFFFF_FFFE), (-2, -1));
    assert_eq!(pointer_position(-1), (-1, -1));
    assert_eq!(pointer_position(0x7FFF_8000), (-32768, 32767));
    assert_eq!(pointer_position(0x1234_0001_0002), (2, 1));
}

#[test]
fn pointer_positions_agree_with_casts() {
    for l in [0i64, 1, -1, 0x8000, 0x1_0000, -0x1_0000, 0x7FFF_FFFF, 0x8000_0000, i64::MIN, i64::MAX]
    {
        let x = (l as u32 & 0xFFFF) as i16 as i32;
        let y = (l as i32) >> 16;
        assert_eq!(pointer_position(l), (x, y));
    }
}

#[test]
fn the_handle_is_hit() {
    assert_eq!(hit_test(0x0008_0008, 8, 8), Hit::Caption);
    assert_eq!(hit_test(0x0017_0017, 8, 8), Hit::Caption);
    assert_eq!(hit_test(0x0018_0017, 8, 8), Hit::Transparent);
    assert_eq!(hit_test(0x0017_0018, 8, 8), Hit::Transparent);
    assert_eq!(hit_test(0x0008_0007, 8, 8), Hit::Transparent);
}

#[test]
fn messages() {
    assert_eq!(window_reply(132), Reply::HitTest);
    assert_eq!(window_reply(15), Reply::Paint);
    assert_eq!(window_reply(16), Reply::Destroy);
    assert_eq!(window_reply(2), Reply::Quit);
    assert_eq!(window_reply(1), Reply::Default);
    assert!(ends_loop(18));
    assert!(!ends_loop(2));
}

#[test]
fn positions_are_kept() {
    assert_eq!(first_position(), WindowPosition { x: 8, y: 8 });
    let at = WindowPosition { x: 1, y: 2 };
    assert_eq!(kept_position(at, Some((30, -4))), WindowPosition { x: 30, y: -4 });
    assert_eq!(kept_position(at, None), at);
}

#[test]
fn the_ground_is_painted() {
    let whole = Area { left: 0, top: 0, right: 300, bottom: 160 };
    let handle = Area { left: 0, top: 0, right: 16, bottom: 16 };
    assert_eq!(
        ground_steps(),
        vec![
            PaintStep::Fill { area: whole, color: 0xFF00FF },
            PaintStep::Fill { area: handle, color: 0x646464 },
            PaintStep::ClearTextGround,
            PaintStep::TextColor(0xC8C8C8),
        ]
    );
}

#[test]
fn lines_of_text() {
    let f = figures();
    let lines = overlay_lines(Some(&f));
    let shown: Vec<(i32, i32, &str)> = lines.iter().map(|l| (l.x, l.y, l.text.as_str())).collect();
    assert_eq!(
        shown,
        vec![
            (8, 6, "--System Usage--"),
            (8, 26, "CPU: 1.0%"),
            (8, 44, "RAM: 2.0%"),
            (8, 62, "DISK R: 3.00 MB/s"),
            (8, 80, "DISK W: 4.00 MB/s"),
            (8, 98, "DISK TOT: 7.00 MB/s (50 %)"),
            (8, 116, "NET: 8 KB/s (9 %)"),
            (8, 136, "Home"),
        ]
    );
}

#[test]
fn no_figures_no_lines() {
    assert!(overlay_lines(None).is_empty());
}
