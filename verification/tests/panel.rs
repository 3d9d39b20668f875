use crmonitor::metrics::Mode;
use crmonitor::panel::{
    about_label, default_port, overlay_label, port_label, serial_label, switch_label, use_label,
    MenuIds, MenuTarget, Panel, PanelAction,
};

fn panel() -> Panel {
    let ids = MenuIds {
        switch: "1".to_string(),
        overlay: "2".to_string(),
        serial_toggle: "3".to_string(),
        serial_refresh: "4".to_string(),
        quit: "5".to_string(),
    };
    Panel::new(ids, "COM4".to_string())
}

fn names(list: &[&str]) -> Vec<String> {
    list.iter().map(|s| s.to_string()).collect()
}

#[test]
fn a_new_panel() {
    let p = panel();
    assert_eq!(p.mode, Mode::CpuRam);
    assert!(p.overlay_shown);
    assert!(!p.serial.enabled);
    assert_eq!(p.serial.port, "COM4");
    assert!(p.ports.is_empty());
}

#[test]
fn switching_goes_back_and_forth() {
    let mut p = panel();
    assert_eq!(
        p.click_id("1"),
        vec![
            PanelAction::ShowMode(Mode::DiskNet),
            PanelAction::LabelSwitch(Mode::DiskNet),
            PanelAction::ResetMonitor,
        ]
    );
    assert_eq!(p.mode, Mode::DiskNet);
    assert_eq!(
        p.click_id("1"),
        vec![PanelAction::ShowMode(Mode::CpuRam), PanelAction::LabelSwitch(Mode::CpuRam)]
    );
    assert_eq!(p.mode, Mode::CpuRam);
}

#[test]
fn the_overlay_goes_back_and_forth() {
    let mut p = panel();
    assert_eq!(p.click_id("2"), vec![PanelAction::CloseOverlay, PanelAction::LabelOverlay(false)]);
    assert!(!p.overlay_shown);
    assert_eq!(p.click_id("2"), vec![PanelAction::OpenOverlay, PanelAction::LabelOverlay(true)]);
    assert!(p.overlay_shown);
}

#[test]
fn the_serial_line_goes_back_and_forth() {
    let mut p = panel();
    assert_eq!(p.click_id("3"), vec![PanelAction::LabelSerial(true), PanelAction::ConfigureSerial]);
    assert!(p.serial.enabled);
    assert_eq!(p.click_id("3"), vec![PanelAction::LabelSerial(false), PanelAction::ConfigureSerial]);
    assert!(!p.serial.enabled);
}

#[test]
fn quitting_closes_the_overlay() {
    let mut p = panel();
    assert_eq!(p.click_id("5"), vec![PanelAction::CloseOverlay, PanelAction::Exit]);
    let mut p = panel();
    p.click_id("2");
    assert_eq!(p.click_id("5"), vec![PanelAction::Exit]);
}

#[test]
fn choosing_a_port() {
    let mut p = panel();
    p.add_port("10".to_string(), "COM1".to_string());
    p.add_port("11".to_string(), "COM2".to_string());
    p.add_port("11".to_string(), "COM3".to_string());
    assert_eq!(p.resolve("11"), MenuTarget::Port(1));
    assert_eq!(p.click_id("11"), vec![PanelAction::ConfigureSerial, PanelAction::LabelPort]);
    assert_eq!(p.serial.port, "COM2");
    assert!(!p.serial.enabled);
}

#[test]
fn an_unknown_item_does_nothing() {
    let mut p = panel();
    assert_eq!(p.resolve("99"), MenuTarget::Unknown);
    assert_eq!(p.click_id("99"), Vec::<PanelAction>::new());
    assert_eq!(p.serial.port, "COM4");
}

#[test]
fn ports_are_looked_for_once_unasked() {
    let mut p = panel();
    assert!(p.first_look());
    assert!(!p.first_look());
}

#[test]
fn only_new_ports_are_added() {
    let mut p = panel();
    p.add_port("10".to_string(), "COM1".to_string());
    assert_eq!(p.click_id("4"), vec![PanelAction::FindPorts]);
    let found = names(&["COM2", "COM1", "COM2", "COM5"]);
    let fresh = p.new_ports(&found);
    assert_eq!(fresh, names(&["COM2", "COM5"]));
    for name in fresh {
        p.add_port("x".to_string(), name);
    }
    assert_eq!(p.new_ports(&found), Vec::<String>::new());
}

#[test]
fn labels() {
    assert_eq!(switch_label(Mode::CpuRam), "Switch to Disk/Network");
    assert_eq!(switch_label(Mode::DiskNet), "Switch to CPU/RAM");
    assert_eq!(overlay_label(true), "Hide Overlay");
    assert_eq!(overlay_label(false), "Show Overlay");
    assert_eq!(serial_label(true), "[x] Serial Output");
    assert_eq!(serial_label(false), "[ ] Serial Output");
    assert_eq!(port_label("COM4"), "Port: COM4");
    assert_eq!(use_label("COM4"), "Use COM4");
    assert_eq!(about_label("monitor", "1.2"), "monitor v1.2");
}

#[test]
fn the_usual_port() {
    assert_eq!(default_port(None), "COM4");
    assert_eq!(default_port(Some("ttyS0".to_string())), "ttyS0");
}
