//! The tray menu: what each item does.
//!
//! A [`Panel`] holds what the menu shows and has chosen. Its methods take in what happened, the
//! click on an item or the ports found, and say what is to be done about it.
use crate::metrics::Mode;
use vstd::prelude::*;
use vstd::string::StringExecFns;

verus! {

/// Where the serial line goes, and whether.
#[derive(Clone, Debug)]
pub struct SerialCfg {
    /// Whether anything is sent.
    pub enabled: bool,
    /// Name of the port.
    pub port: String,
}

/// The identifiers that the menu gave to its fixed items.
#[derive(Debug)]
pub struct MenuIds {
    /// Switches what the icon shows.
    pub switch: String,
    /// Shows or hides the overlay.
    pub overlay: String,
    /// Turns the serial line on or off.
    pub serial_toggle: String,
    /// Looks for more ports.
    pub serial_refresh: String,
    /// Ends the program.
    pub quit: String,
}

/// An item that chooses a port.
#[derive(Debug)]
pub struct PortItem {
    /// The identifier that the menu gave to it.
    pub id: String,
    /// Name of the port.
    pub name: String,
}

/// What a click was on.
#[derive(Clone, Copy, Debug, PartialEq, Eq, Structural)]
pub enum MenuTarget {
    /// Switching what the icon shows.
    Switch,
    /// Showing or hiding the overlay.
    Overlay,
    /// Turning the serial line on or off.
    SerialToggle,
    /// Looking for more ports.
    SerialRefresh,
    /// Ending the program.
    Quit,
    /// Choosing the port with this place among the items.
    Port(usize),
    /// Nothing that the panel knows.
    Unknown,
}

/// What is to be done after a click.
#[derive(Clone, Copy, Debug, PartialEq, Eq, Structural)]
pub enum PanelAction {
    /// Show this pair of quantities from now on.
    ShowMode(Mode),
    /// Label the switch for this mode; see [`switch_label`].
    LabelSwitch(Mode),
    /// Let the monitor count on from here.
    ResetMonitor,
    /// Open the overlay.
    OpenOverlay,
    /// Close the overlay.
    CloseOverlay,
    /// Label the overlay item for an overlay that is shown or not; see [`overlay_label`].
    LabelOverlay(bool),
    /// Label the serial item for a serial line that is on or off; see [`serial_label`].
    LabelSerial(bool),
    /// Hand the serial line its new settings.
    ConfigureSerial,
    /// Label the port; see [`port_label`].
    LabelPort,
    /// Look for ports and add those that are new; see [`Panel::new_ports`].
    FindPorts,
    /// End the program.
    Exit,
}

/// What the menu shows and has chosen.
#[derive(Debug)]
pub struct Panel {
    /// Identifiers of the fixed items.
    pub ids: MenuIds,
    /// What the icon shows.
    pub mode: Mode,
    /// Whether the overlay is open.
    pub overlay_shown: bool,
    /// Settings of the serial line.
    pub serial: SerialCfg,
    /// Items that choose a port.
    pub ports: Vec<PortItem>,
    /// Whether ports have been looked for at all.
    pub ports_built: bool,
}

/// The other mode.
pub open spec fn other_mode(mode: Mode) -> Mode {
    match mode {
        Mode::CpuRam => Mode::DiskNet,
        Mode::DiskNet => Mode::CpuRam,
    }
}

/// Label of the switch: what a click would bring.
pub open spec fn switch_label_of(mode: Mode) -> Seq<char> {
    match mode {
        Mode::CpuRam => "Switch to Disk/Network"@,
        Mode::DiskNet => "Switch to CPU/RAM"@,
    }
}

/// Place of the first port item with the identifier, counted from `from`.
pub open spec fn port_at(ports: Seq<PortItem>, id: Seq<char>, from: int) -> Option<int>
    decreases ports.len() - from,
{
    if from < 0 || from >= ports.len() {
        None
    } else if ports[from].id@ == id {
        Some(from)
    } else {
        port_at(ports, id, from + 1)
    }
}

/// What a click on the item with the identifier is on: the fixed items first, then the ports in
/// their order.
pub open spec fn target_of(panel: Panel, id: Seq<char>) -> MenuTarget {
    if id == panel.ids.switch@ {
        MenuTarget::Switch
    } else if id == panel.ids.overlay@ {
        MenuTarget::Overlay
    } else if id == panel.ids.serial_toggle@ {
        MenuTarget::SerialToggle
    } else if id == panel.ids.serial_refresh@ {
        MenuTarget::SerialRefresh
    } else if id == panel.ids.quit@ {
        MenuTarget::Quit
    } else {
        match port_at(panel.ports@, id, 0) {
            Some(i) => MenuTarget::Port(i as usize),
            None => MenuTarget::Unknown,
        }
    }
}

/// Whether a target is on the panel.
pub open spec fn target_exists(panel: Panel, target: MenuTarget) -> bool {
    match target {
        MenuTarget::Port(i) => i < panel.ports@.len(),
        _ => true,
    }
}

/// The panel after a click.
pub open spec fn clicked(panel: Panel, target: MenuTarget) -> Panel {
    match target {
        MenuTarget::Switch => Panel { mode: other_mode(panel.mode), ..panel },
        MenuTarget::Overlay => Panel { overlay_shown: !panel.overlay_shown, ..panel },
        MenuTarget::SerialToggle => Panel {
            serial: SerialCfg { enabled: !panel.serial.enabled, port: panel.serial.port },
            ..panel
        },
        MenuTarget::Quit => Panel { overlay_shown: false, ..panel },
        MenuTarget::Port(i) => Panel {
            serial: SerialCfg { enabled: panel.serial.enabled, port: panel.ports@[i as int].name },
            ..panel
        },
        _ => panel,
    }
}

/// What is to be done after a click, in order.
pub open spec fn click_actions(panel: Panel, target: MenuTarget) -> Seq<PanelAction> {
    match target {
        MenuTarget::Switch => {
            let mode = other_mode(panel.mode);
            if mode == Mode::DiskNet {
                seq![
                    PanelAction::ShowMode(mode),
                    PanelAction::LabelSwitch(mode),
                    PanelAction::ResetMonitor,
                ]
            } else {
                seq![PanelAction::ShowMode(mode), PanelAction::LabelSwitch(mode)]
            }
        },
        MenuTarget::Overlay => if panel.overlay_shown {
            seq![PanelAction::CloseOverlay, PanelAction::LabelOverlay(false)]
        } else {
            seq![PanelAction::OpenOverlay, PanelAction::LabelOverlay(true)]
        },
        MenuTarget::SerialToggle => seq![
            PanelAction::LabelSerial(!panel.serial.enabled),
            PanelAction::ConfigureSerial,
        ],
        MenuTarget::SerialRefresh => seq![PanelAction::FindPorts],
        MenuTarget::Quit => if panel.overlay_shown {
            seq![PanelAction::CloseOverlay, PanelAction::Exit]
        } else {
            seq![PanelAction::Exit]
        },
        MenuTarget::Port(_) => seq![PanelAction::ConfigureSerial, PanelAction::LabelPort],
        MenuTarget::Unknown => Seq::empty(),
    }
}

/// Names of the ports that have an item.
pub open spec fn port_names(ports: Seq<PortItem>) -> Seq<Seq<char>> {
    ports.map_values(|p: PortItem| p.name@)
}

/// The texts of a list.
pub open spec fn texts(list: Seq<String>) -> Seq<Seq<char>> {
    list.map_values(|s: String| s@)
}

/// The found names that are not known yet, in order and each once.
pub open spec fn unknown_names(known: Seq<Seq<char>>, found: Seq<Seq<char>>) -> Seq<Seq<char>>
    decreases found.len(),
{
    if found.len() == 0 {
        Seq::empty()
    } else {
        let before = unknown_names(known, found.drop_last());
        if known.contains(found.last()) || before.contains(found.last()) {
            before
        } else {
            before.push(found.last())
        }
    }
}

/// The line that names the program.
pub fn about_label(name: &str, version: &str) -> (r: String)
    ensures
        r@ == name@ + " v"@ + version@,
{
    let mut r = name.to_owned();
    r.append(" v");
    r.append(version);
    r
}

/// Label of the switch in a mode: what a click would bring.
pub fn switch_label(mode: Mode) -> (r: &'static str)
    ensures
        r@ == switch_label_of(mode),
        mode == Mode::CpuRam ==> r@ == "Switch to Disk/Network"@,
        mode == Mode::DiskNet ==> r@ == "Switch to CPU/RAM"@,
{
    match mode {
        Mode::CpuRam => "Switch to Disk/Network",
        Mode::DiskNet => "Switch to CPU/RAM",
    }
}

/// Label of the overlay item: what a click would do.
pub fn overlay_label(shown: bool) -> (r: &'static str)
    ensures
        r@ == (if shown {
            "Hide Overlay"@
        } else {
            "Show Overlay"@
        }),
{
    if shown {
        "Hide Overlay"
    } else {
        "Show Overlay"
    }
}

/// Label of the serial item: whether the line is on.
pub fn serial_label(enabled: bool) -> (r: &'static str)
    ensures
        r@ == (if enabled {
            "[x] Serial Output"@
        } else {
            "[ ] Serial Output"@
        }),
{
    if enabled {
        "[x] Serial Output"
    } else {
        "[ ] Serial Output"
    }
}

/// Label that names the chosen port.
pub fn port_label(port: &str) -> (r: String)
    ensures
        r@ == "Port: "@ + port@,
{
    let mut r = "Port: ".to_owned();
    r.append(port);
    r
}

/// Label of the item that chooses a port.
pub fn use_label(port: &str) -> (r: String)
    ensures
        r@ == "Use "@ + port@,
{
    let mut r = "Use ".to_owned();
    r.append(port);
    r
}

/// The port that the setting names, or the usual one.
pub fn default_port(setting: Option<String>) -> (r: String)
    ensures
        r@ == match setting {
            Some(port) => port@,
            None => "COM4"@,
        },
{
    match setting {
        Some(port) => port,
        None => "COM4".to_owned(),
    }
}

/// Whether a port has an item.
fn has_item(ports: &Vec<PortItem>, name: &String) -> (r: bool)
    ensures
        r == port_names(ports@).contains(name@),
{
    let n: usize = ports.len();
    let mut i: usize = 0;
    while i < n
        invariant
            i <= n,
            n == ports@.len(),
            forall|k: int| 0 <= k < i ==> (#[trigger] ports@[k]).name@ != name@,
        decreases n - i,
    {
        if ports[i].name == *name {
            proof {
                assert(port_names(ports@)[i as int] == name@);
            }
            return true;
        }
        i = i + 1;
    }
    proof {
        assert forall|k: int| 0 <= k < port_names(ports@).len() implies port_names(ports@)[k]
            != name@ by {
            assert(ports@[k].name@ != name@);
        }
    }
    false
}

/// Whether a list holds a text.
fn has_text(list: &Vec<String>, text: &String) -> (r: bool)
    ensures
        r == texts(list@).contains(text@),
{
    let n: usize = list.len();
    let mut i: usize = 0;
    while i < n
        invariant
            i <= n,
            n == list@.len(),
            forall|k: int| 0 <= k < i ==> (#[trigger] list@[k])@ != text@,
        decreases n - i,
    {
        if list[i] == *text {
            proof {
                assert(texts(list@)[i as int] == text@);
            }
            return true;
        }
        i = i + 1;
    }
    proof {
        assert forall|k: int| 0 <= k < texts(list@).len() implies texts(list@)[k] != text@ by {
            assert(list@[k]@ != text@);
        }
    }
    false
}

impl Panel {
    /// The panel at the start: processor and memory shown, the overlay open, the serial line off.
    pub fn new(ids: MenuIds, port: String) -> (r: Panel)
        ensures
            r.ids == ids,
            r.mode == Mode::CpuRam,
            r.overlay_shown,
            !r.serial.enabled,
            r.serial.port == port,
            r.ports@.len() == 0,
            !r.ports_built,
    {
        Panel {
            ids,
            mode: Mode::CpuRam,
            overlay_shown: true,
            serial: SerialCfg { enabled: false, port },
            ports: Vec::new(),
            ports_built: false,
        }
    }

    /// What a click on the item with the identifier is on.
    pub fn resolve(&self, id: &str) -> (r: MenuTarget)
        ensures
            r == target_of(*self, id@),
            target_exists(*self, r),
    {
        let key = id.to_owned();
        if key == self.ids.switch {
            return MenuTarget::Switch;
        }
        if key == self.ids.overlay {
            return MenuTarget::Overlay;
        }
        if key == self.ids.serial_toggle {
            return MenuTarget::SerialToggle;
        }
        if key == self.ids.serial_refresh {
            return MenuTarget::SerialRefresh;
        }
        if key == self.ids.quit {
            return MenuTarget::Quit;
        }
        let n: usize = self.ports.len();
        let mut i: usize = 0;
        while i < n
            invariant
                i <= n,
                n == self.ports@.len(),
                key@ == id@,
                port_at(self.ports@, id@, 0) == port_at(self.ports@, id@, i as int),
                id@ != self.ids.switch@,
                id@ != self.ids.overlay@,
                id@ != self.ids.serial_toggle@,
                id@ != self.ids.serial_refresh@,
                id@ != self.ids.quit@,
            decreases n - i,
        {
            if self.ports[i].id == key {
                return MenuTarget::Port(i);
            }
            i = i + 1;
        }
        MenuTarget::Unknown
    }

    /// Takes in a click on a target of the panel.
    pub fn click(&mut self, target: MenuTarget) -> (r: Vec<PanelAction>)
        requires
            target_exists(*old(self), target),
        ensures
            *final(self) == clicked(*old(self), target),
            r@ == click_actions(*old(self), target),
    {
        let mut r: Vec<PanelAction> = Vec::new();
        match target {
            MenuTarget::Switch => {
                let mode = match self.mode {
                    Mode::CpuRam => Mode::DiskNet,
                    Mode::DiskNet => Mode::CpuRam,
                };
                self.mode = mode;
                r.push(PanelAction::ShowMode(mode));
                r.push(PanelAction::LabelSwitch(mode));
                if let Mode::DiskNet = mode {
                    r.push(PanelAction::ResetMonitor);
                }
            },
            MenuTarget::Overlay => {
                if self.overlay_shown {
                    self.overlay_shown = false;
                    r.push(PanelAction::CloseOverlay);
                    r.push(PanelAction::LabelOverlay(false));
                } else {
                    self.overlay_shown = true;
                    r.push(PanelAction::OpenOverlay);
                    r.push(PanelAction::LabelOverlay(true));
                }
            },
            MenuTarget::SerialToggle => {
                self.serial.enabled = !self.serial.enabled;
                r.push(PanelAction::LabelSerial(self.serial.enabled));
                r.push(PanelAction::ConfigureSerial);
            },
            MenuTarget::SerialRefresh => {
                r.push(PanelAction::FindPorts);
            },
            MenuTarget::Quit => {
                if self.overlay_shown {
                    self.overlay_shown = false;
                    r.push(PanelAction::CloseOverlay);
                }
                r.push(PanelAction::Exit);
            },
            MenuTarget::Port(i) => {
                self.serial.port = self.ports[i].name.clone();
                r.push(PanelAction::ConfigureSerial);
                r.push(PanelAction::LabelPort);
            },
            MenuTarget::Unknown => {},
        }
        r
    }

    /// Takes in a click on the item with the identifier.
    pub fn click_id(&mut self, id: &str) -> (r: Vec<PanelAction>)
        ensures
            *final(self) == clicked(*old(self), target_of(*old(self), id@)),
            r@ == click_actions(*old(self), target_of(*old(self), id@)),
    {
        let target = self.resolve(id);
        self.click(target)
    }

    /// Whether ports are to be looked for unasked, which is done once. Every port that is found then
    /// gets an item.
    pub fn first_look(&mut self) -> (r: bool)
        ensures
            r == !old(self).ports_built,
            *final(self) == (Panel { ports_built: true, ..*old(self) }),
    {
        let r: bool = !self.ports_built;
        self.ports_built = true;
        r
    }

    /// The found ports that have no item yet, each once.
    pub fn new_ports(&self, found: &Vec<String>) -> (r: Vec<String>)
        ensures
            texts(r@) == unknown_names(port_names(self.ports@), texts(found@)),
    {
        let mut r: Vec<String> = Vec::new();
        let n: usize = found.len();
        let mut i: usize = 0;
        let ghost known = port_names(self.ports@);
        proof {
            assert(texts(r@) =~= Seq::empty());
            assert(texts(found@).take(0) =~= Seq::empty());
        }
        while i < n
            invariant
                i <= n,
                n == found@.len(),
                known == port_names(self.ports@),
                texts(r@) == unknown_names(known, texts(found@).take(i as int)),
            decreases n - i,
        {
            let name = &found[i];
            let ghost before = r@;
            proof {
                let next = texts(found@).take(i + 1);
                assert(next.drop_last() =~= texts(found@).take(i as int));
                assert(next.last() == name@);
            }
            if !has_item(&self.ports, name) && !has_text(&r, name) {
                r.push(name.clone());
                proof {
                    assert(texts(r@) =~= texts(before).push(name@));
                }
            }
            i = i + 1;
        }
        proof {
            assert(texts(found@).take(n as int) =~= texts(found@));
        }
        r
    }

    /// Takes in the item that was made for a port.
    pub fn add_port(&mut self, id: String, name: String)
        ensures
            final(self).ports@ == old(self).ports@.push(PortItem { id, name }),
            *final(self) == (Panel { ports: final(self).ports, ..*old(self) }),
    {
        self.ports.push(PortItem { id, name });
    }
}

/// The switch goes back and forth: two clicks leave the panel as it was, and only the one that
/// brings up disk and network makes the monitor count anew.
pub proof fn lemma_switch_twice(panel: Panel)
    ensures
        clicked(clicked(panel, MenuTarget::Switch), MenuTarget::Switch) == panel,
        click_actions(panel, MenuTarget::Switch).contains(PanelAction::ResetMonitor) <==> clicked(
            panel,
            MenuTarget::Switch,
        ).mode == Mode::DiskNet,
{
    let actions = click_actions(panel, MenuTarget::Switch);
    if other_mode(panel.mode) == Mode::DiskNet {
        assert(actions[2] == PanelAction::ResetMonitor);
    }
}

/// The overlay item goes back and forth: two clicks leave the panel as it was, and each opens the
/// overlay if it was closed and closes it if it was open.
pub proof fn lemma_overlay_twice(panel: Panel)
    ensures
        clicked(clicked(panel, MenuTarget::Overlay), MenuTarget::Overlay) == panel,
        click_actions(panel, MenuTarget::Overlay).contains(PanelAction::OpenOverlay)
            <==> !panel.overlay_shown,
        click_actions(panel, MenuTarget::Overlay).contains(PanelAction::CloseOverlay)
            <==> panel.overlay_shown,
{
    let actions = click_actions(panel, MenuTarget::Overlay);
    assert(actions[0] == (if panel.overlay_shown {
        PanelAction::CloseOverlay
    } else {
        PanelAction::OpenOverlay
    }));
}

/// The serial item goes back and forth: two clicks leave the panel as it was.
pub proof fn lemma_serial_twice(panel: Panel)
    ensures
        clicked(clicked(panel, MenuTarget::SerialToggle), MenuTarget::SerialToggle) == panel,
{
}

/// Quitting closes an overlay that is open, and comes last.
pub proof fn lemma_quit_closes_overlay(panel: Panel)
    ensures
        !clicked(panel, MenuTarget::Quit).overlay_shown,
        click_actions(panel, MenuTarget::Quit).last() == PanelAction::Exit,
        click_actions(panel, MenuTarget::Quit).contains(PanelAction::CloseOverlay)
            <==> panel.overlay_shown,
{
    let actions = click_actions(panel, MenuTarget::Quit);
    if panel.overlay_shown {
        assert(actions[0] == PanelAction::CloseOverlay);
    }
}

/// No click but the one on the quit item ends the program.
pub proof fn lemma_only_quit_ends(panel: Panel, target: MenuTarget)
    requires
        click_actions(panel, target).contains(PanelAction::Exit),
    ensures
        target == MenuTarget::Quit,
{
}

/// What a click asks for agrees with the panel after it: a label, a mode or an overlay that it asks
/// for is the one that the panel then holds, and no click changes the items.
pub proof fn lemma_actions_follow_panel(panel: Panel, target: MenuTarget)
    ensures
        forall|mode: Mode| #[trigger]
            click_actions(panel, target).contains(PanelAction::ShowMode(mode)) ==> mode == clicked(
                panel,
                target,
            ).mode,
        forall|mode: Mode| #[trigger]
            click_actions(panel, target).contains(PanelAction::LabelSwitch(mode)) ==> mode
                == clicked(panel, target).mode,
        forall|shown: bool| #[trigger]
            click_actions(panel, target).contains(PanelAction::LabelOverlay(shown)) ==> shown
                == clicked(panel, target).overlay_shown,
        forall|enabled: bool| #[trigger]
            click_actions(panel, target).contains(PanelAction::LabelSerial(enabled)) ==> enabled
                == clicked(panel, target).serial.enabled,
        click_actions(panel, target).contains(PanelAction::OpenOverlay) ==> clicked(
            panel,
            target,
        ).overlay_shown,
        click_actions(panel, target).contains(PanelAction::CloseOverlay) ==> !clicked(
            panel,
            target,
        ).overlay_shown,
        clicked(panel, target).ids == panel.ids,
        clicked(panel, target).ports == panel.ports,
{
}

/// Whatever a click changes is acted on: a new mode is shown, an overlay is opened or closed, and
/// new settings reach the serial line.
pub proof fn lemma_changes_are_acted_on(panel: Panel, target: MenuTarget)
    ensures
        clicked(panel, target).mode != panel.mode ==> click_actions(panel, target).contains(
            PanelAction::ShowMode(clicked(panel, target).mode),
        ),
        clicked(panel, target).overlay_shown != panel.overlay_shown ==> click_actions(
            panel,
            target,
        ).contains(
            if clicked(panel, target).overlay_shown {
                PanelAction::OpenOverlay
            } else {
                PanelAction::CloseOverlay
            },
        ),
        clicked(panel, target).serial != panel.serial ==> click_actions(panel, target).contains(
            PanelAction::ConfigureSerial,
        ),
{
    let actions = click_actions(panel, target);
    match target {
        MenuTarget::SerialToggle => {
            assert(actions[1] == PanelAction::ConfigureSerial);
        },
        MenuTarget::Unknown => {},
        _ => {
            assert(actions[0] == actions.first());
        },
    }
}

/// The place that is found holds the identifier, and none before it does.
pub proof fn lemma_port_at(ports: Seq<PortItem>, id: Seq<char>, from: int)
    requires
        0 <= from <= ports.len(),
    ensures
        match port_at(ports, id, from) {
            Some(i) => {
                &&& from <= i < ports.len()
                &&& ports[i].id@ == id
                &&& forall|k: int| from <= k < i ==> (#[trigger] ports[k]).id@ != id
            },
            None => forall|k: int| from <= k < ports.len() ==> (#[trigger] ports[k]).id@ != id,
        },
    decreases ports.len() - from,
{
    if from < ports.len() && ports[from].id@ != id {
        lemma_port_at(ports, id, from + 1);
    }
}

/// A click on the item of a port chooses the port that the item was made for.
pub proof fn lemma_click_chooses_port(panel: Panel, id: Seq<char>)
    requires
        target_of(panel, id) is Port,
    ensures
        exists|i: int|
            0 <= i < panel.ports@.len() && (#[trigger] panel.ports@[i]).id@ == id && clicked(
                panel,
                target_of(panel, id),
            ).serial.port == panel.ports@[i].name,
{
    lemma_port_at(panel.ports@, id, 0);
    assert(panel.ports@.len() == panel.ports.len());
    let i = port_at(panel.ports@, id, 0)->0;
    assert(panel.ports@[i].id@ == id);
}

/// What is new is exactly what was found and is not known, each name once.
pub proof fn lemma_unknown_names(known: Seq<Seq<char>>, found: Seq<Seq<char>>)
    ensures
        unknown_names(known, found).no_duplicates(),
        forall|name: Seq<char>|
            unknown_names(known, found).contains(name) <==> found.contains(name)
                && !known.contains(name),
    decreases found.len(),
{
    let fresh = unknown_names(known, found);
    if found.len() > 0 {
        let before = unknown_names(known, found.drop_last());
        let last = found.last();
        lemma_unknown_names(known, found.drop_last());
        assert forall|name: Seq<char>|
            fresh.contains(name) <==> found.contains(name) && !known.contains(name) by {
            assert(found.contains(name) <==> found.drop_last().contains(name) || name == last) by {
                if found.contains(name) {
                    let i = choose|i: int| 0 <= i < found.len() && found[i] == name;
                    if i < found.len() - 1 {
                        assert(found.drop_last()[i] == name);
                    }
                }
                if found.drop_last().contains(name) {
                    let i = choose|i: int|
                        0 <= i < found.drop_last().len() && found.drop_last()[i] == name;
                    assert(found[i] == name);
                }
                assert(found[found.len() - 1] == last);
            }
            if before.contains(name) {
                let i = choose|i: int| 0 <= i < before.len() && before[i] == name;
                assert(fresh[i] == name);
            }
            if !(known.contains(last) || before.contains(last)) {
                assert(fresh[fresh.len() - 1] == last);
            }
        }
    }
}

/// Looking again finds nothing new once the new ports have their items, and no port that had at
/// most one item gets a second one.
pub proof fn lemma_refresh_settles(known: Seq<Seq<char>>, found: Seq<Seq<char>>)
    ensures
        unknown_names(known + unknown_names(known, found), found).len() == 0,
        known.no_duplicates() ==> (known + unknown_names(known, found)).no_duplicates(),
{
    let fresh = unknown_names(known, found);
    let all = known + fresh;
    let again = unknown_names(all, found);
    lemma_unknown_names(known, found);
    lemma_unknown_names(all, found);
    if again.len() > 0 {
        let name = again[0];
        assert(again.contains(name));
        assert(!all.contains(name));
        if known.contains(name) {
            let i = choose|i: int| 0 <= i < known.len() && known[i] == name;
            assert(all[i] == name);
        } else {
            assert(fresh.contains(name));
            let i = choose|i: int| 0 <= i < fresh.len() && fresh[i] == name;
            assert(all[known.len() + i] == name);
        }
    }
    if known.no_duplicates() {
        assert forall|i: int, j: int| 0 <= i < all.len() && 0 <= j < all.len() && i != j implies all[i]
            != all[j] by {
            if i < known.len() && j >= known.len() {
                assert(fresh.contains(fresh[j - known.len()]));
                assert(known.contains(known[i]));
            }
            if j < known.len() && i >= known.len() {
                assert(fresh.contains(fresh[i - known.len()]));
                assert(known.contains(known[j]));
            }
        }
    }
}

/// A click on anything but the serial item leaves the serial line on or off as it was, and one on
/// the serial item turns it over. So whenever a click changes it, the new state is labelled.
pub proof fn lemma_only_toggle_turns_serial(panel: Panel, target: MenuTarget)
    ensures
        target != MenuTarget::SerialToggle ==> clicked(panel, target).serial.enabled
            == panel.serial.enabled,
        target == MenuTarget::SerialToggle ==> clicked(panel, target).serial.enabled
            == !panel.serial.enabled,
        clicked(panel, target).serial.enabled != panel.serial.enabled ==> click_actions(
            panel,
            target,
        ).contains(PanelAction::LabelSerial(clicked(panel, target).serial.enabled)),
{
    if target == MenuTarget::SerialToggle {
        assert(click_actions(panel, target)[0] == PanelAction::LabelSerial(
            !panel.serial.enabled,
        ));
    }
}

/// Each part of the panel changes on a click on its own item alone: the port on that of a port,
/// whose name it takes, the mode on the switch, the overlay on its item or in quitting; the items
/// never change.
pub proof fn lemma_click_changes_its_own(panel: Panel, target: MenuTarget)
    ensures
        target !is Port ==> clicked(panel, target).serial.port == panel.serial.port,
        target matches MenuTarget::Port(i) ==> clicked(panel, target).serial.port
            == panel.ports@[i as int].name,
        clicked(panel, target).mode != panel.mode <==> target == MenuTarget::Switch,
        target != MenuTarget::Overlay && target != MenuTarget::Quit ==> clicked(
            panel,
            target,
        ).overlay_shown == panel.overlay_shown,
        target == MenuTarget::Overlay ==> clicked(panel, target).overlay_shown
            != panel.overlay_shown,
        target == MenuTarget::Quit ==> !clicked(panel, target).overlay_shown,
        clicked(panel, target).ids == panel.ids,
        clicked(panel, target).ports == panel.ports,
        clicked(panel, target).ports_built == panel.ports_built,
{
}

/// What a click asks for, told by the panel before and after it, each action in its place and no
/// other beside them.
pub proof fn lemma_actions_in_order(panel: Panel, target: MenuTarget)
    ensures
        ({
            let after = clicked(panel, target);
            let actions = click_actions(panel, target);
            match target {
                MenuTarget::Switch => {
                    &&& actions.len() == (if panel.mode == Mode::CpuRam {
                        3int
                    } else {
                        2int
                    })
                    &&& actions[0] == PanelAction::ShowMode(after.mode)
                    &&& actions[1] == PanelAction::LabelSwitch(after.mode)
                    &&& panel.mode == Mode::CpuRam ==> actions[2] == PanelAction::ResetMonitor
                },
                MenuTarget::Overlay => {
                    &&& actions.len() == 2
                    &&& after.overlay_shown ==> actions[0] == PanelAction::OpenOverlay
                    &&& !after.overlay_shown ==> actions[0] == PanelAction::CloseOverlay
                    &&& actions[1] == PanelAction::LabelOverlay(after.overlay_shown)
                },
                MenuTarget::SerialToggle => {
                    &&& actions.len() == 2
                    &&& actions[0] == PanelAction::LabelSerial(after.serial.enabled)
                    &&& actions[1] == PanelAction::ConfigureSerial
                },
                MenuTarget::SerialRefresh => {
                    &&& actions.len() == 1
                    &&& actions[0] == PanelAction::FindPorts
                },
                MenuTarget::Quit => {
                    &&& panel.overlay_shown ==> actions.len() == 2 && actions[0]
                        == PanelAction::CloseOverlay
                    &&& !panel.overlay_shown ==> actions.len() == 1
                    &&& actions.last() == PanelAction::Exit
                },
                MenuTarget::Port(_) => {
                    &&& actions.len() == 2
                    &&& actions[0] == PanelAction::ConfigureSerial
                    &&& actions[1] == PanelAction::LabelPort
                },
                MenuTarget::Unknown => actions.len() == 0,
            }
        }),
{
}

/// A click is on the first item that bears the identifier: the fixed ones in their order, then the
/// ports in theirs, and on none that the panel knows where no item does.
pub proof fn lemma_target_bears_id(panel: Panel, id: Seq<char>)
    ensures
        match target_of(panel, id) {
            MenuTarget::Switch => id == panel.ids.switch@,
            MenuTarget::Overlay => id == panel.ids.overlay@ && id != panel.ids.switch@,
            MenuTarget::SerialToggle => id == panel.ids.serial_toggle@ && id != panel.ids.switch@
                && id != panel.ids.overlay@,
            MenuTarget::SerialRefresh => id == panel.ids.serial_refresh@ && id
                != panel.ids.switch@ && id != panel.ids.overlay@ && id
                != panel.ids.serial_toggle@,
            MenuTarget::Quit => id == panel.ids.quit@ && id != panel.ids.switch@ && id
                != panel.ids.overlay@ && id != panel.ids.serial_toggle@ && id
                != panel.ids.serial_refresh@,
            MenuTarget::Port(i) => {
                &&& id != panel.ids.switch@ && id != panel.ids.overlay@
                &&& id != panel.ids.serial_toggle@ && id != panel.ids.serial_refresh@
                &&& id != panel.ids.quit@
                &&& i < panel.ports@.len()
                &&& panel.ports@[i as int].id@ == id
                &&& forall|k: int| 0 <= k < i ==> (#[trigger] panel.ports@[k]).id@ != id
            },
            MenuTarget::Unknown => {
                &&& id != panel.ids.switch@ && id != panel.ids.overlay@
                &&& id != panel.ids.serial_toggle@ && id != panel.ids.serial_refresh@
                &&& id != panel.ids.quit@
                &&& forall|k: int|
                    0 <= k < panel.ports@.len() ==> (#[trigger] panel.ports@[k]).id@ != id
            },
        },
{
    lemma_port_at(panel.ports@, id, 0);
    assert(panel.ports@.len() == panel.ports.len());
}

/// The names of a list of items, and the texts of a list, are those of its entries in order.
pub proof fn lemma_names_in_order(ports: Seq<PortItem>, list: Seq<String>, i: int)
    ensures
        port_names(ports).len() == ports.len(),
        texts(list).len() == list.len(),
        0 <= i < ports.len() ==> port_names(ports)[i] == ports[i].name@,
        0 <= i < list.len() ==> texts(list)[i] == list[i]@,
{
}

/// One more port found is new, after those before it, if and only if it is not known and was not
/// found before; without ports found there are none.
pub proof fn lemma_one_more_port(known: Seq<Seq<char>>, found: Seq<Seq<char>>, name: Seq<char>)
    ensures
        unknown_names(known, Seq::<Seq<char>>::empty()).len() == 0,
        known.contains(name) || found.contains(name) ==> unknown_names(known, found.push(name))
            == unknown_names(known, found),
        !known.contains(name) && !found.contains(name) ==> unknown_names(known, found.push(name))
            == unknown_names(known, found).push(name),
{
    lemma_unknown_names(known, found);
    assert(found.push(name).drop_last() =~= found);
}

} // verus!
