pub mod controller;
pub mod device;

use crate::text::decode_lossy;
use vstd::prelude::*;

verus! {

/// A shell command for `sh -c`, with the message to fail with when it cannot be started.
pub struct ServiceAction {
    pub arg: String,
    pub err_msg: String,
}

impl View for ServiceAction {
    type V = (Seq<char>, Seq<char>);

    open spec fn view(&self) -> (Seq<char>, Seq<char>) {
        (self.arg@, self.err_msg@)
    }
}

impl ServiceAction {
    /// An action running `arg`, failing with `err_msg` when it cannot be started.
    pub fn new(arg: String, err_msg: &str) -> (res: ServiceAction)
        ensures
            res@ == (arg@, err_msg@),
    {
        ServiceAction { arg, err_msg: err_msg.to_owned() }
    }
}

/// What a plan asks of its runner next. After running an action the runner resumes
/// the stage `S` with what the command printed on its standard output.
pub enum Step<S, T> {
    /// Run the action, then resume at the stage.
    Run(ServiceAction, S),
    /// Print the line, run the action, then resume at the stage.
    Announce(String, ServiceAction, S),
    /// Run the action, print its whole result, then resume at the stage.
    Report(ServiceAction, S),
    /// The plan is over, with this outcome.
    Done(T),
}

/// The mathematical model of a [`Step`]: actions and texts by their views.
pub enum StepView<S, T> {
    Run((Seq<char>, Seq<char>), S),
    Announce(Seq<char>, (Seq<char>, Seq<char>), S),
    Report((Seq<char>, Seq<char>), S),
    Done(T),
}

impl<S, T: DeepView> DeepView for Step<S, T> {
    type V = StepView<S, T::V>;

    open spec fn deep_view(&self) -> StepView<S, T::V> {
        match self {
            Step::Run(a, s) => StepView::Run(a@, *s),
            Step::Announce(line, a, s) => StepView::Announce(line@, a@, *s),
            Step::Report(a, s) => StepView::Report(a@, *s),
            Step::Done(t) => StepView::Done(t.deep_view()),
        }
    }
}

impl<S, T> StepView<S, T> {
    /// The command that this step runs, if it runs one.
    pub open spec fn command(self) -> Option<Seq<char>> {
        match self {
            StepView::Run(a, _) => Some(a.0),
            StepView::Announce(_, a, _) => Some(a.0),
            StepView::Report(a, _) => Some(a.0),
            StepView::Done(_) => None,
        }
    }

    /// The stage that this step resumes at, if it runs a command.
    pub open spec fn stage(self) -> Option<S> {
        match self {
            StepView::Run(_, s) => Some(s),
            StepView::Announce(_, _, s) => Some(s),
            StepView::Report(_, s) => Some(s),
            StepView::Done(_) => None,
        }
    }
}

/// `"{option}: on"` or `"{option}: off"`.
pub open spec fn option_line(option: Seq<char>, on: bool) -> Seq<char> {
    option + ": "@ + if on {
        "on"@
    } else {
        "off"@
    }
}

/// A menu entry naming an option and whether it is on.
pub fn format_option(option: &str, on: bool) -> (res: String)
    ensures
        res@ == option_line(option@, on),
{
    let mut res = option.to_owned();
    res.append(": ");
    if on {
        res.append("on");
    } else {
        res.append("off");
    }
    res
}

/// Whether a `grep` for an option printed anything: the option is on.
pub open spec fn found(output: Seq<u8>) -> bool {
    output.len() > 0
}

/// Whether the text of a command's output, decoded lossily, is non-empty.
pub fn option_on(output: &[u8]) -> (res: bool)
    ensures
        res == found(output@),
{
    let text = decode_lossy(output);
    !text.as_str().is_empty()
}

/// `bluetoothctl show | grep '{option}'`: prints the line when the controller has the option.
pub open spec fn show_query(option: Seq<char>) -> Seq<char> {
    "bluetoothctl show | grep '"@ + option + "'"@
}

/// `bluetoothctl info {mac} | grep '{option}'`: prints the line when the device has the option.
pub open spec fn info_query(mac: Seq<char>, option: Seq<char>) -> Seq<char> {
    "bluetoothctl info "@ + mac + " | grep '"@ + option + "'"@
}

/// The message for a query that cannot be started.
pub open spec fn query_failure() -> Seq<char> {
    "failed to execute process"@
}

pub fn show_query_action(option: &str) -> (res: ServiceAction)
    ensures
        res@ == (show_query(option@), query_failure()),
{
    let mut arg = "bluetoothctl show | grep '".to_owned();
    arg.append(option);
    arg.append("'");
    ServiceAction::new(arg, "failed to execute process")
}

pub fn info_query_action(mac: &str, option: &str) -> (res: ServiceAction)
    ensures
        res@ == (info_query(mac@, option@), query_failure()),
{
    let mut arg = "bluetoothctl info ".to_owned();
    arg.append(mac);
    arg.append(" | grep '");
    arg.append(option);
    arg.append("'");
    ServiceAction::new(arg, "failed to execute process")
}

/// How a one-query probe reads the output of its `grep`.
pub enum Probe {
    /// The option is on when the `grep` printed something.
    Present,
    /// The answer is yes when the `grep` printed nothing.
    Absent,
}

impl Probe {
    pub open spec fn next(self, output: Seq<u8>) -> StepView<Probe, bool> {
        match self {
            Probe::Present => StepView::Done(found(output)),
            Probe::Absent => StepView::Done(!found(output)),
        }
    }

    /// Reads the query's output.
    pub fn resume(self, output: &[u8]) -> (res: Step<Probe, bool>)
        ensures
            res.deep_view() == self.next(output@),
    {
        match self {
            Probe::Present => Step::Done(option_on(output)),
            Probe::Absent => Step::Done(!option_on(output)),
        }
    }
}

/// `bluetoothctl power on` or `bluetoothctl power off`.
pub open spec fn power_command(on: bool) -> Seq<char> {
    "bluetoothctl power "@ + if on {
        "on"@
    } else {
        "off"@
    }
}

/// Asks rfkill whether bluetooth is blocked (quietly: `grep -q` prints nothing).
pub open spec fn rfkill_query() -> Seq<char> {
    "rfkill list bluetooth | grep -q 'blocked: yes'"@
}

pub open spec fn unblock_command() -> Seq<char> {
    "rfkill unblock bluetooth | sleep 3"@
}

pub open spec fn kill_scan_command() -> Seq<char> {
    "kill $(pgrep -f 'bluetoothctl --timeout 5 scan on')"@
}

pub open spec fn scan_off_command() -> Seq<char> {
    "bluetoothctl scan off"@
}

pub open spec fn scan_on_command() -> Seq<char> {
    "bluetoothctl --timeout 5 scan on &"@
}

/// `bluetoothctl pairable on` or `bluetoothctl pairable off`.
pub open spec fn pairable_command(on: bool) -> Seq<char> {
    "bluetoothctl pairable "@ + if on {
        "on"@
    } else {
        "off"@
    }
}

/// `bluetoothctl discoverable on` or `bluetoothctl discoverable off`.
pub open spec fn discoverable_command(on: bool) -> Seq<char> {
    "bluetoothctl discoverable "@ + if on {
        "on"@
    } else {
        "off"@
    }
}

/// `bluetoothctl {verb} {mac}`.
pub open spec fn device_command(verb: Seq<char>, mac: Seq<char>) -> Seq<char> {
    "bluetoothctl "@ + verb + " "@ + mac
}

pub open spec fn power_failure() -> Seq<char> {
    "failed to toggle power"@
}

pub open spec fn unblock_failure() -> Seq<char> {
    "failed unblock bluetooth"@
}

pub open spec fn kill_failure() -> Seq<char> {
    "failed to kill scan pids"@
}

/// The message that the scan, pairable and discoverable toggles (and the older device
/// toggles) fail with.
pub open spec fn toggle_failure() -> Seq<char> {
    "failed to toggle scan"@
}

pub fn power_action(on: bool) -> (res: ServiceAction)
    ensures
        res@ == (power_command(on), power_failure()),
{
    let mut arg = "bluetoothctl power ".to_owned();
    if on {
        arg.append("on");
    } else {
        arg.append("off");
    }
    ServiceAction::new(arg, "failed to toggle power")
}

pub fn rfkill_query_action() -> (res: ServiceAction)
    ensures
        res@ == (rfkill_query(), unblock_failure()),
{
    ServiceAction::new("rfkill list bluetooth | grep -q 'blocked: yes'".to_owned(), "failed unblock bluetooth")
}

pub fn unblock_action() -> (res: ServiceAction)
    ensures
        res@ == (unblock_command(), unblock_failure()),
{
    ServiceAction::new("rfkill unblock bluetooth | sleep 3".to_owned(), "failed unblock bluetooth")
}

pub fn kill_scan_action() -> (res: ServiceAction)
    ensures
        res@ == (kill_scan_command(), kill_failure()),
{
    ServiceAction::new(
        "kill $(pgrep -f 'bluetoothctl --timeout 5 scan on')".to_owned(),
        "failed to kill scan pids",
    )
}

pub fn scan_off_action() -> (res: ServiceAction)
    ensures
        res@ == (scan_off_command(), toggle_failure()),
{
    ServiceAction::new("bluetoothctl scan off".to_owned(), "failed to toggle scan")
}

pub fn scan_on_action() -> (res: ServiceAction)
    ensures
        res@ == (scan_on_command(), toggle_failure()),
{
    ServiceAction::new("bluetoothctl --timeout 5 scan on &".to_owned(), "failed to toggle scan")
}

pub fn pairable_action(on: bool) -> (res: ServiceAction)
    ensures
        res@ == (pairable_command(on), toggle_failure()),
{
    let mut arg = "bluetoothctl pairable ".to_owned();
    if on {
        arg.append("on");
    } else {
        arg.append("off");
    }
    ServiceAction::new(arg, "failed to toggle scan")
}

pub fn discoverable_action(on: bool) -> (res: ServiceAction)
    ensures
        res@ == (discoverable_command(on), toggle_failure()),
{
    let mut arg = "bluetoothctl discoverable ".to_owned();
    if on {
        arg.append("on");
    } else {
        arg.append("off");
    }
    ServiceAction::new(arg, "failed to toggle scan")
}

pub fn device_action(verb: &str, mac: &str, err_msg: &str) -> (res: ServiceAction)
    ensures
        res@ == (device_command(verb@, mac@), err_msg@),
{
    let mut arg = "bluetoothctl ".to_owned();
    arg.append(verb);
    arg.append(" ");
    arg.append(mac);
    ServiceAction::new(arg, err_msg)
}

/// Where a toggle stands: which command's output it waits for.
pub enum ToggleStage {
    /// Waits for the `Powered: yes` query.
    Power,
    /// Waits for the rfkill query.
    Rfkill,
    /// Waits for the unblocking.
    Unblocked,
    /// Waits for the `Discovering: yes` query.
    Scan,
    /// Waits for the kill of the running scan.
    ScanKilled,
    /// Waits for the `Pairable: yes` query.
    Pairable,
    /// Waits for the `Discoverable: yes` query.
    Discoverable,
    /// Waits for the `Trusted: yes` query of the device with this address.
    Trust(String),
    /// Waits for the `Connected: yes` query of the device with this address.
    Connection(String),
    /// Waits for the `Paired: yes` query of the device with this address.
    Pair(String),
    /// As `Trust`, for the older device toggles.
    LegacyTrust(String),
    /// As `Connection`, for the older device toggles.
    LegacyConnection(String),
    /// As `Pair`, for the older device toggles, which announce what they do.
    LegacyPair(String),
    /// Waits for the last command.
    Finished,
}

impl ToggleStage {
    /// How many more commands the toggle runs at most, after the awaited one.
    pub open spec fn rank(self) -> nat {
        match self {
            ToggleStage::Power => 3,
            ToggleStage::Rfkill => 2,
            ToggleStage::Scan => 2,
            ToggleStage::Finished => 0,
            _ => 1,
        }
    }

    pub open spec fn next(self, output: Seq<u8>) -> StepView<ToggleStage, ()> {
        let on = found(output);
        match self {
            ToggleStage::Power => if on {
                StepView::Run((power_command(false), power_failure()), ToggleStage::Finished)
            } else {
                StepView::Run((rfkill_query(), unblock_failure()), ToggleStage::Rfkill)
            },
            ToggleStage::Rfkill => if on {
                StepView::Run((unblock_command(), unblock_failure()), ToggleStage::Unblocked)
            } else {
                StepView::Run((power_command(true), power_failure()), ToggleStage::Finished)
            },
            ToggleStage::Unblocked => StepView::Run(
                (power_command(true), power_failure()),
                ToggleStage::Finished,
            ),
            ToggleStage::Scan => if on {
                StepView::Run((kill_scan_command(), kill_failure()), ToggleStage::ScanKilled)
            } else {
                StepView::Run((scan_on_command(), toggle_failure()), ToggleStage::Finished)
            },
            ToggleStage::ScanKilled => StepView::Run(
                (scan_off_command(), toggle_failure()),
                ToggleStage::Finished,
            ),
            ToggleStage::Pairable => StepView::Run(
                (pairable_command(!on), toggle_failure()),
                ToggleStage::Finished,
            ),
            ToggleStage::Discoverable => StepView::Run(
                (discoverable_command(!on), toggle_failure()),
                ToggleStage::Finished,
            ),
            ToggleStage::Trust(mac) => StepView::Run(
                (
                    device_command(
                        if on {
                            "untrust"@
                        } else {
                            "trust"@
                        },
                        mac@,
                    ),
                    "failed to toggle trust"@,
                ),
                ToggleStage::Finished,
            ),
            ToggleStage::Connection(mac) => StepView::Run(
                (
                    device_command(
                        if on {
                            "disconnect"@
                        } else {
                            "connect"@
                        },
                        mac@,
                    ),
                    "failed to toggle connect"@,
                ),
                ToggleStage::Finished,
            ),
            ToggleStage::Pair(mac) => StepView::Run(
                (
                    device_command(
                        if on {
                            "remove"@
                        } else {
                            "pair"@
                        },
                        mac@,
                    ),
                    "failed to toggle pair"@,
                ),
                ToggleStage::Finished,
            ),
            ToggleStage::LegacyTrust(mac) => StepView::Run(
                (
                    device_command(
                        if on {
                            "untrust"@
                        } else {
                            "trust"@
                        },
                        mac@,
                    ),
                    toggle_failure(),
                ),
                ToggleStage::Finished,
            ),
            ToggleStage::LegacyConnection(mac) => StepView::Run(
                (
                    device_command(
                        if on {
                            "disconnect"@
                        } else {
                            "connect"@
                        },
                        mac@,
                    ),
                    toggle_failure(),
                ),
                ToggleStage::Finished,
            ),
            ToggleStage::LegacyPair(mac) => if on {
                StepView::Announce(
                    "RUN PAIRED REMOVE"@,
                    (device_command("remove"@, mac@), toggle_failure()),
                    ToggleStage::Finished,
                )
            } else {
                StepView::Announce(
                    "RUN PAIRED PAIR"@,
                    (device_command("pair"@, mac@), toggle_failure()),
                    ToggleStage::Finished,
                )
            },
            ToggleStage::Finished => StepView::Done(()),
        }
    }

    /// Decides the next command from the output of the awaited one.
    pub fn resume(self, output: &[u8]) -> (res: Step<ToggleStage, ()>)
        ensures
            res.deep_view() == self.next(output@),
    {
        let on = option_on(output);
        match self {
            ToggleStage::Power => if on {
                Step::Run(power_action(false), ToggleStage::Finished)
            } else {
                Step::Run(rfkill_query_action(), ToggleStage::Rfkill)
            },
            ToggleStage::Rfkill => if output.len() > 0 {
                Step::Run(unblock_action(), ToggleStage::Unblocked)
            } else {
                Step::Run(power_action(true), ToggleStage::Finished)
            },
            ToggleStage::Unblocked => Step::Run(power_action(true), ToggleStage::Finished),
            ToggleStage::Scan => if on {
                Step::Run(kill_scan_action(), ToggleStage::ScanKilled)
            } else {
                Step::Run(scan_on_action(), ToggleStage::Finished)
            },
            ToggleStage::ScanKilled => Step::Run(scan_off_action(), ToggleStage::Finished),
            ToggleStage::Pairable => Step::Run(pairable_action(!on), ToggleStage::Finished),
            ToggleStage::Discoverable => Step::Run(discoverable_action(!on), ToggleStage::Finished),
            ToggleStage::Trust(mac) => {
                let verb = if on {
                    "untrust"
                } else {
                    "trust"
                };
                Step::Run(
                    device_action(verb, mac.as_str(), "failed to toggle trust"),
                    ToggleStage::Finished,
                )
            },
            ToggleStage::Connection(mac) => {
                let verb = if on {
                    "disconnect"
                } else {
                    "connect"
                };
                Step::Run(
                    device_action(verb, mac.as_str(), "failed to toggle connect"),
                    ToggleStage::Finished,
                )
            },
            ToggleStage::Pair(mac) => {
                let verb = if on {
                    "remove"
                } else {
                    "pair"
                };
                Step::Run(
                    device_action(verb, mac.as_str(), "failed to toggle pair"),
                    ToggleStage::Finished,
                )
            },
            ToggleStage::LegacyTrust(mac) => {
                let verb = if on {
                    "untrust"
                } else {
                    "trust"
                };
                Step::Run(
                    device_action(verb, mac.as_str(), "failed to toggle scan"),
                    ToggleStage::Finished,
                )
            },
            ToggleStage::LegacyConnection(mac) => {
                let verb = if on {
                    "disconnect"
                } else {
                    "connect"
                };
                Step::Run(
                    device_action(verb, mac.as_str(), "failed to toggle scan"),
                    ToggleStage::Finished,
                )
            },
            ToggleStage::LegacyPair(mac) => if on {
                Step::Announce(
                    "RUN PAIRED REMOVE".to_owned(),
                    device_action("remove", mac.as_str(), "failed to toggle scan"),
                    ToggleStage::Finished,
                )
            } else {
                Step::Announce(
                    "RUN PAIRED PAIR".to_owned(),
                    device_action("pair", mac.as_str(), "failed to toggle scan"),
                    ToggleStage::Finished,
                )
            },
            ToggleStage::Finished => Step::Done(()),
        }
    }
}

/// The separator line between the entries of a menu.
pub open spec fn separator() -> Seq<char> {
    "----------"@
}

/// The main menu of a powered controller.
pub open spec fn controller_menu(names: Seq<Seq<char>>, scan: bool, discoverable: bool, pairable: bool) -> Seq<Seq<char>> {
    names + seq![
        separator(),
        "Power: on"@,
        option_line("Scan"@, scan),
        option_line("Discoverable"@, discoverable),
        option_line("Pairable"@, pairable),
    ]
}

/// The main menu of a controller that is off.
pub open spec fn power_off_menu() -> Seq<Seq<char>> {
    seq!["Power: off"@]
}

/// The menu of a device.
pub open spec fn device_menu(connected: bool, paired: bool, trusted: bool) -> Seq<Seq<char>> {
    seq![
        option_line("Connected"@, connected),
        option_line("Paired"@, paired),
        option_line("Trusted"@, trusted),
        separator(),
        "Back"@,
    ]
}

/// The menu of a device in the older form, with `yes` and `no`.
pub open spec fn legacy_device_menu(connected: bool, paired: bool, trusted: bool) -> Seq<Seq<char>> {
    seq![
        if connected { "Connected: yes"@ } else { "Connected: no"@ },
        if paired { "Paired: yes"@ } else { "Paired: no"@ },
        if trusted { "Trusted: yes"@ } else { "Trusted: no"@ },
        separator(),
        "Back"@,
    ]
}

/// Where the building of a menu stands: which query's output it waits for, and what
/// it has learned so far.
pub enum MenuStage {
    /// Main menu, waits for `Powered: yes`; holds the names of the devices.
    Powered(Vec<String>),
    /// Main menu, waits for `Discovering: yes`.
    Scanning(Vec<String>),
    /// Main menu, waits for `Discoverable: yes`; knows whether it scans.
    Discoverable(Vec<String>, bool),
    /// Main menu, waits for `Pairable: yes`; knows whether it scans and is discoverable.
    Pairable(Vec<String>, bool, bool),
    /// Device menu of the device with this address, waits for `Connected: yes`.
    Connected(String),
    /// Device menu, waits for `Paired: yes`; knows whether it is connected.
    Paired(String, bool),
    /// Device menu, waits for `Trusted: yes`; knows whether it is connected and paired.
    Trusted(String, bool, bool),
    /// As `Connected`, for the older device menu.
    LegacyConnected(String),
    /// As `Paired`, for the older device menu.
    LegacyPaired(String, bool),
    /// As `Trusted`, for the older device menu.
    LegacyTrusted(String, bool, bool),
}

impl MenuStage {
    /// How many more queries the menu runs at most, after the awaited one.
    pub open spec fn rank(self) -> nat {
        match self {
            MenuStage::Powered(_) => 3,
            MenuStage::Scanning(_) => 2,
            MenuStage::Discoverable(_, _) => 1,
            MenuStage::Pairable(_, _, _) => 0,
            MenuStage::Connected(_) => 2,
            MenuStage::Paired(_, _) => 1,
            MenuStage::Trusted(_, _, _) => 0,
            MenuStage::LegacyConnected(_) => 2,
            MenuStage::LegacyPaired(_, _) => 1,
            MenuStage::LegacyTrusted(_, _, _) => 0,
        }
    }

    pub open spec fn next(self, output: Seq<u8>) -> StepView<MenuStage, Seq<Seq<char>>> {
        let on = found(output);
        match self {
            MenuStage::Powered(names) => if on {
                StepView::Run(
                    (show_query("Discovering: yes"@), query_failure()),
                    MenuStage::Scanning(names),
                )
            } else {
                StepView::Done(power_off_menu())
            },
            MenuStage::Scanning(names) => StepView::Run(
                (show_query("Discoverable: yes"@), query_failure()),
                MenuStage::Discoverable(names, on),
            ),
            MenuStage::Discoverable(names, scan) => StepView::Run(
                (show_query("Pairable: yes"@), query_failure()),
                MenuStage::Pairable(names, scan, on),
            ),
            MenuStage::Pairable(names, scan, discoverable) => StepView::Done(
                controller_menu(names.deep_view(), scan, discoverable, on),
            ),
            MenuStage::Connected(mac) => StepView::Run(
                (info_query(mac@, "Paired: yes"@), query_failure()),
                MenuStage::Paired(mac, on),
            ),
            MenuStage::Paired(mac, connected) => StepView::Run(
                (info_query(mac@, "Trusted: yes"@), query_failure()),
                MenuStage::Trusted(mac, connected, on),
            ),
            MenuStage::Trusted(_, connected, paired) => StepView::Done(
                device_menu(connected, paired, on),
            ),
            MenuStage::LegacyConnected(mac) => StepView::Run(
                (info_query(mac@, "Paired: yes"@), query_failure()),
                MenuStage::LegacyPaired(mac, on),
            ),
            MenuStage::LegacyPaired(mac, connected) => StepView::Run(
                (info_query(mac@, "Trusted: yes"@), query_failure()),
                MenuStage::LegacyTrusted(mac, connected, on),
            ),
            MenuStage::LegacyTrusted(_, connected, paired) => StepView::Done(
                legacy_device_menu(connected, paired, on),
            ),
        }
    }

    /// Records the output of the awaited query and asks for the next one, or gives the menu.
    pub fn resume(self, output: &[u8]) -> (res: Step<MenuStage, Vec<String>>)
        ensures
            res.deep_view() == self.next(output@),
    {
        let on = option_on(output);
        match self {
            MenuStage::Powered(names) => if on {
                Step::Run(show_query_action("Discovering: yes"), MenuStage::Scanning(names))
            } else {
                let mut menu: Vec<String> = Vec::new();
                menu.push("Power: off".to_owned());
                proof {
                    assert(menu.deep_view() =~= power_off_menu());
                }
                Step::Done(menu)
            },
            MenuStage::Scanning(names) => Step::Run(
                show_query_action("Discoverable: yes"),
                MenuStage::Discoverable(names, on),
            ),
            MenuStage::Discoverable(names, scan) => Step::Run(
                show_query_action("Pairable: yes"),
                MenuStage::Pairable(names, scan, on),
            ),
            MenuStage::Pairable(names, scan, discoverable) => {
                let ghost listed = names.deep_view();
                let mut menu = names;
                menu.push("----------".to_owned());
                menu.push("Power: on".to_owned());
                menu.push(format_option("Scan", scan));
                menu.push(format_option("Discoverable", discoverable));
                menu.push(format_option("Pairable", on));
                proof {
                    assert(menu.deep_view() =~= controller_menu(listed, scan, discoverable, on));
                }
                Step::Done(menu)
            },
            MenuStage::Connected(mac) => {
                let query = info_query_action(mac.as_str(), "Paired: yes");
                Step::Run(query, MenuStage::Paired(mac, on))
            },
            MenuStage::Paired(mac, connected) => {
                let query = info_query_action(mac.as_str(), "Trusted: yes");
                Step::Run(query, MenuStage::Trusted(mac, connected, on))
            },
            MenuStage::Trusted(_, connected, paired) => {
                let mut menu: Vec<String> = Vec::new();
                menu.push(format_option("Connected", connected));
                menu.push(format_option("Paired", paired));
                menu.push(format_option("Trusted", on));
                menu.push("----------".to_owned());
                menu.push("Back".to_owned());
                proof {
                    assert(menu.deep_view() =~= device_menu(connected, paired, on));
                }
                Step::Done(menu)
            },
            MenuStage::LegacyConnected(mac) => {
                let query = info_query_action(mac.as_str(), "Paired: yes");
                Step::Run(query, MenuStage::LegacyPaired(mac, on))
            },
            MenuStage::LegacyPaired(mac, connected) => {
                let query = info_query_action(mac.as_str(), "Trusted: yes");
                Step::Run(query, MenuStage::LegacyTrusted(mac, connected, on))
            },
            MenuStage::LegacyTrusted(_, connected, paired) => {
                let mut menu: Vec<String> = Vec::new();
                menu.push(
                    if connected {
                        "Connected: yes".to_owned()
                    } else {
                        "Connected: no".to_owned()
                    },
                );
                menu.push(
                    if paired {
                        "Paired: yes".to_owned()
                    } else {
                        "Paired: no".to_owned()
                    },
                );
                menu.push(
                    if on {
                        "Trusted: yes".to_owned()
                    } else {
                        "Trusted: no".to_owned()
                    },
                );
                menu.push("----------".to_owned());
                menu.push("Back".to_owned());
                proof {
                    assert(menu.deep_view() =~= legacy_device_menu(connected, paired, on));
                }
                Step::Done(menu)
            },
        }
    }
}

/// The commands that a toggle plan runs when they print `outputs`, in order: the plan's
/// command, then those of the step that its output leads to.
pub open spec fn toggle_commands(step: StepView<ToggleStage, ()>, outputs: Seq<Seq<u8>>) -> Seq<Seq<char>>
    decreases outputs.len(),
{
    match step.command() {
        None => Seq::empty(),
        Some(c) => if outputs.len() == 0 {
            seq![c]
        } else {
            seq![c] + toggle_commands(step.stage().unwrap().next(outputs[0]), outputs.drop_first())
        },
    }
}

/// Whether a toggle plan is over once its commands have printed `outputs`.
pub open spec fn toggle_ends(step: StepView<ToggleStage, ()>, outputs: Seq<Seq<u8>>) -> bool
    decreases outputs.len(),
{
    match step.command() {
        None => true,
        Some(_) => outputs.len() > 0 && toggle_ends(
            step.stage().unwrap().next(outputs[0]),
            outputs.drop_first(),
        ),
    }
}

/// The menu that a menu plan gives when its queries print `outputs`, if it gets that far.
pub open spec fn menu_outcome(step: StepView<MenuStage, Seq<Seq<char>>>, outputs: Seq<Seq<u8>>) -> Option<Seq<Seq<char>>>
    decreases outputs.len(),
{
    match step {
        StepView::Done(menu) => Some(menu),
        _ => if outputs.len() == 0 {
            None
        } else {
            menu_outcome(step.stage().unwrap().next(outputs[0]), outputs.drop_first())
        },
    }
}

/// Every toggle command leads to a stage of smaller rank, or ends the plan: a toggle that
/// waits at a stage runs at most `rank + 1` more commands.
pub proof fn lemma_toggle_progress(stage: ToggleStage, output: Seq<u8>)
    ensures
        match stage.next(output).stage() {
            Some(next) => next.rank() < stage.rank(),
            None => stage.next(output) == StepView::<ToggleStage, ()>::Done(()),
        },
{
}

/// Every menu query leads to a stage of smaller rank, or gives the menu.
pub proof fn lemma_menu_progress(stage: MenuStage, output: Seq<u8>)
    ensures
        match stage.next(output).stage() {
            Some(next) => next.rank() < stage.rank(),
            None => stage.next(output) is Done,
        },
{
}

/// A toggle that waits at a stage is over after `rank + 1` more commands, whatever they print.
pub proof fn lemma_toggle_ends(stage: ToggleStage, outputs: Seq<Seq<u8>>)
    requires
        outputs.len() > stage.rank(),
    ensures
        toggle_ends(stage.next(outputs[0]), outputs.drop_first()),
    decreases stage.rank(),
{
    let step = stage.next(outputs[0]);
    lemma_toggle_progress(stage, outputs[0]);
    match step.stage() {
        Some(next) => {
            lemma_toggle_ends(next, outputs.drop_first());
        },
        None => {},
    }
}

/// The queries that a menu plan runs when they print `outputs`, in order.
pub open spec fn menu_commands(step: StepView<MenuStage, Seq<Seq<char>>>, outputs: Seq<Seq<u8>>) -> Seq<Seq<char>>
    decreases outputs.len(),
{
    match step.command() {
        None => Seq::empty(),
        Some(c) => if outputs.len() == 0 {
            seq![c]
        } else {
            seq![c] + menu_commands(step.stage().unwrap().next(outputs[0]), outputs.drop_first())
        },
    }
}

} // verus!