//! A bluetooth menu for rofi, driven by `bluetoothctl`: the commands it runs, what it
//! reads from their output, and the menus it shows.
//!
//! Every operation is a plan: a [`bluetooth::Step`] names the next shell command to run
//! and the stage to resume with that command's output, until the plan is done. The
//! items at the crate root are the earlier form of the controller and device operations,
//! which take the controller's state as arguments and read the device flags inversely.

pub mod bluetooth;
pub mod text;
pub mod ui;

use bluetooth::device::{
    devices_of, lemma_listing_round_trip, listable, listing_is_readable, listing_of, listing_parses,
    parse_devices,
};
use bluetooth::{
    device_command, discoverable_action, discoverable_command, found, info_query,
    info_query_action, kill_failure, kill_scan_action, kill_scan_command, legacy_device_menu,
    menu_commands, menu_outcome, pairable_action, pairable_command, power_action, power_command, power_failure,
    query_failure, rfkill_query, rfkill_query_action, scan_off_command, scan_on_action,
    scan_on_command, show_query, show_query_action, toggle_commands, toggle_failure,
    unblock_command, unblock_failure, MenuStage, Probe, ServiceAction, Step, StepView, ToggleStage,
};
use text::{decode_lossy, lossy_text};
use vstd::prelude::*;
use vstd::utf8::{decode_utf8, valid_utf8};

verus! {

/// Switches the power, given whether it is off: where it is off, unblocks bluetooth where
/// rfkill reports it blocked, then switches it on; else switches it off.
pub fn toggle_power(power_off: bool) -> (res: Step<ToggleStage, ()>)
    ensures
        res.deep_view() == if power_off {
            StepView::<ToggleStage, ()>::Run((rfkill_query(), unblock_failure()), ToggleStage::Rfkill)
        } else {
            StepView::<ToggleStage, ()>::Run(
                (power_command(false), power_failure()),
                ToggleStage::Finished,
            )
        },
{
    if power_off {
        Step::Run(rfkill_query_action(), ToggleStage::Rfkill)
    } else {
        Step::Run(power_action(false), ToggleStage::Finished)
    }
}

/// Switches scanning, given whether it scans: kills the running scan and stops it; else
/// starts a scan in the background and reports what the command returned.
pub fn toggle_scan(scan_on: bool) -> (res: Step<ToggleStage, ()>)
    ensures
        res.deep_view() == if scan_on {
            StepView::<ToggleStage, ()>::Run(
                (kill_scan_command(), kill_failure()),
                ToggleStage::ScanKilled,
            )
        } else {
            StepView::<ToggleStage, ()>::Report(
                (scan_on_command(), toggle_failure()),
                ToggleStage::Finished,
            )
        },
{
    if scan_on {
        Step::Run(kill_scan_action(), ToggleStage::ScanKilled)
    } else {
        Step::Report(scan_on_action(), ToggleStage::Finished)
    }
}

/// Switches pairable off where it is on, and on where it is off.
pub fn toggle_pairable(pairable_on: bool) -> (res: Step<ToggleStage, ()>)
    ensures
        res.deep_view() == StepView::<ToggleStage, ()>::Run(
            (pairable_command(!pairable_on), toggle_failure()),
            ToggleStage::Finished,
        ),
{
    Step::Run(pairable_action(!pairable_on), ToggleStage::Finished)
}

/// Switches discoverable off where it is on, and on where it is off.
pub fn toggle_discoverable(discoverable_on: bool) -> (res: Step<ToggleStage, ()>)
    ensures
        res.deep_view() == StepView::<ToggleStage, ()>::Run(
            (discoverable_command(!discoverable_on), toggle_failure()),
            ToggleStage::Finished,
        ),
{
    Step::Run(discoverable_action(!discoverable_on), ToggleStage::Finished)
}

/// Whether the controller is discoverable: its `grep` prints the line.
pub fn discoverable_on() -> (res: Step<Probe, bool>)
    ensures
        res.deep_view() == StepView::<Probe, bool>::Run(
            (show_query("Discoverable: yes"@), query_failure()),
            Probe::Present,
        ),
{
    Step::Run(check_option_on("Discoverable: yes"), Probe::Present)
}

/// Whether the controller scans: its `grep` prints the line.
pub fn scan_on() -> (res: Step<Probe, bool>)
    ensures
        res.deep_view() == StepView::<Probe, bool>::Run(
            (show_query("Discovering: yes"@), query_failure()),
            Probe::Present,
        ),
{
    Step::Run(check_option_on("Discovering: yes"), Probe::Present)
}

/// Whether the controller is pairable: its `grep` prints the line.
pub fn pairable_on() -> (res: Step<Probe, bool>)
    ensures
        res.deep_view() == StepView::<Probe, bool>::Run(
            (show_query("Pairable: yes"@), query_failure()),
            Probe::Present,
        ),
{
    Step::Run(check_option_on("Pairable: yes"), Probe::Present)
}

/// True where the `grep` for `Powered: yes` prints nothing.
pub fn power_on() -> (res: Step<Probe, bool>)
    ensures
        res.deep_view() == StepView::<Probe, bool>::Run(
            (show_query("Powered: yes"@), query_failure()),
            Probe::Absent,
        ),
{
    Step::Run(check_option_on("Powered: yes"), Probe::Absent)
}

/// The query whether the controller has the option.
fn check_option_on(option: &str) -> (res: ServiceAction)
    ensures
        res@ == (show_query(option@), query_failure()),
{
    show_query_action(option)
}

/// A device that the controller knows, by its address and its name.
pub struct Device {
    pub mac: String,
    pub name: String,
}

impl View for Device {
    type V = (Seq<char>, Seq<char>);

    open spec fn view(&self) -> (Seq<char>, Seq<char>) {
        (self.mac@, self.name@)
    }
}

impl DeepView for Device {
    type V = (Seq<char>, Seq<char>);

    open spec fn deep_view(&self) -> (Seq<char>, Seq<char>) {
        (self.mac@, self.name@)
    }
}

/// Waits for the output of `bluetoothctl devices`.
pub struct DeviceList;

impl DeviceList {
    /// What the listing reads as, given its text.
    pub open spec fn read(self, text: Seq<char>) -> StepView<DeviceList, Option<Seq<(Seq<char>, Seq<char>)>>> {
        if listing_parses(text) {
            StepView::Done(Some(devices_of(text)))
        } else {
            StepView::Done(None)
        }
    }

    pub open spec fn next(self, output: Seq<u8>) -> StepView<DeviceList, Option<Seq<(Seq<char>, Seq<char>)>>> {
        self.read(lossy_text(output))
    }

    /// Reads the listing; `None` where a non-empty line has no second field.
    pub fn resume(self, output: &[u8]) -> (res: Step<DeviceList, Option<Vec<Device>>>)
        ensures
            res.deep_view() == self.next(output@),
            valid_utf8(output@) ==> res.deep_view() == self.read(decode_utf8(output@)),
    {
        let text = decode_lossy(output);
        if listing_is_readable(text.as_str()) {
            let listed = parse_devices(text.as_str());
            let mut devices: Vec<Device> = Vec::new();
            let mut i: usize = 0;
            while i < listed.len()
                invariant
                    i <= listed.len(),
                    devices.deep_view() == listed.deep_view().take(i as int),
                decreases listed.len() - i,
            {
                let ghost before = devices.deep_view();
                let mac = listed[i].mac.clone();
                let name = listed[i].name.clone();
                devices.push(Device { mac, name });
                proof {
                    assert(listed.deep_view()[i as int] == listed@[i as int].deep_view());
                    assert(devices.deep_view() =~= before.push((mac@, name@)));
                    assert(devices.deep_view() =~= listed.deep_view().take(i + 1));
                }
                i = i + 1;
            }
            proof {
                assert(listed.deep_view().take(i as int) =~= listed.deep_view());
            }
            Step::Done(Some(devices))
        } else {
            Step::Done(None)
        }
    }
}

/// Lists the devices that the controller knows: runs `bluetoothctl devices`.
pub fn get_devices() -> (res: Step<DeviceList, Option<Vec<Device>>>)
    ensures
        res.deep_view() == StepView::<DeviceList, Option<Seq<(Seq<char>, Seq<char>)>>>::Run(
            ("bluetoothctl devices"@, "failed getting devices"@),
            DeviceList,
        ),
{
    Step::Run(
        ServiceAction::new("bluetoothctl devices".to_owned(), "failed getting devices"),
        DeviceList,
    )
}

impl Device {
    /// True where the `grep` for `Trusted: yes` prints nothing.
    pub fn trusted(&self) -> (res: Step<Probe, bool>)
        ensures
            res.deep_view() == StepView::<Probe, bool>::Run(
                (info_query(self.mac@, "Trusted: yes"@), query_failure()),
                Probe::Absent,
            ),
    {
        Step::Run(self.check_option_on("Trusted: yes"), Probe::Absent)
    }

    /// True where the `grep` for `Paired: yes` prints nothing.
    pub fn paired(&self) -> (res: Step<Probe, bool>)
        ensures
            res.deep_view() == StepView::<Probe, bool>::Run(
                (info_query(self.mac@, "Paired: yes"@), query_failure()),
                Probe::Absent,
            ),
    {
        Step::Run(self.check_option_on("Paired: yes"), Probe::Absent)
    }

    /// True where the `grep` for `Connected: yes` prints nothing.
    pub fn connected(&self) -> (res: Step<Probe, bool>)
        ensures
            res.deep_view() == StepView::<Probe, bool>::Run(
                (info_query(self.mac@, "Connected: yes"@), query_failure()),
                Probe::Absent,
            ),
    {
        Step::Run(self.check_option_on("Connected: yes"), Probe::Absent)
    }

    /// The query whether the device has the option.
    fn check_option_on(&self, option: &str) -> (res: ServiceAction)
        ensures
            res@ == (info_query(self.mac@, option@), query_failure()),
    {
        info_query_action(self.mac.as_str(), option)
    }

    /// Stops trusting the device where its `Trusted: yes` line shows, else trusts it.
    pub fn toggle_trust(&self) -> (res: Step<ToggleStage, ()>)
        ensures
            res.deep_view() == StepView::<ToggleStage, ()>::Run(
                (info_query(self.mac@, "Trusted: yes"@), query_failure()),
                ToggleStage::LegacyTrust(self.mac),
            ),
    {
        Step::Run(self.check_option_on("Trusted: yes"), ToggleStage::LegacyTrust(self.mac.clone()))
    }

    /// Disconnects the device where its `Connected: yes` line shows, else connects it.
    pub fn toggle_connection(&self) -> (res: Step<ToggleStage, ()>)
        ensures
            res.deep_view() == StepView::<ToggleStage, ()>::Run(
                (info_query(self.mac@, "Connected: yes"@), query_failure()),
                ToggleStage::LegacyConnection(self.mac),
            ),
    {
        Step::Run(
            self.check_option_on("Connected: yes"),
            ToggleStage::LegacyConnection(self.mac.clone()),
        )
    }

    /// Removes the device where its `Paired: yes` line shows, else pairs it; says which.
    pub fn toggle_paired(&self) -> (res: Step<ToggleStage, ()>)
        ensures
            res.deep_view() == StepView::<ToggleStage, ()>::Run(
                (info_query(self.mac@, "Paired: yes"@), query_failure()),
                ToggleStage::LegacyPair(self.mac),
            ),
    {
        Step::Run(self.check_option_on("Paired: yes"), ToggleStage::LegacyPair(self.mac.clone()))
    }

    /// Builds the device menu with `yes` and `no` entries.
    pub fn get_menu(&self) -> (res: Step<MenuStage, Vec<String>>)
        ensures
            res.deep_view() == StepView::<MenuStage, Seq<Seq<char>>>::Run(
                (info_query(self.mac@, "Connected: yes"@), query_failure()),
                MenuStage::LegacyConnected(self.mac),
            ),
    {
        Step::Run(
            self.check_option_on("Connected: yes"),
            MenuStage::LegacyConnected(self.mac.clone()),
        )
    }
}

/// The earlier power toggle switches the power on where told it is off (asking rfkill
/// first, and unblocking where rfkill printed anything), and off otherwise.
pub proof fn lemma_legacy_power_toggle(power_off: bool, outputs: Seq<Seq<u8>>)
    requires
        outputs.len() >= 3,
    ensures
        toggle_commands(
            if power_off {
                StepView::<ToggleStage, ()>::Run((rfkill_query(), unblock_failure()), ToggleStage::Rfkill)
            } else {
                StepView::<ToggleStage, ()>::Run((power_command(false), power_failure()), ToggleStage::Finished)
            },
            outputs,
        ) == if !power_off {
            seq![power_command(false)]
        } else if found(outputs[0]) {
            seq![rfkill_query(), unblock_command(), power_command(true)]
        } else {
            seq![rfkill_query(), power_command(true)]
        },
{
    reveal_with_fuel(toggle_commands, 4);
    let o = outputs;
    assert(o.drop_first()[0] == o[1]);
    assert(o.drop_first().drop_first()[0] == o[2]);
    let plan = if power_off {
        StepView::<ToggleStage, ()>::Run((rfkill_query(), unblock_failure()), ToggleStage::Rfkill)
    } else {
        StepView::<ToggleStage, ()>::Run((power_command(false), power_failure()), ToggleStage::Finished)
    };
    if !power_off {
        assert(toggle_commands(plan, o) =~= seq![power_command(false)]);
    } else if found(o[0]) {
        assert(toggle_commands(plan, o) =~= seq![rfkill_query(), unblock_command(), power_command(true)]);
    } else {
        assert(toggle_commands(plan, o) =~= seq![rfkill_query(), power_command(true)]);
    }
}

/// The earlier device toggles choose as the later ones do: where the query printed the
/// line they undo the setting (announcing a removal), else they make it.
pub proof fn lemma_legacy_device_toggles(mac: String, outputs: Seq<Seq<u8>>)
    requires
        outputs.len() >= 2,
    ensures
        toggle_commands(
            StepView::Run((info_query(mac@, "Trusted: yes"@), query_failure()), ToggleStage::LegacyTrust(mac)),
            outputs,
        ) == seq![
            info_query(mac@, "Trusted: yes"@),
            device_command(if found(outputs[0]) { "untrust"@ } else { "trust"@ }, mac@),
        ],
        toggle_commands(
            StepView::Run(
                (info_query(mac@, "Connected: yes"@), query_failure()),
                ToggleStage::LegacyConnection(mac),
            ),
            outputs,
        ) == seq![
            info_query(mac@, "Connected: yes"@),
            device_command(if found(outputs[0]) { "disconnect"@ } else { "connect"@ }, mac@),
        ],
        toggle_commands(
            StepView::Run((info_query(mac@, "Paired: yes"@), query_failure()), ToggleStage::LegacyPair(mac)),
            outputs,
        ) == seq![
            info_query(mac@, "Paired: yes"@),
            device_command(if found(outputs[0]) { "remove"@ } else { "pair"@ }, mac@),
        ],
{
    reveal_with_fuel(toggle_commands, 3);
    assert(toggle_commands(
        StepView::Run((info_query(mac@, "Trusted: yes"@), query_failure()), ToggleStage::LegacyTrust(mac)),
        outputs,
    ) =~= seq![
        info_query(mac@, "Trusted: yes"@),
        device_command(if found(outputs[0]) { "untrust"@ } else { "trust"@ }, mac@),
    ]);
    assert(toggle_commands(
        StepView::Run(
            (info_query(mac@, "Connected: yes"@), query_failure()),
            ToggleStage::LegacyConnection(mac),
        ),
        outputs,
    ) =~= seq![
        info_query(mac@, "Connected: yes"@),
        device_command(if found(outputs[0]) { "disconnect"@ } else { "connect"@ }, mac@),
    ]);
    assert(toggle_commands(
        StepView::Run((info_query(mac@, "Paired: yes"@), query_failure()), ToggleStage::LegacyPair(mac)),
        outputs,
    ) =~= seq![
        info_query(mac@, "Paired: yes"@),
        device_command(if found(outputs[0]) { "remove"@ } else { "pair"@ }, mac@),
    ]);
}

/// The earlier device menu says `yes` for what its query found and `no` otherwise.
pub proof fn lemma_legacy_device_menu(mac: String, outputs: Seq<Seq<u8>>)
    requires
        outputs.len() >= 3,
    ensures
        menu_outcome(
            StepView::Run(
                (info_query(mac@, "Connected: yes"@), query_failure()),
                MenuStage::LegacyConnected(mac),
            ),
            outputs,
        ) == Some(legacy_device_menu(found(outputs[0]), found(outputs[1]), found(outputs[2]))),
{
    reveal_with_fuel(menu_outcome, 4);
    let o = outputs;
    assert(o.drop_first()[0] == o[1]);
    assert(o.drop_first().drop_first()[0] == o[2]);
}

/// The earlier scan toggle stops a scan where told it scans (killing the running scan
/// first), and otherwise starts one, whose result it reports.
pub proof fn lemma_legacy_scan_toggle(scan_on: bool, outputs: Seq<Seq<u8>>)
    requires
        outputs.len() >= 2,
    ensures
        toggle_commands(
            if scan_on {
                StepView::<ToggleStage, ()>::Run((kill_scan_command(), kill_failure()), ToggleStage::ScanKilled)
            } else {
                StepView::<ToggleStage, ()>::Report((scan_on_command(), toggle_failure()), ToggleStage::Finished)
            },
            outputs,
        ) == if scan_on {
            seq![kill_scan_command(), scan_off_command()]
        } else {
            seq![scan_on_command()]
        },
{
    reveal_with_fuel(toggle_commands, 3);
    let plan = if scan_on {
        StepView::<ToggleStage, ()>::Run((kill_scan_command(), kill_failure()), ToggleStage::ScanKilled)
    } else {
        StepView::<ToggleStage, ()>::Report((scan_on_command(), toggle_failure()), ToggleStage::Finished)
    };
    if scan_on {
        assert(toggle_commands(plan, outputs) =~= seq![kill_scan_command(), scan_off_command()]);
    } else {
        assert(toggle_commands(plan, outputs) =~= seq![scan_on_command()]);
    }
}

/// Each flag entry of the older device menu reads only its own query: `Connected`,
/// `Paired` and `Trusted` are `yes` exactly when their own query printed something,
/// then come the separator and `Back`.
pub proof fn lemma_legacy_device_menu_entries(mac: String, outputs: Seq<Seq<u8>>)
    requires
        outputs.len() >= 3,
    ensures
        ({
            let menu = menu_outcome(
                StepView::Run(
                    (info_query(mac@, "Connected: yes"@), query_failure()),
                    MenuStage::LegacyConnected(mac),
                ),
                outputs,
            );
            &&& menu is Some
            &&& menu.unwrap().len() == 5
            &&& menu.unwrap()[0] == if outputs[0].len() > 0 { "Connected: yes"@ } else { "Connected: no"@ }
            &&& menu.unwrap()[1] == if outputs[1].len() > 0 { "Paired: yes"@ } else { "Paired: no"@ }
            &&& menu.unwrap()[2] == if outputs[2].len() > 0 { "Trusted: yes"@ } else { "Trusted: no"@ }
            &&& menu.unwrap()[3] == "----------"@
            &&& menu.unwrap()[4] == "Back"@
        }),
{
    lemma_legacy_device_menu(mac, outputs);
    reveal_strlit("Connected: yes");
    reveal_strlit("Connected: no");
    reveal_strlit("Paired: yes");
    reveal_strlit("Paired: no");
    reveal_strlit("Trusted: yes");
    reveal_strlit("Trusted: no");
    let menu = legacy_device_menu(found(outputs[0]), found(outputs[1]), found(outputs[2]));
    if found(outputs[0]) {
        assert(menu[0] =~= "Connected: yes"@);
    } else {
        assert(menu[0] =~= "Connected: no"@);
    }
    if found(outputs[1]) {
        assert(menu[1] =~= "Paired: yes"@);
    } else {
        assert(menu[1] =~= "Paired: no"@);
    }
    if found(outputs[2]) {
        assert(menu[2] =~= "Trusted: yes"@);
    } else {
        assert(menu[2] =~= "Trusted: no"@);
    }
}

/// The earlier listing reads back the listing of devices whose lines read back as exactly
/// those devices, in order.
pub proof fn lemma_legacy_listing_round_trip(devices: Seq<(Seq<char>, Seq<char>)>)
    requires
        forall|i: int| 0 <= i < devices.len() ==> listable(#[trigger] devices[i]),
    ensures
        DeviceList.read(listing_of(devices)) == StepView::<
            DeviceList,
            Option<Seq<(Seq<char>, Seq<char>)>>,
        >::Done(Some(devices)),
{
    lemma_listing_round_trip(devices);
}

/// The earlier device menu asks, in order, whether the device with its address is
/// connected, paired and trusted; these are the outputs that its entries read, one each.
pub proof fn lemma_legacy_device_menu_queries(mac: String, outputs: Seq<Seq<u8>>)
    requires
        outputs.len() >= 3,
    ensures
        menu_commands(
            StepView::Run(
                (info_query(mac@, "Connected: yes"@), query_failure()),
                MenuStage::LegacyConnected(mac),
            ),
            outputs,
        ) == seq![
            "bluetoothctl info "@ + mac@ + " | grep 'Connected: yes'"@,
            "bluetoothctl info "@ + mac@ + " | grep 'Paired: yes'"@,
            "bluetoothctl info "@ + mac@ + " | grep 'Trusted: yes'"@,
        ],
{
    reveal_with_fuel(menu_commands, 4);
    reveal_strlit("bluetoothctl info ");
    reveal_strlit(" | grep '");
    reveal_strlit("'");
    reveal_strlit("Trusted: yes");
    reveal_strlit("Connected: yes");
    reveal_strlit("Paired: yes");
    reveal_strlit(" | grep 'Trusted: yes'");
    reveal_strlit(" | grep 'Connected: yes'");
    reveal_strlit(" | grep 'Paired: yes'");
    assert(info_query(mac@, "Trusted: yes"@) =~= "bluetoothctl info "@ + mac@ + " | grep 'Trusted: yes'"@);
    assert(info_query(mac@, "Connected: yes"@) =~= "bluetoothctl info "@ + mac@ + " | grep 'Connected: yes'"@);
    assert(info_query(mac@, "Paired: yes"@) =~= "bluetoothctl info "@ + mac@ + " | grep 'Paired: yes'"@);
    let o = outputs;
    assert(o.drop_first()[0] == o[1]);
    assert(o.drop_first().drop_first()[0] == o[2]);
    let start = StepView::<MenuStage, Seq<Seq<char>>>::Run(
        (info_query(mac@, "Connected: yes"@), query_failure()),
        MenuStage::LegacyConnected(mac),
    );
    assert(menu_commands(start, o) =~= seq![
        "bluetoothctl info "@ + mac@ + " | grep 'Connected: yes'"@,
        "bluetoothctl info "@ + mac@ + " | grep 'Paired: yes'"@,
        "bluetoothctl info "@ + mac@ + " | grep 'Trusted: yes'"@,
    ]);
}

} // verus!