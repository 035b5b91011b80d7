use super::device::Device;
use super::{
    controller_menu, discoverable_command, found, menu_commands, kill_scan_command, menu_outcome, pairable_command,
    power_command, power_off_menu, query_failure, rfkill_query, scan_off_command, scan_on_command,
    show_query, show_query_action, toggle_commands, unblock_command, MenuStage, Probe,
    ServiceAction, Step, StepView, ToggleStage,
};
use vstd::prelude::*;

verus! {

/// The names of the devices, in order.
pub open spec fn device_names(devices: Seq<(Seq<char>, Seq<char>)>) -> Seq<Seq<char>> {
    devices.map_values(|d: (Seq<char>, Seq<char>)| d.1)
}

/// Builds the main menu: asks whether the controller is powered, and if so, whether it
/// scans, is discoverable and is pairable; the menu lists the devices' names first.
pub fn get_menu_options(devices: &Vec<Device>) -> (res: Step<MenuStage, Vec<String>>)
    ensures
        match res {
            Step::Run(a, MenuStage::Powered(names)) => a@ == (
                show_query("Powered: yes"@),
                query_failure(),
            ) && names.deep_view() == device_names(devices.deep_view()),
            _ => false,
        },
{
    let mut names: Vec<String> = Vec::new();
    let mut i: usize = 0;
    while i < devices.len()
        invariant
            i <= devices.len(),
            names.deep_view() == device_names(devices.deep_view()).take(i as int),
        decreases devices.len() - i,
    {
        let ghost before = names.deep_view();
        let name = devices[i].name.clone();
        names.push(name);
        proof {
            assert(devices.deep_view()[i as int] == devices@[i as int].deep_view());
            assert(names.deep_view() =~= before.push(name@));
            assert(names.deep_view() =~= device_names(devices.deep_view()).take(i + 1));
        }
        i = i + 1;
    }
    proof {
        assert(device_names(devices.deep_view()).take(i as int) =~= device_names(
            devices.deep_view(),
        ));
    }
    Step::Run(check_option_on("Powered: yes"), MenuStage::Powered(names))
}

/// The plan of the power toggle: ask whether the controller is powered.
pub open spec fn power_toggle_plan() -> StepView<ToggleStage, ()> {
    StepView::Run((show_query("Powered: yes"@), query_failure()), ToggleStage::Power)
}

/// The plan of the scan toggle: ask whether the controller scans.
pub open spec fn scan_toggle_plan() -> StepView<ToggleStage, ()> {
    StepView::Run((show_query("Discovering: yes"@), query_failure()), ToggleStage::Scan)
}

/// The plan of the pairable toggle: ask whether the controller is pairable.
pub open spec fn pairable_toggle_plan() -> StepView<ToggleStage, ()> {
    StepView::Run((show_query("Pairable: yes"@), query_failure()), ToggleStage::Pairable)
}

/// The plan of the discoverable toggle: ask whether the controller is discoverable.
pub open spec fn discoverable_toggle_plan() -> StepView<ToggleStage, ()> {
    StepView::Run((show_query("Discoverable: yes"@), query_failure()), ToggleStage::Discoverable)
}

/// Switches the controller's power: off where it is on; else unblocks bluetooth where
/// rfkill reports it blocked, then switches it on.
pub fn toggle_power() -> (res: Step<ToggleStage, ()>)
    ensures
        res.deep_view() == power_toggle_plan(),
{
    Step::Run(check_option_on("Powered: yes"), ToggleStage::Power)
}

/// Switches scanning: where it scans, kills the running scan and stops it; else starts
/// a scan of five seconds in the background.
pub fn toggle_scan() -> (res: Step<ToggleStage, ()>)
    ensures
        res.deep_view() == scan_toggle_plan(),
{
    Step::Run(check_option_on("Discovering: yes"), ToggleStage::Scan)
}

/// Switches whether the controller is pairable.
pub fn toggle_pairable() -> (res: Step<ToggleStage, ()>)
    ensures
        res.deep_view() == pairable_toggle_plan(),
{
    Step::Run(check_option_on("Pairable: yes"), ToggleStage::Pairable)
}

/// Switches whether the controller is discoverable.
pub fn toggle_discoverable() -> (res: Step<ToggleStage, ()>)
    ensures
        res.deep_view() == discoverable_toggle_plan(),
{
    Step::Run(check_option_on("Discoverable: yes"), ToggleStage::Discoverable)
}

/// Whether the controller is discoverable.
pub fn discoverable_on() -> (res: Step<Probe, bool>)
    ensures
        res.deep_view() == StepView::<Probe, bool>::Run(
            (show_query("Discoverable: yes"@), query_failure()),
            Probe::Present,
        ),
{
    Step::Run(check_option_on("Discoverable: yes"), Probe::Present)
}

/// Whether the controller scans.
pub fn scan_on() -> (res: Step<Probe, bool>)
    ensures
        res.deep_view() == StepView::<Probe, bool>::Run(
            (show_query("Discovering: yes"@), query_failure()),
            Probe::Present,
        ),
{
    Step::Run(check_option_on("Discovering: yes"), Probe::Present)
}

/// Whether the controller is pairable.
pub fn pairable_on() -> (res: Step<Probe, bool>)
    ensures
        res.deep_view() == StepView::<Probe, bool>::Run(
            (show_query("Pairable: yes"@), query_failure()),
            Probe::Present,
        ),
{
    Step::Run(check_option_on("Pairable: yes"), Probe::Present)
}

/// Whether the controller is powered.
pub fn power_on() -> (res: Step<Probe, bool>)
    ensures
        res.deep_view() == StepView::<Probe, bool>::Run(
            (show_query("Powered: yes"@), query_failure()),
            Probe::Present,
        ),
{
    Step::Run(check_option_on("Powered: yes"), Probe::Present)
}

/// The query whether the controller has the option: `bluetoothctl show` filtered by it.
fn check_option_on(option: &str) -> (res: ServiceAction)
    ensures
        res@ == (show_query(option@), query_failure()),
{
    show_query_action(option)
}

/// The power toggle switches the power to the opposite of what its query saw; where it
/// saw the power off, it asks rfkill first and unblocks where rfkill printed anything.
pub proof fn lemma_power_toggle(outputs: Seq<Seq<u8>>)
    requires
        outputs.len() >= 4,
    ensures
        toggle_commands(power_toggle_plan(), outputs) == if found(outputs[0]) {
            seq![show_query("Powered: yes"@), power_command(false)]
        } else if found(outputs[1]) {
            seq![show_query("Powered: yes"@), rfkill_query(), unblock_command(), power_command(true)]
        } else {
            seq![show_query("Powered: yes"@), rfkill_query(), power_command(true)]
        },
        toggle_commands(power_toggle_plan(), outputs).last() == power_command(!found(outputs[0])),
{
    reveal_with_fuel(toggle_commands, 5);
    let o = outputs;
    assert(o.drop_first()[0] == o[1]);
    assert(o.drop_first().drop_first()[0] == o[2]);
    assert(o.drop_first().drop_first().drop_first()[0] == o[3]);
    if found(o[0]) {
        assert(toggle_commands(power_toggle_plan(), o) =~= seq![show_query("Powered: yes"@), power_command(false)]);
    } else if found(o[1]) {
        assert(toggle_commands(power_toggle_plan(), o) =~= seq![show_query("Powered: yes"@), rfkill_query(), unblock_command(), power_command(true)]);
    } else {
        assert(toggle_commands(power_toggle_plan(), o) =~= seq![show_query("Powered: yes"@), rfkill_query(), power_command(true)]);
    }
}

/// The scan toggle stops a scan that its query saw (killing the running scan first), and
/// starts one where it saw none.
pub proof fn lemma_scan_toggle(outputs: Seq<Seq<u8>>)
    requires
        outputs.len() >= 3,
    ensures
        toggle_commands(scan_toggle_plan(), outputs) == if found(outputs[0]) {
            seq![show_query("Discovering: yes"@), kill_scan_command(), scan_off_command()]
        } else {
            seq![show_query("Discovering: yes"@), scan_on_command()]
        },
{
    reveal_with_fuel(toggle_commands, 4);
    let o = outputs;
    assert(o.drop_first()[0] == o[1]);
    assert(o.drop_first().drop_first()[0] == o[2]);
    if found(o[0]) {
        assert(toggle_commands(scan_toggle_plan(), o) =~= seq![show_query("Discovering: yes"@), kill_scan_command(), scan_off_command()]);
    } else {
        assert(toggle_commands(scan_toggle_plan(), o) =~= seq![show_query("Discovering: yes"@), scan_on_command()]);
    }
}

/// The pairable and discoverable toggles set the opposite of what their query saw.
pub proof fn lemma_setting_toggles(outputs: Seq<Seq<u8>>)
    requires
        outputs.len() >= 2,
    ensures
        toggle_commands(pairable_toggle_plan(), outputs) == seq![
            show_query("Pairable: yes"@),
            pairable_command(!found(outputs[0])),
        ],
        toggle_commands(discoverable_toggle_plan(), outputs) == seq![
            show_query("Discoverable: yes"@),
            discoverable_command(!found(outputs[0])),
        ],
{
    reveal_with_fuel(toggle_commands, 3);
    assert(toggle_commands(pairable_toggle_plan(), outputs) =~= seq![
        show_query("Pairable: yes"@),
        pairable_command(!found(outputs[0])),
    ]);
    assert(toggle_commands(discoverable_toggle_plan(), outputs) =~= seq![
        show_query("Discoverable: yes"@),
        discoverable_command(!found(outputs[0])),
    ]);
}

/// The main menu offers only `Power: off` where the controller is off; else the devices'
/// names, then the controller's entries, each with the state that its query saw.
pub proof fn lemma_main_menu(names: Vec<String>, outputs: Seq<Seq<u8>>)
    requires
        outputs.len() >= 4,
    ensures
        menu_outcome(
            StepView::Run((show_query("Powered: yes"@), query_failure()), MenuStage::Powered(names)),
            outputs,
        ) == Some(
            if found(outputs[0]) {
                controller_menu(
                    names.deep_view(),
                    found(outputs[1]),
                    found(outputs[2]),
                    found(outputs[3]),
                )
            } else {
                power_off_menu()
            },
        ),
{
    reveal_with_fuel(menu_outcome, 5);
    let o = outputs;
    assert(o.drop_first()[0] == o[1]);
    assert(o.drop_first().drop_first()[0] == o[2]);
    assert(o.drop_first().drop_first().drop_first()[0] == o[3]);
}

/// Each entry of the main menu reads only its own query: where the power query printed
/// nothing the menu is `Power: off` alone; otherwise it is the devices' names, the
/// separator, `Power: on`, then `Scan`, `Discoverable` and `Pairable`, each `on` exactly
/// when its own query printed something.
pub proof fn lemma_main_menu_entries(names: Vec<String>, outputs: Seq<Seq<u8>>)
    requires
        outputs.len() >= 4,
    ensures
        ({
            let menu = menu_outcome(
                StepView::Run((show_query("Powered: yes"@), query_failure()), MenuStage::Powered(names)),
                outputs,
            );
            let n = names.deep_view().len() as int;
            if outputs[0].len() == 0 {
                menu == Some(seq!["Power: off"@])
            } else {
                &&& menu is Some
                &&& menu.unwrap().len() == n + 5
                &&& menu.unwrap().take(n) == names.deep_view()
                &&& menu.unwrap()[n] == "----------"@
                &&& menu.unwrap()[n + 1] == "Power: on"@
                &&& menu.unwrap()[n + 2] == if outputs[1].len() > 0 { "Scan: on"@ } else { "Scan: off"@ }
                &&& menu.unwrap()[n + 3] == if outputs[2].len() > 0 {
                    "Discoverable: on"@
                } else {
                    "Discoverable: off"@
                }
                &&& menu.unwrap()[n + 4] == if outputs[3].len() > 0 {
                    "Pairable: on"@
                } else {
                    "Pairable: off"@
                }
            }
        }),
{
    lemma_main_menu(names, outputs);
    reveal_strlit("Scan: on");
    reveal_strlit("Scan: off");
    reveal_strlit("Discoverable: on");
    reveal_strlit("Discoverable: off");
    reveal_strlit("Pairable: on");
    reveal_strlit("Pairable: off");
    reveal_strlit("Scan");
    reveal_strlit("Discoverable");
    reveal_strlit("Pairable");
    reveal_strlit(": ");
    reveal_strlit("on");
    reveal_strlit("off");
    let n = names.deep_view().len() as int;
    if outputs[0].len() > 0 {
        let menu = controller_menu(
            names.deep_view(),
            found(outputs[1]),
            found(outputs[2]),
            found(outputs[3]),
        );
        assert(menu.take(n) =~= names.deep_view());
        if found(outputs[1]) {
            assert(menu[n + 2] =~= "Scan: on"@);
        } else {
            assert(menu[n + 2] =~= "Scan: off"@);
        }
        if found(outputs[2]) {
            assert(menu[n + 3] =~= "Discoverable: on"@);
        } else {
            assert(menu[n + 3] =~= "Discoverable: off"@);
        }
        if found(outputs[3]) {
            assert(menu[n + 4] =~= "Pairable: on"@);
        } else {
            assert(menu[n + 4] =~= "Pairable: off"@);
        }
    }
}

/// The controller toggles, spelled out: the power toggle asks whether the controller is
/// powered and switches it off where it is, else asks rfkill, unblocks where rfkill
/// printed anything, and switches it on; the scan toggle stops a running scan after
/// killing it, else starts a five-second scan; the pairable and discoverable toggles set
/// the opposite of what their query saw.
pub proof fn lemma_controller_toggles_spelled(outputs: Seq<Seq<u8>>)
    requires
        outputs.len() >= 4,
    ensures
        toggle_commands(power_toggle_plan(), outputs) == if outputs[0].len() > 0 {
            seq!["bluetoothctl show | grep 'Powered: yes'"@, "bluetoothctl power off"@]
        } else if outputs[1].len() > 0 {
            seq![
                "bluetoothctl show | grep 'Powered: yes'"@,
                "rfkill list bluetooth | grep -q 'blocked: yes'"@,
                "rfkill unblock bluetooth | sleep 3"@,
                "bluetoothctl power on"@,
            ]
        } else {
            seq![
                "bluetoothctl show | grep 'Powered: yes'"@,
                "rfkill list bluetooth | grep -q 'blocked: yes'"@,
                "bluetoothctl power on"@,
            ]
        },
        toggle_commands(scan_toggle_plan(), outputs) == if outputs[0].len() > 0 {
            seq![
                "bluetoothctl show | grep 'Discovering: yes'"@,
                "kill $(pgrep -f 'bluetoothctl --timeout 5 scan on')"@,
                "bluetoothctl scan off"@,
            ]
        } else {
            seq!["bluetoothctl show | grep 'Discovering: yes'"@, "bluetoothctl --timeout 5 scan on &"@]
        },
        toggle_commands(pairable_toggle_plan(), outputs) == seq![
            "bluetoothctl show | grep 'Pairable: yes'"@,
            if outputs[0].len() > 0 { "bluetoothctl pairable off"@ } else { "bluetoothctl pairable on"@ },
        ],
        toggle_commands(discoverable_toggle_plan(), outputs) == seq![
            "bluetoothctl show | grep 'Discoverable: yes'"@,
            if outputs[0].len() > 0 {
                "bluetoothctl discoverable off"@
            } else {
                "bluetoothctl discoverable on"@
            },
        ],
{
    lemma_power_toggle(outputs);
    lemma_scan_toggle(outputs);
    lemma_setting_toggles(outputs);
    reveal_strlit("bluetoothctl show | grep '");
    reveal_strlit("'");
    reveal_strlit("Powered: yes");
    reveal_strlit("Discovering: yes");
    reveal_strlit("Pairable: yes");
    reveal_strlit("Discoverable: yes");
    reveal_strlit("bluetoothctl show | grep 'Powered: yes'");
    reveal_strlit("bluetoothctl show | grep 'Discovering: yes'");
    reveal_strlit("bluetoothctl show | grep 'Pairable: yes'");
    reveal_strlit("bluetoothctl show | grep 'Discoverable: yes'");
    reveal_strlit("bluetoothctl power ");
    reveal_strlit("bluetoothctl pairable ");
    reveal_strlit("bluetoothctl discoverable ");
    reveal_strlit("on");
    reveal_strlit("off");
    reveal_strlit("bluetoothctl power on");
    reveal_strlit("bluetoothctl power off");
    reveal_strlit("bluetoothctl pairable on");
    reveal_strlit("bluetoothctl pairable off");
    reveal_strlit("bluetoothctl discoverable on");
    reveal_strlit("bluetoothctl discoverable off");
    assert(show_query("Powered: yes"@) =~= "bluetoothctl show | grep 'Powered: yes'"@);
    assert(show_query("Discovering: yes"@) =~= "bluetoothctl show | grep 'Discovering: yes'"@);
    assert(show_query("Pairable: yes"@) =~= "bluetoothctl show | grep 'Pairable: yes'"@);
    assert(show_query("Discoverable: yes"@) =~= "bluetoothctl show | grep 'Discoverable: yes'"@);
    assert(power_command(true) =~= "bluetoothctl power on"@);
    assert(power_command(false) =~= "bluetoothctl power off"@);
    assert(pairable_command(true) =~= "bluetoothctl pairable on"@);
    assert(pairable_command(false) =~= "bluetoothctl pairable off"@);
    assert(discoverable_command(true) =~= "bluetoothctl discoverable on"@);
    assert(discoverable_command(false) =~= "bluetoothctl discoverable off"@);
}

/// The main menu asks, in order, whether the controller is powered, and only where it is,
/// whether it scans, is discoverable and is pairable; these are the outputs that the menu
/// entries read, one each.
pub proof fn lemma_main_menu_queries(names: Vec<String>, outputs: Seq<Seq<u8>>)
    requires
        outputs.len() >= 4,
    ensures
        menu_commands(
            StepView::Run((show_query("Powered: yes"@), query_failure()), MenuStage::Powered(names)),
            outputs,
        ) == if outputs[0].len() > 0 {
            seq![
                "bluetoothctl show | grep 'Powered: yes'"@,
                "bluetoothctl show | grep 'Discovering: yes'"@,
                "bluetoothctl show | grep 'Discoverable: yes'"@,
                "bluetoothctl show | grep 'Pairable: yes'"@,
            ]
        } else {
            seq!["bluetoothctl show | grep 'Powered: yes'"@]
        },
{
    reveal_with_fuel(menu_commands, 5);
    reveal_strlit("bluetoothctl show | grep '");
    reveal_strlit("'");
    reveal_strlit("Powered: yes");
    reveal_strlit("Discovering: yes");
    reveal_strlit("Pairable: yes");
    reveal_strlit("Discoverable: yes");
    reveal_strlit("bluetoothctl show | grep 'Powered: yes'");
    reveal_strlit("bluetoothctl show | grep 'Discovering: yes'");
    reveal_strlit("bluetoothctl show | grep 'Pairable: yes'");
    reveal_strlit("bluetoothctl show | grep 'Discoverable: yes'");
    assert(show_query("Powered: yes"@) =~= "bluetoothctl show | grep 'Powered: yes'"@);
    assert(show_query("Discovering: yes"@) =~= "bluetoothctl show | grep 'Discovering: yes'"@);
    assert(show_query("Pairable: yes"@) =~= "bluetoothctl show | grep 'Pairable: yes'"@);
    assert(show_query("Discoverable: yes"@) =~= "bluetoothctl show | grep 'Discoverable: yes'"@);
    let o = outputs;
    assert(o.drop_first()[0] == o[1]);
    assert(o.drop_first().drop_first()[0] == o[2]);
    assert(o.drop_first().drop_first().drop_first()[0] == o[3]);
    let start = StepView::<MenuStage, Seq<Seq<char>>>::Run(
        (show_query("Powered: yes"@), query_failure()),
        MenuStage::Powered(names),
    );
    if o[0].len() > 0 {
        assert(menu_commands(start, o) =~= seq![
            "bluetoothctl show | grep 'Powered: yes'"@,
            "bluetoothctl show | grep 'Discovering: yes'"@,
            "bluetoothctl show | grep 'Discoverable: yes'"@,
            "bluetoothctl show | grep 'Pairable: yes'"@,
        ]);
    } else {
        assert(menu_commands(start, o) =~= seq!["bluetoothctl show | grep 'Powered: yes'"@]);
    }
}

} // verus!