use crate::bluetooth::controller::{
    discoverable_toggle_plan, pairable_toggle_plan, power_toggle_plan, scan_toggle_plan,
    toggle_discoverable, toggle_pairable, toggle_power, toggle_scan,
};
use crate::bluetooth::device::{connection_plan, pair_plan, trust_plan, Device};
use crate::bluetooth::{
    controller_menu, device_menu, option_line, power_off_menu, separator, MenuStage, Step,
    StepView, ToggleStage,
};
use crate::text::same_text;
use vstd::prelude::*;

verus! {

/// How the main menu ends.
#[derive(Debug)]
pub enum BluetoothMenuResult {
    /// Show the main menu again.
    Continue,
    /// Leave, with this message.
    ExitWithError(String),
}

/// How a device menu ends.
#[derive(Debug)]
pub enum DeviceMenuResult {
    /// Back to the main menu.
    Back,
    /// Show the device menu again.
    Continue,
    /// Leave, with this message.
    ExitWithError(String),
}

/// Why a prompt gave no answer.
#[derive(Debug)]
pub enum PromptError {
    /// The user dismissed the prompt.
    Interrupted,
    /// Anything else, with its message.
    Failed(String),
}

/// The message to leave with when a prompt gave no answer.
pub open spec fn failure_text(err: PromptError) -> Seq<char> {
    match err {
        PromptError::Interrupted => "Interrupted"@,
        PromptError::Failed(msg) => msg@,
    }
}

/// The message to leave with when a prompt gave no answer.
pub fn prompt_failure(err: PromptError) -> (res: String)
    ensures
        res@ == failure_text(err),
{
    match err {
        PromptError::Interrupted => "Interrupted".to_owned(),
        PromptError::Failed(msg) => msg,
    }
}

/// The toggle that a main menu entry asks for, if it names one.
pub open spec fn controller_choice(choice: Seq<char>) -> Option<StepView<ToggleStage, ()>> {
    if choice == "Power: on"@ || choice == "Power: off"@ {
        Some(power_toggle_plan())
    } else if choice == "Scan: on"@ || choice == "Scan: off"@ {
        Some(scan_toggle_plan())
    } else if choice == "Pairable: on"@ || choice == "Pairable: off"@ {
        Some(pairable_toggle_plan())
    } else if choice == "Discoverable: on"@ || choice == "Discoverable: off"@ {
        Some(discoverable_toggle_plan())
    } else {
        None
    }
}

/// Handles the controller entries of the main menu: the toggle to run, after which the
/// main menu goes on; `None` for any other entry.
pub fn handle_controller_toggle(choice: &str) -> (res: Option<(BluetoothMenuResult, Step<ToggleStage, ()>)>)
    ensures
        match res {
            Some((result, plan)) => result == BluetoothMenuResult::Continue && controller_choice(
                choice@,
            ) == Some(plan.deep_view()),
            None => controller_choice(choice@) is None,
        },
{
    if same_text(choice, "Power: on") || same_text(choice, "Power: off") {
        Some((BluetoothMenuResult::Continue, toggle_power()))
    } else if same_text(choice, "Scan: on") || same_text(choice, "Scan: off") {
        Some((BluetoothMenuResult::Continue, toggle_scan()))
    } else if same_text(choice, "Pairable: on") || same_text(choice, "Pairable: off") {
        Some((BluetoothMenuResult::Continue, toggle_pairable()))
    } else if same_text(choice, "Discoverable: on") || same_text(choice, "Discoverable: off") {
        Some((BluetoothMenuResult::Continue, toggle_discoverable()))
    } else {
        None
    }
}

/// What a device menu entry asks for, if it is one that the menu handles: how the menu
/// ends, and the toggle to run first.
pub open spec fn device_choice(choice: Seq<char>, mac: String) -> Option<(DeviceMenuResult, Option<StepView<ToggleStage, ()>>)> {
    if choice == "Trusted: off"@ || choice == "Trusted: on"@ {
        Some((DeviceMenuResult::Continue, Some(trust_plan(mac))))
    } else if choice == "Paired: off"@ || choice == "Paired: on"@ {
        Some((DeviceMenuResult::Continue, Some(pair_plan(mac))))
    } else if choice == "Connected: off"@ || choice == "Connected: on"@ {
        Some((DeviceMenuResult::Continue, Some(connection_plan(mac))))
    } else if choice == "Back"@ {
        Some((DeviceMenuResult::Back, None))
    } else {
        None
    }
}

/// Handles the entries of a device menu: the toggles go on with the menu after running,
/// `Back` returns to the main menu; `None` for any other entry.
pub fn handle_device_toggle(choice: &str, device: &Device) -> (res: Option<(DeviceMenuResult, Option<Step<ToggleStage, ()>>)>)
    ensures
        match res {
            Some((result, plan)) => device_choice(choice@, device.mac) == Some(
                (result, plan.deep_view()),
            ),
            None => device_choice(choice@, device.mac) is None,
        },
{
    if same_text(choice, "Trusted: off") || same_text(choice, "Trusted: on") {
        Some((DeviceMenuResult::Continue, Some(device.toggle_trust())))
    } else if same_text(choice, "Paired: off") || same_text(choice, "Paired: on") {
        Some((DeviceMenuResult::Continue, Some(device.toggle_paired())))
    } else if same_text(choice, "Connected: off") || same_text(choice, "Connected: on") {
        Some((DeviceMenuResult::Continue, Some(device.toggle_connection())))
    } else if same_text(choice, "Back") {
        Some((DeviceMenuResult::Back, None))
    } else {
        None
    }
}

/// How a device menu begins.
pub enum DeviceMenuPlan {
    /// No menu to show: it ends at once.
    Finished(DeviceMenuResult),
    /// Build the device's menu with this plan, then prompt with it.
    Prompt(Step<MenuStage, Vec<String>>),
}

/// Begins the menu of the selected device; without one, goes back at once.
pub fn show_device_menu(device: Option<&Device>) -> (res: DeviceMenuPlan)
    ensures
        match device {
            None => res == DeviceMenuPlan::Finished(DeviceMenuResult::Back),
            Some(d) => res matches DeviceMenuPlan::Prompt(plan) && plan.deep_view()
                == StepView::<MenuStage, Seq<Seq<char>>>::Run(
                (crate::bluetooth::info_query(d.mac@, "Connected: yes"@), crate::bluetooth::query_failure()),
                MenuStage::Connected(d.mac),
            ),
        },
{
    match device {
        Some(device) => DeviceMenuPlan::Prompt(device.get_menu()),
        None => DeviceMenuPlan::Finished(DeviceMenuResult::Back),
    }
}

/// Handles the answer to a device menu: a handled entry as [`handle_device_toggle`]
/// says, any other entry shows the menu again, and a failed prompt leaves.
pub fn answer_device_menu(device: &Device, answer: Result<String, PromptError>) -> (res: (DeviceMenuResult, Option<Step<ToggleStage, ()>>))
    ensures
        match answer {
            Ok(choice) => match device_choice(choice@, device.mac) {
                Some(handled) => handled == (res.0, res.1.deep_view()),
                None => res.0 == DeviceMenuResult::Continue && res.1 is None,
            },
            Err(err) => res.0 matches DeviceMenuResult::ExitWithError(msg) && msg@ == failure_text(
                err,
            ) && res.1 is None,
        },
{
    match answer {
        Ok(choice) => match handle_device_toggle(choice.as_str(), device) {
            Some(handled) => handled,
            None => (DeviceMenuResult::Continue, None),
        },
        Err(err) => (DeviceMenuResult::ExitWithError(prompt_failure(err)), None),
    }
}

/// The first device with this name, by its view.
pub open spec fn first_named(devices: Seq<(Seq<char>, Seq<char>)>, name: Seq<char>) -> Option<(Seq<char>, Seq<char>)>
    decreases devices.len(),
{
    if devices.len() == 0 {
        None
    } else if devices[0].1 == name {
        Some(devices[0])
    } else {
        first_named(devices.drop_first(), name)
    }
}

/// The first device whose name is the chosen entry.
pub fn select_device(devices: &Vec<Device>, choice: &str) -> (res: Option<Device>)
    ensures
        res.deep_view() == first_named(devices.deep_view(), choice@),
        match res {
            Some(d) => exists|i: int|
                0 <= i < devices.len() && d.deep_view() == devices@[i].deep_view() && d.name@
                    == choice@ && forall|j: int| 0 <= j < i ==> devices@[j].name@ != choice@,
            None => forall|j: int| 0 <= j < devices.len() ==> devices@[j].name@ != choice@,
        },
{
    let ghost all = devices.deep_view();
    assert(all.skip(0) =~= all);
    let mut i: usize = 0;
    while i < devices.len()
        invariant
            i <= devices.len(),
            all == devices.deep_view(),
            first_named(all, choice@) == first_named(all.skip(i as int), choice@),
            forall|j: int| 0 <= j < i ==> devices@[j].name@ != choice@,
        decreases devices.len() - i,
    {
        proof {
            assert(all.skip(i as int)[0] == all[i as int]);
            assert(all.skip(i as int).drop_first() =~= all.skip(i + 1));
            assert(all[i as int] == devices@[i as int].deep_view());
        }
        if same_text(devices[i].name.as_str(), choice) {
            let found = Device { mac: devices[i].mac.clone(), name: devices[i].name.clone() };
            assert(found.deep_view() == devices@[i as int].deep_view());
            return Some(found);
        }
        i = i + 1;
    }
    assert(all.skip(i as int).len() == 0);
    None
}

/// How the main menu goes on after a device menu has ended.
#[derive(Debug)]
pub enum AfterDeviceMenu {
    /// Show the device menu again.
    Again,
    /// Print the chosen main menu entry, then end the main menu with this result.
    ReportAndFinish(BluetoothMenuResult),
    /// End the main menu with this result at once.
    Finish(BluetoothMenuResult),
}

/// How the main menu goes on after a device menu ended with `result`.
pub open spec fn after_device_menu_spec(result: DeviceMenuResult) -> AfterDeviceMenu {
    match result {
        DeviceMenuResult::Back => AfterDeviceMenu::ReportAndFinish(BluetoothMenuResult::Continue),
        DeviceMenuResult::Continue => AfterDeviceMenu::Again,
        DeviceMenuResult::ExitWithError(e) => AfterDeviceMenu::Finish(
            BluetoothMenuResult::ExitWithError(e),
        ),
    }
}

/// Decides how the main menu goes on after a device menu: going back reports the entry
/// and continues the main menu, continuing shows the device menu again, and an error
/// ends the main menu with it at once.
pub fn after_device_menu(result: DeviceMenuResult) -> (res: AfterDeviceMenu)
    ensures
        res == after_device_menu_spec(result),
{
    match result {
        DeviceMenuResult::Back => AfterDeviceMenu::ReportAndFinish(BluetoothMenuResult::Continue),
        DeviceMenuResult::Continue => AfterDeviceMenu::Again,
        DeviceMenuResult::ExitWithError(e) => AfterDeviceMenu::Finish(
            BluetoothMenuResult::ExitWithError(e),
        ),
    }
}

/// How the main menu ends after a run of device menus that ended with `results`, in
/// order: as the first result that is not `Continue` says; `None` while none is.
pub open spec fn device_menus_outcome(results: Seq<DeviceMenuResult>) -> Option<AfterDeviceMenu>
    decreases results.len(),
{
    if results.len() == 0 {
        None
    } else if results[0] == DeviceMenuResult::Continue {
        device_menus_outcome(results.drop_first())
    } else {
        Some(after_device_menu_spec(results[0]))
    }
}

/// Once the main menu shows a device menu, it ends only when a device menu goes back,
/// then with `Continue` after reporting the entry, or fails, then with that error at once.
pub proof fn lemma_device_menus_end(results: Seq<DeviceMenuResult>, k: int)
    requires
        0 <= k < results.len(),
        forall|j: int| 0 <= j < k ==> results[j] == DeviceMenuResult::Continue,
        results[k] != DeviceMenuResult::Continue,
    ensures
        device_menus_outcome(results) == Some(
            match results[k] {
                DeviceMenuResult::ExitWithError(e) => AfterDeviceMenu::Finish(
                    BluetoothMenuResult::ExitWithError(e),
                ),
                _ => AfterDeviceMenu::ReportAndFinish(BluetoothMenuResult::Continue),
            },
        ),
    decreases k,
{
    if k > 0 {
        assert(results[0] == DeviceMenuResult::Continue);
        lemma_device_menus_end(results.drop_first(), k - 1);
    }
}

/// What the answer to the main menu asks for.
pub enum MainMenuAnswer {
    /// A controller entry: run the toggle, then end the main menu with the result.
    Toggle(BluetoothMenuResult, Step<ToggleStage, ()>),
    /// Any other entry: show the menu of the device that it names (none where no device
    /// has that name) until it goes back, then report the entry and continue.
    Device(Option<Device>, String),
    /// The prompt gave no answer: end with this result.
    Exit(BluetoothMenuResult),
}

/// Handles the answer to the main menu.
pub fn answer_main_menu(devices: &Vec<Device>, answer: Result<String, PromptError>) -> (res: MainMenuAnswer)
    ensures
        match answer {
            Ok(choice) => match controller_choice(choice@) {
                Some(plan) => res matches MainMenuAnswer::Toggle(result, step) && result
                    == BluetoothMenuResult::Continue && step.deep_view() == plan,
                None => res matches MainMenuAnswer::Device(selected, entry) && entry@ == choice@
                    && selected.deep_view() == first_named(devices.deep_view(), choice@),
            },
            Err(err) => res matches MainMenuAnswer::Exit(BluetoothMenuResult::ExitWithError(msg))
                && msg@ == failure_text(err),
        },
{
    match answer {
        Ok(choice) => match handle_controller_toggle(choice.as_str()) {
            Some((result, step)) => MainMenuAnswer::Toggle(result, step),
            None => {
                let selected = select_device(devices, choice.as_str());
                MainMenuAnswer::Device(selected, choice)
            },
        },
        Err(err) => MainMenuAnswer::Exit(BluetoothMenuResult::ExitWithError(prompt_failure(err))),
    }
}

/// Texts that differ at some position differ.
proof fn lemma_texts_differ(a: Seq<char>, b: Seq<char>, i: int)
    requires
        0 <= i < a.len(),
        i < b.len(),
        a[i] != b[i],
    ensures
        a != b,
{
}

/// Every controller entry of the main menu is handled, by the toggle of the setting that
/// it names, whatever state it shows; the separator is not handled.
pub proof fn lemma_main_menu_entries_handled(names: Seq<Seq<char>>, scan: bool, discoverable: bool, pairable: bool)
    ensures
        ({
            let menu = controller_menu(names, scan, discoverable, pairable);
            &&& controller_choice(menu[names.len() as int]) is None
            &&& controller_choice(menu[names.len() + 1int]) == Some(power_toggle_plan())
            &&& controller_choice(menu[names.len() + 2int]) == Some(scan_toggle_plan())
            &&& controller_choice(menu[names.len() + 3int]) == Some(discoverable_toggle_plan())
            &&& controller_choice(menu[names.len() + 4int]) == Some(pairable_toggle_plan())
        }),
        controller_choice(power_off_menu()[0]) == Some(power_toggle_plan()),
{
    reveal_strlit("Power: on");
    reveal_strlit("Power: off");
    reveal_strlit("Scan: on");
    reveal_strlit("Scan: off");
    reveal_strlit("Pairable: on");
    reveal_strlit("Pairable: off");
    reveal_strlit("Discoverable: on");
    reveal_strlit("Discoverable: off");
    reveal_strlit("----------");
    reveal_strlit("Scan");
    reveal_strlit("Pairable");
    reveal_strlit("Discoverable");
    reveal_strlit(": ");
    reveal_strlit("on");
    reveal_strlit("off");
    let menu = controller_menu(names, scan, discoverable, pairable);
    assert(menu[names.len() as int] == separator());
    assert(menu[names.len() + 1int] == "Power: on"@);
    assert(menu[names.len() + 2int] == option_line("Scan"@, scan));
    assert(menu[names.len() + 3int] == option_line("Discoverable"@, discoverable));
    assert(menu[names.len() + 4int] == option_line("Pairable"@, pairable));
    if scan {
        assert(option_line("Scan"@, scan) =~= "Scan: on"@);
    } else {
        assert(option_line("Scan"@, scan) =~= "Scan: off"@);
    }
    if discoverable {
        assert(option_line("Discoverable"@, discoverable) =~= "Discoverable: on"@);
    } else {
        assert(option_line("Discoverable"@, discoverable) =~= "Discoverable: off"@);
    }
    if pairable {
        assert(option_line("Pairable"@, pairable) =~= "Pairable: on"@);
    } else {
        assert(option_line("Pairable"@, pairable) =~= "Pairable: off"@);
    }
    lemma_texts_differ("Scan: on"@, "Power: on"@, 0);
    lemma_texts_differ("Scan: on"@, "Power: off"@, 0);
    lemma_texts_differ("Scan: off"@, "Power: on"@, 0);
    lemma_texts_differ("Scan: off"@, "Power: off"@, 0);
    lemma_texts_differ("Pairable: on"@, "Power: on"@, 1);
    lemma_texts_differ("Pairable: on"@, "Power: off"@, 1);
    lemma_texts_differ("Pairable: off"@, "Power: on"@, 1);
    lemma_texts_differ("Pairable: off"@, "Power: off"@, 1);
    lemma_texts_differ("Pairable: on"@, "Scan: on"@, 0);
    lemma_texts_differ("Pairable: on"@, "Scan: off"@, 0);
    lemma_texts_differ("Pairable: off"@, "Scan: on"@, 0);
    lemma_texts_differ("Pairable: off"@, "Scan: off"@, 0);
    lemma_texts_differ("Discoverable: on"@, "Power: on"@, 0);
    lemma_texts_differ("Discoverable: on"@, "Power: off"@, 0);
    lemma_texts_differ("Discoverable: off"@, "Power: on"@, 0);
    lemma_texts_differ("Discoverable: off"@, "Power: off"@, 0);
    lemma_texts_differ("Discoverable: on"@, "Scan: on"@, 0);
    lemma_texts_differ("Discoverable: on"@, "Scan: off"@, 0);
    lemma_texts_differ("Discoverable: off"@, "Scan: on"@, 0);
    lemma_texts_differ("Discoverable: off"@, "Scan: off"@, 0);
    lemma_texts_differ("Discoverable: on"@, "Pairable: on"@, 0);
    lemma_texts_differ("Discoverable: on"@, "Pairable: off"@, 0);
    lemma_texts_differ("Discoverable: off"@, "Pairable: on"@, 0);
    lemma_texts_differ("Discoverable: off"@, "Pairable: off"@, 0);
    lemma_texts_differ(separator(), "Power: on"@, 0);
    lemma_texts_differ(separator(), "Power: off"@, 0);
    lemma_texts_differ(separator(), "Scan: on"@, 0);
    lemma_texts_differ(separator(), "Scan: off"@, 0);
    lemma_texts_differ(separator(), "Pairable: on"@, 0);
    lemma_texts_differ(separator(), "Pairable: off"@, 0);
    lemma_texts_differ(separator(), "Discoverable: on"@, 0);
    lemma_texts_differ(separator(), "Discoverable: off"@, 0);
}

/// Every entry of a device menu but the separator is handled: each flag entry by the
/// toggle of that flag, `Back` by going back.
pub proof fn lemma_device_menu_entries_handled(mac: String, connected: bool, paired: bool, trusted: bool)
    ensures
        ({
            let menu = device_menu(connected, paired, trusted);
            &&& device_choice(menu[0], mac) == Some((DeviceMenuResult::Continue, Some(connection_plan(mac))))
            &&& device_choice(menu[1], mac) == Some((DeviceMenuResult::Continue, Some(pair_plan(mac))))
            &&& device_choice(menu[2], mac) == Some((DeviceMenuResult::Continue, Some(trust_plan(mac))))
            &&& device_choice(menu[3], mac) is None
            &&& device_choice(menu[4], mac) == Some((DeviceMenuResult::Back, None::<StepView<ToggleStage, ()>>))
        }),
{
    reveal_strlit("Trusted: off");
    reveal_strlit("Trusted: on");
    reveal_strlit("Paired: off");
    reveal_strlit("Paired: on");
    reveal_strlit("Connected: off");
    reveal_strlit("Connected: on");
    reveal_strlit("Back");
    reveal_strlit("----------");
    reveal_strlit("Trusted");
    reveal_strlit("Paired");
    reveal_strlit("Connected");
    reveal_strlit(": ");
    reveal_strlit("on");
    reveal_strlit("off");
    let menu = device_menu(connected, paired, trusted);
    if connected {
        assert(menu[0] =~= "Connected: on"@);
    } else {
        assert(menu[0] =~= "Connected: off"@);
    }
    if paired {
        assert(menu[1] =~= "Paired: on"@);
    } else {
        assert(menu[1] =~= "Paired: off"@);
    }
    if trusted {
        assert(menu[2] =~= "Trusted: on"@);
    } else {
        assert(menu[2] =~= "Trusted: off"@);
    }
    lemma_texts_differ(menu[0], "Trusted: on"@, 0);
    lemma_texts_differ(menu[0], "Trusted: off"@, 0);
    lemma_texts_differ(menu[0], "Paired: on"@, 0);
    lemma_texts_differ(menu[0], "Paired: off"@, 0);
    lemma_texts_differ(menu[1], "Trusted: on"@, 0);
    lemma_texts_differ(menu[1], "Trusted: off"@, 0);
    assert(menu[3] == separator());
    lemma_texts_differ(separator(), "Trusted: on"@, 0);
    lemma_texts_differ(separator(), "Trusted: off"@, 0);
    lemma_texts_differ(separator(), "Paired: on"@, 0);
    lemma_texts_differ(separator(), "Paired: off"@, 0);
    lemma_texts_differ(separator(), "Connected: on"@, 0);
    lemma_texts_differ(separator(), "Connected: off"@, 0);
    lemma_texts_differ(separator(), "Back"@, 0);
    assert(menu[4] == "Back"@);
    lemma_texts_differ("Back"@, "Trusted: on"@, 0);
    lemma_texts_differ("Back"@, "Trusted: off"@, 0);
    lemma_texts_differ("Back"@, "Paired: on"@, 0);
    lemma_texts_differ("Back"@, "Paired: off"@, 0);
    lemma_texts_differ("Back"@, "Connected: on"@, 0);
    lemma_texts_differ("Back"@, "Connected: off"@, 0);
}

/// The device chosen by name has exactly that name, and no device before it has; where
/// none is chosen, no device has that name.
pub proof fn lemma_first_named(devices: Seq<(Seq<char>, Seq<char>)>, name: Seq<char>)
    ensures
        match first_named(devices, name) {
            Some(d) => exists|i: int|
                0 <= i < devices.len() && devices[i] == d && d.1 == name && forall|j: int|
                    0 <= j < i ==> devices[j].1 != name,
            None => forall|j: int| 0 <= j < devices.len() ==> devices[j].1 != name,
        },
    decreases devices.len(),
{
    if devices.len() > 0 {
        lemma_first_named(devices.drop_first(), name);
        if devices[0].1 != name {
            match first_named(devices, name) {
                Some(d) => {
                    let k = choose|k: int|
                        0 <= k < devices.drop_first().len() && devices.drop_first()[k] == d
                            && d.1 == name && forall|j: int|
                            0 <= j < k ==> devices.drop_first()[j].1 != name;
                    assert(devices[k + 1] == d);
                    assert forall|j: int| 0 <= j < k + 1 implies devices[j].1 != name by {
                        if j > 0 {
                            assert(devices[j] == devices.drop_first()[j - 1]);
                        }
                    }
                },
                None => {
                    assert forall|j: int| 0 <= j < devices.len() implies devices[j].1 != name by {
                        if j > 0 {
                            assert(devices[j] == devices.drop_first()[j - 1]);
                        }
                    }
                },
            }
        }
    }
}

} // verus!