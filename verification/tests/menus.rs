use rofi_bluetooth::bluetooth::device::Device;
use rofi_bluetooth::bluetooth::{Step, ToggleStage};
use rofi_bluetooth::ui::rofi::{
    after_device_menu, answer_device_menu, answer_main_menu, AfterDeviceMenu, handle_controller_toggle, handle_device_toggle,
    prompt_failure, select_device, show_device_menu, BluetoothMenuResult, DeviceMenuPlan,
    DeviceMenuResult, MainMenuAnswer, PromptError,
};

fn device(mac: &str, name: &str) -> Device {
    Device { mac: mac.to_string(), name: name.to_string() }
}

fn first_command(step: &Step<ToggleStage, ()>) -> String {
    match step {
        Step::Run(a, _) | Step::Report(a, _) | Step::Announce(_, a, _) => a.arg.clone(),
        Step::Done(()) => String::new(),
    }
}

#[test]
fn controller_entries_pick_their_toggle() {
    for (entry, query) in [
        ("Power: on", "bluetoothctl show | grep 'Powered: yes'"),
        ("Power: off", "bluetoothctl show | grep 'Powered: yes'"),
        ("Scan: on", "bluetoothctl show | grep 'Discovering: yes'"),
        ("Scan: off", "bluetoothctl show | grep 'Discovering: yes'"),
        ("Pairable: on", "bluetoothctl show | grep 'Pairable: yes'"),
        ("Pairable: off", "bluetoothctl show | grep 'Pairable: yes'"),
        ("Discoverable: on", "bluetoothctl show | grep 'Discoverable: yes'"),
        ("Discoverable: off", "bluetoothctl show | grep 'Discoverable: yes'"),
    ] {
        match handle_controller_toggle(entry) {
            Some((BluetoothMenuResult::Continue, step)) => assert_eq!(first_command(&step), query),
            _ => panic!("{} is a controller entry", entry),
        }
    }
}

#[test]
fn other_entries_are_not_controller_toggles() {
    assert!(handle_controller_toggle("----------").is_none());
    assert!(handle_controller_toggle("Headphones").is_none());
    assert!(handle_controller_toggle("power: on").is_none());
}

#[test]
fn device_entries_pick_their_toggle() {
    let d = device("AA:BB", "Headphones");
    for (entry, query) in [
        ("Trusted: on", "bluetoothctl info AA:BB | grep 'Trusted: yes'"),
        ("Trusted: off", "bluetoothctl info AA:BB | grep 'Trusted: yes'"),
        ("Paired: on", "bluetoothctl info AA:BB | grep 'Paired: yes'"),
        ("Paired: off", "bluetoothctl info AA:BB | grep 'Paired: yes'"),
        ("Connected: on", "bluetoothctl info AA:BB | grep 'Connected: yes'"),
        ("Connected: off", "bluetoothctl info AA:BB | grep 'Connected: yes'"),
    ] {
        match handle_device_toggle(entry, &d) {
            Some((DeviceMenuResult::Continue, Some(step))) => assert_eq!(first_command(&step), query),
            _ => panic!("{} is a device entry", entry),
        }
    }
    assert!(matches!(handle_device_toggle("Back", &d), Some((DeviceMenuResult::Back, None))));
    assert!(handle_device_toggle("----------", &d).is_none());
    assert!(handle_device_toggle("Connected: yes", &d).is_none());
}

#[test]
fn device_menu_without_device_goes_back() {
    assert!(matches!(show_device_menu(None), DeviceMenuPlan::Finished(DeviceMenuResult::Back)));
    let d = device("AA:BB", "Headphones");
    match show_device_menu(Some(&d)) {
        DeviceMenuPlan::Prompt(Step::Run(a, _)) => {
            assert_eq!(a.arg, "bluetoothctl info AA:BB | grep 'Connected: yes'")
        }
        _ => panic!("a device has a menu"),
    }
}

#[test]
fn device_menu_answers() {
    let d = device("AA:BB", "Headphones");
    assert!(matches!(answer_device_menu(&d, Ok("Back".to_string())), (DeviceMenuResult::Back, None)));
    assert!(matches!(answer_device_menu(&d, Ok("----------".to_string())), (DeviceMenuResult::Continue, None)));
    assert!(matches!(
        answer_device_menu(&d, Ok("Paired: on".to_string())),
        (DeviceMenuResult::Continue, Some(_))
    ));
    match answer_device_menu(&d, Err(PromptError::Interrupted)) {
        (DeviceMenuResult::ExitWithError(msg), None) => assert_eq!(msg, "Interrupted"),
        _ => panic!("a dismissed prompt leaves"),
    }
    match answer_device_menu(&d, Err(PromptError::Failed("rofi failed".to_string()))) {
        (DeviceMenuResult::ExitWithError(msg), None) => assert_eq!(msg, "rofi failed"),
        _ => panic!("a failed prompt leaves"),
    }
}

#[test]
fn main_menu_answers() {
    let devices = vec![device("AA:BB", "Headphones"), device("CC:DD", "Mouse")];
    assert!(matches!(
        answer_main_menu(&devices, Ok("Scan: off".to_string())),
        MainMenuAnswer::Toggle(BluetoothMenuResult::Continue, _)
    ));
    match answer_main_menu(&devices, Ok("Mouse".to_string())) {
        MainMenuAnswer::Device(Some(d), entry) => {
            assert_eq!(d.mac, "CC:DD");
            assert_eq!(entry, "Mouse");
        }
        _ => panic!("Mouse is a device"),
    }
    match answer_main_menu(&devices, Ok("----------".to_string())) {
        MainMenuAnswer::Device(None, entry) => assert_eq!(entry, "----------"),
        _ => panic!("no device is named so"),
    }
    match answer_main_menu(&devices, Err(PromptError::Interrupted)) {
        MainMenuAnswer::Exit(BluetoothMenuResult::ExitWithError(msg)) => assert_eq!(msg, "Interrupted"),
        _ => panic!("a dismissed prompt leaves"),
    }
}

#[test]
fn select_device_takes_the_first_of_that_name() {
    let devices = vec![device("AA", "Twin"), device("BB", "Other"), device("CC", "Twin")];
    assert_eq!(select_device(&devices, "Twin").unwrap().mac, "AA");
    assert_eq!(select_device(&devices, "Other").unwrap().mac, "BB");
    assert!(select_device(&devices, "twin").is_none());
    assert!(select_device(&Vec::new(), "Twin").is_none());
}

#[test]
fn prompt_failure_messages() {
    assert_eq!(prompt_failure(PromptError::Interrupted), "Interrupted");
    assert_eq!(prompt_failure(PromptError::Failed("boom".to_string())), "boom");
}

#[test]
fn main_menu_after_a_device_menu() {
    assert!(matches!(
        after_device_menu(DeviceMenuResult::Back),
        AfterDeviceMenu::ReportAndFinish(BluetoothMenuResult::Continue)
    ));
    assert!(matches!(after_device_menu(DeviceMenuResult::Continue), AfterDeviceMenu::Again));
    match after_device_menu(DeviceMenuResult::ExitWithError("Interrupted".to_string())) {
        AfterDeviceMenu::Finish(BluetoothMenuResult::ExitWithError(e)) => assert_eq!(e, "Interrupted"),
        _ => panic!("an error ends the main menu"),
    }
}

#[test]
fn entry_naming_no_device_continues() {
    let devices = vec![device("AA:BB", "Headphones")];
    match answer_main_menu(&devices, Ok("----------".to_string())) {
        MainMenuAnswer::Device(selected, _) => match show_device_menu(selected.as_ref()) {
            DeviceMenuPlan::Finished(result) => assert!(matches!(
                after_device_menu(result),
                AfterDeviceMenu::ReportAndFinish(BluetoothMenuResult::Continue)
            )),
            _ => panic!("no device, no menu"),
        },
        _ => panic!("the separator is no controller entry"),
    }
}
