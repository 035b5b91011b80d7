use rofi_bluetooth::bluetooth::controller::{
    discoverable_on, get_menu_options, pairable_on, power_on, scan_on, toggle_discoverable,
    toggle_pairable, toggle_power, toggle_scan,
};
use rofi_bluetooth::bluetooth::device::{get_devices, Device, DeviceListing};
use rofi_bluetooth::bluetooth::{format_option, option_on, MenuStage, Probe, Step, ToggleStage};

/// Runs a toggle plan, feeding the outputs in order; gives the commands run, with the
/// lines announced before them.
fn run_toggle(mut step: Step<ToggleStage, ()>, outputs: &[&[u8]]) -> (Vec<String>, Vec<String>) {
    let mut commands = Vec::new();
    let mut said = Vec::new();
    let mut i = 0;
    loop {
        match step {
            Step::Run(a, s) | Step::Report(a, s) => {
                commands.push(a.arg.clone());
                step = s.resume(outputs[i]);
                i += 1;
            }
            Step::Announce(line, a, s) => {
                said.push(line);
                commands.push(a.arg.clone());
                step = s.resume(outputs[i]);
                i += 1;
            }
            Step::Done(()) => return (commands, said),
        }
    }
}

/// Runs a menu plan, feeding the outputs in order; gives the queries run and the menu.
fn run_menu(mut step: Step<MenuStage, Vec<String>>, outputs: &[&[u8]]) -> (Vec<String>, Vec<String>) {
    let mut queries = Vec::new();
    let mut i = 0;
    loop {
        match step {
            Step::Run(a, s) | Step::Report(a, s) | Step::Announce(_, a, s) => {
                queries.push(a.arg.clone());
                step = s.resume(outputs[i]);
                i += 1;
            }
            Step::Done(menu) => return (queries, menu),
        }
    }
}

fn run_probe(step: Step<Probe, bool>, output: &[u8]) -> (String, bool) {
    match step {
        Step::Run(a, s) => match s.resume(output) {
            Step::Done(b) => (a.arg, b),
            _ => panic!("a probe asks one query"),
        },
        _ => panic!("a probe starts with its query"),
    }
}

fn device(mac: &str, name: &str) -> Device {
    Device { mac: mac.to_string(), name: name.to_string() }
}

#[test]
fn format_option_names_the_state() {
    assert_eq!(format_option("Scan", true), "Scan: on");
    assert_eq!(format_option("Pairable", false), "Pairable: off");
}

#[test]
fn option_on_reads_any_output_as_on() {
    assert!(!option_on(b""));
    assert!(option_on(b"\tPowered: yes\n"));
    assert!(option_on(&[0xff, 0xfe]));
}

#[test]
fn power_toggle_switches_off_a_powered_controller() {
    let (commands, said) = run_toggle(toggle_power(), &[b"\tPowered: yes\n", b""]);
    assert_eq!(commands, vec!["bluetoothctl show | grep 'Powered: yes'", "bluetoothctl power off"]);
    assert!(said.is_empty());
}

#[test]
fn power_toggle_switches_on_an_unblocked_controller() {
    let (commands, _) = run_toggle(toggle_power(), &[b"", b"", b""]);
    assert_eq!(
        commands,
        vec![
            "bluetoothctl show | grep 'Powered: yes'",
            "rfkill list bluetooth | grep -q 'blocked: yes'",
            "bluetoothctl power on",
        ]
    );
}

#[test]
fn power_toggle_unblocks_where_rfkill_prints() {
    let (commands, _) = run_toggle(toggle_power(), &[b"", b"Soft blocked: yes\n", b"", b""]);
    assert_eq!(
        commands,
        vec![
            "bluetoothctl show | grep 'Powered: yes'",
            "rfkill list bluetooth | grep -q 'blocked: yes'",
            "rfkill unblock bluetooth | sleep 3",
            "bluetoothctl power on",
        ]
    );
}

#[test]
fn power_toggle_error_messages() {
    match toggle_power() {
        Step::Run(a, s) => {
            assert_eq!(a.err_msg, "failed to execute process");
            match s.resume(b"x") {
                Step::Run(b, _) => assert_eq!(b.err_msg, "failed to toggle power"),
                _ => panic!("the toggle runs a command"),
            }
        }
        _ => panic!("the toggle starts with a query"),
    }
}

#[test]
fn scan_toggle_kills_and_stops_a_scan() {
    let (commands, _) = run_toggle(toggle_scan(), &[b"Discovering: yes", b"", b""]);
    assert_eq!(
        commands,
        vec![
            "bluetoothctl show | grep 'Discovering: yes'",
            "kill $(pgrep -f 'bluetoothctl --timeout 5 scan on')",
            "bluetoothctl scan off",
        ]
    );
}

#[test]
fn scan_toggle_starts_a_scan() {
    let (commands, _) = run_toggle(toggle_scan(), &[b"", b""]);
    assert_eq!(
        commands,
        vec!["bluetoothctl show | grep 'Discovering: yes'", "bluetoothctl --timeout 5 scan on &"]
    );
}

#[test]
fn setting_toggles_set_the_opposite() {
    let (on, _) = run_toggle(toggle_pairable(), &[b"Pairable: yes", b""]);
    assert_eq!(on[1], "bluetoothctl pairable off");
    let (off, _) = run_toggle(toggle_pairable(), &[b"", b""]);
    assert_eq!(off[1], "bluetoothctl pairable on");
    let (on, _) = run_toggle(toggle_discoverable(), &[b"Discoverable: yes", b""]);
    assert_eq!(on, vec!["bluetoothctl show | grep 'Discoverable: yes'", "bluetoothctl discoverable off"]);
    let (off, _) = run_toggle(toggle_discoverable(), &[b"", b""]);
    assert_eq!(off[1], "bluetoothctl discoverable on");
}

#[test]
fn probes_read_their_query() {
    assert_eq!(run_probe(power_on(), b"Powered: yes"), ("bluetoothctl show | grep 'Powered: yes'".to_string(), true));
    assert_eq!(run_probe(scan_on(), b""), ("bluetoothctl show | grep 'Discovering: yes'".to_string(), false));
    assert_eq!(run_probe(pairable_on(), b"y").0, "bluetoothctl show | grep 'Pairable: yes'");
    assert_eq!(run_probe(discoverable_on(), b"y").0, "bluetoothctl show | grep 'Discoverable: yes'");
}

#[test]
fn main_menu_of_a_powered_controller() {
    let devices = vec![device("AA:BB", "Headphones"), device("CC:DD", "Mouse")];
    let (queries, menu) = run_menu(get_menu_options(&devices), &[b"Powered: yes", b"", b"Discoverable: yes", b""]);
    assert_eq!(
        queries,
        vec![
            "bluetoothctl show | grep 'Powered: yes'",
            "bluetoothctl show | grep 'Discovering: yes'",
            "bluetoothctl show | grep 'Discoverable: yes'",
            "bluetoothctl show | grep 'Pairable: yes'",
        ]
    );
    assert_eq!(
        menu,
        vec![
            "Headphones",
            "Mouse",
            "----------",
            "Power: on",
            "Scan: off",
            "Discoverable: on",
            "Pairable: off",
        ]
    );
}

#[test]
fn main_menu_of_a_controller_that_is_off() {
    let devices = vec![device("AA:BB", "Headphones")];
    let (queries, menu) = run_menu(get_menu_options(&devices), &[b""]);
    assert_eq!(queries.len(), 1);
    assert_eq!(menu, vec!["Power: off"]);
}

#[test]
fn device_menu_shows_the_flags() {
    let d = device("AA:BB", "Headphones");
    let (queries, menu) = run_menu(d.get_menu(), &[b"Connected: yes", b"", b"Trusted: yes"]);
    assert_eq!(
        queries,
        vec![
            "bluetoothctl info AA:BB | grep 'Connected: yes'",
            "bluetoothctl info AA:BB | grep 'Paired: yes'",
            "bluetoothctl info AA:BB | grep 'Trusted: yes'",
        ]
    );
    assert_eq!(menu, vec!["Connected: on", "Paired: off", "Trusted: on", "----------", "Back"]);
}

#[test]
fn device_toggles_set_the_opposite() {
    let d = device("AA:BB", "Headphones");
    let (c, _) = run_toggle(d.toggle_trust(), &[b"Trusted: yes", b""]);
    assert_eq!(c, vec!["bluetoothctl info AA:BB | grep 'Trusted: yes'", "bluetoothctl untrust AA:BB"]);
    let (c, _) = run_toggle(d.toggle_trust(), &[b"", b""]);
    assert_eq!(c[1], "bluetoothctl trust AA:BB");
    let (c, _) = run_toggle(d.toggle_connection(), &[b"Connected: yes", b""]);
    assert_eq!(c[1], "bluetoothctl disconnect AA:BB");
    let (c, _) = run_toggle(d.toggle_connection(), &[b"", b""]);
    assert_eq!(c[1], "bluetoothctl connect AA:BB");
    let (c, _) = run_toggle(d.toggle_paired(), &[b"Paired: yes", b""]);
    assert_eq!(c[1], "bluetoothctl remove AA:BB");
    let (c, said) = run_toggle(d.toggle_paired(), &[b"", b""]);
    assert_eq!(c[1], "bluetoothctl pair AA:BB");
    assert!(said.is_empty());
}

#[test]
fn device_toggle_error_messages() {
    let d = device("AA:BB", "Headphones");
    for (plan, msg) in [
        (d.toggle_trust(), "failed to toggle trust"),
        (d.toggle_connection(), "failed to toggle connect"),
        (d.toggle_paired(), "failed to toggle pair"),
    ] {
        match plan {
            Step::Run(_, s) => match s.resume(b"") {
                Step::Run(a, _) => assert_eq!(a.err_msg, msg),
                _ => panic!("the toggle runs a command"),
            },
            _ => panic!("the toggle starts with a query"),
        }
    }
}

#[test]
fn devices_are_read_from_the_listing() {
    match get_devices() {
        Step::Run(a, listing) => {
            assert_eq!(a.arg, "bluetoothctl devices");
            assert_eq!(a.err_msg, "failed getting devices");
            match listing.resume(b"Device AA:BB:CC:DD:EE:FF My Head Phones\n\nDevice 11:22:33:44:55:66 Mouse\n") {
                Step::Done(Some(devices)) => {
                    assert_eq!(devices.len(), 2);
                    assert_eq!(devices[0].mac, "AA:BB:CC:DD:EE:FF");
                    assert_eq!(devices[0].name, "My Head Phones");
                    assert_eq!(devices[1].mac, "11:22:33:44:55:66");
                    assert_eq!(devices[1].name, "Mouse");
                }
                _ => panic!("the listing is readable"),
            }
        }
        _ => panic!("the listing starts with a command"),
    }
}

#[test]
fn device_listing_edge_cases() {
    match DeviceListing.resume(b"") {
        Step::Done(Some(devices)) => assert!(devices.is_empty()),
        _ => panic!("an empty listing has no devices"),
    }
    match DeviceListing.resume(b"Device AA:BB") {
        Step::Done(Some(devices)) => {
            assert_eq!(devices[0].mac, "AA:BB");
            assert_eq!(devices[0].name, "");
        }
        _ => panic!("two fields are enough"),
    }
    match DeviceListing.resume(b"Device AA:BB  Two  Spaces") {
        Step::Done(Some(devices)) => {
            assert_eq!(devices[0].mac, "AA:BB");
            assert_eq!(devices[0].name, " Two  Spaces");
        }
        _ => panic!("the listing is readable"),
    }
    match DeviceListing.resume(b"Device AA:BB Caf\xc3\xa9 \xff") {
        Step::Done(Some(devices)) => assert_eq!(devices[0].name, "Caf\u{e9} \u{fffd}"),
        _ => panic!("the listing is readable"),
    }
}

#[test]
fn device_listing_without_address_is_refused() {
    assert!(matches!(DeviceListing.resume(b"Device AA:BB X\nGarbage\n"), Step::Done(None)));
}

#[test]
fn listing_round_trip() {
    let devices = vec![device("AA:BB:CC", "Living Room  Speaker"), device("11:22", ""), device("33:44", "Pad")];
    let listing: String = devices.iter().map(|d| format!("Device {} {}\n", d.mac, d.name)).collect();
    match DeviceListing.resume(listing.as_bytes()) {
        Step::Done(Some(read)) => {
            assert_eq!(read.len(), devices.len());
            for (r, d) in read.iter().zip(devices.iter()) {
                assert_eq!(r.mac, d.mac);
                assert_eq!(r.name, d.name);
            }
        }
        _ => panic!("the listing reads back"),
    }
}
