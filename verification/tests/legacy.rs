use rofi_bluetooth::bluetooth::{MenuStage, Probe, Step, ToggleStage};
use rofi_bluetooth::text::{join_from, same_text, split_text};
use rofi_bluetooth::{
    discoverable_on, get_devices, pairable_on, power_on, scan_on, toggle_discoverable,
    toggle_pairable, toggle_power, toggle_scan, Device,
};

fn run_toggle(mut step: Step<ToggleStage, ()>, outputs: &[&[u8]]) -> (Vec<String>, Vec<String>, usize) {
    let mut commands = Vec::new();
    let mut said = Vec::new();
    let mut reported = 0;
    let mut i = 0;
    loop {
        match step {
            Step::Run(a, s) => {
                commands.push(a.arg.clone());
                step = s.resume(outputs[i]);
                i += 1;
            }
            Step::Report(a, s) => {
                reported += 1;
                commands.push(a.arg.clone());
                step = s.resume(outputs[i]);
                i += 1;
            }
            Step::Announce(line, a, s) => {
                said.push(line);
                commands.push(a.arg.clone());
                step = s.resume(outputs[i]);
                i += 1;
            }
            Step::Done(()) => return (commands, said, reported),
        }
    }
}

fn run_menu(mut step: Step<MenuStage, Vec<String>>, outputs: &[&[u8]]) -> Vec<String> {
    let mut i = 0;
    loop {
        match step {
            Step::Run(_, s) | Step::Report(_, s) | Step::Announce(_, _, s) => {
                step = s.resume(outputs[i]);
                i += 1;
            }
            Step::Done(menu) => return menu,
        }
    }
}

fn probe(step: Step<Probe, bool>, output: &[u8]) -> bool {
    match step {
        Step::Run(_, s) => matches!(s.resume(output), Step::Done(true)),
        _ => panic!("a probe starts with its query"),
    }
}

fn device(mac: &str) -> Device {
    Device { mac: mac.to_string(), name: "Speaker".to_string() }
}

#[test]
fn legacy_power_toggle_follows_its_argument() {
    let (c, _, _) = run_toggle(toggle_power(false), &[b""]);
    assert_eq!(c, vec!["bluetoothctl power off"]);
    let (c, _, _) = run_toggle(toggle_power(true), &[b"", b""]);
    assert_eq!(c, vec!["rfkill list bluetooth | grep -q 'blocked: yes'", "bluetoothctl power on"]);
    let (c, _, _) = run_toggle(toggle_power(true), &[b"blocked", b"", b""]);
    assert_eq!(c[1], "rfkill unblock bluetooth | sleep 3");
    assert_eq!(c[2], "bluetoothctl power on");
}

#[test]
fn legacy_scan_toggle_reports_a_started_scan() {
    let (c, _, reported) = run_toggle(toggle_scan(false), &[b""]);
    assert_eq!(c, vec!["bluetoothctl --timeout 5 scan on &"]);
    assert_eq!(reported, 1);
    let (c, _, reported) = run_toggle(toggle_scan(true), &[b"", b""]);
    assert_eq!(
        c,
        vec!["kill $(pgrep -f 'bluetoothctl --timeout 5 scan on')", "bluetoothctl scan off"]
    );
    assert_eq!(reported, 0);
}

#[test]
fn legacy_setting_toggles() {
    assert_eq!(run_toggle(toggle_pairable(true), &[b""]).0, vec!["bluetoothctl pairable off"]);
    assert_eq!(run_toggle(toggle_pairable(false), &[b""]).0, vec!["bluetoothctl pairable on"]);
    assert_eq!(run_toggle(toggle_discoverable(true), &[b""]).0, vec!["bluetoothctl discoverable off"]);
    assert_eq!(run_toggle(toggle_discoverable(false), &[b""]).0, vec!["bluetoothctl discoverable on"]);
}

#[test]
fn legacy_probes() {
    assert!(probe(discoverable_on(), b"Discoverable: yes"));
    assert!(!probe(scan_on(), b""));
    assert!(probe(pairable_on(), b"x"));
    assert!(probe(power_on(), b""));
    assert!(!probe(power_on(), b"Powered: yes"));
    let d = device("AA:BB");
    assert!(probe(d.trusted(), b""));
    assert!(!probe(d.paired(), b"Paired: yes"));
    assert!(!probe(d.connected(), b"Connected: yes"));
}

#[test]
fn legacy_device_toggles() {
    let d = device("AA:BB");
    let (c, _, _) = run_toggle(d.toggle_trust(), &[b"Trusted: yes", b""]);
    assert_eq!(c, vec!["bluetoothctl info AA:BB | grep 'Trusted: yes'", "bluetoothctl untrust AA:BB"]);
    let (c, _, _) = run_toggle(d.toggle_connection(), &[b"", b""]);
    assert_eq!(c[1], "bluetoothctl connect AA:BB");
    let (c, said, _) = run_toggle(d.toggle_paired(), &[b"Paired: yes", b""]);
    assert_eq!(c[1], "bluetoothctl remove AA:BB");
    assert_eq!(said, vec!["RUN PAIRED REMOVE"]);
    let (c, said, _) = run_toggle(d.toggle_paired(), &[b"", b""]);
    assert_eq!(c[1], "bluetoothctl pair AA:BB");
    assert_eq!(said, vec!["RUN PAIRED PAIR"]);
}

#[test]
fn legacy_device_menu_says_yes_and_no() {
    let d = device("AA:BB");
    let menu = run_menu(d.get_menu(), &[b"Connected: yes", b"", b"Trusted: yes"]);
    assert_eq!(menu, vec!["Connected: yes", "Paired: no", "Trusted: yes", "----------", "Back"]);
}

#[test]
fn legacy_devices() {
    match get_devices() {
        Step::Run(a, s) => {
            assert_eq!(a.arg, "bluetoothctl devices");
            match s.resume(b"Device AA:BB Big Speaker\n") {
                Step::Done(Some(devices)) => {
                    assert_eq!(devices.len(), 1);
                    assert_eq!(devices[0].mac, "AA:BB");
                    assert_eq!(devices[0].name, "Big Speaker");
                }
                _ => panic!("the listing is readable"),
            }
            let none = match get_devices() {
                Step::Run(_, s) => s.resume(b"Nothing\n"),
                _ => panic!("the listing starts with a command"),
            };
            assert!(matches!(none, Step::Done(None)));
        }
        _ => panic!("the listing starts with a command"),
    }
}

#[test]
fn text_helpers() {
    assert_eq!(split_text("a b  c", ' '), vec!["a", "b", "", "c"]);
    assert_eq!(split_text("", '\n'), vec![""]);
    assert_eq!(split_text("x\n", '\n'), vec!["x", ""]);
    let parts = vec!["Device".to_string(), "AA".to_string(), "My".to_string(), "Phone".to_string()];
    assert_eq!(join_from(&parts, 2, " "), "My Phone");
    assert_eq!(join_from(&parts, 4, " "), "");
    assert!(same_text("abc", "abc"));
    assert!(!same_text("abc", "abd"));
}
