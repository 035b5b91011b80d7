use super::{
    device_command, device_menu, found, info_query, menu_commands, info_query_action, menu_outcome,
    query_failure, toggle_commands, MenuStage, ServiceAction, Step, StepView, ToggleStage,
};
use crate::text::{
    decode_lossy, free_of, join_from, join_seq, lemma_join_split, lemma_join_split_at,
    lemma_split_concat, lemma_split_free, lemma_split_nonempty, lossy_text, split_seq, split_text,
};
use vstd::prelude::*;
use vstd::utf8::{decode_utf8, valid_utf8};

verus! {

/// A device that the controller knows, by its address and its name.
pub struct Device {
    pub mac: String,
    pub name: String,
}

impl View for Device {
    type V = (Seq<char>, Seq<char>);

    open spec fn view(&self) -> (Seq<char>, Seq<char>) {
        (self.mac@, self.name@)
    }
}

impl DeepView for Device {
    type V = (Seq<char>, Seq<char>);

    open spec fn deep_view(&self) -> (Seq<char>, Seq<char>) {
        (self.mac@, self.name@)
    }
}

/// A line of `bluetoothctl devices` holds at least two space-separated fields.
pub open spec fn line_has_fields(line: Seq<char>) -> bool {
    split_seq(line, ' ').len() >= 2
}

/// The device that a line names: the second field is the address, and the fields after
/// it, joined again with spaces, are the name.
pub open spec fn entry_of(line: Seq<char>) -> (Seq<char>, Seq<char>) {
    let fields = split_seq(line, ' ');
    (fields[1], join_seq(fields.skip(2), " "@))
}

/// The devices that the non-empty lines name, in order.
pub open spec fn entries_of(lines: Seq<Seq<char>>) -> Seq<(Seq<char>, Seq<char>)>
    decreases lines.len(),
{
    if lines.len() == 0 {
        Seq::empty()
    } else {
        let rest = entries_of(lines.drop_last());
        if lines.last().len() == 0 {
            rest
        } else {
            rest.push(entry_of(lines.last()))
        }
    }
}

/// Every non-empty line has at least two fields.
pub open spec fn lines_have_fields(lines: Seq<Seq<char>>) -> bool {
    forall|i: int| 0 <= i < lines.len() && lines[i].len() > 0 ==> line_has_fields(#[trigger] lines[i])
}

/// The output of `bluetoothctl devices` can be read: no non-empty line lacks a field.
pub open spec fn listing_parses(text: Seq<char>) -> bool {
    lines_have_fields(split_seq(text, '\n'))
}

/// The devices that the output of `bluetoothctl devices` lists.
pub open spec fn devices_of(text: Seq<char>) -> Seq<(Seq<char>, Seq<char>)> {
    entries_of(split_seq(text, '\n'))
}

/// Whether the output of `bluetoothctl devices` can be read.
pub fn listing_is_readable(text: &str) -> (res: bool)
    ensures
        res == listing_parses(text@),
{
    let lines = split_text(text, '\n');
    let ghost ls = lines.deep_view();
    let mut i: usize = 0;
    while i < lines.len()
        invariant
            i <= lines.len(),
            ls == lines.deep_view(),
            ls == split_seq(text@, '\n'),
            forall|j: int| 0 <= j < i && ls[j].len() > 0 ==> line_has_fields(#[trigger] ls[j]),
        decreases lines.len() - i,
    {
        if !lines[i].as_str().is_empty() {
            let fields = split_text(lines[i].as_str(), ' ');
            if fields.len() < 2 {
                assert(ls[i as int].len() > 0 && !line_has_fields(ls[i as int]));
                return false;
            }
        }
        i = i + 1;
    }
    true
}

/// Reads the devices that the output of `bluetoothctl devices` lists.
pub fn parse_devices(text: &str) -> (devices: Vec<Device>)
    requires
        listing_parses(text@),
    ensures
        devices.deep_view() == devices_of(text@),
{
    let lines = split_text(text, '\n');
    let ghost ls = lines.deep_view();
    let mut devices: Vec<Device> = Vec::new();
    let mut i: usize = 0;
    while i < lines.len()
        invariant
            i <= lines.len(),
            ls == lines.deep_view(),
            ls == split_seq(text@, '\n'),
            lines_have_fields(ls),
            devices.deep_view() == entries_of(ls.take(i as int)),
        decreases lines.len() - i,
    {
        proof {
            assert(ls.take(i + 1).drop_last() =~= ls.take(i as int));
            assert(ls.take(i + 1).last() == ls[i as int]);
        }
        if !lines[i].as_str().is_empty() {
            let fields = split_text(lines[i].as_str(), ' ');
            assert(line_has_fields(ls[i as int]));
            let mac = fields[1].clone();
            let name = join_from(&fields, 2, " ");
            let ghost before = devices.deep_view();
            devices.push(Device { mac, name });
            proof {
                assert(devices.deep_view() =~= before.push(entry_of(ls[i as int])));
            }
        }
        i = i + 1;
    }
    proof {
        assert(ls.take(i as int) =~= ls);
    }
    devices
}

/// Waits for the output of `bluetoothctl devices`.
pub struct DeviceListing;

impl DeviceListing {
    /// What the listing reads as, given its text.
    pub open spec fn read(self, text: Seq<char>) -> StepView<DeviceListing, Option<Seq<(Seq<char>, Seq<char>)>>> {
        if listing_parses(text) {
            StepView::Done(Some(devices_of(text)))
        } else {
            StepView::Done(None)
        }
    }

    pub open spec fn next(self, output: Seq<u8>) -> StepView<DeviceListing, Option<Seq<(Seq<char>, Seq<char>)>>> {
        self.read(lossy_text(output))
    }

    /// Reads the listing; `None` where a non-empty line has no second field.
    pub fn resume(self, output: &[u8]) -> (res: Step<DeviceListing, Option<Vec<Device>>>)
        ensures
            res.deep_view() == self.next(output@),
            valid_utf8(output@) ==> res.deep_view() == self.read(decode_utf8(output@)),
    {
        let text = decode_lossy(output);
        if listing_is_readable(text.as_str()) {
            Step::Done(Some(parse_devices(text.as_str())))
        } else {
            Step::Done(None)
        }
    }
}

pub open spec fn devices_command() -> Seq<char> {
    "bluetoothctl devices"@
}

/// Lists the devices that the controller knows: runs `bluetoothctl devices`.
pub fn get_devices() -> (res: Step<DeviceListing, Option<Vec<Device>>>)
    ensures
        res.deep_view() == StepView::<DeviceListing, Option<Seq<(Seq<char>, Seq<char>)>>>::Run(
            (devices_command(), "failed getting devices"@),
            DeviceListing,
        ),
{
    Step::Run(
        ServiceAction::new("bluetoothctl devices".to_owned(), "failed getting devices"),
        DeviceListing,
    )
}

/// The plan of the trust toggle of the device with this address.
pub open spec fn trust_plan(mac: String) -> StepView<ToggleStage, ()> {
    StepView::Run((info_query(mac@, "Trusted: yes"@), query_failure()), ToggleStage::Trust(mac))
}

/// The plan of the connection toggle of the device with this address.
pub open spec fn connection_plan(mac: String) -> StepView<ToggleStage, ()> {
    StepView::Run(
        (info_query(mac@, "Connected: yes"@), query_failure()),
        ToggleStage::Connection(mac),
    )
}

/// The plan of the pairing toggle of the device with this address.
pub open spec fn pair_plan(mac: String) -> StepView<ToggleStage, ()> {
    StepView::Run((info_query(mac@, "Paired: yes"@), query_failure()), ToggleStage::Pair(mac))
}

impl Device {
    /// Builds the device menu: queries whether it is connected, paired and trusted.
    pub fn get_menu(&self) -> (res: Step<MenuStage, Vec<String>>)
        ensures
            res.deep_view() == StepView::<MenuStage, Seq<Seq<char>>>::Run(
                (info_query(self.mac@, "Connected: yes"@), query_failure()),
                MenuStage::Connected(self.mac),
            ),
    {
        Step::Run(self.connected(), MenuStage::Connected(self.mac.clone()))
    }

    /// The query whether the device is trusted.
    fn trusted(&self) -> (res: ServiceAction)
        ensures
            res@ == (info_query(self.mac@, "Trusted: yes"@), query_failure()),
    {
        self.check_option_on("Trusted: yes")
    }

    /// The query whether the device is paired.
    fn paired(&self) -> (res: ServiceAction)
        ensures
            res@ == (info_query(self.mac@, "Paired: yes"@), query_failure()),
    {
        self.check_option_on("Paired: yes")
    }

    /// The query whether the device is connected.
    fn connected(&self) -> (res: ServiceAction)
        ensures
            res@ == (info_query(self.mac@, "Connected: yes"@), query_failure()),
    {
        self.check_option_on("Connected: yes")
    }

    /// The query whether the device has the option: `bluetoothctl info` filtered by it.
    fn check_option_on(&self, option: &str) -> (res: ServiceAction)
        ensures
            res@ == (info_query(self.mac@, option@), query_failure()),
    {
        info_query_action(self.mac.as_str(), option)
    }

    /// Trusts the device, or stops trusting it where it is trusted.
    pub fn toggle_trust(&self) -> (res: Step<ToggleStage, ()>)
        ensures
            res.deep_view() == trust_plan(self.mac),
    {
        Step::Run(self.trusted(), ToggleStage::Trust(self.mac.clone()))
    }

    /// Connects the device, or disconnects it where it is connected.
    pub fn toggle_connection(&self) -> (res: Step<ToggleStage, ()>)
        ensures
            res.deep_view() == connection_plan(self.mac),
    {
        Step::Run(self.connected(), ToggleStage::Connection(self.mac.clone()))
    }

    /// Pairs the device, or removes it where it is paired.
    pub fn toggle_paired(&self) -> (res: Step<ToggleStage, ()>)
        ensures
            res.deep_view() == pair_plan(self.mac),
    {
        Step::Run(self.paired(), ToggleStage::Pair(self.mac.clone()))
    }
}

/// Each device toggle sets the opposite of what its query saw: it stops trusting a
/// trusted device and trusts any other, disconnects a connected one and connects any
/// other, removes a paired one and pairs any other.
pub proof fn lemma_device_toggles(mac: String, outputs: Seq<Seq<u8>>)
    requires
        outputs.len() >= 2,
    ensures
        toggle_commands(trust_plan(mac), outputs) == seq![
            info_query(mac@, "Trusted: yes"@),
            device_command(if found(outputs[0]) { "untrust"@ } else { "trust"@ }, mac@),
        ],
        toggle_commands(connection_plan(mac), outputs) == seq![
            info_query(mac@, "Connected: yes"@),
            device_command(if found(outputs[0]) { "disconnect"@ } else { "connect"@ }, mac@),
        ],
        toggle_commands(pair_plan(mac), outputs) == seq![
            info_query(mac@, "Paired: yes"@),
            device_command(if found(outputs[0]) { "remove"@ } else { "pair"@ }, mac@),
        ],
{
    reveal_with_fuel(toggle_commands, 3);
    assert(toggle_commands(trust_plan(mac), outputs) =~= seq![
        info_query(mac@, "Trusted: yes"@),
        device_command(if found(outputs[0]) { "untrust"@ } else { "trust"@ }, mac@),
    ]);
    assert(toggle_commands(connection_plan(mac), outputs) =~= seq![
        info_query(mac@, "Connected: yes"@),
        device_command(if found(outputs[0]) { "disconnect"@ } else { "connect"@ }, mac@),
    ]);
    assert(toggle_commands(pair_plan(mac), outputs) =~= seq![
        info_query(mac@, "Paired: yes"@),
        device_command(if found(outputs[0]) { "remove"@ } else { "pair"@ }, mac@),
    ]);
}

/// The device menu shows whether the device is connected, paired and trusted, as its
/// three queries saw it, then the separator and `Back`.
pub proof fn lemma_device_menu(mac: String, outputs: Seq<Seq<u8>>)
    requires
        outputs.len() >= 3,
    ensures
        menu_outcome(
            StepView::Run(
                (info_query(mac@, "Connected: yes"@), query_failure()),
                MenuStage::Connected(mac),
            ),
            outputs,
        ) == Some(device_menu(found(outputs[0]), found(outputs[1]), found(outputs[2]))),
{
    reveal_with_fuel(menu_outcome, 4);
    let o = outputs;
    assert(o.drop_first()[0] == o[1]);
    assert(o.drop_first().drop_first()[0] == o[2]);
}

/// A listed line is its first field, the address and the name, each after a space (the
/// name and its space absent where the line has two fields only): the name keeps every
/// space of the rest of the line.
pub proof fn lemma_entry_rebuilds_line(line: Seq<char>)
    requires
        line_has_fields(line),
    ensures
        ({
            let fields = split_seq(line, ' ');
            let entry = entry_of(line);
            line == fields[0] + " "@ + entry.0 + if fields.len() > 2 {
                " "@ + entry.1
            } else {
                Seq::<char>::empty()
            }
        }),
{
    reveal_strlit(" ");
    let fields = split_seq(line, ' ');
    let sep = " "@;
    assert(sep =~= seq![' ']);
    lemma_join_split(line, ' ');
    let head = fields.take(2);
    assert(head.drop_last() =~= seq![fields[0]]);
    assert(join_seq(head.drop_last(), sep) == fields[0]);
    assert(head.last() == fields[1]);
    assert(join_seq(head, sep) =~= fields[0] + sep + fields[1]);
    if fields.len() > 2 {
        lemma_join_split_at(fields, sep, 2);
        assert(line =~= fields[0] + sep + fields[1] + (sep + join_seq(fields.skip(2), sep)));
    } else {
        assert(fields =~= head);
        assert(line =~= fields[0] + sep + fields[1] + Seq::<char>::empty());
    }
}

/// The line that `bluetoothctl devices` prints for a device.
pub open spec fn listing_line(device: (Seq<char>, Seq<char>)) -> Seq<char> {
    "Device "@ + device.0 + " "@ + device.1
}

/// The listing that `bluetoothctl devices` prints for these devices: a line for each, in
/// order, each ended by a newline.
pub open spec fn listing_of(devices: Seq<(Seq<char>, Seq<char>)>) -> Seq<char>
    decreases devices.len(),
{
    if devices.len() == 0 {
        Seq::empty()
    } else {
        listing_of(devices.drop_last()) + listing_line(devices.last()) + "\n"@
    }
}

/// A device whose line reads back as it: its address holds no space and no newline, its
/// name no newline.
pub open spec fn listable(device: (Seq<char>, Seq<char>)) -> bool {
    &&& free_of(device.0, ' ')
    &&& free_of(device.0, '\n')
    &&& free_of(device.1, '\n')
}

proof fn lemma_line_reads_back(device: (Seq<char>, Seq<char>))
    requires
        listable(device),
    ensures
        listing_line(device).len() > 0,
        free_of(listing_line(device), '\n'),
        line_has_fields(listing_line(device)),
        entry_of(listing_line(device)) == device,
{
    reveal_strlit("Device ");
    reveal_strlit(" ");
    let word = "Device "@.drop_last();
    assert("Device "@ =~= word + seq![' ']);
    assert(" "@ =~= seq![' ']);
    assert(free_of(word, ' '));
    let line = listing_line(device);
    let rest = device.0 + seq![' '] + device.1;
    assert(line =~= word + seq![' '] + rest);
    lemma_split_concat(word, rest, ' ');
    lemma_split_concat(device.0, device.1, ' ');
    lemma_split_free(word, ' ');
    lemma_split_free(device.0, ' ');
    let fields = split_seq(line, ' ');
    assert(fields =~= seq![word, device.0] + split_seq(device.1, ' '));
    assert(fields.skip(2) =~= split_seq(device.1, ' '));
    lemma_split_nonempty(device.1, ' ');
    lemma_join_split(device.1, ' ');
    assert(free_of(line, '\n')) by {
        assert forall|i: int| 0 <= i < line.len() implies line[i] != '\n' by {
            if i >= word.len() + 1 && i < word.len() + 1 + device.0.len() {
                assert(line[i] == device.0[i - word.len() - 1]);
            } else if i >= word.len() + 2 + device.0.len() {
                assert(line[i] == device.1[i - word.len() - 2 - device.0.len()]);
            }
        }
    }
}

proof fn lemma_listing_lines(devices: Seq<(Seq<char>, Seq<char>)>)
    requires
        forall|i: int| 0 <= i < devices.len() ==> listable(#[trigger] devices[i]),
    ensures
        split_seq(listing_of(devices), '\n') == devices.map_values(
            |d: (Seq<char>, Seq<char>)| listing_line(d),
        ) + seq![Seq::<char>::empty()],
    decreases devices.len(),
{
    reveal_strlit("\n");
    assert("\n"@ =~= seq!['\n']);
    let lines = devices.map_values(|d: (Seq<char>, Seq<char>)| listing_line(d));
    if devices.len() == 0 {
        assert(listing_of(devices) =~= Seq::<char>::empty());
        assert(split_seq(listing_of(devices), '\n') =~= lines + seq![Seq::<char>::empty()]);
    } else {
        let rest = devices.drop_last();
        let last = listing_line(devices.last());
        assert(listable(devices[devices.len() - 1]));
        lemma_line_reads_back(devices.last());
        lemma_split_free(last, '\n');
        lemma_split_concat(last, Seq::<char>::empty(), '\n');
        assert(last + seq!['\n'] + Seq::<char>::empty() =~= last + seq!['\n']);
        assert(forall|i: int| 0 <= i < rest.len() ==> rest[i] == devices[i]);
        lemma_listing_lines(rest);
        let rest_lines = rest.map_values(|d: (Seq<char>, Seq<char>)| listing_line(d));
        assert(lines =~= rest_lines.push(last));
        if rest.len() == 0 {
            assert(listing_of(devices) =~= last + seq!['\n'] + Seq::<char>::empty());
            assert(split_seq(listing_of(devices), '\n') =~= lines + seq![Seq::<char>::empty()]);
        } else {
            let x = listing_of(rest);
            let p = x.drop_last();
            assert(x =~= p + seq!['\n'] + Seq::<char>::empty());
            lemma_split_concat(p, Seq::<char>::empty(), '\n');
            assert(split_seq(Seq::<char>::empty(), '\n') =~= seq![Seq::<char>::empty()]);
            assert(split_seq(x, '\n') == split_seq(p, '\n') + seq![Seq::<char>::empty()]);
            assert(split_seq(x, '\n') == rest_lines + seq![Seq::<char>::empty()]);
            assert((split_seq(p, '\n') + seq![Seq::<char>::empty()]).drop_last() =~= split_seq(p, '\n'));
            assert((rest_lines + seq![Seq::<char>::empty()]).drop_last() =~= rest_lines);
            assert(split_seq(p, '\n') =~= rest_lines);
            assert(listing_of(devices) =~= p + seq!['\n'] + (last + seq!['\n'] + Seq::<char>::empty()));
            lemma_split_concat(p, last + seq!['\n'] + Seq::<char>::empty(), '\n');
            assert(split_seq(listing_of(devices), '\n') =~= lines + seq![Seq::<char>::empty()]);
        }
    }
}

proof fn lemma_entries_of_lines(devices: Seq<(Seq<char>, Seq<char>)>)
    requires
        forall|i: int| 0 <= i < devices.len() ==> listable(#[trigger] devices[i]),
    ensures
        entries_of(devices.map_values(|d: (Seq<char>, Seq<char>)| listing_line(d))) == devices,
    decreases devices.len(),
{
    let lines = devices.map_values(|d: (Seq<char>, Seq<char>)| listing_line(d));
    if devices.len() > 0 {
        let rest = devices.drop_last();
        assert(forall|i: int| 0 <= i < rest.len() ==> rest[i] == devices[i]);
        lemma_entries_of_lines(rest);
        assert(lines.drop_last() =~= rest.map_values(|d: (Seq<char>, Seq<char>)| listing_line(d)));
        assert(listable(devices[devices.len() - 1]));
        lemma_line_reads_back(devices.last());
        assert(devices =~= rest.push(devices.last()));
    } else {
        assert(entries_of(lines) =~= devices);
    }
}

/// Reading back the listing of devices whose lines read back gives the same devices, in
/// order: the listing parses, and each device keeps its address and its name.
pub proof fn lemma_listing_round_trip(devices: Seq<(Seq<char>, Seq<char>)>)
    requires
        forall|i: int| 0 <= i < devices.len() ==> listable(#[trigger] devices[i]),
    ensures
        listing_parses(listing_of(devices)),
        devices_of(listing_of(devices)) == devices,
{
    let lines = devices.map_values(|d: (Seq<char>, Seq<char>)| listing_line(d));
    lemma_listing_lines(devices);
    lemma_entries_of_lines(devices);
    let split = lines + seq![Seq::<char>::empty()];
    assert(split.drop_last() =~= lines);
    assert forall|i: int| 0 <= i < split.len() && split[i].len() > 0 implies line_has_fields(
        #[trigger] split[i],
    ) by {
        if i < lines.len() {
            assert(listable(devices[i]));
            lemma_line_reads_back(devices[i]);
        }
    }
}

/// Each flag entry of the device menu reads only its own query: `Connected`,
/// `Paired` and `Trusted` are `on` exactly when their own query printed something,
/// then come the separator and `Back`.
pub proof fn lemma_device_menu_entries(mac: String, outputs: Seq<Seq<u8>>)
    requires
        outputs.len() >= 3,
    ensures
        ({
            let menu = menu_outcome(
                StepView::Run(
                    (info_query(mac@, "Connected: yes"@), query_failure()),
                    MenuStage::Connected(mac),
                ),
                outputs,
            );
            &&& menu is Some
            &&& menu.unwrap().len() == 5
            &&& menu.unwrap()[0] == if outputs[0].len() > 0 { "Connected: on"@ } else { "Connected: off"@ }
            &&& menu.unwrap()[1] == if outputs[1].len() > 0 { "Paired: on"@ } else { "Paired: off"@ }
            &&& menu.unwrap()[2] == if outputs[2].len() > 0 { "Trusted: on"@ } else { "Trusted: off"@ }
            &&& menu.unwrap()[3] == "----------"@
            &&& menu.unwrap()[4] == "Back"@
        }),
{
    lemma_device_menu(mac, outputs);
    reveal_strlit("Connected: on");
    reveal_strlit("Connected: off");
    reveal_strlit("Connected");
    reveal_strlit("Paired: on");
    reveal_strlit("Paired: off");
    reveal_strlit("Paired");
    reveal_strlit("Trusted: on");
    reveal_strlit("Trusted: off");
    reveal_strlit("Trusted");
    reveal_strlit(": ");
    reveal_strlit("on");
    reveal_strlit("off");
    let menu = device_menu(found(outputs[0]), found(outputs[1]), found(outputs[2]));
    if found(outputs[0]) {
        assert(menu[0] =~= "Connected: on"@);
    } else {
        assert(menu[0] =~= "Connected: off"@);
    }
    if found(outputs[1]) {
        assert(menu[1] =~= "Paired: on"@);
    } else {
        assert(menu[1] =~= "Paired: off"@);
    }
    if found(outputs[2]) {
        assert(menu[2] =~= "Trusted: on"@);
    } else {
        assert(menu[2] =~= "Trusted: off"@);
    }
}

/// The non-empty lines, in order.
pub open spec fn nonempty_lines(lines: Seq<Seq<char>>) -> Seq<Seq<char>>
    decreases lines.len(),
{
    if lines.len() == 0 {
        Seq::empty()
    } else {
        let rest = nonempty_lines(lines.drop_last());
        if lines.last().len() == 0 {
            rest
        } else {
            rest.push(lines.last())
        }
    }
}

proof fn lemma_entries_follow_lines(lines: Seq<Seq<char>>)
    requires
        lines_have_fields(lines),
    ensures
        entries_of(lines).len() == nonempty_lines(lines).len(),
        forall|i: int|
            0 <= i < nonempty_lines(lines).len() ==> {
                &&& line_has_fields(#[trigger] nonempty_lines(lines)[i])
                &&& entries_of(lines)[i] == entry_of(nonempty_lines(lines)[i])
            },
    decreases lines.len(),
{
    if lines.len() > 0 {
        let rest = lines.drop_last();
        assert(lines_have_fields(rest)) by {
            assert forall|i: int| 0 <= i < rest.len() && rest[i].len() > 0 implies line_has_fields(
                #[trigger] rest[i],
            ) by {
                assert(rest[i] == lines[i]);
            }
        }
        lemma_entries_follow_lines(rest);
        if lines.last().len() > 0 {
            assert(line_has_fields(lines[lines.len() - 1]));
        }
    }
}

/// Reading a listing gives one device for each non-empty line, in order: its address is
/// the line's second field, and the line is its first field, the address and the name,
/// each after a space (with no name, and no space for it, where the line has two fields);
/// a listing with a non-empty line of one field only reads as nothing.
pub proof fn lemma_listing_reads_every_line(text: Seq<char>)
    ensures
        !listing_parses(text) ==> DeviceListing.read(text) == StepView::<
            DeviceListing,
            Option<Seq<(Seq<char>, Seq<char>)>>,
        >::Done(None),
        listing_parses(text) ==> ({
            let lines = nonempty_lines(split_seq(text, '\n'));
            &&& DeviceListing.read(text) matches StepView::Done(Some(read))
            &&& read.len() == lines.len()
            &&& forall|i: int|
                0 <= i < lines.len() ==> ({
                    let fields = split_seq(#[trigger] lines[i], ' ');
                    &&& fields.len() >= 2
                    &&& read[i].0 == fields[1]
                    &&& lines[i] == fields[0] + " "@ + read[i].0 + if fields.len() > 2 {
                        " "@ + read[i].1
                    } else {
                        Seq::<char>::empty()
                    }
                    &&& fields.len() == 2 ==> read[i].1.len() == 0
                })
        }),
{
    if listing_parses(text) {
        let all = split_seq(text, '\n');
        let lines = nonempty_lines(all);
        lemma_entries_follow_lines(all);
        let read = devices_of(text);
        assert forall|i: int| 0 <= i < lines.len() implies ({
            let fields = split_seq(#[trigger] lines[i], ' ');
            &&& fields.len() >= 2
            &&& read[i].0 == fields[1]
            &&& lines[i] == fields[0] + " "@ + read[i].0 + if fields.len() > 2 {
                " "@ + read[i].1
            } else {
                Seq::<char>::empty()
            }
            &&& fields.len() == 2 ==> read[i].1.len() == 0
        }) by {
            lemma_entry_rebuilds_line(lines[i]);
            let fields = split_seq(lines[i], ' ');
            if fields.len() == 2 {
                assert(fields.skip(2).len() == 0);
            }
        }
    }
}

/// Reading back the listing of devices whose lines read back gives exactly those devices,
/// in order.
pub proof fn lemma_listing_read_round_trip(devices: Seq<(Seq<char>, Seq<char>)>)
    requires
        forall|i: int| 0 <= i < devices.len() ==> listable(#[trigger] devices[i]),
    ensures
        DeviceListing.read(listing_of(devices)) == StepView::<
            DeviceListing,
            Option<Seq<(Seq<char>, Seq<char>)>>,
        >::Done(Some(devices)),
{
    lemma_listing_round_trip(devices);
}

/// The device toggles, spelled out: each asks `bluetoothctl info` about the device's own
/// address, then stops trusting a trusted device and trusts any other, disconnects a
/// connected one and connects any other, removes a paired one and pairs any other.
pub proof fn lemma_device_toggles_spelled(mac: String, outputs: Seq<Seq<u8>>)
    requires
        outputs.len() >= 2,
    ensures
        toggle_commands(trust_plan(mac), outputs) == seq![
            "bluetoothctl info "@ + mac@ + " | grep 'Trusted: yes'"@,
            if outputs[0].len() > 0 { "bluetoothctl untrust "@ } else { "bluetoothctl trust "@ } + mac@,
        ],
        toggle_commands(connection_plan(mac), outputs) == seq![
            "bluetoothctl info "@ + mac@ + " | grep 'Connected: yes'"@,
            if outputs[0].len() > 0 {
                "bluetoothctl disconnect "@
            } else {
                "bluetoothctl connect "@
            } + mac@,
        ],
        toggle_commands(pair_plan(mac), outputs) == seq![
            "bluetoothctl info "@ + mac@ + " | grep 'Paired: yes'"@,
            if outputs[0].len() > 0 { "bluetoothctl remove "@ } else { "bluetoothctl pair "@ } + mac@,
        ],
{
    lemma_device_toggles(mac, outputs);
    reveal_strlit("bluetoothctl info ");
    reveal_strlit(" | grep '");
    reveal_strlit("'");
    reveal_strlit("Trusted: yes");
    reveal_strlit("Connected: yes");
    reveal_strlit("Paired: yes");
    reveal_strlit(" | grep 'Trusted: yes'");
    reveal_strlit(" | grep 'Connected: yes'");
    reveal_strlit(" | grep 'Paired: yes'");
    reveal_strlit("bluetoothctl ");
    reveal_strlit(" ");
    reveal_strlit("untrust");
    reveal_strlit("trust");
    reveal_strlit("disconnect");
    reveal_strlit("connect");
    reveal_strlit("remove");
    reveal_strlit("pair");
    reveal_strlit("bluetoothctl untrust ");
    reveal_strlit("bluetoothctl trust ");
    reveal_strlit("bluetoothctl disconnect ");
    reveal_strlit("bluetoothctl connect ");
    reveal_strlit("bluetoothctl remove ");
    reveal_strlit("bluetoothctl pair ");
    assert(info_query(mac@, "Trusted: yes"@) =~= "bluetoothctl info "@ + mac@ + " | grep 'Trusted: yes'"@);
    assert(info_query(mac@, "Connected: yes"@) =~= "bluetoothctl info "@ + mac@ + " | grep 'Connected: yes'"@);
    assert(info_query(mac@, "Paired: yes"@) =~= "bluetoothctl info "@ + mac@ + " | grep 'Paired: yes'"@);
    assert(device_command("untrust"@, mac@) =~= "bluetoothctl untrust "@ + mac@);
    assert(device_command("trust"@, mac@) =~= "bluetoothctl trust "@ + mac@);
    assert(device_command("disconnect"@, mac@) =~= "bluetoothctl disconnect "@ + mac@);
    assert(device_command("connect"@, mac@) =~= "bluetoothctl connect "@ + mac@);
    assert(device_command("remove"@, mac@) =~= "bluetoothctl remove "@ + mac@);
    assert(device_command("pair"@, mac@) =~= "bluetoothctl pair "@ + mac@);
}

/// The device menu asks, in order, whether the device with its address is connected, paired
/// and trusted; these are the outputs that its entries read, one each.
pub proof fn lemma_device_menu_queries(mac: String, outputs: Seq<Seq<u8>>)
    requires
        outputs.len() >= 3,
    ensures
        menu_commands(
            StepView::Run(
                (info_query(mac@, "Connected: yes"@), query_failure()),
                MenuStage::Connected(mac),
            ),
            outputs,
        ) == seq![
            "bluetoothctl info "@ + mac@ + " | grep 'Connected: yes'"@,
            "bluetoothctl info "@ + mac@ + " | grep 'Paired: yes'"@,
            "bluetoothctl info "@ + mac@ + " | grep 'Trusted: yes'"@,
        ],
{
    reveal_with_fuel(menu_commands, 4);
    reveal_strlit("bluetoothctl info ");
    reveal_strlit(" | grep '");
    reveal_strlit("'");
    reveal_strlit("Trusted: yes");
    reveal_strlit("Connected: yes");
    reveal_strlit("Paired: yes");
    reveal_strlit(" | grep 'Trusted: yes'");
    reveal_strlit(" | grep 'Connected: yes'");
    reveal_strlit(" | grep 'Paired: yes'");
    assert(info_query(mac@, "Trusted: yes"@) =~= "bluetoothctl info "@ + mac@ + " | grep 'Trusted: yes'"@);
    assert(info_query(mac@, "Connected: yes"@) =~= "bluetoothctl info "@ + mac@ + " | grep 'Connected: yes'"@);
    assert(info_query(mac@, "Paired: yes"@) =~= "bluetoothctl info "@ + mac@ + " | grep 'Paired: yes'"@);
    let o = outputs;
    assert(o.drop_first()[0] == o[1]);
    assert(o.drop_first().drop_first()[0] == o[2]);
    let start = StepView::<MenuStage, Seq<Seq<char>>>::Run(
        (info_query(mac@, "Connected: yes"@), query_failure()),
        MenuStage::Connected(mac),
    );
    assert(menu_commands(start, o) =~= seq![
        "bluetoothctl info "@ + mac@ + " | grep 'Connected: yes'"@,
        "bluetoothctl info "@ + mac@ + " | grep 'Paired: yes'"@,
        "bluetoothctl info "@ + mac@ + " | grep 'Trusted: yes'"@,
    ]);
}

} // verus!