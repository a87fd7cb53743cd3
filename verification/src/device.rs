//! Device descriptors and the rules by which candidate devices are found
//! and identified.

use crate::text::{
    chars_of, contains_char, contains_chars, has_prefix, has_substring, occurs_at,
    lowercased, matches_at, parse_digits, parsed_usize, skip_repeated, split, split_chars,
    string_of, string_of_range, string_texts, strip_repeated, texts, to_lowercase, trim_bounds,
    trimmed,
};
use vstd::prelude::*;
use vstd::string::StringExecFns;

verus! {

/// Directory that holds the input device files.
pub const INPUT_DEVICES_PATH: &'static str = "/dev/input";

/// Name given to a device whose name cannot be read.
pub const UNKNOWN_DEVICE: &'static str = "Unknown Device";

/// Topology tag of a device whose attachment cannot be found out.
pub const UNKNOWN_PORT: &'static str = "unknown";

/// Identity of one candidate input device.
#[derive(Debug, PartialEq, Eq)]
pub struct DeviceInfo {
    /// Ordinal taken from the device file's name.
    pub event_num: usize,
    /// Path by which the device is opened.
    pub device_path: String,
    /// Readable name of the device.
    pub device_name: String,
    /// Where the device is attached, as far as it could be found out.
    pub usb_port: String,
}

/// A device descriptor as plain values.
pub struct DeviceModel {
    pub event_num: usize,
    pub device_path: Seq<char>,
    pub device_name: Seq<char>,
    pub usb_port: Seq<char>,
}

impl View for DeviceInfo {
    type V = DeviceModel;

    open spec fn view(&self) -> DeviceModel {
        DeviceModel {
            event_num: self.event_num,
            device_path: self.device_path@,
            device_name: self.device_name@,
            usb_port: self.usb_port@,
        }
    }
}

impl Clone for DeviceInfo {
    fn clone(&self) -> (r: Self)
        ensures
            r@ == self@,
    {
        DeviceInfo {
            event_num: self.event_num,
            device_path: self.device_path.clone(),
            device_name: self.device_name.clone(),
            usb_port: self.usb_port.clone(),
        }
    }
}

/// The descriptors `devices` as plain values, in order.
pub open spec fn models(devices: Seq<DeviceInfo>) -> Seq<DeviceModel> {
    devices.map_values(|d: DeviceInfo| d@)
}

/// Adding a descriptor at the end adds its plain form at the end.
pub proof fn lemma_models_push(devices: Seq<DeviceInfo>, d: DeviceInfo)
    ensures
        models(devices.push(d)) == models(devices).push(d@),
{
    assert(models(devices.push(d)) =~= models(devices).push(d@));
}

/// Copies a list of descriptors.
pub fn clone_devices(devices: &Vec<DeviceInfo>) -> (r: Vec<DeviceInfo>)
    ensures
        models(r@) == models(devices@),
{
    let mut r: Vec<DeviceInfo> = Vec::new();
    let mut i: usize = 0;
    while i < devices.len()
        invariant
            i <= devices@.len(),
            models(r@) == models(devices@.take(i as int)),
        decreases devices@.len() - i,
    {
        let d = devices[i].clone();
        proof {
            lemma_models_push(r@, d);
            lemma_models_push(devices@.take(i as int), devices@[i as int]);
            assert(devices@.take(i + 1) == devices@.take(i as int).push(devices@[i as int]));
        }
        r.push(d);
        i = i + 1;
    }
    assert(devices@.take(devices@.len() as int) == devices@);
    r
}

/// The ordinal in the name of a device file: the number behind the word
/// `event`, however often the word is repeated. `None` for every other
/// name and for a number that does not fit.
pub open spec fn event_number(file_name: Seq<char>) -> Option<usize> {
    if has_prefix(file_name, "event"@) {
        parsed_usize(strip_repeated(file_name, "event"@))
    } else {
        None
    }
}

/// Reads the ordinal from the name of a device file.
pub fn event_index(file_name: &str) -> (r: Option<usize>)
    ensures
        r == event_number(file_name@),
{
    let name = chars_of(file_name);
    let word = chars_of("event");
    if !matches_at(&name, 0, &word) {
        return None;
    }
    let at = skip_repeated(&name, &word);
    parse_digits(&name, at)
}

/// The first of `parts` that names a USB port: it holds `usb-`, or both a
/// colon and a dot.
pub open spec fn first_port_part(parts: Seq<Seq<char>>) -> Option<Seq<char>>
    decreases parts.len(),
{
    if parts.len() == 0 {
        None
    } else if is_port_part(parts[0]) {
        Some(parts[0])
    } else {
        first_port_part(parts.drop_first())
    }
}

/// Whether a path component names a USB port.
pub open spec fn is_port_part(part: Seq<char>) -> bool {
    has_substring(part, "usb-"@) || (part.contains(':') && part.contains('.'))
}

/// The first pair of neighbours in `parts`, from position `from` on, of which
/// the first begins with `usb` and the second holds a hyphen, joined by a
/// slash.
pub open spec fn first_bus_pair(parts: Seq<Seq<char>>, from: int) -> Option<Seq<char>>
    decreases parts.len() - from,
{
    if from < 0 || from + 1 >= parts.len() {
        None
    } else if has_prefix(parts[from], "usb"@) && parts[from + 1].contains('-') {
        Some(parts[from] + seq!['/'] + parts[from + 1])
    } else {
        first_bus_pair(parts, from + 1)
    }
}

/// The part of a device path that tells where on the USB the device sits,
/// where the path has one: the first component that names a USB port, and
/// failing that the first bus component with its neighbour.
pub open spec fn usb_part(path: Seq<char>) -> Option<Seq<char>> {
    let parts = split(path, '/');
    match first_port_part(parts) {
        Some(part) => Some(part),
        None => first_bus_pair(parts, 0),
    }
}

/// The part of a device path that tells where on the USB the device sits,
/// or `unknown`.
pub open spec fn usb_path(path: Seq<char>) -> Seq<char> {
    match usb_part(path) {
        Some(part) => part,
        None => UNKNOWN_PORT@,
    }
}

/// The text of an optional string.
pub open spec fn text_of(s: Option<String>) -> Option<Seq<char>> {
    match s {
        Some(t) => Some(t@),
        None => None,
    }
}

/// Tests a path component for the marks of a USB port.
fn part_is_port(part: &Vec<char>, mark: &Vec<char>) -> (r: bool)
    requires
        mark@ == "usb-"@,
    ensures
        r == is_port_part(part@),
{
    contains_chars(part, mark) || (contains_char(part, ':') && contains_char(part, '.'))
}

/// Finds the USB part of the characters of a device path, where there is
/// one.
pub fn usb_part_of_chars(path: &Vec<char>) -> (r: Option<String>)
    ensures
        text_of(r) == usb_part(path@),
{
    let parts = split_chars(path, '/');
    let ghost model = split(path@, '/');
    let n: usize = parts.len();
    assert(n == model.len()) by {
        assert(texts(parts@).len() == parts@.len());
    }
    let mark = chars_of("usb-");
    let mut i: usize = 0;
    assert(model.skip(0) == model);
    while i < n
        invariant
            i <= n,
            n == parts@.len(),
            mark@ == "usb-"@,
            model == split(path@, '/'),
            texts(parts@) == model,
            first_port_part(model) == first_port_part(model.skip(i as int)),
        decreases n - i,
    {
        assert(model[i as int] == parts@[i as int]@);
        assert(model.skip(i as int)[0] == model[i as int]);
        if part_is_port(&parts[i], &mark) {
            return Some(string_of(&parts[i]));
        }
        assert(model.skip(i as int).drop_first() == model.skip(i + 1));
        i = i + 1;
    }
    assert(first_port_part(model) is None);
    let bus = chars_of("usb");
    let mut j: usize = 0;
    while j < n && j + 1 < n
        invariant
            j <= n,
            n == parts@.len(),
            bus@ == "usb"@,
            model == split(path@, '/'),
            first_port_part(model) is None,
            texts(parts@) == model,
            first_bus_pair(model, 0) == first_bus_pair(model, j as int),
        decreases n - j,
    {
        assert(model[j as int] == parts@[j as int]@);
        assert(model[j + 1] == parts@[j + 1]@);
        if matches_at(&parts[j], 0, &bus) && contains_char(&parts[j + 1], '-') {
            let mut s = string_of(&parts[j]);
            s.append("/");
            let tail = string_of(&parts[j + 1]);
            s.append(tail.as_str());
            proof {
                reveal_strlit("/");
                assert("/"@ == seq!['/']);
            }
            return Some(s);
        }
        j = j + 1;
    }
    None
}

/// Extracts from a device path the part that tells where on the USB the
/// device sits.
///
/// That is the first component that holds `usb-` or both a colon and a dot;
/// failing that, the first component that begins with `usb` and is followed
/// by one with a hyphen, joined to it by a slash; failing that, `unknown`.
pub fn extract_usb_path(path: &str) -> (r: String)
    ensures
        r@ == usb_path(path@),
{
    let v = chars_of(path);
    match usb_part_of_chars(&v) {
        Some(part) => part,
        None => String::from_str(UNKNOWN_PORT),
    }
}

/// What was read about one device from the system's device tree. Each
/// field is `None`, or empty, where the read failed.
#[derive(Debug, PartialEq, Eq)]
pub struct SysfsProbe {
    /// Target of the device's symbolic link.
    pub link: Option<String>,
    /// Lines of the device's event log.
    pub uevent: Option<Vec<String>>,
    /// Content of the device's physical-path file.
    pub phys: Option<String>,
    /// Names listed in the device's input-id directory.
    pub input_ids: Vec<String>,
}

/// What was read about one device, as plain values.
pub struct ProbeModel {
    pub link: Option<Seq<char>>,
    pub uevent: Option<Seq<Seq<char>>>,
    pub phys: Option<Seq<char>>,
    pub input_ids: Seq<Seq<char>>,
}

impl View for SysfsProbe {
    type V = ProbeModel;

    open spec fn view(&self) -> ProbeModel {
        ProbeModel {
            link: match self.link {
                Some(l) => Some(l@),
                None => None,
            },
            uevent: match self.uevent {
                Some(lines) => Some(string_texts(lines@)),
                None => None,
            },
            phys: match self.phys {
                Some(p) => Some(p@),
                None => None,
            },
            input_ids: string_texts(self.input_ids@),
        }
    }
}

/// The topology that the device link gives: the USB part of its target,
/// where the target mentions `usb` and has such a part.
pub open spec fn link_topology(link: Option<Seq<char>>) -> Option<Seq<char>> {
    match link {
        Some(target) => if has_substring(target, "usb"@) {
            usb_part(target)
        } else {
            None
        },
        None => None,
    }
}

/// Whether a line of the event log gives a physical path on the USB.
pub open spec fn is_physdev_line(line: Seq<char>) -> bool {
    has_prefix(line, "PHYSDEVPATH="@) && has_substring(line, "usb"@)
}

/// The USB part that one line of the event log gives: that of what the
/// line holds behind its key, where the line gives a physical path on the
/// USB.
pub open spec fn line_topology(line: Seq<char>) -> Option<Seq<char>> {
    if is_physdev_line(line) {
        usb_part(line.skip("PHYSDEVPATH="@.len() as int))
    } else {
        None
    }
}

/// The topology that the event log gives: what the first line gives that
/// gives a USB part.
pub open spec fn uevent_topology(lines: Seq<Seq<char>>) -> Option<Seq<char>>
    decreases lines.len(),
{
    if lines.len() == 0 {
        None
    } else if line_topology(lines[0]) is Some {
        line_topology(lines[0])
    } else {
        uevent_topology(lines.drop_first())
    }
}

/// The topology that the input-id directory gives: the first of its names
/// that begins with `input`.
pub open spec fn input_id_topology(names: Seq<Seq<char>>) -> Option<Seq<char>> {
    if first_input_id(names).len() > 0 {
        Some(first_input_id(names))
    } else {
        None
    }
}

/// The topology that the physical-path file gives: its content without
/// the white space around it, where anything is left.
pub open spec fn phys_topology(phys: Option<Seq<char>>) -> Option<Seq<char>> {
    match phys {
        Some(content) => if trimmed(content).len() > 0 {
            Some(trimmed(content))
        } else {
            None
        },
        None => None,
    }
}

/// The first of `names` that begins with `input`; empty where there is
/// none.
pub open spec fn first_input_id(names: Seq<Seq<char>>) -> Seq<char>
    decreases names.len(),
{
    if names.len() == 0 {
        Seq::empty()
    } else if has_prefix(names[0], "input"@) {
        names[0]
    } else {
        first_input_id(names.drop_first())
    }
}

/// The topology tag of a device: what the first of four methods gives that
/// gives anything, and `unknown` where none does. The methods are, in this
/// order: the device link, the event log, the physical-path file and the
/// input-id directory.
pub open spec fn topology(probe: ProbeModel) -> Seq<char> {
    if link_topology(probe.link) is Some {
        link_topology(probe.link)->0
    } else if log_topology(probe.uevent) is Some {
        log_topology(probe.uevent)->0
    } else if phys_topology(probe.phys) is Some {
        phys_topology(probe.phys)->0
    } else if input_id_topology(probe.input_ids) is Some {
        input_id_topology(probe.input_ids)->0
    } else {
        UNKNOWN_PORT@
    }
}

/// The topology that the event log gives, where the log could be read.
pub open spec fn log_topology(uevent: Option<Seq<Seq<char>>>) -> Option<Seq<char>> {
    match uevent {
        Some(lines) => uevent_topology(lines),
        None => None,
    }
}

/// None of the four methods gives a topology.
pub open spec fn unresolved(probe: ProbeModel) -> bool {
    &&& link_topology(probe.link) is None
    &&& log_topology(probe.uevent) is None
    &&& phys_topology(probe.phys) is None
    &&& input_id_topology(probe.input_ids) is None
}

/// Finds the input id among the names of an input-id directory.
pub fn get_input_id(names: &Vec<String>) -> (r: String)
    ensures
        r@ == first_input_id(string_texts(names@)),
{
    let ghost all = string_texts(names@);
    let word = chars_of("input");
    let n: usize = names.len();
    let mut i: usize = 0;
    assert(all.skip(0) == all);
    while i < n
        invariant
            i <= n,
            n == names@.len(),
            word@ == "input"@,
            all == string_texts(names@),
            first_input_id(all) == first_input_id(all.skip(i as int)),
        decreases n - i,
    {
        assert(all.skip(i as int)[0] == names@[i as int]@);
        let name = chars_of(names[i].as_str());
        if matches_at(&name, 0, &word) {
            return names[i].clone();
        }
        assert(all.skip(i as int).drop_first() == all.skip(i + 1));
        i = i + 1;
    }
    String::new()
}

/// Looks in the lines of an event log for a physical path on the USB.
fn uevent_usb_path(lines: &Vec<String>) -> (r: Option<String>)
    ensures
        text_of(r) == uevent_topology(string_texts(lines@)),
{
    let ghost all = string_texts(lines@);
    let key = chars_of("PHYSDEVPATH=");
    let usb = chars_of("usb");
    let n: usize = lines.len();
    let mut i: usize = 0;
    assert(all.skip(0) == all);
    while i < n
        invariant
            i <= n,
            n == lines@.len(),
            key@ == "PHYSDEVPATH="@,
            usb@ == "usb"@,
            all == string_texts(lines@),
            uevent_topology(all) == uevent_topology(all.skip(i as int)),
        decreases n - i,
    {
        assert(all.skip(i as int)[0] == lines@[i as int]@);
        let line = chars_of(lines[i].as_str());
        if matches_at(&line, 0, &key) && contains_chars(&line, &usb) {
            let mut rest: Vec<char> = Vec::new();
            let mut k: usize = key.len();
            while k < line.len()
                invariant
                    key@.len() <= k <= line@.len(),
                    rest@ == line@.subrange(key@.len() as int, k as int),
                decreases line@.len() - k,
            {
                rest.push(line[k]);
                k = k + 1;
            }
            assert(rest@ == line@.skip(key@.len() as int));
            match usb_part_of_chars(&rest) {
                Some(part) => {
                    return Some(part);
                },
                None => {},
            }
        }
        assert(all.skip(i as int).drop_first() == all.skip(i + 1));
        i = i + 1;
    }
    None
}

/// The text `unknown` names no USB part and no input id.
proof fn lemma_unknown_is_no_result(path: Seq<char>, names: Seq<Seq<char>>)
    ensures
        usb_part(path) != Some(UNKNOWN_PORT@),
        input_id_topology(names) != Some(UNKNOWN_PORT@),
        usb_part(path) matches Some(part) ==> part.len() > 0,
{
    reveal_strlit("unknown");
    reveal_strlit("usb-");
    reveal_strlit("input");
    let unknown = UNKNOWN_PORT@;
    assert(unknown.len() == 7);
    assert(!unknown.contains(':')) by {
        if unknown.contains(':') {
            let k = choose|k: int| 0 <= k < unknown.len() && unknown[k] == ':';
            assert(unknown[k] == ':');
        }
    }
    assert(!unknown.contains('/')) by {
        if unknown.contains('/') {
            let k = choose|k: int| 0 <= k < unknown.len() && unknown[k] == '/';
            assert(unknown[k] == '/');
        }
    }
    assert(!has_substring(unknown, "usb-"@)) by {
        if has_substring(unknown, "usb-"@) {
            let at = choose|at: int| occurs_at(unknown, "usb-"@, at);
            let cut = unknown.subrange(at, at + 4);
            assert(cut[0] == 'u' && cut[1] == 's' && cut[2] == 'b' && cut[3] == '-');
            assert(unknown[at + 3] == '-');
        }
    }
    assert(!is_port_part(unknown));
    let parts = split(path, '/');
    lemma_first_port_part(parts);
    lemma_first_bus_pair(parts, 0);
    if first_bus_pair(parts, 0) is Some {
        let pair = first_bus_pair(parts, 0)->0;
        let i = choose|i: int|
            0 <= i && i + 1 < parts.len() && pair == parts[i] + seq!['/'] + parts[i + 1];
        assert(pair[parts[i].len() as int] == '/');
        assert(pair.contains('/'));
        assert(pair.len() > 0);
    }
    if first_port_part(parts) is Some {
        let part = first_port_part(parts)->0;
        assert(is_port_part(part));
        if part.len() == 0 {
            assert(!part.contains(':'));
            if has_substring(part, "usb-"@) {
                let at = choose|at: int| occurs_at(part, "usb-"@, at);
                assert(at + 4 <= 0);
            }
        }
    }
    lemma_first_input_id(names);
    if input_id_topology(names) is Some {
        let id = first_input_id(names);
        assert(has_prefix(id, "input"@));
        assert(id.subrange(0, 5)[0] == 'i');
        assert(id[0] == 'i');
        assert(unknown[0] == 'u');
    }
}

/// The first port part of a list of components names a USB port.
proof fn lemma_first_port_part(parts: Seq<Seq<char>>)
    ensures
        first_port_part(parts) matches Some(part) ==> is_port_part(part),
    decreases parts.len(),
{
    if parts.len() > 0 && !is_port_part(parts[0]) {
        lemma_first_port_part(parts.drop_first());
    }
}

/// The first bus pair of a list of components is two neighbours joined by a
/// slash.
proof fn lemma_first_bus_pair(parts: Seq<Seq<char>>, from: int)
    requires
        0 <= from,
    ensures
        first_bus_pair(parts, from) matches Some(pair) ==> exists|i: int|
            0 <= i && i + 1 < parts.len() && pair == #[trigger] parts[i] + seq!['/'] + parts[i + 1],
    decreases parts.len() - from,
{
    if from + 1 < parts.len() {
        if has_prefix(parts[from], "usb"@) && parts[from + 1].contains('-') {
            assert(first_bus_pair(parts, from) == Some(parts[from] + seq!['/'] + parts[from + 1]));
        } else {
            lemma_first_bus_pair(parts, from + 1);
        }
    }
}

/// The first input id of a list of names is empty or begins with `input`.
proof fn lemma_first_input_id(names: Seq<Seq<char>>)
    ensures
        first_input_id(names).len() > 0 ==> has_prefix(first_input_id(names), "input"@),
    decreases names.len(),
{
    if names.len() > 0 && !has_prefix(names[0], "input"@) {
        lemma_first_input_id(names.drop_first());
    }
}

/// The event log gives no topology named `unknown`, and none that is empty.
proof fn lemma_uevent_topology(lines: Seq<Seq<char>>)
    ensures
        uevent_topology(lines) != Some(UNKNOWN_PORT@),
        uevent_topology(lines) matches Some(part) ==> part.len() > 0,
    decreases lines.len(),
{
    if lines.len() > 0 {
        lemma_unknown_is_no_result(
            lines[0].skip("PHYSDEVPATH="@.len() as int),
            Seq::<Seq<char>>::empty(),
        );
        lemma_uevent_topology(lines.drop_first());
    }
}

/// A topology tag is never empty. It is `unknown` where none of the four
/// methods gives a topology, and only there, but for one thing: a
/// physical-path file may itself hold the word `unknown`.
pub proof fn lemma_topology_unknown(probe: ProbeModel)
    ensures
        topology(probe).len() > 0,
        unresolved(probe) ==> topology(probe) == UNKNOWN_PORT@,
        phys_topology(probe.phys) != Some(UNKNOWN_PORT@) ==> (topology(probe) == UNKNOWN_PORT@
            <==> unresolved(probe)),
{
    reveal_strlit("unknown");
    if probe.link is Some {
        lemma_unknown_is_no_result(probe.link->0, probe.input_ids);
    }
    if probe.uevent is Some {
        lemma_uevent_topology(probe.uevent->0);
    }
    lemma_unknown_is_no_result(Seq::<char>::empty(), probe.input_ids);
}

/// Resolves the topology tag of a device from what was read about it.
///
/// Four methods are tried in order: the device link, the event log, the
/// physical-path file and the input-id directory. A method that gives no
/// topology is passed over for the next. Where none gives one, the tag is
/// `unknown`. The tag is never empty.
pub fn extract_usb_info(probe: &SysfsProbe) -> (r: String)
    ensures
        r@ == topology(probe@),
        r@.len() > 0,
{
    proof {
        lemma_topology_unknown(probe@);
    }
    match &probe.link {
        Some(target) => {
            let t = chars_of(target.as_str());
            let usb = chars_of("usb");
            if contains_chars(&t, &usb) {
                match usb_part_of_chars(&t) {
                    Some(part) => {
                        return part;
                    },
                    None => {},
                }
            }
        },
        None => {},
    }
    match &probe.uevent {
        Some(lines) => {
            match uevent_usb_path(lines) {
                Some(tag) => {
                    return tag;
                },
                None => {},
            }
        },
        None => {},
    }
    match &probe.phys {
        Some(content) => {
            let c = chars_of(content.as_str());
            let (from, to) = trim_bounds(&c);
            if from < to {
                return string_of_range(&c, from, to);
            }
        },
        None => {},
    }
    let id = get_input_id(&probe.input_ids);
    if !id.as_str().is_empty() {
        return id;
    }
    String::from_str(UNKNOWN_PORT)
}

/// The name of a device: what was read without the white space around
/// it, or the placeholder where nothing could be read.
pub open spec fn display_name(name: Option<Seq<char>>) -> Seq<char> {
    match name {
        Some(n) => trimmed(n),
        None => UNKNOWN_DEVICE@,
    }
}

/// The path of the device file named `file_name`.
pub open spec fn device_path(file_name: Seq<char>) -> Seq<char> {
    INPUT_DEVICES_PATH@ + seq!['/'] + file_name
}

/// The descriptor of the device file `file_name` with ordinal `event_num`.
pub open spec fn described(
    file_name: Seq<char>,
    event_num: usize,
    name: Option<Seq<char>>,
    probe: ProbeModel,
) -> DeviceModel {
    DeviceModel {
        event_num,
        device_path: device_path(file_name),
        device_name: display_name(name),
        usb_port: topology(probe),
    }
}

/// The path of the directory that describes the device with the given
/// ordinal.
pub fn sysfs_path(event_num: usize) -> (r: String)
    ensures
        r@ == "/sys/class/input/event"@ + crate::text::decimal(event_num as nat),
{
    let mut s = String::from_str("/sys/class/input/event");
    crate::text::push_decimal(&mut s, event_num as u64);
    s
}

/// Builds the descriptor of one device file from what was read about it.
///
/// This never fails: a name that could not be read becomes the
/// placeholder, and a topology that no method resolves becomes `unknown`.
pub fn get_device_info(
    file_name: &str,
    event_num: usize,
    name: Option<&str>,
    probe: &SysfsProbe,
) -> (r: DeviceInfo)
    ensures
        r@ == described(
            file_name@,
            event_num,
            match name {
                Some(n) => Some(n@),
                None => None,
            },
            probe@,
        ),
        r@.device_path.len() > 0,
{
    let mut path = String::from_str(INPUT_DEVICES_PATH);
    path.append("/");
    path.append(file_name);
    proof {
        reveal_strlit("/");
        assert("/"@ == seq!['/']);
    }
    let device_name = match name {
        Some(n) => crate::text::trim(n),
        None => String::from_str(UNKNOWN_DEVICE),
    };
    DeviceInfo { event_num, device_path: path, device_name, usb_port: extract_usb_info(probe) }
}

/// The devices among the first `n` of `devices` whose flag is set, in order.
/// A device without a flag counts as not set.
pub open spec fn flagged(devices: Seq<DeviceModel>, flags: Seq<bool>, n: nat) -> Seq<DeviceModel>
    decreases n,
{
    if n == 0 || n > devices.len() {
        Seq::empty()
    } else {
        let before = flagged(devices, flags, (n - 1) as nat);
        if n - 1 < flags.len() && flags[n - 1] {
            before.push(devices[n - 1])
        } else {
            before
        }
    }
}

/// Keeps the devices whose flag in `flags` is set, in their order.
pub fn keep_flagged(devices: &Vec<DeviceInfo>, flags: &Vec<bool>) -> (kept: Vec<DeviceInfo>)
    ensures
        models(kept@) == flagged(models(devices@), flags@, devices@.len()),
{
    let ghost ds = models(devices@);
    let mut kept: Vec<DeviceInfo> = Vec::new();
    let mut i: usize = 0;
    while i < devices.len()
        invariant
            i <= devices@.len(),
            ds == models(devices@),
            models(kept@) == flagged(ds, flags@, i as nat),
        decreases devices@.len() - i,
    {
        if i < flags.len() && flags[i] {
            let k = devices[i].clone();
            proof {
                lemma_models_push(kept@, k);
            }
            kept.push(k);
        }
        i = i + 1;
    }
    kept
}

/// Whether a lowercase topology tag tells of a USB attachment.
pub open spec fn tells_usb(lowered_tag: Seq<char>) -> bool {
    has_substring(lowered_tag, "usb"@)
}

/// Whether a topology tag tells of a USB attachment, in any mix of upper
/// and lower case.
pub open spec fn is_usb_tag(tag: Seq<char>) -> bool {
    tells_usb(lowercased(tag))
}

/// For each device, whether its topology tag tells of a USB attachment.
pub open spec fn usb_flags(devices: Seq<DeviceModel>) -> Seq<bool> {
    Seq::new(devices.len(), |i: int| is_usb_tag(devices[i].usb_port))
}

/// Tests a topology tag that has already been put in lowercase.
pub fn lowered_tag_is_usb(lowered_tag: &str) -> (r: bool)
    ensures
        r == tells_usb(lowered_tag@),
{
    let hay = chars_of(lowered_tag);
    let needle = chars_of("usb");
    contains_chars(&hay, &needle)
}

/// Keeps the devices that are attached by USB, in their order.
pub fn usb_devices(devices: &Vec<DeviceInfo>) -> (r: Vec<DeviceInfo>)
    ensures
        models(r@) == flagged(models(devices@), usb_flags(models(devices@)), devices@.len()),
{
    let mut flags: Vec<bool> = Vec::new();
    let mut i: usize = 0;
    while i < devices.len()
        invariant
            i <= devices@.len(),
            flags@ == usb_flags(models(devices@)).take(i as int),
        decreases devices@.len() - i,
    {
        let lowered = to_lowercase(devices[i].usb_port.as_str());
        let flag = lowered_tag_is_usb(lowered.as_str());
        flags.push(flag);
        assert(flags@ =~= usb_flags(models(devices@)).take(i + 1));
        i = i + 1;
    }
    assert(flags@ =~= usb_flags(models(devices@)));
    keep_flagged(devices, &flags)
}

/// `sorted` with `d` put behind every device whose ordinal is not greater
/// than its own.
pub open spec fn inserted(sorted: Seq<DeviceModel>, d: DeviceModel) -> Seq<DeviceModel>
    decreases sorted.len(),
{
    if sorted.len() == 0 {
        seq![d]
    } else if sorted.last().event_num <= d.event_num {
        sorted.push(d)
    } else {
        inserted(sorted.drop_last(), d).push(sorted.last())
    }
}

/// The first `n` of `devices` by rising ordinal; devices with the same
/// ordinal keep their order.
pub open spec fn by_index(devices: Seq<DeviceModel>, n: nat) -> Seq<DeviceModel>
    decreases n,
{
    if n == 0 || n > devices.len() {
        Seq::empty()
    } else {
        inserted(by_index(devices, (n - 1) as nat), devices[n - 1])
    }
}

/// The ordinals of `devices` never fall.
pub open spec fn ordered(devices: Seq<DeviceModel>) -> bool {
    forall|i: int, j: int|
        0 <= i <= j < devices.len() ==> (#[trigger] devices[i]).event_num <= (
        #[trigger] devices[j]).event_num
}

/// Where `d` goes when it is inserted.
proof fn lemma_inserted_at(sorted: Seq<DeviceModel>, d: DeviceModel, at: int)
    requires
        0 <= at <= sorted.len(),
        forall|k: int| at <= k < sorted.len() ==> (#[trigger] sorted[k]).event_num > d.event_num,
        at > 0 ==> sorted[at - 1].event_num <= d.event_num,
    ensures
        inserted(sorted, d) == sorted.insert(at, d),
    decreases sorted.len(),
{
    if sorted.len() == 0 {
        assert(sorted.insert(at, d) == seq![d]);
    } else if at == sorted.len() {
        assert(sorted.insert(at, d) == sorted.push(d));
    } else {
        lemma_inserted_at(sorted.drop_last(), d, at);
        assert(sorted.drop_last().insert(at, d).push(sorted.last()) == sorted.insert(at, d));
    }
}

/// Inserting keeps the order and adds exactly the one device.
pub proof fn lemma_inserted(sorted: Seq<DeviceModel>, d: DeviceModel)
    requires
        ordered(sorted),
    ensures
        ordered(inserted(sorted, d)),
        inserted(sorted, d).to_multiset() == sorted.to_multiset().insert(d),
        inserted(sorted, d).len() == sorted.len() + 1,
    decreases sorted.len(),
{
    broadcast use vstd::seq_lib::group_to_multiset_ensures;

    if sorted.len() == 0 {
        assert(sorted == Seq::<DeviceModel>::empty());
        assert(seq![d] == Seq::<DeviceModel>::empty().push(d));
    } else if sorted.last().event_num <= d.event_num {
        let r = sorted.push(d);
        assert forall|i: int, j: int| 0 <= i <= j < r.len() implies (#[trigger] r[i]).event_num <= (
        #[trigger] r[j]).event_num by {
            if j == sorted.len() && i < sorted.len() {
                assert(sorted[i].event_num <= sorted[sorted.len() - 1].event_num);
            }
        }
    } else {
        let front = sorted.drop_last();
        assert(ordered(front));
        lemma_inserted(front, d);
        let mid = inserted(front, d);
        let r = mid.push(sorted.last());
        assert(sorted == front.push(sorted.last()));
        assert forall|k: int| 0 <= k < mid.len() implies (#[trigger] mid[k]).event_num
            <= sorted.last().event_num by {
            assert(mid.to_multiset().count(mid[k]) > 0);
            if mid[k] == d {
            } else {
                assert(front.to_multiset().count(mid[k]) > 0);
                assert(front.contains(mid[k]));
                let w = choose|w: int| 0 <= w < front.len() && front[w] == mid[k];
                assert(sorted[w].event_num <= sorted[sorted.len() - 1].event_num);
            }
        }
        assert forall|i: int, j: int| 0 <= i <= j < r.len() implies (#[trigger] r[i]).event_num <= (
        #[trigger] r[j]).event_num by {
            if j < mid.len() {
                assert(mid[i].event_num <= mid[j].event_num);
            } else if i < mid.len() {
                assert(mid[i].event_num <= sorted.last().event_num);
            }
        }
    }
}

/// Sorting keeps every device, as often as it occurs, and puts the
/// ordinals in rising order.
pub proof fn lemma_by_index(devices: Seq<DeviceModel>, n: nat)
    requires
        n <= devices.len(),
    ensures
        ordered(by_index(devices, n)),
        by_index(devices, n).to_multiset() == devices.take(n as int).to_multiset(),
        by_index(devices, n).len() == n,
    decreases n,
{
    broadcast use vstd::seq_lib::group_to_multiset_ensures;

    if n == 0 {
        assert(devices.take(0) == Seq::<DeviceModel>::empty());
    } else {
        lemma_by_index(devices, (n - 1) as nat);
        lemma_inserted(by_index(devices, (n - 1) as nat), devices[n - 1]);
        assert(devices.take(n as int) == devices.take(n - 1).push(devices[n - 1]));
    }
}

/// Sorts devices by rising ordinal; devices with the same ordinal keep
/// their order.
pub fn sort_by_index(devices: &Vec<DeviceInfo>) -> (r: Vec<DeviceInfo>)
    ensures
        models(r@) == by_index(models(devices@), devices@.len()),
        ordered(models(r@)),
        models(r@).to_multiset() == models(devices@).to_multiset(),
{
    let ghost ds = models(devices@);
    let mut r: Vec<DeviceInfo> = Vec::new();
    let mut i: usize = 0;
    while i < devices.len()
        invariant
            i <= devices@.len(),
            ds == models(devices@),
            models(r@) == by_index(ds, i as nat),
        decreases devices@.len() - i,
    {
        let d = devices[i].clone();
        let mut at: usize = r.len();
        while at > 0 && r[at - 1].event_num > d.event_num
            invariant
                at <= r@.len(),
                forall|k: int|
                    at <= k < r@.len() ==> (#[trigger] models(r@)[k]).event_num > d.event_num,
            decreases at,
        {
            at = at - 1;
        }
        proof {
            assert(at > 0 ==> models(r@)[at - 1].event_num <= d.event_num);
            lemma_inserted_at(models(r@), d@, at as int);
            assert(models(r@.insert(at as int, d)) == models(r@).insert(at as int, d@));
        }
        r.insert(at, d);
        i = i + 1;
    }
    proof {
        lemma_by_index(ds, devices@.len());
        assert(ds.take(ds.len() as int) == ds);
    }
    r
}

/// One entry of the input device directory, with what was read about it.
#[derive(Debug, PartialEq, Eq)]
pub struct DeviceEntry {
    /// Name of the file in the directory.
    pub file_name: String,
    /// Content of the device's name file, if it could be read.
    pub name: Option<String>,
    /// What was read about the device's attachment.
    pub probe: SysfsProbe,
}

/// One directory entry as plain values.
pub struct EntryModel {
    pub file_name: Seq<char>,
    pub name: Option<Seq<char>>,
    pub probe: ProbeModel,
}

impl View for DeviceEntry {
    type V = EntryModel;

    open spec fn view(&self) -> EntryModel {
        EntryModel {
            file_name: self.file_name@,
            name: match self.name {
                Some(n) => Some(n@),
                None => None,
            },
            probe: self.probe@,
        }
    }
}

/// The entries `entries` as plain values, in order.
pub open spec fn entry_models(entries: Seq<DeviceEntry>) -> Seq<EntryModel> {
    entries.map_values(|e: DeviceEntry| e@)
}

/// The descriptors of those among the first `n` entries whose file names
/// carry an ordinal, in the order of the entries.
pub open spec fn found(entries: Seq<EntryModel>, n: nat) -> Seq<DeviceModel>
    decreases n,
{
    if n == 0 || n > entries.len() {
        Seq::empty()
    } else {
        let before = found(entries, (n - 1) as nat);
        let e = entries[n - 1];
        match event_number(e.file_name) {
            Some(event_num) => before.push(described(e.file_name, event_num, e.name, e.probe)),
            None => before,
        }
    }
}

/// The candidate devices among the entries of the input device directory:
/// the described devices that are attached by USB, by rising ordinal.
pub open spec fn enumerated(entries: Seq<EntryModel>) -> Seq<DeviceModel> {
    let all = found(entries, entries.len());
    let usb = flagged(all, usb_flags(all), all.len());
    by_index(usb, usb.len())
}

/// What holds of every device that an enumeration returns.
pub open spec fn is_candidate(d: DeviceModel) -> bool {
    d.device_path.len() > 0 && is_usb_tag(d.usb_port)
}

/// Every flagged device is one of the devices, and its flag is set.
proof fn lemma_flagged_member(devices: Seq<DeviceModel>, flags: Seq<bool>, n: nat, d: DeviceModel)
    requires
        n <= devices.len(),
        flagged(devices, flags, n).contains(d),
    ensures
        exists|k: int| 0 <= k < n && k < flags.len() && flags[k] && devices[k] == d,
    decreases n,
{
    if n > 0 {
        let before = flagged(devices, flags, (n - 1) as nat);
        if n - 1 < flags.len() && flags[n - 1] && devices[n - 1] == d {
        } else {
            if n - 1 < flags.len() && flags[n - 1] {
                let pushed = before.push(devices[n - 1]);
                let w = choose|w: int| 0 <= w < pushed.len() && #[trigger] pushed[w] == d;
                assert(before[w] == d);
            }
            assert(before.contains(d));
            lemma_flagged_member(devices, flags, (n - 1) as nat, d);
        }
    }
}

/// Lists the candidate devices among the entries of the input device
/// directory.
///
/// An entry is described when its file name is `event` followed by a
/// number. Of the described devices those stay whose topology tag mentions
/// `usb`, in any mix of case. They come by rising ordinal. This never
/// fails.
pub fn enumerate(entries: &Vec<DeviceEntry>) -> (r: Vec<DeviceInfo>)
    ensures
        models(r@) == enumerated(entry_models(entries@)),
        ordered(models(r@)),
        forall|i: int| 0 <= i < r@.len() ==> is_candidate(#[trigger] models(r@)[i]),
{
    let ghost es = entry_models(entries@);
    let mut all: Vec<DeviceInfo> = Vec::new();
    let mut i: usize = 0;
    while i < entries.len()
        invariant
            i <= entries@.len(),
            es == entry_models(entries@),
            models(all@) == found(es, i as nat),
            forall|k: int| 0 <= k < all@.len() ==> (#[trigger] models(all@)[k]).device_path.len() > 0,
        decreases entries@.len() - i,
    {
        let e = &entries[i];
        assert(es[i as int] == e@);
        match event_index(e.file_name.as_str()) {
            Some(event_num) => {
                let name: Option<&str> = match &e.name {
                    Some(n) => Some(n.as_str()),
                    None => None,
                };
                let d = get_device_info(e.file_name.as_str(), event_num, name, &e.probe);
                proof {
                    lemma_models_push(all@, d);
                }
                all.push(d);
            },
            None => {},
        }
        i = i + 1;
    }
    let usb = usb_devices(&all);
    let r = sort_by_index(&usb);
    proof {
        let am = models(all@);
        let um = models(usb@);
        let rm = models(r@);
        assert(am.len() == all@.len());
        assert(um.len() == usb@.len());
        assert(rm.len() == r@.len());
        assert forall|i: int| 0 <= i < r@.len() implies is_candidate(#[trigger] rm[i]) by {
            broadcast use vstd::seq_lib::group_to_multiset_ensures;

            let d = rm[i];
            assert(rm.to_multiset().count(d) > 0);
            assert(um.contains(d));
            lemma_flagged_member(am, usb_flags(am), am.len(), d);
            let k = choose|k: int|
                0 <= k < am.len() && k < usb_flags(am).len() && usb_flags(am)[k] && am[k] == d;
            assert(am[k].device_path.len() > 0);
        }
    }
    r
}

} // verus!
