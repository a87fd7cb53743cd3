//! Choosing devices by hand: what one line of input selects from a list of
//! devices.

use crate::device::{clone_devices, lemma_models_push, models, DeviceInfo, DeviceModel};
use crate::text::{
    chars_of, decimal, lowercased, matches_at, parse_digits, parsed_usize, push_decimal, split,
    split_chars, texts, to_lowercase, trim_bounds, trimmed,
};
use vstd::prelude::*;
use vstd::string::StringExecFns;

verus! {

/// What a line of input selects.
#[derive(Debug, PartialEq, Eq)]
pub enum Selection {
    /// The user gave up.
    Quit,
    /// These devices are selected.
    Chosen(Vec<DeviceInfo>),
    /// The line selects nothing: ask again.
    Retry,
}

/// A selection as plain values.
pub enum SelectionModel {
    Quit,
    Chosen(Seq<DeviceModel>),
    Retry,
}

impl View for Selection {
    type V = SelectionModel;

    open spec fn view(&self) -> SelectionModel {
        match self {
            Selection::Quit => SelectionModel::Quit,
            Selection::Chosen(devices) => SelectionModel::Chosen(models(devices@)),
            Selection::Retry => SelectionModel::Retry,
        }
    }
}

/// The device that one item of a list of numbers picks: the item, without
/// the white space around it, is a number from 1 to the number of devices.
pub open spec fn pick(item: Seq<char>, devices: Seq<DeviceModel>) -> Option<DeviceModel> {
    match parsed_usize(trimmed(item)) {
        Some(number) => if 1 <= number <= devices.len() {
            Some(devices[number - 1])
        } else {
            None
        },
        None => None,
    }
}

/// The devices that the first `n` items pick, in the order of the items.
/// A device that is picked twice comes twice.
pub open spec fn picked(items: Seq<Seq<char>>, devices: Seq<DeviceModel>, n: nat) -> Seq<
    DeviceModel,
>
    decreases n,
{
    if n == 0 || n > items.len() {
        Seq::empty()
    } else {
        let before = picked(items, devices, (n - 1) as nat);
        match pick(items[n - 1], devices) {
            Some(d) => before.push(d),
            None => before,
        }
    }
}

/// What the input `input` selects from `devices`, where `lowered` is the
/// input in lowercase: `q` gives up, `all` selects every device, and a list
/// of numbers with commas between them selects the devices at those
/// positions, counted from 1. A list that picks no device selects nothing.
pub open spec fn selection(
    input: Seq<char>,
    lowered: Seq<char>,
    devices: Seq<DeviceModel>,
) -> SelectionModel {
    if lowered == "q"@ {
        SelectionModel::Quit
    } else if lowered == "all"@ {
        SelectionModel::Chosen(devices)
    } else {
        let items = split(input, ',');
        let chosen = picked(items, devices, items.len());
        if chosen.len() > 0 {
            SelectionModel::Chosen(chosen)
        } else {
            SelectionModel::Retry
        }
    }
}

/// Whether `a` and `b` hold the same characters.
fn same_chars(a: &Vec<char>, b: &Vec<char>) -> (r: bool)
    ensures
        r == (a@ == b@),
{
    if a.len() != b.len() {
        return false;
    }
    let r = matches_at(a, 0, b);
    assert(a@.subrange(0, a@.len() as int) == a@);
    r
}

/// Decides what a line of input selects, from the line without the white
/// space around it and the same in lowercase.
pub fn select_from_input(input: &str, lowered: &str, devices: &Vec<DeviceInfo>) -> (r: Selection)
    ensures
        r@ == selection(input@, lowered@, models(devices@)),
{
    let low = chars_of(lowered);
    let quit = chars_of("q");
    let all = chars_of("all");
    if same_chars(&low, &quit) {
        return Selection::Quit;
    }
    if same_chars(&low, &all) {
        return Selection::Chosen(clone_devices(devices));
    }
    let line = chars_of(input);
    let items = split_chars(&line, ',');
    let ghost item_texts = split(input@, ',');
    let ghost ds = models(devices@);
    assert(texts(items@).len() == items@.len());
    let mut chosen: Vec<DeviceInfo> = Vec::new();
    let mut i: usize = 0;
    while i < items.len()
        invariant
            i <= items@.len(),
            texts(items@) == item_texts,
            ds == models(devices@),
            models(chosen@) == picked(item_texts, ds, i as nat),
        decreases items@.len() - i,
    {
        let item = &items[i];
        assert(item_texts[i as int] == item@);
        let (from, to) = trim_bounds(item);
        let mut word: Vec<char> = Vec::new();
        let mut k: usize = from;
        while k < to
            invariant
                from <= k <= to <= item@.len(),
                word@ == item@.subrange(from as int, k as int),
            decreases to - k,
        {
            word.push(item[k]);
            k = k + 1;
        }
        assert(word@.skip(0) == word@);
        match parse_digits(&word, 0) {
            Some(number) => {
                if 1 <= number && number <= devices.len() {
                    let d = devices[number - 1].clone();
                    proof {
                        lemma_models_push(chosen@, d);
                        assert(ds.len() == devices@.len());
                    }
                    chosen.push(d);
                } else {
                    assert(ds.len() == devices@.len());
                }
            },
            None => {},
        }
        i = i + 1;
    }
    assert(models(chosen@).len() == chosen@.len());
    if chosen.len() > 0 {
        Selection::Chosen(chosen)
    } else {
        Selection::Retry
    }
}

/// Decides what one line of input selects from `device_list`.
///
/// White space around the line does not count, and neither does the case
/// of `q` and `all`.
pub fn select_devices_manually(line: &str, device_list: &Vec<DeviceInfo>) -> (r: Selection)
    ensures
        r@ == selection(trimmed(line@), lowercased(trimmed(line@)), models(device_list@)),
{
    let input = crate::text::trim(line);
    let lowered = to_lowercase(input.as_str());
    select_from_input(input.as_str(), lowered.as_str(), device_list)
}

/// The line that shows a saved device at position `position`, counted from
/// 1, in a list.
pub open spec fn saved_line(position: nat, d: DeviceModel) -> Seq<char> {
    "["@ + decimal(position) + "] "@ + d.device_path + " - "@ + d.device_name + " (USB Port: "@
        + d.usb_port + ")"@
}

/// The lines that show the first `n` of `devices`.
pub open spec fn saved_lines(devices: Seq<DeviceModel>, n: nat) -> Seq<Seq<char>>
    decreases n,
{
    if n == 0 || n > devices.len() {
        Seq::empty()
    } else {
        saved_lines(devices, (n - 1) as nat).push(saved_line(n, devices[n - 1]))
    }
}

/// Renders the saved devices, one line each, numbered from 1.
pub fn display_saved_devices(devices: &Vec<DeviceInfo>) -> (lines: Vec<String>)
    ensures
        crate::text::string_texts(lines@) == saved_lines(models(devices@), devices@.len()),
{
    let ghost ds = models(devices@);
    let mut lines: Vec<String> = Vec::new();
    let mut i: usize = 0;
    while i < devices.len()
        invariant
            i <= devices@.len(),
            ds == models(devices@),
            crate::text::string_texts(lines@) == saved_lines(ds, i as nat),
        decreases devices@.len() - i,
    {
        let d = &devices[i];
        assert(ds[i as int] == d@);
        let mut s = String::from_str("[");
        push_decimal(&mut s, (i + 1) as u64);
        s.append("] ");
        s.append(d.device_path.as_str());
        s.append(" - ");
        s.append(d.device_name.as_str());
        s.append(" (USB Port: ");
        s.append(d.usb_port.as_str());
        s.append(")");
        assert(s@ == saved_line((i + 1) as nat, d@));
        assert(crate::text::string_texts(lines@.push(s)) == crate::text::string_texts(lines@).push(
            s@,
        ));
        lines.push(s);
        i = i + 1;
    }
    lines
}

} // verus!
