use macroeng::device::{
    clone_devices, enumerate, event_index, extract_usb_info, extract_usb_path, get_device_info,
    get_input_id, lowered_tag_is_usb, sort_by_index, sysfs_path, usb_devices, DeviceEntry,
    DeviceInfo, SysfsProbe, INPUT_DEVICES_PATH, UNKNOWN_DEVICE, UNKNOWN_PORT,
};
use macroeng::monitor::Instance;
use macroeng::reader::KeyInfo;

fn nothing() -> SysfsProbe {
    SysfsProbe { link: None, uevent: None, phys: None, input_ids: Vec::new() }
}

fn linked(target: &str) -> SysfsProbe {
    SysfsProbe { link: Some(target.to_string()), uevent: None, phys: None, input_ids: Vec::new() }
}

fn device(event_num: usize, port: &str) -> DeviceInfo {
    DeviceInfo {
        event_num,
        device_path: format!("/dev/input/event{}", event_num),
        device_name: format!("Device {}", event_num),
        usb_port: port.to_string(),
    }
}

#[test]
fn ordinals_are_read_from_file_names() {
    assert_eq!(event_index("event0"), Some(0));
    assert_eq!(event_index("event17"), Some(17));
    assert_eq!(event_index("event007"), Some(7));
    assert_eq!(event_index("eventevent5"), Some(5));
    assert_eq!(event_index("event+4"), Some(4));
}

#[test]
fn other_file_names_carry_no_ordinal() {
    assert_eq!(event_index("event"), None);
    assert_eq!(event_index("mouse0"), None);
    assert_eq!(event_index("mice"), None);
    assert_eq!(event_index("Event3"), None);
    assert_eq!(event_index("event3a"), None);
    assert_eq!(event_index("event-3"), None);
    assert_eq!(event_index("event 3"), None);
    assert_eq!(event_index("xevent3"), None);
    assert_eq!(event_index(""), None);
    assert_eq!(event_index("event99999999999999999999999"), None);
    assert_eq!(event_index("eventeven5"), None);
}

#[test]
fn the_port_part_of_a_path_is_found() {
    assert_eq!(
        extract_usb_path("../../devices/pci0000:00/0000:00:14.0/usb1/1-2/1-2:1.0/0003:046D/input/input5"),
        "0000:00:14.0"
    );
    assert_eq!(extract_usb_path("platform/usb-xhci/port"), "usb-xhci");
    assert_eq!(extract_usb_path("a/1-2:1.0/b"), "1-2:1.0");
    assert_eq!(extract_usb_path("a:b/c.d/usb-3"), "usb-3");
}

#[test]
fn a_bus_and_its_neighbour_are_joined() {
    assert_eq!(extract_usb_path("devices/usb1/1-2/input"), "usb1/1-2");
    assert_eq!(extract_usb_path("usb2/x/usb3/3-1"), "usb3/3-1");
    assert_eq!(extract_usb_path("usb1/1-2"), "usb1/1-2");
}

#[test]
fn a_path_without_marks_is_unknown() {
    assert_eq!(extract_usb_path(""), "unknown");
    assert_eq!(extract_usb_path("devices/platform/i8042/serio0"), "unknown");
    assert_eq!(extract_usb_path("usb1"), "unknown");
    assert_eq!(extract_usb_path("a/usb1"), "unknown");
    assert_eq!(extract_usb_path("usb1/12"), "unknown");
    assert_eq!(extract_usb_path("xusb1/1-2"), "unknown");
    assert_eq!(UNKNOWN_PORT, "unknown");
}

#[test]
fn the_link_comes_first() {
    let probe = SysfsProbe {
        link: Some("../devices/usb1/1-2/input".to_string()),
        uevent: Some(vec!["PHYSDEVPATH=/devices/usb-9/x".to_string()]),
        phys: Some("usb-0000:00:14.0-2/input0\n".to_string()),
        input_ids: vec!["input7".to_string()],
    };
    assert_eq!(extract_usb_info(&probe), "usb1/1-2");
    assert_eq!(extract_usb_info(&linked("x/usbhid/y")), "unknown");
}

#[test]
fn a_link_that_does_not_mention_the_bus_is_passed_over() {
    let probe = SysfsProbe {
        link: Some("../devices/platform/1-2:1.0".to_string()),
        uevent: None,
        phys: Some(" isa0060/serio0/input0 \n".to_string()),
        input_ids: Vec::new(),
    };
    assert_eq!(extract_usb_info(&probe), "isa0060/serio0/input0");
}

#[test]
fn a_method_that_finds_no_usb_part_is_passed_over() {
    let link_without_part = SysfsProbe {
        link: Some("usb".to_string()),
        uevent: None,
        phys: Some("1-2".to_string()),
        input_ids: Vec::new(),
    };
    assert_eq!(extract_usb_info(&link_without_part), "1-2");
    let log_without_part = SysfsProbe {
        link: Some("../devices/usbhid".to_string()),
        uevent: Some(vec!["PHYSDEVPATH=/devices/usbhid".to_string()]),
        phys: None,
        input_ids: vec!["input4".to_string()],
    };
    assert_eq!(extract_usb_info(&log_without_part), "input4");
    let later_line = SysfsProbe {
        link: None,
        uevent: Some(vec![
            "PHYSDEVPATH=/devices/usbhid".to_string(),
            "PHYSDEVPATH=/devices/usb2/2-1".to_string(),
        ]),
        phys: Some("phys".to_string()),
        input_ids: Vec::new(),
    };
    assert_eq!(extract_usb_info(&later_line), "usb2/2-1");
}

#[test]
fn the_tag_is_unknown_only_where_every_method_fails() {
    let all_fail = SysfsProbe {
        link: Some("usb".to_string()),
        uevent: Some(vec!["PHYSDEVPATH=usb".to_string(), "NAME=x".to_string()]),
        phys: Some(" \n".to_string()),
        input_ids: vec!["capabilities".to_string()],
    };
    assert_eq!(extract_usb_info(&all_fail), "unknown");
    assert_eq!(extract_usb_info(&nothing()), "unknown");
    let last_only = SysfsProbe { input_ids: vec!["input0".to_string()], ..nothing() };
    assert_eq!(extract_usb_info(&last_only), "input0");
    let named_unknown = SysfsProbe { phys: Some("unknown\n".to_string()), ..nothing() };
    assert_eq!(extract_usb_info(&named_unknown), "unknown");
}

#[test]
fn the_event_log_comes_second() {
    let probe = SysfsProbe {
        link: Some("../devices/platform/i8042".to_string()),
        uevent: Some(vec![
            "PRODUCT=3/46d/c31c/110".to_string(),
            "PHYSDEVPATH=/devices/pci/serio".to_string(),
            "NAME=usb thing".to_string(),
            "PHYSDEVPATH=/devices/usb3/3-4/x".to_string(),
            "PHYSDEVPATH=/devices/usb-first/x".to_string(),
        ]),
        phys: Some("phys".to_string()),
        input_ids: vec!["input7".to_string()],
    };
    assert_eq!(extract_usb_info(&probe), "usb3/3-4");
    let bare = SysfsProbe {
        link: None,
        uevent: Some(vec!["PHYSDEVPATH=usb".to_string()]),
        phys: None,
        input_ids: Vec::new(),
    };
    assert_eq!(extract_usb_info(&bare), "unknown");
}

#[test]
fn the_physical_path_comes_third() {
    let probe = SysfsProbe {
        link: None,
        uevent: Some(vec!["PHYSDEVPATH=/devices/pci".to_string()]),
        phys: Some("  usb-0000:00:14.0-2/input0\n".to_string()),
        input_ids: vec!["input7".to_string()],
    };
    assert_eq!(extract_usb_info(&probe), "usb-0000:00:14.0-2/input0");
}

#[test]
fn the_input_id_comes_last() {
    let probe = SysfsProbe {
        link: None,
        uevent: None,
        phys: Some(" \n".to_string()),
        input_ids: vec!["capabilities".to_string(), "input12".to_string(), "input3".to_string()],
    };
    assert_eq!(extract_usb_info(&probe), "input12");
    assert_eq!(extract_usb_info(&nothing()), "unknown");
    let other = SysfsProbe {
        link: None,
        uevent: None,
        phys: None,
        input_ids: vec!["bustype".to_string()],
    };
    assert_eq!(extract_usb_info(&other), "unknown");
}

#[test]
fn input_ids_begin_with_the_word() {
    assert_eq!(get_input_id(&vec!["x".to_string(), "input".to_string()]), "input");
    assert_eq!(get_input_id(&vec!["Input1".to_string(), "xinput2".to_string()]), "");
    assert_eq!(get_input_id(&Vec::new()), "");
}

#[test]
fn a_descriptor_is_built_from_what_was_read() {
    let d: DeviceInfo =
        get_device_info("event5", 5, Some("Logitech K120\n"), &linked("../usb1/1-3/x"));
    assert_eq!(
        d,
        DeviceInfo {
            event_num: 5,
            device_path: "/dev/input/event5".to_string(),
            device_name: "Logitech K120".to_string(),
            usb_port: "usb1/1-3".to_string(),
        }
    );
    assert_eq!(INPUT_DEVICES_PATH, "/dev/input");
}

#[test]
fn a_device_that_cannot_be_read_gets_placeholders() {
    let d: DeviceInfo = get_device_info("event9", 9, None, &nothing());
    assert_eq!(d.device_name, "Unknown Device");
    assert_eq!(d.device_name, UNKNOWN_DEVICE);
    assert_eq!(d.usb_port, "unknown");
    assert_eq!(d.device_path, "/dev/input/event9");
    let blank: DeviceInfo = get_device_info("event9", 9, Some(" \n"), &nothing());
    assert_eq!(blank.device_name, "");
    assert!(!blank.device_path.is_empty());
}

#[test]
fn the_description_directory_is_named_by_the_ordinal() {
    assert_eq!(sysfs_path(0), "/sys/class/input/event0");
    assert_eq!(sysfs_path(23), "/sys/class/input/event23");
}

#[test]
fn only_usb_devices_stay() {
    let all: Vec<DeviceInfo> = vec![
        device(1, "isa0060/serio0/input0"),
        device(2, "usb-0000:00:14.0-2/input0"),
        device(3, "unknown"),
        device(4, "USB1/1-2"),
        device(5, "pci-Usb"),
        device(6, "us-b"),
    ];
    let kept: Vec<DeviceInfo> = usb_devices(&all);
    assert_eq!(
        kept,
        vec![device(2, "usb-0000:00:14.0-2/input0"), device(4, "USB1/1-2"), device(5, "pci-Usb")]
    );
    assert!(lowered_tag_is_usb("xusb"));
    assert!(!lowered_tag_is_usb("USB"));
}

#[test]
fn sorting_is_by_ordinal_and_stable() {
    let all: Vec<DeviceInfo> =
        vec![device(7, "a"), device(2, "b"), device(7, "c"), device(0, "d"), device(2, "e")];
    assert_eq!(
        sort_by_index(&all),
        vec![device(0, "d"), device(2, "b"), device(2, "e"), device(7, "a"), device(7, "c")]
    );
    assert_eq!(sort_by_index(&Vec::new()), Vec::new());
    assert_eq!(clone_devices(&all), all);
}

fn entries() -> Vec<DeviceEntry> {
    vec![
        DeviceEntry {
            file_name: "event12".to_string(),
            name: Some("Macro Pad\n".to_string()),
            probe: linked("../devices/usb1/1-4/input"),
        },
        DeviceEntry { file_name: "mice".to_string(), name: None, probe: nothing() },
        DeviceEntry {
            file_name: "event3".to_string(),
            name: Some("AT Keyboard\n".to_string()),
            probe: SysfsProbe {
                link: None,
                uevent: None,
                phys: Some("isa0060/serio0/input0\n".to_string()),
                input_ids: Vec::new(),
            },
        },
        DeviceEntry {
            file_name: "event4".to_string(),
            name: None,
            probe: SysfsProbe {
                link: None,
                uevent: None,
                phys: Some("USB-0000:00:14.0-1/input0\n".to_string()),
                input_ids: Vec::new(),
            },
        },
        DeviceEntry { file_name: "event5".to_string(), name: None, probe: nothing() },
        DeviceEntry { file_name: "js0".to_string(), name: None, probe: linked("usb1/1-1") },
    ]
}

#[test]
fn enumeration_keeps_usb_devices_by_rising_ordinal() {
    let found: Vec<DeviceInfo> = enumerate(&entries());
    assert_eq!(
        found,
        vec![
            DeviceInfo {
                event_num: 4,
                device_path: "/dev/input/event4".to_string(),
                device_name: "Unknown Device".to_string(),
                usb_port: "USB-0000:00:14.0-1/input0".to_string(),
            },
            DeviceInfo {
                event_num: 12,
                device_path: "/dev/input/event12".to_string(),
                device_name: "Macro Pad".to_string(),
                usb_port: "usb1/1-4".to_string(),
            },
        ]
    );
    for d in &found {
        assert!(!d.device_path.is_empty());
        assert!(!d.usb_port.is_empty());
    }
}

#[test]
fn enumeration_of_nothing_is_empty() {
    assert_eq!(enumerate(&Vec::new()), Vec::new());
    let odd: Vec<DeviceEntry> =
        vec![DeviceEntry { file_name: "".to_string(), name: None, probe: nothing() }];
    assert_eq!(enumerate(&odd), Vec::new());
}

#[test]
fn the_monitor_lists_the_same_devices() {
    let monitor: Instance<Box<dyn Fn(&KeyInfo) -> bool>> = Instance::new();
    assert_eq!(monitor.get_device_list(&entries()), enumerate(&entries()));
}
