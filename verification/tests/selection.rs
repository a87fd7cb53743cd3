use macroeng::device::DeviceInfo;
use macroeng::monitor::Instance;
use macroeng::reader::{EventReader, InputEvent, KeyInfo, ReadOutcome, DEBOUNCE_MS, EV_KEY};
use macroeng::detect::ProbeStep;
use macroeng::selection::{
    display_saved_devices, select_devices_manually, select_from_input, Selection,
};

fn device(event_num: usize) -> DeviceInfo {
    DeviceInfo {
        event_num,
        device_path: format!("/dev/input/event{}", event_num),
        device_name: format!("Device {}", event_num),
        usb_port: format!("usb1/1-{}", event_num),
    }
}

fn three() -> Vec<DeviceInfo> {
    vec![device(3), device(5), device(8)]
}

#[test]
fn q_gives_up() {
    assert_eq!(select_devices_manually("q\n", &three()), Selection::Quit);
    assert_eq!(select_devices_manually("  Q  ", &three()), Selection::Quit);
}

#[test]
fn all_selects_every_device() {
    assert_eq!(select_devices_manually("all\n", &three()), Selection::Chosen(three()));
    assert_eq!(select_devices_manually("ALL", &three()), Selection::Chosen(three()));
    assert_eq!(select_devices_manually("All", &Vec::new()), Selection::Chosen(Vec::new()));
}

#[test]
fn numbers_select_by_position() {
    assert_eq!(
        select_devices_manually("1,3\n", &three()),
        Selection::Chosen(vec![device(3), device(8)])
    );
    assert_eq!(
        select_devices_manually(" 3 , 1 ,1\n", &three()),
        Selection::Chosen(vec![device(8), device(3), device(3)])
    );
    assert_eq!(select_devices_manually("2", &three()), Selection::Chosen(vec![device(5)]));
    assert_eq!(
        select_devices_manually("0,4,x,,2,+3", &three()),
        Selection::Chosen(vec![device(5), device(8)])
    );
}

#[test]
fn a_line_that_picks_nothing_asks_again() {
    assert_eq!(select_devices_manually("\n", &three()), Selection::Retry);
    assert_eq!(select_devices_manually("0", &three()), Selection::Retry);
    assert_eq!(select_devices_manually("4,5", &three()), Selection::Retry);
    assert_eq!(select_devices_manually("one", &three()), Selection::Retry);
    assert_eq!(select_devices_manually("1;2", &three()), Selection::Retry);
    assert_eq!(select_devices_manually("-1", &three()), Selection::Retry);
    assert_eq!(select_devices_manually("1", &Vec::new()), Selection::Retry);
    assert_eq!(select_devices_manually("quit", &three()), Selection::Retry);
}

#[test]
fn the_lowered_input_decides_the_words() {
    assert_eq!(select_from_input("Q", "q", &three()), Selection::Quit);
    assert_eq!(select_from_input("1", "all", &three()), Selection::Chosen(three()));
    assert_eq!(select_from_input("q", "Q", &three()), Selection::Retry);
    assert_eq!(select_from_input("2", "2", &three()), Selection::Chosen(vec![device(5)]));
}

#[test]
fn saved_devices_are_listed_with_their_numbers() {
    assert_eq!(
        display_saved_devices(&three()),
        vec![
            "[1] /dev/input/event3 - Device 3 (USB Port: usb1/1-3)",
            "[2] /dev/input/event5 - Device 5 (USB Port: usb1/1-5)",
            "[3] /dev/input/event8 - Device 8 (USB Port: usb1/1-8)",
        ]
    );
    assert_eq!(display_saved_devices(&Vec::new()), Vec::<String>::new());
    let many: Vec<DeviceInfo> = (0..12).map(device).collect();
    assert_eq!(
        display_saved_devices(&many)[11],
        "[12] /dev/input/event11 - Device 11 (USB Port: usb1/1-11)"
    );
}

#[test]
fn the_monitor_offers_the_same_operations() {
    let monitor: Instance<Box<dyn Fn(&KeyInfo) -> bool>> = Instance::new();
    assert_eq!(
        monitor.select_devices_manually("2,1", &three()),
        Selection::Chosen(vec![device(5), device(3)])
    );
    assert_eq!(monitor.display_saved_devices(&three()), display_saved_devices(&three()));
}

#[test]
fn a_probe_turn_goes_by_the_state_of_the_detection() {
    let mut monitor: Instance<Box<dyn Fn(&KeyInfo) -> bool>> = Instance::new();
    let mut reader = EventReader::new(DEBOUNCE_MS);
    let press =
        ReadOutcome::Event(InputEvent { tv_sec: 0, tv_usec: 0, type_: EV_KEY, code: 30, value: 1 });
    assert!(monitor.probes_stopped());
    assert_eq!(monitor.detect_input_from_device(&mut reader, &press, 5), ProbeStep::Stop);
    assert_eq!(reader.last_down_ms, None);
    assert_eq!(monitor.begin_detect(), Ok(Vec::new()));
    assert!(!monitor.probes_stopped());
    assert_eq!(
        monitor.detect_input_from_device(&mut reader, &ReadOutcome::Empty, 15),
        ProbeStep::Wait
    );
    assert_eq!(monitor.detect_input_from_device(&mut reader, &press, 30), ProbeStep::Report);
    assert_eq!(
        monitor.detect_input_from_device(&mut reader, &ReadOutcome::Failed, 45),
        ProbeStep::Fail
    );
    monitor.cancel_detect();
    assert!(monitor.probes_stopped());
    assert_eq!(
        monitor.detect_input_from_device(&mut reader, &ReadOutcome::Empty, 60),
        ProbeStep::Stop
    );
    assert_eq!(monitor.detect_input_from_device(&mut reader, &press, 400), ProbeStep::Stop);
    assert_eq!(reader.last_down_ms, Some(30));
}

#[test]
fn probes_stop_once_the_detection_is_over() {
    let mut monitor: Instance<Box<dyn Fn(&KeyInfo) -> bool>> = Instance::new();
    let mut reader = EventReader::new(DEBOUNCE_MS);
    assert_eq!(monitor.begin_detect(), Ok(Vec::new()));
    assert_eq!(
        monitor.detect_input_from_device(&mut reader, &ReadOutcome::Empty, 15),
        ProbeStep::Wait
    );
    monitor.finish_detect();
    assert_eq!(
        monitor.detect_input_from_device(&mut reader, &ReadOutcome::Empty, 30),
        ProbeStep::Stop
    );
    assert_eq!(
        monitor.detect_input_from_device(&mut reader, &ReadOutcome::Failed, 45),
        ProbeStep::Stop
    );
}
