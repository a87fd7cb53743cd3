use macroeng::detect::{
    coordinator_poll, detection_candidates, lowered_name_is_keyboard, narrow_candidates,
    probe_begin, probe_step, run_race, DetectOutcome, Poll, ProbeStep, COORDINATOR_POLL_MS,
    DETECT_TIMEOUT_MS, PROBE_POLL_MS,
};
use macroeng::device::DeviceInfo;
use macroeng::reader::{EventReader, InputEvent, ReadOutcome, DEBOUNCE_MS, EV_KEY};

fn device(event_num: usize, name: &str) -> DeviceInfo {
    DeviceInfo {
        event_num,
        device_path: format!("/dev/input/event{}", event_num),
        device_name: name.to_string(),
        usb_port: "usb-0000:00:14.0-2/input0".to_string(),
    }
}

fn key(value: i32) -> ReadOutcome {
    ReadOutcome::Event(InputEvent { tv_sec: 0, tv_usec: 0, type_: EV_KEY, code: 30, value })
}

fn quiet(elapsed_ms: u64) -> Poll {
    Poll { cancelled: false, report: None, elapsed_ms }
}

#[test]
fn keyboards_are_preferred() {
    let all: Vec<DeviceInfo> =
        vec![device(3, "Logitech Mouse"), device(5, "Dell KEYBOARD"), device(7, "usb Keyboard 2")];
    let picked: Vec<DeviceInfo> = detection_candidates(&all);
    assert_eq!(picked, vec![device(5, "Dell KEYBOARD"), device(7, "usb Keyboard 2")]);
}

#[test]
fn without_a_keyboard_every_device_is_probed() {
    let all: Vec<DeviceInfo> = vec![device(3, "Logitech Mouse"), device(5, "Foot pedal")];
    assert_eq!(detection_candidates(&all), all);
    let none: Vec<DeviceInfo> = Vec::new();
    assert_eq!(detection_candidates(&none), none);
}

#[test]
fn narrowing_goes_by_the_flags() {
    let all: Vec<DeviceInfo> = vec![device(1, "a"), device(2, "b"), device(3, "c")];
    assert_eq!(
        narrow_candidates(&all, &vec![true, false, true]),
        vec![device(1, "a"), device(3, "c")]
    );
    assert_eq!(narrow_candidates(&all, &vec![false, false, false]), all);
    assert_eq!(narrow_candidates(&all, &vec![false, true]), vec![device(2, "b")]);
    assert_eq!(narrow_candidates(&all, &vec![]), all);
    assert_eq!(narrow_candidates(&all, &vec![false, false, false, true]), all);
}

#[test]
fn lowered_names_are_tested_for_the_word() {
    assert!(lowered_name_is_keyboard("dell wired keyboard"));
    assert!(lowered_name_is_keyboard("keyboard"));
    assert!(!lowered_name_is_keyboard("Keyboard"));
    assert!(!lowered_name_is_keyboard("keyboar"));
    assert!(!lowered_name_is_keyboard(""));
}

#[test]
fn a_probe_starts_by_what_its_setup_gave() {
    assert_eq!(probe_begin(false, false), ProbeStep::Stop);
    assert_eq!(probe_begin(false, true), ProbeStep::Stop);
    assert_eq!(probe_begin(true, false), ProbeStep::Fail);
    assert_eq!(probe_begin(true, true), ProbeStep::Wait);
}

#[test]
fn a_probe_reports_the_first_press() {
    let mut reader = EventReader::new(DEBOUNCE_MS);
    assert_eq!(probe_step(&mut reader, false, &ReadOutcome::Empty, 15), ProbeStep::Wait);
    assert_eq!(probe_step(&mut reader, false, &key(0), 30), ProbeStep::Wait);
    assert_eq!(probe_step(&mut reader, false, &key(2), 45), ProbeStep::Wait);
    assert_eq!(reader.last_down_ms, None);
    assert_eq!(probe_step(&mut reader, false, &key(1), 50), ProbeStep::Report);
    assert_eq!(reader.last_down_ms, Some(50));
}

#[test]
fn a_probe_ignores_chatter() {
    let mut reader = EventReader { window_ms: DEBOUNCE_MS, last_down_ms: Some(1000) };
    assert_eq!(probe_step(&mut reader, false, &key(1), 1100), ProbeStep::Wait);
    assert_eq!(probe_step(&mut reader, false, &key(1), 1250), ProbeStep::Wait);
    assert_eq!(probe_step(&mut reader, false, &key(1), 1450), ProbeStep::Report);
}

#[test]
fn a_probe_stops_when_told_and_fails_on_a_failed_read() {
    let mut reader = EventReader::new(DEBOUNCE_MS);
    assert_eq!(probe_step(&mut reader, true, &key(1), 500), ProbeStep::Stop);
    assert_eq!(reader.last_down_ms, None);
    assert_eq!(probe_step(&mut reader, true, &ReadOutcome::Failed, 500), ProbeStep::Stop);
    assert_eq!(probe_step(&mut reader, false, &ReadOutcome::Failed, 500), ProbeStep::Fail);
}

#[test]
fn cancellation_comes_before_a_report_and_a_report_before_the_timeout() {
    let d: DeviceInfo = device(4, "kbd");
    let all = Poll { cancelled: true, report: Some(d.clone()), elapsed_ms: 40_000 };
    assert_eq!(coordinator_poll(&all, DETECT_TIMEOUT_MS), Some(DetectOutcome::Cancelled));
    let late = Poll { cancelled: false, report: Some(d.clone()), elapsed_ms: 40_000 };
    assert_eq!(coordinator_poll(&late, DETECT_TIMEOUT_MS), Some(DetectOutcome::Found(d)));
    assert_eq!(coordinator_poll(&quiet(40_000), DETECT_TIMEOUT_MS), Some(DetectOutcome::TimedOut));
    assert_eq!(coordinator_poll(&quiet(100), DETECT_TIMEOUT_MS), None);
}

#[test]
fn the_timeout_is_strict() {
    assert_eq!(DETECT_TIMEOUT_MS, 30_000);
    assert_eq!(coordinator_poll(&quiet(30_000), DETECT_TIMEOUT_MS), None);
    assert_eq!(coordinator_poll(&quiet(30_001), DETECT_TIMEOUT_MS), Some(DetectOutcome::TimedOut));
}

#[test]
fn the_first_report_wins() {
    let a: DeviceInfo = device(1, "A");
    let b: DeviceInfo = device(2, "B");
    let polls: Vec<Poll> = vec![
        quiet(0),
        quiet(50),
        Poll { cancelled: false, report: Some(b.clone()), elapsed_ms: 100 },
        Poll { cancelled: false, report: Some(a), elapsed_ms: 150 },
        Poll { cancelled: true, report: None, elapsed_ms: 200 },
    ];
    assert_eq!(run_race(&polls, DETECT_TIMEOUT_MS), Some((2, DetectOutcome::Found(b))));
}

#[test]
fn a_silent_race_times_out_within_a_second_of_the_limit() {
    let mut polls: Vec<Poll> = Vec::new();
    let mut t: u64 = 0;
    while t <= 31_000 {
        polls.push(quiet(t));
        t += COORDINATOR_POLL_MS + 1;
    }
    match run_race(&polls, DETECT_TIMEOUT_MS) {
        Some((at, DetectOutcome::TimedOut)) => {
            assert!(polls[at].elapsed_ms >= 30_000);
            assert!(polls[at].elapsed_ms < 31_000);
            assert!(polls[at - 1].elapsed_ms <= 30_000);
        }
        other => panic!("unexpected end of the race: {:?}", other),
    }
}

#[test]
fn a_race_without_polls_is_still_on() {
    assert_eq!(run_race(&Vec::new(), DETECT_TIMEOUT_MS), None);
    assert_eq!(run_race(&vec![quiet(0), quiet(50), quiet(100)], DETECT_TIMEOUT_MS), None);
}

#[test]
fn a_cancellation_ends_the_race_at_the_poll_that_sees_it() {
    let polls: Vec<Poll> = vec![
        quiet(0),
        quiet(50),
        Poll { cancelled: true, report: None, elapsed_ms: 100 },
        Poll { cancelled: false, report: Some(device(1, "A")), elapsed_ms: 150 },
    ];
    assert_eq!(run_race(&polls, DETECT_TIMEOUT_MS), Some((2, DetectOutcome::Cancelled)));
    assert_eq!(polls[2].elapsed_ms - polls[1].elapsed_ms, COORDINATOR_POLL_MS);
}

#[test]
fn the_device_that_is_pressed_is_found() {
    let a: DeviceInfo = device(1, "Keyboard A");
    let b: DeviceInfo = device(2, "Keyboard B");
    let candidates: Vec<DeviceInfo> = detection_candidates(&vec![a.clone(), b.clone()]);
    assert_eq!(candidates.len(), 2);
    let mut readers: Vec<EventReader> =
        candidates.iter().map(|_| EventReader::new(DEBOUNCE_MS)).collect();
    let mut live: Vec<bool> = vec![true, true];
    let mut failed: Vec<bool> = vec![false, false];
    let mut channel: Vec<DeviceInfo> = Vec::new();
    let mut polls: Vec<Poll> = Vec::new();
    let mut now: u64 = 0;
    while now <= 200 {
        if now % PROBE_POLL_MS == 0 || now == 50 {
            for i in 0..candidates.len() {
                if !live[i] {
                    continue;
                }
                let outcome: ReadOutcome =
                    if i == 1 && now == 50 { key(1) } else { ReadOutcome::Empty };
                match probe_step(&mut readers[i], false, &outcome, now) {
                    ProbeStep::Report => {
                        channel.push(candidates[i].clone());
                        live[i] = false;
                    }
                    ProbeStep::Wait => {}
                    ProbeStep::Stop => live[i] = false,
                    ProbeStep::Fail => {
                        live[i] = false;
                        failed[i] = true;
                    }
                }
            }
        }
        if now % COORDINATOR_POLL_MS == 0 {
            let report: Option<DeviceInfo> =
                if channel.is_empty() { None } else { Some(channel.remove(0)) };
            polls.push(Poll { cancelled: false, report, elapsed_ms: now });
        }
        now += 1;
    }
    let end = run_race(&polls, DETECT_TIMEOUT_MS);
    assert_eq!(end, Some((1, DetectOutcome::Found(b))));
    assert!(live[0]);
    assert_eq!(probe_step(&mut readers[0], true, &ReadOutcome::Empty, 210), ProbeStep::Stop);
    assert!(!failed[0]);
    assert!(channel.is_empty());
}
