//! The monitor: one object that owns the capture session, the detection
//! flags and the listeners, and through which the lifecycle is driven.

use crate::capture::{
    capture_verdict, reader_after_capture, CaptureSession, CaptureStep, GrabStep, SessionModel,
    SessionPhase,
};
use crate::detect::{
    coordinator_poll, outcome_model, poll_outcome, probe_step, probe_verdict, DetectOutcome, Poll,
    PollModel, ProbeStep,
};
use crate::device::{
    enumerate, enumerated, entry_models, is_candidate, models, ordered, DeviceEntry, DeviceInfo,
};
use crate::event_handler::EventHandler;
use crate::reader::{EventReader, KeyInfo, ReadOutcome};
use crate::selection::{saved_lines, selection, Selection};
use crate::text::{lowercased, string_texts, trimmed};
use vstd::prelude::*;

verus! {

/// Why the monitor refused an operation.
#[derive(Clone, Copy, Debug, PartialEq, Eq, Structural)]
pub enum MonitorError {
    /// A detection is already going on.
    DetectionInProgress,
    /// A capture session has not come to rest yet.
    SessionBusy,
}

impl MonitorError {
    /// The message of the error.
    pub open spec fn message(self) -> Seq<char> {
        match self {
            MonitorError::DetectionInProgress => "Detection already in progress"@,
            MonitorError::SessionBusy => "Capture session still active"@,
        }
    }

    /// The error as text.
    pub fn to_string(&self) -> (s: String)
        ensures
            s@ == self.message(),
    {
        match self {
            MonitorError::DetectionInProgress => "Detection already in progress".to_owned(),
            MonitorError::SessionBusy => "Capture session still active".to_owned(),
        }
    }
}

/// What the monitor is doing.
#[derive(Debug, PartialEq, Eq)]
pub struct MonitorStatus {
    /// A device is being captured.
    pub capturing: bool,
    /// A detection is going on.
    pub detecting: bool,
    /// Name of the captured device.
    pub current_device: Option<String>,
}

/// The monitor as plain values.
pub struct MonitorModel {
    pub session: SessionModel,
    pub detecting: bool,
    pub cancel_requested: bool,
    pub current_device: Option<Seq<char>>,
}

impl MonitorModel {
    /// Whether a device is being captured: the session is grabbing or
    /// active.
    pub open spec fn capturing(self) -> bool {
        self.session.phase == SessionPhase::Grabbing || self.session.phase == SessionPhase::Active
    }

    /// Whether the probes of a detection are to stop: the race has been
    /// cancelled, or it is over.
    pub open spec fn probes_stopped(self) -> bool {
        self.cancel_requested || !self.detecting
    }

    /// The monitor after its capture has been stopped.
    pub open spec fn after_stop(self) -> MonitorModel {
        MonitorModel { session: self.session.after_stop(), current_device: None, ..self }
    }

    /// The monitor after a detection has begun: a running capture is
    /// stopped first, and an earlier cancellation is forgotten.
    pub open spec fn after_begin_detect(self) -> MonitorModel {
        MonitorModel { detecting: true, cancel_requested: false, ..self.after_stop() }
    }

    /// The monitor after a cancellation: the flag for the coordinator is
    /// set, a running capture is stopped and no detection counts as going
    /// on.
    pub open spec fn after_cancel(self) -> MonitorModel {
        MonitorModel { detecting: false, cancel_requested: true, ..self.after_stop() }
    }
}

/// The monitor: capture session, detection flags and listeners.
pub struct Instance<F: Fn(&KeyInfo) -> bool> {
    /// The listeners for key notifications.
    pub on_key: EventHandler<KeyInfo, F>,
    /// The one capture session.
    pub session: CaptureSession,
    /// A detection is going on.
    pub detecting: bool,
    /// The running detection is to be cancelled.
    pub cancel_requested: bool,
    /// Name of the device that is captured.
    pub current_device: Option<String>,
}

impl<F: Fn(&KeyInfo) -> bool> View for Instance<F> {
    type V = MonitorModel;

    open spec fn view(&self) -> MonitorModel {
        MonitorModel {
            session: self.session@,
            detecting: self.detecting,
            cancel_requested: self.cancel_requested,
            current_device: match self.current_device {
                Some(name) => Some(name@),
                None => None,
            },
        }
    }
}

impl<F: Fn(&KeyInfo) -> bool> Instance<F> {
    /// Every listener accepts every notification.
    pub open spec fn listeners_accept_all(&self) -> bool {
        forall|i: int, info: &KeyInfo|
            0 <= i < self.on_key.listeners().len() ==> #[trigger] call_requires(
                self.on_key.listeners()[i],
                (info,),
            )
    }

    /// A monitor at rest, without listeners.
    pub fn new() -> (r: Self)
        ensures
            r@ == (MonitorModel {
                session: SessionModel::idle(),
                detecting: false,
                cancel_requested: false,
                current_device: None,
            }),
            r.on_key.listeners() == Seq::<F>::empty(),
    {
        Instance {
            on_key: EventHandler::new(),
            session: CaptureSession::new(),
            detecting: false,
            cancel_requested: false,
            current_device: None,
        }
    }

    /// Whether a device is being captured.
    pub fn is_capturing(&self) -> (r: bool)
        ensures
            r == self@.capturing(),
    {
        match self.session.phase() {
            SessionPhase::Grabbing => true,
            SessionPhase::Active => true,
            _ => false,
        }
    }

    /// Reports what the monitor is doing.
    pub fn status(&self) -> (r: MonitorStatus)
        ensures
            r.capturing == self@.capturing(),
            r.detecting == self@.detecting,
            match r.current_device {
                Some(name) => self@.current_device == Some(name@),
                None => self@.current_device is None,
            },
    {
        MonitorStatus {
            capturing: self.is_capturing(),
            detecting: self.detecting,
            current_device: match &self.current_device {
                Some(name) => Some(name.clone()),
                None => None,
            },
        }
    }

    /// Lists the candidate devices among the entries of the input device
    /// directory: the USB devices, by rising ordinal.
    pub fn get_device_list(&self, entries: &Vec<DeviceEntry>) -> (r: Vec<DeviceInfo>)
        ensures
            models(r@) == enumerated(entry_models(entries@)),
            ordered(models(r@)),
            forall|i: int| 0 <= i < r@.len() ==> is_candidate(#[trigger] models(r@)[i]),
    {
        enumerate(entries)
    }

    /// Stops the capture and releases every blocked device.
    ///
    /// Returns the handles whose exclusive grab the caller has to release.
    /// After the call none is grabbed, whatever the session was doing.
    pub fn stop_monitor_now(&mut self) -> (released: Vec<i32>)
        ensures
            released@ == old(self)@.session.grabbed,
            final(self)@ == old(self)@.after_stop(),
            final(self).on_key == old(self).on_key,
    {
        self.current_device = None;
        self.session.stop()
    }

    /// Begins a detection.
    ///
    /// Refused while another detection is going on. Otherwise a running
    /// capture is stopped first, and the handles to release are returned.
    pub fn begin_detect(&mut self) -> (r: Result<Vec<i32>, MonitorError>)
        ensures
            final(self).on_key == old(self).on_key,
            match r {
                Ok(released) => !old(self)@.detecting && released@ == old(self)@.session.grabbed
                    && final(self)@ == old(self)@.after_begin_detect(),
                Err(e) => old(self)@.detecting && e == MonitorError::DetectionInProgress
                    && final(self)@ == old(self)@,
            },
    {
        if self.detecting {
            return Err(MonitorError::DetectionInProgress);
        }
        let released = self.stop_monitor_now();
        self.cancel_requested = false;
        self.detecting = true;
        Ok(released)
    }

    /// One poll of a running auto-detection, with the report taken from
    /// the channel and the time since the detection began.
    ///
    /// Returns how the detection ends at this poll, if it does. A
    /// cancellation that was asked for ends it before anything else.
    pub fn auto_detect_input_device(
        &self,
        report: Option<DeviceInfo>,
        elapsed_ms: u64,
        timeout_ms: u64,
    ) -> (r: Option<DetectOutcome>)
        ensures
            outcome_model(r) == poll_outcome(
                PollModel {
                    cancelled: self@.cancel_requested,
                    report: match report {
                        Some(d) => Some(d@),
                        None => None,
                    },
                    elapsed_ms,
                },
                timeout_ms,
            ),
    {
        let poll = Poll { cancelled: self.cancel_requested, report, elapsed_ms };
        coordinator_poll(&poll, timeout_ms)
    }

    /// Whether the probes of a detection are to stop.
    pub fn probes_stopped(&self) -> (r: bool)
        ensures
            r == self@.probes_stopped(),
    {
        self.cancel_requested || !self.detecting
    }

    /// One turn of the probe of one candidate device, with the outcome of
    /// a read attempt made at `now_ms`.
    ///
    /// Once the detection is cancelled or over, the probe stops, whatever
    /// it has read. Until then it reports on the first press that the
    /// reader's debounce window accepts, fails on a failed read, and waits
    /// otherwise.
    pub fn detect_input_from_device(
        &self,
        reader: &mut EventReader,
        outcome: &ReadOutcome,
        now_ms: u64,
    ) -> (step: ProbeStep)
        ensures
            step == probe_verdict(*old(reader), self@.probes_stopped(), *outcome, now_ms),
            *final(reader) == if self@.probes_stopped() {
                *old(reader)
            } else {
                old(reader).after_read(*outcome, now_ms)
            },
    {
        let stopped = self.probes_stopped();
        probe_step(reader, stopped, outcome, now_ms)
    }

    /// Decides what one line of input selects from `device_list`: `q`
    /// gives up, `all` selects every device, and numbers with commas
    /// between them select the devices at those positions.
    pub fn select_devices_manually(&self, line: &str, device_list: &Vec<DeviceInfo>) -> (r:
        Selection)
        ensures
            r@ == selection(trimmed(line@), lowercased(trimmed(line@)), models(device_list@)),
    {
        crate::selection::select_devices_manually(line, device_list)
    }

    /// Renders the saved devices, one line each, numbered from 1.
    pub fn display_saved_devices(&self, devices: &Vec<DeviceInfo>) -> (lines: Vec<String>)
        ensures
            string_texts(lines@) == saved_lines(models(devices@), devices@.len()),
    {
        crate::selection::display_saved_devices(devices)
    }

    /// Ends a detection, however it went. From then on its probes stop
    /// at their next turn.
    pub fn finish_detect(&mut self)
        ensures
            final(self)@ == (MonitorModel { detecting: false, ..old(self)@ }),
            final(self).on_key == old(self).on_key,
    {
        self.detecting = false;
    }

    /// Cancels a running detection and stops a running capture.
    ///
    /// Returns the handles whose exclusive grab the caller has to release.
    pub fn cancel_detect(&mut self) -> (released: Vec<i32>)
        ensures
            released@ == old(self)@.session.grabbed,
            final(self)@ == old(self)@.after_cancel(),
            final(self).on_key == old(self).on_key,
    {
        self.cancel_requested = true;
        self.detecting = false;
        self.stop_monitor_now()
    }

    /// Begins the capture of `device`.
    ///
    /// Refused while an earlier session has not come to rest: that one has
    /// to be stopped and ended first.
    pub fn start_capture(&mut self, device: &DeviceInfo) -> (r: Result<(), MonitorError>)
        ensures
            final(self).on_key == old(self).on_key,
            match r {
                Ok(_) => old(self)@.session.phase == SessionPhase::Idle && final(self)@ == (
                MonitorModel {
                    session: old(self)@.session.after_begin(),
                    current_device: Some(device@.device_name),
                    ..old(self)@
                }),
                Err(e) => old(self)@.session.phase != SessionPhase::Idle && e
                    == MonitorError::SessionBusy && final(self)@ == old(self)@,
            },
    {
        if self.session.begin() {
            self.current_device = Some(device.device_name.clone());
            Ok(())
        } else {
            Err(MonitorError::SessionBusy)
        }
    }

    /// Takes in the result of the grab attempt on `handle`.
    pub fn record_grab(&mut self, handle: i32, exclusive: bool) -> (step: GrabStep)
        ensures
            final(self).on_key == old(self).on_key,
            final(self)@ == (MonitorModel {
                session: old(self)@.session.after_grab(handle, exclusive),
                ..old(self)@
            }),
            step == if old(self)@.session.phase != SessionPhase::Grabbing {
                GrabStep::Abandon
            } else if exclusive {
                GrabStep::Exclusive
            } else {
                GrabStep::Shared
            },
    {
        self.session.record_grab(handle, exclusive)
    }

    /// One turn of the capture loop of a blocked device, with the outcome
    /// of a read attempt made at `now_ms` and the debounce state of the
    /// device.
    ///
    /// A key transition that the reader accepts is handed to every
    /// listener, in the order of their registration, and returned. A press
    /// inside the debounce window is handed to nobody. Anything else is as
    /// the session decides it: wait, or leave the loop.
    pub fn block_input_device(
        &mut self,
        reader: &mut EventReader,
        outcome: &ReadOutcome,
        now_ms: u64,
    ) -> (step: CaptureStep)
        requires
            old(self).listeners_accept_all(),
        ensures
            final(self).on_key == old(self).on_key,
            step@ == capture_verdict(old(self)@.session, *old(reader), *outcome, now_ms),
            final(self)@ == (MonitorModel {
                session: old(self)@.session.after_read(*outcome),
                ..old(self)@
            }),
            *final(reader) == reader_after_capture(
                old(self)@.session,
                *old(reader),
                *outcome,
                now_ms,
            ),
            match step {
                CaptureStep::Publish(info) => forall|i: int|
                    0 <= i < final(self).on_key.listeners().len() ==> EventHandler::<
                        KeyInfo,
                        F,
                    >::heard(#[trigger] final(self).on_key.listeners()[i], &info),
                _ => true,
            },
    {
        let step = self.session.on_read(reader, outcome, now_ms);
        match &step {
            CaptureStep::Publish(info) => {
                self.on_key.trigger(info);
            },
            _ => {},
        }
        step
    }

    /// The capture loop has ended: the session comes to rest.
    ///
    /// Returns the handles that are still grabbed, for the caller to
    /// release.
    pub fn end_capture(&mut self) -> (released: Vec<i32>)
        ensures
            final(self).on_key == old(self).on_key,
            released@ == old(self)@.session.grabbed,
            final(self)@ == (MonitorModel {
                session: SessionModel::idle(),
                current_device: None,
                ..old(self)@
            }),
    {
        self.current_device = None;
        self.session.finish()
    }
}

} // verus!
