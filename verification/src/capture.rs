//! The capture session: exclusive capture of one device, from the grab to
//! the release.
//!
//! A session is `Idle`, then `Grabbing` while the device is opened, settled,
//! drained and grabbed, then `Active` while its loop reads and publishes,
//! then `Releasing` until the loop has ended, then `Idle` again.

use crate::reader::{
    is_press, key_info, notification_of, EventReader, KeyInfo, KeyInfoModel, ReadOutcome,
};
use vstd::prelude::*;

verus! {

/// Pause between two reads of the capture loop, in milliseconds.
pub const CAPTURE_POLL_MS: u64 = 10;

/// Pause after opening a device and after a stop, in milliseconds.
pub const SETTLE_MS: u64 = 300;

/// Where a session stands.
#[derive(Clone, Copy, Debug, PartialEq, Eq, Structural)]
pub enum SessionPhase {
    Idle,
    Grabbing,
    Active,
    Releasing,
}

/// A session as plain values.
pub struct SessionModel {
    pub phase: SessionPhase,
    /// Set exactly while the capture loop is to go on.
    pub running: bool,
    /// The handles that are exclusively grabbed, in the order of their grabs.
    pub grabbed: Seq<i32>,
}

impl SessionModel {
    /// What holds of every session: the running flag is set exactly in the
    /// active phase, no handle is held twice, and handles are held only
    /// while the session is active or on its way out.
    pub open spec fn wf(self) -> bool {
        &&& self.running <==> self.phase == SessionPhase::Active
        &&& self.grabbed.no_duplicates()
        &&& self.phase == SessionPhase::Idle || self.phase == SessionPhase::Grabbing
            ==> self.grabbed.len() == 0
    }

    /// The session at rest.
    pub open spec fn idle() -> SessionModel {
        SessionModel { phase: SessionPhase::Idle, running: false, grabbed: Seq::empty() }
    }

    /// A session can begin only from rest.
    pub open spec fn after_begin(self) -> SessionModel {
        if self.phase == SessionPhase::Idle {
            SessionModel { phase: SessionPhase::Grabbing, ..self }
        } else {
            self
        }
    }

    /// The grab attempt on `handle` has been made. A session that is still
    /// grabbing becomes active and holds the handle if the grab was
    /// exclusive. A session that was stopped meanwhile stays as it is.
    pub open spec fn after_grab(self, handle: i32, exclusive: bool) -> SessionModel {
        if self.phase == SessionPhase::Grabbing {
            SessionModel {
                phase: SessionPhase::Active,
                running: true,
                grabbed: if exclusive {
                    seq![handle]
                } else {
                    Seq::empty()
                },
            }
        } else {
            self
        }
    }

    /// A failed read ends the active phase; nothing else changes a session
    /// that reads.
    pub open spec fn after_read(self, outcome: ReadOutcome) -> SessionModel {
        if self.phase == SessionPhase::Active && outcome is Failed {
            SessionModel { phase: SessionPhase::Releasing, running: false, ..self }
        } else {
            self
        }
    }

    /// A stop clears the running flag and gives up every handle. A session
    /// at rest stays at rest; any other waits for its loop to end.
    pub open spec fn after_stop(self) -> SessionModel {
        SessionModel {
            phase: if self.phase == SessionPhase::Idle {
                SessionPhase::Idle
            } else {
                SessionPhase::Releasing
            },
            running: false,
            grabbed: Seq::empty(),
        }
    }
}

/// What the capture loop does after one read attempt.
#[derive(Debug, PartialEq, Eq)]
pub enum CaptureStep {
    /// Publish this notification, then pause and read again.
    Publish(KeyInfo),
    /// Pause for `CAPTURE_POLL_MS`, then read again.
    Wait,
    /// Leave the loop.
    Exit,
}

/// One step of the capture loop as plain values.
pub enum CaptureStepModel {
    Publish(KeyInfoModel),
    Wait,
    Exit,
}

impl View for CaptureStep {
    type V = CaptureStepModel;

    open spec fn view(&self) -> CaptureStepModel {
        match self {
            CaptureStep::Publish(info) => CaptureStepModel::Publish(info@),
            CaptureStep::Wait => CaptureStepModel::Wait,
            CaptureStep::Exit => CaptureStepModel::Exit,
        }
    }
}

/// What the capture loop of a session does with `outcome`, read at `now_ms`
/// through `reader`.
///
/// A session that is not active leaves the loop, and so does an active one
/// on a failed read. Otherwise the loop publishes exactly the transition
/// that the reader hands on: a press only where the reader's debounce window
/// accepts it, a repeat or a release always. Where the reader hands nothing
/// on, the loop waits.
pub open spec fn capture_verdict(
    session: SessionModel,
    reader: EventReader,
    outcome: ReadOutcome,
    now_ms: u64,
) -> CaptureStepModel {
    if session.phase != SessionPhase::Active || outcome is Failed {
        CaptureStepModel::Exit
    } else {
        match reader.yields(outcome, now_ms) {
            Some(t) => CaptureStepModel::Publish(notification_of(t)),
            None => CaptureStepModel::Wait,
        }
    }
}

/// The reader of a session after the capture loop has taken `outcome` in at
/// `now_ms`: only an active session reads.
pub open spec fn reader_after_capture(
    session: SessionModel,
    reader: EventReader,
    outcome: ReadOutcome,
    now_ms: u64,
) -> EventReader {
    if session.phase == SessionPhase::Active {
        reader.after_read(outcome, now_ms)
    } else {
        reader
    }
}

/// What the grab step of a session start comes to.
#[derive(Clone, Copy, Debug, PartialEq, Eq, Structural)]
pub enum GrabStep {
    /// The device is grabbed exclusively: run the capture loop.
    Exclusive,
    /// The grab failed: warn, and run the capture loop without it.
    Shared,
    /// The session was stopped meanwhile: release the handle and end.
    Abandon,
}

/// Whether queued input is still being drained before a grab: as long as
/// reads give records.
pub fn keep_draining(outcome: &ReadOutcome) -> (r: bool)
    ensures
        r == (*outcome is Event),
{
    match outcome {
        ReadOutcome::Event(_) => true,
        _ => false,
    }
}

/// The state of the one capture session: its phase, its running flag and
/// the set of grabbed handles.
pub struct CaptureSession {
    phase: SessionPhase,
    running: bool,
    grabbed: Vec<i32>,
}

impl View for CaptureSession {
    type V = SessionModel;

    closed spec fn view(&self) -> SessionModel {
        SessionModel { phase: self.phase, running: self.running, grabbed: self.grabbed@ }
    }
}

impl CaptureSession {
    #[verifier::type_invariant]
    spec fn valid(&self) -> bool {
        self@.wf()
    }

    /// A session at rest.
    pub fn new() -> (s: Self)
        ensures
            s@ == SessionModel::idle(),
    {
        CaptureSession { phase: SessionPhase::Idle, running: false, grabbed: Vec::new() }
    }

    /// The phase of the session.
    pub fn phase(&self) -> (p: SessionPhase)
        ensures
            p == self@.phase,
            self@.wf(),
    {
        proof {
            use_type_invariant(self);
        }
        self.phase
    }

    /// Whether the capture loop is to go on.
    pub fn is_running(&self) -> (r: bool)
        ensures
            r == self@.running,
            self@.wf(),
    {
        proof {
            use_type_invariant(self);
        }
        self.running
    }

    /// How many handles are grabbed.
    pub fn grabbed_count(&self) -> (n: usize)
        ensures
            n == self@.grabbed.len(),
            self@.wf(),
    {
        proof {
            use_type_invariant(self);
        }
        self.grabbed.len()
    }

    /// Begins a session. Returns whether it began: only a session at rest
    /// can begin, so a running one has to be stopped and ended first.
    pub fn begin(&mut self) -> (began: bool)
        ensures
            began == (old(self)@.phase == SessionPhase::Idle),
            final(self)@ == old(self)@.after_begin(),
    {
        proof {
            use_type_invariant(&*self);
        }
        match self.phase {
            SessionPhase::Idle => {
                self.phase = SessionPhase::Grabbing;
                true
            },
            _ => false,
        }
    }

    /// Takes in the result of the grab attempt on `handle`.
    ///
    /// A grab that failed is not fatal: the session goes on without it.
    pub fn record_grab(&mut self, handle: i32, exclusive: bool) -> (step: GrabStep)
        ensures
            final(self)@ == old(self)@.after_grab(handle, exclusive),
            step == if old(self)@.phase != SessionPhase::Grabbing {
                GrabStep::Abandon
            } else if exclusive {
                GrabStep::Exclusive
            } else {
                GrabStep::Shared
            },
    {
        proof {
            use_type_invariant(&*self);
        }
        match self.phase {
            SessionPhase::Grabbing => {
                let mut grabbed: Vec<i32> = Vec::new();
                if exclusive {
                    grabbed.push(handle);
                }
                assert(grabbed@ == if exclusive {
                    seq![handle]
                } else {
                    Seq::<i32>::empty()
                });
                *self = CaptureSession { phase: SessionPhase::Active, running: true, grabbed };
                if exclusive {
                    GrabStep::Exclusive
                } else {
                    GrabStep::Shared
                }
            },
            _ => GrabStep::Abandon,
        }
    }

    /// One turn of the capture loop, with the outcome of a read attempt made
    /// at `now_ms` and the debounce state of the captured device.
    ///
    /// An active session publishes the key transitions that the reader
    /// accepts, waits on anything else, and leaves the loop on a failed
    /// read. A press inside the debounce window is chatter: it is not
    /// published, and the next press is measured against it. A session that
    /// is not active leaves the loop and leaves the reader as it was.
    pub fn on_read(&mut self, reader: &mut EventReader, outcome: &ReadOutcome, now_ms: u64) -> (step:
        CaptureStep)
        ensures
            step@ == capture_verdict(old(self)@, *old(reader), *outcome, now_ms),
            final(self)@ == old(self)@.after_read(*outcome),
            *final(reader) == reader_after_capture(old(self)@, *old(reader), *outcome, now_ms),
    {
        proof {
            use_type_invariant(&*self);
        }
        match self.phase {
            SessionPhase::Active => {},
            _ => {
                return CaptureStep::Exit;
            },
        }
        match outcome {
            ReadOutcome::Failed => {
                let grabbed = self.take_handles();
                *self = CaptureSession { phase: SessionPhase::Releasing, running: false, grabbed };
                CaptureStep::Exit
            },
            _ => match reader.read_event(outcome, now_ms) {
                Some(t) => CaptureStep::Publish(key_info(&t)),
                None => CaptureStep::Wait,
            },
        }
    }

    /// Moves the handles out of an active session, for the state that
    /// replaces it.
    fn take_handles(&self) -> (handles: Vec<i32>)
        ensures
            handles@ == self@.grabbed,
    {
        self.grabbed.clone()
    }

    /// Stops the session.
    ///
    /// Clears the running flag and returns every handle that was grabbed,
    /// for the caller to release; none stays behind. Stopping a stopped
    /// session returns no handle and changes nothing.
    pub fn stop(&mut self) -> (released: Vec<i32>)
        ensures
            released@ == old(self)@.grabbed,
            final(self)@ == old(self)@.after_stop(),
    {
        proof {
            use_type_invariant(&*self);
        }
        let released = self.take_handles();
        let phase = match self.phase {
            SessionPhase::Idle => SessionPhase::Idle,
            _ => SessionPhase::Releasing,
        };
        *self = CaptureSession { phase, running: false, grabbed: Vec::new() };
        released
    }

    /// The capture loop has ended: the session comes to rest.
    ///
    /// Returns the handles that are still grabbed, for the caller to
    /// release: those of a loop that ended on a failed read.
    pub fn finish(&mut self) -> (released: Vec<i32>)
        ensures
            released@ == old(self)@.grabbed,
            final(self)@ == SessionModel::idle(),
    {
        let released = self.take_handles();
        *self = CaptureSession { phase: SessionPhase::Idle, running: false, grabbed: Vec::new() };
        released
    }
}

/// Idempotence of a stop: after one stop a second one finds no handle to
/// release, leaves none grabbed and changes nothing.
pub proof fn lemma_stop_twice(session: SessionModel)
    ensures
        session.after_stop().grabbed.len() == 0,
        session.after_stop().after_stop() == session.after_stop(),
        session.after_stop().after_stop().grabbed.len() == 0,
{
}

/// Debounce in capture: of two presses that an active session reads in a
/// row, of which the first is published, the second is published exactly
/// when it comes at least the reader's window after the first.
pub proof fn lemma_capture_debounce(
    session: SessionModel,
    reader: EventReader,
    first: ReadOutcome,
    first_ms: u64,
    second: ReadOutcome,
    second_ms: u64,
)
    requires
        session.phase == SessionPhase::Active,
        is_press(first),
        is_press(second),
        first_ms <= second_ms,
        capture_verdict(session, reader, first, first_ms) is Publish,
    ensures
        session.after_read(first) == session,
        capture_verdict(
            session.after_read(first),
            reader_after_capture(session, reader, first, first_ms),
            second,
            second_ms,
        ) is Publish <==> second_ms - first_ms >= reader.window_ms,
        reader.last_down_ms is None ==> capture_verdict(session, reader, first, first_ms)
            is Publish,
{
}

/// Every move of a session keeps it well formed, and a session whose
/// running flag is cleared holds handles only while it is releasing.
pub proof fn lemma_session_moves(
    session: SessionModel,
    handle: i32,
    exclusive: bool,
    outcome: ReadOutcome,
)
    requires
        session.wf(),
    ensures
        SessionModel::idle().wf(),
        session.after_begin().wf(),
        session.after_grab(handle, exclusive).wf(),
        session.after_read(outcome).wf(),
        session.after_stop().wf(),
        !session.running && session.phase != SessionPhase::Releasing ==> session.grabbed.len()
            == 0,
{
}

} // verus!
