//! Auto-detection: which of several candidate devices is the user pressing
//! a key on?
//!
//! One probe per candidate polls its device and reports on the first press
//! that counts. A coordinator polls for cancellation, for a report and for
//! the timeout, in that order, and the first poll that sees one of them ends
//! the race.

use crate::device::{clone_devices, flagged, keep_flagged, models, DeviceInfo, DeviceModel};
use crate::reader::{is_press, EventReader, ReadOutcome, TransitionKind};
use crate::text::{chars_of, contains_chars, has_substring, lowercased, to_lowercase};
use vstd::prelude::*;

verus! {

/// Time after which a race without a report ends, in milliseconds.
pub const DETECT_TIMEOUT_MS: u64 = 30000;

/// Pause between two polls of the coordinator, in milliseconds.
pub const COORDINATOR_POLL_MS: u64 = 50;

/// Pause between two reads of a probe, in milliseconds.
pub const PROBE_POLL_MS: u64 = 15;

/// Whether a lowercase device name names a keyboard.
pub open spec fn names_keyboard(lowered_name: Seq<char>) -> bool {
    has_substring(lowered_name, "keyboard"@)
}

/// Whether a device name names a keyboard, in any mix of upper and lower
/// case.
pub open spec fn is_keyboard_name(name: Seq<char>) -> bool {
    names_keyboard(lowercased(name))
}

/// The candidate set: the flagged devices where there is one, and all
/// devices where there is none.
pub open spec fn narrowed(devices: Seq<DeviceModel>, flags: Seq<bool>) -> Seq<DeviceModel> {
    let kept = flagged(devices, flags, devices.len());
    if kept.len() == 0 {
        devices
    } else {
        kept
    }
}

/// For each device, whether its name names a keyboard.
pub open spec fn keyboard_flags(devices: Seq<DeviceModel>) -> Seq<bool> {
    Seq::new(devices.len(), |i: int| is_keyboard_name(devices[i].device_name))
}

/// The devices to probe: those named as keyboards where there are any, else
/// all of them.
pub open spec fn candidates(devices: Seq<DeviceModel>) -> Seq<DeviceModel> {
    narrowed(devices, keyboard_flags(devices))
}

/// Tests a device name that has already been put in lowercase.
pub fn lowered_name_is_keyboard(lowered_name: &str) -> (r: bool)
    ensures
        r == names_keyboard(lowered_name@),
{
    let hay = chars_of(lowered_name);
    let needle = chars_of("keyboard");
    contains_chars(&hay, &needle)
}

/// Narrows `devices` to those whose flag in `flags` is set; where no flag is
/// set, all devices stay.
pub fn narrow_candidates(devices: &Vec<DeviceInfo>, flags: &Vec<bool>) -> (r: Vec<DeviceInfo>)
    ensures
        models(r@) == narrowed(models(devices@), flags@),
{
    let kept = keep_flagged(devices, flags);
    assert(models(kept@).len() == kept@.len());
    if kept.len() == 0 {
        clone_devices(devices)
    } else {
        kept
    }
}

/// Chooses the devices to probe.
///
/// Where any device's name contains "keyboard", in any mix of case, only
/// such devices are probed; otherwise all are.
pub fn detection_candidates(devices: &Vec<DeviceInfo>) -> (r: Vec<DeviceInfo>)
    ensures
        models(r@) == candidates(models(devices@)),
{
    let mut flags: Vec<bool> = Vec::new();
    let mut i: usize = 0;
    while i < devices.len()
        invariant
            i <= devices@.len(),
            flags@ == keyboard_flags(models(devices@)).take(i as int),
        decreases devices@.len() - i,
    {
        let lowered = to_lowercase(devices[i].device_name.as_str());
        let flag = lowered_name_is_keyboard(lowered.as_str());
        flags.push(flag);
        assert(flags@ =~= keyboard_flags(models(devices@)).take(i + 1));
        i = i + 1;
    }
    assert(flags@ =~= keyboard_flags(models(devices@)));
    narrow_candidates(devices, &flags)
}

/// What a probe does next.
#[derive(Clone, Copy, Debug, PartialEq, Eq, Structural)]
pub enum ProbeStep {
    /// Pause for `PROBE_POLL_MS`, then read again.
    Wait,
    /// Send the probe's own descriptor to the coordinator, then end.
    Report,
    /// End without a report and without an error.
    Stop,
    /// End with the error that the read or the setup gave.
    Fail,
}

/// How a probe starts, from whether its device could be opened and whether
/// the handle could be switched to non-blocking reads.
pub open spec fn probe_start(opened: bool, nonblocking: bool) -> ProbeStep {
    if !opened {
        ProbeStep::Stop
    } else if !nonblocking {
        ProbeStep::Fail
    } else {
        ProbeStep::Wait
    }
}

/// Decides how a probe starts.
///
/// A device that cannot be opened gives no signal and no error. A handle
/// that cannot be switched to non-blocking reads is a fatal setup error.
pub fn probe_begin(opened: bool, nonblocking: bool) -> (step: ProbeStep)
    ensures
        step == probe_start(opened, nonblocking),
{
    if !opened {
        ProbeStep::Stop
    } else if !nonblocking {
        ProbeStep::Fail
    } else {
        ProbeStep::Wait
    }
}

/// What a probe does after one read attempt at `now_ms`, with the stop
/// signal as it stood before the read.
pub open spec fn probe_verdict(
    reader: EventReader,
    cancelled: bool,
    outcome: ReadOutcome,
    now_ms: u64,
) -> ProbeStep {
    if cancelled {
        ProbeStep::Stop
    } else if outcome is Failed {
        ProbeStep::Fail
    } else if is_press(outcome) && reader.accepts(now_ms) {
        ProbeStep::Report
    } else {
        ProbeStep::Wait
    }
}

/// One turn of a probe.
///
/// A probe that was told to stop ends and its reader stays as it was.
/// Otherwise the read attempt is taken in: a failed read ends the probe
/// with that error, a press that the debounce window accepts makes it
/// report, and anything else makes it wait and read again.
pub fn probe_step(
    reader: &mut EventReader,
    cancelled: bool,
    outcome: &ReadOutcome,
    now_ms: u64,
) -> (step: ProbeStep)
    ensures
        step == probe_verdict(*old(reader), cancelled, *outcome, now_ms),
        *final(reader) == if cancelled {
            *old(reader)
        } else {
            old(reader).after_read(*outcome, now_ms)
        },
{
    if cancelled {
        return ProbeStep::Stop;
    }
    match reader.read_event(outcome, now_ms) {
        Some(t) => match t.kind {
            TransitionKind::Down => ProbeStep::Report,
            _ => ProbeStep::Wait,
        },
        None => match outcome {
            ReadOutcome::Failed => ProbeStep::Fail,
            _ => ProbeStep::Wait,
        },
    }
}

/// One read attempt of a probe: what it gave and when it was made.
pub struct ReadAt {
    pub outcome: ReadOutcome,
    pub now_ms: u64,
}

/// How a probe that is not told to stop ends over the read attempts
/// `reads`, taken from position `from` on: the position of the first read
/// after which it does not wait, with what it does then. `None` when it
/// waits after every read.
pub open spec fn probe_end(reader: EventReader, reads: Seq<ReadAt>, from: int) -> Option<
    (int, ProbeStep),
>
    decreases reads.len() - from,
{
    if from < 0 || from >= reads.len() {
        None
    } else {
        let step = probe_verdict(reader, false, reads[from].outcome, reads[from].now_ms);
        if step != ProbeStep::Wait {
            Some((from, step))
        } else {
            probe_end(
                reader.after_read(reads[from].outcome, reads[from].now_ms),
                reads,
                from + 1,
            )
        }
    }
}

/// A probe whose device gives no press never reports.
pub proof fn lemma_silent_probe_never_reports(reader: EventReader, reads: Seq<ReadAt>, from: int)
    requires
        0 <= from <= reads.len(),
        forall|k: int| from <= k < reads.len() ==> !is_press((#[trigger] reads[k]).outcome),
    ensures
        !(probe_end(reader, reads, from) matches Some((_, step)) && step == ProbeStep::Report),
    decreases reads.len() - from,
{
    if from < reads.len() {
        lemma_silent_probe_never_reports(
            reader.after_read(reads[from].outcome, reads[from].now_ms),
            reads,
            from + 1,
        );
    }
}

/// A probe with a reader that has seen no press yet reports at the first
/// press of its device, where no read before it failed.
pub proof fn lemma_probe_reports_first_press(
    reader: EventReader,
    reads: Seq<ReadAt>,
    from: int,
    at: int,
)
    requires
        0 <= from <= at < reads.len(),
        reader.last_down_ms is None,
        forall|k: int|
            from <= k < at ==> !is_press((#[trigger] reads[k]).outcome) && !(reads[k].outcome
                is Failed),
        is_press(reads[at].outcome),
    ensures
        probe_end(reader, reads, from) == Some((at, ProbeStep::Report)),
    decreases at - from,
{
    if from < at {
        lemma_probe_reports_first_press(
            reader.after_read(reads[from].outcome, reads[from].now_ms),
            reads,
            from + 1,
            at,
        );
    }
}

/// How a race ended.
#[derive(Debug, PartialEq, Eq)]
pub enum DetectOutcome {
    /// This device reported first.
    Found(DeviceInfo),
    /// The race was cancelled from outside.
    Cancelled,
    /// No device reported within the time allowed.
    TimedOut,
}

/// The end of a race as plain values.
pub enum OutcomeModel {
    Found(DeviceModel),
    Cancelled,
    TimedOut,
}

impl View for DetectOutcome {
    type V = OutcomeModel;

    open spec fn view(&self) -> OutcomeModel {
        match self {
            DetectOutcome::Found(d) => OutcomeModel::Found(d@),
            DetectOutcome::Cancelled => OutcomeModel::Cancelled,
            DetectOutcome::TimedOut => OutcomeModel::TimedOut,
        }
    }
}

/// What the coordinator sees at one poll.
#[derive(Debug, PartialEq, Eq)]
pub struct Poll {
    /// Whether the cancellation flag is set.
    pub cancelled: bool,
    /// The report taken from the channel, if one was waiting.
    pub report: Option<DeviceInfo>,
    /// Milliseconds since the race began.
    pub elapsed_ms: u64,
}

/// One poll as plain values.
pub struct PollModel {
    pub cancelled: bool,
    pub report: Option<DeviceModel>,
    pub elapsed_ms: u64,
}

impl View for Poll {
    type V = PollModel;

    open spec fn view(&self) -> PollModel {
        PollModel {
            cancelled: self.cancelled,
            report: match self.report {
                Some(d) => Some(d@),
                None => None,
            },
            elapsed_ms: self.elapsed_ms,
        }
    }
}

/// The polls `polls` as plain values, in order.
pub open spec fn poll_models(polls: Seq<Poll>) -> Seq<PollModel> {
    polls.map_values(|p: Poll| p@)
}

/// How one poll ends the race, if it does: cancellation comes before a
/// report, and a report before the timeout.
pub open spec fn poll_outcome(poll: PollModel, timeout_ms: u64) -> Option<OutcomeModel> {
    if poll.cancelled {
        Some(OutcomeModel::Cancelled)
    } else if poll.report is Some {
        Some(OutcomeModel::Found(poll.report->0))
    } else if poll.elapsed_ms > timeout_ms {
        Some(OutcomeModel::TimedOut)
    } else {
        None
    }
}

/// The first of the first `n` polls that ends the race, with how it ends
/// it; `None` while the race is still on after them.
pub open spec fn race_end(polls: Seq<PollModel>, timeout_ms: u64, n: nat) -> Option<
    (int, OutcomeModel),
>
    decreases n,
{
    if n == 0 || n > polls.len() {
        None
    } else {
        match race_end(polls, timeout_ms, (n - 1) as nat) {
            Some(end) => Some(end),
            None => match poll_outcome(polls[n - 1], timeout_ms) {
                Some(outcome) => Some((n - 1, outcome)),
                None => None,
            },
        }
    }
}

/// The model of an optional outcome.
pub open spec fn outcome_model(outcome: Option<DetectOutcome>) -> Option<OutcomeModel> {
    match outcome {
        Some(o) => Some(o@),
        None => None,
    }
}

/// One poll of the coordinator.
///
/// Returns how the race ends at this poll, or `None` when the coordinator is
/// to pause for `COORDINATOR_POLL_MS` and poll again. A set cancellation
/// flag ends the race as cancelled whatever else the poll holds; else a
/// report ends it with the reporting device; else the race times out once
/// more than `timeout_ms` have passed.
pub fn coordinator_poll(poll: &Poll, timeout_ms: u64) -> (r: Option<DetectOutcome>)
    ensures
        outcome_model(r) == poll_outcome(poll@, timeout_ms),
{
    if poll.cancelled {
        return Some(DetectOutcome::Cancelled);
    }
    match &poll.report {
        Some(device) => Some(DetectOutcome::Found(device.clone())),
        None => {
            if poll.elapsed_ms > timeout_ms {
                Some(DetectOutcome::TimedOut)
            } else {
                None
            }
        },
    }
}

/// The end of a race as a position among the polls and an outcome.
pub open spec fn end_model(end: Option<(usize, DetectOutcome)>) -> Option<(int, OutcomeModel)> {
    match end {
        Some((at, o)) => Some((at as int, o@)),
        None => None,
    }
}

/// Runs the coordinator over a recorded series of polls.
///
/// Returns the position of the first poll that ends the race together with
/// the outcome, or `None` when none of the polls ends it. Polls after the
/// one that ends the race are not looked at: a report among them is stale
/// and is dropped.
pub fn run_race(polls: &Vec<Poll>, timeout_ms: u64) -> (end: Option<(usize, DetectOutcome)>)
    ensures
        end_model(end) == race_end(poll_models(polls@), timeout_ms, polls@.len()),
{
    let ghost all = poll_models(polls@);
    let n: usize = polls.len();
    let mut i: usize = 0;
    while i < n
        invariant
            i <= n,
            n == polls@.len(),
            all == poll_models(polls@),
            race_end(all, timeout_ms, i as nat) is None,
        decreases n - i,
    {
        match coordinator_poll(&polls[i], timeout_ms) {
            Some(outcome) => {
                proof {
                    lemma_race_end_stays(all, timeout_ms, (i + 1) as nat, n as nat);
                }
                return Some((i, outcome));
            },
            None => {},
        }
        i = i + 1;
    }
    None
}

/// Once a race has ended, later polls change nothing.
pub proof fn lemma_race_end_stays(polls: Seq<PollModel>, timeout_ms: u64, n: nat, m: nat)
    requires
        n <= m <= polls.len(),
        race_end(polls, timeout_ms, n) is Some,
    ensures
        race_end(polls, timeout_ms, m) == race_end(polls, timeout_ms, n),
    decreases m,
{
    if n < m {
        lemma_race_end_stays(polls, timeout_ms, n, (m - 1) as nat);
    }
}

/// A race ends at the first poll that ends it, with that poll's outcome.
pub proof fn lemma_race_ends_at(polls: Seq<PollModel>, timeout_ms: u64, at: int)
    requires
        0 <= at < polls.len(),
        forall|j: int| 0 <= j < at ==> poll_outcome(#[trigger] polls[j], timeout_ms) is None,
        poll_outcome(polls[at], timeout_ms) is Some,
    ensures
        race_end(polls, timeout_ms, polls.len()) == Some(
            (at, poll_outcome(polls[at], timeout_ms)->0),
        ),
{
    lemma_race_still_on(polls, timeout_ms, at as nat);
    assert(race_end(polls, timeout_ms, (at + 1) as nat) == Some(
        (at, poll_outcome(polls[at], timeout_ms)->0),
    ));
    lemma_race_end_stays(polls, timeout_ms, (at + 1) as nat, polls.len());
}

/// While no poll has ended the race, the race is on.
pub proof fn lemma_race_still_on(polls: Seq<PollModel>, timeout_ms: u64, n: nat)
    requires
        n <= polls.len(),
        forall|j: int| 0 <= j < n ==> poll_outcome(#[trigger] polls[j], timeout_ms) is None,
    ensures
        race_end(polls, timeout_ms, n) is None,
    decreases n,
{
    if n > 0 {
        lemma_race_still_on(polls, timeout_ms, (n - 1) as nat);
    }
}

/// At most one winner: the first device whose report a poll carries wins
/// the race, whatever the polls after it hold.
///
/// The polls before `at` carry neither a cancellation nor a report and lie
/// within the timeout; the poll at `at` carries the report of `winner` and
/// no cancellation.
pub proof fn lemma_first_report_wins(
    polls: Seq<PollModel>,
    timeout_ms: u64,
    at: int,
    winner: DeviceModel,
)
    requires
        0 <= at < polls.len(),
        forall|j: int|
            0 <= j < at ==> !(#[trigger] polls[j]).cancelled && polls[j].report is None
                && polls[j].elapsed_ms <= timeout_ms,
        !polls[at].cancelled,
        polls[at].report == Some(winner),
    ensures
        race_end(polls, timeout_ms, polls.len()) == Some((at, OutcomeModel::Found(winner))),
{
    lemma_race_ends_at(polls, timeout_ms, at);
}

/// Timeout: a race in which nobody cancels and no device reports ends as
/// timed out, at the first poll that comes after the timeout.
///
/// Where the first poll lies within the timeout and each poll comes at most
/// `gap_ms` after the one before it, that poll comes more than `timeout_ms`
/// and at most `timeout_ms + gap_ms` after the start.
pub proof fn lemma_silent_race_times_out(polls: Seq<PollModel>, timeout_ms: u64, gap_ms: u64)
    requires
        polls.len() > 0,
        forall|j: int|
            0 <= j < polls.len() ==> !(#[trigger] polls[j]).cancelled && polls[j].report is None,
        polls[0].elapsed_ms <= timeout_ms,
        forall|j: int|
            0 <= j < polls.len() - 1 ==> (#[trigger] polls[j]).elapsed_ms <= polls[j
                + 1].elapsed_ms <= polls[j].elapsed_ms + gap_ms,
        polls.last().elapsed_ms > timeout_ms,
    ensures
        race_end(polls, timeout_ms, polls.len()) matches Some((at, outcome)) && outcome
            == OutcomeModel::TimedOut && 0 < at < polls.len() && timeout_ms < polls[at].elapsed_ms
            <= timeout_ms + gap_ms && polls[at - 1].elapsed_ms <= timeout_ms,
{
    let at = first_late(polls, timeout_ms, 0);
    lemma_first_late(polls, timeout_ms, 0);
    assert forall|j: int| 0 <= j < at implies poll_outcome(#[trigger] polls[j], timeout_ms)
        is None by {}
    lemma_race_ends_at(polls, timeout_ms, at);
    assert(polls[at - 1].elapsed_ms <= timeout_ms);
}

/// With the timeout of 30 seconds and polls that come less than a second
/// apart, a race in which nobody cancels and no device reports ends as
/// timed out more than 30 and less than 31 seconds after its start.
pub proof fn lemma_default_race_times_out(polls: Seq<PollModel>, gap_ms: u64)
    requires
        polls.len() > 0,
        gap_ms < 1000,
        forall|j: int|
            0 <= j < polls.len() ==> !(#[trigger] polls[j]).cancelled && polls[j].report is None,
        polls[0].elapsed_ms <= DETECT_TIMEOUT_MS,
        forall|j: int|
            0 <= j < polls.len() - 1 ==> (#[trigger] polls[j]).elapsed_ms <= polls[j
                + 1].elapsed_ms <= polls[j].elapsed_ms + gap_ms,
        polls.last().elapsed_ms > DETECT_TIMEOUT_MS,
    ensures
        race_end(polls, DETECT_TIMEOUT_MS, polls.len()) matches Some((at, outcome)) && outcome
            == OutcomeModel::TimedOut && 0 <= at < polls.len() && 30000 < polls[at].elapsed_ms
            < 31000,
{
    lemma_silent_race_times_out(polls, DETECT_TIMEOUT_MS, gap_ms);
}

/// The first position from `from` on whose poll lies after the timeout, or
/// the number of polls where there is none.
pub open spec fn first_late(polls: Seq<PollModel>, timeout_ms: u64, from: int) -> int
    decreases polls.len() - from,
{
    if from < 0 || from >= polls.len() {
        polls.len() as int
    } else if polls[from].elapsed_ms > timeout_ms {
        from
    } else {
        first_late(polls, timeout_ms, from + 1)
    }
}

proof fn lemma_first_late(polls: Seq<PollModel>, timeout_ms: u64, from: int)
    requires
        0 <= from <= polls.len(),
    ensures
        from <= first_late(polls, timeout_ms, from) <= polls.len(),
        forall|j: int|
            from <= j < first_late(polls, timeout_ms, from) ==> (#[trigger] polls[j]).elapsed_ms
                <= timeout_ms,
        first_late(polls, timeout_ms, from) < polls.len() ==> polls[first_late(
            polls,
            timeout_ms,
            from,
        )].elapsed_ms > timeout_ms,
    decreases polls.len() - from,
{
    if from < polls.len() && polls[from].elapsed_ms <= timeout_ms {
        lemma_first_late(polls, timeout_ms, from + 1);
    }
}

/// Cancellation: the first poll that sees the cancellation flag ends the
/// race as cancelled, whatever else that poll holds.
pub proof fn lemma_cancel_ends_race(polls: Seq<PollModel>, timeout_ms: u64, at: int)
    requires
        0 <= at < polls.len(),
        forall|j: int| 0 <= j < at ==> poll_outcome(#[trigger] polls[j], timeout_ms) is None,
        polls[at].cancelled,
    ensures
        race_end(polls, timeout_ms, polls.len()) == Some((at, OutcomeModel::Cancelled)),
{
    lemma_race_ends_at(polls, timeout_ms, at);
}

} // verus!
