//! Decoding of raw input records and debounced classification of key
//! transitions.

use crate::keys::{key_name, key_to_string};
use vstd::prelude::*;
use vstd::string::StringExecFns;

verus! {

/// Size in bytes of one raw input record on a 64-bit Linux system.
pub const EVENT_SIZE: usize = 24;

/// Event type of key transitions.
pub const EV_KEY: u16 = 1;

/// Raw value of a key release.
pub const KEY_RELEASE: i32 = 0;

/// Raw value of a key press.
pub const KEY_PRESS: i32 = 1;

/// Raw value of an auto-repeat.
pub const KEY_REPEAT: i32 = 2;

/// Default width of a reader's debounce window, in milliseconds.
pub const DEBOUNCE_MS: u64 = 200;

/// One raw record as the kernel delivers it.
#[derive(Clone, Copy, Debug, PartialEq, Eq)]
pub struct InputEvent {
    pub tv_sec: i64,
    pub tv_usec: i64,
    pub type_: u16,
    pub code: u16,
    pub value: i32,
}

/// The unsigned number that `n` bytes of `s` starting at `at` spell, least
/// significant byte first.
pub open spec fn le_unsigned(s: Seq<u8>, at: int, n: nat) -> nat
    decreases n,
{
    if n == 0 {
        0
    } else {
        s[at] as nat + 256 * le_unsigned(s, at + 1, (n - 1) as nat)
    }
}

/// The two's complement reading of `le_unsigned(s, at, n)` as an `n`-byte
/// signed number.
pub open spec fn le_signed(s: Seq<u8>, at: int, n: nat) -> int {
    let u = le_unsigned(s, at, n) as int;
    let half = pow256(n) / 2;
    if u >= half {
        u - pow256(n)
    } else {
        u
    }
}

/// 256 to the power `n`.
pub open spec fn pow256(n: nat) -> int
    decreases n,
{
    if n == 0 {
        1
    } else {
        256 * pow256((n - 1) as nat)
    }
}

/// The record that the 24 bytes `s` hold: two 8-byte signed time fields, the
/// 2-byte type, the 2-byte code and the 4-byte signed value.
pub open spec fn decoded(s: Seq<u8>) -> InputEvent {
    InputEvent {
        tv_sec: le_signed(s, 0, 8) as i64,
        tv_usec: le_signed(s, 8, 8) as i64,
        type_: le_unsigned(s, 16, 2) as u16,
        code: le_unsigned(s, 18, 2) as u16,
        value: le_signed(s, 20, 4) as i32,
    }
}

proof fn lemma_pow256()
    ensures
        pow256(0) == 1,
        pow256(1) == 0x100,
        pow256(2) == 0x1_0000,
        pow256(3) == 0x100_0000,
        pow256(4) == 0x1_0000_0000,
        pow256(5) == 0x100_0000_0000,
        pow256(6) == 0x1_0000_0000_0000,
        pow256(7) == 0x100_0000_0000_0000,
        pow256(8) == 0x1_0000_0000_0000_0000,
{
    reveal_with_fuel(pow256, 9);
}

proof fn lemma_le_unsigned_bound(s: Seq<u8>, at: int, n: nat)
    ensures
        le_unsigned(s, at, n) < pow256(n),
    decreases n,
{
    if n > 0 {
        lemma_le_unsigned_bound(s, at + 1, (n - 1) as nat);
    }
}

/// Reads `n` bytes of `buf` from `at`, least significant byte first.
fn read_unsigned(buf: &[u8], at: usize, n: usize) -> (r: u64)
    requires
        n <= 8,
        at + n <= buf@.len(),
    ensures
        r == le_unsigned(buf@, at as int, n as nat),
{
    let len: usize = buf.len();
    let mut r: u64 = 0;
    let mut i: usize = n;
    while i > 0
        invariant
            i <= n <= 8,
            at + n <= len,
            len == buf@.len(),
            r == le_unsigned(buf@, at + i, (n - i) as nat),
        decreases i,
    {
        i = i - 1;
        proof {
            lemma_le_unsigned_bound(buf@, at + i + 1, (n - i - 1) as nat);
            lemma_pow256();
            assert(pow256((n - i - 1) as nat) <= pow256(7)) by {
                lemma_pow256_monotonic((n - i - 1) as nat, 7);
            }
        }
        r = r * 256 + buf[at + i] as u64;
    }
    r
}

proof fn lemma_pow256_monotonic(a: nat, b: nat)
    requires
        a <= b,
    ensures
        0 < pow256(a) <= pow256(b),
    decreases b,
{
    if a < b {
        lemma_pow256_monotonic(a, (b - 1) as nat);
    } else if a > 0 {
        lemma_pow256_monotonic((a - 1) as nat, (a - 1) as nat);
    }
}

/// Decodes one raw record.
///
/// Returns the record exactly when `buf` holds `EVENT_SIZE` bytes.
pub fn decode_event(buf: &[u8]) -> (r: Option<InputEvent>)
    ensures
        r == if buf@.len() == EVENT_SIZE {
            Some(decoded(buf@))
        } else {
            None
        },
{
    if buf.len() != EVENT_SIZE {
        return None;
    }
    proof {
        lemma_pow256();
        lemma_le_unsigned_bound(buf@, 0, 8);
        lemma_le_unsigned_bound(buf@, 8, 8);
        lemma_le_unsigned_bound(buf@, 16, 2);
        lemma_le_unsigned_bound(buf@, 18, 2);
        lemma_le_unsigned_bound(buf@, 20, 4);
    }
    let sec: u64 = read_unsigned(buf, 0, 8);
    let usec: u64 = read_unsigned(buf, 8, 8);
    let type_: u64 = read_unsigned(buf, 16, 2);
    let code: u64 = read_unsigned(buf, 18, 2);
    let value: u64 = read_unsigned(buf, 20, 4);
    Some(
        InputEvent {
            tv_sec: signed64(sec),
            tv_usec: signed64(usec),
            type_: type_ as u16,
            code: code as u16,
            value: signed32(value),
        },
    )
}

/// The two's complement reading of a 64-bit pattern.
fn signed64(u: u64) -> (r: i64)
    ensures
        r == if u >= 0x8000_0000_0000_0000 {
            u - 0x1_0000_0000_0000_0000
        } else {
            u as int
        },
{
    if u >= 0x8000_0000_0000_0000 {
        let low: u64 = u - 0x8000_0000_0000_0000;
        (low as i64) + i64::MIN
    } else {
        u as i64
    }
}

/// The two's complement reading of a 32-bit pattern.
fn signed32(u: u64) -> (r: i32)
    requires
        u < 0x1_0000_0000,
    ensures
        r == if u >= 0x8000_0000 {
            u - 0x1_0000_0000
        } else {
            u as int
        },
{
    if u >= 0x8000_0000 {
        let low: u64 = u - 0x8000_0000;
        (low as i32) + i32::MIN
    } else {
        u as i32
    }
}

/// What one non-blocking read attempt on a device produced.
#[derive(Clone, Copy, Debug, PartialEq, Eq)]
pub enum ReadOutcome {
    /// A full record was read.
    Event(InputEvent),
    /// Nothing is queued: the read would have blocked.
    Empty,
    /// The read failed for any other reason.
    Failed,
}

/// The three kinds of key transition that the hardware reports.
#[derive(Clone, Copy, Debug, PartialEq, Eq)]
pub enum TransitionKind {
    Down,
    Repeat,
    Up,
}

/// One decoded key transition.
#[derive(Clone, Copy, Debug, PartialEq, Eq)]
pub struct RawTransition {
    /// Numeric key identifier.
    pub code: u16,
    /// What happened to the key.
    pub kind: TransitionKind,
    /// Reading of the monotonic clock, in milliseconds, when the record was read.
    pub timestamp: u64,
}

/// The kind that a raw value stands for: 0 is a release, 1 a press, and 2 or
/// any other value a repeat.
pub open spec fn kind_of_value(value: i32) -> TransitionKind {
    if value == KEY_RELEASE {
        TransitionKind::Up
    } else if value == KEY_PRESS {
        TransitionKind::Down
    } else {
        TransitionKind::Repeat
    }
}

/// The key transition that a record describes, if it describes one.
pub open spec fn spec_transition_of(ev: InputEvent, now_ms: u64) -> Option<RawTransition> {
    if ev.type_ == EV_KEY {
        Some(RawTransition { code: ev.code, kind: kind_of_value(ev.value), timestamp: now_ms })
    } else {
        None
    }
}

/// Classifies a record read at `now_ms`: records of the key type become a
/// transition, all others are skipped.
pub fn transition_of(ev: &InputEvent, now_ms: u64) -> (r: Option<RawTransition>)
    ensures
        r == spec_transition_of(*ev, now_ms),
{
    if ev.type_ != EV_KEY {
        return None;
    }
    let kind = if ev.value == KEY_RELEASE {
        TransitionKind::Up
    } else if ev.value == KEY_PRESS {
        TransitionKind::Down
    } else {
        TransitionKind::Repeat
    };
    Some(RawTransition { code: ev.code, kind, timestamp: now_ms })
}

/// What a consumer is told about a key.
#[derive(Clone, Copy, Debug, PartialEq, Eq, Structural)]
pub enum KeyState {
    /// The key went down.
    Down,
    /// The key is held and repeats.
    Press,
    /// The key was released.
    Up,
}

impl KeyState {
    /// The bracketed label of the state.
    pub open spec fn label(self) -> Seq<char> {
        match self {
            KeyState::Down => "[Key Down]"@,
            KeyState::Press => "[Key Press]"@,
            KeyState::Up => "[Key Up]"@,
        }
    }

    /// The state as text: `[Key Down]`, `[Key Press]` or `[Key Up]`.
    pub fn to_string(&self) -> (s: String)
        ensures
            s@ == self.label(),
    {
        match self {
            KeyState::Down => String::from_str("[Key Down]"),
            KeyState::Press => String::from_str("[Key Press]"),
            KeyState::Up => String::from_str("[Key Up]"),
        }
    }
}

/// The state that a transition of the given kind is reported as.
pub open spec fn state_of_kind(kind: TransitionKind) -> KeyState {
    match kind {
        TransitionKind::Down => KeyState::Down,
        TransitionKind::Repeat => KeyState::Press,
        TransitionKind::Up => KeyState::Up,
    }
}

/// The notification handed to consumers for one accepted transition.
#[derive(Debug, PartialEq, Eq)]
pub struct KeyInfo {
    /// Symbolic name of the key.
    pub name: String,
    /// What happened to it.
    pub state: KeyState,
}

/// A notification as plain values.
pub struct KeyInfoModel {
    pub name: Seq<char>,
    pub state: KeyState,
}

impl View for KeyInfo {
    type V = KeyInfoModel;

    open spec fn view(&self) -> KeyInfoModel {
        KeyInfoModel { name: self.name@, state: self.state }
    }
}

/// The notification that stands for the transition `t`.
pub open spec fn notification_of(t: RawTransition) -> KeyInfoModel {
    KeyInfoModel { name: key_name(t.code), state: state_of_kind(t.kind) }
}

/// Builds the notification for an accepted transition: the key's name from
/// the symbol table, and the state that its kind maps to.
pub fn key_info(t: &RawTransition) -> (info: KeyInfo)
    ensures
        info@ == notification_of(*t),
{
    let state = match t.kind {
        TransitionKind::Down => KeyState::Down,
        TransitionKind::Repeat => KeyState::Press,
        TransitionKind::Up => KeyState::Up,
    };
    KeyInfo { name: key_to_string(t.code), state }
}

/// Whether `outcome` is the record of a key press.
pub open spec fn is_press(outcome: ReadOutcome) -> bool {
    outcome matches ReadOutcome::Event(ev) && ev.type_ == EV_KEY && ev.value == KEY_PRESS
}

/// Milliseconds from `earlier` to `later` on a monotonic clock; zero when
/// `later` lies before `earlier`.
pub open spec fn elapsed_ms(earlier: u64, later: u64) -> int {
    if later >= earlier {
        later - earlier
    } else {
        0
    }
}

/// The debounce state of one reader: the window, and when the last press was
/// seen on it.
#[derive(Clone, Copy, Debug, PartialEq, Eq)]
pub struct EventReader {
    /// Width of the debounce window in milliseconds.
    pub window_ms: u64,
    /// Time of the last press seen, accepted or not.
    pub last_down_ms: Option<u64>,
}

impl EventReader {
    /// Whether a press at `now_ms` is far enough from the last press seen.
    pub open spec fn accepts(self, now_ms: u64) -> bool {
        match self.last_down_ms {
            None => true,
            Some(last) => elapsed_ms(last, now_ms) >= self.window_ms,
        }
    }

    /// The reader after it has seen a press at `now_ms`.
    pub open spec fn after_down(self, now_ms: u64) -> EventReader {
        EventReader { window_ms: self.window_ms, last_down_ms: Some(now_ms) }
    }

    /// The reader after it has seen `outcome` at `now_ms`: only a press moves
    /// the debounce clock.
    pub open spec fn after_read(self, outcome: ReadOutcome, now_ms: u64) -> EventReader {
        match outcome {
            ReadOutcome::Event(ev) => if ev.type_ == EV_KEY && ev.value == KEY_PRESS {
                self.after_down(now_ms)
            } else {
                self
            },
            _ => self,
        }
    }

    /// The transition that the reader hands on for `outcome` read at
    /// `now_ms`: a press only when the debounce window accepts it, every
    /// other key transition as it is, and nothing otherwise.
    pub open spec fn yields(self, outcome: ReadOutcome, now_ms: u64) -> Option<RawTransition> {
        match outcome {
            ReadOutcome::Event(ev) => match spec_transition_of(ev, now_ms) {
                Some(t) => if t.kind == TransitionKind::Down && !self.accepts(now_ms) {
                    None
                } else {
                    Some(t)
                },
                None => None,
            },
            _ => None,
        }
    }

    /// A reader that has seen no press yet.
    pub fn new(window_ms: u64) -> (r: Self)
        ensures
            r == (EventReader { window_ms, last_down_ms: None }),
    {
        EventReader { window_ms, last_down_ms: None }
    }

    /// Records a press at `now_ms` and says whether it counts.
    ///
    /// The first press always counts. A later one counts when at least
    /// `window_ms` milliseconds have passed since the press before it; either
    /// way it becomes the press that the next one is measured against.
    pub fn accept_down(&mut self, now_ms: u64) -> (accepted: bool)
        ensures
            accepted == old(self).accepts(now_ms),
            *final(self) == old(self).after_down(now_ms),
    {
        let accepted = match self.last_down_ms {
            None => true,
            Some(last) => {
                let gap: u64 = if now_ms >= last {
                    now_ms - last
                } else {
                    0
                };
                gap >= self.window_ms
            },
        };
        self.last_down_ms = Some(now_ms);
        accepted
    }

    /// Takes the outcome of one read attempt made at `now_ms` and returns the
    /// transition it amounts to, if any.
    pub fn read_event(&mut self, outcome: &ReadOutcome, now_ms: u64) -> (r: Option<RawTransition>)
        ensures
            r == old(self).yields(*outcome, now_ms),
            *final(self) == old(self).after_read(*outcome, now_ms),
    {
        match outcome {
            ReadOutcome::Event(ev) => {
                match transition_of(ev, now_ms) {
                    Some(t) => {
                        match t.kind {
                            TransitionKind::Down => {
                                if self.accept_down(now_ms) {
                                    Some(t)
                                } else {
                                    None
                                }
                            },
                            _ => Some(t),
                        }
                    },
                    None => None,
                }
            },
            _ => None,
        }
    }
}

/// How many of the presses at `times`, fed to `reader` in order, count.
pub open spec fn accepted_downs(reader: EventReader, times: Seq<u64>) -> nat
    decreases times.len(),
{
    if times.len() == 0 {
        0
    } else {
        let rest = accepted_downs(reader.after_down(times[0]), times.drop_first());
        if reader.accepts(times[0]) {
            1 + rest
        } else {
            rest
        }
    }
}

/// Debounce: of two presses in a row, of which the first counts, the
/// second counts exactly when it comes at least the window after the
/// first. So two presses closer together than the window count once, and
/// two that are at least the window apart count twice. On a reader that has
/// seen no press yet the first press always counts.
pub proof fn lemma_debounce_pair(reader: EventReader, first_ms: u64, second_ms: u64)
    requires
        first_ms <= second_ms,
    ensures
        reader.last_down_ms is None ==> reader.accepts(first_ms),
        reader.accepts(first_ms) && second_ms - first_ms < reader.window_ms ==> accepted_downs(
            reader,
            seq![first_ms, second_ms],
        ) == 1,
        reader.accepts(first_ms) && second_ms - first_ms >= reader.window_ms ==> accepted_downs(
            reader,
            seq![first_ms, second_ms],
        ) == 2,
{
    let times = seq![first_ms, second_ms];
    assert(times.drop_first() =~= seq![second_ms]);
    assert(seq![second_ms].drop_first() =~= Seq::<u64>::empty());
    reveal_with_fuel(accepted_downs, 3);
}

} // verus!
