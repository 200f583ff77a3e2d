//! The real-time side: MIDI byte classification, transport and error
//! codes, port configuration, and the passthrough clock.

use vstd::prelude::*;

use crate::midi::{wire_from_bytes, MidiWire};

verus! {

/// Scheduling state for the next clock tick.
#[derive(Debug, Clone, Copy, PartialEq, Eq, Structural)]
pub struct TickSchedule {
    /// Monotonic timestamp (ns) of the next scheduled tick.
    pub next_tick_ns: u64,
    /// Interval between ticks in nanoseconds.
    pub interval_ns: u64,
    /// Current subdivision within the beat (0..23 for 24 PPQN).
    pub subdivision: u8,
    /// Cumulative beat count since transport start.
    pub beat: u64,
}

/// Transport state change events.
#[derive(Debug, Clone, Copy, PartialEq, Eq, Structural)]
pub enum TransportEvent {
    /// Playback started from the beginning.
    Start,
    /// Playback stopped.
    Stop,
    /// Playback resumed from the current position.
    Continue,
}

/// Error codes for non-fatal conditions reported by the RT thread.
#[derive(Debug, Clone, Copy, PartialEq, Eq, Structural)]
pub enum RtErrorCode {
    /// A MIDI output port was disconnected or became unavailable.
    OutputPortLost,
    /// A MIDI input port was disconnected or became unavailable.
    InputPortLost,
    /// The RT-to-ECS queue overflowed; some events were dropped.
    QueueOverflow,
    /// The slave clock has not yet locked to an external clock source.
    ClockNotLocked,
    /// The slave clock detected a dropout in the external clock signal.
    ClockDropout,
    /// RT priority elevation failed; the thread runs at normal priority.
    PriorityElevationFailed,
}

/// Configuration for a MIDI output port connection; `name` is matched
/// case-insensitively as a substring of the system's port names.
#[derive(Debug, Clone)]
pub struct MidiOutputConfig {
    /// Name (or substring) used to match an available port.
    pub name: String,
}

/// Configuration for a MIDI input port connection; `name` is matched
/// case-insensitively as a substring of the system's port names.
#[derive(Debug, Clone)]
pub struct MidiInputConfig {
    /// Name (or substring) used to match an available port.
    pub name: String,
}

/// Classification of a raw MIDI byte sequence.
#[derive(Debug, Clone, Copy, PartialEq, Eq, Structural)]
pub enum MidiClassification {
    /// MIDI Clock byte (0xF8).
    Clock,
    /// Transport Start (0xFA).
    Start,
    /// Transport Stop (0xFC).
    Stop,
    /// Transport Continue (0xFB).
    Continue,
    /// Song Position Pointer (0xF2) with its 14-bit position.
    SongPosition { position: u16 },
    /// Active Sensing (0xFE), ignored by the system.
    ActiveSensing,
    /// System Reset (0xFF), ignored by the system.
    SystemReset,
    /// A channel voice or mode message.
    Channel(MidiWire),
}

/// The song position carried by two data bytes, 7 bits each, LSB first.
pub open spec fn song_position(lsb: u8, msb: u8) -> u16 {
    ((lsb as u16) | ((msb as u16) << 7u16)) as u16
}

/// The classification of a byte sequence; `None` for an empty sequence,
/// a leading data byte, and unhandled system messages (SysEx and others).
pub open spec fn classification_of(bytes: Seq<u8>) -> Option<MidiClassification> {
    if bytes.len() == 0 || bytes[0] < 0x80 {
        None
    } else {
        let status = bytes[0];
        if status == 0xF8 {
            Some(MidiClassification::Clock)
        } else if status == 0xFA {
            Some(MidiClassification::Start)
        } else if status == 0xFB {
            Some(MidiClassification::Continue)
        } else if status == 0xFC {
            Some(MidiClassification::Stop)
        } else if status == 0xFE {
            Some(MidiClassification::ActiveSensing)
        } else if status == 0xFF {
            Some(MidiClassification::SystemReset)
        } else if status == 0xF2 {
            let lsb = if bytes.len() > 1 { bytes[1] } else { 0u8 };
            let msb = if bytes.len() > 2 { bytes[2] } else { 0u8 };
            Some(MidiClassification::SongPosition { position: song_position(lsb, msb) })
        } else if status <= 0xEF {
            match wire_from_bytes(bytes) {
                Some(w) => Some(MidiClassification::Channel(w)),
                None => None,
            }
        } else {
            None
        }
    }
}

/// Classifies a raw MIDI byte sequence: system real-time messages, song
/// position, and channel messages (parsed by [`MidiWire::from_bytes`]).
pub fn classify_midi(bytes: &[u8]) -> (c: Option<MidiClassification>)
    ensures
        c == classification_of(bytes@),
{
    if bytes.len() == 0 {
        return None;
    }
    let status = bytes[0];
    if status < 0x80 {
        return None;
    }
    if status == 0xF8 {
        Some(MidiClassification::Clock)
    } else if status == 0xFA {
        Some(MidiClassification::Start)
    } else if status == 0xFB {
        Some(MidiClassification::Continue)
    } else if status == 0xFC {
        Some(MidiClassification::Stop)
    } else if status == 0xFE {
        Some(MidiClassification::ActiveSensing)
    } else if status == 0xFF {
        Some(MidiClassification::SystemReset)
    } else if status == 0xF2 {
        let lsb: u8 = if bytes.len() > 1 {
            bytes[1]
        } else {
            0
        };
        let msb: u8 = if bytes.len() > 2 {
            bytes[2]
        } else {
            0
        };
        let position: u16 = (lsb as u16) | ((msb as u16) << 7u16);
        Some(MidiClassification::SongPosition { position })
    } else if status <= 0xEF {
        match MidiWire::from_bytes(bytes) {
            Some(w) => Some(MidiClassification::Channel(w)),
            None => None,
        }
    } else {
        None
    }
}

// ── Passthrough clock ─────────────────────────────────────────────

/// The number of output ticks after `count` input ticks at the ratio
/// `multiply / divide`.
pub open spec fn output_total(multiply: int, divide: int, count: int) -> int {
    (count * multiply) / divide
}

/// The output ticks of the first `n` input ticks, summed one by one.
pub open spec fn summed_outputs(multiply: int, divide: int, n: nat) -> int
    decreases n,
{
    if n == 0 {
        0
    } else {
        summed_outputs(multiply, divide, (n - 1) as nat) + (output_total(multiply, divide, n as int)
            - output_total(multiply, divide, n - 1))
    }
}

/// The absolute output position: 24 subdivisions per beat.
pub open spec fn output_position(beat: u64, subdivision: u8) -> int {
    beat * 24 + subdivision
}

/// Receives external clock ticks and re-emits them, multiplied or divided
/// by an integer ratio, without smoothing.
///
/// After `n` input ticks, `(n * multiply) / divide` output ticks in all
/// have been requested; each input tick asks for the difference.
#[derive(Debug)]
pub struct PassthroughClock {
    multiply: u8,
    divide: u8,
    timeout_ns: u64,
    input_count: u64,
    output_subdivision: u8,
    output_beat: u64,
    last_tick_ns: Option<u64>,
    is_running: bool,
}

impl PassthroughClock {
    #[verifier::type_invariant]
    spec fn inv(&self) -> bool {
        self.multiply >= 1 && self.divide >= 1 && self.output_subdivision < 24
    }

    /// The multiplication factor (at least 1).
    pub closed spec fn spec_multiply(&self) -> u8 {
        self.multiply
    }

    /// The division factor (at least 1).
    pub closed spec fn spec_divide(&self) -> u8 {
        self.divide
    }

    /// The dropout timeout in nanoseconds.
    pub closed spec fn spec_timeout_ns(&self) -> u64 {
        self.timeout_ns
    }

    /// Input ticks received since creation or the last reset.
    pub closed spec fn spec_input_count(&self) -> u64 {
        self.input_count
    }

    /// Subdivision within the output beat.
    pub closed spec fn spec_output_subdivision(&self) -> u8 {
        self.output_subdivision
    }

    /// Cumulative output beat count.
    pub closed spec fn spec_output_beat(&self) -> u64 {
        self.output_beat
    }

    /// Timestamp of the most recently received tick.
    pub closed spec fn spec_last_tick_ns(&self) -> Option<u64> {
        self.last_tick_ns
    }

    /// Transport running state.
    pub closed spec fn spec_is_running(&self) -> bool {
        self.is_running
    }

    /// Creates a passthrough clock; `multiply` and `divide` are clamped to
    /// at least 1. It starts running, at position 0, with no tick seen.
    pub fn new(multiply: u8, divide: u8, timeout_ns: u64) -> (c: Self)
        ensures
            c.spec_multiply() == if multiply < 1 { 1 } else { multiply },
            c.spec_divide() == if divide < 1 { 1 } else { divide },
            c.spec_timeout_ns() == timeout_ns,
            c.spec_input_count() == 0,
            c.spec_output_subdivision() == 0,
            c.spec_output_beat() == 0,
            c.spec_last_tick_ns() is None,
            c.spec_is_running(),
    {
        PassthroughClock {
            multiply: if multiply < 1 {
                1
            } else {
                multiply
            },
            divide: if divide < 1 {
                1
            } else {
                divide
            },
            timeout_ns,
            input_count: 0,
            output_subdivision: 0,
            output_beat: 0,
            last_tick_ns: None,
            is_running: true,
        }
    }

    /// Records an incoming clock tick (0xF8) and returns how many output
    /// ticks it asks for: `(n * multiply) / divide - ((n - 1) * multiply)
    /// / divide` for the `n`-th input tick.
    pub fn feed_clock(&mut self, timestamp_ns: u64) -> (ticks: u32)
        requires
            (old(self).spec_input_count() + 1) * old(self).spec_multiply() <= u64::MAX,
        ensures
            final(self).spec_input_count() == old(self).spec_input_count() + 1,
            final(self).spec_last_tick_ns() == Some(timestamp_ns),
            ticks == output_total(
                old(self).spec_multiply() as int,
                old(self).spec_divide() as int,
                final(self).spec_input_count() as int,
            ) - output_total(
                old(self).spec_multiply() as int,
                old(self).spec_divide() as int,
                old(self).spec_input_count() as int,
            ),
            final(self).spec_multiply() == old(self).spec_multiply(),
            final(self).spec_divide() == old(self).spec_divide(),
            final(self).spec_timeout_ns() == old(self).spec_timeout_ns(),
            final(self).spec_output_subdivision() == old(self).spec_output_subdivision(),
            final(self).spec_output_beat() == old(self).spec_output_beat(),
            final(self).spec_is_running() == old(self).spec_is_running(),
    {
        proof {
            use_type_invariant(&*self);
        }
        assert((self.input_count + 1) * (self.multiply as int) >= self.input_count + 1) by (nonlinear_arith)
            requires
                self.multiply >= 1,
        ;
        self.last_tick_ns = Some(timestamp_ns);
        self.input_count = self.input_count + 1;
        let m = self.multiply as u64;
        let d = self.divide as u64;
        assert((self.input_count - 1) * m <= self.input_count * m) by (nonlinear_arith)
            requires
                self.input_count >= 1,
        ;
        let prev_total = ((self.input_count - 1) * m) / d;
        let curr_total = (self.input_count * m) / d;
        proof {
            lemma_output_step_bounds(m as int, d as int, self.input_count as int);
        }
        (curr_total - prev_total) as u32
    }

    /// Advances the output position by one tick: the subdivision wraps at
    /// 24 into the next beat.
    pub fn advance_output(&mut self)
        requires
            old(self).spec_output_subdivision() < 23 || old(self).spec_output_beat() < u64::MAX,
        ensures
            output_position(final(self).spec_output_beat(), final(self).spec_output_subdivision())
                == output_position(old(self).spec_output_beat(), old(self).spec_output_subdivision())
                + 1,
            final(self).spec_output_subdivision() < 24,
            final(self).spec_output_subdivision() == if old(self).spec_output_subdivision() + 1
                >= 24 {
                0
            } else {
                old(self).spec_output_subdivision() + 1
            },
            final(self).spec_output_beat() == if old(self).spec_output_subdivision() + 1 >= 24 {
                old(self).spec_output_beat() + 1
            } else {
                old(self).spec_output_beat() as int
            },
            final(self).spec_input_count() == old(self).spec_input_count(),
            final(self).spec_multiply() == old(self).spec_multiply(),
            final(self).spec_divide() == old(self).spec_divide(),
            final(self).spec_timeout_ns() == old(self).spec_timeout_ns(),
            final(self).spec_last_tick_ns() == old(self).spec_last_tick_ns(),
            final(self).spec_is_running() == old(self).spec_is_running(),
    {
        proof {
            use_type_invariant(&*self);
        }
        if self.output_subdivision + 1 >= 24 {
            self.output_subdivision = 0;
            self.output_beat = self.output_beat + 1;
        } else {
            self.output_subdivision = self.output_subdivision + 1;
        }
    }

    /// The current output subdivision within the beat (0..23).
    pub fn output_subdivision(&self) -> (s: u8)
        ensures
            s == self.spec_output_subdivision(),
            s < 24,
    {
        proof {
            use_type_invariant(self);
        }
        self.output_subdivision
    }

    /// The current cumulative output beat count.
    pub fn output_beat(&self) -> (b: u64)
        ensures
            b == self.spec_output_beat(),
    {
        self.output_beat
    }

    /// Whether the external clock has dropped out: more than the timeout
    /// has passed since the last tick. `false` before any tick.
    pub fn check_dropout(&self, now_ns: u64) -> (d: bool)
        ensures
            d == match self.spec_last_tick_ns() {
                Some(last) => (if now_ns >= last { now_ns - last } else { 0 }) > self.spec_timeout_ns(),
                None => false,
            },
    {
        match self.last_tick_ns {
            Some(last) => {
                let elapsed = if now_ns >= last {
                    now_ns - last
                } else {
                    0
                };
                elapsed > self.timeout_ns
            },
            None => false,
        }
    }

    /// Resets the musical position and the input counter (transport
    /// Start).
    pub fn reset(&mut self)
        ensures
            final(self).spec_output_subdivision() == 0,
            final(self).spec_output_beat() == 0,
            final(self).spec_input_count() == 0,
            final(self).spec_multiply() == old(self).spec_multiply(),
            final(self).spec_divide() == old(self).spec_divide(),
            final(self).spec_timeout_ns() == old(self).spec_timeout_ns(),
            final(self).spec_last_tick_ns() == old(self).spec_last_tick_ns(),
            final(self).spec_is_running() == old(self).spec_is_running(),
    {
        proof {
            use_type_invariant(&*self);
        }
        self.output_subdivision = 0;
        self.output_beat = 0;
        self.input_count = 0;
    }

    /// Sets the transport running state.
    pub fn set_running(&mut self, running: bool)
        ensures
            final(self).spec_is_running() == running,
            final(self).spec_input_count() == old(self).spec_input_count(),
            final(self).spec_output_subdivision() == old(self).spec_output_subdivision(),
            final(self).spec_output_beat() == old(self).spec_output_beat(),
            final(self).spec_multiply() == old(self).spec_multiply(),
            final(self).spec_divide() == old(self).spec_divide(),
            final(self).spec_timeout_ns() == old(self).spec_timeout_ns(),
            final(self).spec_last_tick_ns() == old(self).spec_last_tick_ns(),
    {
        proof {
            use_type_invariant(&*self);
        }
        self.is_running = running;
    }

    /// Whether the transport is running.
    pub fn is_running(&self) -> (r: bool)
        ensures
            r == self.spec_is_running(),
    {
        self.is_running
    }

    /// Sets the musical position from a Song Position Pointer, given in
    /// MIDI beats (sixteenth notes, 6 clocks each): the output position
    /// becomes `6 * midi_beats`.
    pub fn set_position_from_spp(&mut self, midi_beats: u16)
        ensures
            final(self).spec_output_beat() == midi_beats / 4,
            final(self).spec_output_subdivision() == (midi_beats % 4) * 6,
            output_position(final(self).spec_output_beat(), final(self).spec_output_subdivision())
                == 6 * midi_beats,
            final(self).spec_input_count() == old(self).spec_input_count(),
            final(self).spec_multiply() == old(self).spec_multiply(),
            final(self).spec_divide() == old(self).spec_divide(),
            final(self).spec_timeout_ns() == old(self).spec_timeout_ns(),
            final(self).spec_last_tick_ns() == old(self).spec_last_tick_ns(),
            final(self).spec_is_running() == old(self).spec_is_running(),
    {
        proof {
            use_type_invariant(&*self);
        }
        self.output_beat = (midi_beats / 4) as u64;
        self.output_subdivision = ((midi_beats % 4) * 6) as u8;
    }
}

proof fn lemma_output_step_bounds(m: int, d: int, n: int)
    requires
        1 <= m <= 255,
        1 <= d,
        n >= 1,
    ensures
        0 <= output_total(m, d, n) - output_total(m, d, n - 1) <= m,
{
    let a = (n - 1) * m;
    let b = n * m;
    assert(b == a + m) by (nonlinear_arith)
        requires
            a == (n - 1) * m,
            b == n * m,
    ;
    assert(a / d <= b / d) by (nonlinear_arith)
        requires
            a <= b,
            d >= 1,
    ;
    assert(b / d <= a / d + m) by (nonlinear_arith)
        requires
            b == a + m,
            d >= 1,
            m >= 0,
            a >= 0,
    ;
}

/// Summed over the first `n` input ticks, the passthrough clock asks for
/// `(n * multiply) / divide` output ticks: integer ratios never drift.
pub proof fn law_passthrough_total(multiply: int, divide: int, n: nat)
    requires
        divide >= 1,
    ensures
        summed_outputs(multiply, divide, n) == output_total(multiply, divide, n as int),
    decreases n,
{
    if n > 0 {
        law_passthrough_total(multiply, divide, (n - 1) as nat);
    } else {
        assert(output_total(multiply, divide, 0) == 0) by (nonlinear_arith)
            requires
                divide >= 1,
        ;
    }
}

// ── Wake-up scheduling ────────────────────────────────────────────

/// The wake-up timeline of a timing loop. Each target comes one interval
/// after the previous target, not after the actual wake-up, so lateness
/// on one wake-up does not push back the ones after it.
#[derive(Debug, Clone, Copy, PartialEq, Eq, Structural)]
pub struct WakeSchedule {
    /// The most recent target, in nanoseconds.
    pub scheduled_ns: u64,
    /// The most recent actual wake-up, in nanoseconds.
    pub prev_actual_ns: u64,
    /// The interval between targets, in nanoseconds.
    pub interval_ns: u64,
}

/// The target after `k` steps of `interval` from `start`.
pub open spec fn target_after(start: int, interval: int, k: nat) -> int
    decreases k,
{
    if k == 0 {
        start
    } else {
        target_after(start, interval, (k - 1) as nat) + interval
    }
}

impl WakeSchedule {
    /// A timeline starting at `start_ns` (also the first "actual" time).
    pub fn new(start_ns: u64, interval_ns: u64) -> (w: Self)
        ensures
            w == (WakeSchedule { scheduled_ns: start_ns, prev_actual_ns: start_ns, interval_ns }),
    {
        WakeSchedule { scheduled_ns: start_ns, prev_actual_ns: start_ns, interval_ns }
    }

    /// Advances to the next target, one interval after the previous one.
    pub fn next_target(&mut self) -> (t: u64)
        requires
            old(self).scheduled_ns + old(self).interval_ns <= u64::MAX,
        ensures
            t == old(self).scheduled_ns + old(self).interval_ns,
            *final(self) == (WakeSchedule { scheduled_ns: t, ..*old(self) }),
    {
        self.scheduled_ns = self.scheduled_ns + self.interval_ns;
        self.scheduled_ns
    }

    /// Records an actual wake-up and returns the time since the previous
    /// one (0 if the clock appears to have gone back).
    pub fn record_wake(&mut self, actual_ns: u64) -> (elapsed: u64)
        ensures
            elapsed == if actual_ns >= old(self).prev_actual_ns {
                actual_ns - old(self).prev_actual_ns
            } else {
                0
            },
            *final(self) == (WakeSchedule { prev_actual_ns: actual_ns, ..*old(self) }),
    {
        let elapsed = if actual_ns >= self.prev_actual_ns {
            actual_ns - self.prev_actual_ns
        } else {
            0
        };
        self.prev_actual_ns = actual_ns;
        elapsed
    }
}

/// The timeline does not drift: the `k`-th target is exactly `k`
/// intervals after the start, however late the wake-ups were.
pub proof fn law_wake_schedule_no_drift(start: int, interval: int, k: nat)
    ensures
        target_after(start, interval, k) == start + k * interval,
    decreases k,
{
    if k > 0 {
        let j = (k - 1) as nat;
        law_wake_schedule_no_drift(start, interval, j);
        assert(target_after(start, interval, k) == target_after(start, interval, j) + interval);
        assert(start + j * interval + interval == start + k * interval) by (nonlinear_arith)
            requires
                j + 1 == k,
        ;
    } else {
        assert(k * interval == 0) by (nonlinear_arith)
            requires
                k == 0,
        ;
    }
}

} // verus!
