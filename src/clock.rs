use vstd::prelude::*;

verus! {

/// Framerate assumed when the negotiated one does not give a usable duration.
pub const DEFAULT_FRAMERATE: i32 = 30;

/// Nanoseconds in one second.
pub const NANOS_PER_SECOND: u64 = 1_000_000_000;

/// A deadline multiplier is given in thousandths: 2500 stands for 2.5.
pub const PERMILLE: u64 = 1000;

/// A rational number, used for framerates (frames per `den` seconds).
#[derive(Clone, Copy, Debug, PartialEq, Eq, Structural)]
pub struct Fraction {
    pub num: i32,
    pub den: i32,
}

/// Timing state of the multiplexer. All durations and timestamps are in nanoseconds.
#[derive(Clone, Copy, Debug, PartialEq, Eq, Structural)]
pub struct ClockState {
    /// Framerate of the streams, as last negotiated.
    pub framerate: Fraction,
    /// The duration of one composite record (frameset).
    pub frameset_duration: u64,
    /// How long to wait for a complete frameset when deadline-based aggregation is on.
    pub deadline_duration: u64,
    /// Timestamp of the last emitted record, if known.
    pub previous_timestamp: Option<u64>,
    /// Set once a gap signal was raised for the current run of dropped cycles.
    pub is_gap_event_sent: bool,
}

/// A framerate describes a positive rate when numerator and denominator share a strict sign.
pub open spec fn is_positive_rate(f: Fraction) -> bool {
    (f.num > 0 && f.den > 0) || (f.num < 0 && f.den < 0)
}

pub open spec fn abs_int(x: int) -> nat {
    if x < 0 { (-x) as nat } else { x as nat }
}

/// Duration of one frame at framerate `f`, falling back to the default framerate
/// when `f` does not describe a positive rate.
pub open spec fn frame_duration_of(f: Fraction) -> nat {
    if is_positive_rate(f) {
        ((abs_int(f.den as int) * NANOS_PER_SECOND as nat) / abs_int(f.num as int)) as nat
    } else {
        (NANOS_PER_SECOND as nat / DEFAULT_FRAMERATE as nat) as nat
    }
}

/// `duration` scaled by `multiplier_permille / 1000`, saturated at the largest timestamp.
pub open spec fn deadline_of(duration: nat, multiplier_permille: nat) -> nat {
    let d = (duration * multiplier_permille / PERMILLE as nat) as nat;
    if d > u64::MAX { u64::MAX as nat } else { d }
}

/// Two timestamps are synchronised when they lie within half a frame duration.
pub open spec fn synchronised(frame_duration: nat, min_ts: nat, max_ts: nat) -> bool {
    2 * (max_ts - min_ts) < frame_duration
}

/// `a + b`, saturated at the largest timestamp.
pub open spec fn saturating_sum(a: nat, b: nat) -> nat {
    if a + b > u64::MAX { u64::MAX as nat } else { a + b }
}

/// The clock as it is before any negotiation.
pub open spec fn initial_clock() -> ClockState {
    ClockState {
        framerate: Fraction { num: DEFAULT_FRAMERATE, den: 1 },
        frameset_duration: 0,
        deadline_duration: 0,
        previous_timestamp: None,
        is_gap_event_sent: false,
    }
}

/// The clock after taking framerate `f`, with a deadline multiplier in thousandths.
pub open spec fn with_framerate(c: ClockState, f: Fraction, multiplier_permille: nat) -> ClockState {
    ClockState {
        framerate: f,
        frameset_duration: frame_duration_of(f) as u64,
        deadline_duration: deadline_of(frame_duration_of(f), multiplier_permille) as u64,
        ..c
    }
}

/// The clock after a gap signal was asked for: the signal itself is `gap_signal(c)`.
pub open spec fn after_gap_request(c: ClockState) -> ClockState {
    ClockState { is_gap_event_sent: true, ..c }
}

/// The gap signal raised when asked for on clock `c`: none if one was already raised
/// in this run, else one anchored at the previous timestamp, if that is known.
pub open spec fn gap_signal(c: ClockState) -> Option<u64> {
    if c.is_gap_event_sent { None } else { c.previous_timestamp }
}

/// The deadline of the next cycle when deadline-based aggregation is on.
pub open spec fn deadline_after(c: ClockState) -> Option<u64> {
    match c.previous_timestamp {
        Some(p) => Some(saturating_sum(p as nat, c.deadline_duration as nat) as u64),
        None => None,
    }
}

impl ClockState {
    pub fn new() -> (r: ClockState)
        ensures
            r == initial_clock(),
    {
        ClockState {
            framerate: Fraction { num: DEFAULT_FRAMERATE, den: 1 },
            frameset_duration: 0,
            deadline_duration: 0,
            previous_timestamp: None,
            is_gap_event_sent: false,
        }
    }

    /// Whether `min_ts` and `max_ts` lie within half a frame duration of each other.
    pub fn is_synchronised(&self, min_ts: u64, max_ts: u64) -> (r: bool)
        requires
            min_ts <= max_ts,
        ensures
            r == synchronised(self.frameset_duration as nat, min_ts as nat, max_ts as nat),
    {
        2 * ((max_ts - min_ts) as u128) < self.frameset_duration as u128
    }

    /// Takes a newly negotiated framerate and recomputes the frame and deadline durations.
    pub fn update_from_framerate(&mut self, framerate: Fraction, multiplier_permille: u32)
        ensures
            *final(self) == with_framerate(*old(self), framerate, multiplier_permille as nat),
    {
        let duration = frame_duration(framerate);
        let wide: u128 = duration as u128;
        let factor: u128 = multiplier_permille as u128;
        assert(wide * factor <= 0xffff_ffff_ffff_ffffu128 * 0xffff_ffffu128) by (nonlinear_arith)
            requires
                wide <= 0xffff_ffff_ffff_ffffu128,
                factor <= 0xffff_ffffu128,
        ;
        let scaled: u128 = wide * factor / (PERMILLE as u128);
        let deadline: u64 = if scaled > u64::MAX as u128 {
            u64::MAX
        } else {
            scaled as u64
        };
        self.framerate = framerate;
        self.frameset_duration = duration;
        self.deadline_duration = deadline;
    }

    /// Asks for a gap signal: at most one is raised per run of dropped cycles. Returns the
    /// timestamp at which the signal is anchored, or `None` when no signal is raised.
    pub fn send_gap_once(&mut self) -> (r: Option<u64>)
        ensures
            r == gap_signal(*old(self)),
            *final(self) == after_gap_request(*old(self)),
    {
        if self.is_gap_event_sent {
            return None;
        }
        self.is_gap_event_sent = true;
        self.previous_timestamp
    }

    /// Records a successful emission: the new previous timestamp, and a fresh run for gap signals.
    pub fn record_emission(&mut self, timestamp: Option<u64>)
        ensures
            *final(self) == (ClockState {
                previous_timestamp: timestamp,
                is_gap_event_sent: false,
                ..*old(self)
            }),
    {
        self.previous_timestamp = timestamp;
        self.is_gap_event_sent = false;
    }

    /// Forgets the previous timestamp after items were dropped.
    pub fn forget_previous(&mut self)
        ensures
            *final(self) == (ClockState { previous_timestamp: None, ..*old(self) }),
    {
        self.previous_timestamp = None;
    }

    /// The deadline of the next cycle: `previous_timestamp + deadline_duration` when
    /// deadline-based aggregation is on and the previous timestamp is known, else none.
    pub fn next_deadline(&self, drop_if_missing: bool) -> (r: Option<u64>)
        ensures
            r == (if drop_if_missing { deadline_after(*self) } else { None }),
    {
        if drop_if_missing {
            match self.previous_timestamp {
                Some(p) => {
                    let sum: u128 = p as u128 + self.deadline_duration as u128;
                    if sum > u64::MAX as u128 {
                        Some(u64::MAX)
                    } else {
                        Some(sum as u64)
                    }
                },
                None => None,
            }
        } else {
            None
        }
    }
}

/// Duration of one frame at `framerate`, in nanoseconds.
pub fn frame_duration(framerate: Fraction) -> (r: u64)
    ensures
        r as nat == frame_duration_of(framerate),
{
    let positive = (framerate.num > 0 && framerate.den > 0) || (framerate.num < 0
        && framerate.den < 0);
    if positive {
        let num: u64 = if framerate.num < 0 {
            (-(framerate.num as i64)) as u64
        } else {
            framerate.num as u64
        };
        let den: u64 = if framerate.den < 0 {
            (-(framerate.den as i64)) as u64
        } else {
            framerate.den as u64
        };
        assert(den * NANOS_PER_SECOND <= 0x8000_0000u64 * NANOS_PER_SECOND) by (nonlinear_arith)
            requires
                den <= 0x8000_0000u64,
        ;
        den * NANOS_PER_SECOND / num
    } else {
        NANOS_PER_SECOND / (DEFAULT_FRAMERATE as u64)
    }
}

} // verus!
