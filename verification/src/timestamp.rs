//! Hybrid logical timestamps as plain values, their total order, and the
//! arithmetic that moves one forward by a span of time.

use core::time::Duration;
use uhlc::NTP64;
use vstd::prelude::*;

verus! {

/// Largest number of whole seconds that the upper half of a clock value holds.
pub const MAX_NTP_SECONDS: u64 = 0xFFFF_FFFF;

/// Clock units in one second: the lower half of a clock value counts
/// fractions of a second.
pub const UNITS_PER_SECOND: u64 = 0x1_0000_0000;

/// Nanoseconds in one second.
pub const NANOS_PER_SECOND: u64 = 1_000_000_000;

/// The bits of a clock value that hold the logical counter: the lowest four.
/// The bits above them hold the physical time.
pub const COUNTER_MASK: u64 = 0xF;

/// A point in hybrid logical time.
///
/// `time` is the 64-bit clock value: whole seconds in the upper 32 bits,
/// fractions of a second and the logical counter in the lower 32 bits. `id`
/// is the issuing node's identity: its sixteen bytes read as one big-endian
/// number, so that comparing two numbers compares the identities byte by byte.
///
/// Timestamps are ordered by `time` first and by `id` second, so two
/// different nodes never issue equal timestamps.
#[derive(Clone, Copy, Debug, PartialEq, Eq, PartialOrd, Ord, Hash, Structural)]
pub struct Timestamp {
    pub time: u64,
    pub id: u128,
}

/// The whole seconds of a `Duration`.
pub uninterp spec fn duration_secs(duration: Duration) -> u64;

/// The part of a `Duration` below one second, in nanoseconds.
pub uninterp spec fn duration_subsec_nanos(duration: Duration) -> u32;

/// `Duration::as_secs` returns the number of whole seconds in the duration.
pub assume_specification[ Duration::as_secs ](duration: &Duration) -> (secs: u64)
    ensures
        secs == duration_secs(*duration),
;

/// `Duration::from_secs` builds a duration of that many whole seconds.
pub assume_specification[ Duration::from_secs ](secs: u64) -> (duration: Duration)
    ensures
        duration_secs(duration) == secs,
        duration_subsec_nanos(duration) == 0,
;

/// `Duration::from_millis` builds a duration of that many milliseconds: the
/// whole thousands become seconds, the rest becomes the fractional part.
pub assume_specification[ Duration::from_millis ](millis: u64) -> (duration: Duration)
    ensures
        duration_secs(duration) == millis / 1000,
        duration_subsec_nanos(duration) == (millis % 1000) * 1_000_000,
;

/// The number of clock units in a span of `secs` seconds and `nanos`
/// nanoseconds: the seconds fill the upper half, the nanoseconds are scaled
/// down to 32-bit fractions of a second.
pub open spec fn ntp_units(secs: u64, nanos: u32) -> int {
    secs * UNITS_PER_SECOND + (nanos * UNITS_PER_SECOND) / (NANOS_PER_SECOND as int)
}

/// Calls `uhlc`'s conversion `NTP64::from(Duration)` and hands back the raw
/// 64-bit value. The conversion shifts the whole seconds into the upper half
/// and adds the nanoseconds scaled to fractions of 2^32; it asserts that the
/// seconds fit in 32 bits, which the precondition guarantees.
#[verifier::external_body]
fn ntp64_from_duration(duration: Duration) -> (units: u64)
    requires
        duration_secs(duration) <= MAX_NTP_SECONDS,
    ensures
        units == ntp_units(duration_secs(duration), duration_subsec_nanos(duration)),
{
    NTP64::from(duration).as_u64()
}

impl Timestamp {
    /// Strict causal precedence: earlier clock value, or the same clock value
    /// and a smaller identity.
    pub open spec fn precedes(self, other: Timestamp) -> bool {
        self.time < other.time || (self.time == other.time && self.id < other.id)
    }

    /// Precedence or equality.
    pub open spec fn at_most(self, other: Timestamp) -> bool {
        self.precedes(other) || self == other
    }

    /// The physical-time component: the clock value without its logical
    /// counter.
    pub open spec fn physical(self) -> u64 {
        self.time & !COUNTER_MASK
    }

    /// The logical counter: how many timestamps the clock issued or merged
    /// within one step of physical time before this one.
    pub open spec fn counter(self) -> u64 {
        self.time & COUNTER_MASK
    }

    /// The timestamp `units` clock units later, issued by the same node.
    pub open spec fn plus_units(self, units: int) -> Timestamp {
        Timestamp { time: (self.time + units) as u64, id: self.id }
    }

    /// Whether the clock value `units` later still fits in 64 bits.
    pub open spec fn fits(self, units: int) -> bool {
        0 <= units && self.time + units <= u64::MAX
    }

    pub fn new(time: u64, id: u128) -> (stamp: Timestamp)
        ensures
            stamp.time == time,
            stamp.id == id,
    {
        Timestamp { time, id }
    }

    pub fn get_time(&self) -> (time: u64)
        ensures
            time == self.time,
    {
        self.time
    }

    pub fn get_id(&self) -> (id: u128)
        ensures
            id == self.id,
    {
        self.id
    }

    /// The physical-time component of the timestamp.
    pub fn physical_time(&self) -> (physical: u64)
        ensures
            physical == self.physical(),
    {
        self.time & !COUNTER_MASK
    }

    /// The logical counter of the timestamp.
    pub fn logical_counter(&self) -> (counter: u64)
        ensures
            counter == self.counter(),
            counter <= COUNTER_MASK,
    {
        let time = self.time;
        let counter = time & COUNTER_MASK;
        assert(counter <= 0xF) by (bit_vector)
            requires
                counter == time & 0xF,
        ;
        counter
    }

    /// Whether `self` strictly precedes `other`.
    pub fn is_before(&self, other: &Timestamp) -> (before: bool)
        ensures
            before == self.precedes(*other),
    {
        self.time < other.time || (self.time == other.time && self.id < other.id)
    }

    /// Whether `self` strictly follows `other`.
    pub fn is_after(&self, other: &Timestamp) -> (after: bool)
        ensures
            after == other.precedes(*self),
    {
        other.is_before(self)
    }

    /// Moves the timestamp forward by a duration, or reports that the result
    /// cannot be represented: `None` exactly when the duration has more whole
    /// seconds than 32 bits hold or the sum leaves the 64-bit range.
    pub fn checked_add_duration(&self, duration: Duration) -> (moved: Option<Timestamp>)
        ensures
            moved == if duration_secs(duration) <= MAX_NTP_SECONDS && self.fits(
                ntp_units(duration_secs(duration), duration_subsec_nanos(duration)),
            ) {
                Some(
                    self.plus_units(
                        ntp_units(duration_secs(duration), duration_subsec_nanos(duration)),
                    ),
                )
            } else {
                None
            },
    {
        if duration.as_secs() > MAX_NTP_SECONDS {
            return None;
        }
        let units: u64 = ntp64_from_duration(duration);
        if units > u64::MAX - self.time {
            return None;
        }
        Some(Timestamp { time: self.time + units, id: self.id })
    }
}

/// Arithmetic on timestamps: the same node's timestamp a span of time later.
pub trait TimestampExt: Sized {
    /// The value that lies `units` clock units after `self`.
    spec fn advanced(&self, units: int) -> Self;

    /// Whether the value `units` clock units after `self` is representable.
    spec fn can_advance(&self, units: int) -> bool;

    /// Adds a number of milliseconds.
    fn add_millis(&self, millis: u64) -> (later: Self)
        requires
            millis / 1000 <= MAX_NTP_SECONDS,
            self.can_advance(
                ntp_units(millis / 1000, (((millis % 1000) * 1_000_000) as u32)),
            ),
        ensures
            later == self.advanced(
                ntp_units(millis / 1000, (((millis % 1000) * 1_000_000) as u32)),
            ),
    ;

    /// Adds a duration.
    fn add_duration(&self, duration: Duration) -> (later: Self)
        requires
            duration_secs(duration) <= MAX_NTP_SECONDS,
            self.can_advance(
                ntp_units(duration_secs(duration), duration_subsec_nanos(duration)),
            ),
        ensures
            later == self.advanced(
                ntp_units(duration_secs(duration), duration_subsec_nanos(duration)),
            ),
    ;
}

impl TimestampExt for Timestamp {
    open spec fn advanced(&self, units: int) -> Timestamp {
        self.plus_units(units)
    }

    open spec fn can_advance(&self, units: int) -> bool {
        self.fits(units)
    }

    fn add_millis(&self, millis: u64) -> (later: Timestamp) {
        let duration = Duration::from_millis(millis);
        let units: u64 = ntp64_from_duration(duration);
        Timestamp { time: self.time + units, id: self.id }
    }

    fn add_duration(&self, duration: Duration) -> (later: Timestamp) {
        let units: u64 = ntp64_from_duration(duration);
        Timestamp { time: self.time + units, id: self.id }
    }
}

/// No timestamp precedes itself.
pub proof fn lemma_order_irreflexive(a: Timestamp)
    ensures
        !a.precedes(a),
{
}

/// Precedence is transitive.
pub proof fn lemma_order_transitive(a: Timestamp, b: Timestamp, c: Timestamp)
    requires
        a.precedes(b),
        b.precedes(c),
    ensures
        a.precedes(c),
{
}

/// Any two timestamps are comparable: one precedes the other, or they are
/// the same timestamp.
pub proof fn lemma_order_total(a: Timestamp, b: Timestamp)
    ensures
        a.precedes(b) || b.precedes(a) || a == b,
        !(a.precedes(b) && b.precedes(a)),
{
}

/// A timestamp is a triple of physical time, logical counter and node
/// identity, and the order of timestamps is the order of these triples:
/// physical time decides, then the counter, then the identity.
pub proof fn lemma_order_by_components(a: Timestamp, b: Timestamp)
    ensures
        a.time == a.physical() + a.counter(),
        a.counter() <= COUNTER_MASK,
        a.precedes(b) <==> a.physical() < b.physical() || (a.physical() == b.physical() && (
        a.counter() < b.counter() || (a.counter() == b.counter() && a.id < b.id))),
{
    let x = a.time;
    let y = b.time;
    assert(x == (x & !0xFu64) + (x & 0xFu64)) by (bit_vector);
    assert(y == (y & !0xFu64) + (y & 0xFu64)) by (bit_vector);
    assert((x & 0xFu64) <= 0xF) by (bit_vector);
    assert((y & 0xFu64) <= 0xF) by (bit_vector);
    assert(x < y <==> (x & !0xFu64) < (y & !0xFu64) || ((x & !0xFu64) == (y & !0xFu64) && (x
        & 0xFu64) < (y & 0xFu64))) by (bit_vector);
    assert(x == y <==> (x & !0xFu64) == (y & !0xFu64) && (x & 0xFu64) == (y & 0xFu64))
        by (bit_vector);
}

} // verus!
