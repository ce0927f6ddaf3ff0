//! The clock service: a hybrid logical clock that issues strictly increasing
//! timestamps and merges the timestamps that other nodes send.
//!
//! The clock itself is `uhlc`'s `HLC`. This module owns one, states what the
//! `uhlc` source guarantees of each call made on it, and proves from those
//! statements that timestamps only ever move forward.

pub use crate::timestamp::{Timestamp, TimestampExt};
use uhlc::{HLCBuilder, SizeError, HLC, ID, NTP64};
use vstd::prelude::*;

verus! {

/// `uhlc::HLC`, the hybrid logical clock. Its inside is hidden from the
/// proofs: what they know of a clock is its identity and its recorded value,
/// named below.
#[verifier::external_type_specification]
#[verifier::external_body]
pub struct ExHLC(HLC);

/// `uhlc::SizeError`, the error with which `ID::try_from` refuses an
/// identity.
#[verifier::external_type_specification]
#[verifier::external_body]
pub struct ExSizeError(SizeError);

/// The identity that an `HLC` stamps on its timestamps: the sixteen bytes of
/// its `ID` read as one big-endian number.
pub uninterp spec fn hlc_identity(hlc: HLC) -> u128;

/// The last clock value that an `HLC` has recorded: the value of the newest
/// timestamp it issued or merged, zero for a fresh clock.
pub uninterp spec fn hlc_latest(hlc: HLC) -> u64;

/// Builds an `HLC` with `HLCBuilder::new().with_id(..).build()`, after turning
/// the number into an `ID` with `ID::try_from`.
///
/// `ID::try_from` refuses exactly the all-zero identity. The builder starts
/// the clock's recorded value at zero and keeps the identity it was given.
/// (The builder reads the accepted clock drift from the environment once and
/// stops the process if that setting is not a number.)
#[verifier::external_body]
fn hlc_with_identity(identity: u128) -> (built: Result<HLC, SizeError>)
    ensures
        built is Ok <==> identity != 0,
        built matches Ok(hlc) ==> hlc_identity(hlc) == identity && hlc_latest(hlc) == 0,
{
    let id = ID::try_from(identity.to_be_bytes())?;
    Ok(HLCBuilder::new().with_id(id).build())
}

/// Builds an `HLC` with `HLC::default()`: a clock whose identity is drawn at
/// random from the non-zero identities and whose recorded value starts at
/// zero.
#[verifier::external_body]
fn hlc_with_random_identity() -> (hlc: HLC)
    ensures
        hlc_identity(hlc) != 0,
        hlc_latest(hlc) == 0,
{
    HLC::default()
}

/// Reads the clock's identity with `HLC::get_id`.
#[verifier::external_body]
fn hlc_get_identity(hlc: &HLC) -> (identity: u128)
    ensures
        identity == hlc_identity(*hlc),
{
    u128::from_be_bytes(hlc.get_id().to_le_bytes())
}

/// Issues a timestamp with `HLC::new_timestamp`.
///
/// The clock reads the physical time and clears its lowest four bits. If
/// that is later than what it has recorded, it records and returns that;
/// otherwise it records and returns its recorded value plus one. Either
/// way the result carries the clock's identity and exceeds everything the
/// clock issued or merged before. Adding one to a recorded value of
/// `u64::MAX` would overflow; the precondition leaves that state out. Which
/// of the two comes back depends on the physical time, so nothing more is
/// claimed. (The physical time is the system clock's, which `uhlc` expects
/// to stand between the years 1970 and 2106.)
#[verifier::external_body]
fn hlc_new_timestamp(hlc: &mut HLC) -> (stamp: Timestamp)
    requires
        hlc_latest(*old(hlc)) < u64::MAX,
    ensures
        hlc_identity(*final(hlc)) == hlc_identity(*old(hlc)),
        stamp.id == hlc_identity(*old(hlc)),
        stamp.time == hlc_latest(*final(hlc)),
        stamp.time > hlc_latest(*old(hlc)),
        stamp.time <= u64::MAX - 15 || stamp.time == hlc_latest(*old(hlc)) + 1,
{
    let issued = hlc.new_timestamp();
    Timestamp {
        time: issued.get_time().as_u64(),
        id: u128::from_be_bytes(issued.get_id().to_le_bytes()),
    }
}

/// Merges a timestamp with `HLC::update_with_timestamp`, after turning it
/// into `uhlc`'s own type with `ID::try_from` and `Timestamp::new`.
///
/// A timestamp with the all-zero identity has no `uhlc` form and is refused.
/// `uhlc` refuses a timestamp that runs ahead of the physical time by more
/// than the accepted drift. A refusal leaves the clock as it was. On success
/// the recorded value is the physical time with its lowest four bits
/// cleared, the merged value plus one, or the old recorded value plus one,
/// whichever of the three sources is latest: never below the merged value
/// nor below the old recorded value. The two additions are why the
/// precondition leaves out `u64::MAX`.
#[verifier::external_body]
fn hlc_update_with_timestamp(hlc: &mut HLC, remote: &Timestamp) -> (merged: Result<(), String>)
    requires
        hlc_latest(*old(hlc)) < u64::MAX,
        remote.time < u64::MAX,
    ensures
        hlc_identity(*final(hlc)) == hlc_identity(*old(hlc)),
        remote.id == 0 ==> merged is Err,
        merged is Ok ==> hlc_latest(*final(hlc)) >= remote.time && hlc_latest(*final(hlc))
            >= hlc_latest(*old(hlc)),
        merged is Ok ==> hlc_latest(*final(hlc)) <= u64::MAX - 15 || hlc_latest(*final(hlc))
            == remote.time + 1 || hlc_latest(*final(hlc)) == hlc_latest(*old(hlc)) + 1,
        merged is Err ==> hlc_latest(*final(hlc)) == hlc_latest(*old(hlc)),
{
    let id = ID::try_from(remote.id.to_be_bytes()).map_err(|e| e.to_string())?;
    hlc.update_with_timestamp(&uhlc::Timestamp::new(NTP64(remote.time), id))
}

/// Why a clock operation was refused.
#[derive(Clone, Copy, Debug, PartialEq, Eq, Structural)]
pub enum ClockError {
    /// The process-wide clock was initialized before; the first
    /// initialization stands.
    AlreadyInitialized,
    /// A timestamp cannot be represented or merged; the clock is unchanged.
    InvalidTimestamp,
    /// The all-zero node identity, which no clock can carry.
    InvalidIdentity,
}

impl ClockError {
    /// A short description of the error.
    pub fn message(&self) -> (text: &'static str)
        ensures
            text@ == match *self {
                ClockError::AlreadyInitialized => "Clock already initialized"@,
                ClockError::InvalidTimestamp => "Timestamp cannot be represented"@,
                ClockError::InvalidIdentity => "Node identity must not be zero"@,
            },
    {
        match self {
            ClockError::AlreadyInitialized => "Clock already initialized",
            ClockError::InvalidTimestamp => "Timestamp cannot be represented",
            ClockError::InvalidIdentity => "Node identity must not be zero",
        }
    }
}

/// A node's clock: the handle through which every timestamp of the node is
/// made.
///
/// Beside the clock itself it keeps a bound: a value that the clock is known
/// not to have passed. The bound is exact after every timestamp the clock
/// issues, and it is what lets a caller test whether the clock has room for
/// another one.
pub struct ClockService {
    hlc: HLC,
    ceiling: u64,
}

/// The bound that a clock has after a merge, given the bound it had and the
/// clock value it merged: the latest of the three values at which the clock
/// may stand afterwards. The physical time stays sixteen units clear of the
/// end of the range; the other two are one past the merged value and one
/// past the old bound.
pub open spec fn bound_after_merge(bound: u64, remote_time: u64) -> u64 {
    let past_remote = if remote_time < u64::MAX {
        (remote_time + 1) as u64
    } else {
        u64::MAX
    };
    let past_bound = if bound < u64::MAX {
        (bound + 1) as u64
    } else {
        u64::MAX
    };
    let highest = if past_remote > past_bound {
        past_remote
    } else {
        past_bound
    };
    if highest > u64::MAX - 15 {
        highest
    } else {
        (u64::MAX - 15) as u64
    }
}

impl ClockService {
    /// The node identity that the clock stamps on its timestamps.
    pub closed spec fn node(&self) -> u128 {
        hlc_identity(self.hlc)
    }

    /// The newest clock value that the clock has issued or merged.
    pub closed spec fn latest(&self) -> u64 {
        hlc_latest(self.hlc)
    }

    /// The bound that the clock keeps beside its value.
    pub closed spec fn bound(&self) -> u64 {
        self.ceiling
    }

    /// The invariant of the clock: it has not passed its bound. Every
    /// constructor establishes it and every operation keeps it.
    pub open spec fn wf(&self) -> bool {
        self.latest() <= self.bound()
    }

    /// The clock's position in time: its newest clock value under its own
    /// identity.
    pub open spec fn last_stamp(&self) -> Timestamp {
        Timestamp { time: self.latest(), id: self.node() }
    }

    /// Whether the clock can still move forward: its 64-bit value is not at
    /// the end of its range.
    pub open spec fn can_tick(&self) -> bool {
        self.latest() < u64::MAX
    }

    /// A clock for the node `node_id`. The all-zero identity is refused.
    pub fn with_identity(node_id: u128) -> (made: Result<ClockService, ClockError>)
        ensures
            node_id == 0 ==> made == Err::<ClockService, ClockError>(ClockError::InvalidIdentity),
            node_id != 0 ==> made is Ok,
            made matches Ok(clock) ==> clock.node() == node_id && clock.latest() == 0
                && clock.bound() == 0 && clock.wf(),
    {
        match hlc_with_identity(node_id) {
            Ok(hlc) => Ok(ClockService { hlc, ceiling: 0 }),
            Err(_) => Err(ClockError::InvalidIdentity),
        }
    }

    /// A clock with an identity drawn at random.
    pub fn with_random_identity() -> (clock: ClockService)
        ensures
            clock.node() != 0,
            clock.latest() == 0,
            clock.bound() == 0,
            clock.wf(),
    {
        ClockService { hlc: hlc_with_random_identity(), ceiling: 0 }
    }

    /// The local node's clock identity.
    pub fn identity(&self) -> (id: u128)
        ensures
            id == self.node(),
    {
        hlc_get_identity(&self.hlc)
    }

    /// Whether the clock is known to have room for another timestamp: its
    /// bound is not at the end of the 64-bit range. Where this holds, `now`
    /// and `update` may be called.
    pub fn has_headroom(&self) -> (room: bool)
        requires
            self.wf(),
        ensures
            room == (self.bound() < u64::MAX),
            room ==> self.can_tick(),
    {
        self.ceiling < u64::MAX
    }

    /// Issues the next timestamp: one that exceeds every timestamp this clock
    /// issued or merged before. Afterwards the clock's bound is exact.
    pub fn now(&mut self) -> (stamp: Timestamp)
        requires
            old(self).can_tick(),
        ensures
            issues(*old(self), *final(self), stamp),
            final(self).wf(),
    {
        let stamp = hlc_new_timestamp(&mut self.hlc);
        self.ceiling = stamp.time;
        stamp
    }

    /// Issues the next timestamp if the clock is known to have room for it,
    /// and leaves the clock alone if not.
    pub fn checked_now(&mut self) -> (stamp: Option<Timestamp>)
        requires
            old(self).wf(),
        ensures
            final(self).wf(),
            stamp is Some <==> old(self).bound() < u64::MAX,
            stamp matches Some(issued) ==> issues(*old(self), *final(self), issued),
            stamp is None ==> *final(self) == *old(self),
    {
        if self.has_headroom() {
            Some(self.now())
        } else {
            None
        }
    }

    /// Merges a timestamp received from another node, so that every later
    /// timestamp of this clock exceeds it.
    ///
    /// A timestamp at the end of the 64-bit range or with the all-zero
    /// identity cannot be represented and is refused; so is one that the
    /// clock judges too far ahead of physical time. A refusal leaves the
    /// clock unchanged.
    pub fn update(&mut self, remote: &Timestamp) -> (merged: Result<(), ClockError>)
        requires
            old(self).can_tick(),
        ensures
            old(self).wf() ==> final(self).wf(),
            remote.time == u64::MAX || remote.id == 0 ==> merged is Err,
            merged is Ok ==> merges(*old(self), *final(self), *remote),
            merged is Err ==> merged == Err::<(), ClockError>(ClockError::InvalidTimestamp)
                && final(self).node() == old(self).node() && final(self).latest() == old(self).latest()
                && final(self).bound() == old(self).bound(),
    {
        if remote.time == u64::MAX {
            return Err(ClockError::InvalidTimestamp);
        }
        match hlc_update_with_timestamp(&mut self.hlc, remote) {
            Ok(()) => {
                let past_remote: u64 = remote.time + 1;
                let past_bound: u64 = if self.ceiling < u64::MAX {
                    self.ceiling + 1
                } else {
                    u64::MAX
                };
                let highest: u64 = if past_remote > past_bound {
                    past_remote
                } else {
                    past_bound
                };
                self.ceiling = if highest > u64::MAX - 15 {
                    highest
                } else {
                    u64::MAX - 15
                };
                Ok(())
            },
            Err(_) => Err(ClockError::InvalidTimestamp),
        }
    }

    /// Merges a timestamp received from another node if the clock is known
    /// to have room, and refuses it with `InvalidTimestamp` if not.
    ///
    /// A merge tells the clock's value only up to a bound, and each merge
    /// loosens the bound by one. Where a merge leaves the bound one short of
    /// the end of the range, the clock issues a timestamp of its own, which
    /// nobody sees, to learn its exact value: so merges alone never use up
    /// the room that the clock is known to have.
    pub fn checked_update(&mut self, remote: &Timestamp) -> (merged: Result<(), ClockError>)
        requires
            old(self).wf(),
        ensures
            final(self).wf(),
            old(self).bound() == u64::MAX || remote.time == u64::MAX || remote.id == 0
                ==> merged is Err,
            merged is Ok ==> merges_and_settles(*old(self), *final(self), *remote),
            merged is Err ==> merged == Err::<(), ClockError>(ClockError::InvalidTimestamp)
                && final(self).node() == old(self).node() && final(self).latest() == old(self).latest()
                && final(self).bound() == old(self).bound(),
    {
        if !self.has_headroom() {
            return Err(ClockError::InvalidTimestamp);
        }
        match self.update(remote) {
            Ok(()) => {
                if self.ceiling == u64::MAX - 1 {
                    let _ = self.now();
                }
                Ok(())
            },
            Err(e) => Err(e),
        }
    }
}

/// The place of the process-wide clock: empty until the one initialization
/// that succeeds, and holding that clock ever after.
pub struct GlobalClock {
    service: Option<ClockService>,
}

impl GlobalClock {
    /// Whether the clock has been initialized.
    pub closed spec fn is_initialized(&self) -> bool {
        self.service is Some
    }

    /// The clock that the place holds once it is initialized.
    pub closed spec fn clock(&self) -> ClockService {
        self.service->Some_0
    }

    /// The empty place, before any initialization.
    pub fn new() -> (global: GlobalClock)
        ensures
            !global.is_initialized(),
    {
        GlobalClock { service: None }
    }

    /// Whether `init_clock` or `init_clock_with_random_id` has succeeded.
    pub fn initialized(&self) -> (set: bool)
        ensures
            set == self.is_initialized(),
    {
        self.service.is_some()
    }
}

/// Initializes the process-wide clock for the node `node_id`.
///
/// Only the first initialization succeeds: a later attempt returns
/// `AlreadyInitialized` and leaves the clock that is there untouched. The
/// all-zero identity is refused with `InvalidIdentity`.
pub fn init_clock(global: &mut GlobalClock, node_id: u128) -> (done: Result<(), ClockError>)
    ensures
        old(global).is_initialized() ==> done == Err::<(), ClockError>(
            ClockError::AlreadyInitialized,
        ) && *final(global) == *old(global),
        !old(global).is_initialized() && node_id == 0 ==> done == Err::<(), ClockError>(
            ClockError::InvalidIdentity,
        ) && *final(global) == *old(global),
        !old(global).is_initialized() && node_id != 0 ==> done is Ok && final(global).is_initialized()
            && final(global).clock().node() == node_id && final(global).clock().latest() == 0
            && final(global).clock().bound() == 0 && final(global).clock().wf(),
{
    if global.service.is_some() {
        return Err(ClockError::AlreadyInitialized);
    }
    match ClockService::with_identity(node_id) {
        Ok(clock) => {
            global.service = Some(clock);
            Ok(())
        },
        Err(e) => Err(e),
    }
}

/// Initializes the process-wide clock with an identity drawn at random.
///
/// Only the first initialization succeeds: a later attempt returns
/// `AlreadyInitialized` and leaves the clock that is there untouched.
pub fn init_clock_with_random_id(global: &mut GlobalClock) -> (done: Result<(), ClockError>)
    ensures
        old(global).is_initialized() ==> done == Err::<(), ClockError>(
            ClockError::AlreadyInitialized,
        ) && *final(global) == *old(global),
        !old(global).is_initialized() ==> done is Ok && final(global).is_initialized()
            && final(global).clock().node() != 0 && final(global).clock().latest() == 0
            && final(global).clock().bound() == 0 && final(global).clock().wf(),
{
    if global.service.is_some() {
        return Err(ClockError::AlreadyInitialized);
    }
    global.service = Some(ClockService::with_random_identity());
    Ok(())
}

/// The process-wide clock. It must have been initialized.
pub fn get_clock(global: &GlobalClock) -> (clock: &ClockService)
    requires
        global.is_initialized(),
    ensures
        *clock == global.clock(),
{
    global.service.as_ref().unwrap()
}

/// The process-wide clock, to issue and merge with. It must have been
/// initialized.
pub fn get_clock_mut(global: &mut GlobalClock) -> (clock: &mut ClockService)
    requires
        old(global).is_initialized(),
    ensures
        *clock == old(global).clock(),
        final(global).is_initialized(),
        final(global).clock() == *final(clock),
{
    match &mut global.service {
        Some(clock) => clock,
        None => unreached(),
    }
}

/// Issues a timestamp from the process-wide clock. It must have been
/// initialized.
pub fn current_timestamp(global: &mut GlobalClock) -> (stamp: Timestamp)
    requires
        old(global).is_initialized(),
        old(global).clock().can_tick(),
    ensures
        final(global).is_initialized(),
        issues(old(global).clock(), final(global).clock(), stamp),
        final(global).clock().wf(),
{
    match &mut global.service {
        Some(clock) => clock.now(),
        None => unreached(),
    }
}

/// Merges a timestamp received from another node into the process-wide
/// clock. It must have been initialized.
pub fn update_clock_with_timestamp(global: &mut GlobalClock, timestamp: &Timestamp) -> (merged:
    Result<(), ClockError>)
    requires
        old(global).is_initialized(),
        old(global).clock().can_tick(),
    ensures
        final(global).is_initialized(),
        old(global).clock().wf() ==> final(global).clock().wf(),
        timestamp.time == u64::MAX || timestamp.id == 0 ==> merged is Err,
        merged is Ok ==> merges(old(global).clock(), final(global).clock(), *timestamp),
        merged is Err ==> merged == Err::<(), ClockError>(ClockError::InvalidTimestamp)
            && final(global).clock().node() == old(global).clock().node()
            && final(global).clock().latest() == old(global).clock().latest()
            && final(global).clock().bound() == old(global).clock().bound(),
{
    match &mut global.service {
        Some(clock) => clock.update(timestamp),
        None => unreached(),
    }
}

/// The identity of the process-wide clock. It must have been initialized.
pub fn get_clock_id(global: &GlobalClock) -> (id: u128)
    requires
        global.is_initialized(),
    ensures
        id == global.clock().node(),
{
    get_clock(global).identity()
}

/// What one call of `now` does to a clock: `stamp` carries the clock's
/// identity, lies strictly after everything the clock had recorded, and is
/// what the clock has recorded afterwards. It is the physical time, which
/// stays sixteen units clear of the end of the range, or one more than what
/// the clock had recorded. The clock's bound is exact afterwards.
pub open spec fn issues(before: ClockService, after: ClockService, stamp: Timestamp) -> bool {
    &&& after.node() == before.node()
    &&& stamp.id == before.node()
    &&& stamp.time == after.latest()
    &&& stamp.time > before.latest()
    &&& stamp.time <= u64::MAX - 15 || stamp.time == before.latest() + 1
    &&& after.bound() == stamp.time
}

/// What one successful call of `update` does to a clock: the clock keeps its
/// identity, does not move backwards, and has caught up with the remote
/// timestamp. It stands at the physical time, which stays sixteen units
/// clear of the end of the range, or one past the remote timestamp, or one
/// past where it stood; its bound is the latest of these.
pub open spec fn merges(before: ClockService, after: ClockService, remote: Timestamp) -> bool {
    &&& after.node() == before.node()
    &&& after.latest() >= before.latest()
    &&& after.latest() >= remote.time
    &&& after.latest() <= u64::MAX - 15 || after.latest() == remote.time + 1 || after.latest()
        == before.latest() + 1
    &&& after.bound() == bound_after_merge(before.bound(), remote.time)
}

/// What one successful call of `checked_update` does to a clock. Where the
/// merge leaves the bound one short of the end of the range, the clock has
/// issued a timestamp after it: it stands strictly past the remote timestamp
/// and past where it stood, and its bound is exact. Everywhere else the call
/// is a plain merge.
pub open spec fn merges_and_settles(
    before: ClockService,
    after: ClockService,
    remote: Timestamp,
) -> bool {
    if bound_after_merge(before.bound(), remote.time) == u64::MAX - 1 {
        &&& after.node() == before.node()
        &&& after.latest() > before.latest()
        &&& after.latest() > remote.time
        &&& after.bound() == after.latest()
    } else {
        merges(before, after, remote)
    }
}

/// A run of `now` calls on one clock: `states[i]` is the clock before the
/// call that returned `stamps[i]`, and the clock after it is no later than
/// `states[i + 1]`, whatever merges happened in between.
pub open spec fn issued_in_order(states: Seq<ClockService>, stamps: Seq<Timestamp>) -> bool {
    &&& states.len() == stamps.len() + 1
    &&& forall|i: int|
        0 <= i < stamps.len() ==> {
            &&& (#[trigger] stamps[i]).id == states[i].node()
            &&& stamps[i].time > states[i].latest()
            &&& states[i + 1].latest() >= stamps[i].time
            &&& states[i + 1].node() == states[i].node()
        }
}

/// One `now` call is a run of length one.
pub proof fn lemma_issue_is_a_run(before: ClockService, after: ClockService, stamp: Timestamp)
    requires
        issues(before, after, stamp),
    ensures
        issued_in_order(seq![before, after], seq![stamp]),
{
}

/// Clock monotonicity: the timestamps that one clock issues are strictly
/// increasing in call order, and therefore pairwise distinct.
pub proof fn lemma_now_strictly_increasing(
    states: Seq<ClockService>,
    stamps: Seq<Timestamp>,
    i: int,
    j: int,
)
    requires
        issued_in_order(states, stamps),
        0 <= i < j < stamps.len(),
    ensures
        stamps[i].precedes(stamps[j]),
        stamps[i] != stamps[j],
    decreases j - i,
{
    if i + 1 < j {
        lemma_now_strictly_increasing(states, stamps, i, j - 1);
        assert(stamps[j - 1].time <= states[j].latest());
    } else {
        assert(stamps[i].time <= states[i + 1].latest());
    }
}

/// Two calls of `now` on one clock, the second directly after the first:
/// the second timestamp is the later one.
pub proof fn lemma_now_twice(
    first: ClockService,
    second: ClockService,
    third: ClockService,
    earlier: Timestamp,
    later: Timestamp,
)
    requires
        issues(first, second, earlier),
        issues(second, third, later),
    ensures
        earlier.precedes(later),
{
}

/// Merge causality holds of the checked merge too: whichever way it went,
/// the clock has caught up with the remote timestamp and has not moved
/// back, so its next timestamp lies strictly after the remote one.
pub proof fn lemma_now_after_checked_update_exceeds(
    before: ClockService,
    merged: ClockService,
    after: ClockService,
    remote: Timestamp,
    stamp: Timestamp,
)
    requires
        merges_and_settles(before, merged, remote),
        issues(merged, after, stamp),
    ensures
        merged.latest() >= remote.time,
        merged.latest() >= before.latest(),
        remote.precedes(stamp),
        before.last_stamp().precedes(stamp),
{
}

/// Merges alone do not use up the room of a clock: after a checked merge
/// the clock is known to have room for the next call, unless the remote
/// timestamp or the clock itself stands within two units of the end of the
/// 64-bit range.
pub proof fn lemma_checked_update_leaves_room(
    before: ClockService,
    after: ClockService,
    remote: Timestamp,
)
    requires
        before.wf(),
        merges_and_settles(before, after, remote),
        remote.time < u64::MAX - 2,
        after.latest() < u64::MAX - 2,
        before.bound() < u64::MAX - 1,
    ensures
        after.bound() < u64::MAX,
{
}

/// A clock never passes its bound: after a timestamp is issued the bound is
/// exact, and a merge on a clock within its bound leaves it within its
/// bound.
pub proof fn lemma_clock_stays_within_bound(
    before: ClockService,
    after: ClockService,
    stamp: Timestamp,
)
    ensures
        issues(before, after, stamp) ==> after.wf() && after.bound() == after.latest(),
        before.wf() && merges(before, after, stamp) ==> after.wf(),
{
}

/// Merge causality: after a clock has merged a remote timestamp, the next
/// timestamp it issues lies strictly after the remote one.
pub proof fn lemma_now_after_update_exceeds(
    before: ClockService,
    merged: ClockService,
    after: ClockService,
    remote: Timestamp,
    stamp: Timestamp,
)
    requires
        merges(before, merged, remote),
        issues(merged, after, stamp),
    ensures
        remote.precedes(stamp),
        before.last_stamp().precedes(stamp),
{
}

} // verus!
