//! Orders: hall calls and cabin commands, their expiry and the claim that
//! ties a command to one node.

use crate::clock::{issues, ClockError, ClockService};
use crate::timestamp::{ntp_units, Timestamp, MAX_NTP_SECONDS};
use core::time::Duration;
use uuid::Uuid;
use vstd::prelude::*;
use vstd::std_specs::convert::FromSpecImpl;

verus! {

/// Time-to-live of an order that is created without one, in seconds.
pub const ORDER_EXPIRY_SECONDS: u64 = 60;

/// Draws a fresh identifier with `Uuid::new_v4` and hands it back as a
/// number. The value is random: nothing is claimed of it. (`uuid` stops the
/// process if the operating system can give no random bytes.)
#[verifier::external_body]
fn fresh_id() -> (id: u128) {
    Uuid::new_v4().as_u128()
}

/// Direction of travel that a hall call asks for.
#[derive(Debug, Clone, Copy, PartialEq, Eq, Structural)]
pub enum Direction {
    Up,
    Down,
}

/// The instant at which an order created at `created_at` with a time-to-live
/// of `seconds` expires. There is none where the time-to-live is zero, since
/// an order expires strictly after its creation, nor where the instant
/// cannot be represented.
pub open spec fn expiry_of(created_at: Timestamp, seconds: u64) -> Option<Timestamp> {
    if 0 < seconds <= MAX_NTP_SECONDS && created_at.fits(ntp_units(seconds, 0)) {
        Some(created_at.plus_units(ntp_units(seconds, 0)))
    } else {
        None
    }
}

/// Computes `expiry_of`.
fn expiry(created_at: &Timestamp, seconds: u64) -> (expires_at: Option<Timestamp>)
    ensures
        expires_at == expiry_of(*created_at, seconds),
        expires_at matches Some(instant) ==> created_at.precedes(instant),
{
    if seconds == 0 {
        return None;
    }
    proof {
        lemma_expiry_after_creation(*created_at, seconds);
    }
    created_at.checked_add_duration(Duration::from_secs(seconds))
}

/// Something that stops being valid at a fixed instant.
pub trait Expiration {
    /// The instant after which the value counts as expired.
    spec fn expiry(&self) -> Timestamp;

    /// Whether the value has expired at the instant `now`: `now` lies
    /// strictly after the expiry.
    fn is_expired_at(&self, now: &Timestamp) -> (expired: bool)
        ensures
            expired == self.expiry().precedes(*now),
    ;

    /// Whether the value has expired by the node's own clock. The clock is
    /// read at the time of the call, every time: the answer is never kept.
    fn is_expired(&self, clock: &mut ClockService) -> (expired: bool)
        requires
            old(clock).can_tick(),
        ensures
            issues(*old(clock), *final(clock), final(clock).last_stamp()),
            expired == self.expiry().precedes(final(clock).last_stamp()),
    ;
}

/// A hall request: somebody on `target_floor` wants to travel in `direction`.
#[derive(Debug, Clone, Copy, PartialEq, Eq, Structural)]
pub struct Call {
    pub id: u128,
    pub target_floor: u8,
    pub direction: Direction,
    pub created_at: Timestamp,
    pub expires_at: Timestamp,
}

impl Call {
    /// The call with the given identifier and creation time that expires
    /// `expiration_seconds` later; `None` exactly when the time-to-live is
    /// zero or that instant cannot be represented.
    pub fn stamped(
        id: u128,
        target_floor: u8,
        direction: Direction,
        created_at: Timestamp,
        expiration_seconds: u64,
    ) -> (made: Option<Call>)
        ensures
            made == match expiry_of(created_at, expiration_seconds) {
                Some(expires_at) => Some(
                    (Call { id, target_floor, direction, created_at, expires_at }),
                ),
                None => None,
            },
            made is Some ==> expiration_seconds > 0,
            made matches Some(call) ==> call.created_at.precedes(call.expires_at),
    {
        match expiry(&created_at, expiration_seconds) {
            Some(expires_at) => Some(Call { id, target_floor, direction, created_at, expires_at }),
            None => None,
        }
    }

    /// Creates a call stamped by `clock`, with the default time-to-live.
    ///
    /// The clock issues one timestamp, which becomes `created_at`. The call
    /// is refused with `InvalidTimestamp` exactly when its expiry cannot be
    /// represented.
    pub fn new(clock: &mut ClockService, target_floor: u8, direction: Direction) -> (made: Result<
        Call,
        ClockError,
    >)
        requires
            old(clock).can_tick(),
        ensures
            issues(*old(clock), *final(clock), final(clock).last_stamp()),
            made is Ok <==> expiry_of(final(clock).last_stamp(), ORDER_EXPIRY_SECONDS) is Some,
            made matches Ok(order) ==> order.created_at.precedes(order.expires_at),
            made matches Ok(call) ==> Some(call) == Call::stamped_as(
                call.id,
                target_floor,
                direction,
                final(clock).last_stamp(),
                ORDER_EXPIRY_SECONDS,
            ),
            made matches Err(e) ==> e == ClockError::InvalidTimestamp,
    {
        Call::new_with_expiration(clock, target_floor, direction, ORDER_EXPIRY_SECONDS)
    }

    /// Creates a call stamped by `clock` that expires `expiration_seconds`
    /// after its creation.
    ///
    /// The clock issues one timestamp, which becomes `created_at`. The call
    /// is refused with `InvalidTimestamp` exactly when the time-to-live is
    /// zero or its expiry cannot be represented: an order expires strictly
    /// after its creation.
    pub fn new_with_expiration(
        clock: &mut ClockService,
        target_floor: u8,
        direction: Direction,
        expiration_seconds: u64,
    ) -> (made: Result<Call, ClockError>)
        requires
            old(clock).can_tick(),
        ensures
            issues(*old(clock), *final(clock), final(clock).last_stamp()),
            made is Ok <==> expiration_seconds > 0 && expiry_of(
                final(clock).last_stamp(),
                expiration_seconds,
            ) is Some,
            made matches Ok(order) ==> order.created_at.precedes(order.expires_at),
            made matches Ok(call) ==> Some(call) == Call::stamped_as(
                call.id,
                target_floor,
                direction,
                final(clock).last_stamp(),
                expiration_seconds,
            ),
            made matches Err(e) ==> e == ClockError::InvalidTimestamp,
    {
        let created_at = clock.now();
        match Call::stamped(fresh_id(), target_floor, direction, created_at, expiration_seconds) {
            Some(call) => Ok(call),
            None => Err(ClockError::InvalidTimestamp),
        }
    }

    /// What `stamped` returns.
    pub open spec fn stamped_as(
        id: u128,
        target_floor: u8,
        direction: Direction,
        created_at: Timestamp,
        expiration_seconds: u64,
    ) -> Option<Call> {
        match expiry_of(created_at, expiration_seconds) {
            Some(expires_at) => Some(Call { id, target_floor, direction, created_at, expires_at }),
            None => None,
        }
    }
}

impl Expiration for Call {
    open spec fn expiry(&self) -> Timestamp {
        self.expires_at
    }

    fn is_expired_at(&self, now: &Timestamp) -> (expired: bool) {
        now.is_after(&self.expires_at)
    }

    fn is_expired(&self, clock: &mut ClockService) -> (expired: bool) {
        let now = clock.now();
        now.is_after(&self.expires_at)
    }
}

/// A cabin request: somebody inside the cabin wants to reach `target_floor`.
///
/// A command is either unclaimed or claimed by one node: `claimed_by` and
/// `claimed_at` are set together and cleared together.
#[derive(Debug, Clone, Copy, PartialEq, Eq)]
pub struct Command {
    pub id: u128,
    pub target_floor: u8,
    pub created_at: Timestamp,
    pub expires_at: Timestamp,
    pub claimed_by: Option<u128>,
    pub claimed_at: Option<Timestamp>,
}

impl Command {
    /// The claim fields agree: both present or both absent.
    pub open spec fn claim_consistent(&self) -> bool {
        self.claimed_by is Some <==> self.claimed_at is Some
    }

    /// The command as it is once `node` has claimed it at the instant `at`.
    pub open spec fn claimed(self, node: u128, at: Timestamp) -> Command {
        Command { claimed_by: Some(node), claimed_at: Some(at), ..self }
    }

    /// The command as it is once its claim has been released.
    pub open spec fn released(self) -> Command {
        Command { claimed_by: None, claimed_at: None, ..self }
    }

    /// What `stamped` returns.
    pub open spec fn stamped_as(
        id: u128,
        target_floor: u8,
        created_at: Timestamp,
        expiration_seconds: u64,
    ) -> Option<Command> {
        match expiry_of(created_at, expiration_seconds) {
            Some(expires_at) => Some(
                Command {
                    id,
                    target_floor,
                    created_at,
                    expires_at,
                    claimed_by: None,
                    claimed_at: None,
                },
            ),
            None => None,
        }
    }

    /// The unclaimed command with the given identifier and creation time that
    /// expires `expiration_seconds` later; `None` exactly when the
    /// time-to-live is zero or that instant cannot be represented.
    pub fn stamped(id: u128, target_floor: u8, created_at: Timestamp, expiration_seconds: u64) -> (made:
        Option<Command>)
        ensures
            made == Command::stamped_as(id, target_floor, created_at, expiration_seconds),
            made is Some ==> expiration_seconds > 0,
            made matches Some(command) ==> command.created_at.precedes(command.expires_at),
    {
        match expiry(&created_at, expiration_seconds) {
            Some(expires_at) => Some(
                Command {
                    id,
                    target_floor,
                    created_at,
                    expires_at,
                    claimed_by: None,
                    claimed_at: None,
                },
            ),
            None => None,
        }
    }

    /// Creates an unclaimed command stamped by `clock`, with the default
    /// time-to-live.
    ///
    /// The clock issues one timestamp, which becomes `created_at`. The
    /// command is refused with `InvalidTimestamp` exactly when its expiry
    /// cannot be represented.
    pub fn new(clock: &mut ClockService, target_floor: u8) -> (made: Result<Command, ClockError>)
        requires
            old(clock).can_tick(),
        ensures
            issues(*old(clock), *final(clock), final(clock).last_stamp()),
            made is Ok <==> expiry_of(final(clock).last_stamp(), ORDER_EXPIRY_SECONDS) is Some,
            made matches Ok(order) ==> order.created_at.precedes(order.expires_at),
            made matches Ok(command) ==> Some(command) == Command::stamped_as(
                command.id,
                target_floor,
                final(clock).last_stamp(),
                ORDER_EXPIRY_SECONDS,
            ),
            made matches Err(e) ==> e == ClockError::InvalidTimestamp,
    {
        Command::new_with_expiration(clock, target_floor, ORDER_EXPIRY_SECONDS)
    }

    /// Creates an unclaimed command stamped by `clock` that expires
    /// `expiration_seconds` after its creation.
    ///
    /// The clock issues one timestamp, which becomes `created_at`. The
    /// command is refused with `InvalidTimestamp` exactly when the
    /// time-to-live is zero or its expiry cannot be represented: an order
    /// expires strictly after its creation.
    pub fn new_with_expiration(
        clock: &mut ClockService,
        target_floor: u8,
        expiration_seconds: u64,
    ) -> (made: Result<Command, ClockError>)
        requires
            old(clock).can_tick(),
        ensures
            issues(*old(clock), *final(clock), final(clock).last_stamp()),
            made is Ok <==> expiration_seconds > 0 && expiry_of(
                final(clock).last_stamp(),
                expiration_seconds,
            ) is Some,
            made matches Ok(order) ==> order.created_at.precedes(order.expires_at),
            made matches Ok(command) ==> Some(command) == Command::stamped_as(
                command.id,
                target_floor,
                final(clock).last_stamp(),
                expiration_seconds,
            ),
            made matches Err(e) ==> e == ClockError::InvalidTimestamp,
    {
        let created_at = clock.now();
        match Command::stamped(fresh_id(), target_floor, created_at, expiration_seconds) {
            Some(command) => Ok(command),
            None => Err(ClockError::InvalidTimestamp),
        }
    }

    /// Claims the command for the node `elevator_id`, at the instant that
    /// `clock` issues. Whatever claim was there is overwritten.
    pub fn claim(&mut self, clock: &mut ClockService, elevator_id: u128)
        requires
            old(clock).can_tick(),
        ensures
            issues(*old(clock), *final(clock), final(clock).last_stamp()),
            *final(self) == old(self).claimed(elevator_id, final(clock).last_stamp()),
    {
        let at = clock.now();
        self.claim_at(elevator_id, at);
    }

    /// Claims the command for the node `elevator_id` at the instant `at`.
    /// Whatever claim was there is overwritten.
    pub fn claim_at(&mut self, elevator_id: u128, at: Timestamp)
        ensures
            *final(self) == old(self).claimed(elevator_id, at),
    {
        self.claimed_by = Some(elevator_id);
        self.claimed_at = Some(at);
    }

    /// Releases the claim on the command, whether or not there was one.
    pub fn release_claim(&mut self)
        ensures
            *final(self) == old(self).released(),
    {
        self.claimed_by = None;
        self.claimed_at = None;
    }

    /// Whether a node has claimed the command.
    pub fn is_claimed(&self) -> (claimed: bool)
        ensures
            claimed == (self.claimed_by is Some),
    {
        self.claimed_by.is_some()
    }
}

impl Expiration for Command {
    open spec fn expiry(&self) -> Timestamp {
        self.expires_at
    }

    fn is_expired_at(&self, now: &Timestamp) -> (expired: bool) {
        now.is_after(&self.expires_at)
    }

    fn is_expired(&self, clock: &mut ClockService) -> (expired: bool) {
        let now = clock.now();
        now.is_after(&self.expires_at)
    }
}

/// An order of either kind.
#[derive(Debug, Clone, Copy, PartialEq, Eq)]
pub enum Order {
    Call(Call),
    Command(Command),
}

impl Order {
    pub open spec fn spec_id(&self) -> u128 {
        match *self {
            Order::Call(call) => call.id,
            Order::Command(command) => command.id,
        }
    }

    pub open spec fn spec_target_floor(&self) -> u8 {
        match *self {
            Order::Call(call) => call.target_floor,
            Order::Command(command) => command.target_floor,
        }
    }

    pub open spec fn spec_created_at(&self) -> Timestamp {
        match *self {
            Order::Call(call) => call.created_at,
            Order::Command(command) => command.created_at,
        }
    }

    pub open spec fn spec_expires_at(&self) -> Timestamp {
        match *self {
            Order::Call(call) => call.expires_at,
            Order::Command(command) => command.expires_at,
        }
    }

    pub open spec fn spec_direction(&self) -> Option<Direction> {
        match *self {
            Order::Call(call) => Some(call.direction),
            Order::Command(_) => None,
        }
    }

    pub open spec fn spec_is_call(&self) -> bool {
        *self is Call
    }

    pub open spec fn spec_is_command(&self) -> bool {
        *self is Command
    }

    /// The identifier of the order.
    #[verifier::when_used_as_spec(spec_id)]
    pub fn id(&self) -> (id: u128)
        ensures
            id == self.spec_id(),
    {
        match self {
            Order::Call(call) => call.id,
            Order::Command(command) => command.id,
        }
    }

    /// The floor that the order asks for.
    #[verifier::when_used_as_spec(spec_target_floor)]
    pub fn target_floor(&self) -> (floor: u8)
        ensures
            floor == self.spec_target_floor(),
    {
        match self {
            Order::Call(call) => call.target_floor,
            Order::Command(command) => command.target_floor,
        }
    }

    /// The instant at which the order was created.
    #[verifier::when_used_as_spec(spec_created_at)]
    pub fn created_at(&self) -> (stamp: Timestamp)
        ensures
            stamp == self.spec_created_at(),
    {
        match self {
            Order::Call(call) => call.created_at,
            Order::Command(command) => command.created_at,
        }
    }

    /// The instant after which the order counts as expired.
    #[verifier::when_used_as_spec(spec_expires_at)]
    pub fn expires_at(&self) -> (stamp: Timestamp)
        ensures
            stamp == self.spec_expires_at(),
    {
        match self {
            Order::Call(call) => call.expires_at,
            Order::Command(command) => command.expires_at,
        }
    }

    /// The direction of a call; a command has none.
    #[verifier::when_used_as_spec(spec_direction)]
    pub fn direction(&self) -> (direction: Option<Direction>)
        ensures
            direction == self.spec_direction(),
    {
        match self {
            Order::Call(call) => Some(call.direction),
            Order::Command(_) => None,
        }
    }

    /// Whether the order is a hall call.
    #[verifier::when_used_as_spec(spec_is_call)]
    pub fn is_call(&self) -> (call: bool)
        ensures
            call == self.spec_is_call(),
    {
        match self {
            Order::Call(_) => true,
            Order::Command(_) => false,
        }
    }

    /// Whether the order is a cabin command.
    #[verifier::when_used_as_spec(spec_is_command)]
    pub fn is_command(&self) -> (command: bool)
        ensures
            command == self.spec_is_command(),
    {
        match self {
            Order::Call(_) => false,
            Order::Command(_) => true,
        }
    }
}

impl Expiration for Order {
    open spec fn expiry(&self) -> Timestamp {
        self.spec_expires_at()
    }

    fn is_expired_at(&self, now: &Timestamp) -> (expired: bool) {
        match self {
            Order::Call(call) => call.is_expired_at(now),
            Order::Command(command) => command.is_expired_at(now),
        }
    }

    fn is_expired(&self, clock: &mut ClockService) -> (expired: bool) {
        match self {
            Order::Call(call) => call.is_expired(clock),
            Order::Command(command) => command.is_expired(clock),
        }
    }
}

impl From<Call> for Order {
    fn from(call: Call) -> (order: Order) {
        Order::Call(call)
    }
}

impl FromSpecImpl<Call> for Order {
    open spec fn obeys_from_spec() -> bool {
        true
    }

    open spec fn from_spec(call: Call) -> Order {
        Order::Call(call)
    }
}

impl From<Command> for Order {
    fn from(command: Command) -> (order: Order) {
        Order::Command(command)
    }
}

impl FromSpecImpl<Command> for Order {
    open spec fn obeys_from_spec() -> bool {
        true
    }

    open spec fn from_spec(command: Command) -> Order {
        Order::Command(command)
    }
}

/// An order outlives its creation: wherever it has an expiry, its
/// time-to-live is at least one second and the expiry lies strictly after
/// the creation time.
pub proof fn lemma_expiry_after_creation(created_at: Timestamp, seconds: u64)
    ensures
        expiry_of(created_at, seconds) matches Some(expires_at) ==> seconds > 0
            && created_at.precedes(expires_at),
{
    if seconds > 0 {
        assert(ntp_units(seconds, 0) >= 0x1_0000_0000) by (nonlinear_arith)
            requires
                seconds >= 1,
                ntp_units(seconds, 0) == seconds * 0x1_0000_0000 + (0 * 0x1_0000_0000)
                    / 1_000_000_000,
        ;
    }
}

/// Expiry of a call made with the default time-to-live, seen by the clock
/// that stamped it: the call is not expired at any instant up to sixty
/// seconds after its creation, and is expired at every later instant.
pub proof fn lemma_default_expiry_boundary(call: Call, now: Timestamp)
    requires
        Some(call.expires_at) == expiry_of(call.created_at, ORDER_EXPIRY_SECONDS),
        now.id == call.created_at.id,
    ensures
        call.expiry().precedes(now) <==> now.time > call.created_at.time + 60 * 0x1_0000_0000,
        !call.expiry().precedes(call.created_at),
{
}

/// Claim round-trip: releasing after claiming leaves both claim fields
/// absent, and gives back the very command that was there if that one was
/// unclaimed.
pub proof fn lemma_claim_then_release(command: Command, node: u128, at: Timestamp)
    ensures
        command.claimed(node, at).released().claimed_by is None,
        command.claimed(node, at).released().claimed_at is None,
        command.claimed(node, at).released() == command.released(),
        command.claimed_by is None && command.claimed_at is None ==> command.claimed(
            node,
            at,
        ).released() == command,
        command.claimed(node, at).claim_consistent(),
        command.released().claim_consistent(),
{
}

} // verus!
