//! The decisions of the hardware polling loop: which of the readings taken
//! from the elevator are news.
//!
//! The loop itself, which reads buttons and sensors and drives motor and
//! lights, lives outside this library. It hands every reading to
//! [`DriverState::step`] and passes on what that returns. A reading is
//! reported only when it changes what the driver knew: holding a button
//! down, or standing at a floor, is reported once.

use vstd::prelude::*;

verus! {

/// Number of kinds of call button on a floor.
pub const NUM_CALL_VARIANTS: usize = 3;

/// The hall button for travelling up, in this module's own numbering of the
/// kinds of button. Whoever drives the hardware maps its numbers to these.
pub const HALL_UP: u8 = 0;

/// The hall button for travelling down.
pub const HALL_DOWN: u8 = 1;

/// The button inside the cabin.
pub const CAB: u8 = 2;

/// The floor that the driver records before the sensor has seen any.
pub const UNKNOWN_FLOOR: u8 = 255;

/// Something the polling loop has read or been told.
#[derive(Debug, Clone, Copy, PartialEq, Eq)]
pub enum Input {
    /// The state of the stop button.
    StopButton(bool),
    /// The state of the obstruction switch.
    Obstruction(bool),
    /// The floor at which the cabin stands, if it stands at one.
    FloorSensor(Option<u8>),
    /// The state of one call button.
    CallButton { floor: u8, call: u8, pressed: bool },
    /// The order to switch the light of one call button.
    ButtonLight { floor: u8, call: u8, lit: bool },
}

/// What the polling loop has to pass on after an input.
#[derive(Debug, Clone, Copy, PartialEq, Eq)]
pub enum Output {
    /// Nothing is new.
    Nothing,
    /// The stop button has changed to this state.
    EmergencyHalt(bool),
    /// The obstruction switch has changed to this state.
    Obstruction(bool),
    /// The cabin has arrived at this floor.
    Floor(u8),
    /// This call button has been pressed and is not yet being served.
    Request { floor: u8, call: u8 },
}

/// What the driver knows, as plain values. `requests` holds one flag for
/// each call button, floor by floor: whether its request is pending.
pub struct DriverView {
    pub num_floors: u8,
    pub current_floor: u8,
    pub is_halted: bool,
    pub is_obstructed: bool,
    pub requests: Seq<bool>,
}

/// The place of a call button's flag among the request flags.
pub open spec fn slot(floor: u8, call: u8) -> int {
    floor * 3 + call
}

impl Input {
    /// Whether the input names a call button that an elevator with
    /// `num_floors` floors has. Inputs that name no button always do.
    pub open spec fn fits(self, num_floors: u8) -> bool {
        match self {
            Input::CallButton { floor, call, .. } => floor < num_floors && call < 3,
            Input::ButtonLight { floor, call, .. } => floor < num_floors && call < 3,
            _ => true,
        }
    }
}

impl DriverView {
    /// Whether the request of a call button is pending.
    pub open spec fn pending(self, floor: u8, call: u8) -> bool {
        self.requests[slot(floor, call)]
    }

    /// The flags are one for each call button of each floor.
    pub open spec fn wf(self) -> bool {
        self.requests.len() == self.num_floors * 3
    }

    /// What the driver knows after an input.
    pub open spec fn next(self, input: Input) -> DriverView {
        match input {
            Input::StopButton(pressed) => DriverView { is_halted: pressed, ..self },
            Input::Obstruction(blocked) => DriverView { is_obstructed: blocked, ..self },
            Input::FloorSensor(Some(floor)) => DriverView { current_floor: floor, ..self },
            Input::FloorSensor(None) => self,
            Input::CallButton { floor, call, pressed } => if pressed {
                DriverView { requests: self.requests.update(slot(floor, call), true), ..self }
            } else {
                self
            },
            Input::ButtonLight { floor, call, lit } => DriverView {
                requests: self.requests.update(slot(floor, call), lit),
                ..self
            },
        }
    }

    /// What the driver reports on an input: the reading, where it differs
    /// from what the driver knew.
    pub open spec fn report(self, input: Input) -> Output {
        match input {
            Input::StopButton(pressed) => if pressed != self.is_halted {
                Output::EmergencyHalt(pressed)
            } else {
                Output::Nothing
            },
            Input::Obstruction(blocked) => if blocked != self.is_obstructed {
                Output::Obstruction(blocked)
            } else {
                Output::Nothing
            },
            Input::FloorSensor(Some(floor)) => if floor != self.current_floor {
                Output::Floor(floor)
            } else {
                Output::Nothing
            },
            Input::FloorSensor(None) => Output::Nothing,
            Input::CallButton { floor, call, pressed } => if pressed && !self.pending(floor, call) {
                Output::Request { floor, call }
            } else {
                Output::Nothing
            },
            Input::ButtonLight { .. } => Output::Nothing,
        }
    }
}

/// What the hardware driver remembers between two polls.
pub struct DriverState {
    num_floors: u8,
    current_floor: u8,
    is_halted: bool,
    is_obstructed: bool,
    requests: Vec<bool>,
}

impl View for DriverState {
    type V = DriverView;

    closed spec fn view(&self) -> DriverView {
        DriverView {
            num_floors: self.num_floors,
            current_floor: self.current_floor,
            is_halted: self.is_halted,
            is_obstructed: self.is_obstructed,
            requests: self.requests@,
        }
    }
}

impl DriverState {
    /// The driver of an elevator with `num_floors` floors before its first
    /// poll: floor unknown, nothing pressed, nothing pending.
    pub fn new(num_floors: u8) -> (state: DriverState)
        ensures
            state@.wf(),
            state@.num_floors == num_floors,
            state@.current_floor == UNKNOWN_FLOOR,
            !state@.is_halted,
            !state@.is_obstructed,
            forall|i: int| 0 <= i < state@.requests.len() ==> !state@.requests[i],
    {
        let mut requests: Vec<bool> = Vec::new();
        let mut floor: u8 = 0;
        while floor < num_floors
            invariant
                0 <= floor <= num_floors,
                requests@.len() == floor * 3,
                forall|i: int| 0 <= i < requests@.len() ==> !requests@[i],
            decreases num_floors - floor,
        {
            requests.push(false);
            requests.push(false);
            requests.push(false);
            floor += 1;
        }
        DriverState {
            num_floors,
            current_floor: UNKNOWN_FLOOR,
            is_halted: false,
            is_obstructed: false,
            requests,
        }
    }

    /// The number of floors.
    pub fn num_floors(&self) -> (floors: u8)
        ensures
            floors == self@.num_floors,
    {
        self.num_floors
    }

    /// The floor at which the cabin was last seen.
    pub fn current_floor(&self) -> (floor: u8)
        ensures
            floor == self@.current_floor,
    {
        self.current_floor
    }

    /// Whether the request of a call button is pending, so that the button
    /// need not be read.
    pub fn is_pending(&self, floor: u8, call: u8) -> (pending: bool)
        requires
            self@.wf(),
            floor < self@.num_floors,
            call < 3,
        ensures
            pending == self@.pending(floor, call),
    {
        self.requests[floor as usize * NUM_CALL_VARIANTS + call as usize]
    }

    /// Takes one input, remembers it and says what is new in it.
    pub fn step(&mut self, input: Input) -> (output: Output)
        requires
            old(self)@.wf(),
            input.fits(old(self)@.num_floors),
        ensures
            final(self)@.wf(),
            final(self)@ == old(self)@.next(input),
            output == old(self)@.report(input),
    {
        match input {
            Input::StopButton(pressed) => {
                if pressed != self.is_halted {
                    self.is_halted = pressed;
                    Output::EmergencyHalt(pressed)
                } else {
                    Output::Nothing
                }
            },
            Input::Obstruction(blocked) => {
                if blocked != self.is_obstructed {
                    self.is_obstructed = blocked;
                    Output::Obstruction(blocked)
                } else {
                    Output::Nothing
                }
            },
            Input::FloorSensor(Some(floor)) => {
                if floor != self.current_floor {
                    self.current_floor = floor;
                    Output::Floor(floor)
                } else {
                    Output::Nothing
                }
            },
            Input::FloorSensor(None) => Output::Nothing,
            Input::CallButton { floor, call, pressed } => {
                let at: usize = floor as usize * NUM_CALL_VARIANTS + call as usize;
                if pressed && !self.requests[at] {
                    self.requests.set(at, true);
                    Output::Request { floor, call }
                } else {
                    assert(self.requests@ =~= old(self).requests@.update(at as int, true)
                        || !pressed);
                    Output::Nothing
                }
            },
            Input::ButtonLight { floor, call, lit } => {
                let at: usize = floor as usize * NUM_CALL_VARIANTS + call as usize;
                self.requests.set(at, lit);
                Output::Nothing
            },
        }
    }
}

/// Reports are edge-triggered: an input that is repeated at once changes
/// nothing and reports nothing.
pub proof fn lemma_repeated_input_is_silent(state: DriverView, input: Input)
    requires
        state.wf(),
        input.fits(state.num_floors),
    ensures
        state.next(input).wf(),
        state.next(input).report(input) == Output::Nothing,
        state.next(input).next(input) == state.next(input),
{
    match input {
        Input::CallButton { floor, call, pressed } => {
            assert(state.next(input).next(input).requests =~= state.next(input).requests);
        },
        Input::ButtonLight { floor, call, lit } => {
            assert(state.next(input).next(input).requests =~= state.next(input).requests);
        },
        _ => {},
    }
}

/// A pressed button is reported exactly when its request is not pending,
/// and is pending afterwards; switching its light off makes the next press
/// news again.
pub proof fn lemma_light_off_rearms_button(state: DriverView, floor: u8, call: u8)
    requires
        state.wf(),
        floor < state.num_floors,
        call < 3,
    ensures
        state.next(Input::CallButton { floor, call, pressed: true }).pending(floor, call),
        state.next(Input::ButtonLight { floor, call, lit: false }).report(
            Input::CallButton { floor, call, pressed: true },
        ) == (Output::Request { floor, call }),
        state.next(Input::ButtonLight { floor, call, lit: true }).report(
            Input::CallButton { floor, call, pressed: true },
        ) == Output::Nothing,
{
}

/// An input about one call button leaves the requests of all the others as
/// they were.
pub proof fn lemma_other_buttons_untouched(
    state: DriverView,
    input: Input,
    floor: u8,
    call: u8,
)
    requires
        state.wf(),
        input.fits(state.num_floors),
        floor < state.num_floors,
        call < 3,
        match input {
            Input::CallButton { floor: f, call: c, .. } => f != floor || c != call,
            Input::ButtonLight { floor: f, call: c, .. } => f != floor || c != call,
            _ => true,
        },
    ensures
        state.next(input).pending(floor, call) == state.pending(floor, call),
{
}

} // verus!
