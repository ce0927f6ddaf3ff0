use elevator_orders::elevator::hardware::{
    DriverState, Input, Output, CAB, HALL_DOWN, HALL_UP, NUM_CALL_VARIANTS, UNKNOWN_FLOOR,
};

#[test]
fn test_new_driver_knows_nothing() {
    let state = DriverState::new(4);
    assert_eq!(state.num_floors(), 4);
    assert_eq!(state.current_floor(), UNKNOWN_FLOOR);
    assert_eq!(state.current_floor(), u8::MAX);
    assert_eq!(NUM_CALL_VARIANTS, 3);
    for floor in 0..4 {
        assert!(!state.is_pending(floor, HALL_UP));
        assert!(!state.is_pending(floor, HALL_DOWN));
        assert!(!state.is_pending(floor, CAB));
    }
}

#[test]
fn test_stop_button_reported_on_change_only() {
    let mut state = DriverState::new(4);
    assert_eq!(state.step(Input::StopButton(false)), Output::Nothing);
    assert_eq!(state.step(Input::StopButton(true)), Output::EmergencyHalt(true));
    assert_eq!(state.step(Input::StopButton(true)), Output::Nothing);
    assert_eq!(state.step(Input::StopButton(false)), Output::EmergencyHalt(false));
    assert_eq!(state.step(Input::StopButton(false)), Output::Nothing);
}

#[test]
fn test_obstruction_reported_on_change_only() {
    let mut state = DriverState::new(4);
    assert_eq!(state.step(Input::Obstruction(true)), Output::Obstruction(true));
    assert_eq!(state.step(Input::Obstruction(true)), Output::Nothing);
    assert_eq!(state.step(Input::Obstruction(false)), Output::Obstruction(false));
    assert_eq!(state.step(Input::Obstruction(false)), Output::Nothing);
}

#[test]
fn test_floor_reported_on_arrival_only() {
    let mut state = DriverState::new(4);
    assert_eq!(state.step(Input::FloorSensor(None)), Output::Nothing);
    assert_eq!(state.current_floor(), UNKNOWN_FLOOR);
    assert_eq!(state.step(Input::FloorSensor(Some(2))), Output::Floor(2));
    assert_eq!(state.current_floor(), 2);
    assert_eq!(state.step(Input::FloorSensor(Some(2))), Output::Nothing);
    assert_eq!(state.step(Input::FloorSensor(None)), Output::Nothing);
    assert_eq!(state.current_floor(), 2);
    assert_eq!(state.step(Input::FloorSensor(Some(3))), Output::Floor(3));
    assert_eq!(state.current_floor(), 3);
}

#[test]
fn test_button_latches_until_light_goes_off() {
    let mut state = DriverState::new(4);
    let press = Input::CallButton { floor: 1, call: CAB, pressed: true };
    let idle = Input::CallButton { floor: 1, call: CAB, pressed: false };

    assert_eq!(state.step(idle), Output::Nothing);
    assert!(!state.is_pending(1, CAB));
    assert_eq!(state.step(press), Output::Request { floor: 1, call: CAB });
    assert!(state.is_pending(1, CAB));
    assert_eq!(state.step(press), Output::Nothing);
    assert_eq!(state.step(idle), Output::Nothing);
    assert!(state.is_pending(1, CAB));

    // other buttons are not touched
    assert!(!state.is_pending(1, HALL_UP));
    assert!(!state.is_pending(1, HALL_DOWN));
    assert!(!state.is_pending(0, CAB));
    assert!(!state.is_pending(2, CAB));

    assert_eq!(
        state.step(Input::ButtonLight { floor: 1, call: CAB, lit: false }),
        Output::Nothing
    );
    assert!(!state.is_pending(1, CAB));
    assert_eq!(state.step(press), Output::Request { floor: 1, call: CAB });
}

#[test]
fn test_light_on_marks_request_as_pending() {
    let mut state = DriverState::new(3);
    assert_eq!(
        state.step(Input::ButtonLight { floor: 2, call: HALL_DOWN, lit: true }),
        Output::Nothing
    );
    assert!(state.is_pending(2, HALL_DOWN));
    assert_eq!(
        state.step(Input::CallButton { floor: 2, call: HALL_DOWN, pressed: true }),
        Output::Nothing
    );
    assert_eq!(
        state.step(Input::CallButton { floor: 2, call: HALL_UP, pressed: true }),
        Output::Request { floor: 2, call: HALL_UP }
    );
    assert_eq!(
        state.step(Input::CallButton { floor: 0, call: HALL_UP, pressed: true }),
        Output::Request { floor: 0, call: HALL_UP }
    );
}
