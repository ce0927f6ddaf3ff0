use elevator_orders::clock::{
    current_timestamp, get_clock, get_clock_id, get_clock_mut, init_clock,
    init_clock_with_random_id, update_clock_with_timestamp, ClockError, ClockService, GlobalClock,
};
use elevator_orders::timestamp::{Timestamp, TimestampExt};
use std::time::Duration;

#[test]
fn test_global_clock_monotonic() {
    // the identity whose first byte is 0x42
    let mut global = GlobalClock::new();
    init_clock(&mut global, 0x42u128 << 120).unwrap();
    assert_eq!(get_clock_id(&global), 0x42u128 << 120);

    let mut all_timestamps = Vec::new();
    for round in 0..4 {
        let mut timestamps = Vec::new();
        for _ in 0..1000 {
            timestamps.push(current_timestamp(&mut global));
        }
        for window in timestamps.windows(2) {
            assert!(window[1] > window[0], "Timestamps not monotonic in round {}", round);
            assert!(window[1].is_after(&window[0]));
        }
        all_timestamps.extend(timestamps);
    }

    for window in all_timestamps.windows(2) {
        assert!(window[1] > window[0]);
    }
    all_timestamps.sort();
    let count_before = all_timestamps.len();
    all_timestamps.dedup();
    assert_eq!(count_before, all_timestamps.len(), "Found duplicate timestamps");
}

#[test]
fn test_init_clock_only_once() {
    let mut global = GlobalClock::new();
    assert!(!global.initialized());
    assert_eq!(init_clock(&mut global, 7), Ok(()));
    assert!(global.initialized());
    assert_eq!(get_clock_id(&global), 7);

    assert_eq!(init_clock(&mut global, 9), Err(ClockError::AlreadyInitialized));
    assert_eq!(init_clock_with_random_id(&mut global), Err(ClockError::AlreadyInitialized));
    assert_eq!(get_clock_id(&global), 7);
    assert_eq!(get_clock(&global).identity(), 7);
}

#[test]
fn test_init_clock_with_random_id_once() {
    let mut global = GlobalClock::new();
    assert_eq!(init_clock_with_random_id(&mut global), Ok(()));
    let id = get_clock_id(&global);
    assert_ne!(id, 0);
    assert_eq!(init_clock_with_random_id(&mut global), Err(ClockError::AlreadyInitialized));
    assert_eq!(init_clock(&mut global, 5), Err(ClockError::AlreadyInitialized));
    assert_eq!(get_clock_id(&global), id);
}

#[test]
fn test_init_clock_refuses_zero_identity() {
    let mut global = GlobalClock::new();
    assert_eq!(init_clock(&mut global, 0), Err(ClockError::InvalidIdentity));
    assert!(!global.initialized());
    assert_eq!(init_clock(&mut global, 1), Ok(()));
    assert!(matches!(ClockService::with_identity(0), Err(ClockError::InvalidIdentity)));
}

#[test]
fn test_clock_stamps_carry_its_identity() {
    let identity: u128 = 0x0102_0304_0506_0708_090a_0b0c_0d0e_0f10;
    let mut clock = ClockService::with_identity(identity).unwrap();
    assert_eq!(clock.identity(), identity);
    let first = clock.now();
    let second = clock.now();
    assert_eq!(first.id, identity);
    assert_eq!(second.id, identity);
    assert!(first.time > 0);
    assert!(second.time > first.time);
}

#[test]
fn test_random_identities_differ() {
    let a = ClockService::with_random_identity();
    let b = ClockService::with_random_identity();
    assert_ne!(a.identity(), 0);
    assert_ne!(a.identity(), b.identity());
}

#[test]
fn test_update_then_now_exceeds_remote() {
    let mut clock = ClockService::with_identity(1).unwrap();
    let local = clock.now();
    // a quarter of a second ahead of the local clock, from a node with a larger identity
    let remote = Timestamp { time: local.time + (1u64 << 30), id: u128::MAX };
    assert!(remote > local);
    assert_eq!(clock.update(&remote), Ok(()));
    let next = clock.now();
    assert!(next.is_after(&remote));
    assert!(next > remote);
    assert!(next.time > remote.time);
    assert_eq!(next.id, 1);
}

#[test]
fn test_update_with_old_timestamp_keeps_clock_moving() {
    let mut clock = ClockService::with_identity(3).unwrap();
    let first = clock.now();
    let stale = Timestamp { time: 16, id: 9 };
    assert_eq!(clock.update(&stale), Ok(()));
    let second = clock.now();
    assert!(second > first);
    assert!(second > stale);
}

#[test]
fn test_update_refuses_what_cannot_be_merged() {
    let mut global = GlobalClock::new();
    init_clock(&mut global, 2).unwrap();
    let local = current_timestamp(&mut global);

    let far_ahead = Timestamp { time: local.time + (10u64 << 32), id: 5 };
    assert_eq!(
        update_clock_with_timestamp(&mut global, &far_ahead),
        Err(ClockError::InvalidTimestamp)
    );
    let at_the_end = Timestamp { time: u64::MAX, id: 5 };
    assert_eq!(
        update_clock_with_timestamp(&mut global, &at_the_end),
        Err(ClockError::InvalidTimestamp)
    );
    let nobody = Timestamp { time: local.time, id: 0 };
    assert_eq!(
        update_clock_with_timestamp(&mut global, &nobody),
        Err(ClockError::InvalidTimestamp)
    );

    // the refusals left the clock where it was: it goes on from its own last value
    let next = current_timestamp(&mut global);
    assert!(next > local);
    assert!(next.time < far_ahead.time);
}

#[test]
fn test_clock_error_messages() {
    assert_eq!(ClockError::AlreadyInitialized.message(), "Clock already initialized");
    assert_eq!(ClockError::InvalidTimestamp.message(), "Timestamp cannot be represented");
    assert_eq!(ClockError::InvalidIdentity.message(), "Node identity must not be zero");
}

#[test]
fn test_timestamp_order_is_time_then_identity() {
    let a = Timestamp::new(10, 5);
    let b = Timestamp::new(10, 6);
    let c = Timestamp::new(11, 0);
    assert_eq!(a.get_time(), 10);
    assert_eq!(a.get_id(), 5);
    assert!(a.is_before(&b));
    assert!(b.is_before(&c));
    assert!(a.is_before(&c));
    assert!(c.is_after(&a));
    assert!(!a.is_before(&a));
    assert!(!a.is_after(&a));
    assert!(!b.is_before(&a));
    assert!(a < b && b < c);
    assert_eq!(a, Timestamp { time: 10, id: 5 });
}

#[test]
fn test_add_millis_exact() {
    let start = Timestamp::new(0, 7);
    // one and a half seconds: 2^32 + 2^31 units
    assert_eq!(start.add_millis(1500), Timestamp::new(6_442_450_944, 7));
    assert_eq!(start.add_millis(0), start);
    let later = Timestamp::new(100, 7).add_millis(1000);
    assert_eq!(later, Timestamp::new(100 + (1u64 << 32), 7));
}

#[test]
fn test_add_duration_exact() {
    let start = Timestamp::new(5, 9);
    // two and a quarter seconds: 2 * 2^32 + 2^30 units
    let later = start.add_duration(Duration::new(2, 250_000_000));
    assert_eq!(later, Timestamp::new(5 + 9_663_676_416, 9));
    assert_eq!(start.add_duration(Duration::from_secs(60)).time, 5 + (60u64 << 32));
    // one nanosecond is four units, rounded down
    assert_eq!(start.add_duration(Duration::new(0, 1)).time, 5 + 4);
}

#[test]
fn test_checked_add_duration() {
    let start = Timestamp::new(1u64 << 32, 1);
    assert_eq!(
        start.checked_add_duration(Duration::from_secs(1)),
        Some(Timestamp::new(2u64 << 32, 1))
    );
    // the largest span of whole seconds fits only from zero
    let longest = Duration::from_secs(0xFFFF_FFFF);
    assert_eq!(start.checked_add_duration(longest), None);
    assert_eq!(
        Timestamp::new(0, 1).checked_add_duration(longest),
        Some(Timestamp::new(0xFFFF_FFFFu64 << 32, 1))
    );
    // more seconds than the upper half of a clock value holds
    assert_eq!(Timestamp::new(0, 1).checked_add_duration(Duration::from_secs(1 << 32)), None);
    assert_eq!(Timestamp::new(u64::MAX, 1).checked_add_duration(Duration::new(0, 1)), None);
    assert_eq!(
        Timestamp::new(u64::MAX, 1).checked_add_duration(Duration::from_secs(0)),
        Some(Timestamp::new(u64::MAX, 1))
    );
}

#[test]
fn test_timestamp_components() {
    let stamp = Timestamp::new(0x1234_5678_9ABC_DEF7, 3);
    assert_eq!(stamp.physical_time(), 0x1234_5678_9ABC_DEF0);
    assert_eq!(stamp.logical_counter(), 7);
    assert_eq!(stamp.physical_time() + stamp.logical_counter(), stamp.time);

    assert_eq!(Timestamp::new(0, 3).physical_time(), 0);
    assert_eq!(Timestamp::new(0, 3).logical_counter(), 0);
    assert_eq!(Timestamp::new(u64::MAX, 3).physical_time(), u64::MAX - 15);
    assert_eq!(Timestamp::new(u64::MAX, 3).logical_counter(), 15);
    assert_eq!(Timestamp::new(16, 3).physical_time(), 16);
    assert_eq!(Timestamp::new(16, 3).logical_counter(), 0);
}

#[test]
fn test_clock_counts_within_one_step_of_physical_time() {
    let mut clock = ClockService::with_identity(4).unwrap();
    let mut previous = clock.now();
    for _ in 0..200 {
        let next = clock.now();
        // either physical time has moved on, or the clock has counted one up
        assert!(next.time == previous.time + 1 || next.logical_counter() == 0);
        assert!(next > previous);
        previous = next;
    }
}

#[test]
fn test_headroom_after_issue_and_merge() {
    let mut clock = ClockService::with_identity(11).unwrap();
    assert!(clock.has_headroom());

    let first = clock.now();
    assert!(clock.has_headroom());

    let remote = Timestamp { time: first.time + (1u64 << 28), id: 12 };
    assert_eq!(clock.update(&remote), Ok(()));
    // after a merge the clock is still known to have room, without a look at the remote value
    assert!(clock.has_headroom());
    let next = clock.now();
    assert!(next > remote);
    assert!(clock.has_headroom());

    // many merges in a row, each followed by the test, never get stuck
    let mut previous = next;
    for round in 0..40u64 {
        let remote = Timestamp { time: previous.time + 1 + round, id: 12 };
        assert_eq!(clock.checked_update(&remote), Ok(()));
        if round % 8 == 7 {
            let stamp = clock.checked_now().unwrap();
            assert!(stamp > remote);
            previous = stamp;
        } else {
            previous = remote;
        }
    }
}

#[test]
fn test_checked_now_and_checked_update() {
    let mut clock = ClockService::with_identity(13).unwrap();
    let first = clock.checked_now().unwrap();
    let second = clock.checked_now().unwrap();
    assert!(second > first);
    assert_eq!(second.id, 13);

    let remote = Timestamp { time: second.time + 64, id: 14 };
    assert_eq!(clock.checked_update(&remote), Ok(()));
    let third = clock.checked_now().unwrap();
    assert!(third > remote);

    assert_eq!(
        clock.checked_update(&Timestamp { time: u64::MAX, id: 14 }),
        Err(ClockError::InvalidTimestamp)
    );
    assert_eq!(
        clock.checked_update(&Timestamp { time: third.time, id: 0 }),
        Err(ClockError::InvalidTimestamp)
    );
    assert_eq!(
        clock.checked_update(&Timestamp { time: third.time + (10u64 << 32), id: 14 }),
        Err(ClockError::InvalidTimestamp)
    );
    let fourth = clock.checked_now().unwrap();
    assert!(fourth > third);
}

#[test]
fn test_plain_merges_loosen_the_bound() {
    let mut clock = ClockService::with_identity(15).unwrap();
    let local = clock.now();
    // sixteen plain merges without an issue between them use up what the bound can vouch for
    for _ in 0..16 {
        assert!(clock.has_headroom());
        assert_eq!(clock.update(&Timestamp { time: local.time, id: 16 }), Ok(()));
    }
    assert!(!clock.has_headroom());
    assert_eq!(clock.checked_now(), None);
    assert_eq!(
        clock.checked_update(&Timestamp { time: local.time, id: 16 }),
        Err(ClockError::InvalidTimestamp)
    );
}

#[test]
fn test_checked_merges_never_use_up_the_room() {
    let mut clock = ClockService::with_identity(17).unwrap();
    let local = clock.now();
    for _ in 0..1000 {
        assert_eq!(clock.checked_update(&Timestamp { time: local.time, id: 18 }), Ok(()));
        assert!(clock.has_headroom());
    }
    let next = clock.checked_now().unwrap();
    assert!(next > local);
    assert_eq!(next.id, 17);
}

#[test]
fn test_global_clock_handle() {
    let mut global = GlobalClock::new();
    init_clock(&mut global, 19).unwrap();
    let first = current_timestamp(&mut global);
    let second = get_clock_mut(&mut global).checked_now().unwrap();
    let third = current_timestamp(&mut global);
    assert!(first < second && second < third);
    assert_eq!(second.id, 19);
    assert!(get_clock(&global).has_headroom());
}
