use elevator_orders::clock::ClockService;
use elevator_orders::queue::order::{Call, Command, Direction, Order};
use elevator_orders::queue::queue::{OrderQueue, QueueError};
use elevator_orders::queue::scheduler::{FifoScheduler, SchedulerContext};
use elevator_orders::timestamp::Timestamp;
use uuid::Uuid;

#[test]
fn test_queue_basic_operations() {
    let mut clock = ClockService::with_random_identity();

    let mut queue = OrderQueue::new();
    assert!(queue.is_empty());
    assert_eq!(queue.len(), 0);

    let call = Call::new(&mut clock, 5, Direction::Up).unwrap();
    let command = Command::new(&mut clock, 3).unwrap();

    queue.add_call(call.clone()).unwrap();
    queue.add_command(command.clone()).unwrap();

    assert_eq!(queue.len(), 2);
    assert!(!queue.is_empty());

    let orders = queue.get_orders();
    assert_eq!(orders.len(), 2);

    // Remove by ID
    let removed = queue.remove_order(call.id);
    assert!(removed.is_some());
    assert_eq!(queue.len(), 1);
}

#[test]
fn test_queue_filtering() {
    let mut clock = ClockService::with_random_identity();

    let mut queue = OrderQueue::new();

    let call1 = Call::new(&mut clock, 5, Direction::Up).unwrap();
    let call2 = Call::new(&mut clock, 3, Direction::Down).unwrap();
    let command1 = Command::new(&mut clock, 7).unwrap();
    let command2 = Command::new(&mut clock, 2).unwrap();

    queue.add_call(call1.clone()).unwrap();
    queue.add_call(call2.clone()).unwrap();
    queue.add_command(command1.clone()).unwrap();
    queue.add_command(command2.clone()).unwrap();

    assert_eq!(queue.count_calls(), 2);
    assert_eq!(queue.count_commands(), 2);

    let calls = queue.get_calls();
    let commands = queue.get_commands();

    assert_eq!(calls.len(), 2);
    assert_eq!(commands.len(), 2);

    // Test floor filtering
    let floor_5_orders = queue.get_orders_for_floor(5);
    assert_eq!(floor_5_orders.len(), 1);
    assert_eq!(floor_5_orders[0].target_floor(), 5);
}

#[test]
fn test_take_next_order() {
    let mut clock = ClockService::with_random_identity();

    let mut queue = OrderQueue::new();
    let context = SchedulerContext::new(1, Some(Direction::Up), Uuid::new_v4().as_u128());
    let scheduler = FifoScheduler;

    let call1 = Call::new(&mut clock, 5, Direction::Up).unwrap();
    let call2 = Call::new(&mut clock, 2, Direction::Up).unwrap();

    queue.add_call(call1.clone()).unwrap();
    queue.add_call(call2.clone()).unwrap();

    // Should take the oldest one (floor 5), whatever the floors
    let next = queue.take_next_order(&scheduler, &context);
    assert!(next.is_some());
    assert_eq!(next.unwrap().target_floor(), 5);
    assert_eq!(queue.len(), 1);
}

#[test]
fn test_queue_capacity() {
    let mut clock = ClockService::with_random_identity();

    let mut queue = OrderQueue::with_capacity(2);

    let call1 = Call::new(&mut clock, 1, Direction::Up).unwrap();
    let call2 = Call::new(&mut clock, 2, Direction::Up).unwrap();
    let call3 = Call::new(&mut clock, 3, Direction::Up).unwrap();

    assert!(queue.add_call(call1).is_ok());
    assert!(queue.add_call(call2).is_ok());
    assert_eq!(queue.add_call(call3), Err(QueueError::QueueFull));
}

#[test]
fn test_expired_orders_removal() {
    let mut clock = ClockService::with_random_identity();

    let mut queue = OrderQueue::new();

    // Add some orders (they should not be expired immediately)
    let call1 = Call::new(&mut clock, 5, Direction::Up).unwrap();
    let call2 = Call::new(&mut clock, 3, Direction::Down).unwrap();

    queue.add_call(call1).unwrap();
    queue.add_call(call2).unwrap();

    assert_eq!(queue.len(), 2);

    // Remove expired orders (should be none immediately after creation)
    let expired = queue.remove_expired_orders(&mut clock);
    assert_eq!(expired.len(), 0);
    assert_eq!(queue.len(), 2);
}

#[test]
fn test_oldest_newest_orders() {
    let mut clock = ClockService::with_random_identity();

    let mut queue = OrderQueue::new();

    let call1 = Call::new(&mut clock, 1, Direction::Up).unwrap();
    let call2 = Call::new(&mut clock, 2, Direction::Up).unwrap();

    queue.add_call(call1.clone()).unwrap();
    queue.add_call(call2.clone()).unwrap();

    let oldest = queue.get_oldest_order().unwrap();
    let newest = queue.get_newest_order().unwrap();

    assert_eq!(oldest.id(), call1.id);
    assert_eq!(newest.id(), call2.id);
    assert!(newest.created_at() > oldest.created_at());
}

#[test]
fn test_capacity_refusal_leaves_queue_untouched() {
    let call = |id: u128, floor: u8| {
        Call::stamped(id, floor, Direction::Up, Timestamp::new(100 + id as u64, 1), 60).unwrap()
    };
    let mut queue = OrderQueue::with_capacity(2);
    assert_eq!(queue.add_call(call(1, 1)), Ok(()));
    assert_eq!(queue.add_order(Order::Call(call(2, 2))), Ok(()));
    assert_eq!(queue.add_call(call(3, 3)), Err(QueueError::QueueFull));
    assert_eq!(
        queue.add_command(Command::stamped(4, 4, Timestamp::new(1, 1), 60).unwrap()),
        Err(QueueError::QueueFull)
    );

    // the first two are still there, in order
    assert_eq!(queue.len(), 2);
    assert_eq!(queue.get_orders(), vec![Order::Call(call(1, 1)), Order::Call(call(2, 2))]);
    assert_eq!(queue.get_calls(), vec![call(1, 1), call(2, 2)]);

    // room is made by removal
    assert_eq!(queue.remove_order(1), Some(Order::Call(call(1, 1))));
    assert_eq!(queue.add_call(call(3, 3)), Ok(()));
    assert_eq!(queue.get_calls(), vec![call(2, 2), call(3, 3)]);

    let mut none = OrderQueue::with_capacity(0);
    assert_eq!(none.add_call(call(1, 1)), Err(QueueError::QueueFull));
    assert!(none.is_empty());
}

#[test]
fn test_remove_order_by_identifier() {
    let at = |id: u128, floor: u8| {
        Order::Command(Command::stamped(id, floor, Timestamp::new(50, 1), 60).unwrap())
    };
    let mut queue = OrderQueue::default();
    assert_eq!(queue.remove_order(1), None);
    queue.add_order(at(1, 1)).unwrap();
    queue.add_order(at(2, 2)).unwrap();
    queue.add_order(at(1, 3)).unwrap();
    queue.add_order(at(3, 4)).unwrap();

    assert_eq!(queue.remove_order(9), None);
    assert_eq!(queue.len(), 4);

    // of two orders with one identifier the first leaves
    assert_eq!(queue.remove_order(1), Some(at(1, 1)));
    assert_eq!(queue.get_orders(), vec![at(2, 2), at(1, 3), at(3, 4)]);
    assert_eq!(queue.remove_order(1), Some(at(1, 3)));
    assert_eq!(queue.remove_order(1), None);
    assert_eq!(queue.remove_order(3), Some(at(3, 4)));
    assert_eq!(queue.get_orders(), vec![at(2, 2)]);

    queue.clear();
    assert!(queue.is_empty());
    assert_eq!(queue.get_orders(), Vec::<Order>::new());
}

#[test]
fn test_take_next_order_removes_ranked_head() {
    let at = |id: u128, floor: u8, time: u64| {
        Order::Call(Call::stamped(id, floor, Direction::Up, Timestamp::new(time, 1), 60).unwrap())
    };
    let context = SchedulerContext::new(1, None, 5);
    let scheduler = FifoScheduler;
    let mut queue = OrderQueue::new();

    assert_eq!(queue.take_next_order(&scheduler, &context), None);
    assert_eq!(queue.len(), 0);

    queue.add_order(at(1, 9, 300)).unwrap();
    queue.add_order(at(2, 8, 100)).unwrap();
    queue.add_order(at(3, 7, 200)).unwrap();

    assert_eq!(
        queue.get_scheduled_orders(&scheduler, &context),
        vec![at(2, 8, 100), at(3, 7, 200), at(1, 9, 300)]
    );
    assert_eq!(queue.len(), 3);
    assert_eq!(queue.get_orders(), vec![at(1, 9, 300), at(2, 8, 100), at(3, 7, 200)]);

    assert_eq!(queue.take_next_order(&scheduler, &context), Some(at(2, 8, 100)));
    assert_eq!(queue.get_orders(), vec![at(1, 9, 300), at(3, 7, 200)]);
    assert_eq!(queue.take_next_order(&scheduler, &context), Some(at(3, 7, 200)));
    assert_eq!(queue.take_next_order(&scheduler, &context), Some(at(1, 9, 300)));
    assert_eq!(queue.take_next_order(&scheduler, &context), None);
    assert_eq!(queue.len(), 0);
}

#[test]
fn test_expiry_sweep_partitions_in_order() {
    let at = |id: u128, created: u64, ttl: u64| {
        Order::Command(Command::stamped(id, 1, Timestamp::new(created << 32, 1), ttl).unwrap())
    };
    let mut queue = OrderQueue::with_capacity(10);
    let orders = vec![at(1, 0, 10), at(2, 0, 100), at(3, 5, 4), at(4, 50, 60), at(5, 1, 8)];
    for order in orders.iter() {
        queue.add_order(*order).unwrap();
    }

    // nothing has expired at the ninth second: the earliest expiry is exactly nine
    let expired = queue.remove_expired_at(&Timestamp::new(9 << 32, 1));
    assert_eq!(expired, Vec::<Order>::new());
    assert_eq!(queue.get_orders(), orders);

    let expired = queue.remove_expired_at(&Timestamp::new(10 << 32, 1));
    assert_eq!(expired, vec![at(3, 5, 4), at(5, 1, 8)]);
    assert_eq!(queue.get_orders(), vec![at(1, 0, 10), at(2, 0, 100), at(4, 50, 60)]);

    let expired = queue.remove_expired_at(&Timestamp::new(105 << 32, 1));
    assert_eq!(expired, vec![at(1, 0, 10), at(2, 0, 100)]);
    assert_eq!(queue.get_orders(), vec![at(4, 50, 60)]);

    let expired = queue.remove_expired_at(&Timestamp::new(u64::MAX, 1));
    assert_eq!(expired, vec![at(4, 50, 60)]);
    assert!(queue.is_empty());
    assert_eq!(queue.remove_expired_at(&Timestamp::new(u64::MAX, 1)), Vec::<Order>::new());
}

#[test]
fn test_expiry_sweep_by_clock() {
    let mut clock = ClockService::with_identity(6).unwrap();
    let mut queue = OrderQueue::new();
    let lasting = Call::new(&mut clock, 1, Direction::Up).unwrap();
    let fleeting = Call::stamped(8, 2, Direction::Down, Timestamp::new(1 << 40, 6), 1).unwrap();
    let long_gone = Call::stamped(7, 3, Direction::Up, Timestamp::new(16, 6), 1).unwrap();
    queue.add_call(lasting).unwrap();
    queue.add_call(fleeting).unwrap();
    queue.add_call(long_gone).unwrap();

    let before = clock.now();
    let expired = queue.remove_expired_orders(&mut clock);
    let after = clock.now();
    assert!(after.time > before.time + 1);
    assert_eq!(expired, vec![Order::Call(fleeting), Order::Call(long_gone)]);
    assert_eq!(queue.get_orders(), vec![Order::Call(lasting)]);
}

#[test]
fn test_queries_by_kind_and_floor() {
    let call = |id: u128, floor: u8| {
        Call::stamped(id, floor, Direction::Down, Timestamp::new(10, 1), 60).unwrap()
    };
    let command =
        |id: u128, floor: u8| Command::stamped(id, floor, Timestamp::new(10, 1), 60).unwrap();
    let mut queue = OrderQueue::new();
    assert_eq!(queue.count_calls(), 0);
    assert_eq!(queue.count_commands(), 0);
    assert_eq!(queue.get_orders_for_floor(1), Vec::<Order>::new());

    queue.add_command(command(1, 4)).unwrap();
    queue.add_call(call(2, 4)).unwrap();
    queue.add_call(call(3, 2)).unwrap();
    queue.add_command(command(4, 2)).unwrap();
    queue.add_call(call(5, 4)).unwrap();

    assert_eq!(queue.count_calls(), 3);
    assert_eq!(queue.count_commands(), 2);
    assert_eq!(queue.get_calls(), vec![call(2, 4), call(3, 2), call(5, 4)]);
    assert_eq!(queue.get_commands(), vec![command(1, 4), command(4, 2)]);
    assert_eq!(
        queue.get_orders_for_floor(4),
        vec![Order::Command(command(1, 4)), Order::Call(call(2, 4)), Order::Call(call(5, 4))]
    );
    assert_eq!(
        queue.get_orders_for_floor(2),
        vec![Order::Call(call(3, 2)), Order::Command(command(4, 2))]
    );
    assert_eq!(queue.get_orders_for_floor(0), Vec::<Order>::new());
    assert_eq!(queue.len(), 5);
}

#[test]
fn test_oldest_and_newest_with_ties() {
    let at = |id: u128, time: u64, node: u128| {
        Order::Command(Command::stamped(id, 1, Timestamp::new(time, node), 60).unwrap())
    };
    let mut queue = OrderQueue::new();
    assert_eq!(queue.get_oldest_order(), None);
    assert_eq!(queue.get_newest_order(), None);

    queue.add_order(at(1, 20, 1)).unwrap();
    assert_eq!(queue.get_oldest_order().unwrap().id(), 1);
    assert_eq!(queue.get_newest_order().unwrap().id(), 1);

    queue.add_order(at(2, 10, 1)).unwrap();
    queue.add_order(at(3, 30, 1)).unwrap();
    queue.add_order(at(4, 10, 1)).unwrap();
    queue.add_order(at(5, 30, 1)).unwrap();
    queue.add_order(at(6, 10, 2)).unwrap();
    queue.add_order(at(7, 30, 0)).unwrap();

    // of the orders created at the same instant, the oldest is the first, the newest the last
    assert_eq!(queue.get_oldest_order().unwrap().id(), 2);
    assert_eq!(queue.get_newest_order().unwrap().id(), 5);
    assert_eq!(queue.len(), 7);
}

#[test]
fn test_queue_error_messages() {
    assert_eq!(QueueError::QueueFull.message(), "Queue is full");
    assert_eq!(QueueError::OrderNotFound.message(), "Order not found");
    assert_ne!(QueueError::QueueFull, QueueError::OrderNotFound);
}
