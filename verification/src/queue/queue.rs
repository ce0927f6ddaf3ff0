//! The order queue of one node: the live orders in the order in which they
//! were admitted, with an optional limit on how many it holds.
//!
//! The queue has no notion of priority of its own: ranking is left to the
//! dispatch strategy that the caller passes in.

use crate::clock::{issues, ClockService};
use crate::queue::order::{Call, Command, Expiration, Order};
use crate::queue::scheduler::{Scheduler, SchedulerContext};
use crate::timestamp::Timestamp;
use std::collections::VecDeque;
use vstd::prelude::*;

verus! {

/// Why a queue operation was refused.
#[derive(Debug, Clone, Copy, PartialEq, Eq, Structural)]
pub enum QueueError {
    /// The queue holds as many orders as it may.
    QueueFull,
    /// No order with the given identifier is in the queue.
    OrderNotFound,
}

impl QueueError {
    /// A short description of the error.
    pub fn message(&self) -> (text: &'static str)
        ensures
            text@ == match *self {
                QueueError::QueueFull => "Queue is full"@,
                QueueError::OrderNotFound => "Order not found"@,
            },
    {
        match self {
            QueueError::QueueFull => "Queue is full",
            QueueError::OrderNotFound => "Order not found",
        }
    }
}

/// The position of the first order with the identifier `id`, or the length
/// of the sequence if it holds none.
pub open spec fn first_with_id(orders: Seq<Order>, id: u128) -> int
    decreases orders.len(),
{
    if orders.len() == 0 {
        0
    } else {
        let before = first_with_id(orders.drop_last(), id);
        if before < orders.len() - 1 || orders.last().id() != id {
            if before < orders.len() - 1 {
                before
            } else {
                orders.len() as int
            }
        } else {
            orders.len() - 1
        }
    }
}

/// No two orders of the sequence share an identifier.
pub open spec fn distinct_ids(orders: Seq<Order>) -> bool {
    forall|i: int, j: int|
        0 <= i < j < orders.len() ==> (#[trigger] orders[i]).id() != (#[trigger] orders[j]).id()
}

/// The orders that have expired at the instant `now`, in queue order.
pub open spec fn expired_at(orders: Seq<Order>, now: Timestamp) -> Seq<Order> {
    orders.filter(|o: Order| o.expires_at().precedes(now))
}

/// The orders that have not expired at the instant `now`, in queue order.
pub open spec fn live_at(orders: Seq<Order>, now: Timestamp) -> Seq<Order> {
    orders.filter(|o: Order| !o.expires_at().precedes(now))
}

/// The hall calls among the orders, in queue order.
pub open spec fn calls_of(orders: Seq<Order>) -> Seq<Call> {
    orders.filter_map(
        |o: Order|
            match o {
                Order::Call(call) => Some(call),
                Order::Command(_) => None,
            },
    )
}

/// The cabin commands among the orders, in queue order.
pub open spec fn commands_of(orders: Seq<Order>) -> Seq<Command> {
    orders.filter_map(
        |o: Order|
            match o {
                Order::Call(_) => None,
                Order::Command(command) => Some(command),
            },
    )
}

/// The orders for the floor `floor`, in queue order.
pub open spec fn orders_for_floor(orders: Seq<Order>, floor: u8) -> Seq<Order> {
    orders.filter(|o: Order| o.target_floor() == floor)
}

/// The position of the oldest order: the first of those with the earliest
/// creation time. Zero for the empty sequence.
pub open spec fn oldest_index(orders: Seq<Order>) -> int
    decreases orders.len(),
{
    if orders.len() <= 1 {
        0
    } else {
        let before = oldest_index(orders.drop_last());
        if orders.last().created_at().precedes(orders[before].created_at()) {
            orders.len() - 1
        } else {
            before
        }
    }
}

/// The position of the newest order: the last of those with the latest
/// creation time. Zero for the empty sequence.
pub open spec fn newest_index(orders: Seq<Order>) -> int
    decreases orders.len(),
{
    if orders.len() <= 1 {
        0
    } else {
        let before = newest_index(orders.drop_last());
        if orders[before].created_at().precedes(orders.last().created_at())
            || orders[before].created_at() == orders.last().created_at() {
            orders.len() - 1
        } else {
            before
        }
    }
}

/// The first order with a given identifier is where the definition says:
/// no order before it has the identifier, and it has it, if the position is
/// in the sequence at all.
pub proof fn lemma_first_with_id(orders: Seq<Order>, id: u128)
    ensures
        0 <= first_with_id(orders, id) <= orders.len(),
        forall|j: int|
            0 <= j < first_with_id(orders, id) ==> (#[trigger] orders[j]).id() != id,
        first_with_id(orders, id) < orders.len() ==> orders[first_with_id(orders, id)].id() == id,
    decreases orders.len(),
{
    if orders.len() > 0 {
        let front = orders.drop_last();
        lemma_first_with_id(front, id);
        assert forall|j: int| 0 <= j < first_with_id(orders, id) implies (#[trigger] orders[j]).id()
            != id by {
            if j < front.len() {
                assert(orders[j] == front[j]);
            }
        }
        if first_with_id(orders, id) < front.len() {
            assert(orders[first_with_id(orders, id)] == front[first_with_id(front, id)]);
        }
    }
}

/// A position that holds the identifier and has no order with it in front
/// is the position of the first order with that identifier; so is the
/// length, if no order holds the identifier.
pub proof fn lemma_first_with_id_unique(orders: Seq<Order>, id: u128, at: int)
    requires
        0 <= at <= orders.len(),
        forall|j: int| 0 <= j < at ==> (#[trigger] orders[j]).id() != id,
        at < orders.len() ==> orders[at].id() == id,
    ensures
        first_with_id(orders, id) == at,
{
    lemma_first_with_id(orders, id);
    let first = first_with_id(orders, id);
    if first < at {
        assert(orders[first].id() != id);
    } else if at < first {
        assert(orders[at].id() != id);
    }
}

/// The oldest order is no younger than any order of the sequence, and
/// strictly older than every order in front of it.
pub proof fn lemma_oldest_index(orders: Seq<Order>)
    requires
        orders.len() > 0,
    ensures
        0 <= oldest_index(orders) < orders.len(),
        forall|j: int|
            0 <= j < orders.len() ==> !(#[trigger] orders[j]).created_at().precedes(
                orders[oldest_index(orders)].created_at(),
            ),
        forall|j: int|
            0 <= j < oldest_index(orders) ==> orders[oldest_index(orders)].created_at().precedes(
                (#[trigger] orders[j]).created_at(),
            ),
    decreases orders.len(),
{
    if orders.len() > 1 {
        let front = orders.drop_last();
        lemma_oldest_index(front);
        let before = oldest_index(front);
        assert(orders[before] == front[before]);
        assert forall|j: int| 0 <= j < orders.len() implies !(#[trigger] orders[j]).created_at()
            .precedes(orders[oldest_index(orders)].created_at()) by {
            if j < front.len() {
                assert(orders[j] == front[j]);
            }
        }
        assert forall|j: int| 0 <= j < oldest_index(orders) implies orders[oldest_index(
            orders,
        )].created_at().precedes((#[trigger] orders[j]).created_at()) by {
            if j < front.len() {
                assert(orders[j] == front[j]);
            }
        }
    }
}

/// The newest order is no older than any order of the sequence, and
/// strictly newer than every order behind it.
pub proof fn lemma_newest_index(orders: Seq<Order>)
    requires
        orders.len() > 0,
    ensures
        0 <= newest_index(orders) < orders.len(),
        forall|j: int|
            0 <= j < orders.len() ==> !orders[newest_index(orders)].created_at().precedes(
                (#[trigger] orders[j]).created_at(),
            ),
        forall|j: int|
            newest_index(orders) < j < orders.len() ==> (#[trigger] orders[j]).created_at().precedes(
                orders[newest_index(orders)].created_at(),
            ),
    decreases orders.len(),
{
    if orders.len() > 1 {
        let front = orders.drop_last();
        lemma_newest_index(front);
        let before = newest_index(front);
        assert(orders[before] == front[before]);
        assert forall|j: int| 0 <= j < orders.len() implies !orders[newest_index(
            orders,
        )].created_at().precedes((#[trigger] orders[j]).created_at()) by {
            if j < front.len() {
                assert(orders[j] == front[j]);
            }
        }
        assert forall|j: int| newest_index(orders) < j < orders.len() implies (
        #[trigger] orders[j]).created_at().precedes(orders[newest_index(orders)].created_at()) by {
            if j < front.len() {
                assert(orders[j] == front[j]);
            }
        }
    }
}

/// The expiry sweep is a partition: at any instant, every order of a
/// sequence is among the expired or among the live ones, and in one of the
/// two only; each expired order has expired, and no live one has.
pub proof fn lemma_sweep_partition(orders: Seq<Order>, now: Timestamp)
    ensures
        expired_at(orders, now).to_multiset().add(live_at(orders, now).to_multiset())
            == orders.to_multiset(),
        expired_at(orders, now).len() + live_at(orders, now).len() == orders.len(),
        forall|i: int|
            0 <= i < expired_at(orders, now).len() ==> (#[trigger] expired_at(
                orders,
                now,
            )[i]).expires_at().precedes(now),
        forall|i: int|
            0 <= i < live_at(orders, now).len() ==> !(#[trigger] live_at(
                orders,
                now,
            )[i]).expires_at().precedes(now),
    decreases orders.len(),
{
    broadcast use vstd::seq_lib::group_to_multiset_ensures;

    let gone = |o: Order| o.expires_at().precedes(now);
    let stay = |o: Order| !o.expires_at().precedes(now);
    if orders.len() == 0 {
        assert(orders.filter(gone) =~= Seq::<Order>::empty()) by {
            orders.lemma_filter_len(gone);
        }
        assert(orders.filter(stay) =~= Seq::<Order>::empty()) by {
            orders.lemma_filter_len(stay);
        }
        assert(orders =~= Seq::<Order>::empty());
        assert(Seq::<Order>::empty().to_multiset().add(Seq::<Order>::empty().to_multiset())
            =~= Seq::<Order>::empty().to_multiset());
    } else {
        let front = orders.drop_last();
        let order = orders.last();
        lemma_sweep_partition(front, now);
        assert(orders =~= front.push(order));
        front.lemma_filter_push(order, gone);
        front.lemma_filter_push(order, stay);
        if gone(order) {
            assert(front.filter(gone).push(order).to_multiset().add(
                front.filter(stay).to_multiset(),
            ) =~= front.to_multiset().insert(order));
        } else {
            assert(front.filter(gone).to_multiset().add(
                front.filter(stay).push(order).to_multiset(),
            ) =~= front.to_multiset().insert(order));
        }
    }
    assert forall|i: int| 0 <= i < expired_at(orders, now).len() implies (#[trigger] expired_at(
        orders,
        now,
    )[i]).expires_at().precedes(now) by {
        orders.lemma_filter_pred(gone, i);
    }
    assert forall|i: int| 0 <= i < live_at(orders, now).len() implies !(#[trigger] live_at(
        orders,
        now,
    )[i]).expires_at().precedes(now) by {
        orders.lemma_filter_pred(stay, i);
    }
}

/// The expiry sweep keeps the relative order: of two orders that stay, or
/// of two that are evicted, the one that stood first in the queue stands
/// first afterwards. Stated for the front of a queue: sweeping a queue with
/// one more order at its end gives the sweep of the shorter queue, with the
/// new order at the end of the part it belongs to.
pub proof fn lemma_sweep_keeps_order(orders: Seq<Order>, order: Order, now: Timestamp)
    ensures
        order.expires_at().precedes(now) ==> expired_at(orders.push(order), now) == expired_at(
            orders,
            now,
        ).push(order) && live_at(orders.push(order), now) == live_at(orders, now),
        !order.expires_at().precedes(now) ==> live_at(orders.push(order), now) == live_at(
            orders,
            now,
        ).push(order) && expired_at(orders.push(order), now) == expired_at(orders, now),
{
    orders.lemma_filter_push(order, |o: Order| o.expires_at().precedes(now));
    orders.lemma_filter_push(order, |o: Order| !o.expires_at().precedes(now));
}

/// Admission up to the limit: a queue that holds fewer orders than its limit
/// admits one more, and one that has reached its limit admits none.
pub proof fn lemma_admission_by_capacity(queue: OrderQueue)
    requires
        queue.within_capacity(),
    ensures
        queue.capacity() matches Some(max) ==> (queue.is_full() <==> queue@.len() == max),
        queue.capacity() is None ==> !queue.is_full(),
{
}

/// The live orders of one node.
#[derive(Debug)]
pub struct OrderQueue {
    orders: VecDeque<Order>,
    max_size: Option<usize>,
}

impl View for OrderQueue {
    type V = Seq<Order>;

    /// The orders in the queue, in the order of their admission.
    closed spec fn view(&self) -> Seq<Order> {
        self.orders@
    }
}

impl OrderQueue {
    /// The most orders that the queue may hold, if it has a limit.
    pub closed spec fn capacity(&self) -> Option<usize> {
        self.max_size
    }

    /// The queue has a limit and has reached it.
    pub open spec fn is_full(&self) -> bool {
        self.capacity() matches Some(max) && self@.len() >= max
    }

    /// The invariant of the queue: it never holds more orders than its
    /// limit, if it has one.
    pub open spec fn within_capacity(&self) -> bool {
        self.capacity() matches Some(max) ==> self@.len() <= max
    }

    /// Creates an empty queue without a limit.
    pub fn new() -> (queue: OrderQueue)
        ensures
            queue@ == Seq::<Order>::empty(),
            queue.capacity() is None,
            queue.within_capacity(),
    {
        OrderQueue { orders: VecDeque::new(), max_size: None }
    }

    /// Creates an empty queue that holds at most `max_size` orders.
    pub fn with_capacity(max_size: usize) -> (queue: OrderQueue)
        ensures
            queue@ == Seq::<Order>::empty(),
            queue.capacity() == Some(max_size),
            queue.within_capacity(),
    {
        OrderQueue { orders: VecDeque::with_capacity(max_size), max_size: Some(max_size) }
    }

    /// Admits an order at the end of the queue. A full queue refuses it with
    /// `QueueFull` and stays as it was.
    pub fn add_order(&mut self, order: Order) -> (added: Result<(), QueueError>)
        ensures
            final(self).capacity() == old(self).capacity(),
            old(self).within_capacity() ==> final(self).within_capacity(),
            old(self).is_full() ==> added == Err::<(), QueueError>(QueueError::QueueFull) && final(self)@ == old(self)@,
            !old(self).is_full() ==> added is Ok && final(self)@ == old(self)@.push(order),
    {
        if let Some(max_size) = self.max_size {
            if self.orders.len() >= max_size {
                return Err(QueueError::QueueFull);
            }
        }
        self.orders.push_back(order);
        Ok(())
    }

    /// Admits a hall call at the end of the queue.
    pub fn add_call(&mut self, call: Call) -> (added: Result<(), QueueError>)
        ensures
            final(self).capacity() == old(self).capacity(),
            old(self).within_capacity() ==> final(self).within_capacity(),
            old(self).is_full() ==> added == Err::<(), QueueError>(QueueError::QueueFull) && final(self)@ == old(self)@,
            !old(self).is_full() ==> added is Ok && final(self)@ == old(self)@.push(
                Order::Call(call),
            ),
    {
        self.add_order(Order::Call(call))
    }

    /// Admits a cabin command at the end of the queue.
    pub fn add_command(&mut self, command: Command) -> (added: Result<(), QueueError>)
        ensures
            final(self).capacity() == old(self).capacity(),
            old(self).within_capacity() ==> final(self).within_capacity(),
            old(self).is_full() ==> added == Err::<(), QueueError>(QueueError::QueueFull) && final(self)@ == old(self)@,
            !old(self).is_full() ==> added is Ok && final(self)@ == old(self)@.push(
                Order::Command(command),
            ),
    {
        self.add_order(Order::Command(command))
    }

    /// Removes the first order with the identifier `order_id` and returns it;
    /// `None`, and an unchanged queue, if no order has that identifier.
    pub fn remove_order(&mut self, order_id: u128) -> (removed: Option<Order>)
        ensures
            final(self).capacity() == old(self).capacity(),
            old(self).within_capacity() ==> final(self).within_capacity(),
            first_with_id(old(self)@, order_id) < old(self)@.len() ==> removed == Some(
                old(self)@[first_with_id(old(self)@, order_id)],
            ) && final(self)@ == old(self)@.remove(first_with_id(old(self)@, order_id)),
            first_with_id(old(self)@, order_id) >= old(self)@.len() ==> removed is None && final(self)@ == old(self)@,
            removed is None <==> forall|i: int|
                0 <= i < old(self)@.len() ==> (#[trigger] old(self)@[i]).id() != order_id,
    {
        let mut at: usize = 0;
        while at < self.orders.len() && self.orders[at].id() != order_id
            invariant
                0 <= at <= self.orders@.len(),
                self.orders@ == old(self).orders@,
                self.max_size == old(self).max_size,
                forall|j: int| 0 <= j < at ==> (#[trigger] self.orders@[j]).id() != order_id,
            decreases self.orders@.len() - at,
        {
            at += 1;
        }
        proof {
            lemma_first_with_id_unique(self.orders@, order_id, at as int);
        }
        if at < self.orders.len() {
            self.orders.remove(at)
        } else {
            None
        }
    }

    /// A copy of the orders in the queue, in queue order. The queue is not
    /// changed.
    pub fn get_orders(&self) -> (orders: Vec<Order>)
        ensures
            orders@ == self@,
    {
        let mut orders: Vec<Order> = Vec::new();
        let mut i: usize = 0;
        while i < self.orders.len()
            invariant
                0 <= i <= self.orders@.len(),
                orders@ == self.orders@.take(i as int),
            decreases self.orders@.len() - i,
        {
            orders.push(self.orders[i]);
            assert(self.orders@.take(i + 1) =~= self.orders@.take(i as int).push(self.orders@[i as int]));
            i += 1;
        }
        assert(self.orders@.take(i as int) =~= self.orders@);
        orders
    }

    /// The orders of the queue as `scheduler` ranks them for `context`. The
    /// queue is not changed.
    pub fn get_scheduled_orders<S: Scheduler>(&self, scheduler: &S, context: &SchedulerContext) -> (ranked:
        Vec<Order>)
        ensures
            ranked@ == scheduler.ranking(self@, *context),
            ranked@.to_multiset() == self@.to_multiset(),
    {
        let orders = self.get_orders();
        scheduler.schedule(orders.as_slice(), context)
    }

    /// Removes and returns the order that `scheduler` ranks first for
    /// `context`: the first order of the queue that carries the identifier
    /// of the head of the ranking, which is that head itself when no two
    /// orders share an identifier. An empty queue gives `None` and stays
    /// empty.
    pub fn take_next_order<S: Scheduler>(&mut self, scheduler: &S, context: &SchedulerContext) -> (next:
        Option<Order>)
        ensures
            final(self).capacity() == old(self).capacity(),
            old(self).within_capacity() ==> final(self).within_capacity(),
            old(self)@.len() == 0 ==> next is None && final(self)@ == old(self)@,
            old(self)@.len() > 0 ==> {
                let head = scheduler.ranking(old(self)@, *context)[0];
                let at = first_with_id(old(self)@, head.id());
                &&& 0 <= at < old(self)@.len()
                &&& next == Some(old(self)@[at])
                &&& final(self)@ == old(self)@.remove(at)
                &&& final(self)@.len() == old(self)@.len() - 1
                &&& distinct_ids(old(self)@) ==> next == Some(head)
            },
    {
        if self.orders.len() == 0 {
            return None;
        }
        let scheduled = self.get_scheduled_orders(scheduler, context);
        proof {
            broadcast use vstd::seq_lib::group_to_multiset_ensures;

            assert(scheduled@.to_multiset().len() == scheduled@.len());
            assert(self@.to_multiset().len() == self@.len());
            let head = scheduled@[0];
            assert(scheduled@.to_multiset().count(head) > 0);
            assert(self@.contains(head));
            let j = choose|j: int| 0 <= j < self@.len() && self@[j] == head;
            lemma_first_with_id(self@, head.id());
            let at = first_with_id(self@, head.id());
            if at >= self@.len() {
                assert(self@[j].id() != head.id());
            }
            if distinct_ids(self@) && at != j {
                if at < j {
                    assert(self@[at].id() != self@[j].id());
                } else {
                    assert(self@[j].id() != self@[at].id());
                }
            }
        }
        if scheduled.len() > 0 {
            self.remove_order(scheduled[0].id())
        } else {
            None
        }
    }

    /// Removes the orders that have expired at the instant `now` and returns
    /// them; the others stay, in the order they had.
    pub fn remove_expired_at(&mut self, now: &Timestamp) -> (expired: Vec<Order>)
        ensures
            final(self).capacity() == old(self).capacity(),
            old(self).within_capacity() ==> final(self).within_capacity(),
            expired@ == expired_at(old(self)@, *now),
            final(self)@ == live_at(old(self)@, *now),
    {
        let mut expired: Vec<Order> = Vec::new();
        let mut valid: VecDeque<Order> = VecDeque::new();
        let mut i: usize = 0;
        assert(self.orders@.take(0) =~= Seq::<Order>::empty());
        while i < self.orders.len()
            invariant
                0 <= i <= self.orders@.len(),
                self.orders@ == old(self).orders@,
                self.max_size == old(self).max_size,
                expired@ == expired_at(self.orders@.take(i as int), *now),
                valid@ == live_at(self.orders@.take(i as int), *now),
            decreases self.orders@.len() - i,
        {
            let order = self.orders[i];
            proof {
                let front = self.orders@.take(i as int);
                assert(self.orders@.take(i + 1) =~= front.push(order));
                front.lemma_filter_push(order, |o: Order| o.expires_at().precedes(*now));
                front.lemma_filter_push(order, |o: Order| !o.expires_at().precedes(*now));
            }
            if order.is_expired_at(now) {
                expired.push(order);
            } else {
                valid.push_back(order);
            }
            i += 1;
        }
        assert(self.orders@.take(i as int) =~= self.orders@);
        self.orders = valid;
        expired
    }

    /// Removes the orders that have expired by the node's clock and returns
    /// them; the others stay, in the order they had. The clock is read once,
    /// when the sweep begins, and every order is judged by that instant.
    pub fn remove_expired_orders(&mut self, clock: &mut ClockService) -> (expired: Vec<Order>)
        requires
            old(clock).can_tick(),
        ensures
            issues(*old(clock), *final(clock), final(clock).last_stamp()),
            final(self).capacity() == old(self).capacity(),
            old(self).within_capacity() ==> final(self).within_capacity(),
            expired@ == expired_at(old(self)@, final(clock).last_stamp()),
            final(self)@ == live_at(old(self)@, final(clock).last_stamp()),
    {
        let now = clock.now();
        self.remove_expired_at(&now)
    }

    /// The number of orders in the queue.
    pub fn len(&self) -> (len: usize)
        ensures
            len == self@.len(),
    {
        self.orders.len()
    }

    /// Whether the queue holds no order.
    pub fn is_empty(&self) -> (empty: bool)
        ensures
            empty == (self@.len() == 0),
    {
        self.orders.len() == 0
    }

    /// The hall calls in the queue, in queue order.
    pub fn get_calls(&self) -> (calls: Vec<Call>)
        ensures
            calls@ == calls_of(self@),
    {
        let mut calls: Vec<Call> = Vec::new();
        let mut i: usize = 0;
        assert(self.orders@.take(0) =~= Seq::<Order>::empty());
        while i < self.orders.len()
            invariant
                0 <= i <= self.orders@.len(),
                calls@ == calls_of(self.orders@.take(i as int)),
            decreases self.orders@.len() - i,
        {
            proof {
                self.orders@.lemma_filter_map_take_succ(
                    |o: Order|
                        match o {
                            Order::Call(call) => Some(call),
                            Order::Command(_) => None,
                        },
                    i as int,
                );
            }
            match self.orders[i] {
                Order::Call(call) => {
                    calls.push(call);
                },
                Order::Command(_) => {},
            }
            i += 1;
        }
        assert(self.orders@.take(i as int) =~= self.orders@);
        calls
    }

    /// The cabin commands in the queue, in queue order.
    pub fn get_commands(&self) -> (commands: Vec<Command>)
        ensures
            commands@ == commands_of(self@),
    {
        let mut commands: Vec<Command> = Vec::new();
        let mut i: usize = 0;
        assert(self.orders@.take(0) =~= Seq::<Order>::empty());
        while i < self.orders.len()
            invariant
                0 <= i <= self.orders@.len(),
                commands@ == commands_of(self.orders@.take(i as int)),
            decreases self.orders@.len() - i,
        {
            proof {
                self.orders@.lemma_filter_map_take_succ(
                    |o: Order|
                        match o {
                            Order::Call(_) => None,
                            Order::Command(command) => Some(command),
                        },
                    i as int,
                );
            }
            match self.orders[i] {
                Order::Call(_) => {},
                Order::Command(command) => {
                    commands.push(command);
                },
            }
            i += 1;
        }
        assert(self.orders@.take(i as int) =~= self.orders@);
        commands
    }

    /// Removes every order from the queue.
    pub fn clear(&mut self)
        ensures
            final(self)@ == Seq::<Order>::empty(),
            final(self).capacity() == old(self).capacity(),
            old(self).within_capacity() ==> final(self).within_capacity(),
    {
        self.orders.clear();
    }

    /// The orders in the queue that ask for the floor `floor`, in queue
    /// order.
    pub fn get_orders_for_floor(&self, floor: u8) -> (orders: Vec<Order>)
        ensures
            orders@ == orders_for_floor(self@, floor),
    {
        let mut orders: Vec<Order> = Vec::new();
        let mut i: usize = 0;
        assert(self.orders@.take(0) =~= Seq::<Order>::empty());
        while i < self.orders.len()
            invariant
                0 <= i <= self.orders@.len(),
                orders@ == orders_for_floor(self.orders@.take(i as int), floor),
            decreases self.orders@.len() - i,
        {
            let order = self.orders[i];
            proof {
                let front = self.orders@.take(i as int);
                assert(self.orders@.take(i + 1) =~= front.push(order));
                front.lemma_filter_push(order, |o: Order| o.target_floor() == floor);
            }
            if order.target_floor() == floor {
                orders.push(order);
            }
            i += 1;
        }
        assert(self.orders@.take(i as int) =~= self.orders@);
        orders
    }

    /// The number of hall calls in the queue.
    pub fn count_calls(&self) -> (count: usize)
        ensures
            count == calls_of(self@).len(),
    {
        let calls = self.get_calls();
        calls.len()
    }

    /// The number of cabin commands in the queue.
    pub fn count_commands(&self) -> (count: usize)
        ensures
            count == commands_of(self@).len(),
    {
        let commands = self.get_commands();
        commands.len()
    }

    /// The oldest order in the queue by creation time; of several created at
    /// the same instant, the one admitted first. `None` for an empty queue.
    pub fn get_oldest_order(&self) -> (oldest: Option<&Order>)
        ensures
            self@.len() == 0 ==> oldest is None,
            self@.len() > 0 ==> oldest == Some(&self@[oldest_index(self@)]),
    {
        if self.orders.len() == 0 {
            return None;
        }
        let mut best: usize = 0;
        let mut i: usize = 1;
        assert(self.orders@.take(1).len() == 1);
        while i < self.orders.len()
            invariant
                1 <= i <= self.orders@.len(),
                0 <= best < i,
                best == oldest_index(self.orders@.take(i as int)),
            decreases self.orders@.len() - i,
        {
            proof {
                let next = self.orders@.take(i + 1);
                assert(next.drop_last() =~= self.orders@.take(i as int));
                assert(next.last() == self.orders@[i as int]);
                assert(next[best as int] == self.orders@[best as int]);
            }
            if self.orders[i].created_at().is_before(&self.orders[best].created_at()) {
                best = i;
            }
            i += 1;
        }
        assert(self.orders@.take(i as int) =~= self.orders@);
        Some(&self.orders[best])
    }

    /// The newest order in the queue by creation time; of several created at
    /// the same instant, the one admitted last. `None` for an empty queue.
    pub fn get_newest_order(&self) -> (newest: Option<&Order>)
        ensures
            self@.len() == 0 ==> newest is None,
            self@.len() > 0 ==> newest == Some(&self@[newest_index(self@)]),
    {
        if self.orders.len() == 0 {
            return None;
        }
        let mut best: usize = 0;
        let mut i: usize = 1;
        assert(self.orders@.take(1).len() == 1);
        while i < self.orders.len()
            invariant
                1 <= i <= self.orders@.len(),
                0 <= best < i,
                best == newest_index(self.orders@.take(i as int)),
            decreases self.orders@.len() - i,
        {
            proof {
                let next = self.orders@.take(i + 1);
                assert(next.drop_last() =~= self.orders@.take(i as int));
                assert(next.last() == self.orders@[i as int]);
                assert(next[best as int] == self.orders@[best as int]);
            }
            if !self.orders[i].created_at().is_before(&self.orders[best].created_at()) {
                best = i;
            }
            i += 1;
        }
        assert(self.orders@.take(i as int) =~= self.orders@);
        Some(&self.orders[best])
    }
}

impl Default for OrderQueue {
    fn default() -> (queue: OrderQueue)
        ensures
            queue@ == Seq::<Order>::empty(),
            queue.capacity() is None,
    {
        OrderQueue::new()
    }
}

} // verus!
