//! Dispatch strategies: how a node ranks the orders it knows of.
//!
//! A strategy is a pure function from the pending orders and the asking
//! elevator's situation to the same orders in priority order. The baseline
//! strategy ranks by age alone.

use crate::queue::order::{Direction, Order};
use vstd::prelude::*;

verus! {

/// The situation of the elevator that asks for a ranking.
#[derive(Debug, Clone, Copy)]
pub struct SchedulerContext {
    pub current_floor: u8,
    pub current_direction: Option<Direction>,
    pub elevator_id: u128,
}

impl SchedulerContext {
    pub fn new(current_floor: u8, current_direction: Option<Direction>, elevator_id: u128) -> (context:
        SchedulerContext)
        ensures
            context.current_floor == current_floor,
            context.current_direction == current_direction,
            context.elevator_id == elevator_id,
    {
        SchedulerContext { current_floor, current_direction, elevator_id }
    }
}

/// A dispatch strategy.
///
/// The ranking is a function of the orders and the context alone, and it
/// holds the very orders it was given, each as often as it was given.
pub trait Scheduler {
    /// The ranking that the strategy gives to `orders` in `context`.
    spec fn ranking(&self, orders: Seq<Order>, context: SchedulerContext) -> Seq<Order>;

    /// Ranks the orders, most urgent first.
    fn schedule(&self, orders: &[Order], context: &SchedulerContext) -> (ranked: Vec<Order>)
        ensures
            ranked@ == self.ranking(orders@, *context),
            ranked@.to_multiset() == orders@.to_multiset(),
    ;

    /// The name by which the strategy is known.
    spec fn label(&self) -> Seq<char>;

    /// The name of the strategy.
    fn name(&self) -> (name: &'static str)
        ensures
            name@ == self.label(),
    ;
}

/// Where an order goes in a sequence that is ranked by age: behind every
/// order that is not younger than it, so in front of the unbroken run of
/// strictly younger orders at the end.
pub open spec fn insertion_point(ranked: Seq<Order>, order: Order) -> int
    decreases ranked.len(),
{
    if ranked.len() > 0 && order.created_at().precedes(ranked.last().created_at()) {
        insertion_point(ranked.drop_last(), order)
    } else {
        ranked.len() as int
    }
}

/// The orders ranked by age, oldest first, orders of the same age in the
/// order in which they were given: each order in turn is placed at its
/// insertion point among those given before it.
pub open spec fn chronological(orders: Seq<Order>) -> Seq<Order>
    decreases orders.len(),
{
    if orders.len() == 0 {
        Seq::empty()
    } else {
        let ranked = chronological(orders.drop_last());
        ranked.insert(insertion_point(ranked, orders.last()), orders.last())
    }
}

/// No order in the sequence is younger than one that comes after it.
pub open spec fn ranked_by_age(orders: Seq<Order>) -> bool {
    forall|i: int, j: int|
        0 <= i < j < orders.len() ==> !(#[trigger] orders[j]).created_at().precedes(
            (#[trigger] orders[i]).created_at(),
        )
}

/// The insertion point is a position of the sequence; every order from it
/// on is strictly younger than the new order, and the order just before it
/// is not.
pub proof fn lemma_insertion_point(ranked: Seq<Order>, order: Order)
    ensures
        0 <= insertion_point(ranked, order) <= ranked.len(),
        forall|k: int|
            insertion_point(ranked, order) <= k < ranked.len() ==> order.created_at().precedes(
                (#[trigger] ranked[k]).created_at(),
            ),
        insertion_point(ranked, order) > 0 ==> !order.created_at().precedes(
            ranked[insertion_point(ranked, order) - 1].created_at(),
        ),
    decreases ranked.len(),
{
    if ranked.len() > 0 && order.created_at().precedes(ranked.last().created_at()) {
        let front = ranked.drop_last();
        lemma_insertion_point(front, order);
        assert forall|k: int| insertion_point(ranked, order) <= k < ranked.len() implies order
            .created_at().precedes((#[trigger] ranked[k]).created_at()) by {
            if k < front.len() {
                assert(ranked[k] == front[k]);
            }
        }
        if insertion_point(ranked, order) > 0 {
            assert(ranked[insertion_point(ranked, order) - 1] == front[insertion_point(
                front,
                order,
            ) - 1]);
        }
    }
}

/// A position with the two properties of the insertion point is the
/// insertion point.
pub proof fn lemma_insertion_point_unique(ranked: Seq<Order>, order: Order, at: int)
    requires
        0 <= at <= ranked.len(),
        forall|k: int|
            at <= k < ranked.len() ==> order.created_at().precedes(
                (#[trigger] ranked[k]).created_at(),
            ),
        at > 0 ==> !order.created_at().precedes(ranked[at - 1].created_at()),
    ensures
        insertion_point(ranked, order) == at,
    decreases ranked.len(),
{
    if at < ranked.len() {
        assert(order.created_at().precedes(ranked[ranked.len() - 1].created_at()));
        lemma_insertion_point_unique(ranked.drop_last(), order, at);
    }
}

/// The ranking by age holds as many orders as it was given.
pub proof fn lemma_chronological_len(orders: Seq<Order>)
    ensures
        chronological(orders).len() == orders.len(),
    decreases orders.len(),
{
    if orders.len() > 0 {
        lemma_chronological_len(orders.drop_last());
        lemma_insertion_point(chronological(orders.drop_last()), orders.last());
    }
}

/// The ranking by age is a rearrangement: it holds each order as often as
/// the input does.
pub proof fn lemma_chronological_permutation(orders: Seq<Order>)
    ensures
        chronological(orders).to_multiset() == orders.to_multiset(),
    decreases orders.len(),
{
    broadcast use vstd::seq_lib::group_to_multiset_ensures;

    if orders.len() == 0 {
        assert(orders =~= Seq::empty());
    } else {
        let rest = orders.drop_last();
        lemma_chronological_permutation(rest);
        lemma_insertion_point(chronological(rest), orders.last());
        assert(orders =~= rest.push(orders.last()));
    }
}

/// The ranking by age is in order: no order in it is younger than a later
/// one.
pub proof fn lemma_chronological_ranked(orders: Seq<Order>)
    ensures
        ranked_by_age(chronological(orders)),
    decreases orders.len(),
{
    if orders.len() > 0 {
        let ranked = chronological(orders.drop_last());
        let order = orders.last();
        let at = insertion_point(ranked, order);
        lemma_chronological_ranked(orders.drop_last());
        lemma_insertion_point(ranked, order);
        let placed = ranked.insert(at, order);
        assert forall|i: int, j: int| 0 <= i < j < placed.len() implies !(#[trigger] placed[j])
            .created_at().precedes((#[trigger] placed[i]).created_at()) by {
            if j == at {
                // placed[i] is ranked[i] with i < at, which is no younger than ranked[at - 1]
                assert(placed[i] == ranked[i]);
                if i < at - 1 {
                    assert(!ranked[at - 1].created_at().precedes(ranked[i].created_at()));
                }
            } else if i == at {
                assert(placed[j] == ranked[j - 1]);
            } else if i < at && j > at {
                assert(placed[i] == ranked[i]);
                assert(placed[j] == ranked[j - 1]);
            } else if j < at {
                assert(placed[i] == ranked[i]);
                assert(placed[j] == ranked[j]);
            } else {
                assert(placed[i] == ranked[i - 1]);
                assert(placed[j] == ranked[j - 1]);
            }
        }
    }
}

/// The ranking by age is stable: the orders created at any one instant
/// stand in it in the order in which they were given.
pub proof fn lemma_chronological_stable(orders: Seq<Order>, instant: crate::timestamp::Timestamp)
    ensures
        chronological(orders).filter(|o: Order| o.created_at() == instant) == orders.filter(
            |o: Order| o.created_at() == instant,
        ),
    decreases orders.len(),
{
    let same = |o: Order| o.created_at() == instant;
    if orders.len() == 0 {
        assert(chronological(orders) =~= orders);
    } else {
        let rest = orders.drop_last();
        let order = orders.last();
        let ranked = chronological(rest);
        let at = insertion_point(ranked, order);
        lemma_chronological_stable(rest, instant);
        lemma_insertion_point(ranked, order);
        let front = ranked.subrange(0, at);
        let back = ranked.subrange(at, ranked.len() as int);
        assert(ranked =~= front + back);
        assert(ranked.insert(at, order) =~= front.push(order) + back);
        Seq::filter_distributes_over_add(front, back, same);
        Seq::filter_distributes_over_add(front.push(order), back, same);
        front.lemma_filter_push(order, same);
        assert(orders =~= rest.push(order));
        rest.lemma_filter_push(order, same);
        if same(order) {
            // every order behind the insertion point is strictly younger
            assert forall|k: int| 0 <= k < back.len() implies !same(#[trigger] back[k]) by {
                assert(back[k] == ranked[at + k]);
            }
            back.lemma_all_neg_filter_empty(same);
            assert(back.filter(same) =~= Seq::<Order>::empty());
            assert(front.filter(same).push(order) + back.filter(same) =~= (front.filter(same)
                + back.filter(same)).push(order));
        }
    }
}

/// The baseline strategy: the oldest order first, whatever its floor or
/// direction.
pub struct FifoScheduler;

impl Scheduler for FifoScheduler {
    open spec fn ranking(&self, orders: Seq<Order>, context: SchedulerContext) -> Seq<Order> {
        chronological(orders)
    }

    open spec fn label(&self) -> Seq<char> {
        "FIFO"@
    }

    fn schedule(&self, orders: &[Order], _context: &SchedulerContext) -> (ranked: Vec<Order>) {
        let mut ranked: Vec<Order> = Vec::new();
        let mut i: usize = 0;
        assert(orders@.take(0) =~= Seq::<Order>::empty());
        while i < orders.len()
            invariant
                0 <= i <= orders.len(),
                ranked@ == chronological(orders@.take(i as int)),
                ranked@.len() == i,
            decreases orders.len() - i,
        {
            let order = orders[i];
            let mut at: usize = ranked.len();
            while at > 0 && order.created_at().is_before(&ranked[at - 1].created_at())
                invariant
                    0 <= at <= ranked.len(),
                    forall|k: int|
                        at <= k < ranked.len() ==> order.created_at().precedes(
                            (#[trigger] ranked@[k]).created_at(),
                        ),
                decreases at,
            {
                at -= 1;
            }
            proof {
                lemma_insertion_point_unique(ranked@, order, at as int);
                assert(orders@.take(i + 1).drop_last() =~= orders@.take(i as int));
                assert(orders@.take(i + 1).last() == order);
            }
            ranked.insert(at, order);
            i += 1;
        }
        proof {
            assert(orders@.take(i as int) =~= orders@);
            lemma_chronological_permutation(orders@);
        }
        ranked
    }

    fn name(&self) -> (name: &'static str) {
        "FIFO"
    }
}

/// Of two orders, the one created first is ranked first by the baseline
/// strategy, in whichever order the two were given and whatever their
/// floors.
pub proof fn lemma_older_order_first(older: Order, younger: Order)
    requires
        older.created_at().precedes(younger.created_at()),
    ensures
        chronological(seq![older, younger]) == seq![older, younger],
        chronological(seq![younger, older]) == seq![older, younger],
{
    let none = Seq::<Order>::empty();
    assert(chronological(none) == none);
    assert(seq![older].drop_last() =~= none);
    assert(seq![younger].drop_last() =~= none);
    assert(insertion_point(none, older) == 0);
    assert(insertion_point(none, younger) == 0);
    assert(chronological(seq![older]) =~= seq![older]);
    assert(chronological(seq![younger]) =~= seq![younger]);
    assert(seq![older, younger].drop_last() =~= seq![older]);
    assert(seq![younger, older].drop_last() =~= seq![younger]);
    lemma_insertion_point_unique(seq![older], younger, 1);
    lemma_insertion_point_unique(seq![younger], older, 0);
    assert(chronological(seq![older, younger]) =~= seq![older, younger]);
    assert(chronological(seq![younger, older]) =~= seq![older, younger]);
}

} // verus!
