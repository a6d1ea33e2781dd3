//! The extraction slot pool: the fixed-capacity admission mechanism that
//! bounds how many write tasks are in flight at once, and whose drained
//! state is the completion barrier. The surrounding binary drives its real
//! counting primitive through the same protocol; this model carries the
//! invariants: in-flight tasks never exceed the capacity, and the barrier is
//! reached exactly when every acquired slot has been released.

use vstd::prelude::*;

verus! {

/// The mathematical state of a pool: its fixed capacity and how many slots
/// are currently held.
pub struct PoolModel {
    pub capacity: nat,
    pub in_flight: nat,
}

impl PoolModel {
    /// A pool never hands out more slots than its capacity.
    pub open spec fn wf(self) -> bool {
        self.in_flight <= self.capacity
    }
}

/// One transition of the pool.
#[derive(Clone, Copy, Debug, PartialEq, Eq, Structural)]
pub enum SlotEvent {
    /// A holder takes one slot.
    Acquire,
    /// A holder gives its slot back.
    Release,
}

/// Whether one event is allowed in a state: a slot can be taken only while
/// one is free, and given back only while one is held.
pub open spec fn event_ok(p: PoolModel, e: SlotEvent) -> bool {
    match e {
        SlotEvent::Acquire => p.in_flight < p.capacity,
        SlotEvent::Release => p.in_flight > 0,
    }
}

/// The state after one event.
pub open spec fn apply_event(p: PoolModel, e: SlotEvent) -> PoolModel {
    match e {
        SlotEvent::Acquire => PoolModel { capacity: p.capacity, in_flight: p.in_flight + 1 },
        SlotEvent::Release => PoolModel {
            capacity: p.capacity,
            in_flight: if p.in_flight > 0 {
                (p.in_flight - 1) as nat
            } else {
                0
            },
        },
    }
}

/// Whether a whole event history is allowed, step by step.
pub open spec fn events_ok(p: PoolModel, es: Seq<SlotEvent>) -> bool
    decreases es.len(),
{
    es.len() == 0 || (event_ok(p, es[0]) && events_ok(apply_event(p, es[0]), es.drop_first()))
}

/// The state after a whole event history.
pub open spec fn apply_events(p: PoolModel, es: Seq<SlotEvent>) -> PoolModel
    decreases es.len(),
{
    if es.len() == 0 {
        p
    } else {
        apply_events(apply_event(p, es[0]), es.drop_first())
    }
}

/// How many of the events take a slot.
pub open spec fn count_acquires(es: Seq<SlotEvent>) -> nat
    decreases es.len(),
{
    if es.len() == 0 {
        0
    } else {
        (if es[0] is Acquire {
            1nat
        } else {
            0nat
        }) + count_acquires(es.drop_first())
    }
}

/// How many of the events give a slot back.
pub open spec fn count_releases(es: Seq<SlotEvent>) -> nat
    decreases es.len(),
{
    if es.len() == 0 {
        0
    } else {
        (if es[0] is Release {
            1nat
        } else {
            0nat
        }) + count_releases(es.drop_first())
    }
}

/// Slot accounting balances: after any allowed event history the slots still
/// held are exactly the acquisitions not yet matched by a release. So a pool
/// that started idle is idle again — the completion barrier opens — exactly
/// when every acquired slot has been released, and never before.
pub proof fn lemma_barrier_balance(p: PoolModel, es: Seq<SlotEvent>)
    requires
        events_ok(p, es),
    ensures
        apply_events(p, es).capacity == p.capacity,
        apply_events(p, es).in_flight + count_releases(es) == p.in_flight + count_acquires(es),
    decreases es.len(),
{
    if es.len() > 0 {
        lemma_barrier_balance(apply_event(p, es[0]), es.drop_first());
    }
}

/// Backpressure: an allowed event history never drives a well-formed pool
/// past its capacity — no more write tasks are ever in flight than the pool
/// admits.
pub proof fn lemma_backpressure(p: PoolModel, es: Seq<SlotEvent>)
    requires
        p.wf(),
        events_ok(p, es),
    ensures
        apply_events(p, es).wf(),
    decreases es.len(),
{
    if es.len() > 0 {
        lemma_backpressure(apply_event(p, es[0]), es.drop_first());
    }
}

/// The executable pool: a capacity fixed at creation and a count of held
/// slots, driven through [`apply_event`].
pub struct SlotPool {
    capacity: usize,
    in_flight: usize,
}

impl View for SlotPool {
    type V = PoolModel;

    closed spec fn view(&self) -> PoolModel {
        PoolModel { capacity: self.capacity as nat, in_flight: self.in_flight as nat }
    }
}

impl SlotPool {
    /// A pool of `max_concurrency + 1` slots, all free: one above the
    /// requested concurrency, so that the decode loop itself can hold a slot
    /// for its whole duration without starving the workers.
    pub fn new(max_concurrency: usize) -> (p: SlotPool)
        requires
            1 <= max_concurrency < usize::MAX,
        ensures
            p@ == (PoolModel { capacity: max_concurrency as nat + 1, in_flight: 0 }),
            p@.wf(),
    {
        SlotPool { capacity: max_concurrency + 1, in_flight: 0 }
    }

    /// Whether a slot is free right now.
    pub fn can_acquire(&self) -> (r: bool)
        ensures
            r == event_ok(self@, SlotEvent::Acquire),
    {
        self.in_flight < self.capacity
    }

    /// Takes one slot. The caller blocks on its real counting primitive
    /// until this is allowed.
    pub fn acquire(&mut self)
        requires
            event_ok(old(self)@, SlotEvent::Acquire),
        ensures
            final(self)@ == apply_event(old(self)@, SlotEvent::Acquire),
    {
        self.in_flight = self.in_flight + 1;
    }

    /// Gives one slot back; a finished holder does this unconditionally,
    /// also on failure.
    pub fn release(&mut self)
        requires
            event_ok(old(self)@, SlotEvent::Release),
        ensures
            final(self)@ == apply_event(old(self)@, SlotEvent::Release),
    {
        self.in_flight = self.in_flight - 1;
    }

    /// The completion barrier's condition: no slot is held any more.
    pub fn is_idle(&self) -> (r: bool)
        ensures
            r == (self@.in_flight == 0),
    {
        self.in_flight == 0
    }

    /// How many slots are currently held.
    pub fn held(&self) -> (r: usize)
        ensures
            r == self@.in_flight,
    {
        self.in_flight
    }
}

} // verus!
