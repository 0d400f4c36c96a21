//! Keyboard event dispatch to registered observers.
//!
//! Observers are callables registered once and kept for the process lifetime;
//! the scheduler notifies every observer of every input event, in
//! registration order.  The registry here records each observer under a
//! caller-chosen identity, and `notify_observers` returns the exact call
//! plan — one entry per registered observer, in order — which the
//! surrounding application maps back to the real callables it holds.

use vstd::prelude::*;

verus! {

/// An input event forwarded to observers.
#[derive(Clone, Copy, Debug, PartialEq, Eq, Structural)]
pub enum Event {
    KeyDown(u8),
    KeyUp(u8),
}

/// The class of events an observer subscribes to.
#[derive(Clone, Copy, Debug, PartialEq, Eq, Structural)]
pub enum EventClass {
    Keyboard,
}

/// One pending observer invocation: which observer, with which event.
#[derive(Clone, Copy, Debug, PartialEq, Eq, Structural)]
pub struct ObserverCall {
    pub observer: u64,
    pub event: Event,
}

/// The append-only list of keyboard observers, in registration order.
#[derive(Clone, Debug)]
pub struct ObserverRegistry {
    pub keyboard_observers: Vec<u64>,
}

impl ObserverRegistry {
    /// A registry with no observers.
    pub fn new() -> (reg: ObserverRegistry)
        ensures
            reg.keyboard_observers@ == Seq::<u64>::empty(),
    {
        ObserverRegistry { keyboard_observers: Vec::new() }
    }
}

/// The calls one event gives rise to: every observer exactly once, in
/// registration order, each with that event.
pub open spec fn spec_notify_plan(observers: Seq<u64>, event: Event) -> Seq<ObserverCall> {
    Seq::new(observers.len(), |i: int| ObserverCall { observer: observers[i], event })
}

/// Appends an observer to the list for its event class.  Observers are never
/// removed; ordering of notification matches registration order.
pub fn register_observer(reg: &mut ObserverRegistry, event_class: EventClass, observer: u64)
    ensures
        final(reg).keyboard_observers@ == old(reg).keyboard_observers@.push(observer),
{
    match event_class {
        EventClass::Keyboard => reg.keyboard_observers.push(observer),
    }
}

/// Plans the delivery of `event`: exactly one call per registered observer,
/// in registration order.
pub fn notify_observers(reg: &ObserverRegistry, event: Event) -> (calls: Vec<ObserverCall>)
    ensures
        calls@ == spec_notify_plan(reg.keyboard_observers@, event),
{
    let mut calls: Vec<ObserverCall> = Vec::new();
    let n = reg.keyboard_observers.len();
    let mut i: usize = 0;
    while i < n
        invariant
            i <= n,
            n == reg.keyboard_observers@.len(),
            calls@ == spec_notify_plan(reg.keyboard_observers@, event).subrange(0, i as int),
        decreases n - i,
    {
        calls.push(ObserverCall { observer: reg.keyboard_observers[i], event });
        proof {
            assert(calls@ =~= spec_notify_plan(reg.keyboard_observers@, event).subrange(
                0,
                i + 1 as int,
            ));
        }
        i = i + 1;
    }
    proof {
        assert(spec_notify_plan(reg.keyboard_observers@, event).subrange(0, n as int)
            =~= spec_notify_plan(reg.keyboard_observers@, event));
    }
    calls
}

} // verus!
