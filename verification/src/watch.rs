//! The slot behind a watch channel: it holds at most one value, the latest one
//! sent and not yet received. A new value replaces an unreceived one, and a
//! value is received at most once.
use vstd::prelude::*;

verus! {

/// The latest value sent and not yet received, if any.
pub struct WatchSlot<T> {
    value: Option<T>,
}

/// The slot after `value` was sent into a slot holding `slot`.
pub open spec fn slot_after_send<T>(slot: Option<T>, value: T) -> Option<T> {
    Some(value)
}

/// What a receive from a slot holding `slot` returns, and the slot after it.
pub open spec fn slot_after_recv<T>(slot: Option<T>) -> (Option<T>, Option<T>) {
    (slot, None)
}

impl<T> View for WatchSlot<T> {
    type V = Option<T>;

    closed spec fn view(&self) -> Option<T> {
        self.value
    }
}

impl<T> WatchSlot<T> {
    /// An empty slot.
    pub fn new() -> (r: Self)
        ensures
            r@ is None,
    {
        WatchSlot { value: None }
    }

    /// Stores `value`, replacing any value not yet received.
    pub fn send(&mut self, value: T)
        ensures
            final(self)@ == slot_after_send(old(self)@, value),
    {
        self.value = Some(value);
    }

    /// Takes the value out of the slot, if there is one.
    pub fn try_recv(&mut self) -> (r: Option<T>)
        ensures
            (r, final(self)@) == slot_after_recv(old(self)@),
    {
        self.value.take()
    }

    /// No value is waiting.
    pub fn is_empty(&self) -> (r: bool)
        ensures
            r <==> self@ is None,
    {
        self.value.is_none()
    }
}

/// Of two sends with no receive between them, a receive gets the second value
/// only: the first one is lost.
pub proof fn law_latest_value_wins<T>(slot: Option<T>, first: T, second: T)
    ensures
        slot_after_recv(slot_after_send(slot_after_send(slot, first), second)).0 == Some(second),
{
}

/// A value sent is received once: the receive right after the send returns it,
/// and the next receive finds the slot empty.
pub proof fn law_received_once<T>(slot: Option<T>, value: T)
    ensures
        slot_after_recv(slot_after_send(slot, value)).0 == Some(value),
        slot_after_recv(slot_after_recv(slot_after_send(slot, value)).1).0 is None,
{
}

} // verus!
