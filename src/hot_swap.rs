//! Hot-swappable parameters: the control side stages a full settings snapshot in a
//! single slot, the real-time side picks it up when it can. Staging again before a
//! pick-up replaces the snapshot: the last write wins, no history is kept.
//!
//! The slot lives behind a lock that the real-time side only ever tries, and a flag
//! tells it cheaply whether anything is staged; both belong to the caller.
use vstd::prelude::*;

verus! {

/// The staging slot shared by the two sides.
pub struct HotSlot<T> {
    pending: Option<T>,
}

impl<T> HotSlot<T> {
    /// The snapshot waiting to be picked up.
    pub closed spec fn pending(&self) -> Option<T> {
        self.pending
    }

    /// An empty slot.
    pub fn new() -> (r: Self)
        ensures
            r.pending() is None,
    {
        HotSlot { pending: None }
    }

    /// Stages `value`, replacing a snapshot that was not picked up yet.
    pub fn stage(&mut self, value: T)
        ensures
            final(self).pending() == Some(value),
    {
        self.pending = Some(value);
    }

    /// Takes the staged snapshot out, leaving the slot empty.
    pub fn take(&mut self) -> (r: Option<T>)
        ensures
            r == old(self).pending(),
            final(self).pending() is None,
    {
        self.pending.take()
    }

    /// Whether a snapshot waits.
    pub fn is_pending(&self) -> (r: bool)
        ensures
            r == self.pending() is Some,
    {
        self.pending.is_some()
    }
}

/// The value in force on the real-time side.
pub struct HotParam<T> {
    current: T,
}

impl<T> HotParam<T> {
    pub closed spec fn current_value(&self) -> T {
        self.current
    }

    pub fn new(value: T) -> (r: Self)
        ensures
            r.current_value() == value,
    {
        HotParam { current: value }
    }

    /// The value in force.
    pub fn current(&self) -> (r: &T)
        ensures
            *r == self.current_value(),
    {
        &self.current
    }

    /// Puts the staged snapshot of `slot` in force, if there is one, and tells whether
    /// it did; the caller then clears its flag.
    pub fn pick_up(&mut self, slot: &mut HotSlot<T>) -> (r: bool)
        ensures
            picked_up(*old(self), *old(slot), *final(self), *final(slot), r),
    {
        match slot.take() {
            Some(v) => {
                self.current = v;
                true
            },
            None => false,
        }
    }
}

/// What `pick_up` does: a staged snapshot is put in force and the slot emptied;
/// with nothing staged, both stay as they are.
pub open spec fn picked_up<T>(
    param: HotParam<T>,
    slot: HotSlot<T>,
    new_param: HotParam<T>,
    new_slot: HotSlot<T>,
    r: bool,
) -> bool {
    &&& r == slot.pending() is Some
    &&& r ==> new_param.current_value() == slot.pending()->0 && new_slot.pending() is None
    &&& !r ==> new_param.current_value() == param.current_value() && new_slot.pending() == slot.pending()
}

/// Last write wins: `slot1` holds `first` once staged, `slot2` is `slot1` after staging
/// `second`, and the pick-up from `slot2` puts `second` in force and empties the slot,
/// whatever was staged first and whatever was in force.
pub proof fn lemma_last_write_wins<T>(
    slot1: HotSlot<T>,
    slot2: HotSlot<T>,
    slot3: HotSlot<T>,
    param: HotParam<T>,
    new_param: HotParam<T>,
    first: T,
    second: T,
    r: bool,
)
    requires
        slot1.pending() == Some(first),
        slot2.pending() == Some(second),
        picked_up(param, slot2, new_param, slot3, r),
    ensures
        r,
        new_param.current_value() == second,
        slot3.pending() is None,
{
}

} // verus!
