//! Which devices have a filter (equalizer or volume) enabled, and with what settings.
//! The settings themselves are opaque here: every command is answered with an outcome,
//! and a command on a device whose filter is off changes nothing.
use vstd::prelude::*;
use std::collections::HashMap;
use crate::text::{append_chars, append_str, decimal, decimal_chars, string_of};
use crate::types::DeviceId;

verus! {

broadcast use vstd::std_specs::hash::group_hash_axioms;

/// How a filter command ended.
#[derive(Debug)]
pub enum FilterOutcome<S> {
    /// The filter is on, with these settings.
    Enabled(S),
    /// The filter is off.
    Disabled,
    /// The filter's settings are now these.
    Updated(S),
    /// The device has no filter on; nothing changed.
    NotEnabled,
}

/// The settings of each device whose filter is on, keyed by the device's number.
pub struct FilterStates<S> {
    table: HashMap<u64, S>,
}

impl<S: Copy> FilterStates<S> {
    /// The settings of each device whose filter is on, by device number.
    pub closed spec fn states(&self) -> Map<u64, S> {
        self.table@
    }

    /// No filter on anywhere.
    pub fn new() -> (r: Self)
        ensures
            r.states() == Map::<u64, S>::empty(),
    {
        FilterStates { table: HashMap::new() }
    }

    /// The settings in force for `device_id`, if its filter is on.
    pub fn current(&self, device_id: DeviceId) -> (r: Option<S>)
        ensures
            r == (if self.states().contains_key(device_id.0) { Some(self.states()[device_id.0]) } else { None }),
    {
        match self.table.get(&device_id.0) {
            Some(s) => Some(*s),
            None => None,
        }
    }

    /// Turns the filter of `device_id` on with `settings`, replacing earlier ones.
    pub fn enable(&mut self, device_id: DeviceId, settings: S) -> (r: FilterOutcome<S>)
        ensures
            final(self).states() == old(self).states().insert(device_id.0, settings),
            r == FilterOutcome::Enabled(settings),
    {
        self.table.insert(device_id.0, settings);
        FilterOutcome::Enabled(settings)
    }

    /// Turns the filter of `device_id` off.
    pub fn disable(&mut self, device_id: DeviceId) -> (r: FilterOutcome<S>)
        ensures
            final(self).states() == old(self).states().remove(device_id.0),
            r == (if old(self).states().contains_key(device_id.0) {
                FilterOutcome::<S>::Disabled
            } else {
                FilterOutcome::<S>::NotEnabled
            }),
    {
        match self.table.remove(&device_id.0) {
            Some(_) => FilterOutcome::Disabled,
            None => FilterOutcome::NotEnabled,
        }
    }

    /// Replaces the settings of `device_id` where its filter is on.
    pub fn update(&mut self, device_id: DeviceId, settings: S) -> (r: FilterOutcome<S>)
        ensures
            old(self).states().contains_key(device_id.0) ==> final(self).states() == old(self).states().insert(
                device_id.0,
                settings,
            ) && r == FilterOutcome::Updated(settings),
            !old(self).states().contains_key(device_id.0) ==> final(self).states() == old(self).states() && r
                == FilterOutcome::<S>::NotEnabled,
    {
        match self.table.get(&device_id.0) {
            Some(_) => {
                self.table.insert(device_id.0, settings);
                FilterOutcome::Updated(settings)
            },
            None => FilterOutcome::NotEnabled,
        }
    }
}

/// The message for a command on a device whose filter is off.
pub open spec fn not_enabled_message(device_id: DeviceId) -> Seq<char> {
    "Filter not enabled for device DeviceId("@ + decimal(device_id.0 as nat) + ")"@
}

/// The message for a command on a device whose filter is off.
pub fn not_enabled_text(device_id: DeviceId) -> (r: String)
    ensures
        r@ == not_enabled_message(device_id),
{
    let mut cs: Vec<char> = Vec::new();
    append_str(&mut cs, "Filter not enabled for device DeviceId(");
    let digits = decimal_chars(device_id.0);
    append_chars(&mut cs, &digits);
    append_str(&mut cs, ")");
    string_of(&cs)
}

} // verus!
