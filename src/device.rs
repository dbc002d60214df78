//! Devices that this program creates on the audio server.
use vstd::prelude::*;
use crate::types::DeviceId;

verus! {

/// A virtual device: a name and a number of input and output ports.
#[derive(Debug)]
pub struct VirtualDevice {
    pub id: DeviceId,
    pub name: String,
    pub num_inputs: usize,
    pub num_outputs: usize,
}

impl VirtualDevice {
    pub fn new(id: DeviceId, name: String, num_inputs: usize, num_outputs: usize) -> (r: Self)
        ensures
            r.id == id,
            r.name == name,
            r.num_inputs == num_inputs,
            r.num_outputs == num_outputs,
    {
        VirtualDevice { id, name, num_inputs, num_outputs }
    }
}

} // verus!
