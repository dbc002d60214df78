//! The values that cross between the control side and the audio side.
use vstd::prelude::*;
use crate::types::{DeviceId, DeviceType, PortId};

verus! {

/// Requests from the control side to the audio side; each one is answered by an event.
#[derive(Debug)]
pub enum AudioCommand {
    /// Create a virtual device with the given numbers of ports.
    CreateVirtualDevice { name: String, num_inputs: usize, num_outputs: usize },
    /// Destroy a virtual device created earlier.
    DestroyVirtualDevice { device_id: DeviceId },
    /// Link two ports, named by their qualified names.
    Connect { source_port: String, dest_port: String },
    /// Unlink two ports, named by their qualified names.
    Disconnect { source_port: String, dest_port: String },
    /// Start a spectrum capture on a device.
    StartVisualization { device_id: DeviceId, port_id: PortId },
    /// Stop the spectrum capture of a device.
    StopVisualization { device_id: DeviceId },
}

/// Reports from the audio side to the control side.
#[derive(Debug)]
pub enum AudioEvent {
    DeviceAdded { device_id: DeviceId, name: String, device_type: DeviceType },
    DeviceRemoved { device_id: DeviceId },
    ConnectionEstablished { source: String, destination: String },
    ConnectionBroken { source: String, destination: String },
    /// The server reported a buffer underrun or overrun.
    Xrun,
    Error { message: String },
    VisualizationStarted { device_id: DeviceId, port_id: PortId },
    VisualizationStopped { device_id: DeviceId },
}

} // verus!
