//! Identifiers and the port record shared by the graph and the bridge.
use vstd::prelude::*;
use crate::text::{append_chars, append_str, decimal, decimal_chars, string_of};

verus! {

/// Identifier of an audio device; handed out by the routing graph, never reused.
#[derive(Debug, Clone, Copy, PartialEq, Eq, Hash, Structural)]
pub struct DeviceId(pub u64);

impl DeviceId {
    pub fn new(id: u64) -> (r: Self)
        ensures
            r.0 == id,
    {
        DeviceId(id)
    }

    /// Human-readable form, `Device(<n>)`.
    pub fn label(&self) -> (r: String)
        ensures
            r@ == "Device("@ + decimal(self.0 as nat) + ")"@,
    {
        let mut cs: Vec<char> = Vec::new();
        append_str(&mut cs, "Device(");
        let digits = decimal_chars(self.0);
        append_chars(&mut cs, &digits);
        append_str(&mut cs, ")");
        string_of(&cs)
    }
}

/// Identifier of an audio port; handed out by the routing graph, never reused.
#[derive(Debug, Clone, Copy, PartialEq, Eq, Hash, Structural)]
pub struct PortId(pub u64);

impl PortId {
    pub fn new(id: u64) -> (r: Self)
        ensures
            r.0 == id,
    {
        PortId(id)
    }

    /// Human-readable form, `Port(<n>)`.
    pub fn label(&self) -> (r: String)
        ensures
            r@ == "Port("@ + decimal(self.0 as nat) + ")"@,
    {
        let mut cs: Vec<char> = Vec::new();
        append_str(&mut cs, "Port(");
        let digits = decimal_chars(self.0);
        append_chars(&mut cs, &digits);
        append_str(&mut cs, ")");
        string_of(&cs)
    }
}

/// Where a device comes from.
#[derive(Debug, Clone, Copy, PartialEq, Eq, Structural)]
pub enum DeviceType {
    /// Hardware discovered on the audio server.
    Physical,
    /// Created on request by this program.
    Virtual,
}

impl DeviceType {
    /// The variant's name.
    pub fn name(&self) -> (r: &'static str)
        ensures
            r@ == (match self {
                DeviceType::Physical => "Physical"@,
                DeviceType::Virtual => "Virtual"@,
            }),
    {
        match self {
            DeviceType::Physical => "Physical",
            DeviceType::Virtual => "Virtual",
        }
    }
}

/// Direction of audio flow through a port.
#[derive(Debug, Clone, Copy, PartialEq, Eq, Structural)]
pub enum PortDirection {
    /// Receives audio.
    Input,
    /// Sends audio.
    Output,
}

impl PortDirection {
    /// The variant's name.
    pub fn name(&self) -> (r: &'static str)
        ensures
            r@ == (match self {
                PortDirection::Input => "Input"@,
                PortDirection::Output => "Output"@,
            }),
    {
        match self {
            PortDirection::Input => "Input",
            PortDirection::Output => "Output",
        }
    }
}

/// A port of a device.
#[derive(Debug)]
pub struct PortInfo {
    pub id: PortId,
    /// Short name, the part after the node name.
    pub name: String,
    pub direction: PortDirection,
    /// Fully qualified name on the audio server, `node_name:port_name`; the key by
    /// which server objects are matched to graph ports.
    pub pipewire_port_name: String,
}

impl PortInfo {
    pub fn new(id: PortId, name: String, direction: PortDirection, pipewire_port_name: String) -> (r: Self)
        ensures
            r.id == id,
            r.name == name,
            r.direction == direction,
            r.pipewire_port_name == pipewire_port_name,
    {
        PortInfo { id, name, direction, pipewire_port_name }
    }
}

impl Clone for PortInfo {
    fn clone(&self) -> (r: Self)
        ensures
            r == *self,
    {
        PortInfo {
            id: self.id,
            name: self.name.clone(),
            direction: self.direction,
            pipewire_port_name: self.pipewire_port_name.clone(),
        }
    }
}

} // verus!
