//! Routing graph, sample buffering and the control/audio bridge of a desktop audio
//! router, with their contracts proved by Verus.
//!
//! Signal processing on floating-point samples (equalizer, volume, spectrum analysis)
//! stays with the caller; this library holds the graph, the buffers and the decisions
//! around them.

pub mod bridge;
pub mod capture;
pub mod config;
pub mod device;
pub mod events;
pub mod filters;
pub mod graph;
pub mod hot_swap;
pub mod ring;
pub mod selection;
pub mod tabs;
pub mod text;
pub mod types;

pub use bridge::{Action, Bridge};
pub use capture::{
    capture_client_name, find_monitor_ports, matches_target, spectrum_window, SpectrumSchedule, BUFFER_CAPACITY,
    FFT_SIZE, NUM_BINS, PROCESS_INTERVAL_MS,
};
pub use config::{Config, VisualizationConfig};
pub use device::VirtualDevice;
pub use events::{AudioCommand, AudioEvent};
pub use filters::{FilterOutcome, FilterStates};
pub use graph::{Connection, DeviceInfo, RoutingGraph};
pub use hot_swap::{HotParam, HotSlot};
pub use ring::RingBuffer;
pub use tabs::DeviceTab;
pub use types::{DeviceId, DeviceType, PortDirection, PortId, PortInfo};
