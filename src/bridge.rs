//! The bridge between the audio server, the routing graph and the control side.
//!
//! Discovery callbacks of the server and commands of the control side come in as plain
//! values; the bridge updates the graph and its tables and answers with events, or with
//! an action that the caller performs on the server before reporting back.
use vstd::prelude::*;
use crate::device::VirtualDevice;
use crate::events::{AudioCommand, AudioEvent};
use crate::graph::{
    device_index, devices_without, first_named, first_with_id, lemma_first_index,
    with_device_id, Connection, DeviceInfo, RoutingGraph,
};
use std::collections::{HashMap, HashSet};
use vstd::std_specs::hash::spec_hash_map_iter;
use vstd::std_specs::iter::IteratorSpec;
use crate::text::{
    append_chars, append_str, chars_of, decimal, decimal_chars, has_prefix, parse_u32, parsed_u32,
    starts_with, string_of,
};
use crate::types::{DeviceId, DeviceType, PortDirection, PortId, PortInfo};

verus! {

broadcast use vstd::std_specs::hash::group_hash_axioms;

/// Prefix of the server node names of the virtual devices this program creates.
pub open spec fn virtual_prefix() -> Seq<char> {
    "wavewire_virtual_"@
}

/// How a device identifier is written in messages.
pub open spec fn device_text(id: DeviceId) -> Seq<char> {
    "DeviceId("@ + decimal(id.0 as nat) + ")"@
}

pub open spec fn ports_not_found_message(source: Seq<char>, dest: Seq<char>) -> Seq<char> {
    "Ports not found: "@ + source + " -> "@ + dest
}

pub open spec fn connection_not_found_message(source: Seq<char>, dest: Seq<char>) -> Seq<char> {
    "Connection not found: "@ + source + " -> "@ + dest
}

pub open spec fn link_failed_message(source: Seq<char>, dest: Seq<char>, reason: Seq<char>) -> Seq<char> {
    "Failed to create link "@ + source + " -> "@ + dest + ": "@ + reason
}

pub open spec fn node_not_found_message(id: DeviceId) -> Seq<char> {
    "PipeWire node ID not found for device "@ + device_text(id)
}

pub open spec fn stream_failed_message(id: DeviceId, reason: Seq<char>) -> Seq<char> {
    "Failed to create visualization stream for "@ + device_text(id) + ": "@ + reason
}

pub open spec fn no_stream_message(id: DeviceId) -> Seq<char> {
    "No visualization stream found for device "@ + device_text(id)
}

pub open spec fn no_virtual_device_message() -> Seq<char> {
    "Virtual device not found"@
}

pub open spec fn ids_exhausted_message() -> Seq<char> {
    "Identifiers exhausted"@
}

/// Whether `e` is an error event with message `m`.
pub open spec fn is_error(e: AudioEvent, m: Seq<char>) -> bool {
    e matches AudioEvent::Error { message } && message@ == m
}

fn error_event(cs: Vec<char>) -> (r: AudioEvent)
    ensures
        is_error(r, cs@),
{
    AudioEvent::Error { message: string_of(&cs) }
}

fn device_text_chars(out: &mut Vec<char>, id: DeviceId)
    ensures
        final(out)@ == old(out)@ + device_text(id),
{
    let ghost start = out@;
    append_str(out, "DeviceId(");
    let digits = decimal_chars(id.0);
    append_chars(out, &digits);
    append_str(out, ")");
    assert(out@ =~= start + device_text(id));
}

fn two_names_message(lead: &str, source: &str, dest: &str) -> (r: Vec<char>)
    ensures
        r@ == lead@ + source@ + " -> "@ + dest@,
{
    let mut cs: Vec<char> = Vec::new();
    append_str(&mut cs, lead);
    append_str(&mut cs, source);
    append_str(&mut cs, " -> ");
    append_str(&mut cs, dest);
    assert(cs@ =~= lead@ + source@ + " -> "@ + dest@);
    cs
}

/// The name a discovered node is known by: its `node.name`, else its
/// `node.description`, else `Unknown Node`.
pub open spec fn node_display_name(name: Option<&str>, description: Option<&str>) -> Seq<char> {
    match name {
        Some(n) => n@,
        None => match description {
            Some(d) => d@,
            None => "Unknown Node"@,
        },
    }
}

/// `after` is `before` with one more device at the end, with identifier `id`, name
/// `name` and type `ty`; connections are kept and one device identifier was used.
pub open spec fn appended_device(
    before: RoutingGraph,
    after: RoutingGraph,
    id: DeviceId,
    name: Seq<char>,
    ty: DeviceType,
) -> bool {
    &&& after.devices().len() == before.devices().len() + 1
    &&& after.devices().drop_last() == before.devices()
    &&& after.devices().last().id == id
    &&& after.devices().last().name@ == name
    &&& after.devices().last().device_type == ty
    &&& after.device(id) == Some(after.devices().last())
    &&& forall|k: DeviceId| k != id ==> after.device(k) == before.device(k)
    &&& after.connections() == before.connections()
    &&& after.next_device() == before.next_device() + 1
}

/// The server node a port belongs to, read from its `node.id` property; 0 where that
/// is missing or not a number.
pub open spec fn port_node(node_id: Option<&str>) -> u32 {
    match node_id {
        Some(s) => match parsed_u32(s@) {
            Some(v) => v,
            None => 0,
        },
        None => 0,
    }
}

/// A port's short name: its `port.name`, else `unknown`.
pub open spec fn port_short_name(port_name: Option<&str>) -> Seq<char> {
    match port_name {
        Some(p) => p@,
        None => "unknown"@,
    }
}

/// A port's qualified name: its node's name (else `unknown`), a colon, its short name.
pub open spec fn port_qualified_name(node_name: Option<&str>, port_name: Option<&str>) -> Seq<char> {
    let n = match node_name {
        Some(n) => n@,
        None => "unknown"@,
    };
    n + ":"@ + port_short_name(port_name)
}

/// A port's direction: input where its `port.direction` is `in`, else output.
pub open spec fn port_direction(direction: Option<&str>) -> PortDirection {
    match direction {
        Some(d) => if d@ == "in"@ {
            PortDirection::Input
        } else {
            PortDirection::Output
        },
        None => PortDirection::Output,
    }
}

/// `after` is `before` where the device at `i` has one more port at the end, with the
/// given identifier, short name, direction and qualified name.
pub open spec fn port_appended(
    before: Seq<DeviceInfo>,
    after: Seq<DeviceInfo>,
    i: int,
    id: PortId,
    name: Seq<char>,
    direction: PortDirection,
    qualified: Seq<char>,
) -> bool {
    &&& after.len() == before.len()
    &&& forall|j: int| 0 <= j < after.len() && j != i ==> after[j] == before[j]
    &&& after[i].id == before[i].id
    &&& after[i].name == before[i].name
    &&& after[i].device_type == before[i].device_type
    &&& after[i].ports@.drop_last() == before[i].ports@
    &&& after[i].ports@.len() == before[i].ports@.len() + 1
    &&& after[i].ports@.last().id == id
    &&& after[i].ports@.last().name@ == name
    &&& after[i].ports@.last().direction == direction
    &&& after[i].ports@.last().pipewire_port_name@ == qualified
}

/// The port names of the virtual device `name`: `input_<i>` and `output_<i>`, each
/// qualified by the device's server node name.
pub open spec fn virtual_port_name(input: bool, i: nat) -> Seq<char> {
    (if input { "input_"@ } else { "output_"@ }) + decimal(i)
}

pub open spec fn virtual_qualified_name(device: Seq<char>, input: bool, i: nat) -> Seq<char> {
    virtual_prefix() + device + ":"@ + virtual_port_name(input, i)
}

/// `p` is port number `i` of a virtual device `name` whose port identifiers start at
/// `first`: the first `inputs` ports are inputs, the rest outputs, each numbered from 0.
pub open spec fn virtual_port(p: PortInfo, first: u64, name: Seq<char>, inputs: nat, i: int) -> bool {
    &&& p.id.0 == first + i
    &&& i < inputs ==> p.direction == PortDirection::Input && p.name@ == virtual_port_name(true, i as nat)
        && p.pipewire_port_name@ == virtual_qualified_name(name, true, i as nat)
    &&& i >= inputs ==> p.direction == PortDirection::Output && p.name@ == virtual_port_name(
        false,
        (i - inputs) as nat,
    ) && p.pipewire_port_name@ == virtual_qualified_name(name, false, (i - inputs) as nat)
}

/// `ports` are the ports of a virtual device `name`: `inputs` input ports, then
/// `outputs` output ports, with consecutive identifiers from `first`.
pub open spec fn virtual_ports(ports: Seq<PortInfo>, first: u64, name: Seq<char>, inputs: nat, outputs: nat) -> bool {
    &&& ports.len() == inputs + outputs
    &&& forall|i: int| 0 <= i < ports.len() ==> virtual_port(#[trigger] ports[i], first, name, inputs, i)
}

/// What `disconnect` does: with both ports found and connected, the connection is taken
/// out of the graph, the link that carried it (if known) is forgotten and handed back,
/// and the break is reported; otherwise an error is reported and nothing changes.
pub open spec fn disconnect_post(
    old: Bridge,
    new: Bridge,
    source_port: Seq<char>,
    dest_port: Seq<char>,
    event: AudioEvent,
    link: Option<u32>,
) -> bool {
    let s = first_named(old.graph_view().all_ports(), source_port);
    let d = first_named(old.graph_view().all_ports(), dest_port);
    if !(s is Some && d is Some) {
        is_error(event, ports_not_found_message(source_port, dest_port)) && link is None && new == old
    } else {
        let c = (Connection { source: s->0, destination: d->0 });
        if !old.graph_view().connections().contains(c) {
            is_error(event, connection_not_found_message(source_port, dest_port)) && link is None
                && new == old
        } else {
            &&& event matches AudioEvent::ConnectionBroken { source, destination } && source@ == source_port
                && destination@ == dest_port
            &&& new.graph_view().connections() == old.graph_view().connections().remove(c)
            &&& new.graph_view().devices() == old.graph_view().devices()
            &&& new.graph_view().next_device() == old.graph_view().next_device()
            &&& new.graph_view().next_port() == old.graph_view().next_port()
            &&& match link {
                Some(k) => old.links().contains_key(k) && old.links()[k] == c && new.links()
                    == old.links().remove(k),
                None => (forall|k: u32| #[trigger] old.links().contains_key(k) ==> old.links()[k] != c)
                    && new.links() == old.links(),
            }
            &&& new.nodes() == old.nodes()
            &&& new.server_ports() == old.server_ports()
            &&& new.virtual_ids() == old.virtual_ids()
            &&& new.streams() == old.streams()
        }
    }
}

/// What `stop_visualization` does: an active capture is ended and reported, otherwise
/// an error is reported.
pub open spec fn stop_post(old: Bridge, new: Bridge, device_id: DeviceId, event: AudioEvent) -> bool {
    if old.streams().contains(device_id.0) {
        &&& event matches AudioEvent::VisualizationStopped { device_id: d } && d == device_id
        &&& new.streams() == old.streams().remove(device_id.0)
        &&& new.graph_view() == old.graph_view()
        &&& new.nodes() == old.nodes()
        &&& new.server_ports() == old.server_ports()
        &&& new.links() == old.links()
        &&& new.virtual_ids() == old.virtual_ids()
    } else {
        is_error(event, no_stream_message(device_id)) && new == old
    }
}

/// What `create_virtual_device` does: with identifiers to spare, a virtual device with
/// the requested ports is appended to the graph and reported; otherwise an error is
/// reported and nothing changes.
pub open spec fn create_virtual_post(
    old: Bridge,
    new: Bridge,
    name: Seq<char>,
    inputs: nat,
    outputs: nat,
    event: AudioEvent,
) -> bool {
    let g = old.graph_view();
    let id = DeviceId(g.next_device());
    if g.next_device() == u64::MAX || g.next_port() + inputs + outputs > u64::MAX {
        is_error(event, ids_exhausted_message()) && new == old
    } else {
        &&& event matches AudioEvent::DeviceAdded { device_id, name: n, device_type }
            && device_id == id && n@ == name && device_type == DeviceType::Virtual
        &&& appended_device(g, new.graph_view(), id, name, DeviceType::Virtual)
        &&& virtual_ports(new.graph_view().devices().last().ports@, g.next_port(), name, inputs, outputs)
        &&& new.graph_view().next_port() == g.next_port() + inputs + outputs
        &&& new.virtual_ids() == old.virtual_ids().insert(id.0)
        &&& new.nodes() == old.nodes()
        &&& new.server_ports() == old.server_ports()
        &&& new.links() == old.links()
        &&& new.streams() == old.streams()
    }
}

/// What `destroy_virtual_device` does: a virtual device created here is taken out of
/// the graph and reported; any other identifier is reported as an error.
pub open spec fn destroy_virtual_post(old: Bridge, new: Bridge, device_id: DeviceId, event: AudioEvent) -> bool {
    if old.virtual_ids().contains(device_id.0) {
        &&& event matches AudioEvent::DeviceRemoved { device_id: d } && d == device_id
        &&& new.virtual_ids() == old.virtual_ids().remove(device_id.0)
        &&& new.graph_view().devices() == devices_without(old.graph_view().devices(), device_id)
        &&& new.graph_view().device(device_id) is None
        &&& forall|k: DeviceId| k != device_id ==> new.graph_view().device(k) == old.graph_view().device(k)
        &&& new.graph_view().connections() == old.graph_view().connections()
        &&& new.graph_view().next_device() == old.graph_view().next_device()
        &&& new.graph_view().next_port() == old.graph_view().next_port()
        &&& new.nodes() == old.nodes()
        &&& new.server_ports() == old.server_ports()
        &&& new.links() == old.links()
        &&& new.streams() == old.streams()
    } else {
        is_error(event, no_virtual_device_message()) && new == old
    }
}

/// Server work that the caller performs for a command before reporting back.
#[derive(Debug)]
pub enum Action {
    /// Nothing to do on the server: report the event.
    Report(AudioEvent),
    /// Create a server link between the two named ports, then hand the outcome to
    /// `complete_connect`.
    CreateLink { connection: Connection, source_port: String, dest_port: String },
    /// Drop the server link with this id, if any, then report the event.
    Unlink { link_id: Option<u32>, event: AudioEvent },
    /// Open a capture on this server node, then hand the outcome to
    /// `complete_start_visualization`.
    OpenCapture { device_id: DeviceId, port_id: PortId, node_id: u32 },
    /// Close the capture of this device, if it has one, then report the event.
    CloseCapture { device_id: DeviceId, event: AudioEvent },
}

/// Graph, server-object tables and capture bookkeeping.
pub struct Bridge {
    graph: RoutingGraph,
    /// Server node id to the device made for it.
    nodes: HashMap<u32, DeviceId>,
    /// Server port id to the graph port made for it.
    ports: HashMap<u32, PortId>,
    /// Server link id to the connection it carries.
    links: HashMap<u32, Connection>,
    /// Virtual devices created through the bridge, by device number.
    virtual_devices: HashMap<u64, VirtualDevice>,
    /// Numbers of the devices with an active spectrum capture.
    streams: HashSet<u64>,
}

impl Bridge {
    pub closed spec fn graph_view(&self) -> RoutingGraph {
        self.graph
    }

    pub closed spec fn nodes(&self) -> Map<u32, DeviceId> {
        self.nodes@
    }

    pub closed spec fn server_ports(&self) -> Map<u32, PortId> {
        self.ports@
    }

    pub closed spec fn links(&self) -> Map<u32, Connection> {
        self.links@
    }

    /// Numbers of the virtual devices created through the bridge.
    pub closed spec fn virtual_ids(&self) -> Set<u64> {
        self.virtual_devices@.dom()
    }

    /// Numbers of the devices with an active spectrum capture.
    pub closed spec fn streams(&self) -> Set<u64> {
        self.streams@
    }

    pub closed spec fn wf(&self) -> bool {
        &&& self.graph.wf()
        &&& forall|k: u64| #[trigger] self.virtual_devices@.contains_key(k) ==> k < self.graph.next_device()
        &&& forall|i: int| 0 <= i < self.graph.devices().len()
            ==> (#[trigger] self.graph.devices()[i]).id.0 < self.graph.next_device()
    }

    /// No devices, no tables, no captures.
    pub fn new() -> (r: Self)
        ensures
            r.wf(),
            r.graph_view().devices().len() == 0,
            r.graph_view().connections() == Set::<Connection>::empty(),
            r.nodes() == Map::<u32, DeviceId>::empty(),
            r.server_ports() == Map::<u32, PortId>::empty(),
            r.links() == Map::<u32, Connection>::empty(),
            r.virtual_ids() == Set::<u64>::empty(),
            r.streams() == Set::<u64>::empty(),
    {
        let r = Bridge {
            graph: RoutingGraph::new(),
            nodes: HashMap::new(),
            ports: HashMap::new(),
            links: HashMap::new(),
            virtual_devices: HashMap::new(),
            streams: HashSet::new(),
        };
        assert(r.virtual_devices@.dom() =~= Set::<u64>::empty());
        r
    }

    /// The routing graph.
    pub fn routing_graph(&self) -> (r: &RoutingGraph)
        ensures
            *r == self.graph_view(),
    {
        &self.graph
    }

    /// Everything but the graph and the node table is as in `other`.
    pub open spec fn same_but_graph_and_nodes(&self, other: &Bridge) -> bool {
        &&& self.server_ports() == other.server_ports()
        &&& self.links() == other.links()
        &&& self.virtual_ids() == other.virtual_ids()
        &&& self.streams() == other.streams()
    }

    /// Adds a device made with a fresh identifier to the graph.
    fn add_fresh_device(&mut self, device: DeviceInfo)
        requires
            old(self).wf(),
            device.id.0 < old(self).graph.next_device(),
            forall|i: int| 0 <= i < old(self).graph.devices().len()
                ==> (#[trigger] old(self).graph.devices()[i]).id.0 < device.id.0,
        ensures
            final(self).graph.wf(),
            final(self).graph.devices() == old(self).graph.devices().push(device),
            final(self).graph.device(device.id) == Some(device),
            forall|k: DeviceId| k != device.id ==> final(self).graph.device(k) == old(self).graph.device(k),
            final(self).graph.connections() == old(self).graph.connections(),
            final(self).graph.next_device() == old(self).graph.next_device(),
            final(self).graph.next_port() == old(self).graph.next_port(),
            final(self).nodes == old(self).nodes,
            final(self).ports == old(self).ports,
            final(self).links == old(self).links,
            final(self).virtual_devices == old(self).virtual_devices,
            final(self).streams == old(self).streams,
            forall|i: int| 0 <= i < final(self).graph.devices().len()
                ==> (#[trigger] final(self).graph.devices()[i]).id.0 < final(self).graph.next_device(),
    {
        proof {
            lemma_first_index(self.graph.devices(), with_device_id(device.id));
            assert(device_index(self.graph.devices(), device.id) == -1) by {
                if device_index(self.graph.devices(), device.id) >= 0 {
                    let i = device_index(self.graph.devices(), device.id);
                    assert(self.graph.devices()[i].id.0 < device.id.0);
                }
            }
        }
        let ghost id = device.id;
        self.graph.add_device(device);
        proof {
            assert(self.graph.devices().last().id == id);
        }
    }

    /// A node announced its properties. A node with a name of this program's own
    /// virtual devices is skipped; any other becomes a physical device without ports.
    pub fn on_node_info(&mut self, global_id: u32, node_name: Option<&str>, node_description: Option<&str>) -> (r: Option<AudioEvent>)
        requires
            old(self).wf(),
        ensures
            final(self).wf(),
            ({
                let nm = node_display_name(node_name, node_description);
                let id = DeviceId(old(self).graph_view().next_device());
                if has_prefix(nm, virtual_prefix()) {
                    r is None && *final(self) == *old(self)
                } else if old(self).graph_view().next_device() == u64::MAX {
                    r matches Some(e) && is_error(e, ids_exhausted_message()) && *final(self) == *old(self)
                } else {
                    &&& r matches Some(AudioEvent::DeviceAdded { device_id, name, device_type })
                        && device_id == id && name@ == nm && device_type == DeviceType::Physical
                    &&& appended_device(old(self).graph_view(), final(self).graph_view(), id, nm, DeviceType::Physical)
                    &&& final(self).graph_view().devices().last().ports@.len() == 0
                    &&& final(self).graph_view().next_port() == old(self).graph_view().next_port()
                    &&& final(self).nodes() == old(self).nodes().insert(global_id, id)
                    &&& final(self).same_but_graph_and_nodes(old(self))
                }
            }),
    {
        let name: &str = match node_name {
            Some(n) => n,
            None => match node_description {
                Some(d) => d,
                None => "Unknown Node",
            },
        };
        let chars = chars_of(name);
        let prefix = chars_of("wavewire_virtual_");
        if starts_with(&chars, &prefix) {
            return None;
        }
        if !self.graph.device_ids_left() {
            let mut cs: Vec<char> = Vec::new();
            append_str(&mut cs, "Identifiers exhausted");
            return Some(error_event(cs));
        }
        let ghost before = self.graph.devices();
        let device_id = self.graph.generate_device_id();
        self.add_fresh_device(DeviceInfo::new(device_id, name.to_owned(), DeviceType::Physical));
        self.nodes.insert(global_id, device_id);
        proof {
            assert(self.graph.devices().drop_last() =~= before);
        }
        Some(AudioEvent::DeviceAdded { device_id, name: name.to_owned(), device_type: DeviceType::Physical })
    }

    /// A port announced its properties. A port of a known node gets a fresh identifier
    /// and is appended to that node's device; the server port is mapped to it.
    pub fn on_port_info(
        &mut self,
        global_id: u32,
        node_id: Option<&str>,
        port_name: Option<&str>,
        direction: Option<&str>,
        node_name: Option<&str>,
    ) -> (r: Option<PortId>)
        requires
            old(self).wf(),
        ensures
            final(self).wf(),
            ({
                let nid = port_node(node_id);
                let pid = PortId(old(self).graph_view().next_port());
                let devs = old(self).graph_view().devices();
                if !old(self).nodes().contains_key(nid) || old(self).graph_view().next_port() == u64::MAX {
                    r is None && *final(self) == *old(self)
                } else {
                    let i = device_index(devs, old(self).nodes()[nid]);
                    &&& r == Some(pid)
                    &&& final(self).server_ports() == old(self).server_ports().insert(global_id, pid)
                    &&& final(self).nodes() == old(self).nodes()
                    &&& final(self).links() == old(self).links()
                    &&& final(self).virtual_ids() == old(self).virtual_ids()
                    &&& final(self).streams() == old(self).streams()
                    &&& final(self).graph_view().connections() == old(self).graph_view().connections()
                    &&& final(self).graph_view().next_device() == old(self).graph_view().next_device()
                    &&& final(self).graph_view().next_port() == old(self).graph_view().next_port() + 1
                    &&& if i >= 0 {
                        port_appended(
                            devs,
                            final(self).graph_view().devices(),
                            i,
                            pid,
                            port_short_name(port_name),
                            port_direction(direction),
                            port_qualified_name(node_name, port_name),
                        )
                    } else {
                        final(self).graph_view().devices() == devs
                    }
                }
            }),
    {
        let nid: u32 = match node_id {
            Some(text) => match parse_u32(text) {
                Some(v) => v,
                None => 0,
            },
            None => 0,
        };
        let device_id = match self.nodes.get(&nid) {
            Some(d) => *d,
            None => {
                return None;
            },
        };
        if !self.graph.port_ids_left() {
            return None;
        }
        let pname: &str = match port_name {
            Some(p) => p,
            None => "unknown",
        };
        let dir = match direction {
            Some(d) => {
                if d.to_owned() == "in".to_owned() {
                    PortDirection::Input
                } else {
                    PortDirection::Output
                }
            },
            None => PortDirection::Output,
        };
        let nname: &str = match node_name {
            Some(n) => n,
            None => "unknown",
        };
        let mut qualified: Vec<char> = Vec::new();
        append_str(&mut qualified, nname);
        append_str(&mut qualified, ":");
        append_str(&mut qualified, pname);
        let ghost before = self.graph.devices();
        let port_id = self.graph.generate_port_id();
        proof {
            lemma_first_index(before, with_device_id(device_id));
        }
        match self.graph.get_device_mut(device_id) {
            Some(dev) => {
                let ghost old_ports = dev.ports@;
                dev.ports.push(PortInfo::new(port_id, pname.to_owned(), dir, string_of(&qualified)));
                proof {
                    assert(dev.ports@.drop_last() =~= old_ports);
                }
            },
            None => {},
        }
        self.ports.insert(global_id, port_id);
        proof {
            assert forall|i: int| 0 <= i < self.graph.devices().len()
                implies (#[trigger] self.graph.devices()[i]).id.0 < self.graph.next_device() by {
                assert(self.graph.devices()[i].id == before[i].id);
            }
        }
        Some(port_id)
    }

    /// A link announced the server ports it joins. Where both ports are known, the
    /// connection is recorded and the link mapped to it; it is reported where both
    /// ports' qualified names are found.
    pub fn on_link_info(&mut self, global_id: u32, output_port: u32, input_port: u32) -> (r: Option<AudioEvent>)
        requires
            old(self).wf(),
        ensures
            final(self).wf(),
            ({
                let sp = old(self).server_ports();
                if !(sp.contains_key(output_port) && sp.contains_key(input_port)) {
                    r is None && *final(self) == *old(self)
                } else {
                    let c = (Connection { source: sp[output_port], destination: sp[input_port] });
                    let ns = first_with_id(old(self).graph_view().all_ports(), c.source);
                    let nd = first_with_id(old(self).graph_view().all_ports(), c.destination);
                    &&& final(self).graph_view().connections() == old(self).graph_view().connections().insert(c)
                    &&& final(self).graph_view().devices() == old(self).graph_view().devices()
                    &&& final(self).graph_view().next_device() == old(self).graph_view().next_device()
                    &&& final(self).graph_view().next_port() == old(self).graph_view().next_port()
                    &&& final(self).links() == old(self).links().insert(global_id, c)
                    &&& final(self).nodes() == old(self).nodes()
                    &&& final(self).server_ports() == sp
                    &&& final(self).virtual_ids() == old(self).virtual_ids()
                    &&& final(self).streams() == old(self).streams()
                    &&& if ns is Some && nd is Some {
                        r matches Some(AudioEvent::ConnectionEstablished { source, destination })
                            && source@ == ns->0 && destination@ == nd->0
                    } else {
                        r is None
                    }
                }
            }),
    {
        let source = match self.ports.get(&output_port) {
            Some(p) => *p,
            None => {
                return None;
            },
        };
        let dest = match self.ports.get(&input_port) {
            Some(p) => *p,
            None => {
                return None;
            },
        };
        let connection = Connection::new(source, dest);
        self.graph.add_connection(connection);
        self.links.insert(global_id, connection);
        let source_name = self.graph.find_port_name(source);
        let dest_name = self.graph.find_port_name(dest);
        match (source_name, dest_name) {
            (Some(s), Some(d)) => Some(
                AudioEvent::ConnectionEstablished { source: s.to_owned(), destination: d.to_owned() },
            ),
            _ => None,
        }
    }

    /// An object vanished from the server. A node takes its device out of the graph
    /// (connections naming its ports stay), a port is forgotten, a link takes its
    /// connection out of the graph.
    pub fn on_global_remove(&mut self, id: u32) -> (r: Vec<AudioEvent>)
        requires
            old(self).wf(),
        ensures
            final(self).wf(),
            ({
                let node = old(self).nodes().contains_key(id);
                let link = old(self).links().contains_key(id);
                let c = old(self).links()[id];
                let named = link && first_with_id(final(self).graph_view().all_ports(), c.source) is Some
                    && first_with_id(final(self).graph_view().all_ports(), c.destination) is Some;
                &&& final(self).nodes() == old(self).nodes().remove(id)
                &&& final(self).server_ports() == old(self).server_ports().remove(id)
                &&& final(self).links() == old(self).links().remove(id)
                &&& final(self).virtual_ids() == old(self).virtual_ids()
                &&& final(self).streams() == old(self).streams()
                &&& final(self).graph_view().devices() == (if node {
                    devices_without(old(self).graph_view().devices(), old(self).nodes()[id])
                } else {
                    old(self).graph_view().devices()
                })
                &&& node ==> final(self).graph_view().device(old(self).nodes()[id]) is None
                &&& final(self).graph_view().connections() == (if link {
                    old(self).graph_view().connections().remove(c)
                } else {
                    old(self).graph_view().connections()
                })
                &&& final(self).graph_view().next_device() == old(self).graph_view().next_device()
                &&& final(self).graph_view().next_port() == old(self).graph_view().next_port()
                &&& r@.len() == (if node { 1int } else { 0int }) + (if named { 1int } else { 0int })
                &&& node ==> (r@[0] matches AudioEvent::DeviceRemoved { device_id }
                    && device_id == old(self).nodes()[id])
                &&& named ==> (r@.last() matches AudioEvent::ConnectionBroken { source, destination }
                    && source@ == first_with_id(final(self).graph_view().all_ports(), c.source)->0
                    && destination@ == first_with_id(final(self).graph_view().all_ports(), c.destination)->0)
            }),
    {
        let mut events: Vec<AudioEvent> = Vec::new();
        match self.nodes.remove(&id) {
            Some(device_id) => {
                self.remove_graph_device(device_id);
                events.push(AudioEvent::DeviceRemoved { device_id });
            },
            None => {},
        }
        self.ports.remove(&id);
        match self.links.remove(&id) {
            Some(connection) => {
                self.graph.remove_connection(&connection);
                let source_name = self.graph.find_port_name(connection.source);
                let dest_name = self.graph.find_port_name(connection.destination);
                match (source_name, dest_name) {
                    (Some(s), Some(d)) => {
                        events.push(
                            AudioEvent::ConnectionBroken { source: s.to_owned(), destination: d.to_owned() },
                        );
                    },
                    _ => {},
                }
            },
            None => {},
        }
        events
    }

    /// Both ports of a connect request, looked up by qualified name.
    pub fn resolve_connect(&self, source_port: &str, dest_port: &str) -> (r: Result<Connection, AudioEvent>)
        ensures
            ({
                let s = first_named(self.graph_view().all_ports(), source_port@);
                let d = first_named(self.graph_view().all_ports(), dest_port@);
                if s is Some && d is Some {
                    r == Ok::<Connection, AudioEvent>(Connection { source: s->0, destination: d->0 })
                } else {
                    r matches Err(e) && is_error(e, ports_not_found_message(source_port@, dest_port@))
                }
            }),
    {
        match (self.graph.find_port_by_name(source_port), self.graph.find_port_by_name(dest_port)) {
            (Some(s), Some(d)) => Ok(Connection::new(s, d)),
            _ => Err(error_event(two_names_message("Ports not found: ", source_port, dest_port))),
        }
    }

    /// The outcome of creating the server link for a connect request: on success the
    /// connection is recorded and reported, on failure the reason is reported.
    pub fn complete_connect(
        &mut self,
        connection: Connection,
        source_port: &str,
        dest_port: &str,
        outcome: Result<(), String>,
    ) -> (r: AudioEvent)
        requires
            old(self).wf(),
        ensures
            final(self).wf(),
            match outcome {
                Ok(_) => {
                    &&& r matches AudioEvent::ConnectionEstablished { source, destination }
                        && source@ == source_port@ && destination@ == dest_port@
                    &&& final(self).graph_view().connections() == old(self).graph_view().connections().insert(connection)
                    &&& final(self).graph_view().devices() == old(self).graph_view().devices()
                    &&& final(self).graph_view().next_device() == old(self).graph_view().next_device()
                    &&& final(self).graph_view().next_port() == old(self).graph_view().next_port()
                    &&& final(self).nodes() == old(self).nodes()
                    &&& final(self).server_ports() == old(self).server_ports()
                    &&& final(self).links() == old(self).links()
                    &&& final(self).virtual_ids() == old(self).virtual_ids()
                    &&& final(self).streams() == old(self).streams()
                },
                Err(reason) => is_error(r, link_failed_message(source_port@, dest_port@, reason@))
                    && *final(self) == *old(self),
            },
    {
        match outcome {
            Ok(_) => {
                self.graph.add_connection(connection);
                AudioEvent::ConnectionEstablished { source: source_port.to_owned(), destination: dest_port.to_owned() }
            },
            Err(reason) => {
                let mut cs = two_names_message("Failed to create link ", source_port, dest_port);
                append_str(&mut cs, ": ");
                append_str(&mut cs, reason.as_str());
                error_event(cs)
            },
        }
    }

    /// The server link that carries `connection`, if one is known.
    fn link_of(&self, connection: Connection) -> (r: Option<u32>)
        requires
            self.wf(),
        ensures
            match r {
                Some(k) => self.links().contains_key(k) && self.links()[k] == connection,
                None => forall|k: u32| #[trigger] self.links().contains_key(k) ==> self.links()[k] != connection,
            },
    {
        let ghost m = self.links@;
        for (k, v) in it: self.links.iter()
            invariant
                m == self.links@,
                it.seq() == spec_hash_map_iter(&self.links).remaining(),
                forall|j: int| 0 <= j < it.index() ==> *it.seq()[j].1 != connection,
            ensures
                forall|j: int| 0 <= j < spec_hash_map_iter(&self.links).remaining().len()
                    ==> *spec_hash_map_iter(&self.links).remaining()[j].1 != connection,
        {
            if *v == connection {
                return Some(*k);
            }
        }
        proof {
            assert forall|k: u32| #[trigger] m.contains_key(k) implies m[k] != connection by {
                let s = spec_hash_map_iter(&self.links).remaining();
                assert(s.contains((&k, &m[k])));
                let j = choose|j: int| 0 <= j < s.len() && s[j] == (&k, &m[k]);
                assert(*s[j].1 == m[k]);
            }
        }
        None
    }

    /// Forgets the server link that carries `connection`, if one is known, and hands
    /// back its id.
    fn forget_link_of(&mut self, connection: Connection) -> (r: Option<u32>)
        requires
            old(self).wf(),
        ensures
            final(self).wf(),
            final(self).graph == old(self).graph,
            final(self).nodes == old(self).nodes,
            final(self).ports == old(self).ports,
            final(self).virtual_devices == old(self).virtual_devices,
            final(self).streams == old(self).streams,
            match r {
                Some(k) => old(self).links().contains_key(k) && old(self).links()[k] == connection
                    && final(self).links() == old(self).links().remove(k),
                None => (forall|k: u32| #[trigger] old(self).links().contains_key(k) ==> old(self).links()[k] != connection)
                    && final(self).links() == old(self).links(),
            },
    {
        let link = self.link_of(connection);
        if let Some(k) = link {
            self.links.remove(&k);
        }
        link
    }

    /// The server node of `device_id`, if one is known.
    fn node_of(&self, device_id: DeviceId) -> (r: Option<u32>)
        requires
            self.wf(),
        ensures
            match r {
                Some(k) => self.nodes().contains_key(k) && self.nodes()[k] == device_id,
                None => forall|k: u32| #[trigger] self.nodes().contains_key(k) ==> self.nodes()[k] != device_id,
            },
    {
        let ghost m = self.nodes@;
        for (k, v) in it: self.nodes.iter()
            invariant
                m == self.nodes@,
                it.seq() == spec_hash_map_iter(&self.nodes).remaining(),
                forall|j: int| 0 <= j < it.index() ==> *it.seq()[j].1 != device_id,
            ensures
                forall|j: int| 0 <= j < spec_hash_map_iter(&self.nodes).remaining().len()
                    ==> *spec_hash_map_iter(&self.nodes).remaining()[j].1 != device_id,
        {
            if *v == device_id {
                return Some(*k);
            }
        }
        proof {
            assert forall|k: u32| #[trigger] m.contains_key(k) implies m[k] != device_id by {
                let s = spec_hash_map_iter(&self.nodes).remaining();
                assert(s.contains((&k, &m[k])));
                let j = choose|j: int| 0 <= j < s.len() && s[j] == (&k, &m[k]);
                assert(*s[j].1 == m[k]);
            }
        }
        None
    }

    /// Unlinks two ports named by their qualified names.
    pub fn disconnect(&mut self, source_port: &str, dest_port: &str) -> (r: (AudioEvent, Option<u32>))
        requires
            old(self).wf(),
        ensures
            final(self).wf(),
            disconnect_post(*old(self), *final(self), source_port@, dest_port@, r.0, r.1),
    {
        let connection = match self.resolve_connect(source_port, dest_port) {
            Ok(c) => c,
            Err(e) => {
                return (e, None);
            },
        };
        if self.graph.remove_connection(&connection) {
            let link = self.forget_link_of(connection);
            let event = AudioEvent::ConnectionBroken {
                source: source_port.to_owned(),
                destination: dest_port.to_owned(),
            };
            (event, link)
        } else {
            (error_event(two_names_message("Connection not found: ", source_port, dest_port)), None)
        }
    }

    /// The server node to open a capture on for `device_id`.
    pub fn start_visualization(&self, device_id: DeviceId) -> (r: Result<u32, AudioEvent>)
        requires
            self.wf(),
        ensures
            match r {
                Ok(k) => self.nodes().contains_key(k) && self.nodes()[k] == device_id,
                Err(e) => is_error(e, node_not_found_message(device_id)) && forall|k: u32|
                    #[trigger] self.nodes().contains_key(k) ==> self.nodes()[k] != device_id,
            },
    {
        match self.node_of(device_id) {
            Some(k) => Ok(k),
            None => {
                let mut cs: Vec<char> = Vec::new();
                append_str(&mut cs, "PipeWire node ID not found for device ");
                device_text_chars(&mut cs, device_id);
                Err(error_event(cs))
            },
        }
    }

    /// The outcome of opening a capture: on success the device counts as captured
    /// (replacing an earlier capture of it) and the start is reported, on failure the
    /// reason is reported.
    pub fn complete_start_visualization(
        &mut self,
        device_id: DeviceId,
        port_id: PortId,
        outcome: Result<(), String>,
    ) -> (r: AudioEvent)
        requires
            old(self).wf(),
        ensures
            final(self).wf(),
            match outcome {
                Ok(_) => {
                    &&& r matches AudioEvent::VisualizationStarted { device_id: d, port_id: p }
                        && d == device_id && p == port_id
                    &&& final(self).streams() == old(self).streams().insert(device_id.0)
                    &&& final(self).graph_view() == old(self).graph_view()
                    &&& final(self).nodes() == old(self).nodes()
                    &&& final(self).server_ports() == old(self).server_ports()
                    &&& final(self).links() == old(self).links()
                    &&& final(self).virtual_ids() == old(self).virtual_ids()
                },
                Err(reason) => is_error(r, stream_failed_message(device_id, reason@)) && *final(self)
                    == *old(self),
            },
    {
        match outcome {
            Ok(_) => {
                self.streams.insert(device_id.0);
                AudioEvent::VisualizationStarted { device_id, port_id }
            },
            Err(reason) => {
                let mut cs: Vec<char> = Vec::new();
                append_str(&mut cs, "Failed to create visualization stream for ");
                device_text_chars(&mut cs, device_id);
                append_str(&mut cs, ": ");
                append_str(&mut cs, reason.as_str());
                error_event(cs)
            },
        }
    }

    /// Ends the capture of `device_id`.
    pub fn stop_visualization(&mut self, device_id: DeviceId) -> (r: AudioEvent)
        requires
            old(self).wf(),
        ensures
            final(self).wf(),
            stop_post(*old(self), *final(self), device_id, r),
    {
        if self.streams.contains(&device_id.0) {
            self.streams.remove(&device_id.0);
            AudioEvent::VisualizationStopped { device_id }
        } else {
            let mut cs: Vec<char> = Vec::new();
            append_str(&mut cs, "No visualization stream found for device ");
            device_text_chars(&mut cs, device_id);
            error_event(cs)
        }
    }

    /// Builds port number `i` of the virtual device `name` and appends it to `ports`.
    fn push_virtual_port(
        &mut self,
        ports: &mut Vec<PortInfo>,
        name: &str,
        input: bool,
        i: usize,
        inputs: usize,
        first: Ghost<u64>,
    )
        requires
            old(self).wf(),
            old(self).graph_view().next_port() < u64::MAX,
            old(self).graph_view().next_port() == first@ + old(ports)@.len(),
            old(ports)@.len() == (if input { i as int } else { inputs + i }),
            input ==> i < inputs,
        ensures
            final(self).wf(),
            final(self).graph_view().next_port() == old(self).graph_view().next_port() + 1,
            final(self).graph_view().next_device() == old(self).graph_view().next_device(),
            final(self).graph_view().devices() == old(self).graph_view().devices(),
            final(self).graph_view().connections() == old(self).graph_view().connections(),
            final(self).nodes == old(self).nodes,
            final(self).ports == old(self).ports,
            final(self).links == old(self).links,
            final(self).virtual_devices == old(self).virtual_devices,
            final(self).streams == old(self).streams,
            final(ports)@.drop_last() == old(ports)@,
            final(ports)@.len() == old(ports)@.len() + 1,
            virtual_port(final(ports)@.last(), first@, name@, inputs as nat, old(ports)@.len() as int),
    {
        let mut short: Vec<char> = Vec::new();
        append_str(&mut short, if input { "input_" } else { "output_" });
        let digits = decimal_chars(i as u64);
        append_chars(&mut short, &digits);
        let mut qualified: Vec<char> = Vec::new();
        append_str(&mut qualified, "wavewire_virtual_");
        append_str(&mut qualified, name);
        append_str(&mut qualified, ":");
        append_chars(&mut qualified, &short);
        let port_id = self.graph.generate_port_id();
        let direction = if input { PortDirection::Input } else { PortDirection::Output };
        let ghost before = ports@;
        ports.push(PortInfo::new(port_id, string_of(&short), direction, string_of(&qualified)));
        proof {
            assert(ports@.drop_last() =~= before);
            assert(qualified@ =~= virtual_qualified_name(name@, input, i as nat));
        }
    }

    /// Creates a virtual device `name` with `num_inputs` input ports and `num_outputs`
    /// output ports, named `input_<i>` and `output_<i>` on the server node
    /// `wavewire_virtual_<name>`.
    pub fn create_virtual_device(&mut self, name: &str, num_inputs: usize, num_outputs: usize) -> (r: AudioEvent)
        requires
            old(self).wf(),
        ensures
            final(self).wf(),
            create_virtual_post(*old(self), *final(self), name@, num_inputs as nat, num_outputs as nat, r),
    {
        if !self.graph.device_ids_left() || !self.graph.port_ids_available(num_inputs, num_outputs) {
            let mut cs: Vec<char> = Vec::new();
            append_str(&mut cs, "Identifiers exhausted");
            return error_event(cs);
        }
        let ghost before = *self;
        let ghost first = self.graph.next_port();
        let device_id = self.graph.generate_device_id();
        let mut ports: Vec<PortInfo> = Vec::new();
        let mut i: usize = 0;
        while i < num_inputs
            invariant
                self.wf(),
                i <= num_inputs,
                ports@.len() == i,
                self.graph_view().next_port() == first + i,
                first + num_inputs + num_outputs <= u64::MAX,
                self.graph_view().next_device() == before.graph_view().next_device() + 1,
                self.graph_view().devices() == before.graph_view().devices(),
                self.graph_view().connections() == before.graph_view().connections(),
                device_id.0 == before.graph_view().next_device(),
                self.nodes == before.nodes,
                self.ports == before.ports,
                self.links == before.links,
                self.virtual_devices == before.virtual_devices,
                self.streams == before.streams,
                forall|j: int| 0 <= j < ports@.len() ==> virtual_port(#[trigger] ports@[j], first, name@, num_inputs as nat, j),
            decreases num_inputs - i,
        {
            let ghost prev = ports@;
            self.push_virtual_port(&mut ports, name, true, i, num_inputs, Ghost(first));
            proof {
                assert forall|j: int| 0 <= j < ports@.len() implies virtual_port(#[trigger] ports@[j], first, name@, num_inputs as nat, j) by {
                    if j < prev.len() {
                        assert(ports@[j] == prev[j]);
                    }
                }
            }
            i = i + 1;
        }
        let mut o: usize = 0;
        while o < num_outputs
            invariant
                self.wf(),
                o <= num_outputs,
                ports@.len() == num_inputs + o,
                self.graph_view().next_port() == first + num_inputs + o,
                first + num_inputs + num_outputs <= u64::MAX,
                self.graph_view().next_device() == before.graph_view().next_device() + 1,
                self.graph_view().devices() == before.graph_view().devices(),
                self.graph_view().connections() == before.graph_view().connections(),
                device_id.0 == before.graph_view().next_device(),
                self.nodes == before.nodes,
                self.ports == before.ports,
                self.links == before.links,
                self.virtual_devices == before.virtual_devices,
                self.streams == before.streams,
                forall|j: int| 0 <= j < ports@.len() ==> virtual_port(#[trigger] ports@[j], first, name@, num_inputs as nat, j),
            decreases num_outputs - o,
        {
            let ghost prev = ports@;
            self.push_virtual_port(&mut ports, name, false, o, num_inputs, Ghost(first));
            proof {
                assert forall|j: int| 0 <= j < ports@.len() implies virtual_port(#[trigger] ports@[j], first, name@, num_inputs as nat, j) by {
                    if j < prev.len() {
                        assert(ports@[j] == prev[j]);
                    }
                }
            }
            o = o + 1;
        }
        let mut info = DeviceInfo::new(device_id, name.to_owned(), DeviceType::Virtual);
        info.ports = ports;
        let ghost devs = self.graph.devices();
        self.add_fresh_device(info);
        self.virtual_devices.insert(device_id.0, VirtualDevice::new(device_id, name.to_owned(), num_inputs, num_outputs));
        proof {
            assert(self.graph.devices().drop_last() =~= devs);
            assert(self.virtual_ids() =~= before.virtual_ids().insert(device_id.0));
        }
        AudioEvent::DeviceAdded { device_id, name: name.to_owned(), device_type: DeviceType::Virtual }
    }

    /// Takes a device out of the graph.
    fn remove_graph_device(&mut self, device_id: DeviceId)
        requires
            old(self).graph.wf(),
            forall|i: int| 0 <= i < old(self).graph.devices().len()
                ==> (#[trigger] old(self).graph.devices()[i]).id.0 < old(self).graph.next_device(),
        ensures
            final(self).graph.wf(),
            forall|i: int| 0 <= i < final(self).graph.devices().len()
                ==> (#[trigger] final(self).graph.devices()[i]).id.0 < final(self).graph.next_device(),
            final(self).graph.devices() == devices_without(old(self).graph.devices(), device_id),
            final(self).graph.device(device_id) is None,
            forall|k: DeviceId| k != device_id ==> final(self).graph.device(k) == old(self).graph.device(k),
            final(self).graph.connections() == old(self).graph.connections(),
            final(self).graph.next_device() == old(self).graph.next_device(),
            final(self).graph.next_port() == old(self).graph.next_port(),
            final(self).nodes == old(self).nodes,
            final(self).ports == old(self).ports,
            final(self).links == old(self).links,
            final(self).virtual_devices == old(self).virtual_devices,
            final(self).streams == old(self).streams,
    {
        let ghost before = self.graph.devices();
        self.graph.remove_device(device_id);
        proof {
            lemma_first_index(before, with_device_id(device_id));
            assert forall|i: int| 0 <= i < self.graph.devices().len()
                implies (#[trigger] self.graph.devices()[i]).id.0 < self.graph.next_device() by {
                let k = device_index(before, device_id);
                if k >= 0 {
                    if i < k {
                        assert(self.graph.devices()[i] == before[i]);
                    } else {
                        assert(self.graph.devices()[i] == before[i + 1]);
                    }
                }
            }
        }
    }

    /// Destroys a virtual device created through the bridge.
    pub fn destroy_virtual_device(&mut self, device_id: DeviceId) -> (r: AudioEvent)
        requires
            old(self).wf(),
        ensures
            final(self).wf(),
            destroy_virtual_post(*old(self), *final(self), device_id, r),
    {
        let ghost before = *self;
        if !self.virtual_devices.contains_key(&device_id.0) {
            let mut cs: Vec<char> = Vec::new();
            append_str(&mut cs, "Virtual device not found");
            return error_event(cs);
        }
        self.virtual_devices.remove(&device_id.0);
        self.remove_graph_device(device_id);
        proof {
            assert(self.virtual_ids() =~= before.virtual_ids().remove(device_id.0));
        }
        AudioEvent::DeviceRemoved { device_id }
    }

    /// Answers one command: changes the bridge as the command asks and says what to do
    /// on the server and what to report.
    pub fn handle_command(&mut self, command: AudioCommand) -> (r: Action)
        requires
            old(self).wf(),
        ensures
            final(self).wf(),
            match command {
                AudioCommand::CreateVirtualDevice { name, num_inputs, num_outputs } => r matches Action::Report(e)
                    && create_virtual_post(*old(self), *final(self), name@, num_inputs as nat, num_outputs as nat, e),
                AudioCommand::DestroyVirtualDevice { device_id } => r matches Action::Report(e)
                    && destroy_virtual_post(*old(self), *final(self), device_id, e),
                AudioCommand::Connect { source_port, dest_port } => {
                    let s = first_named(old(self).graph_view().all_ports(), source_port@);
                    let d = first_named(old(self).graph_view().all_ports(), dest_port@);
                    &&& *final(self) == *old(self)
                    &&& if s is Some && d is Some {
                        r matches Action::CreateLink { connection, source_port: sp, dest_port: dp }
                            && connection.source == s->0 && connection.destination == d->0
                            && sp@ == source_port@ && dp@ == dest_port@
                    } else {
                        r matches Action::Report(e) && is_error(e, ports_not_found_message(source_port@, dest_port@))
                    }
                },
                AudioCommand::Disconnect { source_port, dest_port } => r matches Action::Unlink { link_id, event }
                    && disconnect_post(*old(self), *final(self), source_port@, dest_port@, event, link_id),
                AudioCommand::StartVisualization { device_id, port_id } => {
                    &&& *final(self) == *old(self)
                    &&& if exists|k: u32| #[trigger] old(self).nodes().contains_key(k) && old(self).nodes()[k] == device_id {
                        r matches Action::OpenCapture { device_id: dv, port_id: p, node_id }
                            && dv == device_id && p == port_id && old(self).nodes().contains_key(node_id)
                            && old(self).nodes()[node_id] == device_id
                    } else {
                        r matches Action::Report(e) && is_error(e, node_not_found_message(device_id))
                    }
                },
                AudioCommand::StopVisualization { device_id } => r matches Action::CloseCapture { device_id: dv, event }
                    && dv == device_id && stop_post(*old(self), *final(self), device_id, event),
            },
    {
        match command {
            AudioCommand::CreateVirtualDevice { name, num_inputs, num_outputs } => {
                Action::Report(self.create_virtual_device(name.as_str(), num_inputs, num_outputs))
            },
            AudioCommand::DestroyVirtualDevice { device_id } => {
                Action::Report(self.destroy_virtual_device(device_id))
            },
            AudioCommand::Connect { source_port, dest_port } => {
                match self.resolve_connect(source_port.as_str(), dest_port.as_str()) {
                    Ok(connection) => Action::CreateLink { connection, source_port, dest_port },
                    Err(e) => Action::Report(e),
                }
            },
            AudioCommand::Disconnect { source_port, dest_port } => {
                let (event, link_id) = self.disconnect(source_port.as_str(), dest_port.as_str());
                Action::Unlink { link_id, event }
            },
            AudioCommand::StartVisualization { device_id, port_id } => {
                match self.start_visualization(device_id) {
                    Ok(node_id) => Action::OpenCapture { device_id, port_id, node_id },
                    Err(e) => Action::Report(e),
                }
            },
            AudioCommand::StopVisualization { device_id } => {
                let event = self.stop_visualization(device_id);
                Action::CloseCapture { device_id, event }
            },
        }
    }
}

} // verus!
