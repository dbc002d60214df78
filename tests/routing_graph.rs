use wavewire::{Connection, DeviceId, DeviceInfo, DeviceType, PortDirection, PortId, PortInfo, RoutingGraph};

fn device_with_port(graph: &mut RoutingGraph, name: &str, port: &str) -> (DeviceId, PortId) {
    let id = graph.generate_device_id();
    let port_id = graph.generate_port_id();
    let mut device = DeviceInfo::new(id, name.to_string(), DeviceType::Physical);
    device.ports.push(PortInfo::new(port_id, "p".to_string(), PortDirection::Output, port.to_string()));
    graph.add_device(device);
    (id, port_id)
}

#[test]
fn graph_ids_start_at_one_and_are_never_reused() {
    let mut graph = RoutingGraph::new();
    assert_eq!(graph.generate_device_id(), DeviceId(1));
    assert_eq!(graph.generate_device_id(), DeviceId(2));
    let (id, _) = device_with_port(&mut graph, "a", "a:out");
    assert_eq!(id, DeviceId(3));
    assert!(graph.remove_device(id).is_some());
    assert!(graph.remove_device(id).is_none());
    assert_eq!(graph.generate_device_id(), DeviceId(4));
    assert_eq!(graph.generate_port_id(), PortId(2));
    assert_eq!(graph.generate_port_id(), PortId(3));
}

#[test]
fn graph_add_connection_twice_leaves_one() {
    let mut graph = RoutingGraph::new();
    let c = Connection::new(PortId(1), PortId(2));
    graph.add_connection(c);
    graph.add_connection(c);
    assert_eq!(graph.list_connections().len(), 1);
    assert!(graph.remove_connection(&c));
    assert!(!graph.remove_connection(&c));
    assert_eq!(graph.list_connections().len(), 0);
}

#[test]
fn graph_find_port_by_name_after_add() {
    let mut graph = RoutingGraph::new();
    let (_, port) = device_with_port(&mut graph, "dev", "X");
    assert_eq!(graph.find_port_by_name("X"), Some(port));
    assert_eq!(graph.find_port_by_name("Y"), None);
    assert_eq!(graph.find_port_name(port), Some("X"));
    assert_eq!(graph.find_port_name(PortId(99)), None);
}

#[test]
fn graph_find_port_by_name_prefers_first_device() {
    let mut graph = RoutingGraph::new();
    let (_, first) = device_with_port(&mut graph, "one", "same:name");
    let (_, _second) = device_with_port(&mut graph, "two", "same:name");
    assert_eq!(graph.find_port_by_name("same:name"), Some(first));
}

#[test]
fn graph_add_device_replaces_same_id_in_place() {
    let mut graph = RoutingGraph::new();
    let (a, _) = device_with_port(&mut graph, "a", "a:out");
    let (b, _) = device_with_port(&mut graph, "b", "b:out");
    graph.add_device(DeviceInfo::new(a, "renamed".to_string(), DeviceType::Virtual));
    let names: Vec<String> = graph.list_devices().iter().map(|d| d.name.clone()).collect();
    assert_eq!(names, vec!["renamed".to_string(), "b".to_string()]);
    assert_eq!(graph.get_device(b).map(|d| d.ports.len()), Some(1));
    assert_eq!(graph.find_port_by_name("a:out"), None);
}

#[test]
fn graph_get_device_mut_edits_in_place() {
    let mut graph = RoutingGraph::default();
    let (a, _) = device_with_port(&mut graph, "a", "a:out");
    if let Some(d) = graph.get_device_mut(a) {
        d.ports.push(PortInfo::new(PortId(9), "in".to_string(), PortDirection::Input, "a:in".to_string()));
    }
    assert_eq!(graph.find_port_by_name("a:in"), Some(PortId(9)));
    assert!(graph.get_device_mut(DeviceId(42)).is_none());
}

#[test]
fn graph_connections_for_port() {
    let mut graph = RoutingGraph::new();
    graph.add_connection(Connection::new(PortId(1), PortId(2)));
    graph.add_connection(Connection::new(PortId(3), PortId(1)));
    graph.add_connection(Connection::new(PortId(3), PortId(4)));
    let mut found: Vec<(u64, u64)> =
        graph.get_connections_for_port(PortId(1)).iter().map(|c| (c.source.0, c.destination.0)).collect();
    found.sort();
    assert_eq!(found, vec![(1, 2), (3, 1)]);
    assert!(graph.get_connections_for_port(PortId(7)).is_empty());
}
