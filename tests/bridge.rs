use wavewire::{
    Action, AudioCommand, AudioEvent, Bridge, DeviceId, DeviceType, PortDirection, PortId,
};

fn error_message(e: &AudioEvent) -> String {
    match e {
        AudioEvent::Error { message } => message.clone(),
        other => panic!("expected an error, got {:?}", other),
    }
}

fn discovered() -> Bridge {
    let mut b = Bridge::new();
    let e = b.on_node_info(40, Some("alsa_output.pci"), None);
    assert!(matches!(e, Some(AudioEvent::DeviceAdded { device_id: DeviceId(1), ref name, device_type: DeviceType::Physical }) if name == "alsa_output.pci"));
    assert_eq!(b.on_port_info(50, Some("40"), Some("playback_FL"), Some("in"), Some("alsa_output.pci")), Some(PortId(1)));
    assert_eq!(b.on_port_info(51, Some("+40"), Some("monitor_FL"), Some("out"), Some("alsa_output.pci")), Some(PortId(2)));
    b
}

#[test]
fn bridge_node_names_fall_back() {
    let mut b = Bridge::new();
    let e = b.on_node_info(1, None, Some("Desk mic"));
    assert!(matches!(e, Some(AudioEvent::DeviceAdded { ref name, .. }) if name == "Desk mic"));
    let e = b.on_node_info(2, None, None);
    assert!(matches!(e, Some(AudioEvent::DeviceAdded { device_id: DeviceId(2), ref name, .. }) if name == "Unknown Node"));
    assert!(b.on_node_info(3, Some("wavewire_virtual_mix"), None).is_none());
    assert_eq!(b.routing_graph().list_devices().len(), 2);
}

#[test]
fn bridge_ports_join_their_device() {
    let b = discovered();
    let g = b.routing_graph();
    let dev = g.get_device(DeviceId(1)).unwrap();
    assert_eq!(dev.ports.len(), 2);
    assert_eq!(dev.ports[0].name, "playback_FL");
    assert_eq!(dev.ports[0].direction, PortDirection::Input);
    assert_eq!(dev.ports[1].direction, PortDirection::Output);
    assert_eq!(g.find_port_by_name("alsa_output.pci:monitor_FL"), Some(PortId(2)));
}

#[test]
fn bridge_port_of_unknown_node_is_ignored() {
    let mut b = discovered();
    assert_eq!(b.on_port_info(52, Some("99"), Some("x"), None, None), None);
    assert_eq!(b.on_port_info(53, Some("forty"), Some("x"), None, None), None);
    let mut named = Bridge::new();
    named.on_node_info(7, Some("n"), None);
    assert_eq!(named.on_port_info(8, Some("7"), None, None, None), Some(PortId(1)));
    assert_eq!(named.routing_graph().find_port_by_name("unknown:unknown"), Some(PortId(1)));
}

#[test]
fn bridge_link_discovery_and_removal() {
    let mut b = discovered();
    let e = b.on_link_info(60, 51, 50);
    assert!(matches!(e, Some(AudioEvent::ConnectionEstablished { ref source, ref destination })
        if source == "alsa_output.pci:monitor_FL" && destination == "alsa_output.pci:playback_FL"));
    assert_eq!(b.routing_graph().get_connections_for_port(PortId(1)).len(), 1);
    assert!(b.on_link_info(61, 51, 999).is_none());
    let events = b.on_global_remove(60);
    assert_eq!(events.len(), 1);
    assert!(matches!(events[0], AudioEvent::ConnectionBroken { ref source, .. } if source == "alsa_output.pci:monitor_FL"));
    assert!(b.routing_graph().list_connections().is_empty());
    let events = b.on_global_remove(40);
    assert_eq!(events.len(), 1);
    assert!(matches!(events[0], AudioEvent::DeviceRemoved { device_id: DeviceId(1) }));
    assert!(b.on_global_remove(40).is_empty());
}

#[test]
fn bridge_connect_and_disconnect_commands() {
    let mut b = discovered();
    let a = "alsa_output.pci:monitor_FL".to_string();
    let z = "alsa_output.pci:playback_FL".to_string();
    let action = b.handle_command(AudioCommand::Connect { source_port: a.clone(), dest_port: "nope".to_string() });
    match action {
        Action::Report(e) => assert_eq!(error_message(&e), format!("Ports not found: {} -> nope", a)),
        other => panic!("unexpected {:?}", other),
    }
    let action = b.handle_command(AudioCommand::Connect { source_port: a.clone(), dest_port: z.clone() });
    let connection = match action {
        Action::CreateLink { connection, .. } => connection,
        other => panic!("unexpected {:?}", other),
    };
    assert_eq!((connection.source, connection.destination), (PortId(2), PortId(1)));
    let e = b.complete_connect(connection, &a, &z, Err("boom".to_string()));
    assert_eq!(error_message(&e), format!("Failed to create link {} -> {}: boom", a, z));
    assert!(b.routing_graph().list_connections().is_empty());
    let e = b.complete_connect(connection, &a, &z, Ok(()));
    assert!(matches!(e, AudioEvent::ConnectionEstablished { .. }));
    b.on_link_info(70, 51, 50);
    match b.handle_command(AudioCommand::Disconnect { source_port: a.clone(), dest_port: z.clone() }) {
        Action::Unlink { link_id, event } => {
            assert_eq!(link_id, Some(70));
            assert!(matches!(event, AudioEvent::ConnectionBroken { .. }));
        }
        other => panic!("unexpected {:?}", other),
    }
    match b.handle_command(AudioCommand::Disconnect { source_port: a.clone(), dest_port: z.clone() }) {
        Action::Unlink { link_id, event } => {
            assert_eq!(link_id, None);
            assert_eq!(error_message(&event), format!("Connection not found: {} -> {}", a, z));
        }
        other => panic!("unexpected {:?}", other),
    }
}

#[test]
fn bridge_visualization_lifecycle() {
    let mut b = discovered();
    match b.handle_command(AudioCommand::StartVisualization { device_id: DeviceId(7), port_id: PortId(1) }) {
        Action::Report(e) => assert_eq!(error_message(&e), "PipeWire node ID not found for device DeviceId(7)"),
        other => panic!("unexpected {:?}", other),
    }
    match b.handle_command(AudioCommand::StartVisualization { device_id: DeviceId(1), port_id: PortId(2) }) {
        Action::OpenCapture { device_id, port_id, node_id } => {
            assert_eq!((device_id, port_id, node_id), (DeviceId(1), PortId(2), 40));
        }
        other => panic!("unexpected {:?}", other),
    }
    let e = b.complete_start_visualization(DeviceId(1), PortId(2), Err("no server".to_string()));
    assert_eq!(error_message(&e), "Failed to create visualization stream for DeviceId(1): no server");
    let e = b.complete_start_visualization(DeviceId(1), PortId(2), Ok(()));
    assert!(matches!(e, AudioEvent::VisualizationStarted { device_id: DeviceId(1), port_id: PortId(2) }));
    match b.handle_command(AudioCommand::StopVisualization { device_id: DeviceId(1) }) {
        Action::CloseCapture { device_id, event } => {
            assert_eq!(device_id, DeviceId(1));
            assert!(matches!(event, AudioEvent::VisualizationStopped { device_id: DeviceId(1) }));
        }
        other => panic!("unexpected {:?}", other),
    }
    match b.handle_command(AudioCommand::StopVisualization { device_id: DeviceId(1) }) {
        Action::CloseCapture { event, .. } => {
            assert_eq!(error_message(&event), "No visualization stream found for device DeviceId(1)")
        }
        other => panic!("unexpected {:?}", other),
    }
}

#[test]
fn bridge_virtual_devices() {
    let mut b = discovered();
    let action = b.handle_command(AudioCommand::CreateVirtualDevice { name: "mix".to_string(), num_inputs: 2, num_outputs: 1 });
    let id = match action {
        Action::Report(AudioEvent::DeviceAdded { device_id, name, device_type }) => {
            assert_eq!(name, "mix");
            assert_eq!(device_type, DeviceType::Virtual);
            device_id
        }
        other => panic!("unexpected {:?}", other),
    };
    assert_eq!(id, DeviceId(2));
    let dev = b.routing_graph().get_device(id).unwrap();
    let names: Vec<(&str, &str, u64)> =
        dev.ports.iter().map(|p| (p.name.as_str(), p.pipewire_port_name.as_str(), p.id.0)).collect();
    assert_eq!(
        names,
        vec![
            ("input_0", "wavewire_virtual_mix:input_0", 3),
            ("input_1", "wavewire_virtual_mix:input_1", 4),
            ("output_0", "wavewire_virtual_mix:output_0", 5),
        ]
    );
    match b.handle_command(AudioCommand::DestroyVirtualDevice { device_id: DeviceId(1) }) {
        Action::Report(e) => assert_eq!(error_message(&e), "Virtual device not found"),
        other => panic!("unexpected {:?}", other),
    }
    match b.handle_command(AudioCommand::DestroyVirtualDevice { device_id: id }) {
        Action::Report(AudioEvent::DeviceRemoved { device_id }) => assert_eq!(device_id, id),
        other => panic!("unexpected {:?}", other),
    }
    assert!(b.routing_graph().get_device(id).is_none());
}
