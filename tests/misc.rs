use wavewire::filters::not_enabled_text;
use wavewire::selection::{select_after_hide, select_down, select_up};
use wavewire::text::parse_u32;
use wavewire::{
    Config, DeviceId, DeviceInfo, DeviceTab, DeviceType, FilterOutcome, FilterStates, HotParam, HotSlot,
    PortDirection, PortId, VirtualDevice,
};

#[test]
fn labels_and_names() {
    assert_eq!(DeviceId::new(3).label(), "Device(3)");
    assert_eq!(PortId::new(10).label(), "Port(10)");
    assert_eq!(DeviceId(0).label(), "Device(0)");
    assert_eq!(DeviceType::Physical.name(), "Physical");
    assert_eq!(DeviceType::Virtual.name(), "Virtual");
    assert_eq!(PortDirection::Input.name(), "Input");
    assert_eq!(PortDirection::Output.name(), "Output");
}

#[test]
fn parse_u32_like_std() {
    assert_eq!(parse_u32("42"), Some(42));
    assert_eq!(parse_u32("+7"), Some(7));
    assert_eq!(parse_u32("4294967295"), Some(u32::MAX));
    assert_eq!(parse_u32("4294967296"), None);
    assert_eq!(parse_u32(""), None);
    assert_eq!(parse_u32("+"), None);
    assert_eq!(parse_u32("-1"), None);
    assert_eq!(parse_u32("12a"), None);
    assert_eq!(parse_u32("99999999999x"), None);
}

#[test]
fn config_lists_visualized_device_names() {
    let devices = vec![
        DeviceInfo::new(DeviceId(1), "one".to_string(), DeviceType::Physical),
        DeviceInfo::new(DeviceId(2), "two".to_string(), DeviceType::Virtual),
        DeviceInfo::new(DeviceId(3), "three".to_string(), DeviceType::Physical),
    ];
    let config = Config::from_visualized_devices(&[DeviceId(3), DeviceId(1), DeviceId(9)], &devices);
    assert_eq!(config.visualization.enabled_devices, vec!["one".to_string(), "three".to_string()]);
    assert!(Config::default().visualization.enabled_devices.is_empty());
}

#[test]
fn tabs_cycle() {
    assert_eq!(DeviceTab::all(), vec![DeviceTab::Routing, DeviceTab::Filters]);
    assert_eq!(DeviceTab::Routing.next(), DeviceTab::Filters);
    assert_eq!(DeviceTab::Filters.next(), DeviceTab::Routing);
    assert_eq!(DeviceTab::Routing.previous(), DeviceTab::Filters);
    assert_eq!(DeviceTab::Filters.title(), "Filters");
    assert_eq!(DeviceTab::Routing.title(), "Routing");
}

#[test]
fn hot_slot_last_write_wins() {
    let mut slot = HotSlot::new();
    let mut param = HotParam::new(0u32);
    assert!(!param.pick_up(&mut slot));
    slot.stage(1);
    slot.stage(2);
    assert!(slot.is_pending());
    assert!(param.pick_up(&mut slot));
    assert_eq!(*param.current(), 2);
    assert!(!slot.is_pending());
    assert!(!param.pick_up(&mut slot));
    assert_eq!(*param.current(), 2);
    assert_eq!(slot.take(), None);
}

#[test]
fn virtual_device_record() {
    let v = VirtualDevice::new(DeviceId(4), "mix".to_string(), 2, 3);
    assert_eq!((v.id, v.name.as_str(), v.num_inputs, v.num_outputs), (DeviceId(4), "mix", 2, 3));
}

#[test]
fn selection_skips_hidden_devices() {
    let hidden = vec![false, true, true, false, true];
    assert_eq!(select_up(&hidden, false, 3), 0);
    assert_eq!(select_up(&hidden, true, 3), 2);
    assert_eq!(select_up(&hidden, false, 0), 0);
    assert_eq!(select_down(&hidden, false, 0, 5), 3);
    assert_eq!(select_down(&hidden, false, 3, 5), 3);
    assert_eq!(select_down(&hidden, true, 3, 5), 4);
    assert_eq!(select_after_hide(&vec![false, true, false], 1), 2);
    assert_eq!(select_after_hide(&vec![false, true, true], 1), 0);
    assert_eq!(select_after_hide(&vec![true, true], 0), 0);
}

#[test]
fn first_output_port_is_the_capture_port() {
    let mut d = DeviceInfo::new(DeviceId(1), "d".to_string(), DeviceType::Physical);
    assert_eq!(d.first_output_port(), None);
    d.ports.push(wavewire::PortInfo::new(PortId(4), "in".to_string(), PortDirection::Input, "d:in".to_string()));
    d.ports.push(wavewire::PortInfo::new(PortId(5), "o1".to_string(), PortDirection::Output, "d:o1".to_string()));
    d.ports.push(wavewire::PortInfo::new(PortId(6), "o2".to_string(), PortDirection::Output, "d:o2".to_string()));
    assert_eq!(d.first_output_port(), Some(PortId(5)));
}

#[test]
fn filter_states_answer_every_command() {
    let mut states: FilterStates<i32> = FilterStates::new();
    assert!(matches!(states.disable(DeviceId(1)), FilterOutcome::NotEnabled));
    assert!(matches!(states.update(DeviceId(1), 5), FilterOutcome::NotEnabled));
    assert_eq!(states.current(DeviceId(1)), None);
    assert!(matches!(states.enable(DeviceId(1), 3), FilterOutcome::Enabled(3)));
    assert!(matches!(states.update(DeviceId(1), 4), FilterOutcome::Updated(4)));
    assert_eq!(states.current(DeviceId(1)), Some(4));
    assert!(matches!(states.disable(DeviceId(1)), FilterOutcome::Disabled));
    assert_eq!(states.current(DeviceId(1)), None);
    assert_eq!(not_enabled_text(DeviceId(12)), "Filter not enabled for device DeviceId(12)");
}
