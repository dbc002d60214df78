use wavewire::{
    capture_client_name, find_monitor_ports, matches_target, spectrum_window, DeviceId, RingBuffer,
    SpectrumSchedule, FFT_SIZE,
};

#[test]
fn capture_target_matching() {
    assert!(matches_target("virtual_out_1", "virtual_out_1 Audio/Sink sink:monitor_FL"));
    assert!(!matches_target("virtual_out_1", "other virtual_out_1:monitor_FL"));
    assert!(matches_target("obs_mix", "obs_mix:monitor_FR"));
    assert!(matches_target("alsa_output.usb", "Elgato Wave XLR Analog Stereo:monitor_FL"));
    assert!(!matches_target("alsa_output.usb", "Elgato Wave XLR Analog Stereo:playback_FL"));
    assert!(matches_target("Headset", "My Headset:monitor_FL"));
    assert!(!matches_target("Headset", "Speakers:monitor_FL"));
}

#[test]
fn capture_monitor_ports_found() {
    let ports: Vec<String> = vec![
        "virtual_out_1 sink:monitor_FL".to_string(),
        "virtual_out_1 sink:monitor_FR".to_string(),
        "virtual_out_2 sink:monitor_FL".to_string(),
        "virtual_out_1 sink:playback_FL".to_string(),
    ];
    let (l, r) = find_monitor_ports("virtual_out_1", &ports);
    assert_eq!(l.as_deref(), Some("virtual_out_1 sink:monitor_FL"));
    assert_eq!(r.as_deref(), Some("virtual_out_1 sink:monitor_FR"));
    let (l, r) = find_monitor_ports("", &ports);
    assert!(l.is_none() && r.is_none());
    let (l, r) = find_monitor_ports("virtual_out_2", &ports);
    assert_eq!(l.as_deref(), Some("virtual_out_2 sink:monitor_FL"));
    assert!(r.is_none());
}

#[test]
fn capture_client_name_has_device_number() {
    assert_eq!(capture_client_name(DeviceId(5)), "wavewire_5");
    assert_eq!(capture_client_name(DeviceId(1234)), "wavewire_1234");
}

#[test]
fn capture_schedule_cadence() {
    let mut s = SpectrumSchedule::new(1000);
    assert!(!s.update(1010, 5000, FFT_SIZE));
    assert_eq!(s.last_process_ms, 1000);
    assert!(s.update(1033, 5000, FFT_SIZE));
    assert_eq!(s.last_process_ms, 1033);
    assert!(!s.update(1050, 5000, FFT_SIZE));
    assert!(!s.update(1100, 100, FFT_SIZE));
    assert_eq!(s.last_process_ms, 1100);
    assert!(!s.update(900, 5000, FFT_SIZE));
    assert_eq!(s.last_process_ms, 1100);
}

#[test]
fn capture_window_needs_full_size() {
    let mut buffer = RingBuffer::new(8);
    buffer.push(&[1i32, 2, 3]);
    assert!(spectrum_window(&buffer, 4).is_none());
    buffer.push(&[4, 5]);
    assert_eq!(spectrum_window(&buffer, 4), Some(vec![2, 3, 4, 5]));
}
