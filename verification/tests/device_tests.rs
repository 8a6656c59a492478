use backsnap::hid::DeviceSlot;
use backsnap::boot::DiskSide;
use backsnap::corsair::{
    apply_fan_readings, apply_temp_readings, color_packets, led_port_config, speed_accepted, speed_payload,
    water_probe, FanChannel, ProbeReading, RgbColor,
};
use backsnap::hid::{command_frame, endpoint_payload, HidError};
use backsnap::loader::{conf_file_names, conf_files_in_listing, loader_entries};
use backsnap::protocol::{LedPort, SpeedPct};

fn fan(ch: u8) -> FanChannel {
    FanChannel { channel: ch, connected: false, rpm: 0, duty: SpeedPct::new(0) }
}

#[test]
fn command_frames_are_padded() {
    let buf = command_frame(&[0x01, 0x02], Some(&[0xAA])).expect("fits");
    assert_eq!(buf.len(), 385);
    assert_eq!(&buf[..5], &[0x00, 0x08, 0x01, 0x02, 0xAA]);
    assert!(buf[5..].iter().all(|b| *b == 0));
    let buf = command_frame(&[0x05], None).expect("fits");
    assert_eq!(&buf[..3], &[0x00, 0x08, 0x05]);
    assert!(matches!(command_frame(&[0u8; 384], None), Err(HidError::WriteFailed(m)) if m == "Command too large"));
    assert!(matches!(command_frame(&[1u8; 300], Some(&[2u8; 84])), Err(HidError::WriteFailed(m)) if m == "Payload too large"));
    assert!(command_frame(&[1u8; 300], Some(&[2u8; 83])).is_ok());
}

#[test]
fn endpoint_payload_has_length_header() {
    let buf = endpoint_payload(&[0x12, 0x00], &[1, 2, 3]).expect("fits");
    assert_eq!(buf, vec![5, 0, 0, 0, 0x12, 0x00, 1, 2, 3]);
    let big = vec![0u8; 300];
    let buf = endpoint_payload(&[0x07], &big).expect("fits");
    assert_eq!(&buf[..4], &[0x2d, 0x01, 0, 0]);
    assert_eq!(buf.len(), 305);
    let too_big = vec![0u8; 65535];
    assert!(matches!(endpoint_payload(&[1], &too_big), Err(HidError::WriteFailed(m)) if m == "Write payload too large"));
}

#[test]
fn fan_readings_update_connected_fans() {
    let mut fans = vec![fan(0), fan(1), fan(2)];
    fans[1].rpm = 500;
    // channel response: count 3 at byte 5, statuses from byte 6
    let channels = [0, 0, 0, 0, 0, 3, 0x07, 0x07, 0x00];
    // speed response: data from byte 6, two bytes per fan
    let speeds = [0, 0, 0, 0, 0, 0, 0xE8, 0x03, 0x00, 0x00, 0x10, 0x00];
    apply_fan_readings(&mut fans, &channels, &speeds);
    assert!(fans[0].connected);
    assert_eq!(fans[0].rpm, 1000);
    assert!(fans[1].connected);
    assert_eq!(fans[1].rpm, 500);
    assert!(!fans[2].connected);
    assert_eq!(fans[2].rpm, 0);
}

#[test]
fn fan_readings_stop_at_short_data() {
    let mut fans = vec![fan(0), fan(1)];
    apply_fan_readings(&mut fans, &[0, 0, 0, 0, 0, 2, 7, 7], &[0, 0, 0]);
    assert!(!fans[0].connected && !fans[1].connected);
    apply_fan_readings(&mut fans, &[0, 0, 0, 0, 0, 2, 7, 7], &[0, 0, 0, 0, 0, 0, 0x20, 0x00]);
    assert!(fans[0].connected);
    assert_eq!(fans[0].rpm, 32);
    assert!(!fans[1].connected);
}

#[test]
fn colour_packets_are_chunked() {
    let c = RgbColor { r: 1, g: 2, b: 3 };
    assert!(color_packets(0, c).expect("nothing to send").is_empty());
    let ps = color_packets(2, c).expect("fits");
    assert_eq!(ps, vec![vec![8, 0, 0, 0, 0x12, 0x00, 1, 2, 3, 1, 2, 3]]);
    let ps = color_packets(200, c).expect("fits");
    let total: usize = ps.iter().map(|p| p.len()).sum();
    assert_eq!(total, 6 + 600);
    assert_eq!(ps.len(), 2);
    assert_eq!(ps[0].len(), 381);
    assert_eq!(&ps[0][..4], &[0x5a, 0x02, 0, 0]);
    let joined: Vec<u8> = ps.concat();
    assert_eq!(&joined[6..9], &[1, 2, 3]);
    assert_eq!(&joined[603..606], &[1, 2, 3]);
    assert!(matches!(color_packets(30000, c), Err(HidError::WriteFailed(m)) if m == "Colour data too large"));
}

#[test]
fn loader_entries_follow_sort_key_then_title() {
    let files = vec![
        ("b.conf".to_string(), "title Zeta\nlinux /vmlinuz-linux\noptions root=UUID=1111 rw\n".to_string()),
        ("a.conf".to_string(), "title Alpha\nsort-key arch\nlinux /vmlinuz-lts\n".to_string()),
        ("c.conf".to_string(), "title alpha two\nlinux /vmlinuz\n".to_string()),
        ("d.conf".to_string(), "title Beta\nsort-key Arch\n".to_string()),
    ];
    let entries = loader_entries(&files, DiskSide::Primary);
    let ids: Vec<&str> = entries.iter().map(|e| e.id.as_str()).collect();
    assert_eq!(ids, vec!["a", "d", "c", "b"]);
    assert_eq!(entries[3].title, "Zeta");
    assert_eq!(entries[3].root_uuid, "1111");
    assert_eq!(entries[3].kernel, "vmlinuz-linux");
    assert_eq!(entries[0].disk, DiskSide::Primary);
}

#[test]
fn conf_names_are_filtered_and_sorted() {
    let names: Vec<String> = ["b.conf", "a.CONF", "x.txt", ".conf", "c.conf.bak"]
        .iter()
        .map(|s| s.to_string())
        .collect();
    assert_eq!(conf_file_names(&names), vec!["a.CONF".to_string(), "b.conf".to_string()]);
    assert_eq!(
        conf_files_in_listing(" b.conf\na.conf\nnotes\n"),
        vec!["a.conf".to_string(), "b.conf".to_string()]
    );
}

#[test]
fn temperature_readings_take_connected_probes() {
    let mut probes: Vec<ProbeReading> =
        (0..3).map(|c| ProbeReading { channel: c, connected: true, tenths: 123 }).collect();
    let resp = [0u8, 0, 0, 0, 0, 2, 0x00, 0xF4, 0x01, 0x01, 0x10, 0x00];
    apply_temp_readings(&mut probes, &resp);
    assert!(probes[0].connected);
    assert_eq!(probes[0].tenths, 500);
    assert!(!probes[1].connected);
    assert_eq!(probes[1].tenths, 123);
    assert!(probes[2].connected && probes[2].tenths == 123);
    assert_eq!(water_probe(&probes), Some(500));
    let before: Vec<(bool, u16)> = probes.iter().map(|p| (p.connected, p.tenths)).collect();
    apply_temp_readings(&mut probes, &[0, 0, 0]);
    let after: Vec<(bool, u16)> = probes.iter().map(|p| (p.connected, p.tenths)).collect();
    assert_eq!(before, after);
    let none = [ProbeReading { channel: 0, connected: false, tenths: 7 }];
    assert_eq!(water_probe(&none), None);
}

#[test]
fn speed_writes_and_port_configuration() {
    assert_eq!(speed_payload(3, SpeedPct::new(150)), [1, 3, 0, 100, 0]);
    assert!(speed_accepted(&[0x00, 0x06, 0x00]));
    assert!(!speed_accepted(&[0x00, 0x06, 0x01]));
    assert!(!speed_accepted(&[0x00, 0x06]));
    let off = LedPort { connected: false, led_count: 0, command: 0 };
    let ports = [
        LedPort { connected: true, led_count: 34, command: 0x06 },
        LedPort { connected: true, led_count: 5, command: 0 },
        off,
        LedPort { connected: true, led_count: 8, command: 0x05 },
        off,
        off,
    ];
    assert_eq!(led_port_config(&ports), vec![0x0d, 0x00, 0x07, 0x00, 0x01, 0x06, 0x00, 0x00, 0x01, 0x05, 0x00, 0x00]);
}

#[test]
fn device_slot_connects_and_disconnects() {
    let mut slot: DeviceSlot<u8> = DeviceSlot::empty();
    assert!(!slot.is_connected());
    assert!(matches!(slot.with(|v| Ok(*v)), Err(HidError::Disconnected)));
    assert!(matches!(slot.connect(5), Ok(None)));
    assert!(slot.is_connected());
    assert!(matches!(slot.with(|v| Ok(u32::from(*v) + 1)), Ok(6)));
    assert!(matches!(slot.with_mut(|v| { *v = 9; Ok(()) }), Ok(())));
    assert!(matches!(slot.connect(7), Ok(Some(9))));
    assert!(matches!(slot.disconnect(), Ok(Some(7))));
    assert!(!slot.is_connected());
    assert!(matches!(slot.with_mut(|_| Ok(())), Err(HidError::Disconnected)));
}

#[test]
fn device_slot_follows_its_last_change() {
    let mut slot: DeviceSlot<u8> = DeviceSlot::empty();
    for i in 0..6u8 {
        if i % 3 == 2 {
            let _ = slot.disconnect();
            assert!(!slot.is_connected());
            assert!(slot.with(|_| Ok(())).is_err());
        } else {
            let _ = slot.connect(i);
            assert!(slot.is_connected());
            assert!(matches!(slot.with(|v| Ok(*v)), Ok(v) if v == i));
        }
    }
}
