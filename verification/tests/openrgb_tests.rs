use backsnap::openrgb::{
    build_zones, k70_color_writes, k70_fill, k70_transfer_packet, led_count_byte, restore_turns_off,
    strip_builtin_set, strip_packets, zone_effect_packet, RgbColor, RgbDeviceState, RgbEffect,
};

fn rgb(r: u8, g: u8, b: u8) -> RgbColor {
    RgbColor { r, g, b }
}

#[test]
fn effect_reports_carry_zone_colour_and_timing() {
    let p = zone_effect_packet(2, RgbEffect::Pulse, rgb(10, 20, 30), 3, 200);
    assert_eq!(p.len(), 64);
    assert_eq!(&p[0..6], &[0xCC, 0x22, 0x04, 0x00, 0x00, 0x00]);
    assert_eq!(&p[11..17], &[2, 200, 0, 30, 20, 10]);
    // pulse at speed 3: 700 ms on both periods, 200 ms hold
    assert_eq!(&p[22..28], &[0xBC, 0x02, 0xBC, 0x02, 200, 0]);
    let w = zone_effect_packet(0xFF, RgbEffect::Wave, rgb(1, 2, 3), 12, 255);
    assert_eq!(&w[0..6], &[0xCC, 0x20, 0xFF, 0x00, 0x00, 0x00]);
    assert_eq!(w[11], 6);
    // speed capped at 9: 2.5·10² + 2.5·10 + 25 = 300
    assert_eq!(&w[22..24], &[0x2C, 0x01]);
    assert_eq!((w[30], w[31]), (7, 1));
    let s = zone_effect_packet(0, RgbEffect::Static, rgb(9, 9, 9), 0, 255);
    assert!(s[22..32].iter().all(|b| *b == 0));
    let c = zone_effect_packet(1, RgbEffect::ColorCycle, rgb(0, 0, 0), 0, 255);
    assert_eq!(&c[22..26], &[0x2C, 0x01, 0x64, 0x00]);
    assert_eq!(c[30], 7);
}

#[test]
fn strip_reports_split_at_nineteen_leds() {
    let colors: Vec<RgbColor> = (0..20).map(|i| rgb(i as u8, 100, 200)).collect();
    let ps = strip_packets(0x58, &colors, (1, 0, 2));
    assert_eq!(ps.len(), 2);
    assert_eq!(&ps[0][0..5], &[0xCC, 0x58, 0x00, 0x00, 57]);
    // calibration (1, 0, 2): green first, then red, then blue
    assert_eq!(&ps[0][5..11], &[100, 0, 200, 100, 1, 200]);
    assert_eq!(&ps[1][0..5], &[0xCC, 0x58, 57, 0x00, 3]);
    assert_eq!(&ps[1][5..8], &[100, 19, 200]);
    assert!(ps[1][8..].iter().all(|b| *b == 0));
    assert!(strip_packets(0x59, &[], (1, 0, 2)).is_empty());
}

#[test]
fn builtin_effect_bits() {
    let (v, p) = strip_builtin_set(0x00, 6, false);
    assert_eq!(v, 0x02);
    let p = p.expect("changed");
    assert_eq!(&p[0..4], &[0xCC, 0x32, 0x02, 0x00]);
    assert_eq!(strip_builtin_set(0x02, 6, false).0, 0x02);
    assert!(strip_builtin_set(0x02, 6, false).1.is_none());
    assert_eq!(strip_builtin_set(0x03, 5, true).0, 0x02);
}

#[test]
fn zones_and_led_count_byte() {
    let zs = build_zones(5);
    let names: Vec<&str> = zs.iter().map(|z| z.name.as_str()).collect();
    assert_eq!(names, vec!["Back I/O", "CPU Header", "LED C1C2", "PCIe", "12V RGB Strip", "D_LED1", "D_LED2"]);
    assert_eq!(zs[6].header, 0x26);
    assert!(zs[5].is_digital && zs[5].led_count == 60);
    let small = build_zones(1);
    assert_eq!(small.len(), 3);
    assert_eq!(small[1].idx, 5);
    // 60 LEDs on each strip: the 64-LED setting (1) in both nibbles
    assert_eq!(led_count_byte(&zs), 0x11);
}

#[test]
fn restoring_black_or_off_turns_off() {
    let st = |effect, c| RgbDeviceState { id: "k70".to_string(), color: c, effect, speed: 0 };
    assert!(restore_turns_off(&st(RgbEffect::Off, rgb(1, 2, 3))));
    assert!(restore_turns_off(&st(RgbEffect::Static, rgb(0, 0, 0))));
    assert!(!restore_turns_off(&st(RgbEffect::Pulse, rgb(0, 0, 1))));
    assert_eq!(RgbEffect::Wave.mode_index(), 5);
    assert_eq!(RgbEffect::Random.mode_index(), 6);
}

#[test]
fn k70_colour_writes() {
    let data = k70_fill(rgb(1, 2, 3));
    assert_eq!(data.len(), 389);
    assert_eq!(&data[0..6], &[1, 2, 3, 1, 2, 3]);
    assert_eq!(data[388], 2);
    let writes = k70_color_writes(&data);
    assert_eq!(writes.len(), 1);
    assert_eq!(writes[0].0, vec![0x06, 0x00]);
    assert_eq!(&writes[0].1[0..6], &[0x85, 0x01, 0x00, 0x00, 0x12, 0x00]);
    assert_eq!(writes[0].1.len(), 395);
    let big = vec![7u8; 2000];
    let writes = k70_color_writes(&big);
    assert_eq!(writes.len(), 2);
    assert_eq!(writes[1].0, vec![0x07, 0x00]);
    assert_eq!(writes[0].1.len() + writes[1].1.len(), 2006);
    let pkt = k70_transfer_packet(&[0x06, 0x00], &[9, 8]);
    assert_eq!(pkt.len(), 1025);
    assert_eq!(&pkt[0..6], &[0x00, 0x08, 0x06, 0x00, 9, 8]);
    assert!(pkt[6..].iter().all(|b| *b == 0));
}
