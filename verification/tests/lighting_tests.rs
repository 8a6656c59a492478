use backsnap::lighting::{
    govee_scene_summary, lamp_color_result, purple_govee_scene, purple_pc_scene, resolve_govee_lamp,
    current_brightness, scale_rgb, tally_message, MasterBrightness,
};
use backsnap::openrgb::{apply_packet, cc_packet, led_count_to_enum, parse_cal, parse_it8297_report};

#[test]
fn brightness_scaling() {
    assert_eq!(scale_rgb(200, 100, 50, 50), (100, 50, 25));
    assert_eq!(scale_rgb(200, 100, 50, 0), (2, 1, 0));
    assert_eq!(scale_rgb(200, 100, 50, 250), (200, 100, 50));
    let mut m = MasterBrightness::new();
    assert_eq!(m.set(0), 1);
    assert_eq!(m.set(150), 100);
    assert_eq!(m.set(42), 42);
}

#[test]
fn govee_lamp_names() {
    assert_eq!(resolve_govee_lamp(" Decke ").map(|l| l.id), Some("deckenlampe"));
    assert_eq!(resolve_govee_lamp("CEILING2").map(|l| l.id), Some("deckenlampe2"));
    assert_eq!(resolve_govee_lamp("floor").map(|l| l.id), Some("stehlampe"));
    assert_eq!(resolve_govee_lamp("Rachel").map(|l| l.id), Some("rachel"));
    assert_eq!(resolve_govee_lamp("kitchen").map(|l| l.id), None);
}

#[test]
fn it8297_reports() {
    let p = cc_packet(0x20, 0x01, 0x02);
    assert_eq!(p.len(), 64);
    assert_eq!(&p[..5], &[0xCC, 0x20, 0x01, 0x02, 0x00]);
    let a = apply_packet(0x0102_03FF);
    assert_eq!(&a[..7], &[0xCC, 0x28, 0xFF, 0x03, 0x02, 0x01, 0x00]);
    assert_eq!(led_count_to_enum(32), 0);
    assert_eq!(led_count_to_enum(33), 1);
    assert_eq!(led_count_to_enum(1000), 4);
    assert_eq!(parse_cal(0), (1, 0, 2));
    assert_eq!(parse_cal(0x0001_0200), (1, 2, 0));
    let mut buf = vec![0u8; 64];
    buf[2] = 7;
    buf[4] = 0x04;
    buf[5] = 0x03;
    buf[44] = 0x02;
    buf[45] = 0x00;
    buf[46] = 0x01;
    let r = parse_it8297_report(&buf, 64).expect("long enough");
    assert_eq!(r.device_num, 7);
    assert_eq!(r.fw_version, 0x0304);
    assert_eq!(r.d_led1_cal, (1, 0, 2));
    assert_eq!(r.d_led2_cal, (1, 0, 2));
    let r = parse_it8297_report(&buf, 20).expect("long enough");
    assert_eq!(r.d_led1_cal, (1, 0, 2));
    match parse_it8297_report(&buf, 10) {
        Err(m) => assert_eq!(m, "IT8297Report zu kurz (10 bytes)"),
        Ok(_) => panic!("a short report must be refused"),
    }
}

#[test]
fn govee_scene_summary_counts_and_names_failures() {
    let (ok, msg) = govee_scene_summary(
        "Govee purple",
        &[("deckenlampe", true), ("deckenlampe2", false), ("stehlampe", true), ("rachel", false)],
    );
    assert!(ok);
    assert_eq!(msg, "Govee purple: 2 applied, 2 failed (deckenlampe2, rachel)");
    let (ok, msg) = govee_scene_summary("Govee purple", &[("deckenlampe", true), ("rachel", true)]);
    assert!(ok);
    assert_eq!(msg, "Govee purple: 2 applied, 0 failed");
    let (ok, msg) = govee_scene_summary("Govee purple", &[("stehlampe", false)]);
    assert!(!ok);
    assert_eq!(msg, "Govee purple: 0 applied, 1 failed (stehlampe)");
}

#[test]
fn tally_and_lamp_messages() {
    assert_eq!(tally_message(3, 3, "an", "nicht erreichbar"), (true, "3 an, 3 nicht erreichbar".to_string()));
    assert_eq!(tally_message(0, 6, "gesetzt", "fehlgeschlagen"), (false, "0 gesetzt, 6 fehlgeschlagen".to_string()));
    assert_eq!(
        lamp_color_result("decke", 255, 0, 10, Some(("deckenlampe", true, "ok".to_string()))),
        (true, "deckenlampe RGB (255,0,10): ok".to_string())
    );
    assert_eq!(
        lamp_color_result("kueche", 1, 2, 3, None),
        (
            false,
            "Unknown Govee lamp 'kueche'. Valid targets: deckenlampe, deckenlampe2, stehlampe, rachel".to_string()
        )
    );
}

#[test]
fn purple_scenes() {
    let scene = purple_govee_scene();
    let names: Vec<&str> = scene.iter().map(|t| t.name).collect();
    assert_eq!(names, vec!["deckenlampe", "deckenlampe2", "stehlampe", "rachel"]);
    assert_eq!(scene[0].color, (70, 0, 255));
    assert_eq!(scene[3].url, "http://192.168.0.8:4080/api/govee/rachel/color");
    assert_eq!(purple_pc_scene(), ((75, 0, 255), (25, 0, 255)));
}

#[test]
fn brightness_is_the_last_slider_value_clamped() {
    let mut m = MasterBrightness::new();
    assert_eq!(current_brightness(&m), 100);
    for (b, want) in [(0u8, 1u8), (255, 100), (37, 37), (100, 100), (1, 1)] {
        m.set(b);
        assert_eq!(current_brightness(&m), want);
    }
}
