use backsnap::tools::{
    all_lights_result, fan_speed_result, find_pi_device, music_stop_result, pi_reboot_result,
    rgb_color_result, rgb_mode_id, rgb_mode_result, single_system_result, snapshot_create_result,
    snapshot_list_result, system_status_result, timer_info_result, tool_request, unknown_result,
    water_result, HostSummary, ParamValue, PiDevice, SnapshotSummary, TimerSummary, ToolRequest,
};

fn p(k: &str, v: ParamValue) -> (String, ParamValue) {
    (k.to_string(), v)
}

#[test]
fn light_power_defaults_to_on() {
    assert!(matches!(tool_request("light_power", &[]), ToolRequest::LightPower { power: true }));
    let off = [p("power", ParamValue::Bool(false))];
    assert!(matches!(tool_request("light_power", &off), ToolRequest::LightPower { power: false }));
    let wrong_type = [p("power", ParamValue::Text("no".into()))];
    assert!(matches!(tool_request("govee_power", &wrong_type), ToolRequest::GoveePower { power: true }));
}

#[test]
fn brightness_truncates_to_a_byte() {
    let params = [p("brightness", ParamValue::UInt(300))];
    assert!(matches!(tool_request("light_brightness", &params), ToolRequest::LightBrightness { percent: 44 }));
    assert!(matches!(tool_request("rgb_brightness", &[]), ToolRequest::RgbBrightness { percent: 100 }));
}

#[test]
fn colour_defaults_to_blue() {
    match tool_request("govee_lamp_color", &[p("r", ParamValue::UInt(10))]) {
        ToolRequest::GoveeLampColor { lamp, r, g, b } => {
            assert_eq!(lamp, "deckenlampe");
            assert_eq!((r, g, b), (10, 0, 255));
        }
        other => panic!("unexpected {:?}", other),
    }
    assert!(matches!(tool_request("light_color", &[]), ToolRequest::LightColor { r: 0, g: 0, b: 255 }));
}

#[test]
fn watering_is_capped_at_a_minute() {
    assert!(matches!(tool_request("water_plant", &[]), ToolRequest::WaterPlant { seconds: 10 }));
    let long = [p("seconds", ParamValue::UInt(100))];
    assert!(matches!(tool_request("water_plant", &long), ToolRequest::WaterPlant { seconds: 60 }));
}

#[test]
fn fan_speed_auto_and_percent() {
    let auto = [p("percent", ParamValue::Text("auto".into()))];
    assert!(matches!(tool_request("fan_speed", &auto), ToolRequest::FanSpeed { auto: true, percent: 50 }));
    let pct = [p("percent", ParamValue::UInt(80))];
    assert!(matches!(tool_request("fan_speed", &pct), ToolRequest::FanSpeed { auto: false, percent: 80 }));
}

#[test]
fn rgb_mode_names_are_case_insensitive() {
    assert_eq!(rgb_mode_id("Wave"), 5);
    assert_eq!(rgb_mode_id("color_cycle"), 4);
    assert_eq!(rgb_mode_id("BLINKING"), 3);
    assert_eq!(rgb_mode_id("disco"), 1);
    let params = [p("mode", ParamValue::Text("Pulse".into())), p("speed", ParamValue::UInt(70000))];
    match tool_request("rgb_mode", &params) {
        ToolRequest::RgbMode { mode_name, mode_id, speed } => {
            assert_eq!(mode_name, "Pulse");
            assert_eq!(mode_id, 2);
            assert_eq!(speed, Some(70000));
        }
        other => panic!("unexpected {:?}", other),
    }
}

#[test]
fn text_parameters_and_unknown_tools() {
    match tool_request("snapshot_create", &[]) {
        ToolRequest::SnapshotCreate { description } => assert_eq!(description, "Jarvis snapshot"),
        other => panic!("unexpected {:?}", other),
    }
    match tool_request("pi_reboot", &[p("target", ParamValue::Text("pi4".into()))]) {
        ToolRequest::PiReboot { target } => assert_eq!(target, "pi4"),
        other => panic!("unexpected {:?}", other),
    }
    assert!(matches!(tool_request("fan_status", &[]), ToolRequest::FanStatus));
    assert!(matches!(tool_request("dance", &[]), ToolRequest::Unknown));
}

#[test]
fn all_lights_messages() {
    let r = all_lights_result(&ToolRequest::LightPower { power: true }, "light_power".into(), true, false, true);
    assert!(r.success);
    assert_eq!(r.action, "light_power");
    assert_eq!(r.message, "Alles AN: Corsair ✓ · OpenRGB ✗ · Govee ✓");
    let r = all_lights_result(&ToolRequest::LightColor { r: 1, g: 2, b: 3 }, "light_color".into(), false, false, false);
    assert!(!r.success);
    assert_eq!(r.message, "Alle Lichter RGB (1,2,3): Corsair ✗ · OpenRGB ✗ · Govee ✗");
    let r = all_lights_result(&ToolRequest::LightBrightness { percent: 40 }, "light_brightness".into(), false, true, false);
    assert_eq!(r.message, "Helligkeit 40%");
    let r = all_lights_result(&ToolRequest::LightPurple, "light_purple".into(), true, true, true);
    assert_eq!(r.message, "Purple scene: Corsair ✓ · OpenRGB ✓ · Govee ✓");
}

#[test]
fn single_system_messages() {
    let r = single_system_result(&ToolRequest::GoveeBrightness { percent: 30 }, "govee_brightness".into(), true, "ok".into());
    assert_eq!(r.message, "Govee 30%: ok");
    let r = single_system_result(&ToolRequest::RgbPower { power: false }, "rgb_power".into(), false, "down".into());
    assert!(!r.success);
    assert_eq!(r.message, "PC RGB AUS: down");
    let r = single_system_result(&ToolRequest::GoveeColor { r: 9, g: 8, b: 7 }, "govee_color".into(), true, "x".into());
    assert_eq!(r.message, "Govee RGB (9,8,7): x");
    let lamp = ToolRequest::GoveeLampColor { lamp: "stehlampe".into(), r: 0, g: 0, b: 0 };
    let r = single_system_result(&lamp, "govee_lamp_color".into(), true, "Stehlampe gesetzt".into());
    assert_eq!(r.message, "Stehlampe gesetzt");
}

#[test]
fn counted_results() {
    let r = rgb_color_result("rgb_color".into(), 255, 0, 0, false, 3);
    assert!(r.success);
    assert_eq!(r.message, "RGB (255,0,0): Corsair ✗ · 3 OpenRGB");
    let r = rgb_color_result("rgb_color".into(), 0, 0, 0, false, 0);
    assert!(!r.success);
    let r = water_result("water_plant".into(), 10, 6, 0);
    assert_eq!(r.message, "Alle 6 Pflanzen werden 10s gegossen (R2/R6: 70%) 💧");
    let r = water_result("water_plant".into(), 10, 4, 2);
    assert!(r.success);
    assert_eq!(r.message, "4/6 Relays ok, 2 Fehler (10s)");
    let r = fan_speed_result("fan_speed".into(), false, 80, 6);
    assert_eq!(r.message, "Fans set to 80% (6/6)");
    let r = fan_speed_result("fan_speed".into(), true, 50, 5);
    assert_eq!(r.message, "Fans back to auto curve (5/6)");
    let r = rgb_mode_result("rgb_mode".into(), "wave", 0);
    assert!(!r.success);
    assert_eq!(r.message, "RGB mode 'wave': 0/6 devices");
}

#[test]
fn snapshot_and_pi_results() {
    let r = snapshot_create_result("snapshot_create".into(), "before update", Ok(true));
    assert!(r.success);
    assert_eq!(r.message, "Snapshot created: before update");
    let r = snapshot_create_result("snapshot_create".into(), "x", Err("denied".into()));
    assert!(!r.success);
    assert_eq!(r.message, "Snapshot error: denied");
    let devices = vec![
        PiDevice { id: "pi4".into(), label: "Living".into(), model: "Raspberry Pi 4".into() },
        PiDevice { id: "pi5-main".into(), label: "Office".into(), model: "Raspberry Pi 5".into() },
    ];
    assert_eq!(find_pi_device(&devices, "PI5"), Some(1));
    assert_eq!(find_pi_device(&devices, "raspberry"), Some(0));
    assert_eq!(find_pi_device(&devices, "zero"), None);
    let r = pi_reboot_result("pi_reboot".into(), "pi5", Some(("Office".into(), Ok(true))));
    assert!(r.success);
    assert_eq!(r.message, "Office rebooting");
    let r = pi_reboot_result("pi_reboot".into(), "pi9", None);
    assert!(!r.success);
    assert_eq!(r.message, "Pi 'pi9' not found");
    let r = pi_reboot_result("pi_reboot".into(), "pi4", Some(("Living".into(), Err("timeout".into()))));
    assert_eq!(r.message, "Reboot error: timeout");
}

#[test]
fn query_results() {
    let last = SnapshotSummary { id: Some(42), date: Some("2024-01-01".into()), description: Some("pre".into()) };
    let r = snapshot_list_result("snapshot_list".into(), Ok((3, Some(last))));
    assert_eq!(r.message, "3 snapshots. Latest: #42 at 2024-01-01 (pre)");
    let bare = SnapshotSummary { id: None, date: None, description: Some(String::new()) };
    let r = snapshot_list_result("snapshot_list".into(), Ok((1, Some(bare))));
    assert_eq!(r.message, "1 snapshots. Latest: #0 at unknown");
    let r = snapshot_list_result("snapshot_list".into(), Ok((0, None)));
    assert_eq!(r.message, "0 snapshots. Latest: none");
    let t = TimerSummary {
        enabled: Some(true),
        calendar: Some("daily".into()),
        last_trigger: None,
        service_result: Some("success".into()),
    };
    let r = timer_info_result("timer_info".into(), Ok(t));
    assert_eq!(r.message, "Backup timer: enabled. Schedule: daily. Last run: never. Result: success.");
    let h = HostSummary {
        hostname: Some("box".into()),
        kernel: None,
        uptime: Some("1h".into()),
        disks: vec![(Some("nvme0n1".into()), Some("42%".into())), (None, None)],
    };
    let r = system_status_result("system_status".into(), Ok(h));
    assert_eq!(r.message, "Host: box. Kernel: unknown. Uptime: 1h. Disk usage: nvme0n1: 42%, disk: ?.");
    let empty = HostSummary { hostname: None, kernel: None, uptime: None, disks: vec![] };
    let r = system_status_result("system_status".into(), Ok(empty));
    assert_eq!(r.message, "Host: unknown. Kernel: unknown. Uptime: unknown. Disk usage: n/a.");
    let r = system_status_result("system_status".into(), Err("down".into()));
    assert!(!r.success);
    assert_eq!(r.message, "System status error: down");
}

#[test]
fn fixed_results() {
    let r = music_stop_result("music_stop".into());
    assert!(r.success);
    assert_eq!(r.message, "Audio playback stopped");
    let r = unknown_result("dance".into());
    assert!(!r.success);
    assert_eq!(r.action, "dance");
    assert_eq!(r.message, "Unbekannte Aktion: dance");
}
