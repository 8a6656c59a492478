use backsnap::config::{
    AppConfig, BootConfig, BootloaderType, DiskConfig, RollbackConfig, SnapperConfig,
    SubvolumeConfig, SyncConfig,
};
use backsnap::helpers::{
    activity_log_line, last_log_lines, rotated_log, sync_log_line,
    disk_label, format_duration, get_snapper_configs, get_snapshot_count, partition_role,
    sanitize_excludes, validate_config, validate_description, validate_device_path,
    validate_exclude_list, validate_safe_path, validate_sync_config, validate_timer_value,
    SnapType, TtlCache,
};

fn config(primary: &str, backup: &str) -> AppConfig {
    AppConfig {
        disks: DiskConfig {
            primary_uuid: primary.into(),
            backup_uuid: backup.into(),
            primary_label: "Samsung".into(),
            backup_label: "XPG".into(),
        },
        sync: SyncConfig {
            mount_base: "/mnt/backsnap".into(),
            mount_options: "compress=zstd".into(),
            subvolumes: vec![SubvolumeConfig { name: "system".into(), subvol: "@".into(), source: "/".into(), delete: true }],
            system_excludes: vec!["/proc/*".into()],
            home_excludes: vec![],
            home_extra_excludes: vec![],
            log_path: "/var/log/x.log".into(),
            log_max_lines: 100,
            timer_unit: "t.timer".into(),
            service_unit: "t.service".into(),
            extra_excludes_on_primary: false,
        },
        boot: BootConfig { sync_enabled: false, bootloader_type: BootloaderType::Grub, excludes: vec![] },
        snapper: SnapperConfig { expected_configs: vec![] },
        rollback: RollbackConfig { root_subvol: "@".into(), recovery_label: "Rescue".into(), max_broken_backups: 2 },
    }
}

#[test]
fn config_names() {
    assert_eq!(validate_config("root"), Ok(()));
    assert_eq!(validate_config("home_2-x"), Ok(()));
    assert_eq!(validate_config(""), Err("Ungültiger Config-Name: leer oder zu lang".to_string()));
    assert_eq!(validate_config(&"a".repeat(65)), Err("Ungültiger Config-Name: leer oder zu lang".to_string()));
    assert_eq!(
        validate_config("ro ot"),
        Err("Ungültiger Config-Name: 'ro ot' — nur a-z, 0-9, -, _ erlaubt".to_string())
    );
}

#[test]
fn descriptions_and_paths() {
    assert_eq!(validate_description("before update"), Ok(()));
    assert_eq!(validate_description("rm; ls"), Err("Beschreibung enthält ungültige Zeichen".to_string()));
    assert_eq!(validate_description(&"x".repeat(257)), Err("Beschreibung zu lang (max 256 Zeichen)".to_string()));
    assert_eq!(validate_safe_path("/mnt/a", "mount_base"), Ok(()));
    assert_eq!(validate_safe_path("", "mount_base"), Err("mount_base: darf nicht leer sein".to_string()));
    assert_eq!(
        validate_safe_path("/mnt/$(x)", "mount_base"),
        Err("mount_base: enthält ungültige Zeichen (Shell-Injection verhindert): '/mnt/$(x)'".to_string())
    );
    assert!(validate_device_path("/dev/nvme0n1p1"));
    assert!(!validate_device_path("/tmp/x"));
    assert!(!validate_device_path("/dev/a|b"));
    assert!(validate_timer_value("daily").is_ok());
    assert!(validate_timer_value("").is_err());
    assert!(validate_timer_value("daily; reboot").is_err());
}

#[test]
fn exclude_lists() {
    let list = vec!["  .cache ".to_string(), "# comment".to_string(), "".to_string(), ".cache".to_string(), "node_modules".to_string()];
    assert_eq!(sanitize_excludes(&list), vec![".cache".to_string(), "node_modules".to_string()]);
    assert_eq!(validate_exclude_list(&list, "home_excludes"), Ok(()));
    let bad = vec!["ok".to_string(), "# $skip".to_string(), "a|b".to_string()];
    assert_eq!(validate_exclude_list(&bad, "home_excludes"), Err("home_excludes[2]: enthält ungültige Zeichen: 'a|b'".to_string()));
    let long = vec!["x".repeat(513)];
    assert_eq!(validate_exclude_list(&long, "boot.excludes"), Err("boot.excludes[0]: zu lang (513 Zeichen, max 512)".to_string()));
}

#[test]
fn sync_configuration() {
    assert_eq!(validate_sync_config(&config("abcd-1234", "ef-56")), Ok(()));
    assert_eq!(
        validate_sync_config(&config("xyz", "ef")),
        Err("primary_uuid: ungültiges UUID-Format 'xyz'".to_string())
    );
    assert!(validate_sync_config(&config("ab", "ab")).is_err());
    assert_eq!(validate_sync_config(&config("", "")), Ok(()));
}

#[test]
fn labels_and_durations() {
    let c = config("P", "B");
    assert_eq!(disk_label("P", &c), "Samsung");
    assert_eq!(disk_label("B", &c), "XPG");
    assert_eq!(disk_label("Z", &c), "Unknown (Z)");
    assert_eq!(partition_role("P", "/", &c), "System Disk");
    assert_eq!(partition_role("Z", "/boot/efi", &c), "Boot Partition");
    assert_eq!(partition_role("Z", "/data", &c), "Datenlaufwerk");
    assert_eq!(format_duration(3725), "1h 2m 5s");
    assert_eq!(format_duration(61), "1m 1s");
    assert_eq!(format_duration(5), "5s");
}

#[test]
fn snapper_listings() {
    assert_eq!(get_snapper_configs("Config\n------\nroot\n home \n\n"), vec!["root".to_string(), "home".to_string()]);
    assert!(get_snapper_configs("Config\n------\n").is_empty());
    assert_eq!(get_snapshot_count(" # \n---\n 0 \n 1\n 2\nwarning\n"), 2);
    assert_eq!(SnapType::parse(" pre "), Some(SnapType::Pre));
    assert_eq!(SnapType::parse("other"), None);
}

#[test]
fn cache_serves_fresh_values() {
    let mut c: TtlCache<u32> = TtlCache::new();
    assert_eq!(c.get(1000, 5), None);
    c.set(7, 100);
    assert_eq!(c.get(1000, 100), Some(7));
    assert_eq!(c.get(1000, 1099), Some(7));
    assert_eq!(c.get(1000, 1100), None);
    assert_eq!(c.get(1000, 50), Some(7));
    c.clear();
    assert_eq!(c.get(1000, 100), None);
}

#[test]
fn log_files() {
    assert_eq!(rotated_log("a\nb\nc\n", 2), Some("b\nc\n".to_string()));
    assert_eq!(rotated_log("a\nb\n", 2), None);
    assert_eq!(last_log_lines("a\nb\nc", 2), vec!["b".to_string(), "c".to_string()]);
    assert_eq!(last_log_lines("a\n", 5), vec!["a".to_string()]);
    assert_eq!(activity_log_line("2024-01-01 10:00:00", "sync", "ok"), "[2024-01-01 10:00:00] [sync] ok");
    assert_eq!(sync_log_line("t", "done"), "[t] done\n");
}
