use backsnap::boot::DiskSide;
use backsnap::sync::get_sync_status_internal;
use backsnap::config::{
    AppConfig, BootConfig, BootloaderType, DiskConfig, RollbackConfig, SnapperConfig,
    SubvolumeConfig, SyncConfig,
};
use backsnap::helpers::CommandResult;
use backsnap::sync::{
    boot_phase_pct, detect_sync_direction, old_broken_backups, phase_log, plan_sync_phases,
    rollback_paths, rollback_report, rsync_args, rsync_error, rsync_source, rsync_stats,
    subvolume_excludes, sync_direction, sync_result,
};

fn sv(name: &str, subvol: &str, source: &str) -> SubvolumeConfig {
    SubvolumeConfig { name: name.into(), subvol: subvol.into(), source: source.into(), delete: true }
}

fn config() -> AppConfig {
    AppConfig {
        disks: DiskConfig {
            primary_uuid: "P-UUID".into(),
            backup_uuid: "B-UUID".into(),
            primary_label: "Samsung".into(),
            backup_label: "XPG".into(),
        },
        sync: SyncConfig {
            mount_base: "/mnt/backsnap".into(),
            mount_options: "compress=zstd,noatime".into(),
            subvolumes: vec![sv("system", "@", "/"), sv("home", "@home", "/home/")],
            system_excludes: vec!["/proc/*".into(), "/sys/*".into()],
            home_excludes: vec![".cache".into()],
            home_extra_excludes: vec!["user/Games".into()],
            log_path: "/var/log/backsnap-sync.log".into(),
            log_max_lines: 5000,
            timer_unit: "nvme-sync.timer".into(),
            service_unit: "nvme-sync.service".into(),
            extra_excludes_on_primary: true,
        },
        boot: BootConfig { sync_enabled: true, bootloader_type: BootloaderType::SystemdBoot, excludes: vec![] },
        snapper: SnapperConfig { expected_configs: vec!["root".into(), "home".into()] },
        rollback: RollbackConfig { root_subvol: "@".into(), recovery_label: "Rescue".into(), max_broken_backups: 2 },
    }
}

#[test]
fn sync_goes_to_the_other_disk() {
    let c = config();
    assert_eq!(sync_direction(&c, "P-UUID"), Ok(("B-UUID".to_string(), "Samsung -> XPG".to_string(), true)));
    assert_eq!(sync_direction(&c, "B-UUID"), Ok(("P-UUID".to_string(), "XPG -> Samsung".to_string(), false)));
    assert_eq!(
        sync_direction(&c, "X"),
        Err("Boot-UUID X entspricht weder Primary (P-UUID) noch Backup (B-UUID). Bitte Einstellungen prüfen.".to_string())
    );
    let mut unset = config();
    unset.disks.backup_uuid = String::new();
    assert_eq!(
        sync_direction(&unset, "P-UUID"),
        Err("Disks nicht konfiguriert. Bitte unter Einstellungen Primary und Backup Disk wählen.".to_string())
    );
}

#[test]
fn sync_context_needs_the_backup_device() {
    let c = config();
    let ctx = detect_sync_direction(&c, "P-UUID", true, "/dev/nvme1n1p2\n").expect("found");
    assert_eq!(ctx.backup_dev, "/dev/nvme1n1p2");
    assert_eq!(ctx.mount_base, "/mnt/backsnap");
    assert!(ctx.is_primary_boot);
    assert_eq!(
        detect_sync_direction(&c, "P-UUID", false, "").err().as_deref(),
        Some("Backup-Disk nicht gefunden (UUID: B-UUID). Ist sie eingebaut?")
    );
    assert!(detect_sync_direction(&c, "P-UUID", true, "  \n").is_err());
}

#[test]
fn excludes_and_rsync_arguments() {
    let c = config();
    assert_eq!(subvolume_excludes(&c, "/", true), vec!["/proc/*".to_string(), "/sys/*".to_string()]);
    assert_eq!(subvolume_excludes(&c, "/home/", true), vec![".cache".to_string(), "user/Games".to_string()]);
    assert_eq!(subvolume_excludes(&c, "/home", false), vec![".cache".to_string()]);
    assert!(subvolume_excludes(&c, "/srv", true).is_empty());
    assert_eq!(rsync_source("/home"), "/home/");
    assert_eq!(rsync_source("/"), "/");
    let args = rsync_args("/", "/mnt/x/", &vec!["/proc/*".to_string()], true);
    assert_eq!(
        args,
        vec!["ionice", "-c3", "rsync", "-aAX", "--info=stats1", "--no-inc-recursive", "--numeric-ids", "--delete", "--delete-excluded", "--exclude=/proc/*", "/", "/mnt/x/"]
    );
    let args = rsync_args("/a/", "/b/", &vec![], false);
    assert_eq!(args.len(), 9);
}

#[test]
fn rsync_outcomes() {
    let failed = CommandResult { success: false, stdout: String::new(), stderr: "boom".into(), exit_code: 23 };
    assert_eq!(rsync_error("/", "/mnt/", &failed).as_deref(), Some("rsync / -> /mnt/: exit=23 boom"));
    let vanished = CommandResult { success: false, stdout: String::new(), stderr: String::new(), exit_code: 24 };
    assert_eq!(rsync_error("/", "/mnt/", &vanished), None);
    let killed = CommandResult { success: false, stdout: String::new(), stderr: "sig".into(), exit_code: -1 };
    assert_eq!(rsync_error("a", "b", &killed).as_deref(), Some("rsync a -> b: exit=-1 sig"));
    let out = "sending incremental file list\nNumber of files: 10\nTotal transferred file size: 5 bytes\nsent 100 bytes  received 20 bytes\n";
    assert_eq!(rsync_stats(out), "Total transferred file size: 5 bytes | sent 100 bytes  received 20 bytes");
}

#[test]
fn phases_split_the_progress() {
    let c = config();
    let ctx = detect_sync_direction(&c, "P-UUID", true, "/dev/x").expect("found");
    let phases = plan_sync_phases(&c, &ctx);
    assert_eq!(phases.len(), 2);
    assert_eq!(phases[0].mount_point, "/mnt/backsnap-system");
    assert_eq!(phases[0].rsync_dst, "/mnt/backsnap-system/");
    assert_eq!(phases[0].rsync_src, "/");
    assert_eq!((phases[0].pct_start, phases[0].pct_end), (10, 36));
    assert_eq!((phases[1].pct_start, phases[1].pct_end), (36, 62));
    assert!(phases[1].extra_excludes);
    assert!(!phases[0].extra_excludes);
    assert_eq!(boot_phase_pct(&c), 62);
    assert_eq!(phase_log(1, 3, "/"), "Phase 1/3: Sync / ...");
    let r = sync_result("Samsung -> XPG", 75);
    assert!(r.success);
    assert_eq!(r.stdout, "Sync abgeschlossen: Samsung -> XPG (Dauer: 1m 15s)");
}

#[test]
fn rollback_keeps_the_newest_broken_backups() {
    let ls = "/mnt/@.broken-20240103\n/mnt/@.broken-20240101\n/mnt/@.broken-20240102\n";
    assert_eq!(old_broken_backups(ls, 2), vec!["/mnt/@.broken-20240101".to_string()]);
    assert_eq!(old_broken_backups(ls, 1), vec!["/mnt/@.broken-20240101".to_string(), "/mnt/@.broken-20240102".to_string()]);
    assert!(old_broken_backups(ls, 5).is_empty());
    let p = rollback_paths("/tmp/rb", "@", 42, "20240101-120000");
    assert_eq!(p.snap_path, "/tmp/rb/.snapshots/42/snapshot");
    assert_eq!(p.broken_name, "@.broken-20240101-120000");
    assert_eq!(p.current_at, "/tmp/rb/@");
    assert_eq!(p.broken_path, "/tmp/rb/@.broken-20240101-120000");
    let report = rollback_report(42, "@.broken-x", 7, "Rescue", "P-UUID", "@");
    assert!(report.starts_with("Rollback auf Snapshot #42 erfolgreich!\nBackup: @.broken-x\nGeänderte Dateien: 7\n"));
    assert!(report.contains("2. mount -o subvolid=5 UUID=P-UUID /mnt\n3. mv /mnt/@ /mnt/@.bad\n4. mv /mnt/@.broken-x /mnt/@\n"));
    assert!(report.ends_with("Bitte jetzt neustarten."));
}

#[test]
fn sync_status_from_timer_and_log() {
    let c = config();
    let log = "start\n=== Sync fertig (Dauer: 2m 5s) ===\nnach dem Sync";
    let s = get_sync_status_internal(
        &c,
        "active\n",
        "NextElapseUSecRealtime=Mon 2025-01-06 03:00:00 CET\nLastTriggerUSec=\n",
        log,
        "P-UUID",
        false,
    );
    assert!(s.timer_active);
    assert_eq!(s.timer_next.as_deref(), Some("Mon 2025-01-06 03:00:00 CET"));
    assert_eq!(s.timer_last_trigger, None);
    assert_eq!(s.last_sync.as_deref(), Some("=== Sync fertig (Dauer: 2m 5s) ==="));
    assert_eq!(s.last_duration.as_deref(), Some("2m 5s)"));
    assert_eq!(s.direction, "Samsung -> XPG");
    assert_eq!(s.log_tail.len(), 3);
    assert!(!s.sync_running);
    let many: String = (0..60).map(|i| format!("l{i}\n")).collect();
    let s = get_sync_status_internal(&c, "inactive", "", &many, "B-UUID", true);
    assert!(!s.timer_active && s.sync_running);
    assert_eq!(s.log_tail.len(), 50);
    assert_eq!(s.log_tail[0], "l10");
    assert_eq!(s.last_sync, None);
    assert_eq!(s.direction, "XPG -> Samsung");
    assert_eq!(DiskSide::Primary.other_uuid(&c), "B-UUID");
    assert_eq!(DiskSide::Backup.other_uuid(&c), "P-UUID");
}
