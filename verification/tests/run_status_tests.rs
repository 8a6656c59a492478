use backsnap::boot::BootValidation;
use backsnap::config::{
    AppConfig, BootConfig, BootloaderType, DiskConfig, RollbackConfig, SnapperConfig,
    SubvolumeConfig, SyncConfig,
};
use backsnap::disks::{disk_infos, parse_df, unmounted_partitions, LsblkDevice, LsblkPart};
use backsnap::health::{boot_validation_target, get_health_sync, HealthProbes};
use backsnap::helpers::{invalidate_caches, Caches, CommandResult, TtlCache};
use backsnap::openrgb::ZoneInfo;
use backsnap::rgb_status::{rgb_status, DevicePresence};
use backsnap::sync::{final_relay_result, relay_outcome, rollback_paths, RelayLine, SyncContext};
use backsnap::sync_run::{
    rollback_step, sync_step, Release, RollbackStage, RollbackStep, SyncStage, SyncStep,
};

fn sv(name: &str, subvol: &str, source: &str) -> SubvolumeConfig {
    SubvolumeConfig { name: name.into(), subvol: subvol.into(), source: source.into(), delete: true }
}

fn config(boot_sync: bool) -> AppConfig {
    AppConfig {
        disks: DiskConfig {
            primary_uuid: "P-UUID".into(),
            backup_uuid: "B-UUID".into(),
            primary_label: "Samsung".into(),
            backup_label: "XPG".into(),
        },
        sync: SyncConfig {
            mount_base: "/mnt/backsnap".into(),
            mount_options: "compress=zstd,noatime".into(),
            subvolumes: vec![sv("system", "@", "/"), sv("home", "@home", "/home/")],
            system_excludes: vec!["/proc/*".into()],
            home_excludes: vec![".cache".into()],
            home_extra_excludes: vec![],
            log_path: "/var/log/backsnap-sync.log".into(),
            log_max_lines: 5000,
            timer_unit: "nvme-sync.timer".into(),
            service_unit: "nvme-sync.service".into(),
            extra_excludes_on_primary: false,
        },
        boot: BootConfig { sync_enabled: boot_sync, bootloader_type: BootloaderType::SystemdBoot, excludes: vec![] },
        snapper: SnapperConfig { expected_configs: vec!["root".into()] },
        rollback: RollbackConfig { root_subvol: "@".into(), recovery_label: "Rescue".into(), max_broken_backups: 1 },
    }
}

fn part(name: &str, fstype: &str, uuid: &str, mounts: Vec<Option<&str>>, size: u64) -> LsblkPart {
    LsblkPart {
        name: Some(name.into()),
        fstype: Some(fstype.into()),
        uuid: Some(uuid.into()),
        mountpoints: mounts.into_iter().map(|m| m.map(|s| s.to_string())).collect(),
        size: Some(size),
    }
}

fn devices() -> Vec<LsblkDevice> {
    vec![
        LsblkDevice {
            model: Some("Samsung SSD 980 ".into()),
            children: Some(vec![
                part("nvme0n1p1", "vfat", "AAAA-1111", vec![Some("/boot")], 536870912),
                part("nvme0n1p2", "btrfs", "P-UUID", vec![Some("/home"), Some("/"), None], 1000),
                part("nvme0n1p3", "swap", "SWAP", vec![Some("[SWAP]")], 8),
            ]),
        },
        LsblkDevice {
            model: None,
            children: Some(vec![part("sda1", "ext4", "B-UUID", vec![None], 42)]),
        },
        LsblkDevice { model: Some("Loop".into()), children: None },
    ]
}

#[test]
fn disk_overview_rows() {
    let c = config(true);
    let df = parse_df("Filesystem Used Avail Use%\n/dev/nvme0n1p2 500 400 55%\n");
    let probes = vec![("sda1".to_string(), Some(("10".to_string(), "32".to_string(), "24%".to_string())))];
    let rows = disk_infos(&devices(), &c, &df, &probes);
    assert_eq!(rows.len(), 3);

    assert_eq!(rows[0].name, "/dev/nvme0n1p1");
    assert_eq!(rows[0].model, "Samsung SSD 980");
    assert_eq!(rows[0].role, "Boot Partition");
    assert_eq!(rows[0].mountpoint, "/boot");
    assert_eq!(rows[0].size, "536870912");
    assert_eq!((rows[0].used.as_str(), rows[0].avail.as_str(), rows[0].use_percent.as_str()), ("0", "0", "0%"));

    assert_eq!(rows[1].name, "/dev/nvme0n1p2");
    assert_eq!(rows[1].role, "System Disk");
    assert_eq!(rows[1].mountpoint, "/");
    assert_eq!(rows[1].fstype, "btrfs");
    assert_eq!((rows[1].used.as_str(), rows[1].avail.as_str(), rows[1].use_percent.as_str()), ("500", "400", "55%"));

    assert_eq!(rows[2].name, "/dev/sda1");
    assert_eq!(rows[2].model, "Unbekanntes Laufwerk");
    assert_eq!(rows[2].role, "Backup Disk");
    assert_eq!(rows[2].mountpoint, "Nicht gemountet");
    assert_eq!((rows[2].used.as_str(), rows[2].avail.as_str(), rows[2].use_percent.as_str()), ("10", "32", "24%"));
}

#[test]
fn disk_overview_without_probe_shows_dashes() {
    let c = config(true);
    let rows = disk_infos(&devices(), &c, &[], &[]);
    assert_eq!(rows[2].used, "—");
    assert_eq!(rows[2].use_percent, "—");
}

#[test]
fn unmounted_partitions_are_probed() {
    assert_eq!(unmounted_partitions(&devices()), vec!["sda1".to_string()]);
}

fn result(success: bool, out: &str, code: i64) -> RelayLine {
    RelayLine::Result { success: Some(success), stdout: Some(out.into()), stderr: None, exit_code: Some(code) }
}

#[test]
fn relay_takes_the_last_result_line() {
    let lines = vec![
        RelayLine::Progress { step: Some("init".into()), detail: None, percent: Some(5) },
        result(false, "first", 3),
        RelayLine::Other,
        result(true, "done", 0),
        RelayLine::Bytes { phase: None, bytes: Some(10), pct: None, speed: None },
    ];
    let r = final_relay_result(&lines).expect("result");
    assert!(r.success);
    assert_eq!(r.stdout, "done");
    assert_eq!(r.stderr, "");
    assert_eq!(r.exit_code, 0);
    assert!(final_relay_result(&[RelayLine::Other]).is_none());
    let big = final_relay_result(&[RelayLine::Result { success: None, stdout: None, stderr: None, exit_code: Some(1 << 40) }]).unwrap();
    assert!(!big.success);
    assert_eq!(big.exit_code, -1);
}

#[test]
fn relay_outcome_without_result() {
    let given = CommandResult { success: false, stdout: "x".into(), stderr: "y".into(), exit_code: 7 };
    let r = relay_outcome(Some(given), false, Some(1), "ignored").unwrap();
    assert_eq!((r.success, r.stdout.as_str(), r.exit_code), (false, "x", 7));
    let ok = relay_outcome(None, true, Some(0), "warn").unwrap();
    assert_eq!((ok.success, ok.stdout.as_str(), ok.stderr.as_str(), ok.exit_code), (true, "Abgeschlossen", "warn", 0));
    let err = relay_outcome(None, false, Some(2), "a\nb").unwrap_err();
    assert_eq!(err, "elevated exit=2: a\nb");
    let killed = relay_outcome(None, false, None, "").unwrap_err();
    assert_eq!(killed, "elevated exit=-1: ");
}

fn probes(boot_uuid: &str) -> HealthProbes {
    HealthProbes {
        snapper_installed: true,
        rsync_installed: true,
        btrfs_tools: true,
        primary_found: true,
        backup_found: true,
        boot_uuid: boot_uuid.into(),
        snapper_configs: vec!["root".into()],
        systemctl_present: true,
        timeline_state: "active".into(),
        cleanup_state: "active".into(),
        timer_state: "active".into(),
    }
}

#[test]
fn health_appends_boot_issues() {
    let c = config(true);
    let p = probes("P-UUID");
    assert_eq!(boot_validation_target(&c, &p), Some("B-UUID".to_string()));
    let v = BootValidation {
        backup_efi_accessible: true,
        bootloader_present: true,
        entries_valid: false,
        kernels_present: vec![],
        kernels_missing: vec![],
        entry_issues: vec!["arch.conf: root= fehlt".into()],
    };
    let h = get_health_sync(&c, &p, Some(v));
    assert!(h.backup_present);
    assert_eq!(h.issues.last().map(|s| s.as_str()), Some("Boot: arch.conf: root= fehlt"));
    assert!(h.boot_validation.is_some());
    let none = get_health_sync(&c, &p, None);
    assert!(none.boot_validation.is_none());
    assert!(!none.issues.iter().any(|i| i.starts_with("Boot: ")));
    assert_eq!(boot_validation_target(&config(false), &p), None);
}

#[test]
fn invalidating_drops_the_config() {
    let mut caches = Caches {
        boot_info: TtlCache::new(),
        boot_validation: TtlCache::new(),
        btrfs_usage: TtlCache::new(),
        config: Some(config(true)),
    };
    caches.btrfs_usage.set("usage".to_string(), 5);
    invalidate_caches(&mut caches);
    assert!(caches.config.is_none());
    assert!(caches.btrfs_usage.get(1000, 6).is_none());
}

#[test]
fn rgb_status_lists_present_devices() {
    let none = DevicePresence { it8297: None, k70: None, aerox3: false, qck: false, xpg_s40g: None, xpg_s20g: None };
    let s = rgb_status(&none);
    assert!(!s.connected);
    assert!(s.devices.is_empty());

    let zones = vec![ZoneInfo { idx: 0, name: "D_LED1".into(), header: 0x58, is_digital: true, led_count: 60 }];
    let p = DevicePresence {
        it8297: Some(("X670E".into(), zones)),
        k70: Some(104),
        aerox3: true,
        qck: false,
        xpg_s40g: None,
        xpg_s20g: Some(("/dev/nvme0".into(), Some("41".into()))),
    };
    let s = rgb_status(&p);
    assert!(s.connected);
    let ids: Vec<&str> = s.devices.iter().map(|d| d.id.as_str()).collect();
    assert_eq!(ids, vec!["it8297", "k70", "aerox3", "xpg_s20g"]);
    assert_eq!(s.devices[0].name, "Gigabyte X670E (IT8297)");
    assert_eq!(s.devices[0].device_type, "Motherboard");
    assert_eq!(s.devices[0].zones[0].name, "D_LED1");
    assert_eq!(s.devices[0].zones[0].leds_count, 60);
    assert!(s.devices[0].zones[0].is_digital);
    assert_eq!(s.devices[0].effects.len(), 6);
    assert_eq!(s.devices[1].zones[0].leds_count, 104);
    assert_eq!(s.devices[1].effects, vec!["Static".to_string()]);
    let aerox: Vec<&str> = s.devices[2].zones.iter().map(|z| z.name.as_str()).collect();
    assert_eq!(aerox, vec!["Front", "Mitte", "Hinten"]);
    assert_eq!(s.devices[3].name, "XPG SPECTRIX S20G Pi5 (/dev/nvme0) 41°C");
    assert_eq!(s.devices[3].zones[0].leds_count, 8);
}

fn ctx() -> SyncContext {
    SyncContext {
        backup_uuid: "B-UUID".into(),
        backup_dev: "/dev/nvme1n1p2".into(),
        mount_base: "/mnt/backsnap".into(),
        direction: "Samsung -> XPG".into(),
        is_primary_boot: true,
    }
}

#[test]
fn sync_run_logs_each_phase() {
    let c = config(true);
    let (_, a) = sync_step(&c, &ctx(), "", SyncStage::Start, true, "");
    assert_eq!(a.log, vec!["Phase 1/3: Sync / ...".to_string()]);
    let out = "sent 10 bytes\nnoise\ntotal transferred 3\n";
    let (_, a) = sync_step(&c, &ctx(), "", SyncStage::Copying(0), true, out);
    assert_eq!(
        a.log,
        vec!["system OK. sent 10 bytes | total transferred 3".to_string(), "Phase 2/3: Sync /home/ ...".to_string()]
    );
    let (_, a) = sync_step(&c, &ctx(), "", SyncStage::Copying(1), true, "");
    assert_eq!(a.log, vec!["home OK. ".to_string(), "Phase 3/3: Sync /boot ...".to_string()]);
    let (_, a) = sync_step(&c, &ctx(), "", SyncStage::Mounting(1), false, "mount x -> y: busy");
    assert_eq!(a.log, vec!["FEHLER mount @home: mount x -> y: busy".to_string()]);
    assert_eq!(a.error.as_deref(), Some("mount x -> y: busy"));
    let (_, a) = sync_step(&c, &ctx(), "", SyncStage::Copying(1), false, "rsync failed");
    assert_eq!(a.log, vec!["FEHLER home-Sync: rsync failed".to_string()]);
    let (_, a) = sync_step(&c, &ctx(), "", SyncStage::BootCopying, true, "");
    assert_eq!(a.log, vec!["Boot OK.".to_string()]);
    let mut extra = config(true);
    extra.sync.extra_excludes_on_primary = true;
    let (_, a) = sync_step(&extra, &ctx(), "", SyncStage::Mounting(1), true, "");
    assert_eq!(a.log, vec!["Phase 2/3: /home/ (mit Extra-Excludes)".to_string()]);
    let (_, a) = sync_step(&extra, &ctx(), "", SyncStage::Mounting(0), true, "");
    assert!(a.log.is_empty());
}

#[test]
fn sync_run_mounts_copies_and_releases_in_order() {
    let c = config(true);
    let (st, a) = sync_step(&c, &ctx(), "/dev/nvme1n1p1", SyncStage::Start, true, "");
    assert_eq!((st, a.step, a.release), (SyncStage::Mounting(0), SyncStep::Mount(0), Release::Nothing));
    let (st, a) = sync_step(&c, &ctx(), "", st, true, "");
    assert_eq!((st, a.step), (SyncStage::Copying(0), SyncStep::Copy(0)));
    let (st, a) = sync_step(&c, &ctx(), "", st, true, "");
    assert_eq!((st, a.step, a.release), (SyncStage::Mounting(1), SyncStep::Mount(1), Release::Subvolume(0)));
    let (st, _) = sync_step(&c, &ctx(), "", st, true, "");
    let (st, a) = sync_step(&c, &ctx(), "", st, true, "");
    assert_eq!((st, a.step, a.release), (SyncStage::BootMounting, SyncStep::MountBoot, Release::Subvolume(1)));
    let (st, a) = sync_step(&c, &ctx(), "/dev/nvme1n1p1", st, false, "busy");
    assert_eq!((st, a.step, a.release), (SyncStage::Done, SyncStep::Finish, Release::Boot));
    assert_eq!(a.warning.as_deref(), Some("WARNUNG: Konnte Backup-EFI /dev/nvme1n1p1 nicht mounten: busy"));
    assert!(a.error.is_none());
    let (st, a) = sync_step(&c, &ctx(), "", st, true, "");
    assert_eq!((st, a.step), (SyncStage::Done, SyncStep::Stop));
}

#[test]
fn sync_run_aborts_on_subvolume_failure_only() {
    let c = config(false);
    let (st, a) = sync_step(&c, &ctx(), "", SyncStage::Copying(1), false, "rsync exit 23");
    assert_eq!((st, a.step, a.release), (SyncStage::Failed, SyncStep::Abort, Release::Subvolume(1)));
    assert_eq!(a.error.as_deref(), Some("rsync exit 23"));
    let (st, a) = sync_step(&c, &ctx(), "", SyncStage::Mounting(0), false, "mount failed");
    assert_eq!((st, a.step, a.release), (SyncStage::Failed, SyncStep::Abort, Release::Nothing));
    let (st, a) = sync_step(&c, &ctx(), "", SyncStage::Copying(1), true, "");
    assert_eq!((st, a.step), (SyncStage::Done, SyncStep::Finish));
    let (_, a) = sync_step(&config(true), &ctx(), "", SyncStage::BootCopying, false, "io");
    assert_eq!(a.warning.as_deref(), Some("WARNUNG Boot-Sync: io"));
    assert!(a.error.is_none());
}

#[test]
fn rollback_run_and_its_failures() {
    let p = rollback_paths("/tmp/backsnap-rollback", "@", 42, "20250101-120000");
    let step = |st, ok, d: &str| rollback_step(42, "@", &p, 1, st, ok, d);
    let (st, a) = step(RollbackStage::Start, true, "");
    assert_eq!((st, a.step), (RollbackStage::FindingSnapshot, RollbackStep::CheckSnapshot));
    let (st, a) = step(st, false, "");
    assert_eq!((st, a.step), (RollbackStage::Failed, RollbackStep::Abort));
    assert_eq!(a.error.as_deref(), Some("Snapshot #42 nicht gefunden unter /tmp/backsnap-rollback/.snapshots/42/snapshot"));

    let (st, _) = step(RollbackStage::FindingSnapshot, true, "");
    let (_, a) = step(st, false, "");
    assert_eq!(a.error.as_deref(), Some("Kein aktives @ Subvolume gefunden"));
    let (st, a) = step(st, true, "");
    assert_eq!((st, a.step), (RollbackStage::Listing, RollbackStep::ListBroken));
    let (st, a) = step(st, true, "/x/@.broken-3\n/x/@.broken-1\n/x/@.broken-2\n");
    assert_eq!((st, a.step), (RollbackStage::Deleting, RollbackStep::DeleteOld));
    assert_eq!(a.delete, vec!["/x/@.broken-1".to_string(), "/x/@.broken-2".to_string()]);
    let (st, a) = step(st, true, "");
    assert_eq!((st, a.step), (RollbackStage::Moving, RollbackStep::MoveCurrent));
    let (_, a) = step(st, false, "busy");
    assert_eq!(a.error.as_deref(), Some("Konnte @ nicht verschieben: busy"));
    assert!(!a.undo_move);
    let (st, a) = step(st, true, "");
    assert_eq!((st, a.step), (RollbackStage::Snapshotting, RollbackStep::TakeSnapshot));
    let (_, a) = step(st, false, "no space");
    assert_eq!(a.step, RollbackStep::Abort);
    assert!(a.undo_move);
    assert_eq!(a.error.as_deref(), Some("Konnte Snapshot nicht erstellen: no space"));
    let (st, a) = step(st, true, "");
    assert_eq!((st, a.step), (RollbackStage::MakingDir, RollbackStep::MakeSnapshotsDir));
    let (st, a) = step(st, true, "");
    assert_eq!((st, a.step), (RollbackStage::Done, RollbackStep::Finish));
    let (_, a) = step(RollbackStage::Listing, false, "");
    assert_eq!(a.step, RollbackStep::MoveCurrent);
}
