use backsnap::config::{
    config_changed, AppConfig, BootConfig, BootloaderType, DiskConfig, RollbackConfig,
    SnapperConfig, SubvolumeConfig, SyncConfig,
};
use backsnap::disks::{
    df_lookup, is_relevant_fstype, parse_df, parse_usage_line, partition_usage, shortest_mountpoint,
};
use backsnap::snapper::{parse_snapshot_csv, parse_subvolume_list, snapshot_columns};
use backsnap::timer::{
    service_unit_text, timer_config_from, timer_installed_result, timer_uninstalled_result,
    timer_unit_text,
};

fn subvol(name: &str) -> SubvolumeConfig {
    SubvolumeConfig { name: name.into(), subvol: format!("@{name}"), source: "/".into(), delete: true }
}

fn config(primary: &str, backup: &str, boot: BootloaderType, subvols: usize) -> AppConfig {
    AppConfig {
        disks: DiskConfig {
            primary_uuid: primary.into(),
            backup_uuid: backup.into(),
            primary_label: "A".into(),
            backup_label: "B".into(),
        },
        sync: SyncConfig {
            mount_base: "/mnt/backsnap".into(),
            mount_options: "compress=zstd,noatime".into(),
            subvolumes: (0..subvols).map(|i| subvol(&format!("s{i}"))).collect(),
            system_excludes: vec![],
            home_excludes: vec![],
            home_extra_excludes: vec![],
            log_path: "/var/log/backsnap-sync.log".into(),
            log_max_lines: 5000,
            timer_unit: "nvme-sync.timer".into(),
            service_unit: "nvme-sync.service".into(),
            extra_excludes_on_primary: true,
        },
        boot: BootConfig { sync_enabled: true, bootloader_type: boot, excludes: vec![] },
        snapper: SnapperConfig { expected_configs: vec!["root".into()] },
        rollback: RollbackConfig { root_subvol: "@".into(), recovery_label: "Rescue".into(), max_broken_backups: 2 },
    }
}

#[test]
fn snapshot_csv_is_read_by_header() {
    let csv = "config,subvolume,number,default,active,type,pre-number,date,user,cleanup,description\n\
root,/,0,no,no,single,,,root,,current\n\
root,/,12,no,no,pre,,2024-05-01 10:00,root,number, pacman update \n\
root,/,13,no,no,post,12,2024-05-01 10:01,root,number,pacman update\n\
short,row\n";
    let snaps = parse_snapshot_csv(csv);
    assert_eq!(snaps.len(), 2);
    assert_eq!(snaps[0].id, 12);
    assert_eq!(snaps[0].snap_type, "pre");
    assert_eq!(snaps[0].pre_id, None);
    assert_eq!(snaps[0].date, "2024-05-01 10:00");
    assert_eq!(snaps[0].description, "pacman update");
    assert_eq!(snaps[1].id, 13);
    assert_eq!(snaps[1].pre_id, Some(12));
    assert_eq!(snaps[1].cleanup, "number");
}

#[test]
fn snapshot_columns_fall_back_to_positions() {
    let c = snapshot_columns("#,type,pre-number,date,user,cleanup,description");
    assert_eq!(c.number, 0);
    assert_eq!(c.description, 6);
    let c = snapshot_columns("");
    assert_eq!((c.number, c.snap_type, c.pre_number, c.date, c.user, c.cleanup, c.description), (0, 1, 2, 3, 4, 5, 6));
    let c = snapshot_columns(" description , number");
    assert_eq!((c.number, c.description), (1, 0));
    assert!(parse_snapshot_csv("").is_empty());
}

#[test]
fn subvolume_list_skips_two_header_lines() {
    let out = "ID\tgen\ttop level\tpath\n--\t---\t---------\t----\n256\t1000\t5\t@\n257\t999\t5\t@home dir\nbad line\n";
    let subs = parse_subvolume_list(out);
    assert_eq!(subs.len(), 2);
    assert_eq!(subs[0].id, "256");
    assert_eq!(subs[0].path, "@");
    assert_eq!(subs[1].gen, "999");
    assert_eq!(subs[1].top_level, "5");
    assert_eq!(subs[1].path, "@home dir");
    assert!(parse_subvolume_list("only\nheaders\n").is_empty());
}

#[test]
fn timer_state_from_systemctl() {
    let props = "TimersCalendar={ OnCalendar=*-*-* 03:00:00 ; next_elapse=n/a }\nRandomizedDelayUSec=30min\nLastTriggerUSec=\n";
    let t = timer_config_from("active\n", props, "Type=oneshot\nResult=success\n");
    assert!(t.enabled);
    assert_eq!(t.calendar, "}");
    assert_eq!(t.randomized_delay, "30min");
    assert_eq!(t.last_trigger, None);
    assert_eq!(t.service_result.as_deref(), Some("success"));
    let t = timer_config_from("inactive", "LastTriggerUSec=Mon 2024-05-06 03:00:00 CEST", "");
    assert!(!t.enabled);
    assert_eq!(t.calendar, "daily");
    assert_eq!(t.randomized_delay, "1h");
    assert_eq!(t.last_trigger.as_deref(), Some("Mon 2024-05-06 03:00:00 CEST"));
    assert_eq!(t.service_result, None);
}

#[test]
fn unit_files() {
    assert_eq!(
        service_unit_text("/usr/bin/backsnap", "/etc/backsnap.toml"),
        "[Unit]\nDescription=backsnap System Sync\nAfter=local-fs.target\n\n[Service]\nType=oneshot\nExecStart=/usr/bin/backsnap --sync --config /etc/backsnap.toml\nNice=19\nIOSchedulingClass=idle\n\n[Install]\nWantedBy=multi-user.target\n"
    );
    assert_eq!(
        timer_unit_text("daily", "1h"),
        "[Unit]\nDescription=backsnap Sync Timer\n\n[Timer]\nOnCalendar=daily\nRandomizedDelaySec=1h\nPersistent=true\n\n[Install]\nWantedBy=timers.target\n"
    );
    let r = timer_installed_result("nvme-sync.timer", "daily", "1h", "/bin/b", "/c.toml");
    assert!(r.success);
    assert_eq!(r.exit_code, 0);
    assert_eq!(r.stdout, "Timer nvme-sync.timer installiert und aktiviert.\nIntervall: daily, Verzögerung: 1h\nBinary: /bin/b\nConfig: /c.toml");
    assert_eq!(timer_uninstalled_result("nvme-sync.timer").stdout, "Timer nvme-sync.timer deinstalliert");
}

#[test]
fn df_output_is_parsed_and_looked_up() {
    let out = "Filesystem Used Avail Use%\n/dev/nvme0n1p2 100 200 34%\n/dev/nvme0n1p2 1 2 3%\ntmpfs 0 1 0%\nshort line\n";
    let rows = parse_df(out);
    assert_eq!(rows.len(), 3);
    assert_eq!(rows[0].name, "nvme0n1p2");
    assert_eq!(rows[2].name, "tmpfs");
    let hit = df_lookup(&rows, "nvme0n1p2").expect("listed");
    assert_eq!((hit.used.as_str(), hit.avail.as_str(), hit.percent.as_str()), ("1", "2", "3%"));
    assert!(df_lookup(&rows, "sda1").is_none());
    assert_eq!(
        parse_usage_line("Used Avail Use%\n4096 8192 34%\n"),
        Some(("4096".to_string(), "8192".to_string(), "34%".to_string()))
    );
    assert_eq!(parse_usage_line("header only\n"), None);
}

#[test]
fn partition_display() {
    assert!(is_relevant_fstype("btrfs"));
    assert!(is_relevant_fstype("vfat"));
    assert!(!is_relevant_fstype("swap"));
    let mps = vec![None, Some(String::new()), Some("/home".to_string()), Some("/".to_string()), Some("/x".to_string())];
    assert_eq!(shortest_mountpoint(&mps), "/");
    assert_eq!(shortest_mountpoint(&[Some("/ab".into()), Some("/cd".into())]), "/ab");
    assert_eq!(shortest_mountpoint(&[]), "Nicht gemountet");
    assert_eq!(partition_usage(true, None), ("0".to_string(), "0".to_string(), "0%".to_string()));
    assert_eq!(partition_usage(false, None), ("—".to_string(), "—".to_string(), "—".to_string()));
    let found = ("1".to_string(), "2".to_string(), "3%".to_string());
    assert_eq!(partition_usage(false, Some(found.clone())), found);
}

#[test]
fn detection_change_is_noticed() {
    let new = config("p", "b", BootloaderType::SystemdBoot, 2);
    assert!(config_changed(&None, &new));
    assert!(!config_changed(&Some(config("p", "b", BootloaderType::SystemdBoot, 2)), &new));
    assert!(config_changed(&Some(config("p", "x", BootloaderType::SystemdBoot, 2)), &new));
    assert!(config_changed(&Some(config("p", "b", BootloaderType::Grub, 2)), &new));
    assert!(config_changed(&Some(config("p", "b", BootloaderType::SystemdBoot, 3)), &new));
}
