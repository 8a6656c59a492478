use backsnap::boot_guard::{
    backup_timestamp, boot_device_in_mounts, boot_health_status, boot_health_summary,
    check_entry_health, compute_diff, device_with_label, kernel_from_proc_version,
    parse_entry_field, EntryHealth, HealthStatus,
};

fn healthy(name: &str) -> EntryHealth {
    EntryHealth {
        filename: name.into(),
        title: "t".into(),
        kernel_exists: true,
        initramfs_exists: true,
        custom_params_intact: true,
        missing_params: vec![],
        options: String::new(),
        changed_since_backup: false,
        diff: vec![],
    }
}

#[test]
fn entry_fields_and_diffs() {
    let content = "title Arch\nlinux /vmlinuz-linux\noptions root=UUID=1 rw quiet\n";
    assert_eq!(parse_entry_field(content, "options "), "root=UUID=1 rw quiet");
    assert_eq!(parse_entry_field(content, "initrd "), "");
    assert_eq!(compute_diff("a\nb\nc", "a\nc\nd"), vec!["- b".to_string(), "+ d".to_string()]);
    assert!(compute_diff("same\n", "same").is_empty());
}

#[test]
fn entry_health_finds_missing_params() {
    let backup = "title Arch\nlinux /vmlinuz-linux\noptions root=UUID=1 rw quiet amdgpu.ppfeaturemask=0xffffffff mitigations=off\n";
    let current = "title Arch\nlinux /vmlinuz-linux\noptions root=UUID=1 rw quiet\n";
    let (e, issues) = check_entry_health("arch.conf", current, Some(backup), true, false);
    assert_eq!(e.filename, "arch.conf");
    assert_eq!(e.title, "Arch");
    assert!(!e.custom_params_intact);
    assert_eq!(e.missing_params, vec!["mitigations=off".to_string(), "amdgpu.ppfeaturemask=0xffffffff".to_string()]);
    assert!(e.changed_since_backup);
    assert_eq!(
        e.diff,
        vec![
            "- options root=UUID=1 rw quiet amdgpu.ppfeaturemask=0xffffffff mitigations=off".to_string(),
            "+ options root=UUID=1 rw quiet".to_string(),
        ]
    );
    assert_eq!(
        issues,
        vec![
            "arch.conf: Initramfs  fehlt auf /boot".to_string(),
            "arch.conf: Fehlende Kernel-Parameter: mitigations=off, amdgpu.ppfeaturemask=0xffffffff".to_string(),
        ]
    );
    let (e, issues) = check_entry_health("arch.conf", current, None, true, true);
    assert!(e.custom_params_intact);
    assert!(!e.changed_since_backup);
    assert!(e.diff.is_empty());
    assert!(issues.is_empty());
}

#[test]
fn overall_status() {
    let mut warn = healthy("b.conf");
    warn.changed_since_backup = true;
    let mut bad = healthy("c.conf");
    bad.kernel_exists = false;
    assert_eq!(boot_health_status(true, true, &vec![healthy("a.conf")]), HealthStatus::Healthy);
    assert_eq!(boot_health_status(true, true, &vec![healthy("a.conf"), warn.clone()]), HealthStatus::Warning);
    assert_eq!(boot_health_status(true, true, &vec![warn, bad]), HealthStatus::Critical);
    assert_eq!(boot_health_status(false, true, &vec![]), HealthStatus::Critical);
}

#[test]
fn kernel_and_mount_facts() {
    let (ok, issues) = boot_health_summary(true, "6.9.1-arch1-1", &vec!["6.9.1-arch1-1".to_string()]);
    assert!(ok);
    assert!(issues.is_empty());
    let (ok, issues) = boot_health_summary(false, "6.9.2", &vec!["6.8.0".to_string(), "6.9.1".to_string()]);
    assert!(!ok);
    assert_eq!(
        issues,
        vec![
            "/boot ist nicht gemountet! Kernel-Updates landen nicht auf der EFI-Partition.".to_string(),
            "Kernel/Module-Mismatch: Laufender Kernel 6.9.2 hat keine passenden Module in /usr/lib/modules/. Vorhandene Module: 6.8.0, 6.9.1".to_string(),
        ]
    );
    let mounts = "proc /proc proc rw 0 0\n/dev/nvme0n1p1 /boot vfat rw 0 0\n";
    assert_eq!(boot_device_in_mounts(mounts).as_deref(), Some("/dev/nvme0n1p1"));
    assert_eq!(boot_device_in_mounts("proc /proc proc rw 0 0\n"), None);
    assert_eq!(device_with_label("/dev/nvme0n1p1", Some("EFI\n")), "/dev/nvme0n1p1 (EFI)");
    assert_eq!(device_with_label("/dev/nvme0n1p1", Some("  ")), "/dev/nvme0n1p1");
    assert_eq!(kernel_from_proc_version(Some("Linux version 6.9.1-arch1-1 (gcc)")), "6.9.1-arch1-1");
    assert_eq!(kernel_from_proc_version(None), "unknown");
    assert_eq!(backup_timestamp("backup-1717000000"), Some(1717000000));
    assert_eq!(backup_timestamp("backup-x"), None);
    assert_eq!(backup_timestamp("other-1"), None);
}
