use backsnap::helpers::FileOp;
use backsnap::privileged::{
    check_sys_writes, file_op_blocked, first_blocked_op, sys_write_action, sysfs_path_allowed,
    SysWrite, SysWriteAction,
};

fn w(path: &str, value: &str) -> SysWrite {
    SysWrite { path: path.into(), value: value.into() }
}

#[test]
fn sysfs_paths() {
    assert!(sysfs_path_allowed("/sys/class/drm/card0/device/power_dpm_force_performance_level"));
    assert!(sysfs_path_allowed("/proc/sys/vm/swappiness"));
    assert!(sysfs_path_allowed("/etc/environment"));
    assert!(!sysfs_path_allowed("/etc/environment.d/x"));
    assert!(!sysfs_path_allowed("/etc/passwd"));
    assert_eq!(check_sys_writes(&[]), Err("Keine Writes angegeben".to_string()));
    assert_eq!(
        check_sys_writes(&[w("/sys/a", "1"), w("/etc/shadow", "x"), w("/root/y", "z")]),
        Err("Nicht erlaubter Pfad: /etc/shadow".to_string())
    );
    assert_eq!(check_sys_writes(&[w("/sys/a", "1")]), Ok(()));
}

#[test]
fn sysfs_actions() {
    assert_eq!(sys_write_action(&w("/etc/arclight/x", "__DELETE__")), SysWriteAction::Delete);
    assert_eq!(sys_write_action(&w("/etc/arclight/x", "__MKDIR__")), SysWriteAction::MakeParent);
    assert_eq!(
        sys_write_action(&w("/etc/arclight/x", "1")),
        SysWriteAction::Write { create_arclight_dir: true, create_sysctl_dir: false }
    );
    assert_eq!(
        sys_write_action(&w("/etc/sysctl.d/99.conf", "vm.x=1")),
        SysWriteAction::Write { create_arclight_dir: false, create_sysctl_dir: true }
    );
}

#[test]
fn file_operations() {
    assert!(!file_op_blocked(&FileOp::Write { path: "/etc/systemd/system/a.service".into(), content: String::new() }));
    assert!(file_op_blocked(&FileOp::Write { path: "/etc/passwd".into(), content: String::new() }));
    assert!(!file_op_blocked(&FileOp::Copy { src: "/etc/passwd".into(), dst: "/tmp/arclight-x".into() }));
    assert!(file_op_blocked(&FileOp::Copy { src: "/tmp/a".into(), dst: "/root/b".into() }));
    assert!(!file_op_blocked(&FileOp::Delete { path: String::new() }));
    assert!(!file_op_blocked(&FileOp::Chmod { path: "/usr/local/bin/arclight".into(), mode: 0o755 }));
    let ops = vec![
        FileOp::Mkdir { path: "/etc/polkit-1/rules.d".into() },
        FileOp::Delete { path: "/home/user/.bashrc".into() },
        FileOp::Mkdir { path: "/opt/x".into() },
    ];
    assert_eq!(first_blocked_op(&ops), Some(1));
    assert_eq!(first_blocked_op(&ops[..1]), None);
}

#[test]
fn parent_references_are_refused() {
    let write = |p: &str| FileOp::Write { path: p.into(), content: String::new() };
    assert!(file_op_blocked(&write("/etc/arclight/../shadow")));
    assert!(file_op_blocked(&write("/etc/arclight/..")));
    assert!(file_op_blocked(&FileOp::Copy { src: "/tmp/a".into(), dst: "/tmp/arclight-x/../../etc/passwd".into() }));
    assert!(!file_op_blocked(&write("/etc/arclight/./settings..bak")));
    assert_eq!(first_blocked_op(&[write("/etc/arclight/a"), write("/sys/../etc/shadow")]), Some(1));
    assert!(!sysfs_path_allowed("/sys/../etc/shadow"));
    assert!(!sysfs_path_allowed("/proc/sys/../../etc/passwd"));
    assert!(sysfs_path_allowed("/sys/./class/x"));
    assert_eq!(
        check_sys_writes(&[w("/etc/arclight/../shadow", "x")]),
        Err("Nicht erlaubter Pfad: /etc/arclight/../shadow".to_string())
    );
}
