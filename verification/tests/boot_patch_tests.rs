use backsnap::boot_patch::{boot_patch_outcome, cross_entries, patch_entry, stale_backup_entries, stale_cross_entries};

fn strings(v: &[&str]) -> Vec<String> {
    v.iter().map(|s| s.to_string()).collect()
}

#[test]
fn entries_get_sort_key_label_and_backup_uuid() {
    let content = "title Arch Linux (Main)\nlinux /vmlinuz-linux\noptions root=UUID=aaaa rw";
    let p = patch_entry("arch.conf", content, "aaaa", "bbbb", "Backup");
    assert_eq!(
        p.primary_rewrite.as_deref(),
        Some("title Arch Linux (Main)\nsort-key 2-arch\nlinux /vmlinuz-linux\noptions root=UUID=aaaa rw")
    );
    assert_eq!(p.backup_body, "title Arch Linux (Backup)\nsort-key 2-arch\nlinux /vmlinuz-linux\noptions root=UUID=bbbb rw");
    // an entry that already has its sort key is not rewritten
    let keyed = "title Arch LTS\nsort-key 1-arch-lts\noptions root=UUID=aaaa";
    let p = patch_entry("arch-lts.conf", keyed, "aaaa", "bbbb", "Backup");
    assert!(p.primary_rewrite.is_none());
    assert_eq!(p.backup_body, "title Arch LTS (Backup)\nsort-key 1-arch-lts\noptions root=UUID=bbbb");
}

#[test]
fn stale_entries_and_outcome() {
    let backup = strings(&["a.conf", "old.conf", "a-cross-main.conf"]);
    let primary = strings(&["a.conf", "b.conf"]);
    assert_eq!(stale_backup_entries(&backup, &primary), strings(&["old.conf"]));
    assert_eq!(boot_patch_outcome(2, 3, "aaaa", "bbbb"), Ok("Boot-Entry-Sync OK: 2/3 Einträge (UUID: aaaa → bbbb)".to_string()));
    assert_eq!(boot_patch_outcome(0, 3, "aaaa", "bbbb"), Err("FEHLER: 0/3 Boot-Entries gepatcht. UUID aaaa → bbbb".to_string()));
}

#[test]
fn cross_entries_boot_the_other_disk() {
    let content = "title Arch LTS\noptions root=UUID=aaaa";
    let x = cross_entries("arch-lts.conf", content, "aaaa", "bbbb", "Main Disk", "Backup Disk", "maindisk", "backupdisk")
        .expect("entry boots the primary");
    assert_eq!(x.backup_name, "arch-lts-cross-maindisk.conf");
    assert_eq!(x.backup_body, "title Arch LTS (Main Disk)\nsort-key 91-arch-lts\noptions root=UUID=aaaa");
    assert_eq!(x.primary_name, "arch-lts-cross-backupdisk.conf");
    assert_eq!(x.primary_body, "title Arch LTS (Backup Disk)\nsort-key 91-arch-lts\noptions root=UUID=bbbb");
    assert!(cross_entries("a-cross-x.conf", content, "aaaa", "bbbb", "M", "B", "m", "b").is_none());
    assert!(cross_entries("other.conf", "title X\noptions root=UUID=cccc", "aaaa", "bbbb", "M", "B", "m", "b").is_none());
    let files = strings(&["a.conf", "a-cross-m.conf", "b-cross-m.conf"]);
    let written = strings(&["a-cross-m.conf"]);
    assert_eq!(stale_cross_entries(&files, &written), strings(&["b-cross-m.conf"]));
}
