use backsnap::boot::{bl_version_in, normalize_backup_titles, parse_boot_entry, parse_grub_entries, BootEntryInfo, DiskSide};
use backsnap::boot_patch::{
    boot_patch_needed, cross_tag, entry_sort_key, relabel_entry, sanitize_label, try_sanitize_label,
    upsert_sort_key,
};
use backsnap::efi::{derive_efi_partition, efi_arch_name, efi_arch_suffix, esp_in_lsblk};
use backsnap::fstab::{patch_fstab_text, three_way_swap};

#[test]
fn boot_entry_fields() {
    let e = parse_boot_entry("title Arch Linux\nlinux /vmlinuz-linux\ninitrd /initramfs-linux.img\noptions root=UUID=abcd rw quiet\nsort-key 2-arch\n");
    assert_eq!(e.title, "Arch Linux");
    assert_eq!(e.root_uuid, "abcd");
    assert_eq!(e.kernel, "vmlinuz-linux");
    assert_eq!(e.sort_key, "2-arch");
    let e = parse_boot_entry("options root=/dev/disk/by-uuid/ffff rw");
    assert_eq!(e.root_uuid, "ffff");
    assert_eq!(e.title, "");
}

#[test]
fn grub_menu_entries() {
    let cfg = "set default=0\nmenuentry 'Arch Linux' --class arch {\n\tlinux /vmlinuz-linux root=UUID=1234 rw\n\tinitrd /initramfs-linux.img\n}\nmenuentry \"Advanced\" {\n}\nmenuentry --id x {\n}\n";
    let es = parse_grub_entries(cfg, DiskSide::Backup);
    assert_eq!(es.len(), 3);
    assert_eq!(es[0].title, "Arch Linux");
    assert_eq!(es[0].id, "arch-linux");
    assert_eq!(es[0].root_uuid, "1234");
    assert_eq!(es[0].kernel, "vmlinuz-linux");
    assert_eq!(es[0].disk, DiskSide::Backup);
    assert_eq!(es[1].id, "advanced");
    assert_eq!(es[2].title, "");
    assert_eq!(es[2].id, "grub-entry-2");
}

#[test]
fn bootloader_version_from_strings() {
    let out = "garbage\n#### LoaderInfo: systemd-boot 254.5-1 ####\n";
    assert_eq!(bl_version_in(out, "systemd-boot "), Some("systemd-boot 254.5".to_string()));
    assert_eq!(bl_version_in("systemd-boot x\n", "systemd-boot "), None);
}

#[test]
fn backup_titles_carry_the_label() {
    let entry = |title: &str, disk| BootEntryInfo {
        title: title.into(),
        id: "x".into(),
        root_uuid: String::new(),
        kernel: String::new(),
        disk,
    };
    let mut es = vec![
        entry("Arch Linux (Old)", DiskSide::Backup),
        entry("Arch Linux", DiskSide::Backup),
        entry("Arch Linux", DiskSide::Primary),
    ];
    normalize_backup_titles(&mut es, "XPG");
    assert_eq!(es[0].title, "Arch Linux (XPG)");
    assert_eq!(es[1].title, "Arch Linux (XPG)");
    assert_eq!(es[2].title, "Arch Linux");
}

#[test]
fn labels_and_sort_keys() {
    assert_eq!(sanitize_label("XPG SPECTRIX S40G!", 20), "XPG SPECTRIX S40G");
    assert_eq!(sanitize_label("Samsung SSD 970 EVO Plus 1TB", 20), "Samsung SSD 970 EVO");
    assert_eq!(try_sanitize_label("ab", 1).as_deref(), Some("a"));
    assert_eq!(try_sanitize_label("äb", 1), None);
    assert_eq!(cross_tag("Samsung 970 EVO").as_deref(), Some("samsung970evo"));
    assert_eq!(entry_sort_key("arch-lts", false), "1-arch-lts");
    assert_eq!(entry_sort_key("arch", true), "92-arch");
    assert_eq!(entry_sort_key("arch-rescue", false), "8-arch-rescue");
    assert_eq!(relabel_entry("title Arch (Samsung)\nlinux /vmlinuz", "XPG"), "title Arch (XPG)\nlinux /vmlinuz");
    assert_eq!(relabel_entry("title Arch\n", "XPG"), "title Arch (XPG)");
    assert_eq!(upsert_sort_key("title Arch\nlinux /v", "2-arch"), "title Arch\nsort-key 2-arch\nlinux /v");
    assert_eq!(upsert_sort_key("title Arch\nsort-key old\n", "9x"), "title Arch\nsort-key 9x");
    assert_eq!(upsert_sort_key("linux /v", "2-a"), "sort-key 2-a\nlinux /v");
    assert!(boot_patch_needed("a", "b"));
    assert!(!boot_patch_needed("a", "a"));
    assert!(!boot_patch_needed("", "b"));
}

#[test]
fn uuids_are_swapped() {
    assert_eq!(three_way_swap("aa11 then bb22 then aa11", "aa11", "bb22"), "bb22 then aa11 then bb22");
    assert_eq!(three_way_swap("same", "", "x"), "same");
    let fstab = "UUID=aaaa-1111 / btrfs subvol=/@,compress=zstd 0 0\nUUID=aaaa-1111 /data btrfs subvol=/@data 0 0\nUUID=1A2B-3C4D /boot vfat defaults 0 2";
    let (patched, n) = patch_fstab_text(fstab, "aaaa-1111", "bbbb-2222", "1A2B-3C4D", "5E6F-7A8B", &vec!["@data".to_string()]);
    assert_eq!(n, 1);
    assert_eq!(
        patched,
        "UUID=bbbb-2222 / btrfs subvol=/@,compress=zstd 0 0\nUUID=aaaa-1111 /data btrfs subvol=/@data,nofail 0 0\nUUID=5E6F-7A8B /boot vfat defaults 0 2"
    );
    let (same, n) = patch_fstab_text("UUID=X / btrfs 0 0\n", "P", "B", "E", "F", &vec![]);
    assert_eq!(n, 0);
    assert_eq!(same, "UUID=X / btrfs 0 0\n");
}

#[test]
fn efi_partition_is_derived() {
    assert_eq!(derive_efi_partition("/dev/nvme0n1p2", "", ""), "/dev/nvme0n1p1");
    assert_eq!(derive_efi_partition("/dev/sda2", "", ""), "/dev/sda1");
    let lsblk = "nvme1n1 \nnvme1n1p1 0fc63daf-8483-4772-8e79-3d69d8477de4\nnvme1n1p3 C12A7328-F81F-11D2-BA4B-00A0C93EC93B\n";
    assert_eq!(derive_efi_partition("/dev/nvme1n1p2", "nvme1n1", lsblk), "/dev/nvme1n1p3");
    assert_eq!(derive_efi_partition("/dev/nvme1n1p2", "", lsblk), "/dev/nvme1n1p1");
    assert_eq!(esp_in_lsblk("sda1 ebd0a0a2-b9e5-4433-87c0-68b6b72699c7\n"), None);
    assert_eq!(efi_arch_suffix("aarch64"), "aa64");
    assert_eq!(efi_arch_suffix("i686"), "ia32");
    assert_eq!(efi_arch_suffix("x86_64"), "x64");
    assert_eq!(efi_arch_name(Some("aarch64\n")), "arm64");
    assert_eq!(efi_arch_name(Some("i686")), "i386");
    assert_eq!(efi_arch_name(None), "x86_64");
}

#[test]
fn unrelated_and_commented_lines_stay() {
    assert_eq!(three_way_swap("proc /proc proc defaults 0 0", "aaaa-1111", "bbbb-2222"), "proc /proc proc defaults 0 0");
    let fstab = "# UUID=bbbb-2222 /data btrfs subvol=/@data 0 0\nUUID=aaaa-1111 /data btrfs subvol=/@data,nofail 0 0";
    let (patched, n) = patch_fstab_text(fstab, "aaaa-1111", "bbbb-2222", "E1", "E2", &vec!["@data".to_string()]);
    assert_eq!(n, 1);
    assert_eq!(
        patched,
        "# UUID=aaaa-1111 /data btrfs subvol=/@data 0 0\nUUID=aaaa-1111 /data btrfs subvol=/@data,nofail 0 0"
    );
}
