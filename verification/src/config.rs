//! The parts of the application configuration that the library's logic reads.

use vstd::prelude::*;
use crate::boot::string_eq;

verus! {

/// Which bootloader manages the EFI partitions.
#[derive(Debug, Clone, Copy, PartialEq, Eq, Structural)]
pub enum BootloaderType {
    Grub,
    SystemdBoot,
}

/// The two disks: which is primary and which is the backup.
#[derive(Debug, Clone)]
pub struct DiskConfig {
    pub primary_uuid: String,
    pub backup_uuid: String,
    pub primary_label: String,
    pub backup_label: String,
}

/// One btrfs subvolume that is synchronised.
#[derive(Debug, Clone)]
pub struct SubvolumeConfig {
    pub name: String,
    pub subvol: String,
    pub source: String,
    /// Whether rsync deletes what the source no longer has.
    pub delete: bool,
}

/// Synchronisation settings.
#[derive(Debug, Clone)]
pub struct SyncConfig {
    pub mount_base: String,
    pub mount_options: String,
    pub subvolumes: Vec<SubvolumeConfig>,
    pub system_excludes: Vec<String>,
    pub home_excludes: Vec<String>,
    pub home_extra_excludes: Vec<String>,
    pub log_path: String,
    pub log_max_lines: usize,
    pub timer_unit: String,
    pub service_unit: String,
    pub extra_excludes_on_primary: bool,
}

/// Boot partition settings.
#[derive(Debug, Clone)]
pub struct BootConfig {
    pub sync_enabled: bool,
    pub bootloader_type: BootloaderType,
    pub excludes: Vec<String>,
}

/// Snapper settings.
#[derive(Debug, Clone)]
pub struct SnapperConfig {
    pub expected_configs: Vec<String>,
}

/// Rollback settings.
#[derive(Debug, Clone)]
pub struct RollbackConfig {
    pub root_subvol: String,
    pub recovery_label: String,
    pub max_broken_backups: usize,
}

/// Application configuration.
#[derive(Debug, Clone)]
pub struct AppConfig {
    pub disks: DiskConfig,
    pub sync: SyncConfig,
    pub boot: BootConfig,
    pub snapper: SnapperConfig,
    pub rollback: RollbackConfig,
}

/// Whether auto-detection changed what matters: there was no previous
/// configuration, or the disks, the bootloader or the number of synchronised
/// subvolumes differ.
pub open spec fn changed(old: Option<AppConfig>, new: AppConfig) -> bool {
    match old {
        None => true,
        Some(o) => o.disks.primary_uuid@ != new.disks.primary_uuid@
            || o.disks.backup_uuid@ != new.disks.backup_uuid@
            || o.boot.bootloader_type != new.boot.bootloader_type
            || o.sync.subvolumes@.len() != new.sync.subvolumes@.len(),
    }
}

pub fn config_changed(old: &Option<AppConfig>, new: &AppConfig) -> (r: bool)
    ensures
        r == changed(*old, *new),
{
    match old {
        None => true,
        Some(o) => !string_eq(&o.disks.primary_uuid, &new.disks.primary_uuid)
            || !string_eq(&o.disks.backup_uuid, &new.disks.backup_uuid)
            || o.boot.bootloader_type != new.boot.bootloader_type
            || o.sync.subvolumes.len() != new.sync.subvolumes.len(),
    }
}

} // verus!
