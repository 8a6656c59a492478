use vstd::prelude::*;

pub mod assistant;
pub mod boot;
pub mod config;
pub mod corsair;
pub mod helpers;
pub mod hid;
pub mod protocol;
pub mod text;
pub mod install;
pub mod intent;
pub mod lighting;
pub mod openrgb;
pub mod rgb_status;
pub mod fastparse;
pub mod voice_state;
pub mod nexus;
pub mod boot_patch;
pub mod fstab;
pub mod efi;
pub mod boot_guard;
pub mod desktop_launcher;
pub mod health;
pub mod cleanup;
pub mod sync;
pub mod sync_run;
pub mod tools;
pub mod snapper;
pub mod timer;
pub mod disks;
pub mod loader;
pub mod privileged;
pub mod pixels;

verus! {

} // verus!
