//! Health check: which tools, disks, snapper configs and timers are in
//! order, from probes of the system that the caller takes.

use vstd::prelude::*;
use vstd::string::*;
use crate::boot::{string_eq, BootValidation};
use crate::config::AppConfig;
use crate::helpers::{disk_label, disk_label_text, string_views, HealthCheck};
use crate::text::{chars_of, eq_str, push_str, string_of, trim, trim_chars};

verus! {

/// What the health check learns from the system.
pub struct HealthProbes {
    pub snapper_installed: bool,
    pub rsync_installed: bool,
    pub btrfs_tools: bool,
    /// A device with the primary disk's UUID exists.
    pub primary_found: bool,
    /// A device with the backup disk's UUID exists.
    pub backup_found: bool,
    /// UUID of the root filesystem that was booted.
    pub boot_uuid: String,
    /// Configs listed by snapper.
    pub snapper_configs: Vec<String>,
    pub systemctl_present: bool,
    /// `systemctl is-active` output for snapper's timeline timer.
    pub timeline_state: String,
    /// `systemctl is-active` output for snapper's cleanup timer.
    pub cleanup_state: String,
    /// `systemctl is-active` output for the sync timer.
    pub timer_state: String,
}

pub open spec fn one_if(cond: bool, msg: Seq<char>) -> Seq<Seq<char>> {
    if cond {
        seq![msg]
    } else {
        seq![]
    }
}

/// "Snapper-Config '…' fehlt" for each expected config snapper lacks.
pub open spec fn missing_configs(expected: Seq<Seq<char>>, present: Seq<Seq<char>>) -> Seq<Seq<char>>
    decreases expected.len(),
{
    if expected.len() == 0 {
        seq![]
    } else {
        missing_configs(expected.drop_last(), present) + one_if(
            !present.contains(expected.last()),
            "Snapper-Config '"@ + expected.last() + "' fehlt"@,
        )
    }
}

/// Issues about a disk: unconfigured, or not detected.
pub open spec fn disk_issue(uuid: Seq<char>, found: bool, unconfigured: Seq<char>, label: Seq<char>) -> Seq<Seq<char>> {
    if uuid.len() == 0 {
        seq![unconfigured]
    } else {
        one_if(!found, label + " nicht erkannt"@)
    }
}

/// Missing tools.
pub open spec fn tool_issues(p: HealthProbes) -> Seq<Seq<char>> {
    one_if(!p.snapper_installed, "snapper nicht installiert"@)
        + one_if(!p.rsync_installed, "rsync nicht installiert"@)
        + one_if(!p.btrfs_tools, "btrfs-progs nicht installiert"@)
}

/// Unconfigured or undetected disks, and booting from the backup.
pub open spec fn disk_issues(c: AppConfig, p: HealthProbes) -> Seq<Seq<char>> {
    disk_issue(c.disks.primary_uuid@, p.primary_found, "Primary Disk nicht konfiguriert"@, c.disks.primary_label@)
        + disk_issue(c.disks.backup_uuid@, p.backup_found, "Backup Disk nicht konfiguriert"@, c.disks.backup_label@)
        + one_if(
            c.disks.backup_uuid@.len() > 0 && p.boot_uuid@ == c.disks.backup_uuid@,
            "ACHTUNG: Gebootet von Backup-Disk!"@,
        )
}

/// Missing snapper configs and inactive snapper timers (with snapper installed).
pub open spec fn snapper_issues(c: AppConfig, p: HealthProbes) -> Seq<Seq<char>> {
    if p.snapper_installed {
        missing_configs(string_views(c.snapper.expected_configs@), string_views(p.snapper_configs@)) + (if p.systemctl_present {
            one_if(
                trim(p.timeline_state@) != "active"@,
                "snapper-timeline.timer nicht aktiv — keine automatischen Timeline-Snapshots"@,
            ) + one_if(
                trim(p.cleanup_state@) != "active"@,
                "snapper-cleanup.timer nicht aktiv — alte Timeline-Snapshots werden nicht automatisch gelöscht"@,
            )
        } else {
            seq![]
        })
    } else {
        seq![]
    }
}

/// The issues found, before the boot validation.
pub open spec fn health_issues_of(c: AppConfig, p: HealthProbes) -> Seq<Seq<char>> {
    tool_issues(p) + disk_issues(c, p) + snapper_issues(c, p) + one_if(
        trim(p.timer_state@) != "active"@,
        c.sync.timer_unit@ + " nicht aktiv"@,
    )
}

fn push_if(issues: &mut Vec<String>, cond: bool, msg: &str)
    ensures
        string_views(final(issues)@) == string_views(old(issues)@) + one_if(cond, msg@),
{
    if cond {
        let ghost before = issues@;
        issues.push(String::from_str(msg));
        assert(string_views(issues@) =~= string_views(before).push(msg@));
    } else {
        assert(string_views(issues@) =~= string_views(issues@) + Seq::<Seq<char>>::empty());
    }
}

fn push_owned_if(issues: &mut Vec<String>, cond: bool, msg: String)
    ensures
        string_views(final(issues)@) == string_views(old(issues)@) + one_if(cond, msg@),
{
    if cond {
        let ghost before = issues@;
        let ghost m = msg@;
        issues.push(msg);
        assert(string_views(issues@) =~= string_views(before).push(m));
    } else {
        assert(string_views(issues@) =~= string_views(issues@) + Seq::<Seq<char>>::empty());
    }
}

fn contains_string(v: &Vec<String>, s: &String) -> (r: bool)
    ensures
        r == string_views(v@).contains(s@),
{
    let mut i: usize = 0;
    while i < v.len()
        invariant
            i <= v@.len(),
            forall|j: int| 0 <= j < i ==> string_views(v@)[j] != s@,
        decreases v.len() - i,
    {
        if string_eq(&v[i], s) {
            assert(string_views(v@)[i as int] == s@);
            return true;
        }
        i = i + 1;
    }
    false
}

fn push_disk_issue(issues: &mut Vec<String>, uuid: &String, found: bool, unconfigured: &str, label: &String)
    ensures
        string_views(final(issues)@) == string_views(old(issues)@) + disk_issue(uuid@, found, unconfigured@, label@),
{
    if uuid.as_str().unicode_len() == 0 {
        push_if(issues, true, unconfigured);
    } else {
        let mut v: Vec<char> = Vec::new();
        push_str(&mut v, label.as_str());
        push_str(&mut v, " nicht erkannt");
        push_owned_if(issues, !found, string_of(&v));
    }
}

/// Whether a systemctl state is `active` (after trimming).
fn is_active(state: &String) -> (r: bool)
    ensures
        r == (trim(state@) == "active"@),
{
    eq_str(&trim_chars(&chars_of(state.as_str())), "active")
}

fn push_tool_issues(issues: &mut Vec<String>, p: &HealthProbes)
    ensures
        string_views(final(issues)@) == string_views(old(issues)@) + tool_issues(*p),
{
    let ghost a = string_views(issues@);
    push_if(issues, !p.snapper_installed, "snapper nicht installiert");
    push_if(issues, !p.rsync_installed, "rsync nicht installiert");
    push_if(issues, !p.btrfs_tools, "btrfs-progs nicht installiert");
    assert(string_views(issues@) =~= a + tool_issues(*p));
}

fn push_disk_issues(issues: &mut Vec<String>, c: &AppConfig, p: &HealthProbes)
    ensures
        string_views(final(issues)@) == string_views(old(issues)@) + disk_issues(*c, *p),
{
    let ghost a = string_views(issues@);
    push_disk_issue(issues, &c.disks.primary_uuid, p.primary_found, "Primary Disk nicht konfiguriert", &c.disks.primary_label);
    push_disk_issue(issues, &c.disks.backup_uuid, p.backup_found, "Backup Disk nicht konfiguriert", &c.disks.backup_label);
    let from_backup = c.disks.backup_uuid.as_str().unicode_len() > 0 && string_eq(&p.boot_uuid, &c.disks.backup_uuid);
    push_if(issues, from_backup, "ACHTUNG: Gebootet von Backup-Disk!");
    assert(string_views(issues@) =~= a + disk_issues(*c, *p));
}

fn push_snapper_issues(issues: &mut Vec<String>, c: &AppConfig, p: &HealthProbes)
    ensures
        string_views(final(issues)@) == string_views(old(issues)@) + snapper_issues(*c, *p),
{
    let ghost before_snapper = string_views(issues@);
    if p.snapper_installed {
        let expected = &c.snapper.expected_configs;
        let mut k: usize = 0;
        assert(before_snapper + missing_configs(string_views(expected@).take(0), string_views(p.snapper_configs@)) =~= before_snapper);
        while k < expected.len()
            invariant
                k <= expected@.len(),
                string_views(issues@) == before_snapper + missing_configs(string_views(expected@).take(k as int), string_views(p.snapper_configs@)),
            decreases expected.len() - k,
        {
            assert(string_views(expected@).take(k + 1).drop_last() =~= string_views(expected@).take(k as int));
            assert(string_views(expected@).take(k + 1).last() == expected@[k as int]@);
            let mut v: Vec<char> = Vec::new();
            push_str(&mut v, "Snapper-Config '");
            push_str(&mut v, expected[k].as_str());
            push_str(&mut v, "' fehlt");
            let missing = !contains_string(&p.snapper_configs, &expected[k]);
            push_owned_if(issues, missing, string_of(&v));
            assert(string_views(issues@) =~= before_snapper + missing_configs(string_views(expected@).take(k + 1), string_views(p.snapper_configs@)));
            k = k + 1;
        }
        assert(string_views(expected@).take(expected@.len() as int) =~= string_views(expected@));
        let ghost mid = string_views(issues@);
        if p.systemctl_present {
            push_if(issues, !is_active(&p.timeline_state), "snapper-timeline.timer nicht aktiv — keine automatischen Timeline-Snapshots");
            push_if(issues, !is_active(&p.cleanup_state), "snapper-cleanup.timer nicht aktiv — alte Timeline-Snapshots werden nicht automatisch gelöscht");
        }
        assert(string_views(issues@) =~= before_snapper + snapper_issues(*c, *p));
    } else {
        assert(string_views(issues@) =~= before_snapper + snapper_issues(*c, *p));
    }
}

/// The issues of the health check, before the boot validation.
pub fn health_issues(c: &AppConfig, p: &HealthProbes) -> (r: Vec<String>)
    ensures
        string_views(r@) == health_issues_of(*c, *p),
{
    let mut issues: Vec<String> = Vec::new();
    assert(string_views(issues@) =~= Seq::<Seq<char>>::empty());
    push_tool_issues(&mut issues, p);
    push_disk_issues(&mut issues, c, p);
    push_snapper_issues(&mut issues, c, p);
    let mut v: Vec<char> = Vec::new();
    push_str(&mut v, c.sync.timer_unit.as_str());
    push_str(&mut v, " nicht aktiv");
    push_owned_if(&mut issues, !is_active(&p.timer_state), string_of(&v));
    assert(string_views(issues@) =~= health_issues_of(*c, *p));
    issues
}

/// The disk whose boot setup is validated: the one not booted from, when the
/// backup is present and boot sync is enabled.
pub open spec fn validation_target_of(c: AppConfig, p: HealthProbes) -> Option<Seq<char>> {
    if c.disks.backup_uuid@.len() > 0 && p.backup_found && c.boot.sync_enabled {
        Some(if p.boot_uuid@ == c.disks.primary_uuid@ { c.disks.backup_uuid@ } else { c.disks.primary_uuid@ })
    } else {
        None
    }
}

pub fn boot_validation_target(c: &AppConfig, p: &HealthProbes) -> (r: Option<String>)
    ensures
        match r {
            Some(u) => validation_target_of(*c, *p) == Some(u@),
            None => validation_target_of(*c, *p) is None,
        },
{
    if c.disks.backup_uuid.as_str().unicode_len() > 0 && p.backup_found && c.boot.sync_enabled {
        if string_eq(&p.boot_uuid, &c.disks.primary_uuid) {
            Some(c.disks.backup_uuid.clone())
        } else {
            Some(c.disks.primary_uuid.clone())
        }
    } else {
        None
    }
}

/// "Boot: …" for each issue of the boot validation.
pub open spec fn boot_issues(es: Seq<Seq<char>>) -> Seq<Seq<char>>
    decreases es.len(),
{
    if es.len() == 0 {
        seq![]
    } else {
        boot_issues(es.drop_last()).push("Boot: "@ + es.last())
    }
}

/// The health check from the probes and the boot validation of the other
/// disk (taken only when `boot_validation_target` named one).
pub fn get_health_sync(c: &AppConfig, p: &HealthProbes, validation: Option<BootValidation>) -> (r: HealthCheck)
    requires
        validation is Some ==> validation_target_of(*c, *p) is Some,
    ensures
        r.boot_validation is Some ==> r.backup_present && c.boot.sync_enabled,
        r.primary_present == (c.disks.primary_uuid@.len() > 0 && p.primary_found),
        r.backup_present == (c.disks.backup_uuid@.len() > 0 && p.backup_found),
        r.snapper_installed == p.snapper_installed,
        r.rsync_installed == p.rsync_installed,
        r.btrfs_tools == p.btrfs_tools,
        r.boot_disk@ == disk_label_text(p.boot_uuid@, *c),
        string_views(r.issues@) == health_issues_of(*c, *p) + match validation {
            Some(v) => boot_issues(string_views(v.entry_issues@)),
            None => Seq::<Seq<char>>::empty(),
        },
        r.boot_validation == validation,
{
    let mut issues = health_issues(c, p);
    let ghost base = string_views(issues@);
    match &validation {
        Some(v) => {
            let mut k: usize = 0;
            while k < v.entry_issues.len()
                invariant
                    k <= v.entry_issues@.len(),
                    string_views(issues@) == base + boot_issues(string_views(v.entry_issues@).take(k as int)),
                decreases v.entry_issues.len() - k,
            {
                assert(string_views(v.entry_issues@).take(k + 1).drop_last() =~= string_views(v.entry_issues@).take(k as int));
                let mut m: Vec<char> = Vec::new();
                push_str(&mut m, "Boot: ");
                push_str(&mut m, v.entry_issues[k].as_str());
                let ghost before = issues@;
                issues.push(string_of(&m));
                assert(string_views(issues@) =~= string_views(before).push("Boot: "@ + v.entry_issues@[k as int]@));
                assert(string_views(issues@) =~= base + boot_issues(string_views(v.entry_issues@).take(k + 1)));
                k = k + 1;
            }
            assert(string_views(v.entry_issues@).take(v.entry_issues@.len() as int) =~= string_views(v.entry_issues@));
        },
        None => {
            assert(base + Seq::<Seq<char>>::empty() =~= base);
        },
    }
    HealthCheck {
        primary_present: c.disks.primary_uuid.as_str().unicode_len() > 0 && p.primary_found,
        backup_present: c.disks.backup_uuid.as_str().unicode_len() > 0 && p.backup_found,
        snapper_installed: p.snapper_installed,
        rsync_installed: p.rsync_installed,
        btrfs_tools: p.btrfs_tools,
        boot_disk: disk_label(p.boot_uuid.as_str(), c),
        issues,
        boot_validation: validation,
    }
}

} // verus!
