//! Boot guard: health of the systemd-boot entries against their last backup
//! (kernel and initramfs present, tracked kernel parameters kept, changes),
//! and the overall boot health.

use vstd::prelude::*;
use vstd::string::*;
use crate::helpers::string_views;
use crate::text::{
    chars_of, dec, first_starting, first_starting_exec, join, join_chars, lines, parse_uint,
    parse_uint_chars, push_all, push_dec, push_str, slice_chars, split_lines, split_ws, starts_with,
    starts_with_str, string_of, strip_prefix, strip_prefix_str, trim, trim_chars, vviews, words,
};

verus! {

/// Overall boot health.
#[derive(Debug, Clone, Copy, PartialEq, Eq, Structural)]
pub enum HealthStatus {
    Critical,
    Warning,
    Healthy,
}

/// Health of the boot configuration.
#[derive(Debug, Clone)]
pub struct BootHealth {
    pub boot_mounted: bool,
    pub boot_device: Option<String>,
    pub running_kernel: String,
    pub installed_modules: Vec<String>,
    pub kernel_module_match: bool,
    pub entries: Vec<EntryHealth>,
    pub status: HealthStatus,
    pub issues: Vec<String>,
    pub backups: Vec<BackupInfo>,
}

/// Health of one boot entry file.
#[derive(Debug, Clone)]
pub struct EntryHealth {
    pub filename: String,
    pub title: String,
    pub kernel_exists: bool,
    pub initramfs_exists: bool,
    pub custom_params_intact: bool,
    pub missing_params: Vec<String>,
    pub options: String,
    pub changed_since_backup: bool,
    pub diff: Vec<String>,
}

/// A backup of the boot entries.
#[derive(Debug, Clone)]
pub struct BackupInfo {
    pub timestamp: u64,
    pub label: String,
    pub entry_count: usize,
}

/// The outcome of restoring a backup.
#[derive(Debug, Clone)]
pub struct RestoreResult {
    pub success: bool,
    pub restored: Vec<String>,
    pub errors: Vec<String>,
}

/// Kernel parameters that must stay once a backup had them.
pub open spec fn tracked_params() -> Seq<Seq<char>> {
    seq![
        "mitigations="@, "amdgpu."@, "i915."@, "nvidia."@, "pcie_aspm="@, "nowatchdog"@, "quiet"@,
        "splash"@,
    ]
}

/// The trimmed rest of the first line that starts with `field`, or empty.
pub open spec fn entry_field(content: Seq<char>, field: Seq<char>) -> Seq<char> {
    let ls = lines(content);
    match first_starting(ls, field) {
        Some(i) => trim(ls[i as int].skip(field.len() as int)),
        None => seq![],
    }
}

pub fn parse_entry_field(content: &str, field: &str) -> (r: String)
    ensures
        r@ == entry_field(content@, field@),
{
    let ls = split_lines(&chars_of(content));
    match first_starting_exec(&ls, field) {
        Some(i) => {
            let n = field.unicode_len();
            let l = &ls[i];
            proof {
                assert(vviews(ls@)[i as int] == l@);
            }
            let rest = slice_chars(l, n, l.len());
            assert(rest@ =~= l@.skip(n as int));
            string_of(&trim_chars(&rest))
        },
        None => String::new(),
    }
}

/// Lines of `a` missing from `b`, each with `prefix`.
pub open spec fn lines_missing(a: Seq<Seq<char>>, b: Seq<Seq<char>>, prefix: Seq<char>) -> Seq<Seq<char>>
    decreases a.len(),
{
    if a.len() == 0 {
        seq![]
    } else {
        let rest = lines_missing(a.drop_last(), b, prefix);
        if !b.contains(a.last()) {
            rest.push(prefix + a.last())
        } else {
            rest
        }
    }
}

/// Removed lines (`- `) then added lines (`+ `), each in order.
pub open spec fn diff_of(old: Seq<char>, new: Seq<char>) -> Seq<Seq<char>> {
    lines_missing(lines(old), lines(new), "- "@) + lines_missing(lines(new), lines(old), "+ "@)
}

fn contains_line(ls: &Vec<Vec<char>>, l: &Vec<char>) -> (r: bool)
    ensures
        r == vviews(ls@).contains(l@),
{
    let mut i: usize = 0;
    while i < ls.len()
        invariant
            i <= ls@.len(),
            forall|j: int| 0 <= j < i ==> vviews(ls@)[j] != l@,
        decreases ls.len() - i,
    {
        if crate::boot_patch::chars_eq_pub(&ls[i], l) {
            assert(vviews(ls@)[i as int] == l@);
            return true;
        }
        i = i + 1;
    }
    false
}

fn push_missing(out: &mut Vec<String>, a: &Vec<Vec<char>>, b: &Vec<Vec<char>>, prefix: &str)
    ensures
        string_views(final(out)@) == string_views(old(out)@) + lines_missing(vviews(a@), vviews(b@), prefix@),
{
    let ghost start = string_views(out@);
    let mut i: usize = 0;
    assert(start + lines_missing(vviews(a@).take(0), vviews(b@), prefix@) =~= start);
    while i < a.len()
        invariant
            i <= a@.len(),
            string_views(out@) == start + lines_missing(vviews(a@).take(i as int), vviews(b@), prefix@),
        decreases a.len() - i,
    {
        assert(vviews(a@).take(i + 1).drop_last() =~= vviews(a@).take(i as int));
        assert(vviews(a@).take(i + 1).last() == a@[i as int]@);
        if !contains_line(b, &a[i]) {
            let mut v: Vec<char> = Vec::new();
            push_str(&mut v, prefix);
            push_all(&mut v, &a[i]);
            let ghost before = out@;
            let sv = string_of(&v);
            out.push(sv);
            assert(string_views(out@) =~= string_views(before).push(prefix@ + a@[i as int]@));
            assert(lines_missing(vviews(a@).take(i + 1), vviews(b@), prefix@) == lines_missing(vviews(a@).take(i as int), vviews(b@), prefix@).push(prefix@ + a@[i as int]@));
            assert(string_views(out@) =~= start + lines_missing(vviews(a@).take(i + 1), vviews(b@), prefix@));
        }
        i = i + 1;
    }
    assert(vviews(a@).take(a@.len() as int) =~= vviews(a@));
}

/// The lines removed from `old` and added in `new`.
pub fn compute_diff(old: &str, new: &str) -> (r: Vec<String>)
    ensures
        string_views(r@) == diff_of(old@, new@),
{
    let a = split_lines(&chars_of(old));
    let b = split_lines(&chars_of(new));
    let mut out: Vec<String> = Vec::new();
    push_missing(&mut out, &a, &b, "- ");
    push_missing(&mut out, &b, &a, "+ ");
    out
}

/// Some word of `ws` starts with `p`.
pub open spec fn first_with_prefix(ws: Seq<Seq<char>>, p: Seq<char>) -> Option<Seq<char>>
    decreases ws.len(),
{
    if ws.len() == 0 {
        None
    } else if starts_with(ws[0], p) {
        Some(ws[0])
    } else {
        first_with_prefix(ws.drop_first(), p)
    }
}

/// The tracked parameters (in full, as in the backup) that the backup's
/// options had and the current options lack.
pub open spec fn missing_params_of(params: Seq<Seq<char>>, backup_opts: Seq<char>, opts: Seq<char>) -> Seq<Seq<char>>
    decreases params.len(),
{
    if params.len() == 0 {
        seq![]
    } else {
        let rest = missing_params_of(params.drop_last(), backup_opts, opts);
        let p = params.last();
        match first_with_prefix(words(backup_opts), p) {
            Some(full) => if first_with_prefix(words(opts), p) is None {
                rest.push(full)
            } else {
                rest
            },
            None => rest,
        }
    }
}

fn first_with_prefix_exec(ws: &Vec<Vec<char>>, p: &str) -> (r: Option<usize>)
    ensures
        match r {
            Some(i) => i < ws@.len() && first_with_prefix(vviews(ws@), p@) == Some(ws@[i as int]@),
            None => first_with_prefix(vviews(ws@), p@) is None,
        },
{
    let mut i: usize = 0;
    assert(vviews(ws@).skip(0) =~= vviews(ws@));
    while i < ws.len()
        invariant
            i <= ws@.len(),
            first_with_prefix(vviews(ws@), p@) == first_with_prefix(vviews(ws@).skip(i as int), p@),
        decreases ws.len() - i,
    {
        let ghost rest = vviews(ws@).skip(i as int);
        assert(rest[0] == ws@[i as int]@);
        assert(rest.drop_first() =~= vviews(ws@).skip(i + 1));
        if starts_with_str(&ws[i], p) {
            return Some(i);
        }
        i = i + 1;
    }
    None
}

/// The issues of one entry: missing kernel or initramfs, lost parameters.
pub open spec fn entry_issues(name: Seq<char>, linux: Seq<char>, initrd: Seq<char>, kernel_exists: bool, initramfs_exists: bool, missing: Seq<Seq<char>>) -> Seq<Seq<char>> {
    (if kernel_exists { seq![] } else { seq![name + ": Kernel "@ + linux + " fehlt auf /boot"@] })
        + (if initramfs_exists { seq![] } else { seq![name + ": Initramfs "@ + initrd + " fehlt auf /boot"@] })
        + (if missing.len() == 0 { seq![] } else { seq![name + ": Fehlende Kernel-Parameter: "@ + join(missing, ", "@)] })
}

/// Checks one boot entry against its backup (if any); whether its kernel and
/// initramfs exist on /boot is given.
pub fn check_entry_health(
    name: &str,
    content: &str,
    backup: Option<&str>,
    kernel_exists: bool,
    initramfs_exists: bool,
) -> (r: (EntryHealth, Vec<String>))
    ensures
        r.0.filename@ == name@,
        r.0.title@ == entry_field(content@, "title "@),
        r.0.options@ == entry_field(content@, "options "@),
        r.0.kernel_exists == kernel_exists,
        r.0.initramfs_exists == initramfs_exists,
        string_views(r.0.missing_params@) == (match backup {
            Some(b) => missing_params_of(tracked_params(), entry_field(b@, "options "@), entry_field(content@, "options "@)),
            None => Seq::<Seq<char>>::empty(),
        }),
        r.0.custom_params_intact == (r.0.missing_params@.len() == 0),
        r.0.changed_since_backup == (match backup {
            Some(b) => trim(b@) != trim(content@),
            None => false,
        }),
        string_views(r.0.diff@) == (match backup {
            Some(b) => diff_of(b@, content@),
            None => Seq::<Seq<char>>::empty(),
        }),
        string_views(r.1@) == entry_issues(
            name@,
            entry_field(content@, "linux "@),
            entry_field(content@, "initrd "@),
            kernel_exists,
            initramfs_exists,
            string_views(r.0.missing_params@),
        ),
{
    let title = parse_entry_field(content, "title ");
    let linux = parse_entry_field(content, "linux ");
    let initrd = parse_entry_field(content, "initrd ");
    let options = parse_entry_field(content, "options ");
    let mut issues: Vec<String> = Vec::new();
    if !kernel_exists {
        let mut v: Vec<char> = Vec::new();
        push_str(&mut v, name);
        push_str(&mut v, ": Kernel ");
        push_str(&mut v, linux.as_str());
        push_str(&mut v, " fehlt auf /boot");
        issues.push(string_of(&v));
    }
    if !initramfs_exists {
        let mut v: Vec<char> = Vec::new();
        push_str(&mut v, name);
        push_str(&mut v, ": Initramfs ");
        push_str(&mut v, initrd.as_str());
        push_str(&mut v, " fehlt auf /boot");
        issues.push(string_of(&v));
    }
    let mut missing: Vec<String> = Vec::new();
    let params: [&str; 8] = [
        "mitigations=", "amdgpu.", "i915.", "nvidia.", "pcie_aspm=", "nowatchdog", "quiet", "splash",
    ];
    assert(crate::text::views(params@) =~= tracked_params());
    match backup {
        Some(b) => {
            let bo = parse_entry_field(b, "options ");
            let bws = split_ws(&chars_of(bo.as_str()));
            let cws = split_ws(&chars_of(options.as_str()));
            let mut k: usize = 0;
            while k < 8
                invariant
                    k <= 8,
                    crate::text::views(params@) == tracked_params(),
                    vviews(bws@) == words(bo@),
                    vviews(cws@) == words(options@),
                    string_views(missing@) == missing_params_of(tracked_params().take(k as int), bo@, options@),
                decreases 8 - k,
            {
                assert(tracked_params().take(k + 1).drop_last() =~= tracked_params().take(k as int));
                assert(tracked_params().take(k + 1).last() == params@[k as int]@);
                match first_with_prefix_exec(&bws, params[k]) {
                    Some(j) => {
                        if first_with_prefix_exec(&cws, params[k]).is_none() {
                            missing.push(string_of(&bws[j]));
                            assert(string_views(missing@) =~= missing_params_of(tracked_params().take(k as int), bo@, options@).push(bws@[j as int]@));
                        }
                    },
                    None => {},
                }
                k = k + 1;
            }
            assert(tracked_params().take(8) =~= tracked_params());
        },
        None => {},
    }
    let intact = missing.len() == 0;
    if !intact {
        let mut mv: Vec<Vec<char>> = Vec::new();
        let mut k: usize = 0;
        while k < missing.len()
            invariant
                k <= missing@.len(),
                vviews(mv@) == string_views(missing@).take(k as int),
            decreases missing.len() - k,
        {
            let ghost before = mv@;
            let c = chars_of(missing[k].as_str());
            mv.push(c);
            assert(vviews(mv@) =~= vviews(before).push(missing@[k as int]@));
            assert(vviews(mv@) =~= string_views(missing@).take(k + 1));
            k = k + 1;
        }
        assert(string_views(missing@).take(missing@.len() as int) =~= string_views(missing@));
        let mut v: Vec<char> = Vec::new();
        push_str(&mut v, name);
        push_str(&mut v, ": Fehlende Kernel-Parameter: ");
        let j = join_chars(&mv, ", ");
        push_all(&mut v, &j);
        issues.push(string_of(&v));
    }
    let (changed, diff) = match backup {
        Some(b) => {
            let bt = trim_chars(&chars_of(b));
            let ct = trim_chars(&chars_of(content));
            (!crate::boot_patch::chars_eq_pub(&bt, &ct), compute_diff(b, content))
        },
        None => (false, Vec::new()),
    };
    assert(string_views(issues@) =~= entry_issues(
        name@,
        linux@,
        initrd@,
        kernel_exists,
        initramfs_exists,
        string_views(missing@),
    ));
    let entry = EntryHealth {
        filename: String::from_str(name),
        title,
        kernel_exists,
        initramfs_exists,
        custom_params_intact: intact,
        missing_params: missing,
        options,
        changed_since_backup: changed,
        diff,
    };
    (entry, issues)
}

/// Critical when /boot is not mounted, the running kernel has no modules or
/// an entry lacks its kernel or initramfs; a warning when parameters were
/// lost or an entry changed since the backup; healthy otherwise.
pub open spec fn health_status_of(boot_mounted: bool, module_match: bool, es: Seq<EntryHealth>) -> HealthStatus {
    if !boot_mounted || !module_match || exists|i: int| 0 <= i < es.len() && (!es[i].kernel_exists || !es[i].initramfs_exists) {
        HealthStatus::Critical
    } else if exists|i: int| 0 <= i < es.len() && (!es[i].custom_params_intact || es[i].changed_since_backup) {
        HealthStatus::Warning
    } else {
        HealthStatus::Healthy
    }
}

pub fn boot_health_status(boot_mounted: bool, kernel_module_match: bool, entries: &Vec<EntryHealth>) -> (r: HealthStatus)
    ensures
        r == health_status_of(boot_mounted, kernel_module_match, entries@),
{
    let mut critical = !boot_mounted || !kernel_module_match;
    let mut warning = false;
    let mut i: usize = 0;
    while i < entries.len()
        invariant
            i <= entries@.len(),
            critical == (!boot_mounted || !kernel_module_match || exists|j: int| 0 <= j < i && (!entries@[j].kernel_exists || !entries@[j].initramfs_exists)),
            warning == exists|j: int| 0 <= j < i && (!entries@[j].custom_params_intact || entries@[j].changed_since_backup),
        decreases entries.len() - i,
    {
        let e = &entries[i];
        if !e.kernel_exists || !e.initramfs_exists {
            critical = true;
        }
        if !e.custom_params_intact || e.changed_since_backup {
            warning = true;
        }
        i = i + 1;
    }
    if critical {
        HealthStatus::Critical
    } else if warning {
        HealthStatus::Warning
    } else {
        HealthStatus::Healthy
    }
}

/// Whether the running kernel has a module directory, and the issues about
/// /boot and the modules.
pub open spec fn boot_summary(boot_mounted: bool, kernel: Seq<char>, modules: Seq<Seq<char>>) -> (bool, Seq<Seq<char>>) {
    let m = modules.contains(kernel);
    (
        m,
        (if boot_mounted {
            seq![]
        } else {
            seq!["/boot ist nicht gemountet! Kernel-Updates landen nicht auf der EFI-Partition."@]
        }) + (if m {
            seq![]
        } else {
            seq![
                "Kernel/Module-Mismatch: Laufender Kernel "@ + kernel
                    + " hat keine passenden Module in /usr/lib/modules/. Vorhandene Module: "@ + join(modules, ", "@),
            ]
        }),
    )
}

pub fn boot_health_summary(boot_mounted: bool, running_kernel: &str, installed_modules: &Vec<String>) -> (r: (bool, Vec<String>))
    ensures
        (r.0, string_views(r.1@)) == boot_summary(boot_mounted, running_kernel@, string_views(installed_modules@)),
{
    let k = String::from_str(running_kernel);
    let mut found = false;
    let mut mv: Vec<Vec<char>> = Vec::new();
    let mut i: usize = 0;
    while i < installed_modules.len()
        invariant
            i <= installed_modules@.len(),
            k@ == running_kernel@,
            vviews(mv@) == string_views(installed_modules@).take(i as int),
            found == string_views(installed_modules@).take(i as int).contains(k@),
        decreases installed_modules.len() - i,
    {
        let ghost t = string_views(installed_modules@).take(i + 1);
        assert(t =~= string_views(installed_modules@).take(i as int).push(installed_modules@[i as int]@));
        if crate::boot::string_eq(&installed_modules[i], &k) {
            found = true;
            assert(t[i as int] == k@);
        } else {
            assert(found == t.contains(k@)) by {
                if t.contains(k@) {
                    let j = choose|j: int| 0 <= j < t.len() && t[j] == k@;
                    if j < i {
                        assert(string_views(installed_modules@).take(i as int)[j] == k@);
                    }
                }
            }
        }
        mv.push(chars_of(installed_modules[i].as_str()));
        assert(vviews(mv@) =~= string_views(installed_modules@).take(i + 1));
        i = i + 1;
    }
    assert(string_views(installed_modules@).take(installed_modules@.len() as int) =~= string_views(installed_modules@));
    let mut issues: Vec<String> = Vec::new();
    if !boot_mounted {
        issues.push(String::from_str("/boot ist nicht gemountet! Kernel-Updates landen nicht auf der EFI-Partition."));
    }
    if !found {
        let mut v: Vec<char> = Vec::new();
        push_str(&mut v, "Kernel/Module-Mismatch: Laufender Kernel ");
        push_str(&mut v, running_kernel);
        push_str(&mut v, " hat keine passenden Module in /usr/lib/modules/. Vorhandene Module: ");
        let j = join_chars(&mv, ", ");
        push_all(&mut v, &j);
        issues.push(string_of(&v));
    }
    assert(string_views(issues@) =~= boot_summary(boot_mounted, running_kernel@, string_views(installed_modules@)).1);
    (found, issues)
}

/// The device mounted on /boot in `/proc/mounts` text, if any.
pub open spec fn boot_device_of(ls: Seq<Seq<char>>) -> Option<Seq<char>>
    decreases ls.len(),
{
    if ls.len() == 0 {
        None
    } else {
        let parts = words(ls[0]);
        if parts.len() >= 2 && parts[1] == "/boot"@ {
            Some(parts[0])
        } else {
            boot_device_of(ls.drop_first())
        }
    }
}

pub fn boot_device_in_mounts(mounts: &str) -> (r: Option<String>)
    ensures
        match r {
            Some(d) => boot_device_of(lines(mounts@)) == Some(d@),
            None => boot_device_of(lines(mounts@)) is None,
        },
{
    let ls = split_lines(&chars_of(mounts));
    let mut i: usize = 0;
    assert(vviews(ls@).skip(0) =~= vviews(ls@));
    while i < ls.len()
        invariant
            i <= ls@.len(),
            vviews(ls@) == lines(mounts@),
            boot_device_of(lines(mounts@)) == boot_device_of(vviews(ls@).skip(i as int)),
        decreases ls.len() - i,
    {
        let ghost rest = vviews(ls@).skip(i as int);
        assert(rest[0] == ls@[i as int]@);
        assert(rest.drop_first() =~= vviews(ls@).skip(i + 1));
        let parts = split_ws(&ls[i]);
        if parts.len() >= 2 && crate::text::eq_str(&parts[1], "/boot") {
            return Some(string_of(&parts[0]));
        }
        i = i + 1;
    }
    None
}

/// The /boot device shown with its label when `lsblk` gave a non-empty one.
pub open spec fn device_label_text(dev: Seq<char>, label: Option<Seq<char>>) -> Seq<char> {
    match label {
        Some(l) if trim(l).len() > 0 => dev + " ("@ + trim(l) + ")"@,
        _ => dev,
    }
}

pub fn device_with_label(dev: &str, label_output: Option<&str>) -> (r: String)
    ensures
        r@ == device_label_text(dev@, match label_output {
            Some(l) => Some(l@),
            None => None,
        }),
{
    if let Some(l) = label_output {
        let t = trim_chars(&chars_of(l));
        if t.len() > 0 {
            let mut v: Vec<char> = Vec::new();
            push_str(&mut v, dev);
            push_str(&mut v, " (");
            push_all(&mut v, &t);
            push_str(&mut v, ")");
            return string_of(&v);
        }
    }
    String::from_str(dev)
}

/// The running kernel: the third word of `/proc/version`, else "unknown".
pub open spec fn kernel_of(version: Option<Seq<char>>) -> Seq<char> {
    match version {
        Some(v) if words(v).len() > 2 => words(v)[2],
        _ => "unknown"@,
    }
}

pub fn kernel_from_proc_version(version: Option<&str>) -> (r: String)
    ensures
        r@ == kernel_of(match version {
            Some(v) => Some(v@),
            None => None,
        }),
{
    if let Some(v) = version {
        let ws = split_ws(&chars_of(v));
        if ws.len() > 2 {
            assert(vviews(ws@)[2] == ws@[2]@);
            return string_of(&ws[2]);
        }
    }
    String::from_str("unknown")
}

/// The timestamp of a boot-guard backup directory name `backup-<secs>`.
pub open spec fn backup_timestamp_of(name: Seq<char>) -> Option<u64> {
    match strip_prefix(name, "backup-"@) {
        Some(t) => match parse_uint(t, u64::MAX as nat) {
            Some(n) => Some(n as u64),
            None => None,
        },
        None => None,
    }
}

pub fn backup_timestamp(name: &str) -> (r: Option<u64>)
    ensures
        r == backup_timestamp_of(name@),
{
    match strip_prefix_str(&chars_of(name), "backup-") {
        Some(t) => parse_uint_chars(&t, u64::MAX),
        None => None,
    }
}

/// The time format of a backup's default label: day, month, year, hour, minute.
pub open spec fn label_time_format() -> Seq<char> {
    "%d.%m.%Y %H:%M"@
}

/// What chrono's `DateTime::from_timestamp(secs, 0)` gives, as UTC time
/// formatted with `fmt`; `None` when chrono finds `secs` out of range.
pub uninterp spec fn utc_time_text(secs: i64, fmt: Seq<char>) -> Option<Seq<char>>;

/// Calls chrono's `DateTime::from_timestamp(secs, 0)` and, when that gives a
/// time, its `format(fmt)` as text. The contract only names the result: it
/// depends on `secs` and `fmt` alone (UTC, no time zone or clock). The format
/// is the label format, with which formatting cannot fail.
#[verifier::external_body]
fn utc_time(secs: i64, fmt: &str) -> (r: Option<String>)
    requires
        fmt@ == label_time_format(),
    ensures
        match r {
            Some(t) => utc_time_text(secs, fmt@) == Some(t@),
            None => utc_time_text(secs, fmt@) is None,
        },
{
    match chrono::DateTime::from_timestamp(secs, 0) {
        Some(dt) => Some(dt.format(fmt).to_string()),
        None => None,
    }
}

/// The label of a backup without a label file: "Backup " and its time (UTC),
/// or its seconds when chrono cannot place them.
pub open spec fn default_label_of(ts: u64) -> Seq<char> {
    "Backup "@ + match utc_time_text(ts as i64, label_time_format()) {
        Some(t) => t,
        None => dec(ts as nat),
    }
}

/// The label shown for the backup taken at `ts`: the label file's content if
/// it could be read, else the default label; trimmed.
pub fn backup_label(label_file: Option<&str>, ts: u64) -> (r: String)
    ensures
        r@ == trim(match label_file {
            Some(t) => t@,
            None => default_label_of(ts),
        }),
{
    match label_file {
        Some(t) => string_of(&trim_chars(&chars_of(t))),
        None => {
            let mut v: Vec<char> = chars_of("Backup ");
            let fmt = "%d.%m.%Y %H:%M";
            proof {
                reveal_strlit("%d.%m.%Y %H:%M");
            }
            match utc_time(ts as i64, fmt) {
                Some(t) => push_str(&mut v, t.as_str()),
                None => push_dec(&mut v, ts),
            }
            string_of(&trim_chars(&v))
        },
    }
}

} // verus!
