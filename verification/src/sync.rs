//! The NVMe sync: which way it runs, the phases it goes through (one per
//! configured subvolume, then /boot), the rsync command of each, and what is
//! logged. Mounting, running rsync and writing the log is left to the caller.

use vstd::prelude::*;
use vstd::string::*;
use crate::boot::string_eq;
use crate::config::{AppConfig, SubvolumeConfig};
use crate::helpers::{disk_label, disk_label_text, duration_text, format_duration, string_views, CommandResult, SyncStatus};
use crate::text::{
    find_str, find_str_exec, slice_chars, strip_prefix, strip_prefix_str, trim_end_matches,
    trim_end_matches_exec, chars_of, contains, contains_str, dec, ends_with_str, eq_str, join, join_chars, lines,
    push_all, push_dec, push_str, split_lines, starts_with, string_of, trim, trim_chars, vviews,
};

verus! {

/// Which disk is synced to which, and where.
pub struct SyncContext {
    pub backup_uuid: String,
    pub backup_dev: String,
    pub mount_base: String,
    pub direction: String,
    pub is_primary_boot: bool,
}

/// The sync direction from the booted root UUID: the backup UUID to write
/// to, the direction text, and whether the primary disk was booted.
pub open spec fn direction_of(c: AppConfig, boot: Seq<char>) -> Result<(Seq<char>, Seq<char>, bool), Seq<char>> {
    let p = c.disks.primary_uuid@;
    let b = c.disks.backup_uuid@;
    if p.len() == 0 || b.len() == 0 {
        Err("Disks nicht konfiguriert. Bitte unter Einstellungen Primary und Backup Disk wählen."@)
    } else if boot == p {
        Ok((b, c.disks.primary_label@ + " -> "@ + c.disks.backup_label@, true))
    } else if boot == b {
        Ok((p, c.disks.backup_label@ + " -> "@ + c.disks.primary_label@, false))
    } else {
        Err("Boot-UUID "@ + boot + " entspricht weder Primary ("@ + p + ") noch Backup ("@ + b
            + "). Bitte Einstellungen prüfen."@)
    }
}

/// The context of a sync: direction, and the backup device that `blkid -U`
/// found for the target UUID (its trimmed output, when it succeeded).
pub open spec fn context_of(c: AppConfig, boot: Seq<char>, blkid_ok: bool, blkid_out: Seq<char>) -> Result<(Seq<char>, Seq<char>, Seq<char>, Seq<char>, bool), Seq<char>> {
    match direction_of(c, boot) {
        Err(e) => Err(e),
        Ok((target, dir, primary)) => if !blkid_ok || trim(blkid_out).len() == 0 {
            Err("Backup-Disk nicht gefunden (UUID: "@ + target + "). Ist sie eingebaut?"@)
        } else {
            Ok((target, trim(blkid_out), c.sync.mount_base@, dir, primary))
        },
    }
}

/// The sync direction for the booted root UUID.
pub fn sync_direction(c: &AppConfig, boot_uuid: &str) -> (r: Result<(String, String, bool), String>)
    ensures
        match r {
            Ok((t, d, p)) => direction_of(*c, boot_uuid@) == Ok::<(Seq<char>, Seq<char>, bool), Seq<char>>((t@, d@, p)),
            Err(e) => direction_of(*c, boot_uuid@) == Err::<(Seq<char>, Seq<char>, bool), Seq<char>>(e@),
        },
{
    let p = &c.disks.primary_uuid;
    let b = &c.disks.backup_uuid;
    if p.as_str().unicode_len() == 0 || b.as_str().unicode_len() == 0 {
        return Err(String::from_str("Disks nicht konfiguriert. Bitte unter Einstellungen Primary und Backup Disk wählen."));
    }
    let boot = String::from_str(boot_uuid);
    let mut d: Vec<char> = Vec::new();
    if string_eq(&boot, p) {
        push_str(&mut d, c.disks.primary_label.as_str());
        push_str(&mut d, " -> ");
        push_str(&mut d, c.disks.backup_label.as_str());
        Ok((b.clone(), string_of(&d), true))
    } else if string_eq(&boot, b) {
        push_str(&mut d, c.disks.backup_label.as_str());
        push_str(&mut d, " -> ");
        push_str(&mut d, c.disks.primary_label.as_str());
        Ok((p.clone(), string_of(&d), false))
    } else {
        push_str(&mut d, "Boot-UUID ");
        push_str(&mut d, boot_uuid);
        push_str(&mut d, " entspricht weder Primary (");
        push_str(&mut d, p.as_str());
        push_str(&mut d, ") noch Backup (");
        push_str(&mut d, b.as_str());
        push_str(&mut d, "). Bitte Einstellungen prüfen.");
        Err(string_of(&d))
    }
}

/// The sync context, given the booted root UUID and the result of looking
/// up the target UUID with `blkid -U`.
pub fn detect_sync_direction(c: &AppConfig, boot_uuid: &str, blkid_ok: bool, blkid_out: &str) -> (r: Result<SyncContext, String>)
    ensures
        match r {
            Ok(x) => context_of(*c, boot_uuid@, blkid_ok, blkid_out@) == Ok::<(Seq<char>, Seq<char>, Seq<char>, Seq<char>, bool), Seq<char>>(
                (x.backup_uuid@, x.backup_dev@, x.mount_base@, x.direction@, x.is_primary_boot),
            ),
            Err(e) => context_of(*c, boot_uuid@, blkid_ok, blkid_out@) == Err::<(Seq<char>, Seq<char>, Seq<char>, Seq<char>, bool), Seq<char>>(e@),
        },
{
    let (target, direction, primary) = sync_direction(c, boot_uuid)?;
    let dev = trim_chars(&chars_of(blkid_out));
    if !blkid_ok || dev.len() == 0 {
        let mut m: Vec<char> = Vec::new();
        push_str(&mut m, "Backup-Disk nicht gefunden (UUID: ");
        push_str(&mut m, target.as_str());
        push_str(&mut m, "). Ist sie eingebaut?");
        return Err(string_of(&m));
    }
    Ok(SyncContext {
        backup_uuid: target,
        backup_dev: string_of(&dev),
        mount_base: c.sync.mount_base.clone(),
        direction,
        is_primary_boot: primary,
    })
}

/// The excludes for a subvolume: the system list for `/`, the home list for
/// `/home` (with the extra list when configured and the primary disk was
/// booted), none otherwise.
pub open spec fn excludes_of(c: AppConfig, source: Seq<char>, is_primary_boot: bool) -> Seq<Seq<char>> {
    if source == "/"@ {
        string_views(c.sync.system_excludes@)
    } else if source == "/home/"@ || source == "/home"@ {
        string_views(c.sync.home_excludes@) + (if c.sync.extra_excludes_on_primary && is_primary_boot {
            string_views(c.sync.home_extra_excludes@)
        } else {
            seq![]
        })
    } else {
        seq![]
    }
}

fn append_strings(out: &mut Vec<String>, v: &Vec<String>)
    ensures
        string_views(final(out)@) == string_views(old(out)@) + string_views(v@),
{
    let ghost start = string_views(out@);
    let mut i: usize = 0;
    while i < v.len()
        invariant
            i <= v@.len(),
            string_views(out@) == start + string_views(v@).take(i as int),
        decreases v.len() - i,
    {
        let ghost before = out@;
        out.push(v[i].clone());
        assert(string_views(out@) =~= string_views(before).push(v@[i as int]@));
        assert(start + string_views(v@).take(i + 1) =~= (start + string_views(v@).take(i as int)).push(v@[i as int]@));
        i = i + 1;
    }
    assert(string_views(v@).take(v@.len() as int) =~= string_views(v@));
}

pub fn subvolume_excludes(c: &AppConfig, source: &str, is_primary_boot: bool) -> (r: Vec<String>)
    ensures
        string_views(r@) == excludes_of(*c, source@, is_primary_boot),
{
    let s = chars_of(source);
    let mut out: Vec<String> = Vec::new();
    if eq_str(&s, "/") {
        append_strings(&mut out, &c.sync.system_excludes);
        assert(string_views(out@) =~= string_views(c.sync.system_excludes@));
    } else if eq_str(&s, "/home/") || eq_str(&s, "/home") {
        append_strings(&mut out, &c.sync.home_excludes);
        if c.sync.extra_excludes_on_primary && is_primary_boot {
            append_strings(&mut out, &c.sync.home_extra_excludes);
        }
        assert(string_views(out@) =~= excludes_of(*c, source@, is_primary_boot));
    }
    out
}

/// The rsync source: the path with a trailing slash.
pub open spec fn rsync_source_of(source: Seq<char>) -> Seq<char> {
    if source.len() > 0 && source.last() == '/' {
        source
    } else {
        source + "/"@
    }
}

pub fn rsync_source(source: &str) -> (r: String)
    ensures
        r@ == rsync_source_of(source@),
{
    let mut s = chars_of(source);
    if s.len() > 0 && s[s.len() - 1] == '/' {
        string_of(&s)
    } else {
        push_str(&mut s, "/");
        string_of(&s)
    }
}

/// "--exclude=…" for each exclude.
pub open spec fn exclude_args(ex: Seq<Seq<char>>) -> Seq<Seq<char>>
    decreases ex.len(),
{
    if ex.len() == 0 {
        seq![]
    } else {
        exclude_args(ex.drop_last()).push("--exclude="@ + ex.last())
    }
}

/// The command line of an rsync run (under `ionice -c3`, archive mode with
/// ACLs and xattrs, numeric ids, summary statistics).
pub open spec fn rsync_command(src: Seq<char>, dst: Seq<char>, ex: Seq<Seq<char>>, delete: bool) -> Seq<Seq<char>> {
    seq!["ionice"@, "-c3"@, "rsync"@, "-aAX"@, "--info=stats1"@, "--no-inc-recursive"@, "--numeric-ids"@]
        + (if delete { seq!["--delete"@, "--delete-excluded"@] } else { seq![] }) + exclude_args(ex)
        + seq![src, dst]
}

fn push_string(out: &mut Vec<String>, s: &str)
    ensures
        string_views(final(out)@) == string_views(old(out)@).push(s@),
{
    let ghost before = out@;
    out.push(String::from_str(s));
    assert(string_views(out@) =~= string_views(before).push(s@));
}

pub fn rsync_args(src: &str, dst: &str, excludes: &Vec<String>, delete: bool) -> (r: Vec<String>)
    ensures
        string_views(r@) == rsync_command(src@, dst@, string_views(excludes@), delete),
{
    let mut args: Vec<String> = Vec::new();
    push_string(&mut args, "ionice");
    push_string(&mut args, "-c3");
    push_string(&mut args, "rsync");
    push_string(&mut args, "-aAX");
    push_string(&mut args, "--info=stats1");
    push_string(&mut args, "--no-inc-recursive");
    push_string(&mut args, "--numeric-ids");
    let ghost base = string_views(args@);
    assert(base =~= seq!["ionice"@, "-c3"@, "rsync"@, "-aAX"@, "--info=stats1"@, "--no-inc-recursive"@, "--numeric-ids"@]);
    if delete {
        push_string(&mut args, "--delete");
        push_string(&mut args, "--delete-excluded");
    }
    let ghost with_delete = string_views(args@);
    assert(with_delete =~= base + (if delete { seq!["--delete"@, "--delete-excluded"@] } else { Seq::<Seq<char>>::empty() }));
    let mut i: usize = 0;
    while i < excludes.len()
        invariant
            i <= excludes@.len(),
            string_views(args@) == with_delete + exclude_args(string_views(excludes@).take(i as int)),
        decreases excludes.len() - i,
    {
        assert(string_views(excludes@).take(i + 1).drop_last() =~= string_views(excludes@).take(i as int));
        let mut v: Vec<char> = Vec::new();
        push_str(&mut v, "--exclude=");
        push_str(&mut v, excludes[i].as_str());
        let ghost before = args@;
        args.push(string_of(&v));
        assert(string_views(args@) =~= string_views(before).push("--exclude="@ + excludes@[i as int]@));
        assert(string_views(args@) =~= with_delete + exclude_args(string_views(excludes@).take(i + 1)));
        i = i + 1;
    }
    assert(string_views(excludes@).take(excludes@.len() as int) =~= string_views(excludes@));
    push_string(&mut args, src);
    push_string(&mut args, dst);
    assert(string_views(args@) =~= rsync_command(src@, dst@, string_views(excludes@), delete));
    args
}

/// rsync failed: an unsuccessful exit other than 24 (files vanished while
/// copying), with the error text.
pub open spec fn rsync_error_of(src: Seq<char>, dst: Seq<char>, r: CommandResult) -> Option<Seq<char>> {
    if !r.success && r.exit_code != 24 {
        Some("rsync "@ + src + " -> "@ + dst + ": exit="@ + int_text(r.exit_code as int) + " "@ + r.stderr@)
    } else {
        None
    }
}

/// An integer in decimal, with a minus sign when negative.
pub open spec fn int_text(n: int) -> Seq<char> {
    if n < 0 {
        "-"@ + dec((-n) as nat)
    } else {
        dec(n as nat)
    }
}

fn push_int(v: &mut Vec<char>, n: i32)
    ensures
        final(v)@ == old(v)@ + int_text(n as int),
{
    if n < 0 {
        let ghost start = v@;
        v.push('-');
        let m: u64 = (-(n as i64)) as u64;
        push_dec(v, m);
        proof {
            reveal_strlit("-");
            assert(v@ =~= start + int_text(n as int));
        }
    } else {
        push_dec(v, n as u64);
    }
}

/// The error of an rsync run, if it failed.
pub fn rsync_error(src: &str, dst: &str, r: &CommandResult) -> (e: Option<String>)
    ensures
        match e {
            Some(m) => rsync_error_of(src@, dst@, *r) == Some(m@),
            None => rsync_error_of(src@, dst@, *r) is None,
        },
{
    if !r.success && r.exit_code != 24 {
        let mut v: Vec<char> = Vec::new();
        push_str(&mut v, "rsync ");
        push_str(&mut v, src);
        push_str(&mut v, " -> ");
        push_str(&mut v, dst);
        push_str(&mut v, ": exit=");
        push_int(&mut v, r.exit_code);
        push_str(&mut v, " ");
        push_str(&mut v, r.stderr.as_str());
        Some(string_of(&v))
    } else {
        None
    }
}

/// The statistics lines of rsync's output (those mentioning bytes or
/// transfers), joined by " | ".
pub open spec fn stats_lines(ls: Seq<Seq<char>>) -> Seq<Seq<char>>
    decreases ls.len(),
{
    if ls.len() == 0 {
        seq![]
    } else if contains(ls.last(), "bytes"@) || contains(ls.last(), "transferred"@) {
        stats_lines(ls.drop_last()).push(ls.last())
    } else {
        stats_lines(ls.drop_last())
    }
}

pub fn rsync_stats(stdout: &str) -> (r: String)
    ensures
        r@ == join(stats_lines(lines(stdout@)), " | "@),
{
    let ls = split_lines(&chars_of(stdout));
    let mut out: Vec<Vec<char>> = Vec::new();
    let mut i: usize = 0;
    while i < ls.len()
        invariant
            i <= ls@.len(),
            vviews(ls@) == lines(stdout@),
            vviews(out@) == stats_lines(vviews(ls@).take(i as int)),
        decreases ls.len() - i,
    {
        assert(vviews(ls@).take(i + 1).drop_last() =~= vviews(ls@).take(i as int));
        assert(vviews(ls@).take(i + 1).last() == ls@[i as int]@);
        if contains_str(&ls[i], "bytes") || contains_str(&ls[i], "transferred") {
            let l = crate::text::slice_chars(&ls[i], 0, ls[i].len());
            assert(l@ =~= ls@[i as int]@);
            assert(vviews(out@.push(l)) =~= vviews(out@).push(l@));
            out.push(l);
        }
        i = i + 1;
    }
    assert(vviews(ls@).take(ls@.len() as int) =~= vviews(ls@));
    string_of(&join_chars(&out, " | "))
}

// ─── Phases ───────────────────────────────────────────────────

/// One subvolume's part of the sync.
pub struct SyncPhase {
    pub name: String,
    pub mount_point: String,
    pub subvol: String,
    pub rsync_src: String,
    pub rsync_dst: String,
    pub excludes: Vec<String>,
    pub delete: bool,
    /// The extra home excludes are applied (the log says so).
    pub extra_excludes: bool,
    pub pct_start: u8,
    pub pct_end: u8,
}

/// Number of phases: the subvolumes, and /boot when boot sync is enabled.
pub open spec fn total_phases(c: AppConfig) -> nat {
    c.sync.subvolumes@.len() + if c.boot.sync_enabled { 1nat } else { 0nat }
}

/// Progress points per phase: 80 spread over the phases.
pub open spec fn pct_per_phase(c: AppConfig) -> nat {
    if total_phases(c) > 0 { 80nat / total_phases(c) } else { 80nat }
}

/// Phase `i` of the sync, for subvolume `sv`.
pub open spec fn phase_ok(ph: SyncPhase, c: AppConfig, ctx: SyncContext, i: int, sv: SubvolumeConfig) -> bool {
    let mnt = ctx.mount_base@ + "-"@ + sv.name@;
    &&& ph.name@ == sv.name@
    &&& ph.mount_point@ == mnt
    &&& ph.subvol@ == sv.subvol@
    &&& ph.rsync_src@ == rsync_source_of(sv.source@)
    &&& ph.rsync_dst@ == mnt + "/"@
    &&& string_views(ph.excludes@) == excludes_of(c, sv.source@, ctx.is_primary_boot)
    &&& ph.delete == sv.delete
    &&& ph.extra_excludes == ((sv.source@ == "/home/"@ || sv.source@ == "/home"@) && sv.source@ != "/"@
        && c.sync.extra_excludes_on_primary && ctx.is_primary_boot)
    &&& ph.pct_start == 10 + i * pct_per_phase(c)
    &&& ph.pct_end == 10 + (i + 1) * pct_per_phase(c)
}

/// The subvolume phases of a sync, in the configured order.
pub fn plan_sync_phases(c: &AppConfig, ctx: &SyncContext) -> (r: Vec<SyncPhase>)
    requires
        total_phases(*c) <= 255,
    ensures
        r@.len() == c.sync.subvolumes@.len(),
        forall|i: int| 0 <= i < r@.len() ==> phase_ok(#[trigger] r@[i], *c, *ctx, i, c.sync.subvolumes@[i]),
        forall|i: int| 0 <= i < r@.len() ==> #[trigger] r@[i].delete == c.sync.subvolumes@[i].delete,
{
    let n = c.sync.subvolumes.len();
    let total: usize = n + if c.boot.sync_enabled { 1 } else { 0 };
    let pct: u8 = if total > 0 { (80 / total) as u8 } else { 80 };
    let mut out: Vec<SyncPhase> = Vec::new();
    let mut i: usize = 0;
    while i < n
        invariant
            n == c.sync.subvolumes@.len(),
            total == total_phases(*c),
            total <= 255,
            pct == pct_per_phase(*c),
            i <= n,
            out@.len() == i,
            forall|j: int| 0 <= j < i ==> phase_ok(#[trigger] out@[j], *c, *ctx, j, c.sync.subvolumes@[j]),
        decreases n - i,
    {
        let sv = &c.sync.subvolumes[i];
        let mut mnt: Vec<char> = Vec::new();
        push_str(&mut mnt, ctx.mount_base.as_str());
        push_str(&mut mnt, "-");
        push_str(&mut mnt, sv.name.as_str());
        let mut dst = crate::text::slice_chars(&mnt, 0, mnt.len());
        push_str(&mut dst, "/");
        assert(mnt@.subrange(0, mnt@.len() as int) =~= mnt@);
        let s = chars_of(sv.source.as_str());
        let is_home = (eq_str(&s, "/home/") || eq_str(&s, "/home")) && !eq_str(&s, "/");
        assert(i * pct <= 80) by (nonlinear_arith)
            requires
                i < total,
                total > 0,
                pct == 80int / (total as int),
        {
            assert(i * pct <= total * pct);
            assert(total * (80int / (total as int)) <= 80);
        }
        assert((i + 1) * pct <= 80) by (nonlinear_arith)
            requires
                i + 1 <= total,
                total > 0,
                pct == 80int / (total as int),
        {
            assert((i + 1) * pct <= total * pct);
            assert(total * (80int / (total as int)) <= 80);
        }
        let start: u8 = 10 + (i as u8) * pct;
        let end: u8 = 10 + ((i + 1) as u8) * pct;
        let ph = SyncPhase {
            name: sv.name.clone(),
            mount_point: string_of(&mnt),
            subvol: sv.subvol.clone(),
            rsync_src: rsync_source(sv.source.as_str()),
            rsync_dst: string_of(&dst),
            excludes: subvolume_excludes(c, sv.source.as_str(), ctx.is_primary_boot),
            delete: sv.delete,
            extra_excludes: is_home && c.sync.extra_excludes_on_primary && ctx.is_primary_boot,
            pct_start: start,
            pct_end: end,
        };
        out.push(ph);
        i = i + 1;
    }
    out
}

/// Progress at which the /boot phase starts.
pub fn boot_phase_pct(c: &AppConfig) -> (r: u8)
    requires
        total_phases(*c) <= 255,
    ensures
        r == 10 + c.sync.subvolumes@.len() * pct_per_phase(*c),
{
    let n = c.sync.subvolumes.len();
    let total: usize = n + if c.boot.sync_enabled { 1 } else { 0 };
    let pct: u8 = if total > 0 { (80 / total) as u8 } else { 80 };
    assert(n * pct <= 80) by (nonlinear_arith)
        requires
            n <= total,
            total > 0 ==> pct == 80int / (total as int),
            total == 0 ==> n == 0,
    {
        if total > 0 {
            assert(n * pct <= total * pct);
            assert(total * (80int / (total as int)) <= 80);
        }
    }
    10 + (n as u8) * pct
}

/// The log line that opens a phase: "Phase i/n: Sync <source> ...".
pub open spec fn phase_log_of(i: nat, total: nat, source: Seq<char>) -> Seq<char> {
    "Phase "@ + dec(i) + "/"@ + dec(total) + ": Sync "@ + source + " ..."@
}

pub fn phase_log(phase: u64, total: u64, source: &str) -> (r: String)
    ensures
        r@ == phase_log_of(phase as nat, total as nat, source@),
{
    let mut v: Vec<char> = Vec::new();
    push_str(&mut v, "Phase ");
    push_dec(&mut v, phase);
    push_str(&mut v, "/");
    push_dec(&mut v, total);
    push_str(&mut v, ": Sync ");
    push_str(&mut v, source);
    push_str(&mut v, " ...");
    string_of(&v)
}

/// The result of a finished sync.
pub fn sync_result(direction: &str, secs: u64) -> (r: CommandResult)
    ensures
        r.success,
        r.stdout@ == "Sync abgeschlossen: "@ + direction@ + " (Dauer: "@ + duration_text(secs as nat) + ")"@,
        r.stderr@.len() == 0,
        r.exit_code == 0,
{
    let d = format_duration(secs);
    let mut v: Vec<char> = Vec::new();
    push_str(&mut v, "Sync abgeschlossen: ");
    push_str(&mut v, direction);
    push_str(&mut v, " (Dauer: ");
    push_str(&mut v, d.as_str());
    push_str(&mut v, ")");
    CommandResult { success: true, stdout: string_of(&v), stderr: String::new(), exit_code: 0 }
}

// ─── Sync status ──────────────────────────────────────────────

/// The last non-empty value of `key=` lines in `systemctl show` output.
pub open spec fn show_value(ls: Seq<Seq<char>>, key: Seq<char>) -> Option<Seq<char>>
    decreases ls.len(),
{
    if ls.len() == 0 {
        None
    } else {
        match strip_prefix(ls.last(), key) {
            Some(v) if v.len() > 0 => Some(v),
            _ => show_value(ls.drop_last(), key),
        }
    }
}

fn show_value_exec(ls: &Vec<Vec<char>>, key: &str) -> (r: Option<String>)
    ensures
        match r {
            Some(v) => show_value(vviews(ls@), key@) == Some(v@),
            None => show_value(vviews(ls@), key@) is None,
        },
{
    let mut i: usize = ls.len();
    assert(vviews(ls@).take(i as int) =~= vviews(ls@));
    while i > 0
        invariant
            i <= ls@.len(),
            show_value(vviews(ls@), key@) == show_value(vviews(ls@).take(i as int), key@),
        decreases i,
    {
        let ghost t = vviews(ls@).take(i as int);
        assert(t.last() == ls@[i - 1]@);
        assert(t.drop_last() =~= vviews(ls@).take(i - 1));
        if let Some(v) = strip_prefix_str(&ls[i - 1], key) {
            if v.len() > 0 {
                return Some(string_of(&v));
            }
        }
        i = i - 1;
    }
    None
}

/// The last line that mentions a finished sync.
pub open spec fn last_sync_line(ls: Seq<Seq<char>>) -> Option<Seq<char>>
    decreases ls.len(),
{
    if ls.len() == 0 {
        None
    } else if contains(ls.last(), "Sync fertig"@) {
        Some(ls.last())
    } else {
        last_sync_line(ls.drop_last())
    }
}

/// The duration in a "… (Dauer: 1m 2s) ===" line.
pub open spec fn duration_in(line: Seq<char>) -> Option<Seq<char>> {
    match find_str(line, "(Dauer: "@) {
        Some(start) => Some(trim_end_matches(trim_end_matches(line.skip(start + 8 as int), ")"@), " ==="@)),
        None => None,
    }
}

/// The last 50 lines.
pub open spec fn tail50(ls: Seq<Seq<char>>) -> Seq<Seq<char>> {
    if ls.len() > 50 {
        ls.skip(ls.len() - 50)
    } else {
        ls
    }
}

/// The reported last sync is the newest finished one: the last line that
/// mentions "Sync fertig". When there is one, it is line `k` of `ls` for some
/// `k`, it mentions a finished sync, and no later line does; when there is
/// none, no line does.
pub proof fn law_last_sync_is_newest(ls: Seq<Seq<char>>)
    ensures
        match last_sync_line(ls) {
            Some(v) => exists|k: int| 0 <= k < ls.len() && #[trigger] ls[k] == v
                && contains(v, "Sync fertig"@)
                && forall|j: int| k < j < ls.len() ==> !contains(#[trigger] ls[j], "Sync fertig"@),
            None => forall|j: int| 0 <= j < ls.len() ==> !contains(#[trigger] ls[j], "Sync fertig"@),
        },
    decreases ls.len(),
{
    if ls.len() > 0 {
        let k = ls.len() - 1;
        if contains(ls.last(), "Sync fertig"@) {
            assert(ls[k] == ls.last());
        } else {
            let rest = ls.drop_last();
            law_last_sync_is_newest(rest);
            match last_sync_line(rest) {
                Some(v) => {
                    let k2 = choose|k2: int| 0 <= k2 < rest.len() && #[trigger] rest[k2] == v
                        && contains(v, "Sync fertig"@)
                        && forall|j: int| k2 < j < rest.len() ==> !contains(#[trigger] rest[j], "Sync fertig"@);
                    assert(ls[k2] == v);
                    assert forall|j: int| k2 < j < ls.len() implies !contains(#[trigger] ls[j], "Sync fertig"@) by {
                        if j < rest.len() {
                            assert(ls[j] == rest[j]);
                        }
                    }
                },
                None => {
                    assert forall|j: int| 0 <= j < ls.len() implies !contains(#[trigger] ls[j], "Sync fertig"@) by {
                        if j < rest.len() {
                            assert(ls[j] == rest[j]);
                        }
                    }
                },
            }
        }
    }
}

/// The timer value shown is the newest non-empty one: the last line that
/// starts with `key` followed by something. When there is one, it is what
/// follows `key` on line `k` for some `k`, and no later line starts with
/// `key` followed by something.
pub proof fn law_show_value_is_newest(ls: Seq<Seq<char>>, key: Seq<char>)
    ensures
        match show_value(ls, key) {
            Some(v) => v.len() > 0 && exists|k: int| 0 <= k < ls.len() && #[trigger] ls[k] == key + v
                && forall|j: int| k < j < ls.len() ==> !(starts_with(#[trigger] ls[j], key) && ls[j].len() > key.len()),
            None => forall|j: int| 0 <= j < ls.len() ==> !(starts_with(#[trigger] ls[j], key) && ls[j].len() > key.len()),
        },
    decreases ls.len(),
{
    if ls.len() > 0 {
        let k = ls.len() - 1;
        let l = ls.last();
        if starts_with(l, key) {
            assert(l.subrange(0, key.len() as int) == key);
            assert(key + l.skip(key.len() as int) =~= l);
        }
        match strip_prefix(l, key) {
            Some(v) if v.len() > 0 => {
                assert(ls[k] == key + v);
            },
            _ => {
                let rest = ls.drop_last();
                law_show_value_is_newest(rest, key);
                match show_value(rest, key) {
                    Some(v) => {
                        let k2 = choose|k2: int| 0 <= k2 < rest.len() && #[trigger] rest[k2] == key + v
                            && forall|j: int| k2 < j < rest.len() ==> !(starts_with(#[trigger] rest[j], key) && rest[j].len() > key.len());
                        assert(ls[k2] == key + v);
                        assert forall|j: int| k2 < j < ls.len() implies !(starts_with(#[trigger] ls[j], key) && ls[j].len() > key.len()) by {
                            if j < rest.len() {
                                assert(ls[j] == rest[j]);
                            }
                        }
                    },
                    None => {
                        assert forall|j: int| 0 <= j < ls.len() implies !(starts_with(#[trigger] ls[j], key) && ls[j].len() > key.len()) by {
                            if j < rest.len() {
                                assert(ls[j] == rest[j]);
                            }
                        }
                    },
                }
            },
        }
    }
}

/// The log tail is the last 50 lines, or all when there are fewer.
pub proof fn law_tail_is_last_lines(ls: Seq<Seq<char>>)
    ensures
        tail50(ls).len() == if ls.len() > 50 { 50 } else { ls.len() },
        forall|i: int| 0 <= i < tail50(ls).len() ==> #[trigger] tail50(ls)[i] == ls[ls.len() - tail50(ls).len() + i],
{
}

fn find_last_sync(tail: &Vec<String>) -> (r: Option<String>)
    ensures
        match r {
            Some(v) => last_sync_line(string_views(tail@)) == Some(v@),
            None => last_sync_line(string_views(tail@)) is None,
        },
{
    let mut j: usize = tail.len();
    let ghost tv = string_views(tail@);
    assert(tv.take(j as int) =~= tv);
    while j > 0
        invariant
            j <= tail@.len(),
            tv == string_views(tail@),
            last_sync_line(tv) == last_sync_line(tv.take(j as int)),
        decreases j,
    {
        let ghost t = tv.take(j as int);
        assert(t.last() == tail@[j - 1]@);
        assert(t.drop_last() =~= tv.take(j - 1));
        if contains_str(&chars_of(tail[j - 1].as_str()), "Sync fertig") {
            return Some(tail[j - 1].clone());
        }
        j = j - 1;
    }
    None
}

/// The sync status shown: timer state and times, the log's tail, the last
/// finished sync and its duration, the direction from the booted disk.
pub open spec fn status_ok(r: SyncStatus, c: AppConfig, timer_state: Seq<char>, timer_show: Seq<char>, log: Seq<char>, boot: Seq<char>, running: bool) -> bool {
    let tail = tail50(lines(log));
    let last = last_sync_line(tail);
    &&& r.timer_active == (trim(timer_state) == "active"@)
    &&& (match r.timer_next {
        Some(v) => show_value(lines(timer_show), "NextElapseUSecRealtime="@) == Some(v@),
        None => show_value(lines(timer_show), "NextElapseUSecRealtime="@) is None,
    })
    &&& (match r.timer_last_trigger {
        Some(v) => show_value(lines(timer_show), "LastTriggerUSec="@) == Some(v@),
        None => show_value(lines(timer_show), "LastTriggerUSec="@) is None,
    })
    &&& string_views(r.log_tail@) == tail
    &&& (match r.last_sync {
        Some(v) => last == Some(v@),
        None => last is None,
    })
    &&& (match r.last_duration {
        Some(v) => last is Some && duration_in(last->0) == Some(v@),
        None => last is None || duration_in(last->0) is None,
    })
    &&& r.direction@ == disk_label_text(boot, c) + " -> "@ + (if boot == c.disks.primary_uuid@ {
        c.disks.backup_label@
    } else {
        c.disks.primary_label@
    })
    &&& r.sync_running == running
}

/// The sync status from the timer's state (`systemctl is-active`), its times
/// (`systemctl show`), the sync log, the booted root UUID and whether a sync runs.
pub fn get_sync_status_internal(c: &AppConfig, timer_state: &str, timer_show: &str, log_content: &str, boot_uuid: &str, running: bool) -> (r: SyncStatus)
    ensures
        status_ok(r, *c, timer_state@, timer_show@, log_content@, boot_uuid@, running),
{
    let active = eq_str(&trim_chars(&chars_of(timer_state)), "active");
    let show = split_lines(&chars_of(timer_show));
    let timer_next = show_value_exec(&show, "NextElapseUSecRealtime=");
    let timer_last_trigger = show_value_exec(&show, "LastTriggerUSec=");
    let all = split_lines(&chars_of(log_content));
    let start: usize = if all.len() > 50 { all.len() - 50 } else { 0 };
    let mut tail: Vec<String> = Vec::new();
    let mut k: usize = start;
    while k < all.len()
        invariant
            start <= k <= all@.len(),
            string_views(tail@) == vviews(all@).subrange(start as int, k as int),
        decreases all.len() - k,
    {
        let ghost before = tail@;
        tail.push(string_of(&all[k]));
        assert(string_views(tail@) =~= string_views(before).push(all@[k as int]@));
        assert(vviews(all@).subrange(start as int, k + 1) =~= vviews(all@).subrange(start as int, k as int).push(all@[k as int]@));
        k = k + 1;
    }
    assert(vviews(all@).subrange(start as int, all@.len() as int) =~= tail50(vviews(all@)));
    let last_sync = find_last_sync(&tail);
    let last_duration = match &last_sync {
        Some(line) => {
            let l = chars_of(line.as_str());
            let key = chars_of("(Dauer: ");
            match find_str_exec(&l, &key) {
                Some(st) => {
                    proof {
                        reveal_strlit("(Dauer: ");
                    }
                    let n = l.len();
                    let rest = slice_chars(&l, st + 8, n);
                    assert(rest@ =~= l@.skip(st + 8 as int));
                    let rest = trim_end_matches_exec(&rest, ")");
                    let rest = trim_end_matches_exec(&rest, " ===");
                    Some(string_of(&rest))
                },
                None => None,
            }
        },
        None => None,
    };
    let boot = String::from_str(boot_uuid);
    let mut d: Vec<char> = Vec::new();
    push_str(&mut d, disk_label(boot_uuid, c).as_str());
    push_str(&mut d, " -> ");
    if string_eq(&boot, &c.disks.primary_uuid) {
        push_str(&mut d, c.disks.backup_label.as_str());
    } else {
        push_str(&mut d, c.disks.primary_label.as_str());
    }
    SyncStatus {
        last_sync,
        last_duration,
        timer_active: active,
        timer_next,
        timer_last_trigger,
        direction: string_of(&d),
        log_tail: tail,
        sync_running: running,
    }
}

// ─── Rollback ─────────────────────────────────────────────────

/// Paths of a rollback under the mounted top-level subvolume `tmpdir`.
pub struct RollbackPaths {
    /// `<tmpdir>/.snapshots/<id>/snapshot`
    pub snap_path: String,
    /// `<root>.broken-<timestamp>`
    pub broken_name: String,
    /// `<tmpdir>/<root>`
    pub current_at: String,
    /// `<tmpdir>/<broken_name>`
    pub broken_path: String,
}

pub fn rollback_paths(tmpdir: &str, root_subvol: &str, snap_id: u32, timestamp: &str) -> (r: RollbackPaths)
    ensures
        r.snap_path@ == tmpdir@ + "/.snapshots/"@ + dec(snap_id as nat) + "/snapshot"@,
        r.broken_name@ == root_subvol@ + ".broken-"@ + timestamp@,
        r.current_at@ == tmpdir@ + "/"@ + root_subvol@,
        r.broken_path@ == tmpdir@ + "/"@ + root_subvol@ + ".broken-"@ + timestamp@,
{
    let mut sp: Vec<char> = Vec::new();
    push_str(&mut sp, tmpdir);
    push_str(&mut sp, "/.snapshots/");
    push_dec(&mut sp, snap_id as u64);
    push_str(&mut sp, "/snapshot");
    let mut bn: Vec<char> = Vec::new();
    push_str(&mut bn, root_subvol);
    push_str(&mut bn, ".broken-");
    push_str(&mut bn, timestamp);
    let mut ca: Vec<char> = Vec::new();
    push_str(&mut ca, tmpdir);
    push_str(&mut ca, "/");
    push_str(&mut ca, root_subvol);
    let mut bp: Vec<char> = Vec::new();
    push_str(&mut bp, tmpdir);
    push_str(&mut bp, "/");
    push_all(&mut bp, &bn);
    assert(bp@ =~= tmpdir@ + "/"@ + root_subvol@ + ".broken-"@ + timestamp@);
    RollbackPaths {
        snap_path: string_of(&sp),
        broken_name: string_of(&bn),
        current_at: string_of(&ca),
        broken_path: string_of(&bp),
    }
}

/// `a` sorts before or equal to `b` (code point order, which is byte order in UTF-8).
pub open spec fn lex_le(a: Seq<char>, b: Seq<char>) -> bool
    decreases a.len(),
{
    if a.len() == 0 {
        true
    } else if b.len() == 0 {
        false
    } else if a[0] != b[0] {
        (a[0] as u32) < (b[0] as u32)
    } else {
        lex_le(a.drop_first(), b.drop_first())
    }
}

/// `x` inserted before the first element that sorts after it.
pub open spec fn insert_sorted(s: Seq<Seq<char>>, x: Seq<char>) -> Seq<Seq<char>>
    decreases s.len(),
{
    if s.len() == 0 {
        seq![x]
    } else if !lex_le(s[0], x) {
        seq![x] + s
    } else {
        seq![s[0]] + insert_sorted(s.drop_first(), x)
    }
}

/// The elements in sorted order.
pub open spec fn sorted(s: Seq<Seq<char>>) -> Seq<Seq<char>>
    decreases s.len(),
{
    if s.len() == 0 {
        seq![]
    } else {
        insert_sorted(sorted(s.drop_last()), s.last())
    }
}

pub(crate) fn lex_le_exec(a: &Vec<char>, b: &Vec<char>) -> (r: bool)
    ensures
        r == lex_le(a@, b@),
{
    let mut i: usize = 0;
    assert(a@.skip(0) =~= a@);
    assert(b@.skip(0) =~= b@);
    while i < a.len() && i < b.len() && a[i] == b[i]
        invariant
            i <= a@.len(),
            i <= b@.len(),
            lex_le(a@, b@) == lex_le(a@.skip(i as int), b@.skip(i as int)),
        decreases a.len() - i,
    {
        assert(a@.skip(i as int).drop_first() =~= a@.skip(i + 1));
        assert(b@.skip(i as int).drop_first() =~= b@.skip(i + 1));
        i = i + 1;
    }
    if i == a.len() {
        return true;
    }
    if i == b.len() {
        return false;
    }
    assert(a@.skip(i as int)[0] == a@[i as int]);
    assert(b@.skip(i as int)[0] == b@[i as int]);
    (a[i] as u32) < (b[i] as u32)
}

pub(crate) fn insert_sorted_exec(s: Vec<Vec<char>>, x: Vec<char>) -> (r: Vec<Vec<char>>)
    ensures
        vviews(r@) == insert_sorted(vviews(s@), x@),
{
    let mut k: usize = 0;
    assert(vviews(s@).skip(0) =~= vviews(s@));
    assert(vviews(s@).take(0) + insert_sorted(vviews(s@), x@) =~= insert_sorted(vviews(s@), x@));
    while k < s.len() && lex_le_exec(&s[k], &x)
        invariant
            k <= s@.len(),
            insert_sorted(vviews(s@), x@) == vviews(s@).take(k as int) + insert_sorted(vviews(s@).skip(k as int), x@),
        decreases s.len() - k,
    {
        let ghost rest = vviews(s@).skip(k as int);
        assert(rest[0] == s@[k as int]@);
        assert(rest.drop_first() =~= vviews(s@).skip(k + 1));
        assert(vviews(s@).take(k + 1) =~= vviews(s@).take(k as int).push(s@[k as int]@));
        assert(vviews(s@).take(k as int) + insert_sorted(rest, x@) =~= vviews(s@).take(k + 1) + insert_sorted(vviews(s@).skip(k + 1), x@));
        k = k + 1;
    }
    let mut r = s;
    let ghost before = vviews(r@);
    r.insert(k, x);
    proof {
        let rest = before.skip(k as int);
        if k < before.len() {
            assert(rest[0] == before[k as int]);
        }
        assert(vviews(r@) =~= before.take(k as int) + insert_sorted(rest, x@));
    }
    r
}

/// The lines of `ls -d <root>.broken-*` output that go so that only the
/// newest `keep` backups stay: the oldest ones, by name (which holds the time).
pub open spec fn old_broken_of(out: Seq<char>, keep: nat) -> Seq<Seq<char>> {
    let s = sorted(lines(out));
    if s.len() > keep {
        s.take(s.len() - keep)
    } else {
        seq![]
    }
}

pub fn old_broken_backups(ls_output: &str, keep: usize) -> (r: Vec<String>)
    ensures
        string_views(r@) == old_broken_of(ls_output@, keep as nat),
{
    let ls = split_lines(&chars_of(ls_output));
    let mut s: Vec<Vec<char>> = Vec::new();
    let mut i: usize = 0;
    while i < ls.len()
        invariant
            i <= ls@.len(),
            vviews(s@) == sorted(vviews(ls@).take(i as int)),
        decreases ls.len() - i,
    {
        assert(vviews(ls@).take(i + 1).drop_last() =~= vviews(ls@).take(i as int));
        assert(vviews(ls@).take(i + 1).last() == ls@[i as int]@);
        let l = slice_chars(&ls[i], 0, ls[i].len());
        assert(l@ =~= ls@[i as int]@);
        s = insert_sorted_exec(s, l);
        i = i + 1;
    }
    assert(vviews(ls@).take(ls@.len() as int) =~= vviews(ls@));
    let mut out: Vec<String> = Vec::new();
    if s.len() > keep {
        let n = s.len() - keep;
        let mut k: usize = 0;
        while k < n
            invariant
                k <= n,
                n <= s@.len(),
                string_views(out@) == vviews(s@).take(k as int),
            decreases n - k,
        {
            let ghost before = out@;
            out.push(string_of(&s[k]));
            assert(string_views(out@) =~= string_views(before).push(s@[k as int]@));
            assert(vviews(s@).take(k + 1) =~= vviews(s@).take(k as int).push(s@[k as int]@));
            k = k + 1;
        }
    }
    proof {
        lemma_sorted_len(lines(ls_output@));
    }
    out
}

proof fn lemma_insert_sorted_len(s: Seq<Seq<char>>, x: Seq<char>)
    ensures
        insert_sorted(s, x).len() == s.len() + 1,
    decreases s.len(),
{
    if s.len() > 0 && lex_le(s[0], x) {
        lemma_insert_sorted_len(s.drop_first(), x);
    }
}

proof fn lemma_sorted_len(s: Seq<Seq<char>>)
    ensures
        sorted(s).len() == s.len(),
    decreases s.len(),
{
    if s.len() > 0 {
        lemma_sorted_len(s.drop_last());
        lemma_insert_sorted_len(sorted(s.drop_last()), s.last());
    }
}

/// What a successful rollback reports, with the recovery steps.
pub open spec fn rollback_report_of(snap_id: nat, broken: Seq<char>, changed: nat, recovery_label: Seq<char>, boot: Seq<char>, root: Seq<char>) -> Seq<char> {
    "Rollback auf Snapshot #"@ + dec(snap_id) + " erfolgreich!\nBackup: "@ + broken + "\nGeänderte Dateien: "@
        + dec(changed) + "\n\nFalls etwas schiefgeht:\n1. Im Boot-Menü '"@ + recovery_label
        + "' wählen\n2. mount -o subvolid=5 UUID="@ + boot + " /mnt\n3. mv /mnt/"@ + root + " /mnt/"@ + root
        + ".bad\n4. mv /mnt/"@ + broken + " /mnt/"@ + root + "\n5. reboot\n\nBitte jetzt neustarten."@
}

pub fn rollback_report(snap_id: u32, broken_name: &str, changed_files: u64, recovery_label: &str, boot_uuid: &str, root_subvol: &str) -> (r: String)
    ensures
        r@ == rollback_report_of(snap_id as nat, broken_name@, changed_files as nat, recovery_label@, boot_uuid@, root_subvol@),
{
    let mut v: Vec<char> = Vec::new();
    push_str(&mut v, "Rollback auf Snapshot #");
    push_dec(&mut v, snap_id as u64);
    push_str(&mut v, " erfolgreich!\nBackup: ");
    push_str(&mut v, broken_name);
    push_str(&mut v, "\nGeänderte Dateien: ");
    push_dec(&mut v, changed_files);
    push_str(&mut v, "\n\nFalls etwas schiefgeht:\n1. Im Boot-Menü '");
    push_str(&mut v, recovery_label);
    push_str(&mut v, "' wählen\n2. mount -o subvolid=5 UUID=");
    push_str(&mut v, boot_uuid);
    push_str(&mut v, " /mnt\n3. mv /mnt/");
    push_str(&mut v, root_subvol);
    push_str(&mut v, " /mnt/");
    push_str(&mut v, root_subvol);
    push_str(&mut v, ".bad\n4. mv /mnt/");
    push_str(&mut v, broken_name);
    push_str(&mut v, " /mnt/");
    push_str(&mut v, root_subvol);
    push_str(&mut v, "\n5. reboot\n\nBitte jetzt neustarten.");
    string_of(&v)
}


// ─── Laws ─────────────────────────────────────────────────────

/// A sync always writes to the disk that was not booted: booting the primary
/// targets the backup, booting the backup targets the primary.
pub proof fn law_sync_targets_other_disk(c: AppConfig, boot: Seq<char>)
    requires
        c.disks.primary_uuid@ != c.disks.backup_uuid@,
    ensures
        direction_of(c, boot) matches Ok((target, _d, primary)) ==> {
            &&& target != boot
            &&& primary ==> boot == c.disks.primary_uuid@ && target == c.disks.backup_uuid@
            &&& !primary ==> boot == c.disks.backup_uuid@ && target == c.disks.primary_uuid@
        },
        (c.disks.primary_uuid@.len() > 0 && c.disks.backup_uuid@.len() > 0
            && (boot == c.disks.primary_uuid@ || boot == c.disks.backup_uuid@)) ==> direction_of(c, boot) is Ok,
{
}

/// The phases share the progress bar without gaps or overlaps: the first
/// starts at 10, each starts where the one before ended, and none runs
/// backwards.
pub proof fn law_phases_are_contiguous(c: AppConfig, ctx: SyncContext, phases: Seq<SyncPhase>)
    requires
        total_phases(c) <= 255,
        phases.len() == c.sync.subvolumes@.len(),
        forall|i: int| 0 <= i < phases.len() ==> phase_ok(#[trigger] phases[i], c, ctx, i, c.sync.subvolumes@[i]),
    ensures
        phases.len() > 0 ==> phases[0].pct_start == 10,
        forall|i: int| 0 <= i < phases.len() ==> #[trigger] phases[i].pct_start <= phases[i].pct_end,
        forall|i: int| 0 <= i < phases.len() - 1 ==> #[trigger] phases[i].pct_end == phases[i + 1].pct_start,
{
    assert forall|i: int| 0 <= i < phases.len() implies #[trigger] phases[i].pct_start <= phases[i].pct_end by {
        assert(phase_ok(phases[i], c, ctx, i, c.sync.subvolumes@[i]));
        assert(i * pct_per_phase(c) <= (i + 1) * pct_per_phase(c)) by (nonlinear_arith)
            requires i >= 0;
    }
    assert forall|i: int| 0 <= i < phases.len() - 1 implies #[trigger] phases[i].pct_end == phases[i + 1].pct_start by {
        assert(phase_ok(phases[i], c, ctx, i, c.sync.subvolumes@[i]));
        assert(phase_ok(phases[i + 1], c, ctx, i + 1, c.sync.subvolumes@[i + 1]));
    }
    if phases.len() > 0 {
        assert(phase_ok(phases[0], c, ctx, 0, c.sync.subvolumes@[0]));
    }
}


/// Each planned phase follows its subvolume: it syncs with the subvolume's
/// delete flag (so files removed at the source go at the backup exactly when
/// the subvolume says so), mounts the subvolume's btrfs subvolume at
/// `<mount base>-<name>`, copies the source (with a trailing slash) into that
/// mount point, and leaves out the system excludes for "/" and nothing for a
/// source other than "/" or the home directory.
pub proof fn law_phase_follows_subvolume(c: AppConfig, ctx: SyncContext, phases: Seq<SyncPhase>)
    requires
        phases.len() == c.sync.subvolumes@.len(),
        forall|i: int| 0 <= i < phases.len() ==> phase_ok(#[trigger] phases[i], c, ctx, i, c.sync.subvolumes@[i]),
    ensures
        forall|i: int| 0 <= i < phases.len() ==> {
            let sv = c.sync.subvolumes@[i];
            let ph = #[trigger] phases[i];
            &&& ph.delete == sv.delete
            &&& ph.name@ == sv.name@
            &&& ph.subvol@ == sv.subvol@
            &&& ph.mount_point@ == ctx.mount_base@ + "-"@ + sv.name@
            &&& ph.rsync_dst@ == ph.mount_point@ + "/"@
            &&& ph.rsync_src@.len() > 0 && ph.rsync_src@.last() == '/'
            &&& (ph.rsync_src@ == sv.source@ || ph.rsync_src@ == sv.source@ + "/"@)
            &&& (sv.source@ == "/"@ ==> string_views(ph.excludes@) == string_views(c.sync.system_excludes@))
            &&& (sv.source@ != "/"@ && sv.source@ != "/home"@ && sv.source@ != "/home/"@ ==> ph.excludes@.len() == 0)
            &&& ((sv.source@ == "/home"@ || sv.source@ == "/home/"@) ==> string_views(ph.excludes@)
                == string_views(c.sync.home_excludes@) + if c.sync.extra_excludes_on_primary && ctx.is_primary_boot {
                    string_views(c.sync.home_extra_excludes@)
                } else {
                    Seq::<Seq<char>>::empty()
                })
        },
{
    reveal_strlit("/");
    assert forall|i: int| 0 <= i < phases.len() implies {
        let sv = c.sync.subvolumes@[i];
        let ph = #[trigger] phases[i];
        &&& ph.delete == sv.delete
        &&& ph.name@ == sv.name@
        &&& ph.subvol@ == sv.subvol@
        &&& ph.mount_point@ == ctx.mount_base@ + "-"@ + sv.name@
        &&& ph.rsync_dst@ == ph.mount_point@ + "/"@
        &&& ph.rsync_src@.len() > 0 && ph.rsync_src@.last() == '/'
        &&& (ph.rsync_src@ == sv.source@ || ph.rsync_src@ == sv.source@ + "/"@)
        &&& (sv.source@ == "/"@ ==> string_views(ph.excludes@) == string_views(c.sync.system_excludes@))
        &&& (sv.source@ != "/"@ && sv.source@ != "/home"@ && sv.source@ != "/home/"@ ==> ph.excludes@.len() == 0)
        &&& ((sv.source@ == "/home"@ || sv.source@ == "/home/"@) ==> string_views(ph.excludes@)
            == string_views(c.sync.home_excludes@) + if c.sync.extra_excludes_on_primary && ctx.is_primary_boot {
                string_views(c.sync.home_extra_excludes@)
            } else {
                Seq::<Seq<char>>::empty()
            })
    } by {
        reveal_strlit("/home");
        reveal_strlit("/home/");
        let sv = c.sync.subvolumes@[i];
        let ph = phases[i];
        assert(phase_ok(ph, c, ctx, i, sv));
        assert((sv.source@ + "/"@).last() == '/');
        if sv.source@ != "/"@ && sv.source@ != "/home"@ && sv.source@ != "/home/"@ {
            assert(string_views(ph.excludes@).len() == 0);
        }
    }
}

proof fn lemma_exclude_args(ex: Seq<Seq<char>>)
    ensures
        exclude_args(ex).len() == ex.len(),
        forall|i: int| 0 <= i < ex.len() ==> #[trigger] exclude_args(ex)[i] == "--exclude="@ + ex[i],
    decreases ex.len(),
{
    if ex.len() > 0 {
        lemma_exclude_args(ex.drop_last());
    }
}

/// rsync deletes at the destination exactly when asked to: with `delete`
/// the options `--delete` and `--delete-excluded` come right after the fixed
/// options; without it no option before source and destination is either.
/// The source and destination always come last, in that order.
pub proof fn law_rsync_deletes_only_when_asked(src: Seq<char>, dst: Seq<char>, ex: Seq<Seq<char>>, delete: bool)
    ensures
        ({
            let cmd = rsync_command(src, dst, ex, delete);
            &&& cmd.len() == 9 + ex.len() + (if delete { 2int } else { 0int })
            &&& cmd[cmd.len() - 2] == src
            &&& cmd[cmd.len() - 1] == dst
            &&& delete ==> cmd[7] == "--delete"@ && cmd[8] == "--delete-excluded"@
            &&& !delete ==> forall|i: int| 0 <= i < cmd.len() - 2
                ==> #[trigger] cmd[i] != "--delete"@ && cmd[i] != "--delete-excluded"@
        }),
{
    reveal_strlit("ionice");
    reveal_strlit("-c3");
    reveal_strlit("rsync");
    reveal_strlit("-aAX");
    reveal_strlit("--info=stats1");
    reveal_strlit("--no-inc-recursive");
    reveal_strlit("--numeric-ids");
    reveal_strlit("--delete");
    reveal_strlit("--delete-excluded");
    reveal_strlit("--exclude=");
    lemma_exclude_args(ex);
    let cmd = rsync_command(src, dst, ex, delete);
    let fixed = seq!["ionice"@, "-c3"@, "rsync"@, "-aAX"@, "--info=stats1"@, "--no-inc-recursive"@, "--numeric-ids"@];
    if !delete {
        assert forall|i: int| 0 <= i < cmd.len() - 2 implies #[trigger] cmd[i] != "--delete"@ && cmd[i] != "--delete-excluded"@ by {
            if i < 7 {
                assert(cmd[i] == fixed[i]);
            } else {
                let e = exclude_args(ex)[i - 7];
                assert(cmd[i] == e);
                assert(e == "--exclude="@ + ex[i - 7]);
                assert(e[2] == 'e');
                assert("--delete"@[2] == 'd');
                assert("--delete-excluded"@[2] == 'd');
            }
        }
    }
}

/// Ascending in code-point order.
pub open spec fn ascending(s: Seq<Seq<char>>) -> bool {
    forall|i: int, j: int| 0 <= i < j < s.len() ==> lex_le(#[trigger] s[i], #[trigger] s[j])
}

pub(crate) proof fn lemma_lex_total(a: Seq<char>, b: Seq<char>)
    ensures
        lex_le(a, b) || lex_le(b, a),
    decreases a.len(),
{
    if a.len() > 0 && b.len() > 0 && a[0] == b[0] {
        lemma_lex_total(a.drop_first(), b.drop_first());
    }
    if a.len() > 0 && b.len() > 0 && a[0] != b[0] {
        lemma_char_code_injective(a[0], b[0]);
    }
}

/// Distinct characters have distinct code points.
proof fn lemma_char_code_injective(x: char, y: char)
    requires
        x != y,
    ensures
        (x as u32) != (y as u32),
{
}

pub(crate) proof fn lemma_lex_trans(a: Seq<char>, b: Seq<char>, c: Seq<char>)
    requires
        lex_le(a, b),
        lex_le(b, c),
    ensures
        lex_le(a, c),
    decreases a.len(),
{
    if a.len() > 0 && b.len() > 0 && c.len() > 0 && a[0] == b[0] && b[0] == c[0] {
        lemma_lex_trans(a.drop_first(), b.drop_first(), c.drop_first());
    }
}

/// Inserting puts `x` at one position and moves nothing else.
proof fn lemma_insert_pos(s: Seq<Seq<char>>, x: Seq<char>) -> (k: int)
    ensures
        0 <= k <= s.len(),
        insert_sorted(s, x) == s.insert(k, x),
    decreases s.len(),
{
    if s.len() == 0 {
        assert(s.insert(0, x) =~= seq![x]);
        0
    } else if !lex_le(s[0], x) {
        assert(s.insert(0, x) =~= seq![x] + s);
        0
    } else {
        let k = lemma_insert_pos(s.drop_first(), x);
        assert(seq![s[0]] + s.drop_first().insert(k, x) =~= s.insert(k + 1, x));
        k + 1
    }
}

proof fn lemma_insert_ascending(s: Seq<Seq<char>>, x: Seq<char>)
    requires
        ascending(s),
    ensures
        ascending(insert_sorted(s, x)),
    decreases s.len(),
{
    if s.len() == 0 {
    } else if !lex_le(s[0], x) {
        lemma_lex_total(s[0], x);
        let r = seq![x] + s;
        assert forall|i: int, j: int| 0 <= i < j < r.len() implies lex_le(#[trigger] r[i], #[trigger] r[j]) by {
            if i == 0 {
                if j > 1 {
                    lemma_lex_trans(x, s[0], s[j - 1]);
                }
            } else {
                assert(r[i] == s[i - 1] && r[j] == s[j - 1]);
            }
        }
    } else {
        let t = s.drop_first();
        assert(ascending(t)) by {
            assert forall|i: int, j: int| 0 <= i < j < t.len() implies lex_le(#[trigger] t[i], #[trigger] t[j]) by {
                assert(t[i] == s[i + 1] && t[j] == s[j + 1]);
            }
        }
        lemma_insert_ascending(t, x);
        let k = lemma_insert_pos(t, x);
        let rest = insert_sorted(t, x);
        let r = seq![s[0]] + rest;
        assert forall|j: int| 0 <= j < rest.len() implies lex_le(s[0], #[trigger] rest[j]) by {
            if j < k {
                assert(rest[j] == t[j]);
                assert(s[j + 1] == t[j]);
            } else if j > k {
                assert(rest[j] == t[j - 1]);
                assert(s[j] == t[j - 1]);
            }
        }
        assert forall|i: int, j: int| 0 <= i < j < r.len() implies lex_le(#[trigger] r[i], #[trigger] r[j]) by {
            if i == 0 {
                assert(r[j] == rest[j - 1]);
            } else {
                assert(r[i] == rest[i - 1] && r[j] == rest[j - 1]);
            }
        }
    }
}

proof fn lemma_sorted_props(s: Seq<Seq<char>>)
    ensures
        ascending(sorted(s)),
        sorted(s).to_multiset() == s.to_multiset(),
    decreases s.len(),
{
    broadcast use vstd::seq_lib::group_to_multiset_ensures;
    if s.len() > 0 {
        lemma_sorted_props(s.drop_last());
        lemma_insert_ascending(sorted(s.drop_last()), s.last());
        let k = lemma_insert_pos(sorted(s.drop_last()), s.last());
        vstd::seq_lib::to_multiset_insert(sorted(s.drop_last()), k, s.last());
        assert(s.drop_last().push(s.last()) =~= s);
    }
}

/// Cleaning up after a rollback keeps the newest `keep` broken backups:
/// it removes all the others and only them, and every removed one is older
/// (sorts before) every kept one.
pub proof fn law_rollback_keeps_newest(ls_output: Seq<char>, keep: nat)
    ensures
        ({
            let all = lines(ls_output);
            let n = all.len();
            let removed = old_broken_of(ls_output, keep);
            let kept = sorted(all).skip(removed.len() as int);
            &&& removed.len() == (if n > keep { (n - keep) as nat } else { 0 })
            &&& kept.len() == (if n > keep { keep } else { n })
            &&& (removed + kept).to_multiset() == all.to_multiset()
            &&& forall|i: int, j: int| 0 <= i < removed.len() && 0 <= j < kept.len()
                ==> lex_le(#[trigger] removed[i], #[trigger] kept[j])
        }),
{
    let all = lines(ls_output);
    lemma_sorted_props(all);
    lemma_sorted_len(all);
    let s = sorted(all);
    let removed = old_broken_of(ls_output, keep);
    assert(removed == s.take(removed.len() as int));
    assert(removed + s.skip(removed.len() as int) =~= s);
    let kept = s.skip(removed.len() as int);
    assert forall|i: int, j: int| 0 <= i < removed.len() && 0 <= j < kept.len()
        implies lex_le(#[trigger] removed[i], #[trigger] kept[j]) by {
        assert(removed[i] == s[i]);
        assert(kept[j] == s[removed.len() + j]);
    }
}


// ─── The elevated sync process ────────────────────────────────

/// One line the elevated sync process prints, as read from its JSON: a
/// progress event, a byte-count event, the final result (each field when
/// present with the right type), or anything else.
#[derive(Clone, Debug)]
pub enum RelayLine {
    Progress { step: Option<String>, detail: Option<String>, percent: Option<u64> },
    Bytes { phase: Option<String>, bytes: Option<u64>, pct: Option<u64>, speed: Option<String> },
    Result { success: Option<bool>, stdout: Option<String>, stderr: Option<String>, exit_code: Option<i64> },
    Other,
}

/// The command result a result line carries: missing fields read as false
/// and empty text, and an exit code that is missing or does not fit in 32
/// bits as -1.
pub open spec fn result_of_line(success: Option<bool>, stdout: Option<String>, stderr: Option<String>, exit_code: Option<i64>) -> (bool, Seq<char>, Seq<char>, i32) {
    (
        match success { Some(b) => b, None => false },
        match stdout { Some(t) => t@, None => seq![] },
        match stderr { Some(t) => t@, None => seq![] },
        match exit_code {
            Some(n) => if i32::MIN <= n <= i32::MAX { n as i32 } else { -1i32 },
            None => -1i32,
        },
    )
}

/// The result of the last result line, if any.
pub open spec fn last_result(ls: Seq<RelayLine>) -> Option<(bool, Seq<char>, Seq<char>, i32)>
    decreases ls.len(),
{
    if ls.len() == 0 {
        None
    } else {
        match ls.last() {
            RelayLine::Result { success, stdout, stderr, exit_code } => Some(result_of_line(success, stdout, stderr, exit_code)),
            _ => last_result(ls.drop_last()),
        }
    }
}

pub open spec fn result_view(r: CommandResult) -> (bool, Seq<char>, Seq<char>, i32) {
    (r.success, r.stdout@, r.stderr@, r.exit_code)
}

/// The final result among the lines the elevated process printed: the last
/// result line wins.
pub fn final_relay_result(lines: &[RelayLine]) -> (r: Option<CommandResult>)
    ensures
        match r {
            Some(c) => last_result(lines@) == Some(result_view(c)),
            None => last_result(lines@) is None,
        },
{
    let mut k: usize = lines.len();
    assert(lines@.take(lines@.len() as int) =~= lines@);
    while k > 0
        invariant
            k <= lines@.len(),
            last_result(lines@) == last_result(lines@.take(k as int)),
        decreases k,
    {
        let ghost pre = lines@.take(k as int);
        assert(pre.drop_last() =~= lines@.take(k - 1));
        assert(pre.last() == lines@[k - 1]);
        match &lines[k - 1] {
            RelayLine::Result { success, stdout, stderr, exit_code } => {
                let code: i32 = match exit_code {
                    Some(n) => if i32::MIN as i64 <= *n && *n <= i32::MAX as i64 { *n as i32 } else { -1 },
                    None => -1,
                };
                return Some(CommandResult {
                    success: match success { Some(b) => *b, None => false },
                    stdout: match stdout { Some(t) => t.clone(), None => String::new() },
                    stderr: match stderr { Some(t) => t.clone(), None => String::new() },
                    exit_code: code,
                });
            },
            _ => {},
        }
        k = k - 1;
    }
    assert(lines@.take(lines@.len() as int) =~= lines@);
    None
}

/// The first ten lines of a text, joined by newlines.
pub open spec fn head10(t: Seq<char>) -> Seq<char> {
    let ls = lines(t);
    join(if ls.len() > 10 { ls.take(10) } else { ls }, "\n"@)
}

/// What a run of the elevated process yields: its final result; without one,
/// "Abgeschlossen" with its stderr when it exited successfully, otherwise an
/// error with its exit code (-1 when it has none) and the first ten lines of
/// its stderr.
pub fn relay_outcome(final_result: Option<CommandResult>, exited_ok: bool, exit_code: Option<i32>, stderr: &str) -> (r: Result<CommandResult, String>)
    ensures
        match final_result {
            Some(c) => r matches Ok(x) && result_view(x) == result_view(c),
            None => if exited_ok {
                r matches Ok(x) && result_view(x) == (true, "Abgeschlossen"@, stderr@, 0i32)
            } else {
                r matches Err(m) && m@ == "elevated exit="@ + int_text(match exit_code { Some(n) => n as int, None => -1 }) + ": "@ + head10(stderr@)
            },
        },
{
    match final_result {
        Some(c) => Ok(c),
        None => if exited_ok {
            Ok(CommandResult { success: true, stdout: "Abgeschlossen".to_string(), stderr: stderr.to_string(), exit_code: 0 })
        } else {
            let mut m = chars_of("elevated exit=");
            push_int(&mut m, match exit_code { Some(n) => n, None => -1 });
            push_str(&mut m, ": ");
            let ls = split_lines(&chars_of(stderr));
            let mut first: Vec<Vec<char>> = Vec::new();
            let mut i: usize = 0;
            let n: usize = if ls.len() > 10 { 10 } else { ls.len() };
            while i < n
                invariant
                    i <= n,
                    n <= ls@.len(),
                    n == (if ls@.len() > 10 { 10 } else { ls@.len() }),
                    vviews(first@) == vviews(ls@).take(i as int),
                decreases n - i,
            {
                let ghost before = first@;
                first.push(slice_chars(&ls[i], 0, ls[i].len()));
                assert(ls@[i as int]@.subrange(0, ls@[i as int]@.len() as int) =~= ls@[i as int]@);
                assert(vviews(first@) =~= vviews(before).push(ls@[i as int]@));
                assert(vviews(ls@).take(i + 1) =~= vviews(ls@).take(i as int).push(ls@[i as int]@));
                i = i + 1;
            }
            assert(ls@.len() <= 10 ==> vviews(ls@).take(n as int) =~= vviews(ls@));
            let j = join_chars(&first, "\n");
            push_all(&mut m, &j);
            Err(string_of(&m))
        },
    }
}
} // verus!
