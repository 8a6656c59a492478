//! The course of a sync run and of a rollback, as steps: from the stage a run
//! is in and the outcome of the last action to the next stage and action.
//! The caller performs each action (mounting, rsync, moving subvolumes) and
//! hands the outcome back.

use vstd::prelude::*;
use vstd::string::*;
use crate::config::{AppConfig, SubvolumeConfig};
use crate::sync::{
    old_broken_backups, old_broken_of, phase_log, phase_log_of, rsync_stats, stats_lines, total_phases,
    RollbackPaths, SyncContext,
};
use crate::helpers::string_views;
use crate::text::{chars_of, dec, eq_str, join, lines, push_dec, push_str, string_of};

verus! {

/// The text of an optional message.
pub open spec fn opt_text(o: Option<String>) -> Option<Seq<char>> {
    match o {
        Some(s) => Some(s@),
        None => None,
    }
}

// ─── Sync run ─────────────────────────────────────────────────

/// Where a sync run stands. `Mounting(i)` and `Copying(i)` wait for the
/// outcome of mounting, resp. copying, subvolume phase `i`.
#[derive(Debug, Clone, Copy, PartialEq, Eq, Structural)]
pub enum SyncStage {
    Start,
    Mounting(usize),
    Copying(usize),
    BootMounting,
    BootCopying,
    Done,
    Failed,
}

/// What to unmount before the next step.
#[derive(Debug, Clone, Copy, PartialEq, Eq, Structural)]
pub enum Release {
    Nothing,
    /// The mount point of subvolume phase `i`.
    Subvolume(usize),
    /// The backup EFI partition at /tmp/backsnap-boot.
    Boot,
}

/// The next thing to do.
#[derive(Debug, Clone, Copy, PartialEq, Eq, Structural)]
pub enum SyncStep {
    /// Mount the backup subvolume of phase `i` at its mount point.
    Mount(usize),
    /// Run the rsync command of phase `i`.
    Copy(usize),
    /// Mount the backup EFI partition at /tmp/backsnap-boot.
    MountBoot,
    /// Copy /boot/ to the mounted EFI partition.
    CopyBoot,
    /// The sync succeeded.
    Finish,
    /// The sync failed with the action's error.
    Abort,
    /// The run is over; nothing more to do.
    Stop,
}

pub struct SyncAction {
    pub release: Release,
    pub step: SyncStep,
    /// The error the run ends with (with `SyncStep::Abort`).
    pub error: Option<String>,
    /// A warning for the log; the run goes on.
    pub warning: Option<String>,
    /// Lines for the sync log.
    pub log: Vec<String>,
}

/// Subvolume phase indices of a stage lie below the number of phases.
pub open spec fn stage_valid(n: nat, st: SyncStage) -> bool {
    match st {
        SyncStage::Mounting(i) => i < n,
        SyncStage::Copying(i) => i < n,
        _ => true,
    }
}

/// The stage and step that begin phase `i`: the next subvolume, else /boot
/// when boot sync is on, else the end.
pub open spec fn enter_phase(n: nat, boot: bool, i: nat) -> (SyncStage, SyncStep) {
    if i < n {
        (SyncStage::Mounting(i as usize), SyncStep::Mount(i as usize))
    } else if boot {
        (SyncStage::BootMounting, SyncStep::MountBoot)
    } else {
        (SyncStage::Done, SyncStep::Finish)
    }
}

/// The next stage, what to release, the next step, the error and the warning,
/// after the last action succeeded (`ok`) or failed with `detail`.
/// A failed subvolume mount or copy ends the run with its error; the /boot
/// phase only warns.
pub open spec fn sync_next(n: nat, boot: bool, efi: Seq<char>, st: SyncStage, ok: bool, detail: Seq<char>)
    -> (SyncStage, Release, SyncStep, Option<Seq<char>>, Option<Seq<char>>)
{
    match st {
        SyncStage::Start => {
            let e = enter_phase(n, boot, 0);
            (e.0, Release::Nothing, e.1, None, None)
        },
        SyncStage::Mounting(i) => if ok {
            (SyncStage::Copying(i), Release::Nothing, SyncStep::Copy(i), None, None)
        } else {
            (SyncStage::Failed, Release::Nothing, SyncStep::Abort, Some(detail), None)
        },
        SyncStage::Copying(i) => if ok {
            let e = enter_phase(n, boot, (i + 1) as nat);
            (e.0, Release::Subvolume(i), e.1, None, None)
        } else {
            (SyncStage::Failed, Release::Subvolume(i), SyncStep::Abort, Some(detail), None)
        },
        SyncStage::BootMounting => if ok {
            (SyncStage::BootCopying, Release::Nothing, SyncStep::CopyBoot, None, None)
        } else {
            (SyncStage::Done, Release::Boot, SyncStep::Finish, None,
                Some("WARNUNG: Konnte Backup-EFI "@ + efi + " nicht mounten: "@ + detail))
        },
        SyncStage::BootCopying => if ok {
            (SyncStage::Done, Release::Boot, SyncStep::Finish, None, None)
        } else {
            (SyncStage::Done, Release::Boot, SyncStep::Finish, None, Some("WARNUNG Boot-Sync: "@ + detail))
        },
        _ => (st, Release::Nothing, SyncStep::Stop, None, None),
    }
}

/// The extra home excludes apply to subvolume `sv` (the log says so).
pub open spec fn extra_excludes_used(c: AppConfig, ctx: SyncContext, sv: SubvolumeConfig) -> bool {
    (sv.source@ == "/home/"@ || sv.source@ == "/home"@) && c.sync.extra_excludes_on_primary && ctx.is_primary_boot
}

/// The log line that opens phase `i` (counting from 0): a subvolume, or /boot.
pub open spec fn enter_log(c: AppConfig, i: nat) -> Seq<Seq<char>> {
    let n = c.sync.subvolumes@.len();
    if i < n {
        seq![phase_log_of(i + 1, total_phases(c), c.sync.subvolumes@[i as int].source@)]
    } else if c.boot.sync_enabled {
        seq![phase_log_of(total_phases(c), total_phases(c), "/boot"@)]
    } else {
        seq![]
    }
}

/// The sync log lines of a step (besides its warning).
pub open spec fn sync_log_of(c: AppConfig, ctx: SyncContext, st: SyncStage, ok: bool, detail: Seq<char>) -> Seq<Seq<char>> {
    match st {
        SyncStage::Start => enter_log(c, 0),
        SyncStage::Mounting(i) => {
            let sv = c.sync.subvolumes@[i as int];
            if ok {
                if extra_excludes_used(c, ctx, sv) {
                    seq!["Phase "@ + dec((i + 1) as nat) + "/"@ + dec(total_phases(c)) + ": "@ + sv.source@ + " (mit Extra-Excludes)"@]
                } else {
                    seq![]
                }
            } else {
                seq!["FEHLER mount "@ + sv.subvol@ + ": "@ + detail]
            }
        },
        SyncStage::Copying(i) => {
            let sv = c.sync.subvolumes@[i as int];
            if ok {
                seq![sv.name@ + " OK. "@ + join(stats_lines(lines(detail)), " | "@)] + enter_log(c, (i + 1) as nat)
            } else {
                seq!["FEHLER "@ + sv.name@ + "-Sync: "@ + detail]
            }
        },
        SyncStage::BootCopying => if ok { seq!["Boot OK."@] } else { seq![] },
        _ => seq![],
    }
}

fn text_line(v: &Vec<char>) -> (r: Vec<String>)
    ensures
        string_views(r@) == seq![v@],
{
    let mut out: Vec<String> = Vec::new();
    out.push(string_of(v));
    assert(string_views(out@) =~= seq![v@]);
    out
}

fn no_lines() -> (r: Vec<String>)
    ensures
        string_views(r@) == Seq::<Seq<char>>::empty(),
{
    let out: Vec<String> = Vec::new();
    assert(string_views(out@) =~= Seq::<Seq<char>>::empty());
    out
}

fn enter_log_exec(c: &AppConfig, i: usize) -> (r: Vec<String>)
    requires
        total_phases(*c) <= 255,
    ensures
        string_views(r@) == enter_log(*c, i as nat),
{
    let n = c.sync.subvolumes.len();
    let total: u64 = n as u64 + if c.boot.sync_enabled { 1 } else { 0 };
    if i < n {
        let l = phase_log(i as u64 + 1, total, c.sync.subvolumes[i].source.as_str());
        let mut out: Vec<String> = Vec::new();
        out.push(l);
        assert(string_views(out@) =~= enter_log(*c, i as nat));
        out
    } else if c.boot.sync_enabled {
        let l = phase_log(total, total, "/boot");
        let mut out: Vec<String> = Vec::new();
        out.push(l);
        assert(string_views(out@) =~= enter_log(*c, i as nat));
        out
    } else {
        no_lines()
    }
}

fn sync_log_exec(c: &AppConfig, ctx: &SyncContext, st: SyncStage, ok: bool, detail: &str) -> (r: Vec<String>)
    requires
        total_phases(*c) <= 255,
        stage_valid(c.sync.subvolumes@.len(), st),
    ensures
        string_views(r@) == sync_log_of(*c, *ctx, st, ok, detail@),
{
    let n = c.sync.subvolumes.len();
    let total: u64 = n as u64 + if c.boot.sync_enabled { 1 } else { 0 };
    match st {
        SyncStage::Start => enter_log_exec(c, 0),
        SyncStage::Mounting(i) => {
            let sv = &c.sync.subvolumes[i];
            if ok {
                let src = chars_of(sv.source.as_str());
                if (eq_str(&src, "/home/") || eq_str(&src, "/home")) && c.sync.extra_excludes_on_primary && ctx.is_primary_boot {
                    let mut v: Vec<char> = Vec::new();
                    push_str(&mut v, "Phase ");
                    push_dec(&mut v, i as u64 + 1);
                    push_str(&mut v, "/");
                    push_dec(&mut v, total);
                    push_str(&mut v, ": ");
                    push_str(&mut v, sv.source.as_str());
                    push_str(&mut v, " (mit Extra-Excludes)");
                    text_line(&v)
                } else {
                    no_lines()
                }
            } else {
                let mut v: Vec<char> = Vec::new();
                push_str(&mut v, "FEHLER mount ");
                push_str(&mut v, sv.subvol.as_str());
                push_str(&mut v, ": ");
                push_str(&mut v, detail);
                text_line(&v)
            }
        },
        SyncStage::Copying(i) => {
            let sv = &c.sync.subvolumes[i];
            if ok {
                let mut v: Vec<char> = Vec::new();
                push_str(&mut v, sv.name.as_str());
                push_str(&mut v, " OK. ");
                let stats = rsync_stats(detail);
                push_str(&mut v, stats.as_str());
                let mut out = text_line(&v);
                let rest = enter_log_exec(c, i + 1);
                let ghost first = string_views(out@);
                let mut k: usize = 0;
                while k < rest.len()
                    invariant
                        k <= rest@.len(),
                        string_views(out@) == first + string_views(rest@).take(k as int),
                    decreases rest@.len() - k,
                {
                    let line = rest[k].clone();
                    assert(line@ == rest@[k as int]@);
                    let ghost before = out@;
                    out.push(line);
                    assert(string_views(rest@).take(k + 1) =~= string_views(rest@).take(k as int).push(rest@[k as int]@));
                    assert(string_views(out@) =~= string_views(before).push(line@));
                    k = k + 1;
                }
                assert(string_views(rest@).take(rest@.len() as int) =~= string_views(rest@));
                out
            } else {
                let mut v: Vec<char> = Vec::new();
                push_str(&mut v, "FEHLER ");
                push_str(&mut v, sv.name.as_str());
                push_str(&mut v, "-Sync: ");
                push_str(&mut v, detail);
                text_line(&v)
            }
        },
        SyncStage::BootCopying => {
            if ok {
                let v = chars_of("Boot OK.");
                text_line(&v)
            } else {
                no_lines()
            }
        },
        _ => no_lines(),
    }
}

fn enter_phase_exec(n: usize, boot: bool, i: usize) -> (r: (SyncStage, SyncStep))
    ensures
        r == enter_phase(n as nat, boot, i as nat),
{
    if i < n {
        (SyncStage::Mounting(i), SyncStep::Mount(i))
    } else if boot {
        (SyncStage::BootMounting, SyncStep::MountBoot)
    } else {
        (SyncStage::Done, SyncStep::Finish)
    }
}

/// One step of a sync run over the configured subvolumes and, when boot sync
/// is on, /boot. `ctx` is the run's direction and backup device, `efi` the
/// backup EFI partition; `ok` and `detail` are the outcome of the last action
/// (ignored at `Start`): the error text when it failed, rsync's output when a
/// copy succeeded.
pub fn sync_step(c: &AppConfig, ctx: &SyncContext, efi: &str, st: SyncStage, ok: bool, detail: &str) -> (r: (SyncStage, SyncAction))
    requires
        total_phases(*c) <= 255,
        stage_valid(c.sync.subvolumes@.len(), st),
    ensures
        ({
            let x = sync_next(c.sync.subvolumes@.len(), c.boot.sync_enabled, efi@, st, ok, detail@);
            &&& r.0 == x.0
            &&& r.1.release == x.1
            &&& r.1.step == x.2
            &&& opt_text(r.1.error) == x.3
            &&& opt_text(r.1.warning) == x.4
        }),
        string_views(r.1.log@) == sync_log_of(*c, *ctx, st, ok, detail@),
        stage_valid(c.sync.subvolumes@.len(), r.0),
{
    let log = sync_log_exec(c, ctx, st, ok, detail);
    let (next, a) = sync_decide(c, efi, st, ok, detail);
    (next, SyncAction { release: a.release, step: a.step, error: a.error, warning: a.warning, log })
}

fn sync_decide(c: &AppConfig, efi: &str, st: SyncStage, ok: bool, detail: &str) -> (r: (SyncStage, SyncAction))
    requires
        stage_valid(c.sync.subvolumes@.len(), st),
    ensures
        ({
            let x = sync_next(c.sync.subvolumes@.len(), c.boot.sync_enabled, efi@, st, ok, detail@);
            &&& r.0 == x.0
            &&& r.1.release == x.1
            &&& r.1.step == x.2
            &&& opt_text(r.1.error) == x.3
            &&& opt_text(r.1.warning) == x.4
            &&& r.1.log@.len() == 0
        }),
        stage_valid(c.sync.subvolumes@.len(), r.0),
{
    let n = c.sync.subvolumes.len();
    let boot = c.boot.sync_enabled;
    match st {
        SyncStage::Start => {
            let e = enter_phase_exec(n, boot, 0);
            (e.0, SyncAction { release: Release::Nothing, step: e.1, error: None, warning: None, log: Vec::new() })
        },
        SyncStage::Mounting(i) => {
            if ok {
                (SyncStage::Copying(i), SyncAction { release: Release::Nothing, step: SyncStep::Copy(i), error: None, warning: None, log: Vec::new() })
            } else {
                (SyncStage::Failed, SyncAction {
                    release: Release::Nothing,
                    step: SyncStep::Abort,
                    error: Some(detail.to_string()),
                    warning: None,
                    log: Vec::new(),
                })
            }
        },
        SyncStage::Copying(i) => {
            if ok {
                let e = enter_phase_exec(n, boot, i + 1);
                (e.0, SyncAction { release: Release::Subvolume(i), step: e.1, error: None, warning: None, log: Vec::new() })
            } else {
                (SyncStage::Failed, SyncAction {
                    release: Release::Subvolume(i),
                    step: SyncStep::Abort,
                    error: Some(detail.to_string()),
                    warning: None,
                    log: Vec::new(),
                })
            }
        },
        SyncStage::BootMounting => {
            if ok {
                (SyncStage::BootCopying, SyncAction { release: Release::Nothing, step: SyncStep::CopyBoot, error: None, warning: None, log: Vec::new() })
            } else {
                let mut w: Vec<char> = Vec::new();
                push_str(&mut w, "WARNUNG: Konnte Backup-EFI ");
                push_str(&mut w, efi);
                push_str(&mut w, " nicht mounten: ");
                push_str(&mut w, detail);
                (SyncStage::Done, SyncAction {
                    release: Release::Boot,
                    step: SyncStep::Finish,
                    error: None,
                    warning: Some(string_of(&w)),
                    log: Vec::new(),
                })
            }
        },
        SyncStage::BootCopying => {
            if ok {
                (SyncStage::Done, SyncAction { release: Release::Boot, step: SyncStep::Finish, error: None, warning: None, log: Vec::new() })
            } else {
                let mut w: Vec<char> = Vec::new();
                push_str(&mut w, "WARNUNG Boot-Sync: ");
                push_str(&mut w, detail);
                (SyncStage::Done, SyncAction {
                    release: Release::Boot,
                    step: SyncStep::Finish,
                    error: None,
                    warning: Some(string_of(&w)),
                    log: Vec::new(),
                })
            }
        },
        _ => (st, SyncAction { release: Release::Nothing, step: SyncStep::Stop, error: None, warning: None, log: Vec::new() }),
    }
}

/// A failed subvolume mount or copy ends the run with exactly that error;
/// a failure in the /boot phase never does: the run still finishes, with a
/// warning, and the EFI partition is released.
pub proof fn law_sync_failure_handling(n: nat, boot: bool, efi: Seq<char>, st: SyncStage, detail: Seq<char>)
    requires
        stage_valid(n, st),
    ensures
        (st is Mounting || st is Copying) ==> {
            let x = sync_next(n, boot, efi, st, false, detail);
            &&& x.0 == SyncStage::Failed
            &&& x.2 == SyncStep::Abort
            &&& x.3 == Some(detail)
        },
        (st is BootMounting || st is BootCopying) ==> {
            let x = sync_next(n, boot, efi, st, false, detail);
            &&& x.0 == SyncStage::Done
            &&& x.1 == Release::Boot
            &&& x.2 == SyncStep::Finish
            &&& x.3 is None
            &&& x.4 is Some
        },
{
}

/// Every subvolume that was mounted is released again, whatever the copy gave:
/// after `Copying(i)` the mount point of phase `i` is released.
pub proof fn law_sync_copy_releases_mount(n: nat, boot: bool, efi: Seq<char>, i: usize, ok: bool, detail: Seq<char>)
    requires
        i < n,
    ensures
        sync_next(n, boot, efi, SyncStage::Copying(i), ok, detail).1 == Release::Subvolume(i),
{
}

/// The number of successful steps from `st` to the end of a run.
pub open spec fn steps_left(n: nat, boot: bool, st: SyncStage) -> nat {
    match st {
        SyncStage::Start => 2 * n + (if boot { 2nat } else { 0nat }) + 1,
        SyncStage::Mounting(i) => (2 * (n - i) + (if boot { 2int } else { 0int })) as nat,
        SyncStage::Copying(i) => (2 * (n - i) - 1 + (if boot { 2int } else { 0int })) as nat,
        SyncStage::BootMounting => 2,
        SyncStage::BootCopying => 1,
        _ => 0,
    }
}

/// When every action succeeds, a run mounts and copies the subvolumes in
/// order and then /boot: each step moves on, and the run ends in `Done`.
pub proof fn law_sync_progresses(n: nat, boot: bool, efi: Seq<char>, st: SyncStage, detail: Seq<char>)
    requires
        n <= usize::MAX,
        stage_valid(n, st),
        !(st is Done || st is Failed),
    ensures
        ({
            let x = sync_next(n, boot, efi, st, true, detail);
            &&& stage_valid(n, x.0)
            &&& !(x.0 is Failed)
            &&& steps_left(n, boot, x.0) < steps_left(n, boot, st)
            &&& x.0 is Done ==> x.2 == SyncStep::Finish
        }),
{
}

// ─── Rollback ─────────────────────────────────────────────────

/// Where a rollback stands.
#[derive(Debug, Clone, Copy, PartialEq, Eq, Structural)]
pub enum RollbackStage {
    Start,
    FindingSnapshot,
    FindingCurrent,
    Listing,
    Deleting,
    Moving,
    Snapshotting,
    MakingDir,
    Done,
    Failed,
}

/// The next thing to do in a rollback; the paths are those of `RollbackPaths`.
#[derive(Debug, Clone, Copy, PartialEq, Eq, Structural)]
pub enum RollbackStep {
    /// Test that `snap_path` exists.
    CheckSnapshot,
    /// Test that `current_at` exists.
    CheckCurrent,
    /// List the old backups: `ls -d <tmpdir>/<root>.broken-*`.
    ListBroken,
    /// Delete the subvolumes in the action's `delete` list.
    DeleteOld,
    /// Move `current_at` to `broken_path`.
    MoveCurrent,
    /// Snapshot `snap_path` as the new `current_at`.
    TakeSnapshot,
    /// Create `<current_at>/.snapshots`.
    MakeSnapshotsDir,
    /// The rollback succeeded.
    Finish,
    /// The rollback failed with the action's error (after the undo, if any).
    Abort,
    /// The rollback is over; nothing more to do.
    Stop,
}

pub struct RollbackAction {
    pub step: RollbackStep,
    /// Old backups to delete (with `RollbackStep::DeleteOld`).
    pub delete: Vec<String>,
    /// Move `broken_path` back to `current_at` before failing.
    pub undo_move: bool,
    pub error: Option<String>,
}

/// The next stage, step, backups to delete, undo flag and error of a rollback
/// to snapshot `id` of `root` (kept backups: `keep`), after the last action
/// succeeded (`ok`) or not; `detail` is its output or error text.
pub open spec fn rollback_next(id: nat, root: Seq<char>, snap_path: Seq<char>, keep: nat, st: RollbackStage, ok: bool, detail: Seq<char>)
    -> (RollbackStage, RollbackStep, Seq<Seq<char>>, bool, Option<Seq<char>>)
{
    match st {
        RollbackStage::Start => (RollbackStage::FindingSnapshot, RollbackStep::CheckSnapshot, seq![], false, None),
        RollbackStage::FindingSnapshot => if ok {
            (RollbackStage::FindingCurrent, RollbackStep::CheckCurrent, seq![], false, None)
        } else {
            (RollbackStage::Failed, RollbackStep::Abort, seq![], false,
                Some("Snapshot #"@ + dec(id) + " nicht gefunden unter "@ + snap_path))
        },
        RollbackStage::FindingCurrent => if ok {
            (RollbackStage::Listing, RollbackStep::ListBroken, seq![], false, None)
        } else {
            (RollbackStage::Failed, RollbackStep::Abort, seq![], false,
                Some("Kein aktives "@ + root + " Subvolume gefunden"@))
        },
        RollbackStage::Listing => if ok {
            (RollbackStage::Deleting, RollbackStep::DeleteOld, old_broken_of(detail, keep), false, None)
        } else {
            (RollbackStage::Moving, RollbackStep::MoveCurrent, seq![], false, None)
        },
        RollbackStage::Deleting => (RollbackStage::Moving, RollbackStep::MoveCurrent, seq![], false, None),
        RollbackStage::Moving => if ok {
            (RollbackStage::Snapshotting, RollbackStep::TakeSnapshot, seq![], false, None)
        } else {
            (RollbackStage::Failed, RollbackStep::Abort, seq![], false,
                Some("Konnte "@ + root + " nicht verschieben: "@ + detail))
        },
        RollbackStage::Snapshotting => if ok {
            (RollbackStage::MakingDir, RollbackStep::MakeSnapshotsDir, seq![], false, None)
        } else {
            (RollbackStage::Failed, RollbackStep::Abort, seq![], true,
                Some("Konnte Snapshot nicht erstellen: "@ + detail))
        },
        RollbackStage::MakingDir => (RollbackStage::Done, RollbackStep::Finish, seq![], false, None),
        _ => (st, RollbackStep::Stop, seq![], false, None),
    }
}

fn plain(stage: RollbackStage, step: RollbackStep) -> (r: (RollbackStage, RollbackAction))
    ensures
        r.0 == stage,
        r.1.step == step,
        r.1.delete@.len() == 0,
        !r.1.undo_move,
        r.1.error is None,
{
    (stage, RollbackAction { step, delete: Vec::new(), undo_move: false, error: None })
}

/// One step of a rollback of `root_subvol` to snapshot `snap_id`, with the
/// paths `paths`, keeping the newest `keep` old backups. `ok` and `detail`
/// are the outcome and the output (or error text) of the last action.
pub fn rollback_step(snap_id: u32, root_subvol: &str, paths: &RollbackPaths, keep: usize, st: RollbackStage, ok: bool, detail: &str) -> (r: (RollbackStage, RollbackAction))
    ensures
        ({
            let x = rollback_next(snap_id as nat, root_subvol@, paths.snap_path@, keep as nat, st, ok, detail@);
            &&& r.0 == x.0
            &&& r.1.step == x.1
            &&& string_views(r.1.delete@) == x.2
            &&& r.1.undo_move == x.3
            &&& opt_text(r.1.error) == x.4
        }),
{
    match st {
        RollbackStage::Start => plain(RollbackStage::FindingSnapshot, RollbackStep::CheckSnapshot),
        RollbackStage::FindingSnapshot => {
            if ok {
                plain(RollbackStage::FindingCurrent, RollbackStep::CheckCurrent)
            } else {
                let mut e: Vec<char> = Vec::new();
                push_str(&mut e, "Snapshot #");
                push_dec(&mut e, snap_id as u64);
                push_str(&mut e, " nicht gefunden unter ");
                push_str(&mut e, paths.snap_path.as_str());
                (RollbackStage::Failed, RollbackAction {
                    step: RollbackStep::Abort, delete: Vec::new(), undo_move: false, error: Some(string_of(&e)),
                })
            }
        },
        RollbackStage::FindingCurrent => {
            if ok {
                plain(RollbackStage::Listing, RollbackStep::ListBroken)
            } else {
                let mut e: Vec<char> = Vec::new();
                push_str(&mut e, "Kein aktives ");
                push_str(&mut e, root_subvol);
                push_str(&mut e, " Subvolume gefunden");
                (RollbackStage::Failed, RollbackAction {
                    step: RollbackStep::Abort, delete: Vec::new(), undo_move: false, error: Some(string_of(&e)),
                })
            }
        },
        RollbackStage::Listing => {
            if ok {
                let old = old_broken_backups(detail, keep);
                (RollbackStage::Deleting, RollbackAction {
                    step: RollbackStep::DeleteOld, delete: old, undo_move: false, error: None,
                })
            } else {
                let r = plain(RollbackStage::Moving, RollbackStep::MoveCurrent);
                assert(string_views(r.1.delete@) =~= seq![]);
                r
            }
        },
        RollbackStage::Deleting => {
            let r = plain(RollbackStage::Moving, RollbackStep::MoveCurrent);
            assert(string_views(r.1.delete@) =~= seq![]);
            r
        },
        RollbackStage::Moving => {
            if ok {
                let r = plain(RollbackStage::Snapshotting, RollbackStep::TakeSnapshot);
                assert(string_views(r.1.delete@) =~= seq![]);
                r
            } else {
                let mut e: Vec<char> = Vec::new();
                push_str(&mut e, "Konnte ");
                push_str(&mut e, root_subvol);
                push_str(&mut e, " nicht verschieben: ");
                push_str(&mut e, detail);
                let r = (RollbackStage::Failed, RollbackAction {
                    step: RollbackStep::Abort, delete: Vec::new(), undo_move: false, error: Some(string_of(&e)),
                });
                assert(string_views(r.1.delete@) =~= seq![]);
                r
            }
        },
        RollbackStage::Snapshotting => {
            if ok {
                let r = plain(RollbackStage::MakingDir, RollbackStep::MakeSnapshotsDir);
                assert(string_views(r.1.delete@) =~= seq![]);
                r
            } else {
                let mut e: Vec<char> = Vec::new();
                push_str(&mut e, "Konnte Snapshot nicht erstellen: ");
                push_str(&mut e, detail);
                let r = (RollbackStage::Failed, RollbackAction {
                    step: RollbackStep::Abort, delete: Vec::new(), undo_move: true, error: Some(string_of(&e)),
                });
                assert(string_views(r.1.delete@) =~= seq![]);
                r
            }
        },
        RollbackStage::MakingDir => {
            let r = plain(RollbackStage::Done, RollbackStep::Finish);
            assert(string_views(r.1.delete@) =~= seq![]);
            r
        },
        _ => {
            let r = plain(st, RollbackStep::Stop);
            assert(string_views(r.1.delete@) =~= seq![]);
            r
        },
    }
}

/// The current root is only ever moved aside after both the snapshot and the
/// current root were found, and once moved, a failed snapshot moves it back:
/// a rollback never ends with the root moved away and no new root in place.
pub proof fn law_rollback_undoes_move(id: nat, root: Seq<char>, snap_path: Seq<char>, keep: nat, st: RollbackStage, ok: bool, detail: Seq<char>)
    ensures
        ({
            let x = rollback_next(id, root, snap_path, keep, st, ok, detail);
            &&& x.1 == RollbackStep::MoveCurrent ==> (st is Listing || st is Deleting)
            &&& (st is Snapshotting && !ok) ==> x.3 && x.1 == RollbackStep::Abort
            &&& x.3 ==> st is Snapshotting
            &&& (x.0 is Failed && !(st is Failed)) ==> x.4 is Some
        }),
{
}

} // verus!
