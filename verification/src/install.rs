//! System integration: what gets installed where, what is removed again,
//! and what the status view shows.

use vstd::prelude::*;
use vstd::string::*;
use crate::helpers::FileOp;
use crate::privileged::{file_op_prefixes, first_blocked, lemma_no_parent_ref, no_double_dot_from, op_blocked, path_allowed};
use crate::text::starts_with;

verus! {

/// Which integration components are installed.
#[derive(Clone, Debug)]
pub struct IntegrationStatus {
    pub binary: bool,
    pub desktop: bool,
    pub polkit: bool,
    pub pacman_hook: bool,
    pub binary_path: String,
}

/// The status from which of the four files exist.
pub fn integration_status(binary: bool, desktop: bool, polkit: bool, pacman_hook: bool) -> (r: IntegrationStatus)
    ensures
        r.binary == binary,
        r.desktop == desktop,
        r.polkit == polkit,
        r.pacman_hook == pacman_hook,
        r.binary_path@ == "/usr/local/bin/arclight"@,
{
    IntegrationStatus { binary, desktop, polkit, pacman_hook, binary_path: String::from_str("/usr/local/bin/arclight") }
}

/// The desktop entry that is installed.
pub open spec fn desktop_entry() -> Seq<char> {
    DESKTOP@
}

/// The polkit rule that lets wheel members run the binary without a password.
pub open spec fn polkit_rule() -> Seq<char> {
    POLKIT@
}

/// The pacman hook that takes a snapshot before every package transaction.
pub open spec fn pacman_hook() -> Seq<char> {
    HOOK@
}

/// Where the icon is staged before the privileged copy.
pub open spec fn staged_icon() -> Seq<char> {
    "/tmp/arclight-install.png"@
}

/// The installation batch: the running binary copied to
/// `/usr/local/bin/arclight` and made executable, the staged icon, the
/// desktop entry, the polkit rule and the pacman hook.
pub open spec fn install_plan_ok(ops: Seq<FileOp>, exe: Seq<char>) -> bool {
    &&& ops.len() == 9
    &&& (ops[0] matches FileOp::Copy { src, dst } && src@ == exe && dst@ == "/usr/local/bin/arclight"@)
    &&& (ops[1] matches FileOp::Chmod { path, mode } && path@ == "/usr/local/bin/arclight"@ && mode == 0o755)
    &&& (ops[2] matches FileOp::Mkdir { path } && path@ == "/usr/share/icons/hicolor/128x128/apps"@)
    &&& (ops[3] matches FileOp::Copy { src, dst } && src@ == staged_icon()
        && dst@ == "/usr/share/icons/hicolor/128x128/apps/arclight.png"@)
    &&& (ops[4] matches FileOp::Write { path, content } && path@ == "/usr/share/applications/arclight.desktop"@
        && content@ == desktop_entry())
    &&& (ops[5] matches FileOp::Mkdir { path } && path@ == "/etc/polkit-1/rules.d"@)
    &&& (ops[6] matches FileOp::Write { path, content } && path@ == "/etc/polkit-1/rules.d/50-arclight.rules"@
        && content@ == polkit_rule())
    &&& (ops[7] matches FileOp::Mkdir { path } && path@ == "/etc/pacman.d/hooks"@)
    &&& (ops[8] matches FileOp::Write { path, content } && path@ == "/etc/pacman.d/hooks/00-arclight-pre.hook"@
        && content@ == pacman_hook())
}

/// The batch of file operations that installs the integration.
pub fn install_ops(exe: &str) -> (r: Vec<FileOp>)
    ensures
        install_plan_ok(r@, exe@),
{
    let mut ops: Vec<FileOp> = Vec::new();
    ops.push(FileOp::Copy { src: String::from_str(exe), dst: String::from_str("/usr/local/bin/arclight") });
    ops.push(FileOp::Chmod { path: String::from_str("/usr/local/bin/arclight"), mode: 0o755 });
    ops.push(FileOp::Mkdir { path: String::from_str("/usr/share/icons/hicolor/128x128/apps") });
    ops.push(FileOp::Copy {
        src: String::from_str("/tmp/arclight-install.png"),
        dst: String::from_str("/usr/share/icons/hicolor/128x128/apps/arclight.png"),
    });
    ops.push(FileOp::Write {
        path: String::from_str("/usr/share/applications/arclight.desktop"),
        content: String::from_str(DESKTOP),
    });
    ops.push(FileOp::Mkdir { path: String::from_str("/etc/polkit-1/rules.d") });
    ops.push(FileOp::Write {
        path: String::from_str("/etc/polkit-1/rules.d/50-arclight.rules"),
        content: String::from_str(POLKIT),
    });
    ops.push(FileOp::Mkdir { path: String::from_str("/etc/pacman.d/hooks") });
    ops.push(FileOp::Write {
        path: String::from_str("/etc/pacman.d/hooks/00-arclight-pre.hook"),
        content: String::from_str(HOOK),
    });
    ops
}

/// The answer to an installation, given how the privileged batch went.
pub fn install_outcome(batch: Result<(), String>) -> (r: Result<String, String>)
    ensures
        match batch {
            Ok(()) => r matches Ok(m) && m@ == INSTALLED@,
            Err(e) => r matches Err(m) && m@ == "Installation fehlgeschlagen: "@ + e@,
        },
{
    match batch {
        Ok(()) => Ok(String::from_str(INSTALLED)),
        Err(e) => {
            let mut m = String::from_str("Installation fehlgeschlagen: ");
            m.append(e.as_str());
            Err(m)
        },
    }
}

/// The five installed files, in the order they are removed.
pub open spec fn integration_files() -> Seq<Seq<char>> {
    seq![
        "/usr/local/bin/arclight"@,
        "/usr/share/applications/arclight.desktop"@,
        "/usr/share/icons/hicolor/128x128/apps/arclight.png"@,
        "/etc/polkit-1/rules.d/50-arclight.rules"@,
        "/etc/pacman.d/hooks/00-arclight-pre.hook"@,
    ]
}

/// The files among the first `k` that exist, in order.
pub open spec fn present_files(present: Seq<bool>, k: int) -> Seq<Seq<char>>
    decreases k,
{
    if k <= 0 {
        seq![]
    } else if present[k - 1] {
        present_files(present, k - 1).push(integration_files()[k - 1])
    } else {
        present_files(present, k - 1)
    }
}

/// The removal batch: one delete for each installed file that exists.
pub fn uninstall_ops(present: &[bool; 5]) -> (r: Vec<FileOp>)
    ensures
        r@.len() == present_files(present@, 5).len(),
        forall|i: int| 0 <= i < r@.len() ==> (#[trigger] r@[i] matches FileOp::Delete { path } && path@ == present_files(present@, 5)[i]),
{
    let paths: [&str; 5] = [
        "/usr/local/bin/arclight",
        "/usr/share/applications/arclight.desktop",
        "/usr/share/icons/hicolor/128x128/apps/arclight.png",
        "/etc/polkit-1/rules.d/50-arclight.rules",
        "/etc/pacman.d/hooks/00-arclight-pre.hook",
    ];
    assert(crate::text::views(paths@) =~= integration_files());
    let mut ops: Vec<FileOp> = Vec::new();
    let mut k: usize = 0;
    while k < 5
        invariant
            k <= 5,
            crate::text::views(paths@) == integration_files(),
            ops@.len() == present_files(present@, k as int).len(),
            forall|i: int| 0 <= i < ops@.len() ==> (#[trigger] ops@[i] matches FileOp::Delete { path } && path@ == present_files(present@, k as int)[i]),
        decreases 5 - k,
    {
        if present[k] {
            assert(crate::text::views(paths@)[k as int] == paths@[k as int]@);
            ops.push(FileOp::Delete { path: String::from_str(paths[k]) });
        }
        k = k + 1;
    }
    ops
}

// ─── The root helper accepts both batches ────────────────────

proof fn lemma_allowed(p: Seq<char>, k: int)
    requires
        0 <= k < file_op_prefixes().len(),
        starts_with(p, file_op_prefixes()[k]),
        no_double_dot_from(p, 0),
    ensures
        path_allowed(p),
{
    lemma_no_parent_ref(p);
}

proof fn lemma_installed_paths_allowed()
    ensures
        path_allowed("/usr/local/bin/arclight"@),
        path_allowed("/usr/share/icons/hicolor/128x128/apps"@),
        path_allowed("/usr/share/icons/hicolor/128x128/apps/arclight.png"@),
        path_allowed("/usr/share/applications/arclight.desktop"@),
        path_allowed("/etc/polkit-1/rules.d"@),
        path_allowed("/etc/polkit-1/rules.d/50-arclight.rules"@),
        path_allowed("/etc/pacman.d/hooks"@),
        path_allowed("/etc/pacman.d/hooks/00-arclight-pre.hook"@),
{
    reveal_strlit("/usr/local/bin/arclight");
    reveal_strlit("/usr/share/icons/hicolor/128x128/apps");
    reveal_strlit("/usr/share/icons/hicolor/128x128/apps/arclight.png");
    reveal_strlit("/usr/share/applications/arclight.desktop");
    reveal_strlit("/etc/polkit-1/rules.d");
    reveal_strlit("/etc/polkit-1/rules.d/50-arclight.rules");
    reveal_strlit("/etc/pacman.d/hooks");
    reveal_strlit("/etc/pacman.d/hooks/00-arclight-pre.hook");
    reveal_strlit("/usr/share/icons/hicolor/");
    reveal_strlit("/usr/share/applications/arclight");
    reveal_strlit("/etc/polkit-1/");
    reveal_strlit("/etc/pacman.d/");
    reveal_with_fuel(no_double_dot_from, 60);
    assert(no_double_dot_from("/usr/local/bin/arclight"@, 0));
    assert("/usr/local/bin/arclight"@.subrange(0, 23) =~= file_op_prefixes()[8]);
    lemma_allowed("/usr/local/bin/arclight"@, 8);
    assert("/usr/share/icons/hicolor/128x128/apps"@.subrange(0, 25) =~= file_op_prefixes()[10]);
    lemma_allowed("/usr/share/icons/hicolor/128x128/apps"@, 10);
    assert("/usr/share/icons/hicolor/128x128/apps/arclight.png"@.subrange(0, 25) =~= file_op_prefixes()[10]);
    lemma_allowed("/usr/share/icons/hicolor/128x128/apps/arclight.png"@, 10);
    assert("/usr/share/applications/arclight.desktop"@.subrange(0, 32) =~= file_op_prefixes()[9]);
    lemma_allowed("/usr/share/applications/arclight.desktop"@, 9);
    assert("/etc/polkit-1/rules.d"@.subrange(0, 14) =~= file_op_prefixes()[1]);
    lemma_allowed("/etc/polkit-1/rules.d"@, 1);
    assert("/etc/polkit-1/rules.d/50-arclight.rules"@.subrange(0, 14) =~= file_op_prefixes()[1]);
    lemma_allowed("/etc/polkit-1/rules.d/50-arclight.rules"@, 1);
    assert("/etc/pacman.d/hooks"@.subrange(0, 14) =~= file_op_prefixes()[2]);
    lemma_allowed("/etc/pacman.d/hooks"@, 2);
    assert("/etc/pacman.d/hooks/00-arclight-pre.hook"@.subrange(0, 14) =~= file_op_prefixes()[2]);
    lemma_allowed("/etc/pacman.d/hooks/00-arclight-pre.hook"@, 2);
}

proof fn lemma_none_blocked(ops: Seq<FileOp>, i: int)
    requires
        0 <= i,
        forall|k: int| i <= k < ops.len() ==> !op_blocked(#[trigger] ops[k]),
    ensures
        first_blocked(ops, i) is None,
    decreases ops.len() - i,
{
    if i < ops.len() {
        lemma_none_blocked(ops, i + 1);
    }
}

/// The root helper accepts the installation batch whatever the binary's
/// path: every file it writes lies under an allowed prefix.
pub proof fn law_install_batch_accepted(ops: Seq<FileOp>, exe: Seq<char>)
    requires
        install_plan_ok(ops, exe),
    ensures
        first_blocked(ops, 0) is None,
{
    lemma_installed_paths_allowed();
    assert forall|k: int| 0 <= k < ops.len() implies !op_blocked(#[trigger] ops[k]) by {
        assert(0 <= k < 9);
    }
    lemma_none_blocked(ops, 0);
}

/// The root helper accepts every removal batch.
pub proof fn law_uninstall_batch_accepted(ops: Seq<FileOp>, present: Seq<bool>)
    requires
        present.len() == 5,
        ops.len() == present_files(present, 5).len(),
        forall|i: int| 0 <= i < ops.len() ==> (#[trigger] ops[i] matches FileOp::Delete { path } && path@ == present_files(present, 5)[i]),
    ensures
        first_blocked(ops, 0) is None,
{
    lemma_installed_paths_allowed();
    lemma_present_files_installed(present, 5);
    assert forall|k: int| 0 <= k < ops.len() implies !op_blocked(#[trigger] ops[k]) by {
        assert(integration_files().contains(present_files(present, 5)[k]));
    }
    lemma_none_blocked(ops, 0);
}

proof fn lemma_present_files_installed(present: Seq<bool>, k: int)
    requires
        0 <= k <= 5,
        present.len() == 5,
    ensures
        forall|i: int| 0 <= i < present_files(present, k).len() ==> integration_files().contains(#[trigger] present_files(present, k)[i]),
    decreases k,
{
    if k > 0 {
        lemma_present_files_installed(present, k - 1);
        assert(integration_files()[k - 1] == integration_files()[k - 1]);
        assert forall|i: int| 0 <= i < present_files(present, k).len() implies integration_files().contains(#[trigger] present_files(present, k)[i]) by {
            if i < present_files(present, k - 1).len() {
                assert(present_files(present, k)[i] == present_files(present, k - 1)[i]);
            } else {
                assert(present_files(present, k)[i] == integration_files()[k - 1]);
            }
        }
    }
}

pub const DESKTOP: &'static str = "[Desktop Entry]\nName=arclight\nGenericName=Backup Manager\nComment=Btrfs System Backup mit Snapper und rsync\nExec=/usr/local/bin/arclight\nIcon=arclight\nTerminal=false\nType=Application\nCategories=System;Utility;\nKeywords=backup;btrfs;snapper;sync;\nStartupWMClass=arclight\n";
pub const POLKIT: &'static str = "// arclight — wheel-Mitglieder duerfen arclight ohne Passwort ausfuehren\npolkit.addRule(function(action, subject) {\n    if (action.id == \"org.freedesktop.policykit.exec\" &&\n        action.lookup(\"program\") == \"/usr/local/bin/arclight\" &&\n        subject.isInGroup(\"wheel\")) {\n        return polkit.Result.YES;\n    }\n});\n";
pub const HOOK: &'static str = "# arclight — automatischer Snapper-Snapshot vor jedem Pacman-Update\n[Trigger]\nOperation = Upgrade\nOperation = Install\nOperation = Remove\nType = Package\nTarget = *\n\n[Action]\nDescription = arclight: Erstelle Pre-Update Snapshot...\nWhen = PreTransaction\nExec = /usr/bin/snapper -c root create --type=pre --cleanup-algorithm=number --print-number --description=\"pacman update\"\nDepends On = pacman\n";
pub const INSTALLED: &'static str = "✓ Binary → /usr/local/bin/arclight\n✓ Icon → /usr/share/icons/hicolor/128x128/apps/arclight.png\n✓ .desktop → /usr/share/applications/arclight.desktop\n✓ Polkit → /etc/polkit-1/rules.d/50-arclight.rules\n✓ Pacman-Hook → /etc/pacman.d/hooks/00-arclight-pre.hook";

} // verus!
