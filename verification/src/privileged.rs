//! What the privileged helpers (run as root) accept: the paths they may
//! touch and what each requested write does.

use vstd::prelude::*;
use vstd::string::*;
use crate::helpers::FileOp;
use crate::text::{char_pos, chars_of, eq_str, push_str, split_char, split_char_vec, starts_with, starts_with_str, string_of, views, vviews};

verus! {

// ─── Parent references ────────────────────────────────────────

/// `p` names a parent directory somewhere: one of its '/'-separated pieces
/// is "..". Such a path can leave the directory its text starts with, so
/// the helpers refuse it before they look at the prefix. Without one, the
/// only pieces that resolve to something else are "." and empty ones, which
/// stay where they are: a path that starts with an allowed directory then
/// also lies in it.
pub open spec fn has_parent_ref(p: Seq<char>) -> bool {
    split_char(p, '/').contains(".."@)
}

/// No two dots stand next to each other in `s`, from index `i` on.
pub open spec fn no_double_dot_from(s: Seq<char>, i: int) -> bool
    decreases s.len() - i,
{
    if i < 0 || i + 1 >= s.len() {
        true
    } else {
        !(s[i] == '.' && s[i + 1] == '.') && no_double_dot_from(s, i + 1)
    }
}

proof fn lemma_no_double_dot(s: Seq<char>, i: int, j: int)
    requires
        0 <= i <= j,
        j + 1 < s.len(),
        no_double_dot_from(s, i),
    ensures
        !(s[j] == '.' && s[j + 1] == '.'),
    decreases j - i,
{
    if i < j {
        lemma_no_double_dot(s, i + 1, j);
    }
}

proof fn lemma_char_pos_bound(s: Seq<char>, c: char)
    ensures
        char_pos(s, c) <= s.len(),
        char_pos(s, c) < s.len() ==> s[char_pos(s, c) as int] == c,
    decreases s.len(),
{
    if s.len() > 0 && s[0] != c {
        lemma_char_pos_bound(s.drop_first(), c);
    }
}

pub open spec fn double_dot_at(s: Seq<char>, i: int) -> bool {
    0 <= i && i + 1 < s.len() && s[i] == '.' && s[i + 1] == '.'
}

/// A ".." piece is two dots next to each other.
pub proof fn lemma_parent_ref_has_double_dot(s: Seq<char>)
    requires
        split_char(s, '/').contains(".."@),
    ensures
        exists|i: int| #[trigger] double_dot_at(s, i),
    decreases s.len(),
{
    reveal_strlit("..");
    lemma_char_pos_bound(s, '/');
    let n = char_pos(s, '/') as int;
    if n < s.len() {
        if s.take(n) == ".."@ {
            assert(".."@ =~= seq!['.', '.']);
            assert(s.take(n)[0] == s[0] && s.take(n)[1] == s[1]);
            assert(s[0] == '.' && s[1] == '.');
            assert(double_dot_at(s, 0));
        } else {
            let rest = s.skip(n + 1);
            let k = choose|k: int| 0 <= k < split_char(s, '/').len() && split_char(s, '/')[k] == ".."@;
            assert(split_char(s, '/') == seq![s.take(n)] + split_char(rest, '/'));
            assert(k > 0);
            assert(split_char(rest, '/')[k - 1] == ".."@);
            lemma_parent_ref_has_double_dot(rest);
            let i = choose|i: int| #[trigger] double_dot_at(rest, i);
            assert(s[i + n + 1] == '.' && s[i + n + 2] == '.');
            assert(double_dot_at(s, i + n + 1));
        }
    } else {
        assert(split_char(s, '/') == seq![s]);
        assert(s == ".."@);
        assert(".."@ =~= seq!['.', '.']);
        assert(s[0] == '.' && s[1] == '.');
        assert(double_dot_at(s, 0));
    }
}

/// A path without two dots in a row has no ".." piece.
pub proof fn lemma_no_parent_ref(s: Seq<char>)
    requires
        no_double_dot_from(s, 0),
    ensures
        !has_parent_ref(s),
{
    if has_parent_ref(s) {
        lemma_parent_ref_has_double_dot(s);
        let i = choose|i: int| #[trigger] double_dot_at(s, i);
        lemma_no_double_dot(s, 0, i);
    }
}

pub fn parent_ref(p: &str) -> (r: bool)
    ensures
        r == has_parent_ref(p@),
{
    let parts = split_char_vec(&chars_of(p), '/');
    let mut i: usize = 0;
    while i < parts.len()
        invariant
            i <= parts@.len(),
            vviews(parts@) == split_char(p@, '/'),
            forall|j: int| 0 <= j < i ==> #[trigger] vviews(parts@)[j] != ".."@,
        decreases parts.len() - i,
    {
        assert(vviews(parts@)[i as int] == parts@[i as int]@);
        if eq_str(&parts[i], "..") {
            assert(split_char(p@, '/')[i as int] == ".."@);
            return true;
        }
        i = i + 1;
    }
    proof {
        if split_char(p@, '/').contains(".."@) {
            let j = choose|j: int| 0 <= j < split_char(p@, '/').len() && split_char(p@, '/')[j] == ".."@;
            assert(vviews(parts@)[j] != ".."@);
        }
    }
    false
}

// ─── sysfs writes ─────────────────────────────────────────────

/// One value to write to a kernel or configuration file.
#[derive(Debug, Clone)]
pub struct SysWrite {
    pub path: String,
    pub value: String,
}

/// Paths the sysfs helper may write: kernel tunables under `/sys/` and
/// `/proc/sys/`, the application's and sysctl's configuration directories,
/// and `/etc/environment`; never a path with a ".." piece.
pub open spec fn sysfs_allowed(p: Seq<char>) -> bool {
    !has_parent_ref(p) && (starts_with(p, "/sys/"@) || starts_with(p, "/proc/sys/"@) || starts_with(p, "/etc/arclight/"@)
        || p == "/etc/environment"@ || starts_with(p, "/etc/sysctl.d/"@))
}

pub fn sysfs_path_allowed(path: &str) -> (r: bool)
    ensures
        r == sysfs_allowed(path@),
{
    let p = chars_of(path);
    !parent_ref(path) && (starts_with_str(&p, "/sys/") || starts_with_str(&p, "/proc/sys/") || starts_with_str(&p, "/etc/arclight/")
        || eq_str(&p, "/etc/environment") || starts_with_str(&p, "/etc/sysctl.d/"))
}

/// The first write to a path that is not allowed.
pub open spec fn first_disallowed(ws: Seq<SysWrite>, i: int) -> Option<int>
    decreases ws.len() - i,
{
    if i < 0 || i >= ws.len() {
        None
    } else if !sysfs_allowed(ws[i].path@) {
        Some(i)
    } else {
        first_disallowed(ws, i + 1)
    }
}

/// Why a batch of writes is refused, if it is: no writes at all, or a path
/// outside the allowed ones (the first such).
pub open spec fn writes_refusal(ws: Seq<SysWrite>) -> Option<Seq<char>> {
    if ws.len() == 0 {
        Some("Keine Writes angegeben"@)
    } else {
        match first_disallowed(ws, 0) {
            Some(i) => Some("Nicht erlaubter Pfad: "@ + ws[i].path@),
            None => None,
        }
    }
}

/// Checks a batch of writes before any is made.
pub fn check_sys_writes(ws: &[SysWrite]) -> (r: Result<(), String>)
    ensures
        match r {
            Ok(()) => writes_refusal(ws@) is None,
            Err(m) => writes_refusal(ws@) == Some(m@),
        },
{
    if ws.len() == 0 {
        return Err("Keine Writes angegeben".to_string());
    }
    let mut i: usize = 0;
    while i < ws.len()
        invariant
            i <= ws@.len(),
            first_disallowed(ws@, 0) == first_disallowed(ws@, i as int),
        decreases ws.len() - i,
    {
        if !sysfs_path_allowed(ws[i].path.as_str()) {
            let mut m: Vec<char> = Vec::new();
            push_str(&mut m, "Nicht erlaubter Pfad: ");
            push_str(&mut m, ws[i].path.as_str());
            return Err(string_of(&m));
        }
        i = i + 1;
    }
    Ok(())
}

/// What one write does: a value of `__DELETE__` removes the file,
/// `__MKDIR__` creates its directory, anything else is written (creating
/// the application's or sysctl's configuration directory first when the
/// path lies in it).
#[derive(Debug, Clone, Copy, PartialEq, Eq, Structural)]
pub enum SysWriteAction {
    Delete,
    MakeParent,
    Write { create_arclight_dir: bool, create_sysctl_dir: bool },
}

pub open spec fn write_action(w: SysWrite) -> SysWriteAction {
    if w.value@ == "__DELETE__"@ {
        SysWriteAction::Delete
    } else if w.value@ == "__MKDIR__"@ {
        SysWriteAction::MakeParent
    } else {
        SysWriteAction::Write {
            create_arclight_dir: starts_with(w.path@, "/etc/arclight/"@),
            create_sysctl_dir: starts_with(w.path@, "/etc/sysctl.d/"@),
        }
    }
}

pub fn sys_write_action(w: &SysWrite) -> (r: SysWriteAction)
    ensures
        r == write_action(*w),
{
    let v = chars_of(w.value.as_str());
    if eq_str(&v, "__DELETE__") {
        SysWriteAction::Delete
    } else if eq_str(&v, "__MKDIR__") {
        SysWriteAction::MakeParent
    } else {
        let p = chars_of(w.path.as_str());
        SysWriteAction::Write {
            create_arclight_dir: starts_with_str(&p, "/etc/arclight/"),
            create_sysctl_dir: starts_with_str(&p, "/etc/sysctl.d/"),
        }
    }
}

// ─── File operations ──────────────────────────────────────────

/// Path prefixes the file-operations helper may touch.
pub open spec fn file_op_prefixes() -> Seq<Seq<char>> {
    seq![
        "/etc/systemd/system/"@,
        "/etc/polkit-1/"@,
        "/etc/pacman.d/"@,
        "/etc/arclight/"@,
        "/etc/environment"@,
        "/etc/sysctl.d/"@,
        "/etc/udev/rules.d/"@,
        "/usr/bin/arclight"@,
        "/usr/local/bin/arclight"@,
        "/usr/share/applications/arclight"@,
        "/usr/share/icons/hicolor/"@,
        "/tmp/arclight-"@,
        "/sys/"@,
        "/proc/sys/"@,
    ]
}

/// A path the file-operations helper may touch: it starts with an allowed
/// prefix and has no ".." piece (see `has_parent_ref`).
pub open spec fn path_allowed(p: Seq<char>) -> bool {
    !has_parent_ref(p)
        && exists|k: int| 0 <= k < file_op_prefixes().len() && starts_with(p, #[trigger] file_op_prefixes()[k])
}

/// An operation is refused when the path it writes (the destination of a
/// copy) is not empty and is not allowed: it lies outside the allowed
/// prefixes, or names a parent directory and so may resolve outside them.
pub open spec fn op_blocked(op: FileOp) -> bool {
    match op {
        FileOp::Copy { dst, .. } => dst@.len() > 0 && !path_allowed(dst@),
        FileOp::Write { path, .. } => path@.len() > 0 && !path_allowed(path@),
        FileOp::Delete { path } => path@.len() > 0 && !path_allowed(path@),
        FileOp::Mkdir { path } => path@.len() > 0 && !path_allowed(path@),
        FileOp::Chmod { path, .. } => path@.len() > 0 && !path_allowed(path@),
    }
}

fn allowed_exec(p: &str) -> (r: bool)
    ensures
        r == path_allowed(p@),
{
    if parent_ref(p) {
        return false;
    }
    let v = chars_of(p);
    let prefixes: [&str; 14] = [
        "/etc/systemd/system/",
        "/etc/polkit-1/",
        "/etc/pacman.d/",
        "/etc/arclight/",
        "/etc/environment",
        "/etc/sysctl.d/",
        "/etc/udev/rules.d/",
        "/usr/bin/arclight",
        "/usr/local/bin/arclight",
        "/usr/share/applications/arclight",
        "/usr/share/icons/hicolor/",
        "/tmp/arclight-",
        "/sys/",
        "/proc/sys/",
    ];
    assert(views(prefixes@) =~= file_op_prefixes());
    let mut k: usize = 0;
    while k < 14
        invariant
            k <= 14,
            v@ == p@,
            !has_parent_ref(p@),
            views(prefixes@) == file_op_prefixes(),
            forall|j: int| 0 <= j < k ==> !starts_with(p@, #[trigger] file_op_prefixes()[j]),
        decreases 14 - k,
    {
        assert(views(prefixes@)[k as int] == prefixes@[k as int]@);
        if starts_with_str(&v, prefixes[k]) {
            return true;
        }
        k = k + 1;
    }
    false
}

fn blocked_path(p: &String) -> (r: bool)
    ensures
        r == (p@.len() > 0 && !path_allowed(p@)),
{
    p.unicode_len() > 0 && !allowed_exec(p.as_str())
}

pub fn file_op_blocked(op: &FileOp) -> (r: bool)
    ensures
        r == op_blocked(*op),
{
    match op {
        FileOp::Copy { dst, .. } => blocked_path(dst),
        FileOp::Write { path, .. } => blocked_path(path),
        FileOp::Delete { path } => blocked_path(path),
        FileOp::Mkdir { path } => blocked_path(path),
        FileOp::Chmod { path, .. } => blocked_path(path),
    }
}

pub open spec fn first_blocked(ops: Seq<FileOp>, i: int) -> Option<int>
    decreases ops.len() - i,
{
    if i < 0 || i >= ops.len() {
        None
    } else if op_blocked(ops[i]) {
        Some(i)
    } else {
        first_blocked(ops, i + 1)
    }
}

/// The first refused operation of a batch, if any; the helper then runs none.
pub fn first_blocked_op(ops: &[FileOp]) -> (r: Option<usize>)
    ensures
        match r {
            Some(i) => first_blocked(ops@, 0) == Some(i as int),
            None => first_blocked(ops@, 0) is None,
        },
{
    let mut i: usize = 0;
    while i < ops.len()
        invariant
            i <= ops@.len(),
            first_blocked(ops@, 0) == first_blocked(ops@, i as int),
        decreases ops.len() - i,
    {
        if file_op_blocked(&ops[i]) {
            return Some(i);
        }
        i = i + 1;
    }
    None
}

proof fn lemma_none_blocked_from(ops: Seq<FileOp>, i: int)
    requires
        0 <= i,
        first_blocked(ops, i) is None,
    ensures
        forall|k: int| i <= k < ops.len() ==> !op_blocked(#[trigger] ops[k]),
    decreases ops.len() - i,
{
    if i < ops.len() {
        lemma_none_blocked_from(ops, i + 1);
    }
}

/// A batch the helper accepts touches allowed paths only, and a refused
/// batch is refused at its first operation outside them.
pub proof fn law_accepted_ops_stay_in_allowed_paths(ops: Seq<FileOp>)
    ensures
        first_blocked(ops, 0) is None ==> forall|k: int| 0 <= k < ops.len() ==> !op_blocked(#[trigger] ops[k]),
        first_blocked(ops, 0) matches Some(i) ==> 0 <= i < ops.len() && op_blocked(ops[i])
            && forall|k: int| 0 <= k < i ==> !op_blocked(#[trigger] ops[k]),
{
    if first_blocked(ops, 0) is None {
        lemma_none_blocked_from(ops, 0);
    } else {
        lemma_first_blocked_is_first(ops, 0);
    }
}

proof fn lemma_first_blocked_is_first(ops: Seq<FileOp>, i: int)
    requires
        0 <= i,
        first_blocked(ops, i) is Some,
    ensures
        first_blocked(ops, i) matches Some(j) ==> i <= j < ops.len() && op_blocked(ops[j])
            && forall|k: int| i <= k < j ==> !op_blocked(#[trigger] ops[k]),
    decreases ops.len() - i,
{
    if i < ops.len() && !op_blocked(ops[i]) {
        lemma_first_blocked_is_first(ops, i + 1);
    }
}

} // verus!
