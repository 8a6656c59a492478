//! Boot entries: disk sides, entry parsing (systemd-boot and GRUB), and titles.

use vstd::prelude::*;
use vstd::string::*;
use crate::config::AppConfig;
use crate::intent::{lowercase, to_lowercase};
use crate::text::{
    char_pos, char_pos_exec, chars_of, dec, find_str, find_str_exec, last_char_pos,
    last_char_pos_exec, replace, replace_chars, lines, push_all, push_dec,
    push_str, slice_chars, split_lines, split_ws, starts_with, starts_with_str, string_of,
    strip_prefix, strip_prefix_str, trim, trim_chars, trim_start_char, trim_start_char_exec,
    vviews, words,
};

verus! {

/// Which physical disk an entry or boot source belongs to.
#[derive(Debug, Clone, Copy, PartialEq, Eq, Structural)]
pub enum DiskSide {
    Primary,
    Backup,
    Unknown,
}

/// The side a UUID belongs to.
pub open spec fn side_of(uuid: Seq<char>, c: AppConfig) -> DiskSide {
    if uuid.len() > 0 && uuid == c.disks.primary_uuid@ {
        DiskSide::Primary
    } else if uuid.len() > 0 && uuid == c.disks.backup_uuid@ {
        DiskSide::Backup
    } else {
        DiskSide::Unknown
    }
}

pub fn string_eq(a: &String, b: &String) -> (r: bool)
    ensures
        r == (a@ == b@),
{
    a.eq(b)
}

pub fn str_eq_string(a: &str, b: &String) -> (r: bool)
    ensures
        r == (a@ == b@),
{
    let s = String::from_str(a);
    s.eq(b)
}

impl DiskSide {
    /// Resolve a UUID to Primary / Backup / Unknown.
    pub fn from_uuid(uuid: &str, c: &AppConfig) -> (r: DiskSide)
        ensures
            r == side_of(uuid@, *c),
    {
        if !uuid.is_empty() && str_eq_string(uuid, &c.disks.primary_uuid) {
            DiskSide::Primary
        } else if !uuid.is_empty() && str_eq_string(uuid, &c.disks.backup_uuid) {
            DiskSide::Backup
        } else {
            DiskSide::Unknown
        }
    }

    /// Return the *other* side's UUID, or the primary if Unknown.
    pub fn other_uuid<'a>(self, c: &'a AppConfig) -> (r: &'a str)
        ensures
            r@ == (if self == DiskSide::Primary {
                c.disks.backup_uuid@
            } else {
                c.disks.primary_uuid@
            }),
    {
        match self {
            DiskSide::Primary => c.disks.backup_uuid.as_str(),
            _ => c.disks.primary_uuid.as_str(),
        }
    }

    /// Human label for this side.
    pub fn label<'a>(self, c: &'a AppConfig) -> (r: &'a str)
        ensures
            r@ == match self {
                DiskSide::Primary => c.disks.primary_label@,
                DiskSide::Backup => c.disks.backup_label@,
                DiskSide::Unknown => "Unknown"@,
            },
    {
        match self {
            DiskSide::Primary => c.disks.primary_label.as_str(),
            DiskSide::Backup => c.disks.backup_label.as_str(),
            DiskSide::Unknown => "Unknown",
        }
    }
}

/// Result of checking the backup EFI partition.
#[derive(Debug, Clone)]
pub struct BootValidation {
    pub backup_efi_accessible: bool,
    pub bootloader_present: bool,
    pub entries_valid: bool,
    pub kernels_present: Vec<String>,
    pub kernels_missing: Vec<String>,
    pub entry_issues: Vec<String>,
}

/// Boot state of both disks.
#[derive(Debug, Clone)]
pub struct BootInfo {
    pub current_entry: String,
    pub bootloader_version: String,
    pub entries: Vec<BootEntryInfo>,
    pub backup_bootable: bool,
    pub backup_bootloader_version: Option<String>,
    pub booted_from: DiskSide,
}

/// One boot menu entry.
#[derive(Debug, Clone)]
pub struct BootEntryInfo {
    pub title: String,
    pub id: String,
    pub root_uuid: String,
    pub kernel: String,
    /// Which EFI partition the entry lives on.
    pub disk: DiskSide,
}

// ─── Entry parsing ────────────────────────────────────────────

/// Title, root UUID, kernel and sort key of a boot entry.
pub type EntryFields = (Seq<char>, Seq<char>, Seq<char>, Seq<char>);

/// Fields read from a boot loader entry (systemd-boot) or GRUB menu entry.
pub struct ParsedBootEntry {
    pub title: String,
    pub root_uuid: String,
    pub kernel: String,
    pub sort_key: String,
}

/// The UUID in a `root=UUID=…` or `root=/dev/disk/by-uuid/…` token.
pub open spec fn root_uuid_of(t: Seq<char>) -> Option<Seq<char>> {
    match strip_prefix(t, "root=UUID="@) {
        Some(u) => Some(u),
        None => strip_prefix(t, "root=/dev/disk/by-uuid/"@),
    }
}

/// The root UUID of the first token that names one.
pub open spec fn first_root(ws: Seq<Seq<char>>) -> Option<Seq<char>>
    decreases ws.len(),
{
    if ws.len() == 0 {
        None
    } else {
        match root_uuid_of(ws[0]) {
            Some(u) => Some(u),
            None => first_root(ws.drop_first()),
        }
    }
}

/// Position of the opening quote of a GRUB title: the first `'`, else the first `"`.
pub open spec fn quote_pos(l: Seq<char>) -> Option<int> {
    if char_pos(l, '\'') < l.len() {
        Some(char_pos(l, '\'') as int)
    } else if char_pos(l, '"') < l.len() {
        Some(char_pos(l, '"') as int)
    } else {
        None
    }
}

/// The first quoted string of a `menuentry` line.
pub open spec fn menu_title(l: Seq<char>) -> Option<Seq<char>> {
    match quote_pos(l) {
        None => None,
        Some(st) => {
            let rest = l.skip(st + 1);
            let e = char_pos(rest, l[st]);
            if e < rest.len() {
                Some(rest.take(e as int))
            } else {
                None
            }
        },
    }
}

/// A line starts a kernel command.
pub open spec fn is_linux_line(line: Seq<char>) -> bool {
    starts_with(line, "linux "@) || starts_with(line, "linuxefi "@) || starts_with(line, "linux16 "@)
}

/// The fields after one more line of an entry.
pub open spec fn apply_entry_line(e: EntryFields, raw: Seq<char>) -> EntryFields {
    let line = trim(raw);
    if strip_prefix(line, "title "@) is Some {
        (trim(strip_prefix(line, "title "@)->0), e.1, e.2, e.3)
    } else if strip_prefix(line, "sort-key "@) is Some {
        (e.0, e.1, e.2, trim(strip_prefix(line, "sort-key "@)->0))
    } else if is_linux_line(line) {
        let parts = words(line);
        let kernel = if parts.len() > 1 { trim_start_char(parts[1], '/') } else { e.2 };
        let root = match first_root(parts) {
            Some(u) => u,
            None => e.1,
        };
        (e.0, root, kernel, e.3)
    } else if strip_prefix(line, "options "@) is Some {
        match first_root(words(strip_prefix(line, "options "@)->0)) {
            Some(u) => (e.0, u, e.2, e.3),
            None => e,
        }
    } else if starts_with(line, "menuentry "@) {
        match menu_title(line) {
            Some(t) => (t, e.1, e.2, e.3),
            None => e,
        }
    } else {
        e
    }
}

/// The fields after the given lines; later lines override earlier ones.
pub open spec fn entry_fields_of(ls: Seq<Seq<char>>) -> EntryFields
    decreases ls.len(),
{
    if ls.len() == 0 {
        (seq![], seq![], seq![], seq![])
    } else {
        apply_entry_line(entry_fields_of(ls.drop_last()), ls.last())
    }
}

/// The fields of a boot entry text.
pub open spec fn boot_entry_fields(content: Seq<char>) -> EntryFields {
    entry_fields_of(lines(content))
}

fn root_uuid_exec(t: &Vec<char>) -> (r: Option<Vec<char>>)
    ensures
        match r {
            Some(v) => root_uuid_of(t@) == Some(v@),
            None => root_uuid_of(t@) is None,
        },
{
    match strip_prefix_str(t, "root=UUID=") {
        Some(u) => Some(u),
        None => strip_prefix_str(t, "root=/dev/disk/by-uuid/"),
    }
}

fn first_root_exec(ws: &Vec<Vec<char>>) -> (r: Option<Vec<char>>)
    ensures
        match r {
            Some(v) => first_root(vviews(ws@)) == Some(v@),
            None => first_root(vviews(ws@)) is None,
        },
{
    let mut i: usize = 0;
    assert(vviews(ws@).skip(0) =~= vviews(ws@));
    while i < ws.len()
        invariant
            i <= ws.len(),
            first_root(vviews(ws@)) == first_root(vviews(ws@).skip(i as int)),
        decreases ws.len() - i,
    {
        let ghost rest = vviews(ws@).skip(i as int);
        assert(rest[0] == ws@[i as int]@);
        assert(rest.drop_first() =~= vviews(ws@).skip(i + 1));
        match root_uuid_exec(&ws[i]) {
            Some(u) => {
                return Some(u);
            },
            None => {},
        }
        i = i + 1;
    }
    None
}

fn menu_title_exec(l: &Vec<char>) -> (r: Option<Vec<char>>)
    ensures
        match r {
            Some(v) => menu_title(l@) == Some(v@),
            None => menu_title(l@) is None,
        },
{
    let a = char_pos_exec(l, '\'');
    let st = if a < l.len() {
        a
    } else {
        let b = char_pos_exec(l, '"');
        if b < l.len() {
            b
        } else {
            return None;
        }
    };
    let q = l[st];
    let rest = slice_chars(l, st + 1, l.len());
    assert(rest@ =~= l@.skip(st + 1));
    let e = char_pos_exec(&rest, q);
    if e < rest.len() {
        let t = slice_chars(&rest, 0, e);
        assert(t@ =~= rest@.take(e as int));
        Some(t)
    } else {
        None
    }
}

/// One more line applied to the fields being parsed.
fn apply_line_exec(title: &mut Vec<char>, root: &mut Vec<char>, kernel: &mut Vec<char>, sort_key: &mut Vec<char>, raw: &Vec<char>)
    ensures
        (final(title)@, final(root)@, final(kernel)@, final(sort_key)@) == apply_entry_line(
            (old(title)@, old(root)@, old(kernel)@, old(sort_key)@),
            raw@,
        ),
{
    let line = trim_chars(raw);
    if let Some(v) = strip_prefix_str(&line, "title ") {
        *title = trim_chars(&v);
    } else if let Some(v) = strip_prefix_str(&line, "sort-key ") {
        *sort_key = trim_chars(&v);
    } else if starts_with_str(&line, "linux ") || starts_with_str(&line, "linuxefi ")
        || starts_with_str(&line, "linux16 ") {
        let parts = split_ws(&line);
        if parts.len() > 1 {
            *kernel = trim_start_char_exec(&parts[1], '/');
        }
        if let Some(u) = first_root_exec(&parts) {
            *root = u;
        }
    } else if let Some(v) = strip_prefix_str(&line, "options ") {
        let parts = split_ws(&v);
        if let Some(u) = first_root_exec(&parts) {
            *root = u;
        }
    } else if starts_with_str(&line, "menuentry ") {
        if let Some(t) = menu_title_exec(&line) {
            *title = t;
        }
    }
}

fn parse_entry_chars(content: &Vec<char>) -> (r: (Vec<char>, Vec<char>, Vec<char>, Vec<char>))
    ensures
        (r.0@, r.1@, r.2@, r.3@) == boot_entry_fields(content@),
{
    let ls = split_lines(content);
    let mut title: Vec<char> = Vec::new();
    let mut root: Vec<char> = Vec::new();
    let mut kernel: Vec<char> = Vec::new();
    let mut sort_key: Vec<char> = Vec::new();
    let mut i: usize = 0;
    assert(vviews(ls@).take(0) =~= Seq::<Seq<char>>::empty());
    while i < ls.len()
        invariant
            i <= ls.len(),
            vviews(ls@) == lines(content@),
            (title@, root@, kernel@, sort_key@) == entry_fields_of(vviews(ls@).take(i as int)),
        decreases ls.len() - i,
    {
        let ghost pre = vviews(ls@).take(i + 1);
        assert(pre.drop_last() =~= vviews(ls@).take(i as int));
        assert(pre.last() == ls@[i as int]@);
        apply_line_exec(&mut title, &mut root, &mut kernel, &mut sort_key, &ls[i]);
        i = i + 1;
    }
    assert(vviews(ls@).take(ls.len() as int) =~= vviews(ls@));
    (title, root, kernel, sort_key)
}

/// Reads title, root UUID (`root=UUID=…` or `root=/dev/disk/by-uuid/…`),
/// kernel path (without leading slashes) and sort key from a boot entry;
/// GRUB `menuentry` lines give the title as their first quoted string.
pub fn parse_boot_entry(content: &str) -> (r: ParsedBootEntry)
    ensures
        (r.title@, r.root_uuid@, r.kernel@, r.sort_key@) == boot_entry_fields(content@),
{
    let c = chars_of(content);
    let (t, u, k, s) = parse_entry_chars(&c);
    ParsedBootEntry { title: string_of(&t), root_uuid: string_of(&u), kernel: string_of(&k), sort_key: string_of(&s) }
}

// ─── GRUB ─────────────────────────────────────────────────────

/// Title, id, root UUID, kernel and disk of a boot entry.
pub type EntryView = (Seq<char>, Seq<char>, Seq<char>, Seq<char>, DiskSide);

pub open spec fn entry_view(e: BootEntryInfo) -> EntryView {
    (e.title@, e.id@, e.root_uuid@, e.kernel@, e.disk)
}

pub open spec fn entry_views(es: Seq<BootEntryInfo>) -> Seq<EntryView> {
    es.map_values(|e: BootEntryInfo| entry_view(e))
}

/// The entry of a GRUB menu block: its id is the title with spaces as
/// dashes, lowercased, or "grub-entry-N" for an untitled block.
pub open spec fn grub_entry(block: Seq<char>, disk: DiskSide, idx: nat) -> EntryView {
    let f = boot_entry_fields(block);
    let id = if f.0.len() == 0 {
        "grub-entry-"@ + dec(idx)
    } else {
        lowercase(replace(f.0, " "@, "-"@))
    };
    (f.0, id, f.1, f.2, disk)
}

/// Entries so far, current block, inside a block, entries counted.
pub type GrubState = (Seq<EntryView>, Seq<char>, bool, nat);

/// The state after one more line of grub.cfg.
pub open spec fn grub_step(st: GrubState, line: Seq<char>, disk: DiskSide) -> GrubState {
    if starts_with(line, "menuentry "@) {
        let close = st.2 && st.1.len() > 0;
        (
            if close { st.0.push(grub_entry(st.1, disk, st.3)) } else { st.0 },
            line + seq!['\n'],
            true,
            if close { st.3 + 1 } else { st.3 },
        )
    } else if st.2 {
        if trim(line) == "}"@ {
            (st.0.push(grub_entry(st.1, disk, st.3)), st.1, false, st.3 + 1)
        } else {
            (st.0, st.1 + line + seq!['\n'], true, st.3)
        }
    } else {
        st
    }
}

pub open spec fn grub_fold(ls: Seq<Seq<char>>, disk: DiskSide) -> GrubState
    decreases ls.len(),
{
    if ls.len() == 0 {
        (seq![], seq![], false, 0)
    } else {
        grub_step(grub_fold(ls.drop_last(), disk), ls.last(), disk)
    }
}

/// The entries of a grub.cfg: one per `menuentry` block, a block ending at a
/// line `}` or at the next `menuentry` or at the end of the file.
pub open spec fn grub_entries(cfg: Seq<char>, disk: DiskSide) -> Seq<EntryView> {
    let st = grub_fold(lines(cfg), disk);
    if st.2 && st.1.len() > 0 {
        st.0.push(grub_entry(st.1, disk, st.3))
    } else {
        st.0
    }
}

fn push_grub_entry(block: &Vec<char>, disk: DiskSide, idx: &mut u64, out: &mut Vec<BootEntryInfo>)
    requires
        *old(idx) < u64::MAX,
    ensures
        entry_views(final(out)@) == entry_views(old(out)@).push(grub_entry(block@, disk, *old(idx) as nat)),
        *final(idx) == *old(idx) + 1,
{
    let (title, root, kernel, _sort) = parse_entry_chars(block);
    let id: String = if title.len() == 0 {
        let mut v: Vec<char> = Vec::new();
        push_str(&mut v, "grub-entry-");
        push_dec(&mut v, *idx);
        string_of(&v)
    } else {
        proof {
            reveal_strlit(" ");
        }
        let dashed = replace_chars(&title, " ", "-");
        let ds = string_of(&dashed);
        to_lowercase(ds.as_str())
    };
    let e = BootEntryInfo {
        title: string_of(&title),
        id,
        root_uuid: string_of(&root),
        kernel: string_of(&kernel),
        disk,
    };
    let ghost before = out@;
    out.push(e);
    assert(entry_views(out@) =~= entry_views(before).push(grub_entry(block@, disk, *old(idx) as nat)));
    *idx = *idx + 1;
}

/// Boot entries of a grub.cfg.
pub fn parse_grub_entries(grub_cfg: &str, disk: DiskSide) -> (r: Vec<BootEntryInfo>)
    ensures
        entry_views(r@) == grub_entries(grub_cfg@, disk),
{
    let c = chars_of(grub_cfg);
    let ls = split_lines(&c);
    let mut entries: Vec<BootEntryInfo> = Vec::new();
    let mut block: Vec<char> = Vec::new();
    let mut in_entry = false;
    let mut idx: u64 = 0;
    let mut i: usize = 0;
    assert(vviews(ls@).take(0) =~= Seq::<Seq<char>>::empty());
    assert(entry_views(entries@) =~= Seq::<EntryView>::empty());
    while i < ls.len()
        invariant
            i <= ls.len(),
            vviews(ls@) == lines(grub_cfg@),
            idx + (if in_entry { 1int } else { 0int }) <= i,
            (entry_views(entries@), block@, in_entry, idx as nat) == grub_fold(
                vviews(ls@).take(i as int),
                disk,
            ),
        decreases ls.len() - i,
    {
        let ghost pre = vviews(ls@).take(i + 1);
        assert(pre.drop_last() =~= vviews(ls@).take(i as int));
        assert(pre.last() == ls@[i as int]@);
        let line = &ls[i];
        if starts_with_str(line, "menuentry ") {
            if in_entry && block.len() > 0 {
                push_grub_entry(&block, disk, &mut idx, &mut entries);
            }
            in_entry = true;
            let mut nb: Vec<char> = Vec::new();
            push_all(&mut nb, line);
            nb.push('\n');
            block = nb;
        } else if in_entry {
            let t = trim_chars(line);
            if t.len() == 1 && t[0] == '}' {
                assert(t@ =~= "}"@) by {
                    reveal_strlit("}");
                }
                push_grub_entry(&block, disk, &mut idx, &mut entries);
                in_entry = false;
            } else {
                proof {
                    reveal_strlit("}");
                    if t@ == "}"@ {
                        assert(t@.len() == 1 && t@[0] == '}');
                    }
                }
                push_all(&mut block, line);
                block.push('\n');
            }
        }
        i = i + 1;
    }
    assert(vviews(ls@).take(ls.len() as int) =~= vviews(ls@));
    if in_entry && block.len() > 0 {
        push_grub_entry(&block, disk, &mut idx, &mut entries);
    }
    entries
}

// ─── Bootloader version and titles ────────────────────────────

/// The longest prefix of ASCII digits and dots.
pub open spec fn version_prefix(s: Seq<char>) -> Seq<char>
    decreases s.len(),
{
    if s.len() > 0 && (('0' <= s[0] && s[0] <= '9') || s[0] == '.') {
        seq![s[0]] + version_prefix(s.drop_first())
    } else {
        seq![]
    }
}

/// The version after the first `prefix` in a line, if digits or dots follow it.
pub open spec fn line_version(line: Seq<char>, prefix: Seq<char>) -> Option<Seq<char>> {
    match find_str(line, prefix) {
        Some(pos) => {
            let ver = version_prefix(line.skip((pos + prefix.len()) as int));
            if ver.len() > 0 {
                Some(prefix + ver)
            } else {
                None
            }
        },
        None => None,
    }
}

/// The version from the first line that has one.
pub open spec fn first_version(ls: Seq<Seq<char>>, prefix: Seq<char>) -> Option<Seq<char>>
    decreases ls.len(),
{
    if ls.len() == 0 {
        None
    } else {
        match line_version(ls[0], prefix) {
            Some(v) => Some(v),
            None => first_version(ls.drop_first(), prefix),
        }
    }
}

fn version_prefix_exec(s: &Vec<char>, from: usize) -> (r: Vec<char>)
    requires
        from <= s@.len(),
    ensures
        r@ == version_prefix(s@.skip(from as int)),
{
    let mut i: usize = from;
    let mut r: Vec<char> = Vec::new();
    while i < s.len() && ((s[i] >= '0' && s[i] <= '9') || s[i] == '.')
        invariant
            from <= i <= s@.len(),
            r@ + version_prefix(s@.skip(i as int)) == version_prefix(s@.skip(from as int)),
        decreases s.len() - i,
    {
        let ghost rest = s@.skip(i as int);
        assert(rest.drop_first() =~= s@.skip(i + 1));
        assert(rest[0] == s@[i as int]);
        r.push(s[i]);
        assert(r@ + version_prefix(s@.skip(i + 1)) =~= r@.drop_last() + version_prefix(rest));
        i = i + 1;
    }
    proof {
        if i < s.len() {
            assert(s@.skip(i as int)[0] == s@[i as int]);
        }
        assert(r@ + Seq::<char>::empty() =~= r@);
    }
    r
}

/// The bootloader version in the output of `strings` run on an EFI binary:
/// `prefix` followed by the digits and dots after its first occurrence in
/// the first line where some follow.
pub fn bl_version_in(strings_output: &str, prefix: &str) -> (r: Option<String>)
    ensures
        match r {
            Some(v) => first_version(lines(strings_output@), prefix@) == Some(v@),
            None => first_version(lines(strings_output@), prefix@) is None,
        },
{
    let c = chars_of(strings_output);
    let p = chars_of(prefix);
    let ls = split_lines(&c);
    let mut i: usize = 0;
    assert(vviews(ls@).skip(0) =~= vviews(ls@));
    while i < ls.len()
        invariant
            i <= ls.len(),
            p@ == prefix@,
            vviews(ls@) == lines(strings_output@),
            first_version(lines(strings_output@), prefix@) == first_version(vviews(ls@).skip(i as int), prefix@),
        decreases ls.len() - i,
    {
        let ghost rest = vviews(ls@).skip(i as int);
        assert(rest[0] == ls@[i as int]@);
        assert(rest.drop_first() =~= vviews(ls@).skip(i + 1));
        let found = find_str_exec(&ls[i], &p);
        match found {
            Some(pos) => {
                let line_len = ls[i].len();
                assert(pos + p@.len() <= line_len);
                let ver = version_prefix_exec(&ls[i], pos + p.len());
                if ver.len() > 0 {
                    let mut out: Vec<char> = Vec::new();
                    push_all(&mut out, &p);
                    push_all(&mut out, &ver);
                    return Some(string_of(&out));
                }
            },
            None => {},
        }
        i = i + 1;
    }
    None
}

/// `(Old)` replaced by `(label)` between the first `(` and the last `)`,
/// or ` (label)` appended.
pub open spec fn relabel(t: Seq<char>, label: Seq<char>) -> Seq<char> {
    match (char_pos(t, '(') < t.len(), last_char_pos(t, ')')) {
        (true, Some(e)) if e > char_pos(t, '(') => t.take(char_pos(t, '(') as int) + seq!['('] + label
            + seq![')'] + t.skip(e + 1 as int),
        _ => t + " ("@ + label + seq![')'],
    }
}

pub fn relabel_chars(t: &Vec<char>, label: &Vec<char>) -> (r: Vec<char>)
    ensures
        r@ == relabel(t@, label@),
{
    let s = char_pos_exec(t, '(');
    let e = last_char_pos_exec(t, ')');
    let mut r: Vec<char> = Vec::new();
    match e {
        Some(e) => {
            if s < t.len() && e > s {
                let head = slice_chars(t, 0, s);
                let tail = slice_chars(t, e + 1, t.len());
                push_all(&mut r, &head);
                r.push('(');
                push_all(&mut r, label);
                r.push(')');
                push_all(&mut r, &tail);
                assert(r@ =~= relabel(t@, label@));
                return r;
            }
        },
        None => {},
    }
    push_all(&mut r, t);
    push_str(&mut r, " (");
    push_all(&mut r, label);
    r.push(')');
    assert(r@ =~= relabel(t@, label@));
    r
}

/// Backup entries titled with the backup label (an empty label changes nothing).
pub open spec fn backup_titled(e: EntryView, label: Seq<char>) -> EntryView {
    if e.4 == DiskSide::Backup && label.len() > 0 {
        (relabel(e.0, label), e.1, e.2, e.3, e.4)
    } else {
        e
    }
}

/// Shows the configured backup label in the titles of the backup's entries.
pub fn normalize_backup_titles(entries: &mut Vec<BootEntryInfo>, backup_label: &str)
    ensures
        final(entries)@.len() == old(entries)@.len(),
        forall|i: int|
            0 <= i < old(entries)@.len() ==> entry_view(#[trigger] final(entries)@[i]) == backup_titled(
                entry_view(old(entries)@[i]),
                backup_label@,
            ),
{
    if backup_label.unicode_len() == 0 {
        return;
    }
    let label = chars_of(backup_label);
    let mut out: Vec<BootEntryInfo> = Vec::new();
    let mut i: usize = 0;
    while i < entries.len()
        invariant
            i <= entries@.len(),
            label@ == backup_label@,
            label@.len() > 0,
            out@.len() == i,
            forall|j: int|
                0 <= j < i ==> entry_view(#[trigger] out@[j]) == backup_titled(
                    entry_view(entries@[j]),
                    backup_label@,
                ),
        decreases entries.len() - i,
    {
        let e = &entries[i];
        let title = if e.disk == DiskSide::Backup {
            let t = chars_of(e.title.as_str());
            let nt = relabel_chars(&t, &label);
            string_of(&nt)
        } else {
            e.title.clone()
        };
        out.push(BootEntryInfo {
            title,
            id: e.id.clone(),
            root_uuid: e.root_uuid.clone(),
            kernel: e.kernel.clone(),
            disk: e.disk,
        });
        i = i + 1;
    }
    *entries = out;
}

} // verus!
