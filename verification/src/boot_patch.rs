//! Boot entry patching (systemd-boot): what the backup disk's entries and the
//! cross-boot entries of both disks contain, and which stale entries go.
//! Reading and writing the entry files is left to the caller.

use vstd::prelude::*;
use vstd::string::*;
use crate::boot::{relabel, relabel_chars};
use crate::helpers::string_views;
use crate::intent::{lowercase, to_lowercase};
use crate::text::{
    chars_of, contains, dec, push_dec, contains_str, first_starting, first_starting_exec, join, join_chars, lines,
    push_all, push_str, replace, replace_chars, split_lines, starts_with, starts_with_str,
    string_of, trim, trim_chars, trim_end_matches, trim_end_matches_exec, vviews,
};

verus! {

// ─── Labels ───────────────────────────────────────────────────

/// What `char::is_alphanumeric` returns (Unicode Alphabetic or Numeric).
pub uninterp spec fn alphanumeric(c: char) -> bool;

/// `char::is_alphanumeric`.
#[verifier::external_body]
fn is_alphanumeric(c: char) -> (r: bool)
    ensures
        r == alphanumeric(c),
{
    c.is_alphanumeric()
}

/// Characters a label keeps: alphanumerics, space, dash, underscore.
pub open spec fn label_char(c: char) -> bool {
    alphanumeric(c) || c == ' ' || c == '-' || c == '_'
}

pub open spec fn cleaned_label(s: Seq<char>) -> Seq<char>
    decreases s.len(),
{
    if s.len() == 0 {
        seq![]
    } else if label_char(s.last()) {
        cleaned_label(s.drop_last()).push(s.last())
    } else {
        cleaned_label(s.drop_last())
    }
}

/// Bytes of a character in UTF-8.
pub open spec fn utf8_len(c: char) -> nat {
    if (c as u32) < 0x80 {
        1
    } else if (c as u32) < 0x800 {
        2
    } else if (c as u32) < 0x10000 {
        3
    } else {
        4
    }
}

/// Bytes of a string in UTF-8.
pub open spec fn byte_len(s: Seq<char>) -> nat
    decreases s.len(),
{
    if s.len() == 0 {
        0
    } else {
        utf8_len(s[0]) + byte_len(s.drop_first())
    }
}

/// The longest prefix of at most `n` bytes.
pub open spec fn take_bytes(s: Seq<char>, n: nat) -> Seq<char>
    decreases s.len(),
{
    if s.len() == 0 || utf8_len(s[0]) > n {
        seq![]
    } else {
        seq![s[0]] + take_bytes(s.drop_first(), (n - utf8_len(s[0])) as nat)
    }
}

/// Cutting the cleaned label at `max` bytes falls on a character boundary
/// (or no cut is needed); the cut panics otherwise.
pub open spec fn label_cut_ok(s: Seq<char>, max: nat) -> bool {
    let c = cleaned_label(s);
    byte_len(c) <= max || byte_len(take_bytes(c, max)) == max
}

/// The label reduced to its label characters, cut to `max` bytes and trimmed
/// when longer.
pub open spec fn sanitized_label(s: Seq<char>, max: nat) -> Seq<char> {
    let c = cleaned_label(s);
    if byte_len(c) > max {
        trim(take_bytes(c, max))
    } else {
        c
    }
}

pub(crate) fn utf8_len_exec(c: char) -> (r: usize)
    ensures
        r == utf8_len(c),
{
    let x = c as u32;
    if x < 0x80 {
        1
    } else if x < 0x800 {
        2
    } else if x < 0x10000 {
        3
    } else {
        4
    }
}

fn cleaned_label_exec(s: &Vec<char>) -> (r: Vec<char>)
    ensures
        r@ == cleaned_label(s@),
{
    let mut r: Vec<char> = Vec::new();
    let mut i: usize = 0;
    while i < s.len()
        invariant
            i <= s@.len(),
            r@ == cleaned_label(s@.take(i as int)),
        decreases s.len() - i,
    {
        let c = s[i];
        assert(s@.take(i + 1).drop_last() =~= s@.take(i as int));
        if is_alphanumeric(c) || c == ' ' || c == '-' || c == '_' {
            r.push(c);
        }
        i = i + 1;
    }
    assert(s@.take(s@.len() as int) =~= s@);
    r
}

proof fn lemma_byte_len_split(s: Seq<char>, i: int)
    requires
        0 <= i <= s.len(),
    ensures
        byte_len(s) == byte_len(s.take(i)) + byte_len(s.skip(i)),
    decreases i,
{
    if i > 0 {
        lemma_byte_len_split(s.drop_first(), i - 1);
        assert(s.take(i).drop_first() =~= s.drop_first().take(i - 1));
        assert(s.skip(i) =~= s.drop_first().skip(i - 1));
    } else {
        assert(s.skip(0) =~= s);
        assert(byte_len(s.take(0)) == 0);
    }
}

proof fn lemma_byte_len_single(x: char)
    ensures
        byte_len(seq![x]) == utf8_len(x),
{
    assert(seq![x].drop_first() =~= Seq::<char>::empty());
    reveal_with_fuel(byte_len, 2);
}

/// Whether the byte length exceeds `max`, and the prefix of at most `max` bytes.
fn cut_bytes(c: &Vec<char>, max: usize) -> (r: (bool, Vec<char>, usize))
    ensures
        r.0 == (byte_len(c@) > max),
        r.1@ == take_bytes(c@, max as nat),
        r.2 == byte_len(take_bytes(c@, max as nat)),
{
    let mut i: usize = 0;
    let mut used: usize = 0;
    let mut stopped = false;
    assert(c@.skip(0) =~= c@);
    while i < c.len() && !stopped
        invariant
            i <= c@.len(),
            used <= max,
            used == byte_len(c@.take(i as int)),
            take_bytes(c@, max as nat) == c@.take(i as int) + (if stopped {
                Seq::<char>::empty()
            } else {
                take_bytes(c@.skip(i as int), (max - used) as nat)
            }),
            stopped ==> i < c@.len() && utf8_len(c@[i as int]) > max - used,
        decreases c.len() - i, if stopped { 0int } else { 1int },
    {
        let ghost rest = c@.skip(i as int);
        let w = utf8_len_exec(c[i]);
        assert(rest[0] == c@[i as int]);
        if w > max - used {
            stopped = true;
            assert(c@.take(i as int) + Seq::<char>::empty() =~= c@.take(i as int));
        } else {
            proof {
                assert(rest.drop_first() =~= c@.skip(i + 1));
                assert(c@.take(i + 1) =~= c@.take(i as int).push(c@[i as int]));
                assert(c@.take(i as int) + (seq![c@[i as int]] + take_bytes(c@.skip(i + 1), (max - used - w) as nat))
                    =~= c@.take(i + 1) + take_bytes(c@.skip(i + 1), (max - used - w) as nat));
                lemma_byte_len_split(c@.take(i + 1), i as int);
                assert(c@.take(i + 1).take(i as int) =~= c@.take(i as int));
                assert(c@.take(i + 1).skip(i as int) =~= seq![c@[i as int]]);
                lemma_byte_len_single(c@[i as int]);
            }
            used = used + w;
            i = i + 1;
        }
    }
    proof {
        if !stopped {
            assert(c@.skip(i as int) =~= Seq::<char>::empty());
            assert(c@.take(i as int) =~= c@);
            assert(take_bytes(c@, max as nat) =~= c@);
        }
        lemma_byte_len_split(c@, i as int);
        if stopped {
            lemma_byte_len_split(c@.skip(i as int), 1);
            assert(c@.skip(i as int).take(1) =~= seq![c@[i as int]]);
            lemma_byte_len_single(c@[i as int]);
        }
        assert(take_bytes(c@, max as nat) =~= c@.take(i as int));
    }
    let prefix = crate::text::slice_chars(c, 0, i);
    (stopped, prefix, used)
}

/// Keeps label characters only and cuts the label to `max_len` bytes,
/// trimming what remains after a cut.
pub fn sanitize_label(label: &str, max_len: usize) -> (r: String)
    requires
        label_cut_ok(label@, max_len as nat),
    ensures
        r@ == sanitized_label(label@, max_len as nat),
{
    let v = chars_of(label);
    let c = cleaned_label_exec(&v);
    let (over, prefix, _) = cut_bytes(&c, max_len);
    if over {
        string_of(&trim_chars(&prefix))
    } else {
        string_of(&c)
    }
}

/// `sanitize_label`, or `None` where the cut would split a character.
pub fn try_sanitize_label(label: &str, max_len: usize) -> (r: Option<String>)
    ensures
        match r {
            Some(s) => label_cut_ok(label@, max_len as nat) && s@ == sanitized_label(label@, max_len as nat),
            None => !label_cut_ok(label@, max_len as nat),
        },
{
    let v = chars_of(label);
    let c = cleaned_label_exec(&v);
    let (over, prefix, used) = cut_bytes(&c, max_len);
    if over && used != max_len {
        return None;
    }
    Some(sanitize_label(label, max_len))
}

// ─── Entry text ───────────────────────────────────────────────

/// Title lines relabelled, other lines as they are.
pub open spec fn relabel_lines(ls: Seq<Seq<char>>, label: Seq<char>) -> Seq<Seq<char>>
    decreases ls.len(),
{
    if ls.len() == 0 {
        seq![]
    } else {
        let l = ls.last();
        relabel_lines(ls.drop_last(), label).push(
            if starts_with(l, "title "@) {
                relabel(l, label)
            } else {
                l
            },
        )
    }
}

/// The entry with `(Old)` in its title lines replaced by `(label)`, or
/// ` (label)` appended to them.
pub open spec fn relabeled_entry(content: Seq<char>, label: Seq<char>) -> Seq<char> {
    join(relabel_lines(lines(content), label), seq!['\n'])
}

fn relabel_entry_chars(content: &Vec<char>, label: &Vec<char>) -> (r: Vec<char>)
    ensures
        r@ == relabeled_entry(content@, label@),
{
    let ls = split_lines(content);
    let mut out: Vec<Vec<char>> = Vec::new();
    let mut i: usize = 0;
    while i < ls.len()
        invariant
            i <= ls@.len(),
            vviews(ls@) == lines(content@),
            vviews(out@) == relabel_lines(vviews(ls@).take(i as int), label@),
        decreases ls.len() - i,
    {
        let l = &ls[i];
        let nl = if starts_with_str(l, "title ") {
            relabel_chars(l, label)
        } else {
            crate::text::slice_chars(l, 0, l.len())
        };
        assert(l@.subrange(0, l@.len() as int) =~= l@);
        out.push(nl);
        assert(vviews(ls@).take(i + 1).drop_last() =~= vviews(ls@).take(i as int));
        assert(vviews(ls@).take(i + 1).last() == l@);
        assert(vviews(out@) =~= relabel_lines(vviews(ls@).take(i + 1), label@));
        i = i + 1;
    }
    assert(vviews(ls@).take(ls@.len() as int) =~= vviews(ls@));
    let r = join_chars(&out, "\n");
    proof {
        reveal_strlit("\n");
        assert("\n"@ =~= seq!['\n']);
    }
    r
}

/// Rewrites `(OldLabel)` to `(NewLabel)` in the title line, or appends `(Label)`.
pub fn relabel_entry(content: &str, new_label: &str) -> (r: String)
    ensures
        r@ == relabeled_entry(content@, new_label@),
{
    let c = chars_of(content);
    let l = chars_of(new_label);
    string_of(&relabel_entry_chars(&c, &l))
}

/// The entry with its `sort-key` line set to `key`: the first such line is
/// replaced, or one is inserted after the first title line (or at the top).
pub open spec fn with_sort_key(content: Seq<char>, key: Seq<char>) -> Seq<char> {
    let ls = lines(content);
    let line = "sort-key "@ + key;
    match first_starting(ls, "sort-key "@) {
        Some(i) => join(ls.update(i as int, line), seq!['\n']),
        None => {
            let at = match first_starting(ls, "title "@) {
                Some(j) => j + 1,
                None => 0,
            };
            join(ls.insert(at as int, line), seq!['\n'])
        },
    }
}

fn upsert_sort_key_chars(content: &Vec<char>, key: &Vec<char>) -> (r: Vec<char>)
    ensures
        r@ == with_sort_key(content@, key@),
{
    let mut ls = split_lines(content);
    let n = ls.len();
    let mut line: Vec<char> = Vec::new();
    push_str(&mut line, "sort-key ");
    push_all(&mut line, key);
    match first_starting_exec(&ls, "sort-key ") {
        Some(i) => {
            let ghost before = ls@;
            ls.set(i, line);
            assert(vviews(ls@) =~= vviews(before).update(i as int, "sort-key "@ + key@));
        },
        None => {
            let at = match first_starting_exec(&ls, "title ") {
                Some(j) => j + 1,
                None => 0,
            };
            let ghost before = ls@;
            ls.insert(at, line);
            assert(vviews(ls@) =~= vviews(before).insert(at as int, "sort-key "@ + key@));
        },
    }
    let r = join_chars(&ls, "\n");
    proof {
        reveal_strlit("\n");
        assert("\n"@ =~= seq!['\n']);
    }
    r
}

/// Inserts or updates the `sort-key` line (keeps cross-entries after local ones).
pub fn upsert_sort_key(content: &str, sort_key: &str) -> (r: String)
    ensures
        r@ == with_sort_key(content@, sort_key@),
{
    let c = chars_of(content);
    let k = chars_of(sort_key);
    string_of(&upsert_sort_key_chars(&c, &k))
}

/// Sort key of an entry: LTS kernels (1), normal (2), rescue (8); cross-entries
/// get a leading 9.
pub open spec fn sort_key_of(base: Seq<char>, cross: bool) -> Seq<char> {
    let n = if contains(base, "-lts"@) {
        '1'
    } else if contains(base, "-rescue"@) {
        '8'
    } else {
        '2'
    };
    (if cross { seq!['9'] } else { seq![] }) + seq![n, '-'] + base
}

fn entry_sort_key_chars(base: &Vec<char>, cross: bool) -> (r: Vec<char>)
    ensures
        r@ == sort_key_of(base@, cross),
{
    let n = if contains_str(base, "-lts") {
        '1'
    } else if contains_str(base, "-rescue") {
        '8'
    } else {
        '2'
    };
    let mut r: Vec<char> = Vec::new();
    if cross {
        r.push('9');
    }
    r.push(n);
    r.push('-');
    push_all(&mut r, base);
    assert(r@ =~= sort_key_of(base@, cross));
    r
}

/// Sort key: LTS(1) → normal(2) → rescue(8), cross-entries get a `9` prefix.
pub fn entry_sort_key(base: &str, cross: bool) -> (r: String)
    ensures
        r@ == sort_key_of(base@, cross),
{
    let b = chars_of(base);
    string_of(&entry_sort_key_chars(&b, cross))
}

// ─── Patching the backup's entries ────────────────────────────

/// `UUID=` followed by a UUID.
pub open spec fn uuid_ref(u: Seq<char>) -> Seq<char> {
    "UUID="@ + u
}

fn uuid_ref_chars(u: &str) -> (r: Vec<char>)
    ensures
        r@ == uuid_ref(u@),
        r@.len() > 0,
{
    let mut r: Vec<char> = Vec::new();
    push_str(&mut r, "UUID=");
    push_str(&mut r, u);
    proof {
        reveal_strlit("UUID=");
    }
    r
}

/// The two character sequences are equal.
pub fn chars_eq_pub(a: &Vec<char>, b: &Vec<char>) -> (r: bool)
    ensures
        r == (a@ == b@),
{
    chars_eq(a, b)
}

fn chars_eq(a: &Vec<char>, b: &Vec<char>) -> (r: bool)
    ensures
        r == (a@ == b@),
{
    if a.len() != b.len() {
        return false;
    }
    let mut i: usize = 0;
    while i < a.len()
        invariant
            a@.len() == b@.len(),
            i <= a@.len(),
            forall|j: int| 0 <= j < i ==> a@[j] == b@[j],
        decreases a.len() - i,
    {
        if a[i] != b[i] {
            return false;
        }
        i = i + 1;
    }
    assert(a@ =~= b@);
    true
}

/// Patching runs only for two different, known disks.
pub fn boot_patch_needed(primary_uuid: &str, backup_uuid: &str) -> (r: bool)
    ensures
        r == (primary_uuid@.len() > 0 && backup_uuid@.len() > 0 && primary_uuid@ != backup_uuid@),
{
    let p = chars_of(primary_uuid);
    let b = chars_of(backup_uuid);
    p.len() > 0 && b.len() > 0 && !chars_eq(&p, &b)
}

/// What patching does with one primary entry file.
pub struct EntryPatch {
    /// The primary entry with its sort key, when that changes it.
    pub primary_rewrite: Option<String>,
    /// The entry written to the backup disk.
    pub backup_body: String,
}

/// The primary entry (with its sort key, unless it is a cross-entry) and the
/// backup entry: the primary's root UUID replaced by the backup's and the
/// title relabelled.
pub open spec fn patched_entry(fname: Seq<char>, content: Seq<char>, p: Seq<char>, b: Seq<char>, label: Seq<char>) -> (Option<Seq<char>>, Seq<char>) {
    let keyed = if !contains(fname, "-cross-"@) {
        with_sort_key(content, sort_key_of(trim_end_matches(fname, ".conf"@), false))
    } else {
        content
    };
    (
        if keyed != content { Some(keyed) } else { None },
        relabeled_entry(replace(keyed, uuid_ref(p), uuid_ref(b)), label),
    )
}

pub fn patch_entry(fname: &str, content: &str, primary_uuid: &str, backup_uuid: &str, short_label: &str) -> (r: EntryPatch)
    ensures
        ({
            let want = patched_entry(fname@, content@, primary_uuid@, backup_uuid@, short_label@);
            &&& r.backup_body@ == want.1
            &&& match r.primary_rewrite {
                Some(w) => want.0 == Some(w@),
                None => want.0 is None,
            }
        }),
{
    let f = chars_of(fname);
    let c = chars_of(content);
    let keyed = if !contains_str(&f, "-cross-") {
        let base = trim_end_matches_exec(&f, ".conf");
        let key = entry_sort_key_chars(&base, false);
        upsert_sort_key_chars(&c, &key)
    } else {
        crate::text::slice_chars(&c, 0, c.len())
    };
    assert(c@.subrange(0, c@.len() as int) =~= c@);
    let rewrite = if !chars_eq(&keyed, &c) {
        Some(string_of(&keyed))
    } else {
        None
    };
    let from = uuid_ref_chars(primary_uuid);
    let to = uuid_ref_chars(backup_uuid);
    let fs = string_of(&from);
    let ts = string_of(&to);
    let swapped = replace_chars(&keyed, fs.as_str(), ts.as_str());
    let label = chars_of(short_label);
    let body = relabel_entry_chars(&swapped, &label);
    EntryPatch { primary_rewrite: rewrite, backup_body: string_of(&body) }
}

/// Names kept by `keep` from `files`, in order.
pub open spec fn stale_of(files: Seq<Seq<char>>, primary: Seq<Seq<char>>) -> Seq<Seq<char>>
    decreases files.len(),
{
    if files.len() == 0 {
        seq![]
    } else {
        let f = files.last();
        let rest = stale_of(files.drop_last(), primary);
        if !contains(f, "-cross-"@) && !primary.contains(f) {
            rest.push(f)
        } else {
            rest
        }
    }
}

fn contains_name(names: &Vec<String>, f: &String) -> (r: bool)
    ensures
        r == string_views(names@).contains(f@),
{
    let mut i: usize = 0;
    while i < names.len()
        invariant
            i <= names@.len(),
            forall|j: int| 0 <= j < i ==> string_views(names@)[j] != f@,
        decreases names.len() - i,
    {
        if crate::boot::string_eq(&names[i], f) {
            assert(string_views(names@)[i as int] == f@);
            return true;
        }
        i = i + 1;
    }
    false
}

/// Entries on the backup disk that no primary entry produced (cross-entries excepted).
pub fn stale_backup_entries(backup_files: &Vec<String>, primary_files: &Vec<String>) -> (r: Vec<String>)
    ensures
        string_views(r@) == stale_of(string_views(backup_files@), string_views(primary_files@)),
{
    let mut out: Vec<String> = Vec::new();
    let mut i: usize = 0;
    while i < backup_files.len()
        invariant
            i <= backup_files@.len(),
            string_views(out@) == stale_of(string_views(backup_files@).take(i as int), string_views(primary_files@)),
        decreases backup_files.len() - i,
    {
        let f = &backup_files[i];
        let fc = chars_of(f.as_str());
        assert(string_views(backup_files@).take(i + 1).drop_last() =~= string_views(backup_files@).take(i as int));
        if !contains_str(&fc, "-cross-") && !contains_name(primary_files, f) {
            out.push(f.clone());
            assert(string_views(out@) =~= stale_of(string_views(backup_files@).take(i as int), string_views(primary_files@)).push(f@));
        }
        i = i + 1;
    }
    assert(string_views(backup_files@).take(backup_files@.len() as int) =~= string_views(backup_files@));
    out
}

/// The error when no entry could be written, else the log line.
pub open spec fn patch_outcome(ok: nat, total: nat, p: Seq<char>, b: Seq<char>) -> Result<Seq<char>, Seq<char>> {
    if ok == 0 {
        Err("FEHLER: 0/"@ + dec(total) + " Boot-Entries gepatcht. UUID "@ + p + " → "@ + b)
    } else {
        Ok("Boot-Entry-Sync OK: "@ + dec(ok) + "/"@ + dec(total) + " Einträge (UUID: "@ + p + " → "@ + b + ")"@)
    }
}

pub fn boot_patch_outcome(ok: u32, total: usize, primary_uuid: &str, backup_uuid: &str) -> (r: Result<String, String>)
    ensures
        match r {
            Ok(m) => patch_outcome(ok as nat, total as nat, primary_uuid@, backup_uuid@) == Ok::<Seq<char>, Seq<char>>(m@),
            Err(m) => patch_outcome(ok as nat, total as nat, primary_uuid@, backup_uuid@) == Err::<Seq<char>, Seq<char>>(m@),
        },
{
    let mut v: Vec<char> = Vec::new();
    if ok == 0 {
        push_str(&mut v, "FEHLER: 0/");
        push_dec(&mut v, total as u64);
        push_str(&mut v, " Boot-Entries gepatcht. UUID ");
        push_str(&mut v, primary_uuid);
        push_str(&mut v, " → ");
        push_str(&mut v, backup_uuid);
        Err(string_of(&v))
    } else {
        push_str(&mut v, "Boot-Entry-Sync OK: ");
        push_dec(&mut v, ok as u64);
        push_str(&mut v, "/");
        push_dec(&mut v, total as u64);
        push_str(&mut v, " Einträge (UUID: ");
        push_str(&mut v, primary_uuid);
        push_str(&mut v, " → ");
        push_str(&mut v, backup_uuid);
        push_str(&mut v, ")");
        Ok(string_of(&v))
    }
}

// ─── Cross-boot entries ───────────────────────────────────────

/// The name tag of a disk label: sanitised to 40 bytes, spaces removed, lowercased.
pub open spec fn cross_tag_of(label: Seq<char>) -> Seq<char> {
    lowercase(replace(sanitized_label(label, 40), " "@, ""@))
}

/// The tag of a label, or `None` where sanitising it would split a character.
pub fn cross_tag(label: &str) -> (r: Option<String>)
    ensures
        match r {
            Some(t) => label_cut_ok(label@, 40) && t@ == cross_tag_of(label@),
            None => !label_cut_ok(label@, 40),
        },
{
    match try_sanitize_label(label, 40) {
        None => None,
        Some(s) => {
            let c = chars_of(s.as_str());
            proof {
                reveal_strlit(" ");
            }
            let nospace = replace_chars(&c, " ", "");
            let ns = string_of(&nospace);
            Some(to_lowercase(ns.as_str()))
        },
    }
}

/// The cross-entries made from one primary entry.
pub struct CrossEntries {
    /// On the backup disk: boots the primary (UUID unchanged, primary label).
    pub backup_name: String,
    pub backup_body: String,
    /// On the primary disk: boots the backup (UUID swapped, backup label).
    pub primary_name: String,
    pub primary_body: String,
}

/// Cross-entries of a primary entry that boots the primary root; none for
/// cross-entries themselves.
pub open spec fn cross_entries_of(
    fname: Seq<char>,
    content: Seq<char>,
    p: Seq<char>,
    b: Seq<char>,
    p_label: Seq<char>,
    b_label: Seq<char>,
    tag_p: Seq<char>,
    tag_b: Seq<char>,
) -> Option<(Seq<char>, Seq<char>, Seq<char>, Seq<char>)> {
    if contains(fname, "-cross-"@) || !contains(content, uuid_ref(p)) {
        None
    } else {
        let base = trim_end_matches(fname, ".conf"@);
        let sort = sort_key_of(base, true);
        Some(
            (
                base + "-cross-"@ + tag_p + ".conf"@,
                with_sort_key(relabeled_entry(content, p_label), sort),
                base + "-cross-"@ + tag_b + ".conf"@,
                with_sort_key(relabeled_entry(replace(content, uuid_ref(p), uuid_ref(b)), b_label), sort),
            ),
        )
    }
}

fn cross_name(base: &Vec<char>, tag: &str) -> (r: Vec<char>)
    ensures
        r@ == base@ + "-cross-"@ + tag@ + ".conf"@,
{
    let mut r: Vec<char> = Vec::new();
    push_all(&mut r, base);
    push_str(&mut r, "-cross-");
    push_str(&mut r, tag);
    push_str(&mut r, ".conf");
    r
}

pub fn cross_entries(
    fname: &str,
    content: &str,
    primary_uuid: &str,
    backup_uuid: &str,
    primary_label: &str,
    backup_label: &str,
    tag_primary: &str,
    tag_backup: &str,
) -> (r: Option<CrossEntries>)
    ensures
        match r {
            Some(x) => cross_entries_of(fname@, content@, primary_uuid@, backup_uuid@, primary_label@, backup_label@, tag_primary@, tag_backup@)
                == Some((x.backup_name@, x.backup_body@, x.primary_name@, x.primary_body@)),
            None => cross_entries_of(fname@, content@, primary_uuid@, backup_uuid@, primary_label@, backup_label@, tag_primary@, tag_backup@) is None,
        },
{
    let f = chars_of(fname);
    let c = chars_of(content);
    let from = uuid_ref_chars(primary_uuid);
    if contains_str(&f, "-cross-") || !crate::text::contains_chars(&c, &from) {
        return None;
    }
    let base = trim_end_matches_exec(&f, ".conf");
    let sort = entry_sort_key_chars(&base, true);
    let pl = chars_of(primary_label);
    let bl = chars_of(backup_label);
    let backup_body = upsert_sort_key_chars(&relabel_entry_chars(&c, &pl), &sort);
    let to = uuid_ref_chars(backup_uuid);
    let fs = string_of(&from);
    let ts = string_of(&to);
    let swapped = replace_chars(&c, fs.as_str(), ts.as_str());
    let primary_body = upsert_sort_key_chars(&relabel_entry_chars(&swapped, &bl), &sort);
    Some(CrossEntries {
        backup_name: string_of(&cross_name(&base, tag_primary)),
        backup_body: string_of(&backup_body),
        primary_name: string_of(&cross_name(&base, tag_backup)),
        primary_body: string_of(&primary_body),
    })
}

/// Cross-entries on a disk that were not just written.
pub open spec fn stale_cross_of(files: Seq<Seq<char>>, written: Seq<Seq<char>>) -> Seq<Seq<char>>
    decreases files.len(),
{
    if files.len() == 0 {
        seq![]
    } else {
        let f = files.last();
        let rest = stale_cross_of(files.drop_last(), written);
        if contains(f, "-cross-"@) && !written.contains(f) {
            rest.push(f)
        } else {
            rest
        }
    }
}

pub fn stale_cross_entries(files: &Vec<String>, written: &Vec<String>) -> (r: Vec<String>)
    ensures
        string_views(r@) == stale_cross_of(string_views(files@), string_views(written@)),
{
    let mut out: Vec<String> = Vec::new();
    let mut i: usize = 0;
    while i < files.len()
        invariant
            i <= files@.len(),
            string_views(out@) == stale_cross_of(string_views(files@).take(i as int), string_views(written@)),
        decreases files.len() - i,
    {
        let f = &files[i];
        let fc = chars_of(f.as_str());
        assert(string_views(files@).take(i + 1).drop_last() =~= string_views(files@).take(i as int));
        if contains_str(&fc, "-cross-") && !contains_name(written, f) {
            out.push(f.clone());
            assert(string_views(out@) =~= stale_cross_of(string_views(files@).take(i as int), string_views(written@)).push(f@));
        }
        i = i + 1;
    }
    assert(string_views(files@).take(files@.len() as int) =~= string_views(files@));
    out
}

} // verus!
