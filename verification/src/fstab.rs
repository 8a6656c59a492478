//! fstab patching for backup disks: the disks' UUIDs swapped, shared
//! subvolumes kept on the primary disk and made `nofail`.

use vstd::prelude::*;
use vstd::string::*;
use crate::boot_patch::uuid_ref;
use crate::helpers::string_views;
use crate::text::{
    chars_of, contains, contains_chars, contains_str, join, join_chars, lines, matches_at, push_all, push_str,
    replace, replace_chars, rfind_str, rfind_str_exec, slice_chars, split_lines, starts_with,
    string_of, trim_end, trim_end_exec, trim_start, trim_start_exec, vviews,
};

verus! {

/// The placeholder that carries one side of a swap.
pub open spec fn swap_placeholder() -> Seq<char> {
    "___BACKSNAP_SWAP___"@
}

/// All occurrences of `a` and `b` exchanged through a placeholder; nothing
/// changes when either is empty or both are equal.
pub open spec fn swapped(s: Seq<char>, a: Seq<char>, b: Seq<char>) -> Seq<char> {
    if a.len() == 0 || b.len() == 0 || a == b {
        s
    } else {
        replace(replace(replace(s, a, swap_placeholder()), b, a), swap_placeholder(), b)
    }
}

fn swap_chars(s: &Vec<char>, a: &Vec<char>, b: &Vec<char>) -> (r: Vec<char>)
    ensures
        r@ == swapped(s@, a@, b@),
{
    if a.len() == 0 || b.len() == 0 || crate::boot_patch::chars_eq_pub(a, b) {
        return slice_chars(s, 0, s.len());
    }
    proof {
        reveal_strlit("___BACKSNAP_SWAP___");
    }
    let as_ = string_of(a);
    let bs = string_of(b);
    let t = replace_chars(s, as_.as_str(), "___BACKSNAP_SWAP___");
    let t = replace_chars(&t, bs.as_str(), as_.as_str());
    replace_chars(&t, "___BACKSNAP_SWAP___", bs.as_str())
}

/// Swaps all occurrences of `a` and `b` in `s` via a temporary placeholder.
pub fn three_way_swap(s: &str, a: &str, b: &str) -> (r: String)
    ensures
        r@ == swapped(s@, a@, b@),
{
    let sv = chars_of(s);
    let av = chars_of(a);
    let bv = chars_of(b);
    let r = swap_chars(&sv, &av, &bv);
    assert(sv@.subrange(0, sv@.len() as int) =~= sv@);
    string_of(&r)
}

/// The line mounts one of the shared subvolumes.
pub open spec fn mounts_shared(line: Seq<char>, shared: Seq<Seq<char>>) -> bool
    decreases shared.len(),
{
    if shared.len() == 0 {
        false
    } else {
        contains(line, "subvol=/"@ + shared[0]) || contains(line, "subvol=/"@ + shared[0] + ","@)
            || mounts_shared(line, shared.drop_first())
    }
}

/// `,nofail` inserted before the last ` 0 ` (or ` 0\n`), else appended to
/// the trimmed line.
pub open spec fn with_nofail(l: Seq<char>) -> Seq<char> {
    match rfind_str(l, " 0 "@) {
        Some(pos) => l.take(pos as int) + ",nofail"@ + l.skip(pos as int),
        None => match rfind_str(l, " 0\n"@) {
            Some(pos) => l.take(pos as int) + ",nofail"@ + l.skip(pos as int),
            None => trim_end(l) + ",nofail"@,
        },
    }
}

/// A shared subvolume's line: back on the primary disk's UUID, and `nofail`.
pub open spec fn fixed_line(line: Seq<char>, p: Seq<char>, b: Seq<char>) -> Seq<char> {
    let fixed = replace(line, uuid_ref(b), uuid_ref(p));
    if contains(fixed, "nofail"@) {
        fixed
    } else {
        with_nofail(fixed)
    }
}

/// A line that mounts a shared subvolume and is not a comment.
pub open spec fn is_shared_line(line: Seq<char>, shared: Seq<Seq<char>>) -> bool {
    mounts_shared(line, shared) && !starts_with(trim_start(line), "#"@)
}

/// The lines with shared mounts fixed, and how many were.
pub open spec fn fix_shared(ls: Seq<Seq<char>>, shared: Seq<Seq<char>>, p: Seq<char>, b: Seq<char>) -> (Seq<Seq<char>>, nat)
    decreases ls.len(),
{
    if ls.len() == 0 {
        (seq![], 0)
    } else {
        let (prev, n) = fix_shared(ls.drop_last(), shared, p, b);
        let l = ls.last();
        if is_shared_line(l, shared) {
            (prev.push(fixed_line(l, p, b)), n + 1)
        } else {
            (prev.push(l), n)
        }
    }
}

/// The fstab of the backup disk: Btrfs and EFI UUIDs swapped; lines of shared
/// subvolumes keep the primary Btrfs UUID and get `nofail`. Also the number
/// of such lines.
pub open spec fn patched_fstab(content: Seq<char>, pb: Seq<char>, bb: Seq<char>, pe: Seq<char>, be: Seq<char>, shared: Seq<Seq<char>>) -> (Seq<char>, nat) {
    let s = swapped(swapped(content, pb, bb), pe, be);
    if shared.len() == 0 {
        (s, 0)
    } else {
        let (ls, n) = fix_shared(lines(s), shared, pb, bb);
        (join(ls, seq!['\n']), n)
    }
}

fn mounts_shared_exec(line: &Vec<char>, shared: &Vec<String>) -> (r: bool)
    ensures
        r == mounts_shared(line@, string_views(shared@)),
{
    let mut i: usize = 0;
    assert(string_views(shared@).skip(0) =~= string_views(shared@));
    while i < shared.len()
        invariant
            i <= shared@.len(),
            mounts_shared(line@, string_views(shared@)) == mounts_shared(line@, string_views(shared@).skip(i as int)),
        decreases shared.len() - i,
    {
        let ghost rest = string_views(shared@).skip(i as int);
        assert(rest[0] == shared@[i as int]@);
        assert(rest.drop_first() =~= string_views(shared@).skip(i + 1));
        let mut p1: Vec<char> = Vec::new();
        push_str(&mut p1, "subvol=/");
        push_str(&mut p1, shared[i].as_str());
        let mut p2: Vec<char> = Vec::new();
        push_all(&mut p2, &p1);
        p2.push(',');
        assert(p2@ =~= "subvol=/"@ + shared@[i as int]@ + ","@) by {
            reveal_strlit(",");
        }
        if contains_chars(line, &p1) || contains_chars(line, &p2) {
            return true;
        }
        i = i + 1;
    }
    false
}

fn with_nofail_exec(l: &Vec<char>) -> (r: Vec<char>)
    ensures
        r@ == with_nofail(l@),
{
    let a = chars_of(" 0 ");
    let b = chars_of(" 0\n");
    let pos = match rfind_str_exec(l, &a) {
        Some(p) => Some(p),
        None => rfind_str_exec(l, &b),
    };
    match pos {
        Some(p) => {
            let mut r = slice_chars(l, 0, p);
            push_str(&mut r, ",nofail");
            let tail = slice_chars(l, p, l.len());
            push_all(&mut r, &tail);
            assert(r@ =~= with_nofail(l@));
            r
        },
        None => {
            let mut r = trim_end_exec(l);
            push_str(&mut r, ",nofail");
            r
        },
    }
}

fn fixed_line_exec(line: &Vec<char>, p: &str, b: &str) -> (r: Vec<char>)
    ensures
        r@ == fixed_line(line@, p@, b@),
{
    let mut from: Vec<char> = Vec::new();
    push_str(&mut from, "UUID=");
    push_str(&mut from, b);
    let mut to: Vec<char> = Vec::new();
    push_str(&mut to, "UUID=");
    push_str(&mut to, p);
    proof {
        reveal_strlit("UUID=");
    }
    let fs = string_of(&from);
    let ts = string_of(&to);
    let fixed = replace_chars(line, fs.as_str(), ts.as_str());
    if contains_str(&fixed, "nofail") {
        fixed
    } else {
        with_nofail_exec(&fixed)
    }
}

/// The backup disk's fstab text and the number of shared-subvolume lines fixed.
pub fn patch_fstab_text(
    content: &str,
    primary_btrfs_uuid: &str,
    backup_btrfs_uuid: &str,
    primary_efi_uuid: &str,
    backup_efi_uuid: &str,
    shared_subvolumes: &Vec<String>,
) -> (r: (String, u64))
    ensures
        (r.0@, r.1 as nat) == patched_fstab(
            content@,
            primary_btrfs_uuid@,
            backup_btrfs_uuid@,
            primary_efi_uuid@,
            backup_efi_uuid@,
            string_views(shared_subvolumes@),
        ),
{
    let c = chars_of(content);
    let s = swap_chars(&swap_chars(&c, &chars_of(primary_btrfs_uuid), &chars_of(backup_btrfs_uuid)), &chars_of(primary_efi_uuid), &chars_of(backup_efi_uuid));
    if shared_subvolumes.len() == 0 {
        return (string_of(&s), 0);
    }
    let ls = split_lines(&s);
    let mut out: Vec<Vec<char>> = Vec::new();
    let mut count: u64 = 0;
    let mut i: usize = 0;
    assert(vviews(ls@).take(0) =~= Seq::<Seq<char>>::empty());
    while i < ls.len()
        invariant
            i <= ls@.len(),
            count <= i,
            vviews(ls@) == lines(s@),
            (vviews(out@), count as nat) == fix_shared(
                vviews(ls@).take(i as int),
                string_views(shared_subvolumes@),
                primary_btrfs_uuid@,
                backup_btrfs_uuid@,
            ),
        decreases ls.len() - i,
    {
        let l = &ls[i];
        assert(vviews(ls@).take(i + 1).drop_last() =~= vviews(ls@).take(i as int));
        assert(vviews(ls@).take(i + 1).last() == l@);
        let t = trim_start_exec(l);
        let comment = crate::text::starts_with_str(&t, "#");
        if mounts_shared_exec(l, shared_subvolumes) && !comment {
            let f = fixed_line_exec(l, primary_btrfs_uuid, backup_btrfs_uuid);
            assert(vviews(out@.push(f)) =~= vviews(out@).push(f@));
            out.push(f);
            count = count + 1;
        } else {
            let k = slice_chars(l, 0, l.len());
            assert(k@ =~= l@);
            assert(vviews(out@.push(k)) =~= vviews(out@).push(k@));
            out.push(k);
        }
        i = i + 1;
    }
    assert(vviews(ls@).take(ls@.len() as int) =~= vviews(ls@));
    let joined = join_chars(&out, "\n");
    proof {
        reveal_strlit("\n");
        assert("\n"@ =~= seq!['\n']);
    }
    (string_of(&joined), count)
}


proof fn lemma_inserted_nofail(x: Seq<char>, y: Seq<char>)
    ensures
        contains(x + ",nofail"@ + y, "nofail"@),
{
    reveal_strlit(",nofail");
    reveal_strlit("nofail");
    let s = x + ",nofail"@ + y;
    assert(s.subrange(x.len() as int + 1, x.len() as int + 7) =~= "nofail"@);
    assert(matches_at(s, "nofail"@, x.len() as int + 1));
}

/// A fixed shared line always carries `nofail`.
proof fn lemma_fixed_line_nofail(line: Seq<char>, p: Seq<char>, b: Seq<char>)
    ensures
        contains(fixed_line(line, p, b), "nofail"@),
{
    let fixed = replace(line, uuid_ref(b), uuid_ref(p));
    if !contains(fixed, "nofail"@) {
        match rfind_str(fixed, " 0 "@) {
            Some(pos) => lemma_inserted_nofail(fixed.take(pos as int), fixed.skip(pos as int)),
            None => match rfind_str(fixed, " 0\n"@) {
                Some(pos) => lemma_inserted_nofail(fixed.take(pos as int), fixed.skip(pos as int)),
                None => {
                    lemma_inserted_nofail(trim_end(fixed), seq![]);
                    assert(trim_end(fixed) + ",nofail"@ + seq![] =~= trim_end(fixed) + ",nofail"@);
                },
            },
        }
    }
}

/// Every non-comment line that mounts a shared subvolume comes out with
/// `nofail`, every other line comes out unchanged, and the count is the
/// number of shared lines.
pub proof fn law_shared_mounts_get_nofail(ls: Seq<Seq<char>>, shared: Seq<Seq<char>>, p: Seq<char>, b: Seq<char>)
    ensures
        fix_shared(ls, shared, p, b).0.len() == ls.len(),
        forall|i: int| 0 <= i < ls.len() ==> if is_shared_line(#[trigger] ls[i], shared) {
            contains(fix_shared(ls, shared, p, b).0[i], "nofail"@)
        } else {
            fix_shared(ls, shared, p, b).0[i] == ls[i]
        },
        fix_shared(ls, shared, p, b).1 == ls.filter(|l: Seq<char>| is_shared_line(l, shared)).len(),
    decreases ls.len(),
{
    if ls.len() > 0 {
        law_shared_mounts_get_nofail(ls.drop_last(), shared, p, b);
        lemma_fixed_line_nofail(ls.last(), p, b);
        let prev = ls.drop_last();
        assert(ls =~= prev.push(ls.last()));
        prev.lemma_filter_push(ls.last(), |l: Seq<char>| is_shared_line(l, shared));
        assert forall|i: int| 0 <= i < ls.len() implies if is_shared_line(#[trigger] ls[i], shared) {
            contains(fix_shared(ls, shared, p, b).0[i], "nofail"@)
        } else {
            fix_shared(ls, shared, p, b).0[i] == ls[i]
        } by {
            if i < ls.len() - 1 {
                assert(ls[i] == prev[i]);
            }
        }
    } else {
        assert(ls.filter(|l: Seq<char>| is_shared_line(l, shared)) =~= Seq::<Seq<char>>::empty());
    }
}

proof fn lemma_replace_absent(s: Seq<char>, p: Seq<char>, t: Seq<char>)
    requires
        !contains(s, p),
    ensures
        replace(s, p, t) == s,
    decreases s.len(),
{
    if p.len() > 0 && s.len() > 0 {
        assert(!matches_at(s, p, 0));
        assert forall|i: int| !#[trigger] matches_at(s.drop_first(), p, i) by {
            if matches_at(s.drop_first(), p, i) {
                assert(s.subrange(i + 1, i + 1 + p.len()) =~= s.drop_first().subrange(i, i + p.len()));
                assert(matches_at(s, p, i + 1));
            }
        }
        lemma_replace_absent(s.drop_first(), p, t);
        assert(seq![s[0]] + s.drop_first() =~= s);
    }
}

/// Text that mentions neither UUID (nor the swap placeholder) comes out of
/// the swap unchanged.
pub proof fn law_swap_leaves_other_text(s: Seq<char>, a: Seq<char>, b: Seq<char>)
    requires
        !contains(s, a),
        !contains(s, b),
        !contains(s, swap_placeholder()),
    ensures
        swapped(s, a, b) == s,
{
    lemma_replace_absent(s, a, swap_placeholder());
    lemma_replace_absent(s, b, a);
    lemma_replace_absent(s, swap_placeholder(), b);
}

} // verus!
