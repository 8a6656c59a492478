//! systemd-boot loader entries in menu order.

use vstd::prelude::*;
use vstd::string::*;
use crate::boot_patch::chars_eq_pub;
use crate::boot::{boot_entry_fields, entry_view, entry_views, parse_boot_entry, BootEntryInfo, DiskSide, EntryView};
use crate::intent::{lowercase, to_lowercase};
use crate::desktop_launcher::{ascii_lowercase, ascii_lowercase_exec, file_name_of, name_extension_exec, path_extension};
use crate::helpers::string_views;
use crate::sync::{insert_sorted, insert_sorted_exec, lemma_lex_total, lemma_lex_trans, lex_le, lex_le_exec, sorted};
use crate::text::{chars_of, eq_str, lines, split_lines, string_of, trim, trim_chars, trim_end_matches, trim_end_matches_exec, vviews};

verus! {

/// What entries are ordered by: whether the sort key is blank, then the sort
/// key, title and id, each lowercased.
pub type LoaderKey = (bool, Seq<char>, Seq<char>, Seq<char>);

/// Strictly before in code-point order (the order of `String`'s `cmp`, which
/// compares UTF-8 bytes).
pub open spec fn lex_lt(a: Seq<char>, b: Seq<char>) -> bool {
    lex_le(a, b) && a != b
}

/// Entries with a sort key come first; then sort key, title and id decide.
pub open spec fn key_le(a: LoaderKey, b: LoaderKey) -> bool {
    if !a.0 && b.0 {
        true
    } else if a.0 && !b.0 {
        false
    } else {
        lex_lt(a.1, b.1) || (a.1 == b.1 && (lex_lt(a.2, b.2) || (a.2 == b.2 && lex_le(a.3, b.3))))
    }
}

/// `x` inserted before the first entry that sorts strictly after it.
pub open spec fn insert_entry(s: Seq<(LoaderKey, EntryView)>, x: (LoaderKey, EntryView)) -> Seq<(LoaderKey, EntryView)>
    decreases s.len(),
{
    if s.len() == 0 {
        seq![x]
    } else if !key_le(s[0].0, x.0) {
        seq![x] + s
    } else {
        seq![s[0]] + insert_entry(s.drop_first(), x)
    }
}

/// The entries in a stable order by their keys.
pub open spec fn sort_entries(s: Seq<(LoaderKey, EntryView)>) -> Seq<(LoaderKey, EntryView)>
    decreases s.len(),
{
    if s.len() == 0 {
        seq![]
    } else {
        insert_entry(sort_entries(s.drop_last()), s.last())
    }
}

/// A loader entry file, given its name and content: its key and the entry
/// (id is the name without ".conf").
pub open spec fn loader_item(file: (String, String), disk: DiskSide) -> (LoaderKey, EntryView) {
    let f = boot_entry_fields(file.1@);
    let id = trim_end_matches(file.0@, ".conf"@);
    (
        (trim(f.3).len() == 0, lowercase(f.3), lowercase(f.0), lowercase(id)),
        (f.0, id, f.1, f.2, disk),
    )
}

pub open spec fn loader_items(files: Seq<(String, String)>, disk: DiskSide) -> Seq<(LoaderKey, EntryView)>
    decreases files.len(),
{
    if files.len() == 0 {
        seq![]
    } else {
        loader_items(files.drop_last(), disk).push(loader_item(files.last(), disk))
    }
}

pub open spec fn seconds(s: Seq<(LoaderKey, EntryView)>) -> Seq<EntryView>
    decreases s.len(),
{
    if s.len() == 0 {
        seq![]
    } else {
        seconds(s.drop_last()).push(s.last().1)
    }
}

/// The entries of a loader directory in menu order.
pub open spec fn loader_order(files: Seq<(String, String)>, disk: DiskSide) -> Seq<EntryView> {
    seconds(sort_entries(loader_items(files, disk)))
}

struct Item {
    blank: bool,
    key: Vec<char>,
    title: Vec<char>,
    id: Vec<char>,
    info: BootEntryInfo,
}

spec fn item_view(i: Item) -> (LoaderKey, EntryView) {
    ((i.blank, i.key@, i.title@, i.id@), entry_view(i.info))
}

spec fn item_views(s: Seq<Item>) -> Seq<(LoaderKey, EntryView)>
    decreases s.len(),
{
    if s.len() == 0 {
        seq![]
    } else {
        item_views(s.drop_last()).push(item_view(s.last()))
    }
}

proof fn lemma_item_views_index(s: Seq<Item>, k: int)
    requires
        0 <= k < s.len(),
    ensures
        item_views(s).len() == s.len(),
        item_views(s)[k] == item_view(s[k]),
    decreases s.len(),
{
    lemma_item_views_len(s);
    if k < s.len() - 1 {
        lemma_item_views_index(s.drop_last(), k);
    }
}

proof fn lemma_item_views_len(s: Seq<Item>)
    ensures
        item_views(s).len() == s.len(),
    decreases s.len(),
{
    if s.len() > 0 {
        lemma_item_views_len(s.drop_last());
    }
}

proof fn lemma_item_views_split(s: Seq<Item>, k: int)
    requires
        0 <= k <= s.len(),
    ensures
        item_views(s) == item_views(s.take(k)) + item_views(s.skip(k)),
{
    lemma_item_views_len(s);
    lemma_item_views_len(s.take(k));
    lemma_item_views_len(s.skip(k));
    assert forall|j: int| 0 <= j < s.len() implies #[trigger] item_views(s)[j]
        == (item_views(s.take(k)) + item_views(s.skip(k)))[j] by {
        lemma_item_views_index(s, j);
        if j < k {
            lemma_item_views_index(s.take(k), j);
        } else {
            lemma_item_views_index(s.skip(k), j - k);
        }
    }
    assert(item_views(s) =~= item_views(s.take(k)) + item_views(s.skip(k)));
}

fn key_le_exec(a: &Item, b: &Item) -> (r: bool)
    ensures
        r == key_le(item_view(*a).0, item_view(*b).0),
{
    if !a.blank && b.blank {
        return true;
    }
    if a.blank && !b.blank {
        return false;
    }
    proof {
        lemma_lex_refl(a.key@);
        lemma_lex_refl(a.title@);
    }
    if !lex_le_exec(&a.key, &b.key) {
        return false;
    }
    if !chars_eq_pub(&a.key, &b.key) {
        return true;
    }
    if !lex_le_exec(&a.title, &b.title) {
        return false;
    }
    if !chars_eq_pub(&a.title, &b.title) {
        return true;
    }
    lex_le_exec(&a.id, &b.id)
}

/// Every string comes no later than itself.
proof fn lemma_lex_refl(a: Seq<char>)
    ensures
        lex_le(a, a),
    decreases a.len(),
{
    if a.len() > 0 {
        lemma_lex_refl(a.drop_first());
    }
}

fn insert_item(s: Vec<Item>, x: Item) -> (r: Vec<Item>)
    ensures
        item_views(r@) == insert_entry(item_views(s@), item_view(x)),
{
    let mut k: usize = 0;
    proof {
        lemma_item_views_split(s@, 0);
        assert(s@.skip(0) =~= s@);
        assert(item_views(s@.take(0)) =~= Seq::<(LoaderKey, EntryView)>::empty());
    }
    while k < s.len() && key_le_exec(&s[k], &x)
        invariant
            k <= s@.len(),
            insert_entry(item_views(s@), item_view(x))
                == item_views(s@.take(k as int)) + insert_entry(item_views(s@.skip(k as int)), item_view(x)),
        decreases s.len() - k,
    {
        proof {
            let rest = s@.skip(k as int);
            lemma_item_views_index(rest, 0);
            lemma_item_views_split(rest, 1);
            assert(rest.take(1) =~= seq![s@[k as int]]);
            assert(rest.skip(1) =~= s@.skip(k + 1));
            assert(s@.take(k + 1).drop_last() =~= s@.take(k as int));
            assert(s@.take(k + 1).last() == s@[k as int]);
            reveal_with_fuel(item_views, 2);
            assert(item_views(seq![s@[k as int]]) =~= seq![item_view(s@[k as int])]);
            assert(item_views(rest).drop_first() =~= item_views(s@.skip(k + 1)));
            assert(item_views(s@.take(k as int)) + insert_entry(item_views(rest), item_view(x))
                =~= item_views(s@.take(k + 1)) + insert_entry(item_views(s@.skip(k + 1)), item_view(x)));
        }
        k = k + 1;
    }
    let mut r = s;
    let ghost before = r@;
    r.insert(k, x);
    proof {
        let rest = before.skip(k as int);
        if k < before.len() {
            lemma_item_views_index(rest, 0);
        }
        lemma_item_views_split(r@, k as int);
        lemma_item_views_split(r@.skip(k as int), 1);
        assert(r@.take(k as int) =~= before.take(k as int));
        assert(r@.skip(k as int).take(1) =~= seq![x]);
        assert(r@.skip(k as int).skip(1) =~= rest);
        reveal_with_fuel(item_views, 2);
        assert(item_views(seq![x]) =~= seq![item_view(x)]);
        assert(item_views(r@) =~= item_views(before.take(k as int)) + insert_entry(item_views(rest), item_view(x)));
    }
    r
}

fn item_of(fname: &String, content: &String, disk: DiskSide) -> (r: Item)
    ensures
        item_view(r) == loader_item((*fname, *content), disk),
{
    let p = parse_boot_entry(content.as_str());
    let id = trim_end_matches_exec(&chars_of(fname.as_str()), ".conf");
    let id_s = string_of(&id);
    let blank = trim_chars(&chars_of(p.sort_key.as_str())).len() == 0;
    let key = chars_of(to_lowercase(p.sort_key.as_str()).as_str());
    let title = chars_of(to_lowercase(p.title.as_str()).as_str());
    let lid = chars_of(to_lowercase(id_s.as_str()).as_str());
    Item {
        blank,
        key,
        title,
        id: lid,
        info: BootEntryInfo { title: p.title, id: id_s, root_uuid: p.root_uuid, kernel: p.kernel, disk },
    }
}

/// The boot entries of a loader directory, given each `.conf` file's name
/// and content, in menu order: entries with a sort key first, then by sort
/// key, title and id (compared case-insensitively); ties keep the given order.
pub fn loader_entries(files: &[(String, String)], disk: DiskSide) -> (r: Vec<BootEntryInfo>)
    ensures
        entry_views(r@) == loader_order(files@, disk),
{
    let mut items: Vec<Item> = Vec::new();
    let mut i: usize = 0;
    while i < files.len()
        invariant
            i <= files@.len(),
            item_views(items@) == sort_entries(loader_items(files@.take(i as int), disk)),
        decreases files.len() - i,
    {
        assert(files@.take(i + 1).drop_last() =~= files@.take(i as int));
        assert(files@.take(i + 1).last() == files@[i as int]);
        proof {
            let li = loader_items(files@.take(i + 1), disk);
            assert(li.drop_last() == loader_items(files@.take(i as int), disk));
            assert(li.last() == loader_item(files@[i as int], disk));
        }
        let it = item_of(&files[i].0, &files[i].1, disk);
        items = insert_item(items, it);
        i = i + 1;
    }
    assert(files@.take(files@.len() as int) =~= files@);
    let ghost sorted = item_views(items@);
    let mut out: Vec<BootEntryInfo> = Vec::new();
    let mut k: usize = 0;
    proof {
        lemma_item_views_len(items@);
    }
    while k < items.len()
        invariant
            k <= items@.len(),
            sorted == item_views(items@),
            sorted.len() == items@.len(),
            entry_views(out@) == seconds(sorted.take(k as int)),
        decreases items.len() - k,
    {
        let ghost before = out@;
        let e = &items[k].info;
        out.push(BootEntryInfo {
            title: e.title.clone(),
            id: e.id.clone(),
            root_uuid: e.root_uuid.clone(),
            kernel: e.kernel.clone(),
            disk: e.disk,
        });
        proof {
            lemma_item_views_index(items@, k as int);
            assert(sorted.take(k + 1).drop_last() =~= sorted.take(k as int));
            assert(entry_views(out@) =~= entry_views(before).push(entry_view(items@[k as int].info)));
        }
        k = k + 1;
    }
    assert(sorted.take(items@.len() as int) =~= sorted);
    out
}


// ─── Entry files ──────────────────────────────────────────────

/// `Path::extension` of a file name.
fn extension_of(p: &Vec<char>) -> (r: Option<Vec<char>>)
    ensures
        match r {
            Some(e) => path_extension(p@) == Some(e@),
            None => path_extension(p@) is None,
        },
{
    let s = string_of(p);
    match file_name_of(s.as_str()) {
        Some(n) => name_extension_exec(&chars_of(n.as_str())),
        None => None,
    }
}

/// A name whose extension is `conf` in any ASCII case.
pub open spec fn is_conf_name(n: Seq<char>) -> bool {
    path_extension(n) matches Some(e) && ascii_lowercase(e) == "conf"@
}

/// The `.conf` names among `ns`, in their order.
pub open spec fn conf_only(ns: Seq<Seq<char>>) -> Seq<Seq<char>>
    decreases ns.len(),
{
    if ns.len() == 0 {
        seq![]
    } else if is_conf_name(ns.last()) {
        conf_only(ns.drop_last()).push(ns.last())
    } else {
        conf_only(ns.drop_last())
    }
}

fn sorted_conf(ns: &Vec<Vec<char>>) -> (r: Vec<String>)
    ensures
        string_views(r@) == sorted(conf_only(vviews(ns@))),
{
    let mut s: Vec<Vec<char>> = Vec::new();
    let mut i: usize = 0;
    while i < ns.len()
        invariant
            i <= ns@.len(),
            vviews(s@) == sorted(conf_only(vviews(ns@).take(i as int))),
        decreases ns.len() - i,
    {
        let ghost pre = vviews(ns@).take(i + 1);
        assert(pre.drop_last() =~= vviews(ns@).take(i as int));
        assert(pre.last() == ns@[i as int]@);
        let is_conf = match extension_of(&ns[i]) {
            Some(e) => eq_str(&ascii_lowercase_exec(&e), "conf"),
            None => false,
        };
        if is_conf {
            let n = crate::text::slice_chars(&ns[i], 0, ns[i].len());
            assert(n@ =~= ns@[i as int]@);
            assert(conf_only(pre).drop_last() == conf_only(vviews(ns@).take(i as int)));
            s = insert_sorted_exec(s, n);
        }
        i = i + 1;
    }
    assert(vviews(ns@).take(ns@.len() as int) =~= vviews(ns@));
    let mut out: Vec<String> = Vec::new();
    let mut k: usize = 0;
    while k < s.len()
        invariant
            k <= s@.len(),
            string_views(out@) == vviews(s@).take(k as int),
        decreases s.len() - k,
    {
        let ghost before = out@;
        out.push(string_of(&s[k]));
        assert(string_views(out@) =~= string_views(before).push(s@[k as int]@));
        assert(vviews(s@).take(k + 1) =~= vviews(s@).take(k as int).push(s@[k as int]@));
        k = k + 1;
    }
    assert(vviews(s@).take(s@.len() as int) =~= vviews(s@));
    out
}

/// The `.conf` files of a directory listing (file names), sorted.
pub fn conf_file_names(names: &[String]) -> (r: Vec<String>)
    ensures
        string_views(r@) == sorted(conf_only(string_views(names@))),
{
    let mut ns: Vec<Vec<char>> = Vec::new();
    let mut i: usize = 0;
    while i < names.len()
        invariant
            i <= names@.len(),
            vviews(ns@) == string_views(names@).take(i as int),
        decreases names.len() - i,
    {
        let ghost before = ns@;
        ns.push(chars_of(names[i].as_str()));
        assert(vviews(ns@) =~= vviews(before).push(names@[i as int]@));
        assert(string_views(names@).take(i + 1) =~= string_views(names@).take(i as int).push(names@[i as int]@));
        i = i + 1;
    }
    assert(string_views(names@).take(names@.len() as int) =~= string_views(names@));
    sorted_conf(&ns)
}

/// The trimmed lines of a listing.
pub open spec fn trimmed_lines(ls: Seq<Seq<char>>) -> Seq<Seq<char>>
    decreases ls.len(),
{
    if ls.len() == 0 {
        seq![]
    } else {
        trimmed_lines(ls.drop_last()).push(trim(ls.last()))
    }
}

/// The `.conf` files of `ls -1` output, sorted.
pub fn conf_files_in_listing(ls_output: &str) -> (r: Vec<String>)
    ensures
        string_views(r@) == sorted(conf_only(trimmed_lines(lines(ls_output@)))),
{
    let ls = split_lines(&chars_of(ls_output));
    let mut ts: Vec<Vec<char>> = Vec::new();
    let mut i: usize = 0;
    while i < ls.len()
        invariant
            i <= ls@.len(),
            vviews(ts@) == trimmed_lines(vviews(ls@).take(i as int)),
        decreases ls.len() - i,
    {
        let ghost before = ts@;
        assert(vviews(ls@).take(i + 1).drop_last() =~= vviews(ls@).take(i as int));
        assert(vviews(ls@).take(i + 1).last() == ls@[i as int]@);
        ts.push(trim_chars(&ls[i]));
        assert(vviews(ts@) =~= vviews(before).push(trim(ls@[i as int]@)));
        i = i + 1;
    }
    assert(vviews(ls@).take(ls@.len() as int) =~= vviews(ls@));
    sorted_conf(&ts)
}

// ─── Laws ─────────────────────────────────────────────────────

proof fn lemma_lex_antisym(a: Seq<char>, b: Seq<char>)
    requires
        lex_le(a, b),
        lex_le(b, a),
    ensures
        a == b,
    decreases a.len(),
{
    if a.len() > 0 && b.len() > 0 {
        if a[0] == b[0] {
            lemma_lex_antisym(a.drop_first(), b.drop_first());
            assert(a =~= seq![a[0]] + a.drop_first());
            assert(b =~= seq![b[0]] + b.drop_first());
        }
    } else {
        assert(a.len() == 0 && b.len() == 0);
        assert(a =~= b);
    }
}

proof fn lemma_lt_trans(a: Seq<char>, b: Seq<char>, c: Seq<char>)
    requires
        lex_lt(a, b) || a == b,
        lex_lt(b, c) || b == c,
        lex_lt(a, b) || lex_lt(b, c),
    ensures
        lex_lt(a, c),
{
    if a != b && b != c {
        lemma_lex_trans(a, b, c);
        if a == c {
            lemma_lex_antisym(a, b);
        }
    }
}

proof fn lemma_key_total(a: LoaderKey, b: LoaderKey)
    ensures
        key_le(a, b) || key_le(b, a),
{
    lemma_lex_total(a.1, b.1);
    lemma_lex_total(a.2, b.2);
    lemma_lex_total(a.3, b.3);
}

proof fn lemma_key_trans(a: LoaderKey, b: LoaderKey, c: LoaderKey)
    requires
        key_le(a, b),
        key_le(b, c),
    ensures
        key_le(a, c),
{
    if a.0 == b.0 && b.0 == c.0 {
        if lex_lt(a.1, b.1) || lex_lt(b.1, c.1) {
            lemma_lt_trans(a.1, b.1, c.1);
        } else {
            assert(a.1 == b.1 && b.1 == c.1);
            if lex_lt(a.2, b.2) || lex_lt(b.2, c.2) {
                lemma_lt_trans(a.2, b.2, c.2);
            } else {
                lemma_lex_trans(a.3, b.3, c.3);
            }
        }
    }
}

/// Ordered by key.
pub open spec fn in_key_order(s: Seq<(LoaderKey, EntryView)>) -> bool {
    forall|i: int, j: int| 0 <= i < j < s.len() ==> key_le((#[trigger] s[i]).0, (#[trigger] s[j]).0)
}

proof fn lemma_insert_entry_pos(s: Seq<(LoaderKey, EntryView)>, x: (LoaderKey, EntryView)) -> (k: int)
    ensures
        0 <= k <= s.len(),
        insert_entry(s, x) == s.insert(k, x),
    decreases s.len(),
{
    if s.len() == 0 {
        assert(s.insert(0, x) =~= seq![x]);
        0
    } else if !key_le(s[0].0, x.0) {
        assert(s.insert(0, x) =~= seq![x] + s);
        0
    } else {
        let k = lemma_insert_entry_pos(s.drop_first(), x);
        assert(seq![s[0]] + s.drop_first().insert(k, x) =~= s.insert(k + 1, x));
        k + 1
    }
}

proof fn lemma_insert_entry_ordered(s: Seq<(LoaderKey, EntryView)>, x: (LoaderKey, EntryView))
    requires
        in_key_order(s),
    ensures
        in_key_order(insert_entry(s, x)),
    decreases s.len(),
{
    if s.len() == 0 {
    } else if !key_le(s[0].0, x.0) {
        lemma_key_total(s[0].0, x.0);
        let r = seq![x] + s;
        assert forall|i: int, j: int| 0 <= i < j < r.len() implies key_le((#[trigger] r[i]).0, (#[trigger] r[j]).0) by {
            if i == 0 {
                if j > 1 {
                    lemma_key_trans(x.0, s[0].0, s[j - 1].0);
                }
            } else {
                assert(r[i] == s[i - 1] && r[j] == s[j - 1]);
            }
        }
    } else {
        let t = s.drop_first();
        assert(in_key_order(t)) by {
            assert forall|i: int, j: int| 0 <= i < j < t.len() implies key_le((#[trigger] t[i]).0, (#[trigger] t[j]).0) by {
                assert(t[i] == s[i + 1] && t[j] == s[j + 1]);
            }
        }
        lemma_insert_entry_ordered(t, x);
        let k = lemma_insert_entry_pos(t, x);
        let rest = insert_entry(t, x);
        let r = seq![s[0]] + rest;
        assert forall|j: int| 0 <= j < rest.len() implies key_le(s[0].0, (#[trigger] rest[j]).0) by {
            if j < k {
                assert(rest[j] == t[j]);
                assert(s[j + 1] == t[j]);
            } else if j > k {
                assert(rest[j] == t[j - 1]);
                assert(s[j] == t[j - 1]);
            }
        }
        assert forall|i: int, j: int| 0 <= i < j < r.len() implies key_le((#[trigger] r[i]).0, (#[trigger] r[j]).0) by {
            if i == 0 {
                assert(r[j] == rest[j - 1]);
            } else {
                assert(r[i] == rest[i - 1] && r[j] == rest[j - 1]);
            }
        }
    }
}

proof fn lemma_sort_entries(s: Seq<(LoaderKey, EntryView)>)
    ensures
        in_key_order(sort_entries(s)),
        sort_entries(s).to_multiset() == s.to_multiset(),
    decreases s.len(),
{
    broadcast use vstd::seq_lib::group_to_multiset_ensures;
    if s.len() > 0 {
        lemma_sort_entries(s.drop_last());
        lemma_insert_entry_ordered(sort_entries(s.drop_last()), s.last());
        let k = lemma_insert_entry_pos(sort_entries(s.drop_last()), s.last());
        vstd::seq_lib::to_multiset_insert(sort_entries(s.drop_last()), k, s.last());
        assert(s.drop_last().push(s.last()) =~= s);
    }
}

/// The menu lists every entry file once, in key order: entries with a sort
/// key come before entries without one, and among equals by sort key,
/// then title, then id.
pub proof fn law_loader_order(files: Seq<(String, String)>, disk: DiskSide)
    ensures
        ({
            let s = sort_entries(loader_items(files, disk));
            &&& s.to_multiset() == loader_items(files, disk).to_multiset()
            &&& in_key_order(s)
            &&& forall|i: int, j: int| 0 <= i < j < s.len() && (#[trigger] s[i]).0.0 ==> (#[trigger] s[j]).0.0
        }),
{
    let s = sort_entries(loader_items(files, disk));
    lemma_sort_entries(loader_items(files, disk));
    assert forall|i: int, j: int| 0 <= i < j < s.len() && (#[trigger] s[i]).0.0 implies (#[trigger] s[j]).0.0 by {
        assert(key_le(s[i].0, s[j].0));
    }
}

} // verus!
