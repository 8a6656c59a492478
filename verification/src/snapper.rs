//! Reading snapper's CSV snapshot list and btrfs's subvolume list.

use vstd::prelude::*;
use vstd::string::*;
use crate::text::{
    chars_of, eq_str, join, join_chars, lines, parse_uint, parse_uint_chars, split_char,
    split_char_vec, split_lines, split_ws, string_of, trim, trim_chars, vviews, words,
};

verus! {

/// A snapshot as `snapper list --csvout` describes it.
#[derive(Clone, Debug)]
pub struct SnapperSnapshot {
    pub id: u32,
    pub snap_type: String,
    pub pre_id: Option<u32>,
    pub date: String,
    pub user: String,
    pub cleanup: String,
    pub description: String,
}

/// The content of a snapshot row.
pub struct SnapshotView {
    pub id: u32,
    pub snap_type: Seq<char>,
    pub pre_id: Option<u32>,
    pub date: Seq<char>,
    pub user: Seq<char>,
    pub cleanup: Seq<char>,
    pub description: Seq<char>,
}

impl View for SnapperSnapshot {
    type V = SnapshotView;

    open spec fn view(&self) -> SnapshotView {
        SnapshotView {
            id: self.id,
            snap_type: self.snap_type@,
            pre_id: self.pre_id,
            date: self.date@,
            user: self.user@,
            cleanup: self.cleanup@,
            description: self.description@,
        }
    }
}

pub open spec fn snapshot_views(s: Seq<SnapperSnapshot>) -> Seq<SnapshotView>
    decreases s.len(),
{
    if s.len() == 0 {
        seq![]
    } else {
        snapshot_views(s.drop_last()).push(s.last()@)
    }
}

/// Where each field stands in a row.
#[derive(Clone, Copy, Debug)]
pub struct SnapshotColumns {
    pub number: usize,
    pub snap_type: usize,
    pub pre_number: usize,
    pub date: usize,
    pub user: usize,
    pub cleanup: usize,
    pub description: usize,
}

/// The first header at or after `i` that reads `name` once trimmed.
pub open spec fn header_pos_from(hs: Seq<Seq<char>>, name: Seq<char>, i: int) -> Option<nat>
    decreases hs.len() - i,
{
    if i < 0 || i >= hs.len() {
        None
    } else if trim(hs[i]) == name {
        Some(i as nat)
    } else {
        header_pos_from(hs, name, i + 1)
    }
}

pub open spec fn header_pos(hs: Seq<Seq<char>>, name: Seq<char>) -> Option<nat> {
    header_pos_from(hs, name, 0)
}

pub open spec fn pos_or(p: Option<nat>, d: nat) -> usize {
    match p {
        Some(i) => i as usize,
        None => d as usize,
    }
}

/// The columns named in the header; a missing one takes its usual place
/// (number, type, pre-number, date, user, cleanup, description).
pub open spec fn columns_of(hs: Seq<Seq<char>>) -> SnapshotColumns {
    SnapshotColumns {
        number: match header_pos(hs, "number"@) {
            Some(i) => i as usize,
            None => pos_or(header_pos(hs, "#"@), 0),
        },
        snap_type: pos_or(header_pos(hs, "type"@), 1),
        pre_number: pos_or(header_pos(hs, "pre-number"@), 2),
        date: pos_or(header_pos(hs, "date"@), 3),
        user: pos_or(header_pos(hs, "user"@), 4),
        cleanup: pos_or(header_pos(hs, "cleanup"@), 5),
        description: pos_or(header_pos(hs, "description"@), 6),
    }
}

/// The trimmed field `i`, or nothing when the row is shorter.
pub open spec fn field(cols: Seq<Seq<char>>, i: usize) -> Seq<char> {
    if i < cols.len() {
        trim(cols[i as int])
    } else {
        Seq::empty()
    }
}

pub open spec fn u32_of(s: Seq<char>) -> Option<u32> {
    match parse_uint(s, 0xffff_ffff) {
        Some(v) => Some(v as u32),
        None => None,
    }
}

/// A row with at least four fields and a snapshot number other than 0
/// (a number that does not parse counts as 0).
pub open spec fn snapshot_row(cols: Seq<Seq<char>>, c: SnapshotColumns) -> Option<SnapshotView> {
    let id = match u32_of(field(cols, c.number)) {
        Some(v) => v,
        None => 0,
    };
    if cols.len() < 4 || id == 0 {
        None
    } else {
        Some(SnapshotView {
            id,
            snap_type: field(cols, c.snap_type),
            pre_id: u32_of(field(cols, c.pre_number)),
            date: field(cols, c.date),
            user: field(cols, c.user),
            cleanup: field(cols, c.cleanup),
            description: field(cols, c.description),
        })
    }
}

/// Column `k` is the first whose trimmed header is `name`.
pub open spec fn first_named(hs: Seq<Seq<char>>, name: Seq<char>, k: int) -> bool {
    &&& 0 <= k < hs.len()
    &&& trim(hs[k]) == name
    &&& forall|j: int| 0 <= j < k ==> trim(#[trigger] hs[j]) != name
}

/// No column's trimmed header is `name`.
pub open spec fn unnamed(hs: Seq<Seq<char>>, name: Seq<char>) -> bool {
    forall|j: int| 0 <= j < hs.len() ==> trim(#[trigger] hs[j]) != name
}

/// The trimmed text of cell `k` of a row; empty past the row's end.
pub open spec fn cell(cols: Seq<Seq<char>>, k: int) -> Seq<char> {
    if 0 <= k < cols.len() { trim(cols[k]) } else { seq![] }
}

proof fn lemma_header_pos_from(hs: Seq<Seq<char>>, name: Seq<char>, i: int)
    requires
        0 <= i,
    ensures
        forall|k: int| i <= k && first_named(hs, name, k) ==> header_pos_from(hs, name, i) == Some(k as nat),
        (forall|j: int| i <= j < hs.len() ==> trim(#[trigger] hs[j]) != name) ==> header_pos_from(hs, name, i) is None,
    decreases hs.len() - i,
{
    if i < hs.len() {
        lemma_header_pos_from(hs, name, i + 1);
    }
}

/// The header's column at `k`, first named `name`, or the default `d` when no
/// column is named so.
pub open spec fn named_cell(hs: Seq<Seq<char>>, cols: Seq<Seq<char>>, name: Seq<char>, d: int, v: Seq<char>) -> bool {
    &&& forall|k: int| #[trigger] first_named(hs, name, k) ==> v == cell(cols, k)
    &&& unnamed(hs, name) ==> v == cell(cols, d)
}

/// Each field of a listed snapshot is read from the column the header names
/// for it (the first with that name; trimmed; empty when the row is short),
/// or from its usual place when the header has no such column: type 1,
/// date 3, user 4, cleanup 5, description 6. The number and pre-number are
/// the decimal values of their columns, the number never 0.
pub proof fn law_snapshot_fields_follow_header(hs: Seq<Seq<char>>, cols: Seq<Seq<char>>)
    requires
        hs.len() <= usize::MAX,
        snapshot_row(cols, columns_of(hs)) is Some,
    ensures
        ({
            let v = snapshot_row(cols, columns_of(hs))->0;
            &&& named_cell(hs, cols, "type"@, 1, v.snap_type)
            &&& named_cell(hs, cols, "date"@, 3, v.date)
            &&& named_cell(hs, cols, "user"@, 4, v.user)
            &&& named_cell(hs, cols, "cleanup"@, 5, v.cleanup)
            &&& named_cell(hs, cols, "description"@, 6, v.description)
            &&& v.id > 0
            &&& cols.len() >= 4
            &&& forall|k: int| #[trigger] first_named(hs, "number"@, k)
                ==> parse_uint(cell(cols, k), 0xffff_ffff) == Some(v.id as nat)
            &&& forall|k: int| #[trigger] first_named(hs, "pre-number"@, k)
                ==> match v.pre_id {
                    Some(p) => parse_uint(cell(cols, k), 0xffff_ffff) == Some(p as nat),
                    None => parse_uint(cell(cols, k), 0xffff_ffff) is None,
                }
        }),
{
    lemma_header_pos_from(hs, "type"@, 0);
    lemma_header_pos_from(hs, "date"@, 0);
    lemma_header_pos_from(hs, "user"@, 0);
    lemma_header_pos_from(hs, "cleanup"@, 0);
    lemma_header_pos_from(hs, "description"@, 0);
    lemma_header_pos_from(hs, "number"@, 0);
    lemma_header_pos_from(hs, "pre-number"@, 0);
}

pub open spec fn snapshot_rows(ls: Seq<Seq<char>>, c: SnapshotColumns) -> Seq<SnapshotView>
    decreases ls.len(),
{
    if ls.len() == 0 {
        seq![]
    } else {
        let rest = snapshot_rows(ls.drop_last(), c);
        match snapshot_row(split_char(ls.last(), ','), c) {
            Some(v) => rest.push(v),
            None => rest,
        }
    }
}

/// The snapshots of `snapper list --csvout`: the first line names the
/// columns, each further line is a row.
pub open spec fn parsed_snapshots(csv: Seq<char>) -> Seq<SnapshotView> {
    let ls = lines(csv);
    if ls.len() == 0 {
        seq![]
    } else {
        snapshot_rows(ls.skip(1), columns_of(split_char(ls[0], ',')))
    }
}

fn header_pos_exec(hs: &Vec<Vec<char>>, name: &str) -> (r: Option<usize>)
    ensures
        match r {
            Some(i) => header_pos(vviews(hs@), name@) == Some(i as nat) && i < hs@.len(),
            None => header_pos(vviews(hs@), name@) is None,
        },
{
    let mut i: usize = 0;
    while i < hs.len()
        invariant
            i <= hs@.len(),
            vviews(hs@).len() == hs@.len(),
            header_pos(vviews(hs@), name@) == header_pos_from(vviews(hs@), name@, i as int),
        decreases hs.len() - i,
    {
        assert(vviews(hs@)[i as int] == hs@[i as int]@);
        if eq_str(&trim_chars(&hs[i]), name) {
            return Some(i);
        }
        i = i + 1;
    }
    None
}

fn pos_or_exec(p: Option<usize>, d: usize) -> (r: usize)
    ensures
        r == (match p {
            Some(i) => i,
            None => d,
        }),
{
    match p {
        Some(i) => i,
        None => d,
    }
}

/// Reads the column positions from the header line.
pub fn snapshot_columns(header: &str) -> (r: SnapshotColumns)
    ensures
        r == columns_of(split_char(header@, ',')),
{
    let hs = split_char_vec(&chars_of(header), ',');
    let number = match header_pos_exec(&hs, "number") {
        Some(i) => i,
        None => pos_or_exec(header_pos_exec(&hs, "#"), 0),
    };
    SnapshotColumns {
        number,
        snap_type: pos_or_exec(header_pos_exec(&hs, "type"), 1),
        pre_number: pos_or_exec(header_pos_exec(&hs, "pre-number"), 2),
        date: pos_or_exec(header_pos_exec(&hs, "date"), 3),
        user: pos_or_exec(header_pos_exec(&hs, "user"), 4),
        cleanup: pos_or_exec(header_pos_exec(&hs, "cleanup"), 5),
        description: pos_or_exec(header_pos_exec(&hs, "description"), 6),
    }
}

fn field_exec(cols: &Vec<Vec<char>>, i: usize) -> (r: Vec<char>)
    ensures
        r@ == field(vviews(cols@), i),
{
    if i < cols.len() {
        assert(vviews(cols@)[i as int] == cols@[i as int]@);
        trim_chars(&cols[i])
    } else {
        Vec::new()
    }
}

fn u32_exec(s: &Vec<char>) -> (r: Option<u32>)
    ensures
        r == u32_of(s@),
{
    match parse_uint_chars(s, 0xffff_ffff) {
        Some(v) => Some(v as u32),
        None => None,
    }
}

/// Reads one data row.
pub fn snapshot_from_row(line: &str, c: SnapshotColumns) -> (r: Option<SnapperSnapshot>)
    ensures
        match r {
            Some(s) => snapshot_row(split_char(line@, ','), c) == Some(s@),
            None => snapshot_row(split_char(line@, ','), c) is None,
        },
{
    let cols = split_char_vec(&chars_of(line), ',');
    let id = match u32_exec(&field_exec(&cols, c.number)) {
        Some(v) => v,
        None => 0,
    };
    if cols.len() < 4 || id == 0 {
        return None;
    }
    Some(SnapperSnapshot {
        id,
        snap_type: string_of(&field_exec(&cols, c.snap_type)),
        pre_id: u32_exec(&field_exec(&cols, c.pre_number)),
        date: string_of(&field_exec(&cols, c.date)),
        user: string_of(&field_exec(&cols, c.user)),
        cleanup: string_of(&field_exec(&cols, c.cleanup)),
        description: string_of(&field_exec(&cols, c.description)),
    })
}

/// The snapshots listed in `snapper list --csvout` output.
pub fn parse_snapshot_csv(csv: &str) -> (r: Vec<SnapperSnapshot>)
    ensures
        snapshot_views(r@) == parsed_snapshots(csv@),
{
    let ls = split_lines(&chars_of(csv));
    let ghost lv = vviews(ls@);
    let header: Vec<char> = if ls.len() > 0 { ls[0].clone() } else { Vec::new() };
    proof {
        if ls@.len() > 0 {
            assert(lv[0] == ls@[0]@);
        }
    }
    let cols = snapshot_columns(string_of(&header).as_str());
    let mut r: Vec<SnapperSnapshot> = Vec::new();
    let mut i: usize = 1;
    if ls.len() == 0 {
        return r;
    }
    assert(lv.skip(1).take(0) =~= Seq::<Seq<char>>::empty());
    while i < ls.len()
        invariant
            1 <= i <= ls@.len(),
            lv == vviews(ls@),
            lv.len() == ls@.len(),
            snapshot_views(r@) == snapshot_rows(lv.skip(1).take(i - 1), cols),
        decreases ls.len() - i,
    {
        let ghost before = r@;
        let line = string_of(&ls[i]);
        assert(lv[i as int] == ls@[i as int]@);
        assert(lv.skip(1).take(i as int).drop_last() =~= lv.skip(1).take(i - 1));
        assert(lv.skip(1).take(i as int).last() == lv[i as int]);
        match snapshot_from_row(line.as_str(), cols) {
            Some(s) => {
                r.push(s);
                assert(r@.drop_last() =~= before);
            },
            None => {},
        }
        i = i + 1;
    }
    assert(lv.skip(1).take(i - 1) =~= lv.skip(1));
    r
}

// ─── Subvolumes ───────────────────────────────────────────────

/// A row of `btrfs subvolume list -t`.
#[derive(Clone, Debug)]
pub struct SubvolumeRow {
    pub id: String,
    pub gen: String,
    pub top_level: String,
    pub path: String,
}

pub struct SubvolumeView {
    pub id: Seq<char>,
    pub gen: Seq<char>,
    pub top_level: Seq<char>,
    pub path: Seq<char>,
}

impl View for SubvolumeRow {
    type V = SubvolumeView;

    open spec fn view(&self) -> SubvolumeView {
        SubvolumeView { id: self.id@, gen: self.gen@, top_level: self.top_level@, path: self.path@ }
    }
}

pub open spec fn subvolume_views(s: Seq<SubvolumeRow>) -> Seq<SubvolumeView>
    decreases s.len(),
{
    if s.len() == 0 {
        seq![]
    } else {
        subvolume_views(s.drop_last()).push(s.last()@)
    }
}

/// A line of at least four words: id, generation, top level, then the path
/// (its words joined by single spaces).
pub open spec fn subvolume_line(l: Seq<char>) -> Option<SubvolumeView> {
    let w = words(l);
    if w.len() >= 4 {
        Some(SubvolumeView { id: w[0], gen: w[1], top_level: w[2], path: join(w.skip(3), " "@) })
    } else {
        None
    }
}

pub open spec fn subvolume_rows(ls: Seq<Seq<char>>) -> Seq<SubvolumeView>
    decreases ls.len(),
{
    if ls.len() == 0 {
        seq![]
    } else {
        let rest = subvolume_rows(ls.drop_last());
        match subvolume_line(ls.last()) {
            Some(v) => rest.push(v),
            None => rest,
        }
    }
}

/// The subvolumes listed after the two header lines.
pub open spec fn parsed_subvolumes(out: Seq<char>) -> Seq<SubvolumeView> {
    let ls = lines(out);
    if ls.len() <= 2 {
        seq![]
    } else {
        subvolume_rows(ls.skip(2))
    }
}

fn subvolume_from_line(l: &Vec<char>) -> (r: Option<SubvolumeRow>)
    ensures
        match r {
            Some(s) => subvolume_line(l@) == Some(s@),
            None => subvolume_line(l@) is None,
        },
{
    let w = split_ws(l);
    if w.len() < 4 {
        return None;
    }
    let mut rest: Vec<Vec<char>> = Vec::new();
    let mut k: usize = 3;
    while k < w.len()
        invariant
            3 <= k <= w@.len(),
            vviews(rest@) == vviews(w@).subrange(3, k as int),
        decreases w.len() - k,
    {
        let ghost before = rest@;
        rest.push(w[k].clone());
        assert(vviews(w@)[k as int] == w@[k as int]@);
        assert(vviews(rest@) =~= vviews(before).push(w@[k as int]@));
        assert(vviews(rest@) =~= vviews(w@).subrange(3, k + 1));
        k = k + 1;
    }
    assert(vviews(w@).subrange(3, w@.len() as int) =~= vviews(w@).skip(3));
    assert(vviews(w@)[0] == w@[0]@);
    assert(vviews(w@)[1] == w@[1]@);
    assert(vviews(w@)[2] == w@[2]@);
    Some(SubvolumeRow {
        id: string_of(&w[0]),
        gen: string_of(&w[1]),
        top_level: string_of(&w[2]),
        path: string_of(&join_chars(&rest, " ")),
    })
}

/// The subvolumes in `btrfs subvolume list -t` output.
pub fn parse_subvolume_list(out: &str) -> (r: Vec<SubvolumeRow>)
    ensures
        subvolume_views(r@) == parsed_subvolumes(out@),
{
    let ls = split_lines(&chars_of(out));
    let ghost lv = vviews(ls@);
    let mut r: Vec<SubvolumeRow> = Vec::new();
    if ls.len() <= 2 {
        return r;
    }
    let mut i: usize = 2;
    assert(lv.skip(2).take(0) =~= Seq::<Seq<char>>::empty());
    while i < ls.len()
        invariant
            2 <= i <= ls@.len(),
            lv == vviews(ls@),
            lv.len() == ls@.len(),
            subvolume_views(r@) == subvolume_rows(lv.skip(2).take(i - 2)),
        decreases ls.len() - i,
    {
        let ghost before = r@;
        assert(lv[i as int] == ls@[i as int]@);
        assert(lv.skip(2).take(i - 1).drop_last() =~= lv.skip(2).take(i - 2));
        assert(lv.skip(2).take(i - 1).last() == lv[i as int]);
        match subvolume_from_line(&ls[i]) {
            Some(s) => {
                r.push(s);
                assert(r@.drop_last() =~= before);
            },
            None => {},
        }
        i = i + 1;
    }
    assert(lv.skip(2).take(i - 2) =~= lv.skip(2));
    r
}

} // verus!
