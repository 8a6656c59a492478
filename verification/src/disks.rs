//! Disk information: which partitions are listed, their shortest mount
//! point, and their usage as `df` reports it.

use vstd::prelude::*;
use vstd::string::*;
use crate::boot_patch::{byte_len, utf8_len, utf8_len_exec};
use crate::config::AppConfig;
use crate::helpers::{role_of, DiskInfo};
use crate::text::{
    dec, trim, chars_of, eq_any_str, lines, split_lines, split_ws, string_of, trim_start_matches,
    trim_start_matches_exec, views, vviews, words,
};

verus! {

/// File systems whose partitions are listed.
pub open spec fn relevant_fstypes() -> Seq<Seq<char>> {
    seq!["btrfs"@, "vfat"@, "ext4"@, "xfs"@]
}

pub fn is_relevant_fstype(fstype: &str) -> (r: bool)
    ensures
        r == relevant_fstypes().contains(fstype@),
{
    let names: [&str; 4] = ["btrfs", "vfat", "ext4", "xfs"];
    assert(views(names@) =~= relevant_fstypes());
    eq_any_str(&chars_of(fstype), &names)
}

/// The shortest non-empty mount point (in bytes; the first of equally short
/// ones), among the string entries of a partition's mount points.
pub open spec fn shortest(ms: Seq<Option<String>>) -> Option<Seq<char>>
    decreases ms.len(),
{
    if ms.len() == 0 {
        None
    } else {
        let b = shortest(ms.drop_last());
        match ms.last() {
            Some(s) => if s@.len() == 0 {
                b
            } else {
                match b {
                    None => Some(s@),
                    Some(x) => if byte_len(s@) < byte_len(x) { Some(s@) } else { b },
                }
            },
            None => b,
        }
    }
}

/// The length of a string in UTF-8 bytes.
fn byte_len_of(s: &Vec<char>) -> (r: u128)
    ensures
        r == byte_len(s@),
{
    let mut acc: u128 = 0;
    let mut i: usize = s.len();
    assert(s@.len() <= usize::MAX);
    assert(s@.skip(i as int) =~= Seq::<char>::empty());
    while i > 0
        invariant
            i <= s@.len(),
            acc == byte_len(s@.skip(i as int)),
            acc <= 4 * (s@.len() - i),
            s@.len() <= usize::MAX,
        decreases i,
    {
        assert(s@.skip(i - 1).drop_first() =~= s@.skip(i as int));
        assert(s@.skip(i - 1)[0] == s@[i - 1]);
        acc = acc + utf8_len_exec(s[i - 1]) as u128;
        i = i - 1;
    }
    assert(s@.skip(0) =~= s@);
    acc
}

/// The mount point shown for a partition, or "Nicht gemountet".
pub fn shortest_mountpoint(mountpoints: &[Option<String>]) -> (r: String)
    ensures
        r@ == (match shortest(mountpoints@) {
            Some(m) => m,
            None => "Nicht gemountet"@,
        }),
{
    let mut best: Option<usize> = None;
    let mut best_len: u128 = 0;
    let mut i: usize = 0;
    while i < mountpoints.len()
        invariant
            i <= mountpoints@.len(),
            match best {
                Some(k) => k < i && (mountpoints@[k as int] matches Some(s)
                    && shortest(mountpoints@.take(i as int)) == Some(s@)
                    && best_len == byte_len(s@)),
                None => shortest(mountpoints@.take(i as int)) is None,
            },
        decreases mountpoints.len() - i,
    {
        assert(mountpoints@.take(i + 1).drop_last() =~= mountpoints@.take(i as int));
        assert(mountpoints@.take(i + 1).last() == mountpoints@[i as int]);
        match &mountpoints[i] {
            Some(s) => {
                if s.unicode_len() > 0 {
                    let n = byte_len_of(&chars_of(s.as_str()));
                    match best {
                        None => {
                            best = Some(i);
                            best_len = n;
                        },
                        Some(_) => {
                            if n < best_len {
                                best = Some(i);
                                best_len = n;
                            }
                        },
                    }
                }
            },
            None => {},
        }
        i = i + 1;
    }
    assert(mountpoints@.take(mountpoints@.len() as int) =~= mountpoints@);
    match best {
        Some(k) => match &mountpoints[k] {
            Some(s) => s.clone(),
            None => "Nicht gemountet".to_string(),
        },
        None => "Nicht gemountet".to_string(),
    }
}

/// A line of `df --output=source,used,avail,pcent`.
#[derive(Clone, Debug)]
pub struct DfRow {
    pub name: String,
    pub used: String,
    pub avail: String,
    pub percent: String,
}

pub struct DfRowView {
    pub name: Seq<char>,
    pub used: Seq<char>,
    pub avail: Seq<char>,
    pub percent: Seq<char>,
}

impl View for DfRow {
    type V = DfRowView;

    open spec fn view(&self) -> DfRowView {
        DfRowView { name: self.name@, used: self.used@, avail: self.avail@, percent: self.percent@ }
    }
}

pub open spec fn df_views(s: Seq<DfRow>) -> Seq<DfRowView>
    decreases s.len(),
{
    if s.len() == 0 {
        seq![]
    } else {
        df_views(s.drop_last()).push(s.last()@)
    }
}

/// A line of at least four words: the device (without "/dev/"), used,
/// available, percentage.
pub open spec fn df_line(l: Seq<char>) -> Option<DfRowView> {
    let w = words(l);
    if w.len() >= 4 {
        Some(DfRowView { name: trim_start_matches(w[0], "/dev/"@), used: w[1], avail: w[2], percent: w[3] })
    } else {
        None
    }
}

pub open spec fn df_lines(ls: Seq<Seq<char>>) -> Seq<DfRowView>
    decreases ls.len(),
{
    if ls.len() == 0 {
        seq![]
    } else {
        let rest = df_lines(ls.drop_last());
        match df_line(ls.last()) {
            Some(v) => rest.push(v),
            None => rest,
        }
    }
}

/// The rows of `df` output after its header line.
pub open spec fn parsed_df(out: Seq<char>) -> Seq<DfRowView> {
    let ls = lines(out);
    if ls.len() == 0 {
        seq![]
    } else {
        df_lines(ls.skip(1))
    }
}

fn df_row_of(l: &Vec<char>) -> (r: Option<DfRow>)
    ensures
        match r {
            Some(d) => df_line(l@) == Some(d@),
            None => df_line(l@) is None,
        },
{
    let w = split_ws(l);
    if w.len() < 4 {
        return None;
    }
    assert(vviews(w@)[0] == w@[0]@);
    assert(vviews(w@)[1] == w@[1]@);
    assert(vviews(w@)[2] == w@[2]@);
    assert(vviews(w@)[3] == w@[3]@);
    Some(DfRow {
        name: string_of(&trim_start_matches_exec(&w[0], "/dev/")),
        used: string_of(&w[1]),
        avail: string_of(&w[2]),
        percent: string_of(&w[3]),
    })
}

/// The usage rows of `df` output.
pub fn parse_df(out: &str) -> (r: Vec<DfRow>)
    ensures
        df_views(r@) == parsed_df(out@),
{
    let ls = split_lines(&chars_of(out));
    let ghost lv = vviews(ls@);
    let mut r: Vec<DfRow> = Vec::new();
    if ls.len() == 0 {
        return r;
    }
    let mut i: usize = 1;
    assert(lv.skip(1).take(0) =~= Seq::<Seq<char>>::empty());
    while i < ls.len()
        invariant
            1 <= i <= ls@.len(),
            lv == vviews(ls@),
            lv.len() == ls@.len(),
            df_views(r@) == df_lines(lv.skip(1).take(i - 1)),
        decreases ls.len() - i,
    {
        let ghost before = r@;
        assert(lv[i as int] == ls@[i as int]@);
        assert(lv.skip(1).take(i as int).drop_last() =~= lv.skip(1).take(i - 1));
        assert(lv.skip(1).take(i as int).last() == lv[i as int]);
        match df_row_of(&ls[i]) {
            Some(d) => {
                r.push(d);
                assert(r@.drop_last() =~= before);
            },
            None => {},
        }
        i = i + 1;
    }
    assert(lv.skip(1).take(i - 1) =~= lv.skip(1));
    r
}

/// The row of a device; when it is listed twice, the later row counts.
pub open spec fn df_find(rows: Seq<DfRowView>, name: Seq<char>) -> Option<DfRowView>
    decreases rows.len(),
{
    if rows.len() == 0 {
        None
    } else if rows.last().name == name {
        Some(rows.last())
    } else {
        df_find(rows.drop_last(), name)
    }
}

pub fn df_lookup(rows: &[DfRow], name: &str) -> (r: Option<DfRow>)
    ensures
        match r {
            Some(d) => df_find(df_views(rows@), name@) == Some(d@),
            None => df_find(df_views(rows@), name@) is None,
        },
{
    let mut i: usize = rows.len();
    assert(rows@.take(i as int) =~= rows@);
    while i > 0
        invariant
            i <= rows@.len(),
            df_find(df_views(rows@), name@) == df_find(df_views(rows@.take(i as int)), name@),
        decreases i,
    {
        let ghost t = rows@.take(i as int);
        assert(t.drop_last() =~= rows@.take(i - 1));
        assert(df_views(t).last() == rows@[i - 1]@) by {
            assert(t.last() == rows@[i - 1]);
        }
        assert(df_views(t).drop_last() == df_views(t.drop_last()));
        if crate::text::eq_str(&chars_of(rows[i - 1].name.as_str()), name) {
            let d = &rows[i - 1];
            return Some(DfRow {
                name: d.name.clone(),
                used: d.used.clone(),
                avail: d.avail.clone(),
                percent: d.percent.clone(),
            });
        }
        i = i - 1;
    }
    None
}

/// Used, available and percentage from `df --output=used,avail,pcent` of one
/// mount point: the first three words of the second line.
pub open spec fn usage_line(out: Seq<char>) -> Option<(Seq<char>, Seq<char>, Seq<char>)> {
    let ls = lines(out);
    if ls.len() >= 2 && words(ls[1]).len() >= 3 {
        Some((words(ls[1])[0], words(ls[1])[1], words(ls[1])[2]))
    } else {
        None
    }
}

pub fn parse_usage_line(out: &str) -> (r: Option<(String, String, String)>)
    ensures
        match r {
            Some((u, a, p)) => usage_line(out@) == Some((u@, a@, p@)),
            None => usage_line(out@) is None,
        },
{
    let ls = split_lines(&chars_of(out));
    if ls.len() < 2 {
        return None;
    }
    assert(vviews(ls@)[1] == ls@[1]@);
    let w = split_ws(&ls[1]);
    if w.len() < 3 {
        return None;
    }
    assert(vviews(w@)[0] == w@[0]@);
    assert(vviews(w@)[1] == w@[1]@);
    assert(vviews(w@)[2] == w@[2]@);
    Some((string_of(&w[0]), string_of(&w[1]), string_of(&w[2])))
}

/// The usage shown for a partition: what was found, or zeros for a mounted
/// partition and dashes for one that could not be measured.
pub fn partition_usage(mounted: bool, found: Option<(String, String, String)>) -> (r: (String, String, String))
    ensures
        match found {
            Some((u, a, p)) => r.0@ == u@ && r.1@ == a@ && r.2@ == p@,
            None => if mounted {
                r.0@ == "0"@ && r.1@ == "0"@ && r.2@ == "0%"@
            } else {
                r.0@ == "—"@ && r.1@ == "—"@ && r.2@ == "—"@
            },
        },
{
    match found {
        Some(t) => t,
        None => if mounted {
            ("0".to_string(), "0".to_string(), "0%".to_string())
        } else {
            ("—".to_string(), "—".to_string(), "—".to_string())
        },
    }
}


// ─── The disk overview ────────────────────────────────────────

/// A partition as `lsblk -b -J -o NAME,MODEL,PKNAME,UUID,MOUNTPOINTS,FSTYPE,SIZE`
/// lists it: each text field when it is a string, the size when it is a
/// number.
#[derive(Clone, Debug)]
pub struct LsblkPart {
    pub name: Option<String>,
    pub fstype: Option<String>,
    pub uuid: Option<String>,
    pub mountpoints: Vec<Option<String>>,
    pub size: Option<u64>,
}

/// A block device as `lsblk` lists it: its model when that is a string, and
/// its partitions when it has a `children` array.
#[derive(Clone, Debug)]
pub struct LsblkDevice {
    pub model: Option<String>,
    pub children: Option<Vec<LsblkPart>>,
}

/// One row of the disk overview. The sizes are byte counts as decimal text;
/// their display form is a floating-point division left to the caller.
pub struct DiskInfoView {
    pub name: Seq<char>,
    pub model: Seq<char>,
    pub role: Seq<char>,
    pub uuid: Seq<char>,
    pub size: Seq<char>,
    pub mountpoint: Seq<char>,
    pub fstype: Seq<char>,
    pub used: Seq<char>,
    pub avail: Seq<char>,
    pub use_percent: Seq<char>,
}

impl View for DiskInfo {
    type V = DiskInfoView;

    open spec fn view(&self) -> DiskInfoView {
        DiskInfoView {
            name: self.name@,
            model: self.model@,
            role: self.role@,
            uuid: self.uuid@,
            size: self.size@,
            mountpoint: self.mountpoint@,
            fstype: self.fstype@,
            used: self.used@,
            avail: self.avail@,
            use_percent: self.use_percent@,
        }
    }
}

pub open spec fn disk_views(s: Seq<DiskInfo>) -> Seq<DiskInfoView>
    decreases s.len(),
{
    if s.len() == 0 {
        seq![]
    } else {
        disk_views(s.drop_last()).push(s.last()@)
    }
}

/// A text field of lsblk's output, trimmed; empty when missing.
pub open spec fn field_text(o: Option<String>) -> Seq<char> {
    match o {
        Some(s) => trim(s@),
        None => seq![],
    }
}

/// The model shown for a device.
pub open spec fn model_text(o: Option<String>) -> Seq<char> {
    match o {
        Some(s) => trim(s@),
        None => "Unbekanntes Laufwerk"@,
    }
}

/// The mount point shown for a partition.
pub open spec fn mountpoint_text(p: LsblkPart) -> Seq<char> {
    match shortest(p.mountpoints@) {
        Some(m) => m,
        None => "Nicht gemountet"@,
    }
}

/// The probe result given for a partition name: the first entry for it.
pub open spec fn probe_of(probes: Seq<(String, Option<(String, String, String)>)>, name: Seq<char>) -> Option<(Seq<char>, Seq<char>, Seq<char>)>
    decreases probes.len(),
{
    if probes.len() == 0 {
        None
    } else if probes[0].0@ == name {
        match probes[0].1 {
            Some((u, a, p)) => Some((u@, a@, p@)),
            None => None,
        }
    } else {
        probe_of(probes.drop_first(), name)
    }
}

/// Used, available and percentage of a partition: from `df` when it is
/// mounted ("0", "0", "0%" when `df` lists it not), from the probe when it is
/// not ("—" three times without a probe result).
pub open spec fn usage_of(mounted: bool, name: Seq<char>, df: Seq<DfRowView>, probes: Seq<(String, Option<(String, String, String)>)>) -> (Seq<char>, Seq<char>, Seq<char>) {
    if mounted {
        match df_find(df, name) {
            Some(r) => (r.used, r.avail, r.percent),
            None => ("0"@, "0"@, "0%"@),
        }
    } else {
        match probe_of(probes, name) {
            Some(t) => t,
            None => ("—"@, "—"@, "—"@),
        }
    }
}

/// The overview row of a partition of a device with model `model`.
pub open spec fn part_info(model: Seq<char>, p: LsblkPart, c: AppConfig, df: Seq<DfRowView>, probes: Seq<(String, Option<(String, String, String)>)>) -> DiskInfoView {
    let name = field_text(p.name);
    let mp = mountpoint_text(p);
    let u = usage_of(mp != "Nicht gemountet"@, name, df, probes);
    DiskInfoView {
        name: "/dev/"@ + name,
        model,
        role: role_of(field_text(p.uuid), mp, c),
        uuid: field_text(p.uuid),
        size: dec(match p.size { Some(n) => n as nat, None => 0 }),
        mountpoint: mp,
        fstype: field_text(p.fstype),
        used: u.0,
        avail: u.1,
        use_percent: u.2,
    }
}

/// The rows of the partitions among `ps` with a listed file system.
pub open spec fn parts_infos(model: Seq<char>, ps: Seq<LsblkPart>, c: AppConfig, df: Seq<DfRowView>, probes: Seq<(String, Option<(String, String, String)>)>) -> Seq<DiskInfoView>
    decreases ps.len(),
{
    if ps.len() == 0 {
        seq![]
    } else {
        let rest = parts_infos(model, ps.drop_last(), c, df, probes);
        if relevant_fstypes().contains(field_text(ps.last().fstype)) {
            rest.push(part_info(model, ps.last(), c, df, probes))
        } else {
            rest
        }
    }
}

/// The overview: for each device with partitions, the rows of its partitions
/// with a listed file system, in lsblk's order.
pub open spec fn disk_infos_of(devs: Seq<LsblkDevice>, c: AppConfig, df: Seq<DfRowView>, probes: Seq<(String, Option<(String, String, String)>)>) -> Seq<DiskInfoView>
    decreases devs.len(),
{
    if devs.len() == 0 {
        seq![]
    } else {
        let d = devs.last();
        disk_infos_of(devs.drop_last(), c, df, probes) + match d.children {
            Some(ch) => parts_infos(model_text(d.model), ch@, c, df, probes),
            None => seq![],
        }
    }
}

fn field_text_exec(o: &Option<String>) -> (r: String)
    ensures
        r@ == field_text(*o),
{
    match o {
        Some(s) => string_of(&crate::text::trim_chars(&chars_of(s.as_str()))),
        None => String::new(),
    }
}

fn probe_lookup(probes: &[(String, Option<(String, String, String)>)], name: &str) -> (r: Option<(String, String, String)>)
    ensures
        match r {
            Some((u, a, p)) => probe_of(probes@, name@) == Some((u@, a@, p@)),
            None => probe_of(probes@, name@) is None,
        },
{
    let mut i: usize = 0;
    assert(probes@.skip(0) =~= probes@);
    while i < probes.len()
        invariant
            i <= probes@.len(),
            probe_of(probes@, name@) == probe_of(probes@.skip(i as int), name@),
        decreases probes.len() - i,
    {
        assert(probes@.skip(i as int)[0] == probes@[i as int]);
        assert(probes@.skip(i as int).drop_first() =~= probes@.skip(i + 1));
        if crate::boot::str_eq_string(name, &probes[i].0) {
            return match &probes[i].1 {
                Some((u, a, p)) => Some((u.clone(), a.clone(), p.clone())),
                None => None,
            };
        }
        i = i + 1;
    }
    None
}

fn part_info_exec(model: &String, p: &LsblkPart, c: &AppConfig, df: &[DfRow], probes: &[(String, Option<(String, String, String)>)]) -> (r: DiskInfo)
    ensures
        r@ == part_info(model@, *p, *c, df_views(df@), probes@),
{
    let name = field_text_exec(&p.name);
    let mp = shortest_mountpoint(p.mountpoints.as_slice());
    let mounted = !crate::text::eq_str(&chars_of(mp.as_str()), "Nicht gemountet");
    let found: Option<(String, String, String)> = if mounted {
        match df_lookup(df, name.as_str()) {
            Some(row) => Some((row.used, row.avail, row.percent)),
            None => None,
        }
    } else {
        probe_lookup(probes, name.as_str())
    };
    let (used, avail, pct) = partition_usage(mounted, found);
    let uuid = field_text_exec(&p.uuid);
    let role = crate::helpers::partition_role(uuid.as_str(), mp.as_str(), c);
    let mut dev = chars_of("/dev/");
    crate::text::push_str(&mut dev, name.as_str());
    let mut size: Vec<char> = Vec::new();
    crate::text::push_dec(&mut size, match p.size { Some(n) => n, None => 0 });
    assert(size@ =~= dec(match p.size { Some(n) => n as nat, None => 0 }));
    DiskInfo {
        name: string_of(&dev),
        model: model.clone(),
        role: role.to_string(),
        uuid,
        size: string_of(&size),
        mountpoint: mp,
        fstype: field_text_exec(&p.fstype),
        used,
        avail,
        use_percent: pct,
    }
}

/// The rows of the disk overview: `devs` as lsblk lists them, `df` the
/// usage of mounted file systems, `probes` the usage read for unmounted
/// partitions (by partition name).
pub fn disk_infos(devs: &[LsblkDevice], c: &AppConfig, df: &[DfRow], probes: &[(String, Option<(String, String, String)>)]) -> (r: Vec<DiskInfo>)
    ensures
        disk_views(r@) == disk_infos_of(devs@, *c, df_views(df@), probes@),
{
    let mut out: Vec<DiskInfo> = Vec::new();
    let mut i: usize = 0;
    while i < devs.len()
        invariant
            i <= devs@.len(),
            disk_views(out@) == disk_infos_of(devs@.take(i as int), *c, df_views(df@), probes@),
        decreases devs.len() - i,
    {
        let ghost pre = devs@.take(i + 1);
        assert(pre.drop_last() =~= devs@.take(i as int));
        assert(pre.last() == devs@[i as int]);
        let d = &devs[i];
        match &d.children {
            Some(ch) => {
                let model = match &d.model {
                    Some(m) => string_of(&crate::text::trim_chars(&chars_of(m.as_str()))),
                    None => "Unbekanntes Laufwerk".to_string(),
                };
                let ghost base = disk_views(out@);
                let mut j: usize = 0;
                while j < ch.len()
                    invariant
                        j <= ch@.len(),
                        model@ == model_text(d.model),
                        disk_views(out@) == base + parts_infos(model@, ch@.take(j as int), *c, df_views(df@), probes@),
                    decreases ch.len() - j,
                {
                    let ghost pj = ch@.take(j + 1);
                    assert(pj.drop_last() =~= ch@.take(j as int));
                    assert(pj.last() == ch@[j as int]);
                    let fs = field_text_exec(&ch[j].fstype);
                    if is_relevant_fstype(fs.as_str()) {
                        let row = part_info_exec(&model, &ch[j], c, df, probes);
                        let ghost before = out@;
                        out.push(row);
                        assert(out@.drop_last() =~= before);
                        assert(disk_views(out@) =~= disk_views(before).push(row@));
                    }
                    j = j + 1;
                }
                assert(ch@.take(ch@.len() as int) =~= ch@);
            },
            None => {
                assert(disk_views(out@) =~= disk_views(out@) + Seq::<DiskInfoView>::empty());
            },
        }
        i = i + 1;
    }
    assert(devs@.take(devs@.len() as int) =~= devs@);
    out
}

/// The names of the listed partitions that are not mounted, in order: these
/// are the ones whose usage has to be probed.
pub open spec fn unmounted_of(devs: Seq<LsblkDevice>) -> Seq<Seq<char>>
    decreases devs.len(),
{
    if devs.len() == 0 {
        seq![]
    } else {
        let d = devs.last();
        unmounted_of(devs.drop_last()) + match d.children {
            Some(ch) => unmounted_parts(ch@),
            None => seq![],
        }
    }
}

pub open spec fn unmounted_parts(ps: Seq<LsblkPart>) -> Seq<Seq<char>>
    decreases ps.len(),
{
    if ps.len() == 0 {
        seq![]
    } else {
        let rest = unmounted_parts(ps.drop_last());
        let p = ps.last();
        if relevant_fstypes().contains(field_text(p.fstype)) && mountpoint_text(p) == "Nicht gemountet"@ {
            rest.push(field_text(p.name))
        } else {
            rest
        }
    }
}

pub fn unmounted_partitions(devs: &[LsblkDevice]) -> (r: Vec<String>)
    ensures
        crate::helpers::string_views(r@) == unmounted_of(devs@),
{
    let mut out: Vec<String> = Vec::new();
    let mut i: usize = 0;
    while i < devs.len()
        invariant
            i <= devs@.len(),
            crate::helpers::string_views(out@) == unmounted_of(devs@.take(i as int)),
        decreases devs.len() - i,
    {
        let ghost pre = devs@.take(i + 1);
        assert(pre.drop_last() =~= devs@.take(i as int));
        assert(pre.last() == devs@[i as int]);
        match &devs[i].children {
            Some(ch) => {
                let ghost base = crate::helpers::string_views(out@);
                let mut j: usize = 0;
                while j < ch.len()
                    invariant
                        j <= ch@.len(),
                        crate::helpers::string_views(out@) == base + unmounted_parts(ch@.take(j as int)),
                    decreases ch.len() - j,
                {
                    let ghost pj = ch@.take(j + 1);
                    assert(pj.drop_last() =~= ch@.take(j as int));
                    assert(pj.last() == ch@[j as int]);
                    let fs = field_text_exec(&ch[j].fstype);
                    if is_relevant_fstype(fs.as_str()) {
                        let mp = shortest_mountpoint(ch[j].mountpoints.as_slice());
                        if crate::text::eq_str(&chars_of(mp.as_str()), "Nicht gemountet") {
                            let n = field_text_exec(&ch[j].name);
                            let ghost before = out@;
                            out.push(n);
                            assert(crate::helpers::string_views(out@) =~= crate::helpers::string_views(before).push(n@));
                        }
                    }
                    j = j + 1;
                }
                assert(ch@.take(ch@.len() as int) =~= ch@);
            },
            None => {
                assert(crate::helpers::string_views(out@) =~= crate::helpers::string_views(out@) + Seq::<Seq<char>>::empty());
            },
        }
        i = i + 1;
    }
    assert(devs@.take(devs@.len() as int) =~= devs@);
    out
}
} // verus!
