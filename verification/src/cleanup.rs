//! Cleanup: which scanned paths may be deleted without asking, which go to
//! the AI review, and which deletions are refused. Scanning and deleting are
//! left to the caller.

use vstd::prelude::*;
use vstd::string::*;
use crate::intent::{lowercase, to_lowercase};
use crate::text::{
    char_pos, char_pos_exec, last_char_pos, last_char_pos_exec, slice_chars, strip_prefix,
    strip_prefix_str, trim, trim_chars, trim_end_matches, trim_end_matches_exec, chars_of, contains, contains_any, contains_any_str, contains_str, ends_with, ends_with_str,
    eq_str, matches_at, push_dec, push_str, split_char, split_char_vec, starts_with, starts_with_str,
    string_of, views, vviews,
};

verus! {

/// Build artifacts at least this large go to the AI review.
pub const AI_REVIEW_SIZE_THRESHOLD: u64 = 300 * 1024 * 1024;

/// What kind of data a scanned path holds.
#[derive(Debug, Clone, Copy, PartialEq, Eq, Structural)]
pub enum ExcludeCategory {
    Cache,
    Browser,
    BuildArtifact,
    Toolchain,
    Runtime,
    Gaming,
    Container,
    VirtualMachine,
    Media,
    Communication,
    LargeUnknown,
}

/// Result of deleting one path.
#[derive(Debug, Clone)]
pub struct DeleteResult {
    pub path: String,
    pub success: bool,
    pub error: Option<String>,
}

/// The non-empty `/`-separated segments of a path.
pub open spec fn segments(ps: Seq<Seq<char>>) -> Seq<Seq<char>>
    decreases ps.len(),
{
    if ps.len() == 0 {
        seq![]
    } else if ps.last().len() == 0 {
        segments(ps.drop_last())
    } else {
        segments(ps.drop_last()).push(ps.last())
    }
}

pub open spec fn first_index(ss: Seq<Seq<char>>, x: Seq<char>) -> Option<nat>
    decreases ss.len(),
{
    if ss.len() == 0 {
        None
    } else if ss[0] == x {
        Some(0)
    } else {
        match first_index(ss.drop_first(), x) {
            Some(i) => Some(i + 1),
            None => None,
        }
    }
}

pub open spec fn last_index(ss: Seq<Seq<char>>, x: Seq<char>) -> Option<nat>
    decreases ss.len(),
{
    if ss.len() == 0 {
        None
    } else if ss.last() == x {
        Some((ss.len() - 1) as nat)
    } else {
        last_index(ss.drop_last(), x)
    }
}

/// Some segment starts with a dot.
pub open spec fn any_hidden(ss: Seq<Seq<char>>) -> bool {
    exists|i: int| 0 <= i < ss.len() && starts_with(#[trigger] ss[i], "."@)
}

/// A `node_modules` inside an extension store behind a hidden directory
/// (such as `.vscode-server/extensions/x/node_modules`).
pub open spec fn runtime_extension(rel: Seq<char>) -> bool {
    let ss = segments(split_char(rel, '/'));
    match (first_index(ss, "extensions"@), last_index(ss, "node_modules"@)) {
        (Some(e), Some(n)) => e < n && any_hidden(ss.take(e as int)),
        _ => false,
    }
}

fn segments_exec(rel: &Vec<char>) -> (r: Vec<Vec<char>>)
    ensures
        vviews(r@) == segments(split_char(rel@, '/')),
{
    let ps = split_char_vec(rel, '/');
    let mut out: Vec<Vec<char>> = Vec::new();
    let mut i: usize = 0;
    while i < ps.len()
        invariant
            i <= ps@.len(),
            vviews(ps@) == split_char(rel@, '/'),
            vviews(out@) == segments(vviews(ps@).take(i as int)),
        decreases ps.len() - i,
    {
        assert(vviews(ps@).take(i + 1).drop_last() =~= vviews(ps@).take(i as int));
        assert(vviews(ps@).take(i + 1).last() == ps@[i as int]@);
        if ps[i].len() > 0 {
            let seg = crate::text::slice_chars(&ps[i], 0, ps[i].len());
            assert(seg@ =~= ps@[i as int]@);
            assert(vviews(out@.push(seg)) =~= vviews(out@).push(seg@));
            out.push(seg);
        }
        i = i + 1;
    }
    assert(vviews(ps@).take(ps@.len() as int) =~= vviews(ps@));
    out
}

fn first_index_exec(ss: &Vec<Vec<char>>, x: &str) -> (r: Option<usize>)
    ensures
        match r {
            Some(i) => first_index(vviews(ss@), x@) == Some(i as nat),
            None => first_index(vviews(ss@), x@) is None,
        },
{
    let mut i: usize = 0;
    while i < ss.len()
        invariant
            i <= ss@.len(),
            forall|j: int| 0 <= j < i ==> vviews(ss@)[j] != x@,
        decreases ss.len() - i,
    {
        if eq_str(&ss[i], x) {
            proof {
                lemma_first_index(vviews(ss@), x@, i as int);
            }
            return Some(i);
        }
        i = i + 1;
    }
    proof {
        lemma_first_index(vviews(ss@), x@, ss@.len() as int);
    }
    None
}

proof fn lemma_first_index(ss: Seq<Seq<char>>, x: Seq<char>, i: int)
    requires
        0 <= i <= ss.len(),
        forall|j: int| 0 <= j < i ==> ss[j] != x,
    ensures
        i < ss.len() && ss[i] == x ==> first_index(ss, x) == Some(i as nat),
        i == ss.len() ==> first_index(ss, x) is None,
    decreases i,
{
    if i > 0 {
        assert forall|j: int| 0 <= j < i - 1 implies ss.drop_first()[j] != x by {
            assert(ss.drop_first()[j] == ss[j + 1]);
        }
        lemma_first_index(ss.drop_first(), x, i - 1);
        if i < ss.len() {
            assert(ss.drop_first()[i - 1] == ss[i]);
        }
        assert(ss[0] != x);
    }
}

fn last_index_exec(ss: &Vec<Vec<char>>, x: &str) -> (r: Option<usize>)
    ensures
        match r {
            Some(i) => last_index(vviews(ss@), x@) == Some(i as nat),
            None => last_index(vviews(ss@), x@) is None,
        },
{
    let mut i: usize = ss.len();
    assert(vviews(ss@).take(i as int) =~= vviews(ss@));
    while i > 0
        invariant
            i <= ss@.len(),
            last_index(vviews(ss@), x@) == last_index(vviews(ss@).take(i as int), x@),
        decreases i,
    {
        let ghost t = vviews(ss@).take(i as int);
        assert(t.last() == ss@[i - 1]@);
        if eq_str(&ss[i - 1], x) {
            return Some(i - 1);
        }
        assert(t.drop_last() =~= vviews(ss@).take(i - 1));
        i = i - 1;
    }
    None
}

fn any_hidden_exec(ss: &Vec<Vec<char>>, n: usize) -> (r: bool)
    requires
        n <= ss@.len(),
    ensures
        r == any_hidden(vviews(ss@).take(n as int)),
{
    let mut i: usize = 0;
    while i < n
        invariant
            i <= n <= ss@.len(),
            forall|j: int| 0 <= j < i ==> !starts_with(#[trigger] vviews(ss@)[j], "."@),
        decreases n - i,
    {
        if starts_with_str(&ss[i], ".") {
            assert(vviews(ss@).take(n as int)[i as int] == ss@[i as int]@);
            return true;
        }
        i = i + 1;
    }
    assert forall|j: int| 0 <= j < n implies !starts_with(#[trigger] vviews(ss@).take(n as int)[j], "."@) by {
        assert(vviews(ss@).take(n as int)[j] == vviews(ss@)[j]);
    }
    false
}

pub fn is_runtime_extension_path(rel_path: &str) -> (r: bool)
    ensures
        r == runtime_extension(rel_path@),
{
    let ss = segments_exec(&chars_of(rel_path));
    match (first_index_exec(&ss, "extensions"), last_index_exec(&ss, "node_modules")) {
        (Some(e), Some(n)) => {
            if e >= n {
                return false;
            }
            proof {
                lemma_first_index_bound(vviews(ss@), "extensions"@);
            }
            any_hidden_exec(&ss, e)
        },
        _ => false,
    }
}

proof fn lemma_first_index_bound(ss: Seq<Seq<char>>, x: Seq<char>)
    ensures
        first_index(ss, x) matches Some(i) ==> i < ss.len(),
    decreases ss.len(),
{
    if ss.len() > 0 && ss[0] != x {
        lemma_first_index_bound(ss.drop_first(), x);
    }
}

pub open spec fn build_dir_suffixes() -> Seq<Seq<char>> {
    seq!["/.gradle"@, "/.next"@, "/.nuxt"@, "/.angular"@, "/.parcel-cache"@, "/.turbo"@]
}

pub open spec fn ends_with_any(s: Seq<char>, ps: Seq<Seq<char>>) -> bool {
    exists|i: int| 0 <= i < ps.len() && ends_with(s, #[trigger] ps[i])
}

fn ends_with_any_exec(s: &Vec<char>, ps: &[&str]) -> (r: bool)
    ensures
        r == ends_with_any(s@, views(ps@)),
{
    let mut k: usize = 0;
    while k < ps.len()
        invariant
            k <= ps@.len(),
            forall|j: int| 0 <= j < k ==> !ends_with(s@, #[trigger] views(ps@)[j]),
        decreases ps.len() - k,
    {
        if ends_with_str(s, ps[k]) {
            assert(ends_with(s@, views(ps@)[k as int]));
            return true;
        }
        k = k + 1;
    }
    false
}

/// Paths selected for deletion without asking: caches and browser data, and
/// clearly identifiable build artifacts (never the top-level `.cache`).
pub open spec fn safe_to_delete(category: ExcludeCategory, path: Seq<char>, target_is_cargo: bool) -> bool {
    if path == ".cache"@ {
        false
    } else {
        match category {
            ExcludeCategory::Cache | ExcludeCategory::Browser => true,
            ExcludeCategory::BuildArtifact => {
                let p = lowercase(path);
                (ends_with(p, "/node_modules"@) && !runtime_extension(path)) || contains(p, "/node_modules/"@)
                    || (ends_with(p, "/target"@) && target_is_cargo) || contains(p, "/__pycache__"@)
                    || ends_with(p, "/__pycache__"@) || ends_with_any(p, build_dir_suffixes())
            },
            _ => false,
        }
    }
}

/// Whether a scanned path is safe to select for deletion; `target_is_cargo`
/// tells whether the path's parent directory holds a `Cargo.toml`.
pub fn is_safe_to_delete(category: ExcludeCategory, path: &str, target_is_cargo: bool) -> (r: bool)
    ensures
        r == safe_to_delete(category, path@, target_is_cargo),
{
    let pv = chars_of(path);
    if eq_str(&pv, ".cache") {
        return false;
    }
    match category {
        ExcludeCategory::Cache | ExcludeCategory::Browser => true,
        ExcludeCategory::BuildArtifact => {
            let lower = to_lowercase(path);
            let p = chars_of(lower.as_str());
            let sfx: [&str; 6] = ["/.gradle", "/.next", "/.nuxt", "/.angular", "/.parcel-cache", "/.turbo"];
            assert(views(sfx@) =~= build_dir_suffixes());
            (ends_with_str(&p, "/node_modules") && !is_runtime_extension_path(path)) || contains_str(&p, "/node_modules/")
                || (ends_with_str(&p, "/target") && target_is_cargo) || contains_str(&p, "/__pycache__")
                || ends_with_str(&p, "/__pycache__") || ends_with_any_exec(&p, &sfx)
        },
        _ => false,
    }
}

pub open spec fn runtime_like_words() -> Seq<Seq<char>> {
    seq![".vscode"@, ".vscode-server"@, "code-server"@, "/plugin/"@, "/plugins/"@, "/runtime/"@]
}

/// Build artifacts that go to the AI review: `node_modules` in hidden,
/// extension or runtime-like places, and very large ones.
pub open spec fn ai_review_wanted(rel: Seq<char>, category: ExcludeCategory, size: u64) -> bool {
    let p = lowercase(rel);
    category == ExcludeCategory::BuildArtifact && ((
    (ends_with(p, "/node_modules"@) || contains(p, "/node_modules/"@)) && (any_hidden(split_char(rel, '/'))
        || contains(p, "/extensions/"@) || contains_any(p, runtime_like_words()) || runtime_extension(rel)))
        || size >= AI_REVIEW_SIZE_THRESHOLD)
}

pub fn should_ai_review_item(rel_path: &str, category: ExcludeCategory, size_bytes: u64) -> (r: bool)
    ensures
        r == ai_review_wanted(rel_path@, category, size_bytes),
{
    if category != ExcludeCategory::BuildArtifact {
        return false;
    }
    let lower = to_lowercase(rel_path);
    let p = chars_of(lower.as_str());
    let parts = split_char_vec(&chars_of(rel_path), '/');
    let hidden = any_hidden_exec(&parts, parts.len());
    assert(vviews(parts@).take(parts@.len() as int) =~= vviews(parts@));
    let runtime: [&str; 6] = [".vscode", ".vscode-server", "code-server", "/plugin/", "/plugins/", "/runtime/"];
    assert(views(runtime@) =~= runtime_like_words());
    let has_ext = contains_str(&p, "/extensions/");
    let runtime_like = contains_any_str(&p, &runtime);
    let very_large = size_bytes >= AI_REVIEW_SIZE_THRESHOLD;
    ((ends_with_str(&p, "/node_modules") || contains_str(&p, "/node_modules/"))
        && (hidden || has_ext || runtime_like || is_runtime_extension_path(rel_path))) || very_large
}

/// Paths that are never deleted, with everything below them.
pub open spec fn tree_protected() -> Seq<Seq<char>> {
    seq![".ssh"@, ".gnupg"@]
}

/// Paths that are never deleted themselves.
pub open spec fn dir_protected() -> Seq<Seq<char>> {
    seq![".config"@, ".local"@, ".bashrc"@, ".profile"@, ".bash_history"@]
}

/// The pieces of a relative path that name entries: its '/'-separated
/// pieces without the empty ones and ".", which stay in the same directory.
pub open spec fn named_parts(ps: Seq<Seq<char>>) -> Seq<Seq<char>>
    decreases ps.len(),
{
    if ps.len() == 0 {
        seq![]
    } else {
        let rest = named_parts(ps.drop_last());
        if ps.last().len() == 0 || ps.last() == "."@ {
            rest
        } else {
            rest.push(ps.last())
        }
    }
}

/// The entries a path relative to home walks through, "." and empty pieces
/// resolved.
pub open spec fn resolved_parts(rel: Seq<char>) -> Seq<Seq<char>> {
    named_parts(split_char(rel, '/'))
}

/// Why a path given relative to home may not be deleted, if it may not:
/// it climbs out of home (a ".." anywhere) or is absolute, so joining it to
/// home leaves home; or, with "." and empty pieces resolved, it is home
/// itself, lies in a protected tree (`.ssh`, `.gnupg`), or is a protected
/// entry of home.
pub open spec fn delete_refusal(rel: Seq<char>, is_home: bool) -> Option<Seq<char>> {
    let ps = resolved_parts(rel);
    if contains(rel, ".."@) || starts_with(rel, "/"@) {
        Some("Pfad liegt außerhalb des Home-Verzeichnisses"@)
    } else if is_home || ps.len() == 0 || tree_protected().contains(ps[0])
        || (ps.len() == 1 && dir_protected().contains(ps[0])) {
        Some("Geschützter Pfad — darf nicht gelöscht werden"@)
    } else {
        None
    }
}

fn resolved_parts_exec(rel: &Vec<char>) -> (r: Vec<Vec<char>>)
    ensures
        vviews(r@) == resolved_parts(rel@),
{
    let ps = split_char_vec(rel, '/');
    let mut out: Vec<Vec<char>> = Vec::new();
    let mut i: usize = 0;
    while i < ps.len()
        invariant
            i <= ps@.len(),
            vviews(ps@) == split_char(rel@, '/'),
            vviews(out@) == named_parts(vviews(ps@).take(i as int)),
        decreases ps@.len() - i,
    {
        assert(vviews(ps@).take(i + 1).drop_last() =~= vviews(ps@).take(i as int));
        assert(vviews(ps@).take(i + 1).last() == ps@[i as int]@);
        if ps[i].len() > 0 && !eq_str(&ps[i], ".") {
            let piece = slice_chars(&ps[i], 0, ps[i].len());
            assert(piece@ =~= ps@[i as int]@);
            let ghost before = out@;
            out.push(piece);
            assert(vviews(out@) =~= vviews(before).push(piece@));
        }
        i = i + 1;
    }
    assert(vviews(ps@).take(ps@.len() as int) =~= vviews(ps@));
    out
}

proof fn lemma_named_parts_from(ps: Seq<Seq<char>>, k: int)
    requires
        0 <= k < named_parts(ps).len(),
    ensures
        ps.contains(named_parts(ps)[k]),
        named_parts(ps)[k].len() > 0,
        named_parts(ps)[k] != "."@,
    decreases ps.len(),
{
    let rest = named_parts(ps.drop_last());
    if k < rest.len() {
        lemma_named_parts_from(ps.drop_last(), k);
        let j = choose|j: int| 0 <= j < ps.drop_last().len() && ps.drop_last()[j] == named_parts(ps)[k];
        assert(ps[j] == named_parts(ps)[k]);
    } else {
        assert(ps[ps.len() - 1] == named_parts(ps)[k]);
    }
}

/// A path the guard lets through stays inside home: joined to home, every
/// piece it walks through names an entry (none is "..", ".", or empty, and
/// it is not absolute), there is at least one, and the first is not a
/// protected tree.
pub proof fn law_deletion_stays_in_home(rel: Seq<char>)
    requires
        delete_refusal(rel, false) is None,
    ensures
        !starts_with(rel, "/"@),
        resolved_parts(rel).len() > 0,
        !tree_protected().contains(resolved_parts(rel)[0]),
        forall|k: int| 0 <= k < resolved_parts(rel).len() ==> {
            let piece = #[trigger] resolved_parts(rel)[k];
            piece.len() > 0 && piece != "."@ && piece != ".."@
        },
{
    reveal_strlit("..");
    assert forall|k: int| 0 <= k < resolved_parts(rel).len() implies {
        let piece = #[trigger] resolved_parts(rel)[k];
        piece.len() > 0 && piece != "."@ && piece != ".."@
    } by {
        lemma_named_parts_from(split_char(rel, '/'), k);
        if resolved_parts(rel)[k] == ".."@ {
            crate::privileged::lemma_parent_ref_has_double_dot(rel);
            let i = choose|i: int| #[trigger] crate::privileged::double_dot_at(rel, i);
            assert(rel.subrange(i, i + 2) =~= ".."@);
            assert(matches_at(rel, ".."@, i));
        }
    }
}

/// The refusal for a deletion, if any; `is_home` tells whether the path
/// resolves to the home directory itself.
pub fn delete_guard(rel_path: &str, is_home: bool) -> (r: Option<String>)
    ensures
        match r {
            Some(m) => delete_refusal(rel_path@, is_home) == Some(m@),
            None => delete_refusal(rel_path@, is_home) is None,
        },
{
    let rel = chars_of(rel_path);
    if contains_str(&rel, "..") || starts_with_str(&rel, "/") {
        return Some(String::from_str("Pfad liegt außerhalb des Home-Verzeichnisses"));
    }
    let ps = resolved_parts_exec(&rel);
    let tree: [&str; 2] = [".ssh", ".gnupg"];
    let dir: [&str; 5] = [".config", ".local", ".bashrc", ".profile", ".bash_history"];
    assert(views(tree@) =~= tree_protected());
    assert(views(dir@) =~= dir_protected());
    if is_home || ps.len() == 0 {
        return Some(String::from_str("Geschützter Pfad — darf nicht gelöscht werden"));
    }
    assert(vviews(ps@)[0] == ps@[0]@);
    if crate::text::eq_any_str(&ps[0], &tree) || (ps.len() == 1 && crate::text::eq_any_str(&ps[0], &dir)) {
        Some(String::from_str("Geschützter Pfad — darf nicht gelöscht werden"))
    } else {
        None
    }
}

/// How many deletions succeeded (`success`) or failed (`!success`).
pub open spec fn outcome_count(rs: Seq<DeleteResult>, success: bool) -> nat
    decreases rs.len(),
{
    if rs.len() == 0 {
        0
    } else {
        outcome_count(rs.drop_last(), success) + if rs.last().success == success {
            1nat
        } else {
            0nat
        }
    }
}

/// The log line after a deletion run.
pub fn delete_summary(results: &Vec<DeleteResult>) -> (r: String)
    ensures
        r@ == "Löschvorgang abgeschlossen — "@ + crate::text::dec(outcome_count(results@, true))
            + " gelöscht, "@ + crate::text::dec(outcome_count(results@, false)) + " fehlgeschlagen"@,
{
    let mut ok: u64 = 0;
    let mut fail: u64 = 0;
    let mut i: usize = 0;
    while i < results.len()
        invariant
            i <= results@.len(),
            ok == outcome_count(results@.take(i as int), true),
            fail == outcome_count(results@.take(i as int), false),
            ok + fail == i,
        decreases results.len() - i,
    {
        assert(results@.take(i + 1).drop_last() =~= results@.take(i as int));
        if results[i].success {
            ok = ok + 1;
        } else {
            fail = fail + 1;
        }
        i = i + 1;
    }
    assert(results@.take(results@.len() as int) =~= results@);
    let mut v: Vec<char> = Vec::new();
    push_str(&mut v, "Löschvorgang abgeschlossen — ");
    push_dec(&mut v, ok);
    push_str(&mut v, " gelöscht, ");
    push_dec(&mut v, fail);
    push_str(&mut v, " fehlgeschlagen");
    string_of(&v)
}

/// The category's name as the scanner's `Debug` output writes it.
pub open spec fn category_name_of(c: ExcludeCategory) -> Seq<char> {
    match c {
        ExcludeCategory::Cache => "Cache"@,
        ExcludeCategory::Browser => "Browser"@,
        ExcludeCategory::BuildArtifact => "BuildArtifact"@,
        ExcludeCategory::Toolchain => "Toolchain"@,
        ExcludeCategory::Runtime => "Runtime"@,
        ExcludeCategory::Gaming => "Gaming"@,
        ExcludeCategory::Container => "Container"@,
        ExcludeCategory::VirtualMachine => "VirtualMachine"@,
        ExcludeCategory::Media => "Media"@,
        ExcludeCategory::Communication => "Communication"@,
        ExcludeCategory::LargeUnknown => "LargeUnknown"@,
    }
}

pub fn category_name(c: ExcludeCategory) -> (r: &'static str)
    ensures
        r@ == category_name_of(c),
{
    match c {
        ExcludeCategory::Cache => "Cache",
        ExcludeCategory::Browser => "Browser",
        ExcludeCategory::BuildArtifact => "BuildArtifact",
        ExcludeCategory::Toolchain => "Toolchain",
        ExcludeCategory::Runtime => "Runtime",
        ExcludeCategory::Gaming => "Gaming",
        ExcludeCategory::Container => "Container",
        ExcludeCategory::VirtualMachine => "VirtualMachine",
        ExcludeCategory::Media => "Media",
        ExcludeCategory::Communication => "Communication",
        ExcludeCategory::LargeUnknown => "LargeUnknown",
    }
}

/// The server base of an LLM endpoint: trailing slashes and a known API
/// path removed.
pub open spec fn endpoint_base(e: Seq<char>) -> Seq<char> {
    trim_end_matches(
        trim_end_matches(
            trim_end_matches(trim_end_matches(e, "/"@), "/v1/chat/completions"@),
            "/v1/completions"@,
        ),
        "/completion"@,
    )
}

pub fn llm_endpoint_base(endpoint: &str) -> (r: String)
    ensures
        r@ == endpoint_base(endpoint@),
{
    let e = chars_of(endpoint);
    let e = trim_end_matches_exec(&e, "/");
    let e = trim_end_matches_exec(&e, "/v1/chat/completions");
    let e = trim_end_matches_exec(&e, "/v1/completions");
    let e = trim_end_matches_exec(&e, "/completion");
    string_of(&e)
}

/// The model's reply without a surrounding code fence (```json or ```).
pub open spec fn unfenced(text: Seq<char>) -> Seq<char> {
    let t = trim(text);
    match strip_prefix(t, "```json"@) {
        Some(inner) if crate::text::ends_with(inner, "```"@) => trim(inner.take(inner.len() - 3)),
        _ => match strip_prefix(t, "```"@) {
            Some(inner) if crate::text::ends_with(inner, "```"@) => trim(inner.take(inner.len() - 3)),
            _ => t,
        },
    }
}

fn strip_fence(t: &Vec<char>, open: &str) -> (r: Option<Vec<char>>)
    ensures
        match r {
            Some(v) => (match strip_prefix(t@, open@) {
                Some(inner) => crate::text::ends_with(inner, "```"@) && v@ == trim(inner.take(inner.len() - 3)),
                None => false,
            }),
            None => !(match strip_prefix(t@, open@) {
                Some(inner) => crate::text::ends_with(inner, "```"@),
                None => false,
            }),
        },
{
    match strip_prefix_str(t, open) {
        Some(inner) => {
            if ends_with_str(&inner, "```") {
                proof {
                    reveal_strlit("```");
                }
                let body = slice_chars(&inner, 0, inner.len() - 3);
                assert(body@ =~= inner@.take(inner@.len() - 3));
                Some(trim_chars(&body))
            } else {
                None
            }
        },
        None => None,
    }
}

pub fn normalize_llm_text(text: &str) -> (r: String)
    ensures
        r@ == unfenced(text@),
{
    let t = trim_chars(&chars_of(text));
    if let Some(v) = strip_fence(&t, "```json") {
        return string_of(&v);
    }
    if let Some(v) = strip_fence(&t, "```") {
        return string_of(&v);
    }
    string_of(&t)
}

/// The text from the first `{` to the last `}`, when the last comes after the first.
pub open spec fn brace_slice(s: Seq<char>) -> Option<Seq<char>> {
    match last_char_pos(s, '}') {
        Some(e) if char_pos(s, '{') < s.len() && e > char_pos(s, '{') => Some(s.subrange(char_pos(s, '{') as int, e + 1 as int)),
        _ => None,
    }
}

/// What is parsed as JSON from a model's reply: the unfenced text, and, if
/// that does not parse, its part from the first `{` to the last `}`.
pub fn json_candidates(text: &str) -> (r: (String, Option<String>))
    ensures
        r.0@ == unfenced(text@),
        match r.1 {
            Some(b) => brace_slice(unfenced(text@)) == Some(b@),
            None => brace_slice(unfenced(text@)) is None,
        },
{
    let n = normalize_llm_text(text);
    let v = chars_of(n.as_str());
    let start = char_pos_exec(&v, '{');
    let slice = match last_char_pos_exec(&v, '}') {
        Some(end) => {
            if start < v.len() && end > start {
                Some(string_of(&slice_chars(&v, start, end + 1)))
            } else {
                None
            }
        },
        None => None,
    };
    (n, slice)
}

/// The path of a directory entry relative to home.
pub open spec fn child_rel(rel: Seq<char>, name: Seq<char>) -> Seq<char> {
    if rel.len() == 0 || rel == "."@ {
        name
    } else {
        rel + "/"@ + name
    }
}

pub fn child_rel_path(rel_path: &str, name: &str) -> (r: String)
    ensures
        r@ == child_rel(rel_path@, name@),
{
    let rel = chars_of(rel_path);
    if rel.len() == 0 || eq_str(&rel, ".") {
        String::from_str(name)
    } else {
        let mut v = rel;
        push_str(&mut v, "/");
        push_str(&mut v, name);
        string_of(&v)
    }
}


// ─── Result order ─────────────────────────────────────────────

/// Position `a` comes before position `b` when its size is larger, or the
/// sizes are equal and it was found first.
pub open spec fn size_before(sizes: Seq<u64>, a: usize, b: usize) -> bool {
    sizes[a as int] > sizes[b as int] || (sizes[a as int] == sizes[b as int] && a < b)
}

/// An order of the items: each item once, the largest first, equal sizes in
/// the order they were found.
pub open spec fn largest_first_order(sizes: Seq<u64>, order: Seq<usize>) -> bool {
    &&& order.len() == sizes.len()
    &&& forall|k: int| 0 <= k < order.len() ==> #[trigger] order[k] < sizes.len()
    &&& forall|a: int, b: int| 0 <= a < b < order.len() ==> order[a] != order[b]
    &&& forall|a: int, b: int| 0 <= a < b < order.len() ==> size_before(sizes, #[trigger] order[a], #[trigger] order[b])
}

/// The order in which scan results are listed: by size, largest first; a
/// stable sort, so equal sizes keep the order in which they were found.
pub fn largest_first(sizes: &[u64]) -> (r: Vec<usize>)
    ensures
        largest_first_order(sizes@, r@),
{
    let mut order: Vec<usize> = Vec::new();
    let mut i: usize = 0;
    while i < sizes.len()
        invariant
            i <= sizes@.len(),
            order@.len() == i,
            forall|k: int| 0 <= k < order@.len() ==> #[trigger] order@[k] < i,
            forall|a: int, b: int| 0 <= a < b < order@.len() ==> order@[a] != order@[b],
            forall|a: int, b: int| 0 <= a < b < order@.len() ==> size_before(sizes@, #[trigger] order@[a], #[trigger] order@[b]),
        decreases sizes.len() - i,
    {
        let x = sizes[i];
        let mut k: usize = 0;
        while k < order.len() && sizes[order[k]] >= x
            invariant
                k <= order@.len(),
                order@.len() == i,
                i < sizes@.len(),
                x == sizes@[i as int],
                forall|m: int| 0 <= m < order@.len() ==> #[trigger] order@[m] < i,
                forall|m: int| 0 <= m < k ==> sizes@[#[trigger] order@[m] as int] >= x,
            decreases order.len() - k,
        {
            k = k + 1;
        }
        let ghost before = order@;
        proof {
            if k < before.len() {
                assert(sizes@[before[k as int] as int] < x);
                assert forall|m: int| k <= m < before.len() implies sizes@[#[trigger] before[m] as int] < x by {
                    if m > k {
                        assert(size_before(sizes@, before[k as int], before[m]));
                    }
                }
            }
        }
        order.insert(k, i);
        assert(order@ == before.insert(k as int, i));
        assert forall|a: int, b: int| 0 <= a < b < order@.len() implies size_before(sizes@, #[trigger] order@[a], #[trigger] order@[b]) by {
            if a < k && b < k {
                assert(order@[a] == before[a] && order@[b] == before[b]);
            } else if a < k && b == k {
                assert(order@[a] == before[a]);
            } else if a < k {
                assert(order@[a] == before[a] && order@[b] == before[b - 1]);
            } else if a == k {
                assert(order@[b] == before[b - 1]);
            } else {
                assert(order@[a] == before[a - 1] && order@[b] == before[b - 1]);
            }
        }
        assert forall|a: int, b: int| 0 <= a < b < order@.len() implies order@[a] != order@[b] by {
            if a < k && b < k {
                assert(order@[a] == before[a] && order@[b] == before[b]);
            } else if a < k && b == k {
                assert(order@[a] == before[a]);
            } else if a < k {
                assert(order@[a] == before[a] && order@[b] == before[b - 1]);
            } else if a == k {
                assert(order@[b] == before[b - 1]);
            } else {
                assert(order@[a] == before[a - 1] && order@[b] == before[b - 1]);
            }
        }
        assert forall|m: int| 0 <= m < order@.len() implies #[trigger] order@[m] < i + 1 by {
            if m < k {
                assert(order@[m] == before[m]);
            } else if m > k {
                assert(order@[m] == before[m - 1]);
            }
        }
        i = i + 1;
    }
    order
}


// ─── AI review requests ───────────────────────────────────────

pub open spec fn bool_text(b: bool) -> Seq<char> {
    if b { "true"@ } else { "false"@ }
}

/// What the AI review sees of a path's surroundings: project markers above
/// it and whether it passes through a hidden directory.
#[derive(Debug, Clone, Copy)]
pub struct ReviewSignals {
    pub has_git: bool,
    pub has_package_json: bool,
    pub has_cargo_toml: bool,
    pub has_python_marker: bool,
    pub has_hidden_segment: bool,
}

/// The key under which a review is remembered: path, category, reason and
/// the signals, separated by `|`.
pub open spec fn review_key(rel: Seq<char>, c: ExcludeCategory, reason: Seq<char>, s: ReviewSignals) -> Seq<char> {
    rel + "|"@ + category_name_of(c) + "|"@ + reason + "|"@ + bool_text(s.has_git) + "|"@
        + bool_text(s.has_package_json) + "|"@ + bool_text(s.has_cargo_toml) + "|"@
        + bool_text(s.has_python_marker) + "|"@ + bool_text(s.has_hidden_segment)
}

fn push_bool(v: &mut Vec<char>, b: bool)
    ensures
        final(v)@ == old(v)@ + bool_text(b),
{
    if b {
        push_str(v, "true");
    } else {
        push_str(v, "false");
    }
}

pub fn review_cache_key(rel_path: &str, category: ExcludeCategory, reason: &str, signals: ReviewSignals) -> (r: String)
    ensures
        r@ == review_key(rel_path@, category, reason@, signals),
{
    let mut v: Vec<char> = Vec::new();
    push_str(&mut v, rel_path);
    push_str(&mut v, "|");
    push_str(&mut v, category_name(category));
    push_str(&mut v, "|");
    push_str(&mut v, reason);
    push_str(&mut v, "|");
    push_bool(&mut v, signals.has_git);
    push_str(&mut v, "|");
    push_bool(&mut v, signals.has_package_json);
    push_str(&mut v, "|");
    push_bool(&mut v, signals.has_cargo_toml);
    push_str(&mut v, "|");
    push_bool(&mut v, signals.has_python_marker);
    push_str(&mut v, "|");
    push_bool(&mut v, signals.has_hidden_segment);
    assert(v@ =~= review_key(rel_path@, category, reason@, signals));
    string_of(&v)
}

/// What the model is told before every request.
pub open spec fn strict_preamble() -> Seq<char> {
    "Return ONLY one JSON object with EXACT keys: downgrade (boolean), confidence (number 0..1 = how sure path is SAFE to delete), note (string). No markdown, no code fences, no explanations."@
}

fn push_preamble(v: &mut Vec<char>)
    ensures
        final(v)@ == old(v)@ + strict_preamble(),
{
    push_str(v, "Return ONLY one JSON object with EXACT keys: downgrade (boolean), confidence (number 0..1 = how sure path is SAFE to delete), note (string). No markdown, no code fences, no explanations.");
}

/// The first request: the preamble, then the task description (JSON).
pub fn review_prompt(task_json: &str) -> (r: String)
    ensures
        r@ == strict_preamble() + "\n"@ + task_json@,
{
    let mut v: Vec<char> = Vec::new();
    push_preamble(&mut v);
    push_str(&mut v, "\n");
    push_str(&mut v, task_json);
    string_of(&v)
}

/// A retry: the preamble, then the request to turn the last answer into
/// valid JSON.
pub fn repair_prompt(content: &str) -> (r: String)
    ensures
        r@ == strict_preamble() + "\nTransform this into valid JSON with exactly the required keys and valid types.\nINPUT:\n"@ + content@,
{
    let mut v: Vec<char> = Vec::new();
    push_preamble(&mut v);
    push_str(&mut v, "\nTransform this into valid JSON with exactly the required keys and valid types.\nINPUT:\n");
    push_str(&mut v, content);
    string_of(&v)
}

/// Whether a path passes through a hidden directory (a `/`-separated
/// segment starting with `.`).
pub fn has_hidden_segment(rel_path: &str) -> (r: bool)
    ensures
        r == any_hidden(split_char(rel_path@, '/')),
{
    let segs = split_char_vec(&chars_of(rel_path), '/');
    let r = any_hidden_exec(&segs, segs.len());
    assert(vviews(segs@).take(segs@.len() as int) =~= vviews(segs@));
    r
}

} // verus!
