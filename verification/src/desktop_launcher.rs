//! Desktop applications: parsing `.desktop` entries, cleaning their `Exec`
//! lines, and the icon names tried for them. Reading the files, looking up
//! icons and spawning processes is left to the caller.

use vstd::prelude::*;
use vstd::string::*;
use crate::text::{
    char_pos, char_pos_exec, chars_of, last_char_pos, last_char_pos_exec, collapse_chars, collapse_spaces, ends_with_str, eq_str,
    lines, push_all, slice_chars, split_lines, starts_with, starts_with_str, string_of, trim,
    trim_chars, vviews,
};

verus! {

/// An application that the desktop menu lists.
#[derive(Debug, Clone)]
pub struct DesktopApp {
    pub id: String,
    pub name: String,
    /// The `Exec` line (named so because `exec` is a mode keyword of Verus).
    pub exec_cmd: String,
    pub icon: Option<String>,
    pub icon_path: Option<String>,
    pub terminal: bool,
}

/// ASCII lowercase of a character.
pub open spec fn ascii_lower(c: char) -> char {
    if 'A' <= c && c <= 'Z' {
        ((c as u32) + 32) as char
    } else {
        c
    }
}

pub open spec fn ascii_lowercase(s: Seq<char>) -> Seq<char> {
    s.map_values(|c: char| ascii_lower(c))
}

/// A `.desktop` boolean: `true`, `1` or `yes`, in any ASCII case, trimmed.
pub open spec fn desktop_bool(v: Seq<char>) -> bool {
    let l = ascii_lowercase(trim(v));
    l == "true"@ || l == "1"@ || l == "yes"@
}

pub(crate) fn ascii_lowercase_exec(s: &Vec<char>) -> (r: Vec<char>)
    ensures
        r@ == ascii_lowercase(s@),
{
    let mut r: Vec<char> = Vec::new();
    let mut i: usize = 0;
    while i < s.len()
        invariant
            i <= s@.len(),
            r@ == ascii_lowercase(s@.take(i as int)),
        decreases s.len() - i,
    {
        let c = s[i];
        let l = if 'A' <= c && c <= 'Z' { ((c as u32) + 32) as u8 as char } else { c };
        assert(l == ascii_lower(c)) by {
            if 'A' <= c && c <= 'Z' {
                assert((c as u32) + 32 < 128);
            }
        }
        r.push(l);
        assert(r@ =~= ascii_lowercase(s@.take(i + 1)));
        i = i + 1;
    }
    assert(s@.take(s@.len() as int) =~= s@);
    r
}

pub fn parse_bool(value: &str) -> (r: bool)
    ensures
        r == desktop_bool(value@),
{
    let l = ascii_lowercase_exec(&trim_chars(&chars_of(value)));
    eq_str(&l, "true") || eq_str(&l, "1") || eq_str(&l, "yes")
}

/// What the lines of a `.desktop` file say so far.
pub struct DesktopState {
    pub in_entry: bool,
    pub is_application: bool,
    pub hidden: bool,
    pub no_display: bool,
    pub terminal: bool,
    pub name: Option<Seq<char>>,
    pub exec_line: Option<Seq<char>>,
    pub icon: Option<Seq<char>>,
}

pub open spec fn desktop_start() -> DesktopState {
    DesktopState {
        in_entry: false,
        is_application: false,
        hidden: false,
        no_display: false,
        terminal: false,
        name: None,
        exec_line: None,
        icon: None,
    }
}

/// The state after one more line: sections switch `[Desktop Entry]` on and
/// off; inside it, `key=value` pairs set the fields (the first Name, Exec
/// and Icon win); blank lines and comments are skipped.
pub open spec fn desktop_step(st: DesktopState, raw: Seq<char>) -> DesktopState {
    let t = trim(raw);
    if t.len() == 0 || t[0] == '#' {
        st
    } else if t[0] == '[' && t.last() == ']' {
        DesktopState { in_entry: t == "[Desktop Entry]"@, ..st }
    } else if !st.in_entry || char_pos(t, '=') >= t.len() {
        st
    } else {
        let key = trim(t.take(char_pos(t, '=') as int));
        let value = trim(t.skip(char_pos(t, '=') + 1 as int));
        if key == "Type"@ {
            DesktopState { is_application: value == "Application"@, ..st }
        } else if key == "Name"@ && st.name is None {
            DesktopState { name: Some(value), ..st }
        } else if key == "Exec"@ && st.exec_line is None {
            DesktopState { exec_line: Some(value), ..st }
        } else if key == "Icon"@ && st.icon is None {
            DesktopState { icon: Some(value), ..st }
        } else if key == "NoDisplay"@ {
            DesktopState { no_display: desktop_bool(value), ..st }
        } else if key == "Hidden"@ {
            DesktopState { hidden: desktop_bool(value), ..st }
        } else if key == "Terminal"@ {
            DesktopState { terminal: desktop_bool(value), ..st }
        } else {
            st
        }
    }
}

pub open spec fn desktop_fold(ls: Seq<Seq<char>>) -> DesktopState
    decreases ls.len(),
{
    if ls.len() == 0 {
        desktop_start()
    } else {
        desktop_step(desktop_fold(ls.drop_last()), ls.last())
    }
}

/// Id, name, exec, icon and terminal flag of a visible application entry;
/// `None` for other types, hidden or undisplayed entries, or entries without
/// a name or exec line.
pub open spec fn desktop_entry(content: Seq<char>, file_name: Seq<char>) -> Option<(Seq<char>, Seq<char>, Seq<char>, Option<Seq<char>>, bool)> {
    let st = desktop_fold(lines(content));
    if !st.is_application || st.hidden || st.no_display || st.name is None || st.exec_line is None {
        None
    } else {
        Some((file_name, st.name->0, st.exec_line->0, st.icon, st.terminal))
    }
}

spec fn opt_view(o: Option<Vec<char>>) -> Option<Seq<char>> {
    match o {
        Some(v) => Some(v@),
        None => None,
    }
}

/// Parses the text of a `.desktop` file named `file_name`; the icon path is
/// left for the caller to resolve.
pub fn parse_desktop_entry(content: &str, file_name: &str) -> (r: Option<DesktopApp>)
    ensures
        match r {
            Some(a) => desktop_entry(content@, file_name@) == Some(
                (a.id@, a.name@, a.exec_cmd@, match a.icon {
                    Some(i) => Some(i@),
                    None => None,
                }, a.terminal),
            ) && a.icon_path is None,
            None => desktop_entry(content@, file_name@) is None,
        },
{
    let ls = split_lines(&chars_of(content));
    let mut in_entry = false;
    let mut is_application = false;
    let mut hidden = false;
    let mut no_display = false;
    let mut terminal = false;
    let mut name: Option<Vec<char>> = None;
    let mut exec_line: Option<Vec<char>> = None;
    let mut icon: Option<Vec<char>> = None;
    let mut i: usize = 0;
    while i < ls.len()
        invariant
            i <= ls@.len(),
            desktop_fold(vviews(ls@).take(i as int)) == (DesktopState {
                in_entry,
                is_application,
                hidden,
                no_display,
                terminal,
                name: opt_view(name),
                exec_line: opt_view(exec_line),
                icon: opt_view(icon),
            }),
        decreases ls.len() - i,
    {
        assert(vviews(ls@).take(i + 1).drop_last() =~= vviews(ls@).take(i as int));
        assert(vviews(ls@).take(i + 1).last() == ls@[i as int]@);
        let t = trim_chars(&ls[i]);
        if t.len() == 0 || t[0] == '#' {
        } else if t[0] == '[' && t[t.len() - 1] == ']' {
            in_entry = eq_str(&t, "[Desktop Entry]");
        } else {
            let eq = char_pos_exec(&t, '=');
            if in_entry && eq < t.len() {
                let key = trim_chars(&slice_chars(&t, 0, eq));
                let value = trim_chars(&slice_chars(&t, eq + 1, t.len()));
                assert(t@.take(eq as int) =~= t@.subrange(0, eq as int));
                assert(t@.skip(eq + 1) =~= t@.subrange(eq + 1, t@.len() as int));
                if eq_str(&key, "Type") {
                    is_application = eq_str(&value, "Application");
                } else if eq_str(&key, "Name") && name.is_none() {
                    name = Some(value);
                } else if eq_str(&key, "Exec") && exec_line.is_none() {
                    exec_line = Some(value);
                } else if eq_str(&key, "Icon") && icon.is_none() {
                    icon = Some(value);
                } else if eq_str(&key, "NoDisplay") {
                    no_display = parse_bool(string_of(&value).as_str());
                } else if eq_str(&key, "Hidden") {
                    hidden = parse_bool(string_of(&value).as_str());
                } else if eq_str(&key, "Terminal") {
                    terminal = parse_bool(string_of(&value).as_str());
                }
            }
        }
        i = i + 1;
    }
    assert(vviews(ls@).take(ls@.len() as int) =~= vviews(ls@));
    if !is_application || hidden || no_display {
        return None;
    }
    match (name, exec_line) {
        (Some(n), Some(e)) => Some(DesktopApp {
            id: String::from_str(file_name),
            name: string_of(&n),
            exec_cmd: string_of(&e),
            icon: match icon {
                Some(ic) => Some(string_of(&ic)),
                None => None,
            },
            icon_path: None,
            terminal,
        }),
        _ => None,
    }
}

/// The `Exec` line without field codes (`%f`, `%U`, …; `%%` is a percent
/// sign; a lone trailing `%` is dropped).
pub open spec fn without_field_codes(s: Seq<char>) -> Seq<char>
    decreases s.len(),
{
    if s.len() == 0 {
        seq![]
    } else if s[0] == '%' {
        if s.len() >= 2 {
            if s[1] == '%' {
                seq!['%'] + without_field_codes(s.skip(2))
            } else {
                without_field_codes(s.skip(2))
            }
        } else {
            seq![]
        }
    } else {
        seq![s[0]] + without_field_codes(s.drop_first())
    }
}

/// The command line to run for an `Exec` value: field codes removed,
/// whitespace collapsed.
pub fn sanitize_exec(command: &str) -> (r: String)
    ensures
        r@ == collapse_spaces(without_field_codes(command@)),
{
    let s = chars_of(command);
    let mut cleaned: Vec<char> = Vec::new();
    let mut i: usize = 0;
    assert(s@.skip(0) =~= s@);
    assert(cleaned@ + without_field_codes(s@.skip(0)) =~= without_field_codes(s@));
    while i < s.len()
        invariant
            i <= s@.len(),
            cleaned@ + without_field_codes(s@.skip(i as int)) == without_field_codes(s@),
        decreases s.len() - i,
    {
        let ghost rest = s@.skip(i as int);
        assert(rest[0] == s@[i as int]);
        if s[i] == '%' {
            if i + 1 < s.len() {
                assert(rest[1] == s@[i + 1]);
                assert(rest.skip(2) =~= s@.skip(i + 2));
                if s[i + 1] == '%' {
                    cleaned.push('%');
                    assert(cleaned@ + without_field_codes(s@.skip(i + 2)) =~= cleaned@.drop_last() + without_field_codes(rest));
                }
                i = i + 2;
            } else {
                assert(cleaned@ + Seq::<char>::empty() =~= cleaned@);
                assert(s@.skip(i + 1) =~= Seq::<char>::empty());
                i = i + 1;
            }
        } else {
            assert(rest.drop_first() =~= s@.skip(i + 1));
            cleaned.push(s[i]);
            assert(cleaned@ + without_field_codes(s@.skip(i + 1)) =~= cleaned@.drop_last() + without_field_codes(rest));
            i = i + 1;
        }
    }
    proof {
        assert(s@.skip(i as int) =~= Seq::<char>::empty());
        assert(cleaned@ + Seq::<char>::empty() =~= cleaned@);
    }
    string_of(&collapse_chars(&cleaned))
}

/// What `Path::file_name` gives for a path, as text.
pub uninterp spec fn path_file_name(p: Seq<char>) -> Option<Seq<char>>;

/// `Path::file_name`.
#[verifier::external_body]
pub(crate) fn file_name_of(p: &str) -> (r: Option<String>)
    ensures
        match r {
            Some(n) => path_file_name(p@) == Some(n@),
            None => path_file_name(p@) is None,
        },
{
    std::path::Path::new(p).file_name().and_then(|n| n.to_str()).map(|n| n.to_string())
}

/// The stem of a file name, as std documents `Path::file_stem`: the whole
/// name when it holds no '.' or only a leading one, else the part before
/// the last '.'.
pub open spec fn name_stem(name: Seq<char>) -> Seq<char> {
    match last_char_pos(name, '.') {
        Some(k) if k > 0 => name.take(k as int),
        _ => name,
    }
}

/// The extension of a file name, as std documents `Path::extension`: none
/// when the name holds no '.' or only a leading one, else the part after
/// the last '.'.
pub open spec fn name_extension(name: Seq<char>) -> Option<Seq<char>> {
    match last_char_pos(name, '.') {
        Some(k) if k > 0 => Some(name.skip(k + 1int)),
        _ => None,
    }
}

/// `Path::file_stem`: the stem of the path's file name, if it has one.
pub open spec fn path_file_stem(p: Seq<char>) -> Option<Seq<char>> {
    match path_file_name(p) {
        Some(n) => Some(name_stem(n)),
        None => None,
    }
}

/// `Path::extension`: the extension of the path's file name, if any.
pub open spec fn path_extension(p: Seq<char>) -> Option<Seq<char>> {
    match path_file_name(p) {
        Some(n) => name_extension(n),
        None => None,
    }
}

pub fn name_stem_exec(n: &Vec<char>) -> (r: Vec<char>)
    ensures
        r@ == name_stem(n@),
{
    match last_char_pos_exec(n, '.') {
        Some(k) if k > 0 => slice_chars(n, 0, k),
        _ => slice_chars(n, 0, n.len()),
    }
}

pub fn name_extension_exec(n: &Vec<char>) -> (r: Option<Vec<char>>)
    ensures
        match r {
            Some(e) => name_extension(n@) == Some(e@),
            None => name_extension(n@) is None,
        },
{
    let pos = last_char_pos_exec(n, '.');
    let len = n.len();
    match pos {
        Some(k) => {
            if k > 0 {
                assert(k < len);
                Some(slice_chars(n, k + 1, len))
            } else {
                None
            }
        },
        None => None,
    }
}

fn file_stem_of(p: &str) -> (r: Option<String>)
    ensures
        match r {
            Some(n) => path_file_stem(p@) == Some(n@),
            None => path_file_stem(p@) is None,
        },
{
    match file_name_of(p) {
        Some(n) => Some(string_of(&name_stem_exec(&chars_of(n.as_str())))),
        None => None,
    }
}

/// The names an icon is looked up by: the trimmed name, its file name if
/// that differs, its file stem if not already listed.
pub open spec fn icon_candidates(icon: Seq<char>) -> Seq<Seq<char>> {
    let t = trim(icon);
    let with_file = match path_file_name(t) {
        Some(f) if f != t => seq![t, f],
        _ => seq![t],
    };
    match path_file_stem(t) {
        Some(st) if !with_file.contains(st) => with_file.push(st),
        _ => with_file,
    }
}

pub fn candidate_icon_names(icon_name: &str) -> (r: Vec<String>)
    ensures
        crate::helpers::string_views(r@) == icon_candidates(icon_name@),
{
    let t = string_of(&trim_chars(&chars_of(icon_name)));
    let mut names: Vec<String> = Vec::new();
    names.push(t.clone());
    if let Some(f) = file_name_of(t.as_str()) {
        if !crate::boot::string_eq(&f, &t) {
            names.push(f);
        }
    }
    let ghost with_file = crate::helpers::string_views(names@);
    assert(with_file =~= (match path_file_name(t@) {
        Some(f) if f != t@ => seq![t@, f],
        _ => seq![t@],
    }));
    if let Some(st) = file_stem_of(t.as_str()) {
        let mut found = false;
        let mut k: usize = 0;
        while k < names.len()
            invariant
                k <= names@.len(),
                crate::helpers::string_views(names@) == with_file,
                found == crate::helpers::string_views(names@).take(k as int).contains(st@),
            decreases names.len() - k,
        {
            let ghost tk = crate::helpers::string_views(names@).take(k + 1);
            assert(tk =~= crate::helpers::string_views(names@).take(k as int).push(names@[k as int]@));
            if crate::boot::string_eq(&names[k], &st) {
                found = true;
                assert(tk[k as int] == st@);
            } else {
                assert(found == tk.contains(st@)) by {
                    if tk.contains(st@) {
                        let j = choose|j: int| 0 <= j < tk.len() && tk[j] == st@;
                        if j < k {
                            assert(crate::helpers::string_views(names@).take(k as int)[j] == st@);
                        }
                    }
                }
            }
            k = k + 1;
        }
        assert(crate::helpers::string_views(names@).take(names@.len() as int) =~= with_file);
        if !found {
            names.push(st);
            assert(crate::helpers::string_views(names@) =~= with_file.push(st@));
        }
    }
    names
}

/// Index of the application with id `app_id`, or the "not found" message.
pub fn find_desktop_app(apps: &Vec<DesktopApp>, app_id: &str) -> (r: Result<usize, String>)
    ensures
        match r {
            Ok(i) => i < apps@.len() && apps@[i as int].id@ == app_id@ && forall|j: int| 0 <= j < i ==> apps@[j].id@ != app_id@,
            Err(m) => m@ == "Desktop app not found: "@ + app_id@ && forall|j: int| 0 <= j < apps@.len() ==> apps@[j].id@ != app_id@,
        },
{
    let id = String::from_str(app_id);
    let mut i: usize = 0;
    while i < apps.len()
        invariant
            i <= apps@.len(),
            id@ == app_id@,
            forall|j: int| 0 <= j < i ==> apps@[j].id@ != app_id@,
        decreases apps.len() - i,
    {
        if crate::boot::string_eq(&apps[i].id, &id) {
            return Ok(i);
        }
        i = i + 1;
    }
    let mut v: Vec<char> = Vec::new();
    crate::text::push_str(&mut v, "Desktop app not found: ");
    crate::text::push_str(&mut v, app_id);
    Err(string_of(&v))
}

} // verus!
