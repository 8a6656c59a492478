//! Voice/text command understanding: input normalisation, the closed-set
//! command resolver with fuzzy token matching, and the keyword fast-path parser.

use vstd::prelude::*;
use vstd::string::*;
use crate::text::{
    chars_of, collapse_chars, collapse_spaces, contains, contains_any, contains_any_str,
    contains_str, contains_chars, digit_core, digit_core_chars, eq_any_str, eq_str, parse_u16, parse_u16_chars,
    push_all, push_dec, push_str, replace, replace_chars, split_ws, string_of, trim, trim_chars,
    vviews, views, words, dec, is_digit, starts_with, matches_at, matches_at_exec, trim_end_matches,
};

verus! {

// ─── Types ────────────────────────────────────────────────────

/// Which group of lights a command addresses.
#[derive(Clone, Copy, Debug, PartialEq, Eq, Structural)]
pub enum Scope {
    All,
    Govee,
    Rgb,
}

#[derive(Clone, Copy, Debug, PartialEq, Eq, Structural)]
pub enum CanonicalColor {
    Blau,
    Lila,
    Orange,
}

/// A command of the closed set that voice input is resolved to.
#[derive(Clone, Copy, Debug, PartialEq, Eq, Structural)]
pub enum CanonicalCommand {
    RgbPower { on: bool },
    AllLightsPower { on: bool },
    AllLightsColor(CanonicalColor),
    GoveeBrightness { percent: u8 },
    FanSpeed { percent: u8 },
    TankLevel,
    GpuTemperature,
}

/// Parameters of an action, one variant per JSON shape the actions carry.
#[derive(Clone, Copy, Debug, PartialEq, Eq)]
pub enum ActionParams {
    /// `{}`
    Empty,
    /// `{"power": on}`
    Power(bool),
    /// `{"r": r, "g": g, "b": b}`
    Color { r: u8, g: u8, b: u8 },
    /// `{"lamp": lamp, "r": r, "g": g, "b": b}`
    LampColor { lamp: &'static str, r: u8, g: u8, b: u8 },
    /// `{"brightness": n}`
    Brightness(u8),
    /// `{"percent": n}`
    Percent(u16),
    /// `{"percent": "auto"}`
    PercentAuto,
    /// `{"mode": mode}`
    Mode(&'static str),
    /// `{"app": app}`
    App(&'static str),
    /// `{"seconds": n}`
    Seconds(u8),
}

/// An action recognised in the input, with its parameters.
#[derive(Clone, Copy, Debug, PartialEq, Eq)]
pub struct KeywordAction {
    pub action: &'static str,
    pub params: ActionParams,
}

// ─── Normalisation ────────────────────────────────────────────

/// What `str::to_lowercase` returns for a string (Unicode lowercase mapping).
pub uninterp spec fn lowercase(s: Seq<char>) -> Seq<char>;

/// `str::to_lowercase`.
#[verifier::external_body]
pub(crate) fn to_lowercase(s: &str) -> (r: String)
    ensures
        r@ == lowercase(s@),
{
    s.to_lowercase()
}

/// Characters that normalisation turns into spaces.
pub open spec fn is_punct(c: char) -> bool {
    c == '!' || c == '?' || c == ':' || c == ';' || c == ',' || c == '.' || c == '"' || c
        == '\'' || c == '(' || c == ')' || c == '%'
}

/// Umlauts spelled out, as in `normalize_input`.
pub open spec fn spell_umlauts(s: Seq<char>) -> Seq<char> {
    replace(replace(replace(replace(s, "ä"@, "ae"@), "ö"@, "oe"@), "ü"@, "ue"@), "ß"@, "ss"@)
}

pub open spec fn blank_punct(s: Seq<char>) -> Seq<char> {
    s.map_values(|c: char| if is_punct(c) { ' ' } else { c })
}

/// Lowercase, umlauts spelled out, punctuation blanked, whitespace collapsed.
pub open spec fn normalized(s: Seq<char>) -> Seq<char> {
    collapse_spaces(blank_punct(spell_umlauts(lowercase(s))))
}

proof fn lemma_literals_nonempty()
    ensures
        "ä"@.len() > 0,
        "ö"@.len() > 0,
        "ü"@.len() > 0,
        "ß"@.len() > 0,
{
    reveal_strlit("ä");
    reveal_strlit("ö");
    reveal_strlit("ü");
    reveal_strlit("ß");
}

fn blank_punct_chars(s: &Vec<char>) -> (r: Vec<char>)
    ensures
        r@ == blank_punct(s@),
{
    let mut r: Vec<char> = Vec::new();
    let mut i: usize = 0;
    while i < s.len()
        invariant
            i <= s.len(),
            r@ == blank_punct(s@.take(i as int)),
        decreases s.len() - i,
    {
        let c = s[i];
        let p = c == '!' || c == '?' || c == ':' || c == ';' || c == ',' || c == '.' || c == '"'
            || c == '\'' || c == '(' || c == ')' || c == '%';
        r.push(if p { ' ' } else { c });
        assert(blank_punct(s@.take(i + 1)) =~= blank_punct(s@.take(i as int)).push(
            if is_punct(c) { ' ' } else { c },
        ));
        i = i + 1;
    }
    assert(s@.take(s.len() as int) =~= s@);
    r
}

/// Normalised characters of `input`.
pub fn normalize_chars(input: &str) -> (r: Vec<char>)
    ensures
        r@ == normalized(input@),
{
    proof {
        lemma_literals_nonempty();
    }
    let lower = to_lowercase(input);
    let v = chars_of(lower.as_str());
    let v = replace_chars(&v, "ä", "ae");
    let v = replace_chars(&v, "ö", "oe");
    let v = replace_chars(&v, "ü", "ue");
    let v = replace_chars(&v, "ß", "ss");
    let v = blank_punct_chars(&v);
    collapse_chars(&v)
}

/// Lowercases, spells out umlauts, turns punctuation into spaces and collapses whitespace.
pub fn normalize_input(input: &str) -> (r: String)
    ensures
        r@ == normalized(input@),
{
    let v = normalize_chars(input);
    string_of(&v)
}

/// `split_whitespace().collect::<Vec<_>>().join(" ")`.
pub fn collapse_spaces_str(input: &str) -> (r: String)
    ensures
        r@ == collapse_spaces(input@),
{
    let v = chars_of(input);
    let c = collapse_chars(&v);
    string_of(&c)
}

/// The tokens of a string: its whitespace-separated words.
pub fn tokenize(input: &str) -> (r: Vec<String>)
    ensures
        r@.len() == words(input@).len(),
        forall|k: int| 0 <= k < r@.len() ==> #[trigger] r@[k]@ == words(input@)[k],
{
    let v = chars_of(input);
    let ws = split_ws(&v);
    let mut r: Vec<String> = Vec::new();
    let mut i: usize = 0;
    while i < ws.len()
        invariant
            i <= ws.len(),
            vviews(ws@) == words(input@),
            r@.len() == i,
            forall|k: int| 0 <= k < i ==> #[trigger] r@[k]@ == words(input@)[k],
        decreases ws.len() - i,
    {
        assert(vviews(ws@)[i as int] == ws@[i as int]@);
        r.push(string_of(&ws[i]));
        i = i + 1;
    }
    r
}

/// Misheard spellings and their repairs, applied in this order.
pub open spec fn repairs() -> Seq<(Seq<char>, Seq<char>)> {
    seq![
        ("c gpu"@, "gpu"@),
        ("cgpu"@, "gpu"@),
        ("gpu temp"@, "gpu temperatur"@),
        ("g p u"@, "gpu"@),
        ("covi"@, "govee"@),
        ("kovi"@, "govee"@),
        ("govi"@, "govee"@),
        ("go vee"@, "govee"@),
        ("go wi"@, "govee"@),
        ("r g b"@, "rgb"@),
        ("egb"@, "rgb"@),
        ("ergb"@, "rgb"@),
        ("pro cent"@, "prozent"@),
        ("pro zent"@, "prozent"@),
    ]
}

/// The first `n` repairs applied in order.
pub open spec fn apply_repairs(s: Seq<char>, n: nat) -> Seq<char>
    decreases n,
{
    if n == 0 {
        s
    } else {
        let prev = apply_repairs(s, (n - 1) as nat);
        replace(prev, repairs()[n - 1].0, repairs()[n - 1].1)
    }
}

/// `canonicalize_input`: normalised, repaired, whitespace collapsed.
pub open spec fn canonicalized(s: Seq<char>) -> Seq<char> {
    let n = normalized(s);
    if n.len() == 0 {
        n
    } else {
        collapse_spaces(apply_repairs(n, repairs().len()))
    }
}

proof fn lemma_repair_patterns()
    ensures
        forall|k: int| 0 <= k < repairs().len() ==> #[trigger] repairs()[k].0.len() > 0,
{
    reveal_strlit("c gpu");
    reveal_strlit("cgpu");
    reveal_strlit("gpu temp");
    reveal_strlit("g p u");
    reveal_strlit("covi");
    reveal_strlit("kovi");
    reveal_strlit("govi");
    reveal_strlit("go vee");
    reveal_strlit("go wi");
    reveal_strlit("r g b");
    reveal_strlit("egb");
    reveal_strlit("ergb");
    reveal_strlit("pro cent");
    reveal_strlit("pro zent");
}

fn canonicalize_chars(input: &str) -> (r: Vec<char>)
    ensures
        r@ == canonicalized(input@),
{
    let s = normalize_chars(input);
    if s.len() == 0 {
        return s;
    }
    proof {
        lemma_repair_patterns();
    }
    let pairs: [(&str, &str); 14] = [
        ("c gpu", "gpu"),
        ("cgpu", "gpu"),
        ("gpu temp", "gpu temperatur"),
        ("g p u", "gpu"),
        ("covi", "govee"),
        ("kovi", "govee"),
        ("govi", "govee"),
        ("go vee", "govee"),
        ("go wi", "govee"),
        ("r g b", "rgb"),
        ("egb", "rgb"),
        ("ergb", "rgb"),
        ("pro cent", "prozent"),
        ("pro zent", "prozent"),
    ];
    assert(pairs@.map_values(|p: (&str, &str)| (p.0@, p.1@)) =~= repairs());
    let mut v = s;
    let mut i: usize = 0;
    while i < 14
        invariant
            i <= 14,
            pairs@.map_values(|p: (&str, &str)| (p.0@, p.1@)) == repairs(),
            forall|k: int| 0 <= k < repairs().len() ==> #[trigger] repairs()[k].0.len() > 0,
            v@ == apply_repairs(normalized(input@), i as nat),
        decreases 14 - i,
    {
        let (from, to) = pairs[i];
        assert(repairs()[i as int] == (from@, to@));
        assert(repairs()[i as int].0.len() > 0);
        v = replace_chars(&v, from, to);
        i = i + 1;
    }
    collapse_chars(&v)
}

/// Normalises the input and repairs common misrecognitions.
pub fn canonicalize_input(input: &str) -> (r: String)
    ensures
        r@ == canonicalized(input@),
{
    let v = canonicalize_chars(input);
    string_of(&v)
}

/// Transcripts that are known noise and are dropped entirely.
pub open spec fn noise_transcripts() -> Seq<Seq<char>> {
    seq!["bildschirmherr"@, "bildschirm herr"@, "wie auf 50 prozent"@, "haben sie gpu"@]
}

/// `repair_voice_input`: the canonical form, or nothing for known noise.
pub open spec fn repaired(s: Seq<char>) -> Seq<char> {
    let c = canonicalized(s);
    if c.len() == 0 {
        c
    } else if noise_transcripts().contains(trim(c)) {
        seq![]
    } else {
        c
    }
}

fn repair_chars(input: &str) -> (r: Vec<char>)
    ensures
        r@ == repaired(input@),
{
    let s = canonicalize_chars(input);
    if s.len() == 0 {
        return s;
    }
    let t = trim_chars(&s);
    let noise: [&str; 4] = [
        "bildschirmherr",
        "bildschirm herr",
        "wie auf 50 prozent",
        "haben sie gpu",
    ];
    assert(views(noise@) =~= noise_transcripts());
    if eq_any_str(&t, &noise) {
        return Vec::new();
    }
    s
}

/// Canonicalises voice input and drops transcripts that are known noise.
pub fn repair_voice_input(input: &str) -> (r: String)
    ensures
        r@ == repaired(input@),
{
    let v = repair_chars(input);
    string_of(&v)
}

} // verus!

verus! {

// ─── Hard rejection ───────────────────────────────────────────

/// The number a word stands for, as the parsers read it: non-digits trimmed
/// from both ends, then a trailing "prozent" stripped, then parsed as `u16`.
pub open spec fn word_number(w: Seq<char>) -> Option<u16> {
    parse_u16(trim_end_matches(digit_core(w), "prozent"@))
}

/// The first word, in order, whose number lies in `1..=100`.
pub open spec fn first_percent(ws: Seq<Seq<char>>) -> Option<u8>
    decreases ws.len(),
{
    if ws.len() == 0 {
        None
    } else {
        match word_number(ws[0]) {
            Some(v) if 1 <= v <= 100 => Some(v as u8),
            _ => first_percent(ws.drop_first()),
        }
    }
}

/// `extract_percent_value`.
pub open spec fn percent_value(s: Seq<char>) -> Option<u8> {
    first_percent(words(s))
}

proof fn lemma_trim_prozent(s: Seq<char>)
    requires
        s.len() == 0 || is_digit(s.last()),
    ensures
        trim_end_matches(s, "prozent"@) == s,
{
    reveal_strlit("prozent");
    if s.len() > 0 && "prozent"@.len() <= s.len() {
        let p = "prozent"@;
        assert(s.subrange(s.len() - p.len(), s.len() as int)[p.len() - 1] == s.last());
    }
}

pub(crate) fn word_number_exec(w: &Vec<char>) -> (r: Option<u16>)
    ensures
        r == word_number(w@),
{
    let core = digit_core_chars(w);
    proof {
        lemma_trim_prozent(core@);
    }
    parse_u16_chars(&core)
}

fn percent_in_words(ws: &Vec<Vec<char>>) -> (r: Option<u8>)
    ensures
        r == first_percent(vviews(ws@)),
{
    let mut i: usize = 0;
    assert(vviews(ws@).skip(0) =~= vviews(ws@));
    while i < ws.len()
        invariant
            i <= ws.len(),
            first_percent(vviews(ws@)) == first_percent(vviews(ws@).skip(i as int)),
        decreases ws.len() - i,
    {
        let ghost rest = vviews(ws@).skip(i as int);
        assert(rest[0] == ws@[i as int]@);
        assert(rest.drop_first() =~= vviews(ws@).skip(i + 1));
        match word_number_exec(&ws[i]) {
            Some(v) => {
                if 1 <= v && v <= 100 {
                    return Some(v as u8);
                }
            },
            None => {},
        }
        i = i + 1;
    }
    None
}

fn percent_value_chars(s: &Vec<char>) -> (r: Option<u8>)
    ensures
        r == percent_value(s@),
{
    let ws = split_ws(s);
    percent_in_words(&ws)
}

/// The first percentage (`1..=100`) written in the input, if any.
pub fn extract_percent_value(input: &str) -> (r: Option<u8>)
    ensures
        r == percent_value(input@),
{
    let s = chars_of(input);
    percent_value_chars(&s)
}

/// A percentage appears without anything it could be set "auf".
pub open spec fn standalone_percent(s: Seq<char>) -> bool {
    percent_value(s) is Some && !contains_any(
        s,
        seq!["auf"@, "helligkeit"@, "brightness"@, "lautstaerke"@],
    )
}

fn standalone_percent_chars(s: &Vec<char>) -> (r: bool)
    ensures
        r == standalone_percent(s@),
{
    let words: [&str; 4] = ["auf", "helligkeit", "brightness", "lautstaerke"];
    assert(views(words@) =~= seq!["auf"@, "helligkeit"@, "brightness"@, "lautstaerke"@]);
    percent_value_chars(s).is_some() && !contains_any_str(s, &words)
}

/// The input holds a percentage but nothing it could apply to.
pub fn has_standalone_percent(input: &str) -> (r: bool)
    ensures
        r == standalone_percent(input@),
{
    let s = chars_of(input);
    standalone_percent_chars(&s)
}

pub open spec fn percent_targets() -> Seq<Seq<char>> {
    seq![
        "govee"@,
        "rgb"@,
        "luefter"@,
        "fan"@,
        "lautstaerke"@,
        "volume"@,
        "bildschirm"@,
        "monitor"@,
        "helligkeit"@,
        "licht"@,
        "lichter"@,
        "lampe"@,
        "lampen"@,
    ]
}

pub open spec fn command_anchors() -> Seq<Seq<char>> {
    seq![
        "rgb"@,
        "govee"@,
        "licht"@,
        "lichter"@,
        "lampe"@,
        "luefter"@,
        "fan"@,
        "gpu"@,
        "tank"@,
        "oeffne"@,
        "starte"@,
        "screenshot"@,
        "bildschirm"@,
        "lautstaerke"@,
        "mute"@,
    ]
}

/// Why a transcript is rejected before any matching, if it is.
pub open spec fn reject_reason(s: Seq<char>) -> Option<Seq<char>> {
    let t = trim(s);
    let tokens = words(t);
    if t.len() == 0 || tokens.len() == 0 {
        Some("empty transcript"@)
    } else if tokens.len() == 1 {
        Some("single-token fragment"@)
    } else if standalone_percent(t) && !contains_any(t, percent_targets()) {
        Some("percentage without explicit target"@)
    } else if tokens.len() <= 2 && !contains_any(t, command_anchors()) {
        Some("short fragment without command anchor"@)
    } else {
        None
    }
}

fn reject_reason_chars(s: &Vec<char>) -> (r: Option<String>)
    ensures
        match (r, reject_reason(s@)) {
            (Some(a), Some(b)) => a@ == b,
            (None, None) => true,
            _ => false,
        },
{
    let t = trim_chars(s);
    if t.len() == 0 {
        return Some(String::from_str("empty transcript"));
    }
    let tokens = split_ws(&t);
    if tokens.len() == 0 {
        return Some(String::from_str("empty transcript"));
    }
    if tokens.len() == 1 {
        return Some(String::from_str("single-token fragment"));
    }
    let targets: [&str; 13] = [
        "govee",
        "rgb",
        "luefter",
        "fan",
        "lautstaerke",
        "volume",
        "bildschirm",
        "monitor",
        "helligkeit",
        "licht",
        "lichter",
        "lampe",
        "lampen",
    ];
    assert(views(targets@) =~= percent_targets());
    if standalone_percent_chars(&t) && !contains_any_str(&t, &targets) {
        return Some(String::from_str("percentage without explicit target"));
    }
    let anchors: [&str; 15] = [
        "rgb",
        "govee",
        "licht",
        "lichter",
        "lampe",
        "luefter",
        "fan",
        "gpu",
        "tank",
        "oeffne",
        "starte",
        "screenshot",
        "bildschirm",
        "lautstaerke",
        "mute",
    ];
    assert(views(anchors@) =~= command_anchors());
    if tokens.len() <= 2 && !contains_any_str(&t, &anchors) {
        return Some(String::from_str("short fragment without command anchor"));
    }
    None
}

/// The reason a transcript is rejected outright, or `None` when it may be matched.
pub fn hard_reject_reason(input: &str) -> (r: Option<String>)
    ensures
        match (r, reject_reason(input@)) {
            (Some(a), Some(b)) => a@ == b,
            (None, None) => true,
            _ => false,
        },
{
    let s = chars_of(input);
    reject_reason_chars(&s)
}

/// The transcript is rejected outright.
pub fn hard_reject(input: &str) -> (r: bool)
    ensures
        r == (reject_reason(input@) is Some),
{
    hard_reject_reason(input).is_some()
}

// ─── Fuzzy token matching ─────────────────────────────────────

pub open spec fn min3(a: nat, b: nat, c: nat) -> nat {
    let m = if a <= b { a } else { b };
    if m <= c { m } else { c }
}

/// Levenshtein edit distance.
pub open spec fn lev(a: Seq<char>, b: Seq<char>) -> nat
    decreases a.len() + b.len(),
{
    if a.len() == 0 {
        b.len()
    } else if b.len() == 0 {
        a.len()
    } else {
        min3(
            lev(a.drop_last(), b) + 1,
            lev(a, b.drop_last()) + 1,
            lev(a.drop_last(), b.drop_last()) + (if a.last() == b.last() { 0nat } else { 1nat }),
        )
    }
}

proof fn lemma_lev_bound(a: Seq<char>, b: Seq<char>)
    ensures
        lev(a, b) <= if a.len() >= b.len() { a.len() } else { b.len() },
    decreases a.len() + b.len(),
{
    if a.len() > 0 && b.len() > 0 {
        lemma_lev_bound(a.drop_last(), b.drop_last());
    }
}

/// Levenshtein distance between two strings, by characters.
pub fn levenshtein(left: &str, right: &str) -> (r: usize)
    ensures
        r == lev(left@, right@),
{
    let a = chars_of(left);
    let b = chars_of(right);
    lev_chars(&a, &b)
}

fn lev_chars(a: &Vec<char>, b: &Vec<char>) -> (r: usize)
    ensures
        r == lev(a@, b@),
{
    let m = b.len();
    let mut costs: Vec<u128> = Vec::new();
    let mut k: usize = 0;
    while k < m
        invariant
            k <= m,
            m == b.len(),
            costs@.len() == k,
            forall|j: int| 0 <= j < k ==> #[trigger] costs@[j] == lev(a@.take(0), b@.take(j)),
        decreases m - k,
    {
        assert(a@.take(0).len() == 0);
        costs.push(k as u128);
        k = k + 1;
    }
    assert(a@.take(0).len() == 0);
    costs.push(m as u128);
    let mut i: usize = 0;
    while i < a.len()
        invariant
            i <= a.len(),
            m == b.len(),
            costs@.len() == m + 1,
            forall|j: int| 0 <= j <= m ==> #[trigger] costs@[j] == lev(a@.take(i as int), b@.take(j)),
        decreases a.len() - i,
    {
        let ghost ai = a@.take(i as int);
        let ghost ai1 = a@.take(i + 1);
        assert(ai1.drop_last() =~= ai);
        assert(ai1.last() == a@[i as int]);
        let mut last_cost: u128 = costs[0];
        assert(b@.take(0).len() == 0);
        costs.set(0, (i + 1) as u128);
        let mut j: usize = 0;
        while j < m
            invariant
                i < a.len(),
                m == b.len(),
                j <= m,
                ai == a@.take(i as int),
                ai1 == a@.take(i + 1),
                ai1.drop_last() == ai,
                ai1.last() == a@[i as int],
                costs@.len() == m + 1,
                last_cost == lev(ai, b@.take(j as int)),
                forall|k: int| 0 <= k <= j ==> #[trigger] costs@[k] == lev(ai1, b@.take(k)),
                forall|k: int| j < k <= m ==> #[trigger] costs@[k] == lev(ai, b@.take(k)),
            decreases m - j,
        {
            let ghost bj1 = b@.take(j + 1);
            assert(bj1.drop_last() =~= b@.take(j as int));
            assert(bj1.last() == b@[j as int]);
            proof {
                lemma_lev_bound(ai, bj1);
                lemma_lev_bound(ai1, b@.take(j as int));
                lemma_lev_bound(ai, b@.take(j as int));
            }
            let current_cost = costs[j + 1];
            let substitution_cost: u128 = if a[i] != b[j] { 1 } else { 0 };
            let x = costs[j + 1] + 1;
            let y = costs[j] + 1;
            let z = last_cost + substitution_cost;
            let mn = if x <= y { x } else { y };
            let v = if mn <= z { mn } else { z };
            costs.set(j + 1, v);
            last_cost = current_cost;
            j = j + 1;
        }
        i = i + 1;
    }
    assert(a@.take(a.len() as int) =~= a@);
    assert(b@.take(m as int) =~= b@);
    proof {
        lemma_lev_bound(a@, b@);
    }
    costs[m] as usize
}

/// Similarity of a token to a keyword, in hundredths.
pub open spec fn token_score(t: Seq<char>, k: Seq<char>) -> nat {
    if t == k {
        100
    } else if t.len() < 2 || k.len() < 2 {
        0
    } else if t.len() >= 5 && k.len() >= 5 && (starts_with(t, k) || starts_with(k, t)) {
        93
    } else if lev(t, k) == 1 && t.len() >= 4 && k.len() >= 4 {
        90
    } else if lev(t, k) == 2 && t.len() >= 6 && k.len() >= 6 {
        78
    } else {
        0
    }
}

fn token_score_chars(t: &Vec<char>, k: &Vec<char>) -> (r: u32)
    ensures
        r == token_score(t@, k@),
{
    let same = t.len() == k.len() && matches_at_exec(t, k, 0);
    assert(same ==> t@.subrange(0, t@.len() as int) =~= t@);
    assert(t@ == k@ ==> k@.subrange(0, k@.len() as int) =~= k@);
    if same {
        return 100;
    }
    let tl = t.len();
    let kl = k.len();
    if tl < 2 || kl < 2 {
        return 0;
    }
    if tl >= 5 && kl >= 5 && (matches_at_exec(t, k, 0) || matches_at_exec(k, t, 0)) {
        return 93;
    }
    let d = lev_chars(t, k);
    if d == 1 && tl >= 4 && kl >= 4 {
        90
    } else if d == 2 && tl >= 6 && kl >= 6 {
        78
    } else {
        0
    }
}

/// Approximate match score of a token against a keyword, in hundredths
/// (1.0 = 100): exact 100, long common prefix 93, one edit 90, two edits 78.
pub fn approx_token_score(token: &str, keyword: &str) -> (r: u32)
    ensures
        r == token_score(token@, keyword@),
{
    let t = chars_of(token);
    let k = chars_of(keyword);
    token_score_chars(&t, &k)
}

/// The larger of a running best and a new positive score.
pub open spec fn keep_best(best: Option<nat>, s: nat) -> Option<nat> {
    if s == 0 {
        best
    } else {
        match best {
            None => Some(s),
            Some(m) => Some(if s > m { s } else { m }),
        }
    }
}

/// Best positive score of the tokens against a (normalised) keyword.
pub open spec fn best_token(tokens: Seq<Seq<char>>, kw: Seq<char>) -> Option<nat>
    decreases tokens.len(),
{
    if tokens.len() == 0 {
        None
    } else {
        keep_best(best_token(tokens.drop_last(), kw), token_score(tokens.last(), kw))
    }
}

/// `best_token_score`: the keyword is normalised first.
pub open spec fn best_token_score(tokens: Seq<Seq<char>>, keyword: Seq<char>) -> Option<nat> {
    best_token(tokens, normalized(keyword))
}

fn best_token_chars(tokens: &Vec<Vec<char>>, kw: &Vec<char>) -> (r: Option<u32>)
    ensures
        match r {
            Some(v) => best_token(vviews(tokens@), kw@) == Some(v as nat),
            None => best_token(vviews(tokens@), kw@) is None,
        },
        r matches Some(v) ==> 0 < v <= 100,
{
    let mut best: Option<u32> = None;
    let mut i: usize = 0;
    while i < tokens.len()
        invariant
            i <= tokens.len(),
            match best {
                Some(v) => best_token(vviews(tokens@).take(i as int), kw@) == Some(v as nat),
                None => best_token(vviews(tokens@).take(i as int), kw@) is None,
            },
            best matches Some(v) ==> 0 < v <= 100,
        decreases tokens.len() - i,
    {
        let ghost pre = vviews(tokens@).take(i + 1);
        assert(pre.drop_last() =~= vviews(tokens@).take(i as int));
        assert(pre.last() == tokens@[i as int]@);
        let s = token_score_chars(&tokens[i], kw);
        if s > 0 {
            best = match best {
                None => Some(s),
                Some(m) => Some(if s > m { s } else { m }),
            };
        }
        i = i + 1;
    }
    assert(vviews(tokens@).take(tokens.len() as int) =~= vviews(tokens@));
    best
}

fn best_token_score_exec(tokens: &Vec<Vec<char>>, keyword: &str) -> (r: Option<u32>)
    ensures
        match r {
            Some(v) => best_token_score(vviews(tokens@), keyword@) == Some(v as nat),
            None => best_token_score(vviews(tokens@), keyword@) is None,
        },
        r matches Some(v) ==> 0 < v <= 100,
{
    let kw = normalize_chars(keyword);
    best_token_chars(tokens, &kw)
}

} // verus!

verus! {

// ─── Resolver scoring ─────────────────────────────────────────

/// One entry of the closed-set command table.
pub struct ResolverSpec {
    pub canonical: &'static str,
    pub aliases: &'static [&'static str],
    pub required_groups: &'static [&'static [&'static str]],
    pub optional_tokens: &'static [&'static str],
    pub negative_tokens: &'static [&'static str],
    pub min_tokens: usize,
    /// Acceptance threshold in score units (`SCORE_ONE` = 1.0).
    pub threshold: u32,
}

/// Scores are exact fractions in units of 1/600000 (1.0 = 600000).
pub const SCORE_ONE: u32 = 600000;

/// The best of two optional positive scores.
pub open spec fn opt_max(best: Option<nat>, x: Option<nat>) -> Option<nat> {
    match x {
        None => best,
        Some(s) => keep_best(best, s),
    }
}

/// `best_group_score`: best score of any keyword of the group.
pub open spec fn best_group(tokens: Seq<Seq<char>>, group: Seq<Seq<char>>) -> Option<nat>
    decreases group.len(),
{
    if group.len() == 0 {
        None
    } else {
        opt_max(best_group(tokens, group.drop_last()), best_token_score(tokens, group.last()))
    }
}

fn best_group_exec(tokens: &Vec<Vec<char>>, group: &[&str]) -> (r: Option<u32>)
    ensures
        match r {
            Some(v) => best_group(vviews(tokens@), views(group@)) == Some(v as nat),
            None => best_group(vviews(tokens@), views(group@)) is None,
        },
        r matches Some(v) ==> 0 < v <= 100,
{
    let mut best: Option<u32> = None;
    let mut i: usize = 0;
    while i < group.len()
        invariant
            i <= group@.len(),
            match best {
                Some(v) => best_group(vviews(tokens@), views(group@).take(i as int)) == Some(
                    v as nat,
                ),
                None => best_group(vviews(tokens@), views(group@).take(i as int)) is None,
            },
            best matches Some(v) ==> 0 < v <= 100,
        decreases group.len() - i,
    {
        let ghost pre = views(group@).take(i + 1);
        assert(pre.drop_last() =~= views(group@).take(i as int));
        assert(pre.last() == group@[i as int]@);
        match best_token_score_exec(tokens, group[i]) {
            None => {},
            Some(s) => {
                best = match best {
                    None => Some(s),
                    Some(m) => Some(if s > m { s } else { m }),
                };
            },
        }
        i = i + 1;
    }
    assert(views(group@).take(group@.len() as int) =~= views(group@));
    best
}

/// Sum of the best scores of the required groups, in order; `None` as soon
/// as one group has no match.
pub open spec fn required_sum(tokens: Seq<Seq<char>>, groups: Seq<Seq<Seq<char>>>) -> Option<nat>
    decreases groups.len(),
{
    if groups.len() == 0 {
        Some(0)
    } else {
        match best_group(tokens, groups[0]) {
            None => None,
            Some(a) => match required_sum(tokens, groups.drop_first()) {
                None => None,
                Some(b) => Some(a + b),
            },
        }
    }
}

pub open spec fn group_views(g: Seq<&[&str]>) -> Seq<Seq<Seq<char>>> {
    g.map_values(|x: &[&str]| views(x@))
}

/// Score of an alias (already normalised) for the input, in 1/6000.
pub open spec fn alias_score(input: Seq<char>, tokens: Seq<Seq<char>>, alias: Seq<char>) -> nat {
    if input == alias {
        6000
    } else if contains(input, alias) {
        5820
    } else {
        let at = words(alias);
        if at.len() == 0 {
            0
        } else {
            sum_best(tokens, at) * 60 / at.len()
        }
    }
}

/// Sum over the keywords of their best token scores (0 when unmatched).
pub open spec fn sum_best(tokens: Seq<Seq<char>>, kws: Seq<Seq<char>>) -> nat
    decreases kws.len(),
{
    if kws.len() == 0 {
        0
    } else {
        sum_best(tokens, kws.drop_last()) + match best_token_score(tokens, kws.last()) {
            Some(v) => v,
            None => 0,
        }
    }
}

/// Best alias score (starting from 0), in 1/6000.
pub open spec fn best_alias(input: Seq<char>, tokens: Seq<Seq<char>>, aliases: Seq<Seq<char>>) -> nat
    decreases aliases.len(),
{
    if aliases.len() == 0 {
        0
    } else {
        let prev = best_alias(input, tokens, aliases.drop_last());
        let s = alias_score(input, tokens, normalized(aliases.last()));
        if s > prev {
            s
        } else {
            prev
        }
    }
}

/// Number of keywords whose best token score reaches `min` (hundredths).
pub open spec fn count_strong(tokens: Seq<Seq<char>>, kws: Seq<Seq<char>>, min: nat) -> nat
    decreases kws.len(),
{
    if kws.len() == 0 {
        0
    } else {
        count_strong(tokens, kws.drop_last(), min) + match best_token_score(tokens, kws.last()) {
            Some(v) => if v >= min { 1nat } else { 0nat },
            None => 0nat,
        }
    }
}

/// `score_spec`: 0.86 * mean required score + 0.14 * best alias score
/// + 0.04 per matched optional token - 0.24 per matched negative token,
/// clamped to [0, 1]; in units of 1/600000.
pub open spec fn spec_score(input: Seq<char>, tokens: Seq<Seq<char>>, r: ResolverSpec) -> Option<nat> {
    if tokens.len() < r.min_tokens {
        None
    } else {
        let groups = group_views(r.required_groups@);
        match required_sum(tokens, groups) {
            None => None,
            Some(sum) => {
                let req = if groups.len() == 0 { 0 } else { sum * 60 / groups.len() };
                let alias = best_alias(input, tokens, views(r.aliases@));
                let bonus = count_strong(tokens, views(r.optional_tokens@), 90);
                let penalty = count_strong(tokens, views(r.negative_tokens@), 94);
                let raw: int = 86 * req + 14 * alias + 24000 * bonus - 144000 * penalty;
                Some(
                    if raw < 0 {
                        0nat
                    } else if raw > 600000 {
                        600000nat
                    } else {
                        raw as nat
                    },
                )
            },
        }
    }
}

fn sum_best_exec(tokens: &Vec<Vec<char>>, kws: &Vec<Vec<char>>) -> (r: u128)
    ensures
        r == sum_best(vviews(tokens@), vviews(kws@)),
        r <= 100 * kws@.len(),
{
    let mut sum: u128 = 0;
    let mut i: usize = 0;
    while i < kws.len()
        invariant
            i <= kws.len(),
            sum == sum_best(vviews(tokens@), vviews(kws@).take(i as int)),
            sum <= 100 * i,
        decreases kws.len() - i,
    {
        let ghost pre = vviews(kws@).take(i + 1);
        assert(pre.drop_last() =~= vviews(kws@).take(i as int));
        assert(pre.last() == kws@[i as int]@);
        let w = string_of(&kws[i]);
        match best_token_score_exec(tokens, w.as_str()) {
            Some(v) => {
                sum = sum + v as u128;
            },
            None => {},
        }
        i = i + 1;
    }
    assert(vviews(kws@).take(kws.len() as int) =~= vviews(kws@));
    sum
}

fn alias_score_exec(input: &Vec<char>, tokens: &Vec<Vec<char>>, alias: &Vec<char>) -> (r: u64)
    ensures
        r == alias_score(input@, vviews(tokens@), alias@),
        r <= 6000,
{
    if input.len() == alias.len() && matches_at_exec(input, alias, 0) {
        assert(input@.subrange(0, input@.len() as int) =~= input@);
        return 6000;
    }
    assert(input@ == alias@ ==> alias@.subrange(0, alias@.len() as int) =~= alias@);
    if contains_chars(input, alias) {
        return 5820;
    }
    let at = split_ws(alias);
    if at.len() == 0 {
        return 0;
    }
    let s = sum_best_exec(tokens, &at);
    let n = at.len() as u128;
    proof {
        assert(s * 60 <= 6000 * n) by (nonlinear_arith)
            requires
                s <= 100 * n,
        ;
        assert((s as int) * 60 / (n as int) <= 6000) by (nonlinear_arith)
            requires
                s * 60 <= 6000 * n,
                n > 0,
        ;
    }
    (s * 60 / n) as u64
}

proof fn lemma_sum_best_bound(tokens: Seq<Seq<char>>, kws: Seq<Seq<char>>)
    ensures
        sum_best(tokens, kws) <= 100 * kws.len(),
    decreases kws.len(),
{
    if kws.len() > 0 {
        lemma_sum_best_bound(tokens, kws.drop_last());
        lemma_best_token_bound(tokens, normalized(kws.last()));
    }
}

proof fn lemma_best_token_bound(tokens: Seq<Seq<char>>, kw: Seq<char>)
    ensures
        best_token(tokens, kw) matches Some(v) ==> v <= 100,
    decreases tokens.len(),
{
    if tokens.len() > 0 {
        lemma_best_token_bound(tokens.drop_last(), kw);
    }
}

} // verus!

verus! {

fn best_alias_exec(input: &Vec<char>, tokens: &Vec<Vec<char>>, aliases: &[&str]) -> (r: u64)
    ensures
        r == best_alias(input@, vviews(tokens@), views(aliases@)),
        r <= 6000,
{
    let mut best: u64 = 0;
    let mut i: usize = 0;
    while i < aliases.len()
        invariant
            i <= aliases@.len(),
            best == best_alias(input@, vviews(tokens@), views(aliases@).take(i as int)),
            best <= 6000,
        decreases aliases.len() - i,
    {
        let ghost pre = views(aliases@).take(i + 1);
        assert(pre.drop_last() =~= views(aliases@).take(i as int));
        assert(pre.last() == aliases@[i as int]@);
        let a = normalize_chars(aliases[i]);
        let s = alias_score_exec(input, tokens, &a);
        if s > best {
            best = s;
        }
        i = i + 1;
    }
    assert(views(aliases@).take(aliases@.len() as int) =~= views(aliases@));
    best
}

fn count_strong_exec(tokens: &Vec<Vec<char>>, kws: &[&str], min: u32) -> (r: u64)
    ensures
        r == count_strong(vviews(tokens@), views(kws@), min as nat),
        r <= kws@.len(),
{
    let mut n: u64 = 0;
    let mut i: usize = 0;
    while i < kws.len()
        invariant
            i <= kws@.len(),
            n == count_strong(vviews(tokens@), views(kws@).take(i as int), min as nat),
            n <= i,
        decreases kws.len() - i,
    {
        let ghost pre = views(kws@).take(i + 1);
        assert(pre.drop_last() =~= views(kws@).take(i as int));
        assert(pre.last() == kws@[i as int]@);
        match best_token_score_exec(tokens, kws[i]) {
            Some(v) => {
                if v >= min {
                    n = n + 1;
                }
            },
            None => {},
        }
        i = i + 1;
    }
    assert(views(kws@).take(kws@.len() as int) =~= views(kws@));
    n
}

fn required_sum_exec(tokens: &Vec<Vec<char>>, groups: &[&[&str]]) -> (r: Option<u128>)
    ensures
        match r {
            Some(v) => required_sum(vviews(tokens@), group_views(groups@)) == Some(v as nat),
            None => required_sum(vviews(tokens@), group_views(groups@)) is None,
        },
        r matches Some(v) ==> v <= 100 * groups@.len(),
{
    let mut sum: u128 = 0;
    let mut i: usize = 0;
    assert(group_views(groups@).skip(0) =~= group_views(groups@));
    while i < groups.len()
        invariant
            i <= groups@.len(),
            sum <= 100 * i,
            required_sum(vviews(tokens@), group_views(groups@)) == match required_sum(
                vviews(tokens@),
                group_views(groups@).skip(i as int),
            ) {
                Some(b) => Some(sum as nat + b),
                None => None,
            },
        decreases groups.len() - i,
    {
        let ghost rest = group_views(groups@).skip(i as int);
        assert(rest[0] == views(groups@[i as int]@));
        assert(rest.drop_first() =~= group_views(groups@).skip(i + 1));
        match best_group_exec(tokens, groups[i]) {
            None => {
                return None;
            },
            Some(a) => {
                sum = sum + a as u128;
            },
        }
        i = i + 1;
    }
    assert(group_views(groups@).skip(groups@.len() as int) =~= Seq::<Seq<Seq<char>>>::empty());
    Some(sum)
}

/// `score_spec`: the score of the input against one table entry, in units
/// of 1/600000, or `None` when the entry cannot match at all.
fn score_spec(input: &Vec<char>, tokens: &Vec<Vec<char>>, r: &ResolverSpec) -> (res: Option<u32>)
    ensures
        match res {
            Some(v) => spec_score(input@, vviews(tokens@), *r) == Some(v as nat),
            None => spec_score(input@, vviews(tokens@), *r) is None,
        },
{
    if tokens.len() < r.min_tokens {
        return None;
    }
    let sum = match required_sum_exec(tokens, r.required_groups) {
        None => {
            return None;
        },
        Some(s) => s,
    };
    let g = r.required_groups.len() as u128;
    let req: u128 = if g == 0 {
        0
    } else {
        proof {
            assert((sum as int) * 60 / (g as int) <= 6000) by (nonlinear_arith)
                requires
                    sum <= 100 * g,
                    g > 0,
            ;
        }
        sum * 60 / g
    };
    let alias = best_alias_exec(input, tokens, r.aliases) as u128;
    let bonus = count_strong_exec(tokens, r.optional_tokens, 90) as u128;
    let penalty = count_strong_exec(tokens, r.negative_tokens, 94) as u128;
    let plus = 86 * req + 14 * alias + 24000 * bonus;
    let minus = 144000 * penalty;
    let v: u32 = if plus < minus {
        0
    } else if plus - minus > 600000 {
        600000
    } else {
        (plus - minus) as u32
    };
    Some(v)
}

// ─── The command table ────────────────────────────────────────

pub open spec fn rgb_off_spec() -> ResolverSpec {
    ResolverSpec {
        canonical: "rgb aus",
        aliases: &["rgb aus", "pc rgb aus", "pc licht aus"],
        required_groups: &[&["rgb"], &["aus", "off", "ausschalten", "abschalten"]],
        optional_tokens: &["pc", "licht"],
        negative_tokens: &["govee", "luefter", "tank", "gpu", "prozent"],
        min_tokens: 2,
        threshold: 468000,
    }
}

pub open spec fn rgb_on_spec() -> ResolverSpec {
    ResolverSpec {
        canonical: "rgb an",
        aliases: &["rgb an", "pc rgb an", "pc licht an"],
        required_groups: &[&["rgb"], &["an", "on", "einschalten", "anmachen", "anschalten"]],
        optional_tokens: &["pc", "licht"],
        negative_tokens: &["govee", "luefter", "tank", "gpu", "prozent"],
        min_tokens: 2,
        threshold: 468000,
    }
}

pub open spec fn lights_off_spec() -> ResolverSpec {
    ResolverSpec {
        canonical: "alle lichter aus",
        aliases: &["alle lichter aus", "lichter aus", "licht aus", "alle lampen aus"],
        required_groups: &[
            &["licht", "lichter", "lampe", "lampen", "beleuchtung"],
            &["aus", "off", "ausschalten", "abschalten", "ausmachen"],
        ],
        optional_tokens: &["alle", "alles"],
        negative_tokens: &["rgb", "govee", "luefter", "tank", "gpu", "prozent"],
        min_tokens: 2,
        threshold: 480000,
    }
}

pub open spec fn lights_on_spec() -> ResolverSpec {
    ResolverSpec {
        canonical: "alle lichter an",
        aliases: &["alle lichter an", "lichter an", "licht an", "alle lampen an"],
        required_groups: &[
            &["licht", "lichter", "lampe", "lampen", "beleuchtung"],
            &["an", "on", "einschalten", "anmachen", "anschalten"],
        ],
        optional_tokens: &["alle", "alles"],
        negative_tokens: &["rgb", "govee", "luefter", "tank", "gpu", "prozent"],
        min_tokens: 2,
        threshold: 480000,
    }
}

pub open spec fn lights_blue_spec() -> ResolverSpec {
    ResolverSpec {
        canonical: "alle lichter blau",
        aliases: &["alle lichter blau", "lichter blau", "licht blau"],
        required_groups: &[&["licht", "lichter", "lampe", "lampen", "beleuchtung"], &["blau", "blue"]],
        optional_tokens: &["alle"],
        negative_tokens: &["rgb", "govee", "luefter", "tank", "gpu", "prozent"],
        min_tokens: 2,
        threshold: 504000,
    }
}

pub open spec fn lights_purple_spec() -> ResolverSpec {
    ResolverSpec {
        canonical: "alle lichter lila",
        aliases: &["alle lichter lila", "alle lichter violett", "lichter lila"],
        required_groups: &[
            &["licht", "lichter", "lampe", "lampen", "beleuchtung"],
            &["lila", "violett", "purple", "magenta"],
        ],
        optional_tokens: &["alle"],
        negative_tokens: &["rgb", "govee", "luefter", "tank", "gpu", "prozent"],
        min_tokens: 2,
        threshold: 504000,
    }
}

pub open spec fn lights_orange_spec() -> ResolverSpec {
    ResolverSpec {
        canonical: "alle lichter orange",
        aliases: &["alle lichter orange", "lichter orange", "licht orange"],
        required_groups: &[&["licht", "lichter", "lampe", "lampen", "beleuchtung"], &["orange"]],
        optional_tokens: &["alle"],
        negative_tokens: &["rgb", "govee", "luefter", "tank", "gpu", "prozent"],
        min_tokens: 2,
        threshold: 504000,
    }
}

pub open spec fn tank_spec() -> ResolverSpec {
    ResolverSpec {
        canonical: "wie voll ist der tank",
        aliases: &["wie voll ist der tank", "tankinhalt", "tank fuellstand"],
        required_groups: &[&["tank", "tankinhalt"], &["voll", "fuellstand", "inhalt"]],
        optional_tokens: &["wie", "ist", "der"],
        negative_tokens: &["rgb", "govee", "luefter", "gpu"],
        min_tokens: 2,
        threshold: 492000,
    }
}

pub open spec fn gpu_spec() -> ResolverSpec {
    ResolverSpec {
        canonical: "wie warm ist die gpu",
        aliases: &["wie warm ist die gpu", "gpu temperatur", "gpu temp"],
        required_groups: &[&["gpu"], &["warm", "temperatur", "temp"]],
        optional_tokens: &["wie", "ist", "die"],
        negative_tokens: &["rgb", "govee", "luefter", "tank", "prozent"],
        min_tokens: 2,
        threshold: 492000,
    }
}

pub open spec fn govee_percent_spec() -> ResolverSpec {
    ResolverSpec {
        canonical: "govee auf prozent",
        aliases: &["govee auf", "govee helligkeit"],
        required_groups: &[&["govee"], &["auf", "prozent", "helligkeit"]],
        optional_tokens: &["prozent", "helligkeit"],
        negative_tokens: &["rgb", "luefter", "tank", "gpu"],
        min_tokens: 3,
        threshold: 498000,
    }
}

pub open spec fn fan_percent_spec() -> ResolverSpec {
    ResolverSpec {
        canonical: "luefter auf prozent",
        aliases: &["luefter auf", "fan speed", "fans auf"],
        required_groups: &[&["luefter", "fan", "fans", "ventilator"], &["auf", "prozent"]],
        optional_tokens: &["alle", "speed"],
        negative_tokens: &["rgb", "govee", "tank", "gpu"],
        min_tokens: 3,
        threshold: 498000,
    }
}

/// The fixed-command entries of the table, in the order they are tried.
pub open spec fn fixed_table() -> Seq<(CanonicalCommand, ResolverSpec)> {
    seq![
        (CanonicalCommand::RgbPower { on: false }, rgb_off_spec()),
        (CanonicalCommand::RgbPower { on: true }, rgb_on_spec()),
        (CanonicalCommand::AllLightsPower { on: false }, lights_off_spec()),
        (CanonicalCommand::AllLightsPower { on: true }, lights_on_spec()),
        (CanonicalCommand::AllLightsColor(CanonicalColor::Blau), lights_blue_spec()),
        (CanonicalCommand::AllLightsColor(CanonicalColor::Lila), lights_purple_spec()),
        (CanonicalCommand::AllLightsColor(CanonicalColor::Orange), lights_orange_spec()),
        (CanonicalCommand::TankLevel, tank_spec()),
        (CanonicalCommand::GpuTemperature, gpu_spec()),
    ]
}

fn fixed_entry(k: usize) -> (r: (CanonicalCommand, ResolverSpec))
    requires
        k < 9,
    ensures
        r == fixed_table()[k as int],
{
    if k == 0 {
        (
            CanonicalCommand::RgbPower { on: false },
            ResolverSpec {
                canonical: "rgb aus",
                aliases: &["rgb aus", "pc rgb aus", "pc licht aus"],
                required_groups: &[&["rgb"], &["aus", "off", "ausschalten", "abschalten"]],
                optional_tokens: &["pc", "licht"],
                negative_tokens: &["govee", "luefter", "tank", "gpu", "prozent"],
                min_tokens: 2,
                threshold: 468000,
            },
        )
    } else if k == 1 {
        (
            CanonicalCommand::RgbPower { on: true },
            ResolverSpec {
                canonical: "rgb an",
                aliases: &["rgb an", "pc rgb an", "pc licht an"],
                required_groups: &[&["rgb"], &["an", "on", "einschalten", "anmachen", "anschalten"]],
                optional_tokens: &["pc", "licht"],
                negative_tokens: &["govee", "luefter", "tank", "gpu", "prozent"],
                min_tokens: 2,
                threshold: 468000,
            },
        )
    } else if k == 2 {
        (
            CanonicalCommand::AllLightsPower { on: false },
            ResolverSpec {
                canonical: "alle lichter aus",
                aliases: &["alle lichter aus", "lichter aus", "licht aus", "alle lampen aus"],
                required_groups: &[
                    &["licht", "lichter", "lampe", "lampen", "beleuchtung"],
                    &["aus", "off", "ausschalten", "abschalten", "ausmachen"],
                ],
                optional_tokens: &["alle", "alles"],
                negative_tokens: &["rgb", "govee", "luefter", "tank", "gpu", "prozent"],
                min_tokens: 2,
                threshold: 480000,
            },
        )
    } else if k == 3 {
        (
            CanonicalCommand::AllLightsPower { on: true },
            ResolverSpec {
                canonical: "alle lichter an",
                aliases: &["alle lichter an", "lichter an", "licht an", "alle lampen an"],
                required_groups: &[
                    &["licht", "lichter", "lampe", "lampen", "beleuchtung"],
                    &["an", "on", "einschalten", "anmachen", "anschalten"],
                ],
                optional_tokens: &["alle", "alles"],
                negative_tokens: &["rgb", "govee", "luefter", "tank", "gpu", "prozent"],
                min_tokens: 2,
                threshold: 480000,
            },
        )
    } else if k == 4 {
        (
            CanonicalCommand::AllLightsColor(CanonicalColor::Blau),
            ResolverSpec {
                canonical: "alle lichter blau",
                aliases: &["alle lichter blau", "lichter blau", "licht blau"],
                required_groups: &[
                    &["licht", "lichter", "lampe", "lampen", "beleuchtung"],
                    &["blau", "blue"],
                ],
                optional_tokens: &["alle"],
                negative_tokens: &["rgb", "govee", "luefter", "tank", "gpu", "prozent"],
                min_tokens: 2,
                threshold: 504000,
            },
        )
    } else if k == 5 {
        (
            CanonicalCommand::AllLightsColor(CanonicalColor::Lila),
            ResolverSpec {
                canonical: "alle lichter lila",
                aliases: &["alle lichter lila", "alle lichter violett", "lichter lila"],
                required_groups: &[
                    &["licht", "lichter", "lampe", "lampen", "beleuchtung"],
                    &["lila", "violett", "purple", "magenta"],
                ],
                optional_tokens: &["alle"],
                negative_tokens: &["rgb", "govee", "luefter", "tank", "gpu", "prozent"],
                min_tokens: 2,
                threshold: 504000,
            },
        )
    } else if k == 6 {
        (
            CanonicalCommand::AllLightsColor(CanonicalColor::Orange),
            ResolverSpec {
                canonical: "alle lichter orange",
                aliases: &["alle lichter orange", "lichter orange", "licht orange"],
                required_groups: &[
                    &["licht", "lichter", "lampe", "lampen", "beleuchtung"],
                    &["orange"],
                ],
                optional_tokens: &["alle"],
                negative_tokens: &["rgb", "govee", "luefter", "tank", "gpu", "prozent"],
                min_tokens: 2,
                threshold: 504000,
            },
        )
    } else if k == 7 {
        (
            CanonicalCommand::TankLevel,
            ResolverSpec {
                canonical: "wie voll ist der tank",
                aliases: &["wie voll ist der tank", "tankinhalt", "tank fuellstand"],
                required_groups: &[&["tank", "tankinhalt"], &["voll", "fuellstand", "inhalt"]],
                optional_tokens: &["wie", "ist", "der"],
                negative_tokens: &["rgb", "govee", "luefter", "gpu"],
                min_tokens: 2,
                threshold: 492000,
            },
        )
    } else {
        (
            CanonicalCommand::GpuTemperature,
            ResolverSpec {
                canonical: "wie warm ist die gpu",
                aliases: &["wie warm ist die gpu", "gpu temperatur", "gpu temp"],
                required_groups: &[&["gpu"], &["warm", "temperatur", "temp"]],
                optional_tokens: &["wie", "ist", "die"],
                negative_tokens: &["rgb", "govee", "luefter", "tank", "prozent"],
                min_tokens: 2,
                threshold: 492000,
            },
        )
    }
}

} // verus!

verus! {

// ─── Candidate selection ──────────────────────────────────────

/// The canonical phrase of a command.
pub open spec fn phrase(c: CanonicalCommand) -> Seq<char> {
    match c {
        CanonicalCommand::RgbPower { on } => if on { "rgb an"@ } else { "rgb aus"@ },
        CanonicalCommand::AllLightsPower { on } => if on {
            "alle lichter an"@
        } else {
            "alle lichter aus"@
        },
        CanonicalCommand::AllLightsColor(CanonicalColor::Blau) => "alle lichter blau"@,
        CanonicalCommand::AllLightsColor(CanonicalColor::Lila) => "alle lichter lila"@,
        CanonicalCommand::AllLightsColor(CanonicalColor::Orange) => "alle lichter orange"@,
        CanonicalCommand::GoveeBrightness { percent } => "govee auf "@ + dec(percent as nat)
            + " prozent"@,
        CanonicalCommand::FanSpeed { percent } => "luefter auf "@ + dec(percent as nat)
            + " prozent"@,
        CanonicalCommand::TankLevel => "wie voll ist der tank"@,
        CanonicalCommand::GpuTemperature => "wie warm ist die gpu"@,
    }
}

impl CanonicalCommand {
    /// The canonical phrase of this command.
    pub fn canonical_phrase(self) -> (r: String)
        ensures
            r@ == phrase(self),
    {
        match self {
            CanonicalCommand::RgbPower { on } => if on {
                String::from_str("rgb an")
            } else {
                String::from_str("rgb aus")
            },
            CanonicalCommand::AllLightsPower { on } => if on {
                String::from_str("alle lichter an")
            } else {
                String::from_str("alle lichter aus")
            },
            CanonicalCommand::AllLightsColor(CanonicalColor::Blau) => String::from_str(
                "alle lichter blau",
            ),
            CanonicalCommand::AllLightsColor(CanonicalColor::Lila) => String::from_str(
                "alle lichter lila",
            ),
            CanonicalCommand::AllLightsColor(CanonicalColor::Orange) => String::from_str(
                "alle lichter orange",
            ),
            CanonicalCommand::GoveeBrightness { percent } => {
                let mut v: Vec<char> = Vec::new();
                push_str(&mut v, "govee auf ");
                push_dec(&mut v, percent as u64);
                push_str(&mut v, " prozent");
                string_of(&v)
            },
            CanonicalCommand::FanSpeed { percent } => {
                let mut v: Vec<char> = Vec::new();
                push_str(&mut v, "luefter auf ");
                push_dec(&mut v, percent as u64);
                push_str(&mut v, " prozent");
                string_of(&v)
            },
            CanonicalCommand::TankLevel => String::from_str("wie voll ist der tank"),
            CanonicalCommand::GpuTemperature => String::from_str("wie warm ist die gpu"),
        }
    }
}

/// A scored candidate: command, canonical phrase, score, threshold.
pub type Cand = (CanonicalCommand, Seq<char>, nat, nat);

pub open spec fn fixed_candidate(
    input: Seq<char>,
    tokens: Seq<Seq<char>>,
    e: (CanonicalCommand, ResolverSpec),
) -> Option<Cand> {
    match spec_score(input, tokens, e.1) {
        None => None,
        Some(s) => Some((e.0, e.1.canonical@, s, e.1.threshold as nat)),
    }
}

pub open spec fn percent_candidate(
    input: Seq<char>,
    tokens: Seq<Seq<char>>,
    r: ResolverSpec,
    govee: bool,
) -> Option<Cand> {
    match percent_value(input) {
        None => None,
        Some(p) => match spec_score(input, tokens, r) {
            None => None,
            Some(s) => {
                let c = if govee {
                    CanonicalCommand::GoveeBrightness { percent: p }
                } else {
                    CanonicalCommand::FanSpeed { percent: p }
                };
                Some((c, phrase(c), s, r.threshold as nat))
            },
        },
    }
}

/// All candidates, in table order: the fixed entries, then Govee and fan percentages.
pub open spec fn candidates(input: Seq<char>, tokens: Seq<Seq<char>>) -> Seq<Option<Cand>> {
    fixed_table().map_values(|e: (CanonicalCommand, ResolverSpec)| fixed_candidate(input, tokens, e))
        + seq![
        percent_candidate(input, tokens, govee_percent_spec(), true),
        percent_candidate(input, tokens, fan_percent_spec(), false),
    ]
}

/// The highest-scoring candidate; on equal scores the later one wins.
pub open spec fn best_of(c: Seq<Option<Cand>>) -> Option<Cand>
    decreases c.len(),
{
    if c.len() == 0 {
        None
    } else {
        better(best_of(c.drop_last()), c.last())
    }
}

/// The better of a running best and a new candidate; ties go to the new one.
pub open spec fn better(b: Option<Cand>, x: Option<Cand>) -> Option<Cand> {
    match x {
        None => b,
        Some(xv) => match b {
            None => Some(xv),
            Some(bv) => if xv.2 >= bv.2 {
                Some(xv)
            } else {
                Some(bv)
            },
        },
    }
}

pub open spec fn best_candidate(s: Seq<char>) -> Option<Cand> {
    best_of(candidates(s, words(s)))
}

struct ResolverCandidate {
    command: CanonicalCommand,
    canonical: String,
    score: u32,
    threshold: u32,
}

spec fn cand_is(r: Option<ResolverCandidate>, s: Option<Cand>) -> bool {
    match (r, s) {
        (None, None) => true,
        (Some(a), Some(b)) => a.command == b.0 && a.canonical@ == b.1 && a.score == b.2
            && a.threshold == b.3,
        _ => false,
    }
}

fn keep_better(
    best: Option<ResolverCandidate>,
    x: Option<ResolverCandidate>,
    Ghost(sb): Ghost<Option<Cand>>,
    Ghost(sx): Ghost<Option<Cand>>,
) -> (r: Option<ResolverCandidate>)
    requires
        cand_is(best, sb),
        cand_is(x, sx),
    ensures
        cand_is(r, better(sb, sx)),
{
    match x {
        None => best,
        Some(c) => match best {
            None => Some(c),
            Some(b) => if c.score >= b.score {
                Some(c)
            } else {
                Some(b)
            },
        },
    }
}

fn fixed_candidate_exec(
    input: &Vec<char>,
    tokens: &Vec<Vec<char>>,
    e: (CanonicalCommand, ResolverSpec),
) -> (r: Option<ResolverCandidate>)
    ensures
        cand_is(r, fixed_candidate(input@, vviews(tokens@), e)),
{
    let (command, spec) = e;
    match score_spec(input, tokens, &spec) {
        None => None,
        Some(score) => Some(
            ResolverCandidate {
                command,
                canonical: String::from_str(spec.canonical),
                score,
                threshold: spec.threshold,
            },
        ),
    }
}

fn percent_candidate_exec(
    input: &Vec<char>,
    tokens: &Vec<Vec<char>>,
    spec: ResolverSpec,
    govee: bool,
) -> (r: Option<ResolverCandidate>)
    ensures
        cand_is(r, percent_candidate(input@, vviews(tokens@), spec, govee)),
{
    let percent = match percent_value_chars(input) {
        None => {
            return None;
        },
        Some(p) => p,
    };
    let score = match score_spec(input, tokens, &spec) {
        None => {
            return None;
        },
        Some(s) => s,
    };
    let command = if govee {
        CanonicalCommand::GoveeBrightness { percent }
    } else {
        CanonicalCommand::FanSpeed { percent }
    };
    Some(
        ResolverCandidate {
            canonical: command.canonical_phrase(),
            command,
            score,
            threshold: spec.threshold,
        },
    )
}

proof fn lemma_best_of_push(c: Seq<Option<Cand>>, x: Option<Cand>)
    ensures
        best_of(c.push(x)) == better(best_of(c), x),
{
    assert(c.push(x).drop_last() =~= c);
}

fn best_closed_set_candidate(input: &Vec<char>, tokens: &Vec<Vec<char>>) -> (r: Option<
    ResolverCandidate,
>)
    ensures
        cand_is(r, best_of(candidates(input@, vviews(tokens@)))),
{
    let ghost all = candidates(input@, vviews(tokens@));
    let mut best: Option<ResolverCandidate> = None;
    let mut k: usize = 0;
    while k < 9
        invariant
            k <= 9,
            all == candidates(input@, vviews(tokens@)),
            cand_is(best, best_of(all.take(k as int))),
        decreases 9 - k,
    {
        let e = fixed_entry(k);
        let c = fixed_candidate_exec(input, tokens, e);
        proof {
            assert(all[k as int] == fixed_candidate(input@, vviews(tokens@), fixed_table()[k as int]));
            assert(all.take(k + 1) =~= all.take(k as int).push(all[k as int]));
            lemma_best_of_push(all.take(k as int), all[k as int]);
        }
        best = keep_better(best, c, Ghost(best_of(all.take(k as int))), Ghost(all[k as int]));
        k = k + 1;
    }
    let g = percent_candidate_exec(
        input,
        tokens,
        ResolverSpec {
            canonical: "govee auf prozent",
            aliases: &["govee auf", "govee helligkeit"],
            required_groups: &[&["govee"], &["auf", "prozent", "helligkeit"]],
            optional_tokens: &["prozent", "helligkeit"],
            negative_tokens: &["rgb", "luefter", "tank", "gpu"],
            min_tokens: 3,
            threshold: 498000,
        },
        true,
    );
    proof {
        assert(all[9] == percent_candidate(input@, vviews(tokens@), govee_percent_spec(), true));
        assert(all.take(10) =~= all.take(9).push(all[9]));
        lemma_best_of_push(all.take(9), all[9]);
    }
    best = keep_better(best, g, Ghost(best_of(all.take(9))), Ghost(all[9]));
    let f = percent_candidate_exec(
        input,
        tokens,
        ResolverSpec {
            canonical: "luefter auf prozent",
            aliases: &["luefter auf", "fan speed", "fans auf"],
            required_groups: &[&["luefter", "fan", "fans", "ventilator"], &["auf", "prozent"]],
            optional_tokens: &["alle", "speed"],
            negative_tokens: &["rgb", "govee", "tank", "gpu"],
            min_tokens: 3,
            threshold: 498000,
        },
        false,
    );
    proof {
        assert(all[10] == percent_candidate(input@, vviews(tokens@), fan_percent_spec(), false));
        assert(all.take(11) =~= all.take(10).push(all[10]));
        lemma_best_of_push(all.take(10), all[10]);
        assert(all.take(11) =~= all);
    }
    keep_better(best, f, Ghost(best_of(all.take(10))), Ghost(all[10]))
}

} // verus!

verus! {

// ─── Resolution ───────────────────────────────────────────────

/// The outcome of resolving a voice transcript against the closed command set.
/// Scores are in units of 1/600000 (`SCORE_ONE` = 1.0).
#[derive(Debug, Clone)]
pub struct VoiceCommandResolution {
    pub normalized: String,
    pub repaired: String,
    pub canonical: Option<String>,
    pub best_candidate: Option<String>,
    pub score: u32,
    pub threshold: u32,
    pub accepted: bool,
    pub reject_reason: Option<String>,
    pub allow_open_fallback: bool,
    pub command: Option<CanonicalCommand>,
}

/// The command a transcript resolves to: the best candidate, provided the
/// transcript is not rejected and the candidate reaches its threshold.
pub open spec fn resolved_command(input: Seq<char>) -> Option<CanonicalCommand> {
    let r = repaired(input);
    match best_candidate(r) {
        Some(c) => if reject_reason(r) is None && c.2 >= c.3 {
            Some(c.0)
        } else {
            None
        },
        None => None,
    }
}

/// Unmatched but plausible free speech may go to the open (LLM) path.
pub open spec fn open_fallback(input: Seq<char>) -> bool {
    let r = repaired(input);
    reject_reason(r) is None && resolved_command(input) is None && words(r).len() >= 4 && r.len()
        >= 18
}

pub open spec fn opt_view_is(a: Option<String>, b: Option<Seq<char>>) -> bool {
    match (a, b) {
        (Some(x), Some(y)) => x@ == y,
        (None, None) => true,
        _ => false,
    }
}

/// Resolves a transcript: normalisation, repair, rejection, scoring and acceptance.
pub fn resolve_voice_command(input: &str) -> (res: VoiceCommandResolution)
    ensures
        res.normalized@ == normalized(input@),
        res.repaired@ == repaired(input@),
        res.command == resolved_command(input@),
        res.accepted == (resolved_command(input@) is Some),
        opt_view_is(
            res.canonical,
            match resolved_command(input@) {
                Some(c) => Some(phrase(c)),
                None => None,
            },
        ),
        opt_view_is(
            res.best_candidate,
            match best_candidate(repaired(input@)) {
                Some(c) => Some(c.1),
                None => None,
            },
        ),
        res.score == match best_candidate(repaired(input@)) {
            Some(c) => c.2,
            None => 0,
        },
        res.threshold == match best_candidate(repaired(input@)) {
            Some(c) => c.3,
            None => 0,
        },
        opt_view_is(res.reject_reason, reject_reason(repaired(input@))),
        res.allow_open_fallback == open_fallback(input@),
{
    let normalized = normalize_input(input);
    let rep = repair_chars(input);
    let tokens = split_ws(&rep);
    let reason = reject_reason_chars(&rep);
    let best = best_closed_set_candidate(&rep, &tokens);
    let command = match &best {
        Some(c) => if reason.is_none() && c.score >= c.threshold {
            Some(c.command)
        } else {
            None
        },
        None => None,
    };
    let allow_open_fallback = reason.is_none() && command.is_none() && tokens.len() >= 4
        && rep.len() >= 18;
    let canonical = match command {
        Some(c) => Some(c.canonical_phrase()),
        None => None,
    };
    let (best_candidate, score, threshold) = match best {
        Some(c) => (Some(c.canonical), c.score, c.threshold),
        None => (None, 0, 0),
    };
    VoiceCommandResolution {
        normalized,
        repaired: string_of(&rep),
        canonical,
        best_candidate,
        score,
        threshold,
        accepted: command.is_some(),
        reject_reason: reason,
        allow_open_fallback,
        command,
    }
}

/// The closed-set command a transcript resolves to, if any.
pub fn resolve_closed_set_command(input: &str) -> (r: Option<CanonicalCommand>)
    ensures
        r == resolved_command(input@),
{
    resolve_voice_command(input).command
}

/// The canonical phrase of the resolved command, or else the repaired transcript.
pub fn canonicalize_voice_command(input: &str) -> (r: String)
    ensures
        r@ == match resolved_command(input@) {
            Some(c) => phrase(c),
            None => repaired(input@),
        },
{
    let resolution = resolve_voice_command(input);
    match resolution.canonical {
        Some(c) => c,
        None => resolution.repaired,
    }
}

/// Reply spoken for a closed-set command.
pub open spec fn command_reply(c: CanonicalCommand) -> Seq<char> {
    match c {
        CanonicalCommand::RgbPower { on } => if on {
            "PC lighting enabled."@
        } else {
            "PC lighting shutting down."@
        },
        CanonicalCommand::AllLightsPower { on } => if on {
            "Right away, Sir. Bringing all lights online."@
        } else {
            "Certainly, Sir. Turning the lights off."@
        },
        CanonicalCommand::AllLightsColor(CanonicalColor::Blau) => "Blue, immediately."@,
        CanonicalCommand::AllLightsColor(CanonicalColor::Lila) => "Purple, across the full lighting grid."@,
        CanonicalCommand::AllLightsColor(CanonicalColor::Orange) => "Orange. Applied across the lighting grid."@,
        CanonicalCommand::GoveeBrightness { percent } => "Setting Govee brightness to "@ + dec(
            percent as nat,
        ) + " percent."@,
        CanonicalCommand::FanSpeed { percent } => "Setting all fans to "@ + dec(percent as nat)
            + " percent, Sir."@,
        CanonicalCommand::TankLevel => "Checking the tank."@,
        CanonicalCommand::GpuTemperature => "Checking GPU status."@,
    }
}

/// The action a closed-set command triggers.
pub open spec fn command_action(c: CanonicalCommand) -> KeywordAction {
    match c {
        CanonicalCommand::RgbPower { on } => KeywordAction {
            action: "rgb_power",
            params: ActionParams::Power(on),
        },
        CanonicalCommand::AllLightsPower { on } => KeywordAction {
            action: "light_power",
            params: ActionParams::Power(on),
        },
        CanonicalCommand::AllLightsColor(CanonicalColor::Blau) => KeywordAction {
            action: "light_color",
            params: ActionParams::Color { r: 0, g: 0, b: 255 },
        },
        CanonicalCommand::AllLightsColor(CanonicalColor::Lila) => KeywordAction {
            action: "light_purple",
            params: ActionParams::Empty,
        },
        CanonicalCommand::AllLightsColor(CanonicalColor::Orange) => KeywordAction {
            action: "light_color",
            params: ActionParams::Color { r: 255, g: 140, b: 0 },
        },
        CanonicalCommand::GoveeBrightness { percent } => KeywordAction {
            action: "govee_brightness",
            params: ActionParams::Brightness(percent),
        },
        CanonicalCommand::FanSpeed { percent } => KeywordAction {
            action: "fan_speed",
            params: ActionParams::Percent(percent as u16),
        },
        CanonicalCommand::TankLevel => KeywordAction {
            action: "tent_status",
            params: ActionParams::Mode("tank"),
        },
        CanonicalCommand::GpuTemperature => KeywordAction {
            action: "system_info",
            params: ActionParams::Empty,
        },
    }
}

fn reply_with_number(prefix: &str, n: u8, suffix: &str) -> (r: String)
    ensures
        r@ == prefix@ + dec(n as nat) + suffix@,
{
    let mut v: Vec<char> = Vec::new();
    push_str(&mut v, prefix);
    push_dec(&mut v, n as u64);
    push_str(&mut v, suffix);
    string_of(&v)
}

/// The reply and the single action of a closed-set command.
pub fn closed_set_command_actions(command: CanonicalCommand) -> (r: (String, Vec<KeywordAction>))
    ensures
        r.0@ == command_reply(command),
        r.1@ == seq![command_action(command)],
{
    let reply = match command {
        CanonicalCommand::RgbPower { on } => if on {
            String::from_str("PC lighting enabled.")
        } else {
            String::from_str("PC lighting shutting down.")
        },
        CanonicalCommand::AllLightsPower { on } => if on {
            String::from_str("Right away, Sir. Bringing all lights online.")
        } else {
            String::from_str("Certainly, Sir. Turning the lights off.")
        },
        CanonicalCommand::AllLightsColor(CanonicalColor::Blau) => String::from_str(
            "Blue, immediately.",
        ),
        CanonicalCommand::AllLightsColor(CanonicalColor::Lila) => String::from_str(
            "Purple, across the full lighting grid.",
        ),
        CanonicalCommand::AllLightsColor(CanonicalColor::Orange) => String::from_str(
            "Orange. Applied across the lighting grid.",
        ),
        CanonicalCommand::GoveeBrightness { percent } => reply_with_number(
            "Setting Govee brightness to ",
            percent,
            " percent.",
        ),
        CanonicalCommand::FanSpeed { percent } => reply_with_number(
            "Setting all fans to ",
            percent,
            " percent, Sir.",
        ),
        CanonicalCommand::TankLevel => String::from_str("Checking the tank."),
        CanonicalCommand::GpuTemperature => String::from_str("Checking GPU status."),
    };
    let action = match command {
        CanonicalCommand::RgbPower { on } => KeywordAction {
            action: "rgb_power",
            params: ActionParams::Power(on),
        },
        CanonicalCommand::AllLightsPower { on } => KeywordAction {
            action: "light_power",
            params: ActionParams::Power(on),
        },
        CanonicalCommand::AllLightsColor(CanonicalColor::Blau) => KeywordAction {
            action: "light_color",
            params: ActionParams::Color { r: 0, g: 0, b: 255 },
        },
        CanonicalCommand::AllLightsColor(CanonicalColor::Lila) => KeywordAction {
            action: "light_purple",
            params: ActionParams::Empty,
        },
        CanonicalCommand::AllLightsColor(CanonicalColor::Orange) => KeywordAction {
            action: "light_color",
            params: ActionParams::Color { r: 255, g: 140, b: 0 },
        },
        CanonicalCommand::GoveeBrightness { percent } => KeywordAction {
            action: "govee_brightness",
            params: ActionParams::Brightness(percent),
        },
        CanonicalCommand::FanSpeed { percent } => KeywordAction {
            action: "fan_speed",
            params: ActionParams::Percent(percent as u16),
        },
        CanonicalCommand::TankLevel => KeywordAction {
            action: "tent_status",
            params: ActionParams::Mode("tank"),
        },
        CanonicalCommand::GpuTemperature => KeywordAction {
            action: "system_info",
            params: ActionParams::Empty,
        },
    };
    let mut actions: Vec<KeywordAction> = Vec::new();
    actions.push(action);
    (reply, actions)
}

} // verus!
