//! Character-level text primitives used by the parsers of this crate.
//!
//! Text is modelled as `Seq<char>`; executable helpers work on `Vec<char>` and
//! are proved against the spec functions below, which follow the behaviour of
//! the corresponding `str` methods of the standard library.

use vstd::prelude::*;
use vstd::string::*;

verus! {

// ─── Character classes ────────────────────────────────────────

/// Unicode `White_Space`, as used by `char::is_whitespace`.
pub open spec fn is_ws(c: char) -> bool {
    let u = c as u32;
    (9 <= u <= 13) || u == 32 || u == 0x85 || u == 0xa0 || u == 0x1680 || (0x2000 <= u
        <= 0x200a) || u == 0x2028 || u == 0x2029 || u == 0x202f || u == 0x205f || u == 0x3000
}

pub open spec fn is_digit(c: char) -> bool {
    '0' <= c <= '9'
}

pub fn is_ws_char(c: char) -> (r: bool)
    ensures
        r == is_ws(c),
{
    let u = c as u32;
    (9 <= u && u <= 13) || u == 32 || u == 0x85 || u == 0xa0 || u == 0x1680 || (0x2000 <= u && u
        <= 0x200a) || u == 0x2028 || u == 0x2029 || u == 0x202f || u == 0x205f || u == 0x3000
}

pub fn is_digit_char(c: char) -> (r: bool)
    ensures
        r == is_digit(c),
{
    '0' <= c && c <= '9'
}

// ─── Conversions ──────────────────────────────────────────────

/// The characters of `s`, in order.
pub fn chars_of(s: &str) -> (v: Vec<char>)
    ensures
        v@ == s@,
{
    let n = s.unicode_len();
    let mut v: Vec<char> = Vec::new();
    let mut i: usize = 0;
    while i < n
        invariant
            n == s@.len(),
            i <= n,
            v@ == s@.subrange(0, i as int),
        decreases n - i,
    {
        v.push(s.get_char(i));
        i = i + 1;
    }
    v
}

/// `String::push`.
#[verifier::external_body]
fn string_push(s: &mut String, c: char)
    ensures
        final(s)@ == old(s)@.push(c),
{
    s.push(c);
}

/// A `String` holding exactly the characters of `v`.
pub fn string_of(v: &Vec<char>) -> (s: String)
    ensures
        s@ == v@,
{
    let mut s = String::new();
    let mut i: usize = 0;
    while i < v.len()
        invariant
            i <= v.len(),
            s@ == v@.subrange(0, i as int),
        decreases v.len() - i,
    {
        string_push(&mut s, v[i]);
        i = i + 1;
    }
    s
}

/// Appends the characters of `t` to `v`.
pub fn push_str(v: &mut Vec<char>, t: &str)
    ensures
        final(v)@ == old(v)@ + t@,
{
    let n = t.unicode_len();
    let mut i: usize = 0;
    while i < n
        invariant
            n == t@.len(),
            i <= n,
            v@ == old(v)@ + t@.subrange(0, i as int),
        decreases n - i,
    {
        v.push(t.get_char(i));
        i = i + 1;
    }
}

/// Appends the characters of `t` to `v`.
pub fn push_all(v: &mut Vec<char>, t: &Vec<char>)
    ensures
        final(v)@ == old(v)@ + t@,
{
    let mut i: usize = 0;
    while i < t.len()
        invariant
            i <= t.len(),
            v@ == old(v)@ + t@.subrange(0, i as int),
        decreases t.len() - i,
    {
        v.push(t[i]);
        i = i + 1;
    }
}

// ─── Substrings ───────────────────────────────────────────────

/// `p` occurs in `s` at position `i`.
pub open spec fn matches_at(s: Seq<char>, p: Seq<char>, i: int) -> bool {
    0 <= i && i + p.len() <= s.len() && s.subrange(i, i + p.len()) == p
}

/// `str::contains` with a string pattern.
pub open spec fn contains(s: Seq<char>, p: Seq<char>) -> bool {
    exists|i: int| #[trigger] matches_at(s, p, i)
}

/// `str::starts_with` with a string pattern.
pub open spec fn starts_with(s: Seq<char>, p: Seq<char>) -> bool {
    matches_at(s, p, 0)
}

/// `str::ends_with` with a string pattern.
pub open spec fn ends_with(s: Seq<char>, p: Seq<char>) -> bool {
    matches_at(s, p, s.len() - p.len())
}

/// Some pattern of `pats` occurs in `s`.
pub open spec fn contains_any(s: Seq<char>, pats: Seq<Seq<char>>) -> bool {
    exists|k: int| 0 <= k < pats.len() && contains(s, #[trigger] pats[k])
}

/// The views of a list of string slices.
pub open spec fn views(p: Seq<&str>) -> Seq<Seq<char>> {
    p.map_values(|x: &str| x@)
}

pub fn matches_at_exec(s: &Vec<char>, p: &Vec<char>, i: usize) -> (r: bool)
    ensures
        r == matches_at(s@, p@, i as int),
{
    if i > s.len() || p.len() > s.len() - i {
        return false;
    }
    let mut j: usize = 0;
    while j < p.len()
        invariant
            i + p.len() <= s.len(),
            j <= p.len(),
            s@.subrange(i as int, i + j) == p@.subrange(0, j as int),
        decreases p.len() - j,
    {
        if s[i + j] != p[j] {
            assert(s@.subrange(i as int, i + p.len())[j as int] != p@[j as int]);
            return false;
        }
        assert(s@.subrange(i as int, i + j + 1) =~= s@.subrange(i as int, i + j).push(s@[i + j]));
        assert(p@.subrange(0, j + 1) =~= p@.subrange(0, j as int).push(p@[j as int]));
        j = j + 1;
    }
    assert(p@.subrange(0, p.len() as int) =~= p@);
    true
}

pub fn contains_chars(s: &Vec<char>, p: &Vec<char>) -> (r: bool)
    ensures
        r == contains(s@, p@),
{
    if p.len() > s.len() {
        assert(forall|i: int| !#[trigger] matches_at(s@, p@, i));
        return false;
    }
    let last = s.len() - p.len();
    let mut i: usize = 0;
    while i < last
        invariant
            last == s.len() - p.len(),
            i <= last,
            forall|k: int| 0 <= k < i ==> !#[trigger] matches_at(s@, p@, k),
        decreases last - i,
    {
        if matches_at_exec(s, p, i) {
            return true;
        }
        i = i + 1;
    }
    if matches_at_exec(s, p, last) {
        return true;
    }
    assert(forall|k: int| !#[trigger] matches_at(s@, p@, k));
    false
}

/// `s` contains the string `p`.
pub fn contains_str(s: &Vec<char>, p: &str) -> (r: bool)
    ensures
        r == contains(s@, p@),
{
    let pv = chars_of(p);
    contains_chars(s, &pv)
}

/// `s` starts with the string `p`.
pub fn starts_with_str(s: &Vec<char>, p: &str) -> (r: bool)
    ensures
        r == starts_with(s@, p@),
{
    let pv = chars_of(p);
    matches_at_exec(s, &pv, 0)
}

/// `s` ends with the string `p`.
pub fn ends_with_str(s: &Vec<char>, p: &str) -> (r: bool)
    ensures
        r == ends_with(s@, p@),
{
    let pv = chars_of(p);
    if pv.len() > s.len() {
        return false;
    }
    matches_at_exec(s, &pv, s.len() - pv.len())
}

/// Some pattern of `pats` occurs in `s`.
pub fn contains_any_str(s: &Vec<char>, pats: &[&str]) -> (r: bool)
    ensures
        r == contains_any(s@, views(pats@)),
{
    let mut k: usize = 0;
    while k < pats.len()
        invariant
            k <= pats@.len(),
            forall|j: int| 0 <= j < k ==> !contains(s@, #[trigger] views(pats@)[j]),
        decreases pats.len() - k,
    {
        if contains_str(s, pats[k]) {
            assert(contains(s@, views(pats@)[k as int]));
            return true;
        }
        k = k + 1;
    }
    false
}


/// `v` holds exactly the string `t`.
pub fn eq_str(v: &Vec<char>, t: &str) -> (r: bool)
    ensures
        r == (v@ == t@),
{
    let tv = chars_of(t);
    if tv.len() != v.len() {
        return false;
    }
    let r = matches_at_exec(v, &tv, 0);
    assert(r ==> v@.subrange(0, v@.len() as int) =~= v@);
    assert(v@ == t@ ==> v@.subrange(0, v@.len() as int) =~= t@);
    r
}

/// `v` equals one of the strings of `pats`.
pub fn eq_any_str(v: &Vec<char>, pats: &[&str]) -> (r: bool)
    ensures
        r == views(pats@).contains(v@),
{
    let mut k: usize = 0;
    while k < pats.len()
        invariant
            k <= pats@.len(),
            forall|j: int| 0 <= j < k ==> views(pats@)[j] != v@,
        decreases pats.len() - k,
    {
        if eq_str(v, pats[k]) {
            assert(views(pats@)[k as int] == v@);
            return true;
        }
        k = k + 1;
    }
    false
}

// ─── Trimming non-digits ──────────────────────────────────────

/// `trim_start_matches(|c| !c.is_ascii_digit())`.
pub open spec fn trim_nondigit_start(s: Seq<char>) -> Seq<char>
    decreases s.len(),
{
    if s.len() > 0 && !is_digit(s[0]) {
        trim_nondigit_start(s.drop_first())
    } else {
        s
    }
}

/// `trim_end_matches(|c| !c.is_ascii_digit())`.
pub open spec fn trim_nondigit_end(s: Seq<char>) -> Seq<char>
    decreases s.len(),
{
    if s.len() > 0 && !is_digit(s.last()) {
        trim_nondigit_end(s.drop_last())
    } else {
        s
    }
}

/// `str::trim_end_matches` with a string pattern: strips repeated suffixes `p`.
pub open spec fn trim_end_matches(s: Seq<char>, p: Seq<char>) -> Seq<char>
    decreases s.len(),
{
    if p.len() > 0 && ends_with(s, p) {
        trim_end_matches(s.take(s.len() - p.len()), p)
    } else {
        s
    }
}

pub proof fn lemma_trim_nondigit_end_shape(s: Seq<char>)
    ensures
        trim_nondigit_end(s).len() == 0 || is_digit(trim_nondigit_end(s).last()),
    decreases s.len(),
{
    if s.len() > 0 && !is_digit(s.last()) {
        lemma_trim_nondigit_end_shape(s.drop_last());
    }
}

pub proof fn lemma_trim_nondigit_start_shape(s: Seq<char>)
    ensures
        trim_nondigit_start(s).len() == 0 || is_digit(trim_nondigit_start(s)[0]),
    decreases s.len(),
{
    if s.len() > 0 && !is_digit(s[0]) {
        lemma_trim_nondigit_start_shape(s.drop_first());
    }
}

pub proof fn lemma_trim_nondigit_end_keeps_start(s: Seq<char>)
    requires
        s.len() == 0 || is_digit(s[0]),
    ensures
        trim_nondigit_end(s).len() == 0 || is_digit(trim_nondigit_end(s)[0]),
        trim_nondigit_end(s).len() == 0 ==> s.len() == 0,
    decreases s.len(),
{
    if s.len() > 0 && !is_digit(s.last()) {
        if s.len() > 1 {
            lemma_trim_nondigit_end_keeps_start(s.drop_last());
        }
    }
}

/// The two-sided trim of non-digits.
pub open spec fn digit_core(s: Seq<char>) -> Seq<char> {
    trim_nondigit_end(trim_nondigit_start(s))
}

pub fn digit_core_chars(s: &Vec<char>) -> (r: Vec<char>)
    ensures
        r@ == digit_core(s@),
        r@.len() == 0 || (is_digit(r@[0]) && is_digit(r@.last())),
{
    let n = s.len();
    let mut i: usize = 0;
    assert(s@.skip(0) =~= s@);
    while i < n && !is_digit_char(s[i])
        invariant
            n == s.len(),
            i <= n,
            trim_nondigit_start(s@) == trim_nondigit_start(s@.skip(i as int)),
        decreases n - i,
    {
        assert(s@.skip(i as int).drop_first() =~= s@.skip(i + 1));
        i = i + 1;
    }
    let ghost ts = s@.skip(i as int);
    assert(trim_nondigit_start(ts) == ts);
    assert(ts =~= s@.subrange(i as int, n as int));
    let mut j: usize = n;
    while j > i && !is_digit_char(s[j - 1])
        invariant
            n == s.len(),
            i <= j <= n,
            ts == s@.subrange(i as int, n as int),
            trim_nondigit_end(ts) == trim_nondigit_end(s@.subrange(i as int, j as int)),
        decreases j,
    {
        assert(s@.subrange(i as int, j as int).drop_last() =~= s@.subrange(i as int, j - 1));
        j = j - 1;
    }
    let mut r: Vec<char> = Vec::new();
    let mut k: usize = i;
    while k < j
        invariant
            i <= k <= j <= n,
            n == s.len(),
            r@ == s@.subrange(i as int, k as int),
        decreases j - k,
    {
        r.push(s[k]);
        k = k + 1;
    }
    proof {
        lemma_trim_nondigit_start_shape(s@);
        lemma_trim_nondigit_end_shape(ts);
        lemma_trim_nondigit_end_keeps_start(ts);
    }
    r
}

// ─── Trimming ─────────────────────────────────────────────────

/// `str::trim_start`.
pub open spec fn trim_start(s: Seq<char>) -> Seq<char>
    decreases s.len(),
{
    if s.len() > 0 && is_ws(s[0]) {
        trim_start(s.drop_first())
    } else {
        s
    }
}

/// `str::trim_end`.
pub open spec fn trim_end(s: Seq<char>) -> Seq<char>
    decreases s.len(),
{
    if s.len() > 0 && is_ws(s.last()) {
        trim_end(s.drop_last())
    } else {
        s
    }
}

/// `str::trim`.
pub open spec fn trim(s: Seq<char>) -> Seq<char> {
    trim_end(trim_start(s))
}

proof fn lemma_trim_start_shape(s: Seq<char>)
    ensures
        trim_start(s).len() == 0 || !is_ws(trim_start(s)[0]),
    decreases s.len(),
{
    if s.len() > 0 && is_ws(s[0]) {
        lemma_trim_start_shape(s.drop_first());
    }
}

proof fn lemma_trim_end_shape(s: Seq<char>)
    ensures
        trim_end(s).len() <= s.len(),
        trim_end(s) == s.take(trim_end(s).len() as int),
        trim_end(s).len() == 0 || !is_ws(trim_end(s).last()),
    decreases s.len(),
{
    if s.len() > 0 && is_ws(s.last()) {
        lemma_trim_end_shape(s.drop_last());
        assert(s.drop_last().take(trim_end(s).len() as int) =~= s.take(trim_end(s).len() as int));
    } else {
        assert(s.take(s.len() as int) =~= s);
    }
}

/// Trimming a trimmed text changes nothing.
pub proof fn lemma_trim_idempotent(s: Seq<char>)
    ensures
        trim(trim(s)) == trim(s),
{
    let a = trim_start(s);
    let t = trim_end(a);
    lemma_trim_start_shape(s);
    lemma_trim_end_shape(a);
    if t.len() > 0 {
        assert(t[0] == a[0]);
    }
    assert(trim_start(t) == t);
    lemma_trim_end_shape(t);
    assert(trim_end(t) == t);
}

pub fn trim_chars(s: &Vec<char>) -> (r: Vec<char>)
    ensures
        r@ == trim(s@),
{
    let n = s.len();
    let mut i: usize = 0;
    assert(s@.skip(0) =~= s@);
    while i < n && is_ws_char(s[i])
        invariant
            n == s.len(),
            i <= n,
            trim_start(s@) == trim_start(s@.skip(i as int)),
        decreases n - i,
    {
        assert(s@.skip(i as int).drop_first() =~= s@.skip(i + 1));
        i = i + 1;
    }
    let ghost ts = s@.skip(i as int);
    assert(trim_start(ts) == ts);
    let mut j: usize = n;
    while j > i && is_ws_char(s[j - 1])
        invariant
            n == s.len(),
            i <= j <= n,
            ts == s@.skip(i as int),
            trim_end(ts) == trim_end(s@.subrange(i as int, j as int)),
        decreases j,
    {
        assert(s@.subrange(i as int, j as int).drop_last() =~= s@.subrange(i as int, j - 1));
        j = j - 1;
    }
    assert(ts =~= s@.subrange(i as int, n as int));
    let mut r: Vec<char> = Vec::new();
    let mut k: usize = i;
    while k < j
        invariant
            i <= k <= j <= n,
            n == s.len(),
            r@ == s@.subrange(i as int, k as int),
        decreases j - k,
    {
        r.push(s[k]);
        k = k + 1;
    }
    r
}

// ─── Whitespace splitting ─────────────────────────────────────

/// Length of the longest prefix of `s` without whitespace.
pub open spec fn word_len(s: Seq<char>) -> nat
    decreases s.len(),
{
    if s.len() == 0 || is_ws(s[0]) {
        0
    } else {
        1 + word_len(s.drop_first())
    }
}

/// `str::split_whitespace`.
pub open spec fn words(s: Seq<char>) -> Seq<Seq<char>>
    decreases s.len(),
{
    if s.len() == 0 {
        seq![]
    } else if is_ws(s[0]) {
        words(s.drop_first())
    } else {
        let n = word_len(s);
        if 0 < n <= s.len() {
            seq![s.take(n as int)] + words(s.skip(n as int))
        } else {
            seq![]
        }
    }
}

pub proof fn lemma_word_len(s: Seq<char>)
    ensures
        word_len(s) <= s.len(),
        forall|k: int| 0 <= k < word_len(s) ==> !is_ws(#[trigger] s[k]),
        word_len(s) < s.len() ==> is_ws(s[word_len(s) as int]),
    decreases s.len(),
{
    if s.len() > 0 && !is_ws(s[0]) {
        lemma_word_len(s.drop_first());
        assert forall|k: int| 0 <= k < word_len(s) implies !is_ws(#[trigger] s[k]) by {
            if k > 0 {
                assert(s[k] == s.drop_first()[k - 1]);
            }
        }
    }
}

/// A prefix with no whitespace followed by whitespace (or the end) has that length.
pub proof fn lemma_word_len_exact(s: Seq<char>, n: int)
    requires
        0 <= n <= s.len(),
        forall|k: int| 0 <= k < n ==> !is_ws(#[trigger] s[k]),
        n < s.len() ==> is_ws(s[n]),
    ensures
        word_len(s) == n,
    decreases n,
{
    if n > 0 {
        assert forall|k: int| 0 <= k < n - 1 implies !is_ws(#[trigger] s.drop_first()[k]) by {
            assert(s.drop_first()[k] == s[k + 1]);
        }
        lemma_word_len_exact(s.drop_first(), n - 1);
    }
}

/// The views of a list of character vectors.
pub open spec fn vviews(v: Seq<Vec<char>>) -> Seq<Seq<char>> {
    v.map_values(|x: Vec<char>| x@)
}

pub fn split_ws(s: &Vec<char>) -> (r: Vec<Vec<char>>)
    ensures
        vviews(r@) == words(s@),
{
    let n = s.len();
    let mut r: Vec<Vec<char>> = Vec::new();
    let mut i: usize = 0;
    assert(s@.skip(0) =~= s@);
    assert(vviews(r@) + words(s@) =~= words(s@));
    while i < n
        invariant
            n == s.len(),
            i <= n,
            words(s@) == vviews(r@) + words(s@.skip(i as int)),
        decreases n - i,
    {
        let ghost rest = s@.skip(i as int);
        if is_ws_char(s[i]) {
            assert(rest.drop_first() =~= s@.skip(i + 1));
            i = i + 1;
        } else {
            let mut w: Vec<char> = Vec::new();
            let mut j: usize = i;
            while j < n && !is_ws_char(s[j])
                invariant
                    n == s.len(),
                    i <= j <= n,
                    w@ == s@.subrange(i as int, j as int),
                    forall|k: int| i <= k < j ==> !is_ws(#[trigger] s@[k]),
                decreases n - j,
            {
                w.push(s[j]);
                j = j + 1;
            }
            proof {
                assert forall|k: int| 0 <= k < j - i implies !is_ws(#[trigger] rest[k]) by {
                    assert(rest[k] == s@[i + k]);
                }
                if j < n {
                    assert(rest[j - i] == s@[j as int]);
                }
                lemma_word_len_exact(rest, j - i);
                assert(rest.take(j - i) =~= w@);
                assert(rest.skip(j - i) =~= s@.skip(j as int));
                assert(vviews(r@.push(w)) =~= vviews(r@).push(w@));
                assert(words(rest) == seq![w@] + words(s@.skip(j as int)));
                assert(vviews(r@) + words(rest) =~= vviews(r@).push(w@) + words(
                    s@.skip(j as int),
                ));
            }
            r.push(w);
            i = j;
        }
    }
    assert(s@.skip(n as int) =~= Seq::<char>::empty());
    assert(vviews(r@) + Seq::<Seq<char>>::empty() =~= vviews(r@));
    r
}

/// The words joined with single spaces.
pub open spec fn join(ws: Seq<Seq<char>>, sep: Seq<char>) -> Seq<char>
    decreases ws.len(),
{
    if ws.len() == 0 {
        seq![]
    } else if ws.len() == 1 {
        ws[0]
    } else {
        join(ws.drop_last(), sep) + sep + ws.last()
    }
}

pub fn join_chars(ws: &Vec<Vec<char>>, sep: &str) -> (r: Vec<char>)
    ensures
        r@ == join(vviews(ws@), sep@),
{
    let mut r: Vec<char> = Vec::new();
    let mut i: usize = 0;
    while i < ws.len()
        invariant
            i <= ws.len(),
            r@ == join(vviews(ws@).take(i as int), sep@),
        decreases ws.len() - i,
    {
        if i > 0 {
            push_str(&mut r, sep);
        }
        push_all(&mut r, &ws[i]);
        proof {
            let t = vviews(ws@).take(i + 1);
            assert(t.drop_last() =~= vviews(ws@).take(i as int));
            if i == 0 {
                assert(r@ =~= t[0]);
            }
        }
        i = i + 1;
    }
    assert(vviews(ws@).take(ws.len() as int) =~= vviews(ws@));
    r
}

/// `split_whitespace().collect::<Vec<_>>().join(" ")`.
pub open spec fn collapse_spaces(s: Seq<char>) -> Seq<char> {
    join(words(s), seq![' '])
}

pub fn collapse_chars(s: &Vec<char>) -> (r: Vec<char>)
    ensures
        r@ == collapse_spaces(s@),
{
    let ws = split_ws(s);
    let r = join_chars(&ws, " ");
    proof {
        reveal_strlit(" ");
        assert(" "@ =~= seq![' ']);
    }
    r
}

// ─── Replacement ──────────────────────────────────────────────

/// `str::replace` with a non-empty string pattern: leftmost, non-overlapping.
pub open spec fn replace(s: Seq<char>, from: Seq<char>, to: Seq<char>) -> Seq<char>
    decreases s.len(),
{
    if from.len() == 0 || s.len() == 0 {
        s
    } else if starts_with(s, from) {
        to + replace(s.skip(from.len() as int), from, to)
    } else {
        seq![s[0]] + replace(s.drop_first(), from, to)
    }
}

pub fn replace_chars(s: &Vec<char>, from: &str, to: &str) -> (r: Vec<char>)
    requires
        from@.len() > 0,
    ensures
        r@ == replace(s@, from@, to@),
{
    let fv = chars_of(from);
    let n = s.len();
    let mut r: Vec<char> = Vec::new();
    let mut i: usize = 0;
    assert(s@.skip(0) =~= s@);
    assert(r@ + replace(s@, from@, to@) =~= replace(s@, from@, to@));
    while i < n
        invariant
            n == s.len(),
            i <= n,
            fv@ == from@,
            fv@.len() > 0,
            replace(s@, from@, to@) == r@ + replace(s@.skip(i as int), from@, to@),
        decreases n - i,
    {
        let ghost rest = s@.skip(i as int);
        if matches_at_exec(s, &fv, i) {
            proof {
                assert(rest.subrange(0, from@.len() as int) =~= s@.subrange(
                    i as int,
                    i + from@.len(),
                ));
                assert(rest.skip(from@.len() as int) =~= s@.skip(i + fv.len()));
            }
            push_str(&mut r, to);
            i = i + fv.len();
        } else {
            proof {
                if i + from@.len() <= n {
                    assert(rest.subrange(0, from@.len() as int) =~= s@.subrange(
                        i as int,
                        i + from@.len(),
                    ));
                }
                assert(rest.drop_first() =~= s@.skip(i + 1));
                assert(rest[0] == s@[i as int]);
            }
            r.push(s[i]);
            assert(r@ =~= r@.drop_last() + seq![s@[i as int]]);
            i = i + 1;
        }
    }
    assert(s@.skip(n as int) =~= Seq::<char>::empty());
    r
}


// ─── Lines ────────────────────────────────────────────────────

/// Index of the first `'\n'` in `s`, or its length.
pub open spec fn line_end(s: Seq<char>) -> nat
    decreases s.len(),
{
    if s.len() == 0 || s[0] == '\n' {
        0
    } else {
        1 + line_end(s.drop_first())
    }
}

/// A line without its `'\r'` before the newline.
pub open spec fn strip_cr(l: Seq<char>) -> Seq<char> {
    if l.len() > 0 && l.last() == '\r' {
        l.drop_last()
    } else {
        l
    }
}

/// `str::lines`: split at `'\n'` (dropping a `'\r'` before it); a final line
/// ending does not start an empty line.
pub open spec fn lines(s: Seq<char>) -> Seq<Seq<char>>
    decreases s.len(),
{
    if s.len() == 0 {
        seq![]
    } else {
        let n = line_end(s);
        if n < s.len() {
            seq![strip_cr(s.take(n as int))] + lines(s.skip(n as int + 1))
        } else {
            seq![s]
        }
    }
}

pub proof fn lemma_line_end_exact(s: Seq<char>, n: int)
    requires
        0 <= n <= s.len(),
        forall|k: int| 0 <= k < n ==> #[trigger] s[k] != '\n',
        n < s.len() ==> s[n] == '\n',
    ensures
        line_end(s) == n,
    decreases n,
{
    if n > 0 {
        assert forall|k: int| 0 <= k < n - 1 implies #[trigger] s.drop_first()[k] != '\n' by {
            assert(s.drop_first()[k] == s[k + 1]);
        }
        lemma_line_end_exact(s.drop_first(), n - 1);
    }
}

pub fn split_lines(s: &Vec<char>) -> (r: Vec<Vec<char>>)
    ensures
        vviews(r@) == lines(s@),
{
    let n = s.len();
    let mut r: Vec<Vec<char>> = Vec::new();
    let mut i: usize = 0;
    assert(s@.skip(0) =~= s@);
    assert(vviews(r@) + lines(s@) =~= lines(s@));
    while i < n
        invariant
            n == s.len(),
            i <= n,
            lines(s@) == vviews(r@) + lines(s@.skip(i as int)),
        decreases n - i,
    {
        let ghost rest = s@.skip(i as int);
        let mut l: Vec<char> = Vec::new();
        let mut j: usize = i;
        while j < n && s[j] != '\n'
            invariant
                n == s.len(),
                i <= j <= n,
                l@ == s@.subrange(i as int, j as int),
                forall|k: int| i <= k < j ==> #[trigger] s@[k] != '\n',
            decreases n - j,
        {
            l.push(s[j]);
            j = j + 1;
        }
        proof {
            assert forall|k: int| 0 <= k < j - i implies #[trigger] rest[k] != '\n' by {
                assert(rest[k] == s@[i + k]);
            }
            if j < n {
                assert(rest[j - i] == s@[j as int]);
            }
            lemma_line_end_exact(rest, j - i);
            assert(rest.take(j - i) =~= l@);
        }
        if j < n {
            if l.len() > 0 && l[l.len() - 1] == '\r' {
                l.pop();
            }
            proof {
                assert(rest.skip(j - i + 1) =~= s@.skip(j + 1));
                assert(vviews(r@.push(l)) =~= vviews(r@).push(l@));
                assert(vviews(r@) + lines(rest) =~= vviews(r@).push(l@) + lines(s@.skip(j + 1)));
            }
            r.push(l);
            i = j + 1;
        } else {
            proof {
                assert(rest =~= l@);
                assert(vviews(r@.push(l)) =~= vviews(r@).push(l@));
                assert(s@.skip(n as int) =~= Seq::<char>::empty());
                assert(vviews(r@) + lines(rest) =~= vviews(r@).push(l@) + lines(s@.skip(n as int)));
            }
            r.push(l);
            i = n;
        }
    }
    assert(s@.skip(n as int) =~= Seq::<char>::empty());
    assert(vviews(r@) + Seq::<Seq<char>>::empty() =~= vviews(r@));
    r
}

// ─── Splitting at a character ─────────────────────────────────

/// Index of the first `c` in `s`, or its length.
pub open spec fn char_pos(s: Seq<char>, c: char) -> nat
    decreases s.len(),
{
    if s.len() == 0 || s[0] == c {
        0
    } else {
        1 + char_pos(s.drop_first(), c)
    }
}

/// `str::split` at a character: the pieces between occurrences of `c`,
/// empty pieces included.
pub open spec fn split_char(s: Seq<char>, c: char) -> Seq<Seq<char>>
    decreases s.len(),
{
    let n = char_pos(s, c);
    if n < s.len() {
        seq![s.take(n as int)] + split_char(s.skip(n as int + 1), c)
    } else {
        seq![s]
    }
}

pub proof fn lemma_char_pos_exact(s: Seq<char>, c: char, n: int)
    requires
        0 <= n <= s.len(),
        forall|k: int| 0 <= k < n ==> #[trigger] s[k] != c,
        n < s.len() ==> s[n] == c,
    ensures
        char_pos(s, c) == n,
    decreases n,
{
    if n > 0 {
        assert forall|k: int| 0 <= k < n - 1 implies #[trigger] s.drop_first()[k] != c by {
            assert(s.drop_first()[k] == s[k + 1]);
        }
        lemma_char_pos_exact(s.drop_first(), c, n - 1);
    }
}

pub fn split_char_vec(s: &Vec<char>, c: char) -> (r: Vec<Vec<char>>)
    ensures
        vviews(r@) == split_char(s@, c),
{
    let n = s.len();
    let mut r: Vec<Vec<char>> = Vec::new();
    let mut i: usize = 0;
    let mut done = false;
    assert(s@.skip(0) =~= s@);
    assert(vviews(r@) + split_char(s@, c) =~= split_char(s@, c));
    while !done
        invariant
            n == s.len(),
            i <= n,
            !done ==> split_char(s@, c) == vviews(r@) + split_char(s@.skip(i as int), c),
            done ==> split_char(s@, c) == vviews(r@),
        decreases (n - i) * 2 + if done { 0int } else { 1int },
    {
        let ghost rest = s@.skip(i as int);
        let mut piece: Vec<char> = Vec::new();
        let mut j: usize = i;
        while j < n && s[j] != c
            invariant
                n == s.len(),
                i <= j <= n,
                piece@ == s@.subrange(i as int, j as int),
                forall|k: int| i <= k < j ==> #[trigger] s@[k] != c,
            decreases n - j,
        {
            piece.push(s[j]);
            j = j + 1;
        }
        proof {
            assert forall|k: int| 0 <= k < j - i implies #[trigger] rest[k] != c by {
                assert(rest[k] == s@[i + k]);
            }
            if j < n {
                assert(rest[j - i] == s@[j as int]);
            }
            lemma_char_pos_exact(rest, c, j - i);
            assert(rest.take(j - i) =~= piece@);
            assert(vviews(r@.push(piece)) =~= vviews(r@).push(piece@));
        }
        if j < n {
            proof {
                assert(rest.skip(j - i + 1) =~= s@.skip(j + 1));
                assert(vviews(r@) + split_char(rest, c) =~= vviews(r@).push(piece@) + split_char(
                    s@.skip(j + 1),
                    c,
                ));
            }
            r.push(piece);
            i = j + 1;
        } else {
            proof {
                assert(rest =~= piece@);
                assert(vviews(r@) + split_char(rest, c) =~= vviews(r@).push(piece@));
            }
            r.push(piece);
            done = true;
        }
    }
    r
}

/// `str::parse` for an unsigned type whose largest value is `max`: an optional
/// `'+'`, then one or more decimal digits whose value is at most `max`.
pub open spec fn parse_uint(s: Seq<char>, max: nat) -> Option<nat> {
    let d = if s.len() > 0 && s[0] == '+' { s.drop_first() } else { s };
    if d.len() > 0 && all_digits(d) && digits_value(d) <= max {
        Some(digits_value(d))
    } else {
        None
    }
}

pub fn parse_uint_chars(s: &Vec<char>, max: u64) -> (r: Option<u64>)
    ensures
        match r {
            Some(v) => parse_uint(s@, max as nat) == Some(v as nat),
            None => parse_uint(s@, max as nat) is None,
        },
{
    let start: usize = if s.len() > 0 && s[0] == '+' { 1 } else { 0 };
    let ghost d = if s@.len() > 0 && s@[0] == '+' { s@.drop_first() } else { s@ };
    assert(d =~= s@.skip(start as int));
    if start >= s.len() {
        assert(d.len() == 0);
        return None;
    }
    let mut i: usize = start;
    let mut acc: u64 = 0;
    let mut over = false;
    while i < s.len()
        invariant
            start <= i <= s.len(),
            d == s@.skip(start as int),
            d == (if s@.len() > 0 && s@[0] == '+' { s@.drop_first() } else { s@ }),
            forall|k: int| start <= k < i ==> is_digit(#[trigger] s@[k]),
            over ==> digits_value(d.take(i - start)) > max,
            !over ==> acc == digits_value(d.take(i - start)) && acc <= max,
        decreases s.len() - i,
    {
        if !is_digit_char(s[i]) {
            assert(d[i - start] == s@[i as int]);
            assert(!is_digit(d[i - start]));
            assert(!all_digits(d));
            return None;
        }
        assert(d.take(i - start + 1).drop_last() =~= d.take(i - start));
        assert(d.take(i - start + 1).last() == s@[i as int]);
        let dg = ((s[i] as u32) - ('0' as u32)) as u64;
        if !over {
            if dg > max || acc > (max - dg) / 10 {
                over = true;
                proof {
                    if dg <= max {
                        let q = (max - dg) / 10;
                        assert(10 * q + (max - dg) % 10 == max - dg) by (nonlinear_arith)
                            requires q == (max - dg) / 10, dg <= max,
                        ;
                        assert(acc * 10 >= 10 * q + 10) by (nonlinear_arith)
                            requires acc > q,
                        ;
                    }
                }
            } else {
                proof {
                    let q = (max - dg) / 10;
                    assert(10 * q + (max - dg) % 10 == max - dg) by (nonlinear_arith)
                        requires q == (max - dg) / 10, dg <= max,
                    ;
                    assert(acc * 10 <= 10 * q) by (nonlinear_arith)
                        requires acc <= q,
                    ;
                }
                acc = acc * 10 + dg;
            }
        }
        i = i + 1;
    }
    assert(d.take(d.len() as int) =~= d);
    assert forall|k: int| 0 <= k < d.len() implies is_digit(#[trigger] d[k]) by {
        assert(d[k] == s@[start + k]);
    }
    if over {
        None
    } else {
        Some(acc)
    }
}

// ─── Numbers ──────────────────────────────────────────────────

pub open spec fn digit_char(d: nat) -> char {
    if d == 0 {
        '0'
    } else if d == 1 {
        '1'
    } else if d == 2 {
        '2'
    } else if d == 3 {
        '3'
    } else if d == 4 {
        '4'
    } else if d == 5 {
        '5'
    } else if d == 6 {
        '6'
    } else if d == 7 {
        '7'
    } else if d == 8 {
        '8'
    } else {
        '9'
    }
}

pub open spec fn digit_value(c: char) -> nat {
    ((c as u32) - ('0' as u32)) as nat
}

/// Decimal representation of `n`, as `format!("{n}")` writes it.
pub open spec fn dec(n: nat) -> Seq<char>
    decreases n,
{
    if n < 10 {
        seq![digit_char(n)]
    } else {
        dec(n / 10).push(digit_char(n % 10))
    }
}

fn digit_exec(d: u64) -> (c: char)
    requires
        d < 10,
    ensures
        c == digit_char(d as nat),
{
    if d == 0 {
        '0'
    } else if d == 1 {
        '1'
    } else if d == 2 {
        '2'
    } else if d == 3 {
        '3'
    } else if d == 4 {
        '4'
    } else if d == 5 {
        '5'
    } else if d == 6 {
        '6'
    } else if d == 7 {
        '7'
    } else if d == 8 {
        '8'
    } else {
        '9'
    }
}

/// Appends the decimal representation of `n` to `v`.
pub fn push_dec(v: &mut Vec<char>, n: u64)
    ensures
        final(v)@ == old(v)@ + dec(n as nat),
    decreases n,
{
    if n < 10 {
        v.push(digit_exec(n));
        assert(v@ =~= old(v)@ + dec(n as nat));
    } else {
        push_dec(v, n / 10);
        v.push(digit_exec(n % 10));
        assert(v@ =~= old(v)@ + dec(n as nat));
    }
}

/// Value of a string of decimal digits.
pub open spec fn digits_value(s: Seq<char>) -> nat
    decreases s.len(),
{
    if s.len() == 0 {
        0
    } else {
        digits_value(s.drop_last()) * 10 + digit_value(s.last())
    }
}

pub open spec fn all_digits(s: Seq<char>) -> bool {
    forall|k: int| 0 <= k < s.len() ==> is_digit(#[trigger] s[k])
}

/// `str::parse::<u16>` of a string that starts with a digit (so no sign is possible).
pub open spec fn parse_u16(s: Seq<char>) -> Option<u16> {
    if s.len() > 0 && all_digits(s) && digits_value(s) <= 65535 {
        Some(digits_value(s) as u16)
    } else {
        None
    }
}

pub fn parse_u16_chars(s: &Vec<char>) -> (r: Option<u16>)
    requires
        s@.len() == 0 || is_digit(s@[0]),
    ensures
        r == parse_u16(s@),
{
    if s.len() == 0 {
        return None;
    }
    let mut i: usize = 0;
    let mut acc: u32 = 0;
    let mut over = false;
    while i < s.len()
        invariant
            i <= s.len(),
            forall|k: int| 0 <= k < i ==> is_digit(#[trigger] s@[k]),
            over ==> digits_value(s@.take(i as int)) > 65535,
            !over ==> acc == digits_value(s@.take(i as int)) && acc <= 65535,
        decreases s.len() - i,
    {
        if !is_digit_char(s[i]) {
            assert(!all_digits(s@));
            return None;
        }
        assert(s@.take(i + 1).drop_last() =~= s@.take(i as int));
        let d = (s[i] as u32) - ('0' as u32);
        if !over {
            let next = acc * 10 + d;
            if next > 65535 {
                over = true;
            } else {
                acc = next;
            }
        }
        i = i + 1;
    }
    assert(s@.take(s.len() as int) =~= s@);
    if over {
        None
    } else {
        Some(acc as u16)
    }
}

} // verus!

verus! {

// ─── Prefixes, positions and slices ───────────────────────────

/// `str::strip_prefix`.
pub open spec fn strip_prefix(s: Seq<char>, p: Seq<char>) -> Option<Seq<char>> {
    if starts_with(s, p) {
        Some(s.skip(p.len() as int))
    } else {
        None
    }
}

pub fn strip_prefix_str(s: &Vec<char>, p: &str) -> (r: Option<Vec<char>>)
    ensures
        match r {
            Some(v) => strip_prefix(s@, p@) == Some(v@),
            None => strip_prefix(s@, p@) is None,
        },
{
    if starts_with_str(s, p) {
        let n = p.unicode_len();
        Some(slice_chars(s, n, s.len()))
    } else {
        None
    }
}

/// The characters `a..b` of `s`.
pub fn slice_chars(s: &Vec<char>, a: usize, b: usize) -> (r: Vec<char>)
    requires
        a <= b <= s@.len(),
    ensures
        r@ == s@.subrange(a as int, b as int),
{
    let mut r: Vec<char> = Vec::new();
    let mut k: usize = a;
    while k < b
        invariant
            a <= k <= b <= s@.len(),
            r@ == s@.subrange(a as int, k as int),
        decreases b - k,
    {
        r.push(s[k]);
        assert(r@ =~= s@.subrange(a as int, k + 1));
        k = k + 1;
    }
    r
}

/// Index of the first `c` in `s`, or its length.
pub fn char_pos_exec(s: &Vec<char>, c: char) -> (r: usize)
    ensures
        r == char_pos(s@, c),
        r <= s@.len(),
{
    let mut i: usize = 0;
    while i < s.len() && s[i] != c
        invariant
            i <= s@.len(),
            forall|k: int| 0 <= k < i ==> #[trigger] s@[k] != c,
        decreases s.len() - i,
    {
        i = i + 1;
    }
    proof {
        lemma_char_pos_exact(s@, c, i as int);
    }
    i
}

/// Index of the last `c` in `s`, if any (`str::rfind`).
pub open spec fn last_char_pos(s: Seq<char>, c: char) -> Option<nat>
    decreases s.len(),
{
    if s.len() == 0 {
        None
    } else if s.last() == c {
        Some((s.len() - 1) as nat)
    } else {
        last_char_pos(s.drop_last(), c)
    }
}

pub fn last_char_pos_exec(s: &Vec<char>, c: char) -> (r: Option<usize>)
    ensures
        match r {
            Some(i) => last_char_pos(s@, c) == Some(i as nat) && i < s@.len(),
            None => last_char_pos(s@, c) is None,
        },
{
    let mut i: usize = s.len();
    assert(s@.take(i as int) =~= s@);
    while i > 0
        invariant
            i <= s@.len(),
            last_char_pos(s@, c) == last_char_pos(s@.take(i as int), c),
        decreases i,
    {
        let ghost t = s@.take(i as int);
        assert(t.last() == s@[i - 1]);
        if s[i - 1] == c {
            return Some(i - 1);
        }
        assert(t.drop_last() =~= s@.take(i - 1));
        i = i - 1;
    }
    None
}

/// Index of the first occurrence of `p` in `s` at or after `i` (`str::find`).
pub open spec fn find_from(s: Seq<char>, p: Seq<char>, i: int) -> Option<nat>
    decreases s.len() + 1 - i,
{
    if i < 0 || i > s.len() || i + p.len() > s.len() {
        None
    } else if matches_at(s, p, i) {
        Some(i as nat)
    } else {
        find_from(s, p, i + 1)
    }
}

/// Index of the first occurrence of `p` in `s`.
pub open spec fn find_str(s: Seq<char>, p: Seq<char>) -> Option<nat> {
    find_from(s, p, 0)
}

pub fn find_str_exec(s: &Vec<char>, p: &Vec<char>) -> (r: Option<usize>)
    ensures
        match r {
            Some(i) => find_str(s@, p@) == Some(i as nat) && i + p@.len() <= s@.len(),
            None => find_str(s@, p@) is None,
        },
{
    if p.len() > s.len() {
        return None;
    }
    if p.len() == 0 {
        assert(s@.subrange(0, 0) =~= p@);
        return Some(0);
    }
    let mut i: usize = 0;
    while i <= s.len() - p.len()
        invariant
            1 <= p@.len() <= s@.len(),
            i <= s@.len() - p@.len() + 1,
            find_str(s@, p@) == find_from(s@, p@, i as int),
        decreases s.len() - i,
    {
        if matches_at_exec(s, p, i) {
            return Some(i);
        }
        i = i + 1;
    }
    None
}

/// Index of the last occurrence of `p` in `s` starting before `i` (`str::rfind`).
pub open spec fn rfind_before(s: Seq<char>, p: Seq<char>, i: int) -> Option<nat>
    decreases i,
{
    if i <= 0 {
        None
    } else if i - 1 + p.len() <= s.len() && matches_at(s, p, i - 1) {
        Some((i - 1) as nat)
    } else {
        rfind_before(s, p, i - 1)
    }
}

/// Index of the last occurrence of `p` in `s`.
pub open spec fn rfind_str(s: Seq<char>, p: Seq<char>) -> Option<nat> {
    rfind_before(s, p, s.len() as int + 1)
}

pub fn rfind_str_exec(s: &Vec<char>, p: &Vec<char>) -> (r: Option<usize>)
    ensures
        match r {
            Some(i) => rfind_str(s@, p@) == Some(i as nat) && i + p@.len() <= s@.len(),
            None => rfind_str(s@, p@) is None,
        },
{
    if p.len() == 0 {
        assert(s@.subrange(s@.len() as int, s@.len() as int) =~= p@);
        return Some(s.len());
    }
    let mut i: usize = s.len();
    while i > 0
        invariant
            p@.len() >= 1,
            i <= s@.len(),
            rfind_str(s@, p@) == rfind_before(s@, p@, i as int),
        decreases i,
    {
        if p.len() <= s.len() - (i - 1) && matches_at_exec(s, p, i - 1) {
            return Some(i - 1);
        }
        i = i - 1;
    }
    None
}

/// `str::trim_start_matches` with a character.
pub open spec fn trim_start_char(s: Seq<char>, c: char) -> Seq<char>
    decreases s.len(),
{
    if s.len() > 0 && s[0] == c {
        trim_start_char(s.drop_first(), c)
    } else {
        s
    }
}

pub fn trim_start_char_exec(s: &Vec<char>, c: char) -> (r: Vec<char>)
    ensures
        r@ == trim_start_char(s@, c),
{
    let mut i: usize = 0;
    assert(s@.skip(0) =~= s@);
    while i < s.len() && s[i] == c
        invariant
            i <= s@.len(),
            trim_start_char(s@, c) == trim_start_char(s@.skip(i as int), c),
        decreases s.len() - i,
    {
        assert(s@.skip(i as int).drop_first() =~= s@.skip(i + 1));
        i = i + 1;
    }
    let r = slice_chars(s, i, s.len());
    assert(r@ =~= s@.skip(i as int));
    r
}

} // verus!

verus! {

/// `str::trim_end_matches` with a string pattern.
pub fn trim_end_matches_exec(s: &Vec<char>, p: &str) -> (r: Vec<char>)
    ensures
        r@ == trim_end_matches(s@, p@),
{
    let pv = chars_of(p);
    if pv.len() == 0 {
        return slice_chars(s, 0, s.len());
    }
    let mut n: usize = s.len();
    assert(s@.take(n as int) =~= s@);
    while n >= pv.len() && matches_at_exec(s, &pv, n - pv.len())
        invariant
            pv@ == p@,
            pv@.len() > 0,
            n <= s@.len(),
            trim_end_matches(s@, p@) == trim_end_matches(s@.take(n as int), p@),
        decreases n,
    {
        let ghost t = s@.take(n as int);
        assert(t.subrange(t.len() - pv@.len(), t.len() as int) =~= s@.subrange(n - pv@.len(), n as int));
        assert(t.take(t.len() - pv@.len()) =~= s@.take(n - pv@.len()));
        n = n - pv.len();
    }
    proof {
        let t = s@.take(n as int);
        if n >= pv@.len() {
            assert(t.subrange(t.len() - pv@.len(), t.len() as int) =~= s@.subrange(n - pv@.len(), n as int));
        }
    }
    slice_chars(s, 0, n)
}

/// Index of the first line that starts with `p`.
pub open spec fn first_starting(ls: Seq<Seq<char>>, p: Seq<char>) -> Option<nat>
    decreases ls.len(),
{
    if ls.len() == 0 {
        None
    } else if starts_with(ls[0], p) {
        Some(0)
    } else {
        match first_starting(ls.drop_first(), p) {
            Some(i) => Some(i + 1),
            None => None,
        }
    }
}

pub fn first_starting_exec(ls: &Vec<Vec<char>>, p: &str) -> (r: Option<usize>)
    ensures
        match r {
            Some(i) => first_starting(vviews(ls@), p@) == Some(i as nat) && i < ls@.len() && starts_with(ls@[i as int]@, p@),
            None => first_starting(vviews(ls@), p@) is None,
        },
{
    let mut i: usize = 0;
    while i < ls.len()
        invariant
            i <= ls@.len(),
            forall|j: int| 0 <= j < i ==> !starts_with(#[trigger] vviews(ls@)[j], p@),
        decreases ls.len() - i,
    {
        if starts_with_str(&ls[i], p) {
            proof {
                lemma_first_starting(vviews(ls@), p@, i as int);
            }
            return Some(i);
        }
        i = i + 1;
    }
    proof {
        lemma_first_starting(vviews(ls@), p@, ls@.len() as int);
    }
    None
}

proof fn lemma_first_starting(ls: Seq<Seq<char>>, p: Seq<char>, i: int)
    requires
        0 <= i <= ls.len(),
        forall|j: int| 0 <= j < i ==> !starts_with(#[trigger] ls[j], p),
    ensures
        i < ls.len() && starts_with(ls[i], p) ==> first_starting(ls, p) == Some(i as nat),
        i == ls.len() ==> first_starting(ls, p) is None,
    decreases i,
{
    if i > 0 {
        assert forall|j: int| 0 <= j < i - 1 implies !starts_with(#[trigger] ls.drop_first()[j], p) by {
            assert(ls.drop_first()[j] == ls[j + 1]);
        }
        lemma_first_starting(ls.drop_first(), p, i - 1);
        if i < ls.len() {
            assert(ls.drop_first()[i - 1] == ls[i]);
        }
        assert(!starts_with(ls[0], p));
    }
}

} // verus!

verus! {

pub fn trim_start_exec(s: &Vec<char>) -> (r: Vec<char>)
    ensures
        r@ == trim_start(s@),
{
    let mut i: usize = 0;
    assert(s@.skip(0) =~= s@);
    while i < s.len() && is_ws_char(s[i])
        invariant
            i <= s@.len(),
            trim_start(s@) == trim_start(s@.skip(i as int)),
        decreases s.len() - i,
    {
        assert(s@.skip(i as int).drop_first() =~= s@.skip(i + 1));
        i = i + 1;
    }
    let r = slice_chars(s, i, s.len());
    assert(r@ =~= s@.skip(i as int));
    r
}

pub fn trim_end_exec(s: &Vec<char>) -> (r: Vec<char>)
    ensures
        r@ == trim_end(s@),
{
    let mut j: usize = s.len();
    assert(s@.take(j as int) =~= s@);
    while j > 0 && is_ws_char(s[j - 1])
        invariant
            j <= s@.len(),
            trim_end(s@) == trim_end(s@.take(j as int)),
        decreases j,
    {
        assert(s@.take(j as int).drop_last() =~= s@.take(j - 1));
        j = j - 1;
    }
    let r = slice_chars(s, 0, j);
    assert(r@ =~= s@.take(j as int));
    r
}


/// `str::trim_start_matches` with a string pattern: strips repeated prefixes `p`.
pub open spec fn trim_start_matches(s: Seq<char>, p: Seq<char>) -> Seq<char>
    decreases s.len(),
{
    if p.len() > 0 && starts_with(s, p) {
        trim_start_matches(s.skip(p.len() as int), p)
    } else {
        s
    }
}

pub fn trim_start_matches_exec(s: &Vec<char>, p: &str) -> (r: Vec<char>)
    ensures
        r@ == trim_start_matches(s@, p@),
{
    let pv = chars_of(p);
    if pv.len() == 0 {
        let r = slice_chars(s, 0, s.len());
        assert(r@ =~= s@);
        return r;
    }
    let mut i: usize = 0;
    assert(s@.skip(0) =~= s@);
    while i <= s.len() && pv.len() <= s.len() - i && matches_at_exec(s, &pv, i)
        invariant
            pv@ == p@,
            pv@.len() > 0,
            i <= s@.len(),
            trim_start_matches(s@, p@) == trim_start_matches(s@.skip(i as int), p@),
        decreases s.len() - i,
    {
        let ghost t = s@.skip(i as int);
        assert(t.subrange(0, pv@.len() as int) =~= s@.subrange(i as int, i + pv@.len()));
        assert(t.skip(pv@.len() as int) =~= s@.skip(i + pv@.len()));
        i = i + pv.len();
    }
    proof {
        let t = s@.skip(i as int);
        if pv@.len() <= t.len() {
            assert(t.subrange(0, pv@.len() as int) =~= s@.subrange(i as int, i + pv@.len()));
        }
    }
    let r = slice_chars(s, i, s.len());
    assert(r@ =~= s@.skip(i as int));
    r
}

} // verus!
