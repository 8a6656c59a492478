//! Shared types, input validation, caches and formatting used by the commands.

use vstd::prelude::*;
use vstd::string::*;
use vstd::utf8::encode_utf8;
use crate::boot::{side_of, BootInfo, BootValidation, DiskSide};
use crate::config::AppConfig;
use crate::text::{
    join, join_chars,
    chars_of, dec, eq_str, is_digit, lines, push_all, push_dec, push_str, split_lines,
    string_of, trim, trim_chars, vviews, parse_uint, parse_uint_chars,
};

verus! {

// ─── Data types ───────────────────────────────────────────────

#[derive(Clone, Debug)]
pub struct DiskInfo {
    pub name: String,
    pub model: String,
    pub role: String,
    pub uuid: String,
    pub size: String,
    pub mountpoint: String,
    pub fstype: String,
    pub used: String,
    pub avail: String,
    pub use_percent: String,
}

#[derive(Clone, Debug)]
pub struct Snapshot {
    pub id: u32,
    pub snap_type: SnapType,
    pub pre_id: Option<u32>,
    pub date: String,
    pub user: String,
    pub cleanup: String,
    pub description: String,
}

/// Snapper snapshot type.
#[derive(Debug, Clone, Copy, PartialEq, Eq, Structural)]
pub enum SnapType {
    Single,
    Pre,
    Post,
}

impl SnapType {
    /// Parse a snapper type column ("single", "pre", "post"), ignoring surrounding whitespace.
    pub fn parse(s: &str) -> (r: Option<SnapType>)
        ensures
            r == (if trim(s@) == "single"@ {
                Some(SnapType::Single)
            } else if trim(s@) == "pre"@ {
                Some(SnapType::Pre)
            } else if trim(s@) == "post"@ {
                Some(SnapType::Post)
            } else {
                None
            }),
    {
        let v = chars_of(s);
        let t = trim_chars(&v);
        if eq_str(&t, "single") {
            Some(SnapType::Single)
        } else if eq_str(&t, "pre") {
            Some(SnapType::Pre)
        } else if eq_str(&t, "post") {
            Some(SnapType::Post)
        } else {
            None
        }
    }
}

#[derive(Clone, Debug)]
pub struct SyncStatus {
    pub last_sync: Option<String>,
    pub last_duration: Option<String>,
    pub timer_active: bool,
    pub timer_next: Option<String>,
    pub timer_last_trigger: Option<String>,
    pub direction: String,
    pub log_tail: Vec<String>,
    pub sync_running: bool,
}

#[derive(Clone, Debug)]
pub struct SystemStatus {
    pub hostname: String,
    pub kernel: String,
    pub uptime: String,
    pub boot_disk: String,
    pub backup_disk: String,
    pub boot_uuid: String,
    pub disks: Vec<DiskInfo>,
    pub snapper_configs: Vec<String>,
    pub snapshot_counts: Vec<SnapshotCount>,
    pub sync_status: SyncStatus,
    pub boot_info: Option<BootInfo>,
}

#[derive(Clone, Debug)]
pub struct SnapshotCount {
    pub config: String,
    pub count: u32,
}

#[derive(Clone, Debug)]
pub struct TimerConfig {
    pub enabled: bool,
    pub calendar: String,
    pub randomized_delay: String,
    pub last_trigger: Option<String>,
    pub service_result: Option<String>,
}

#[derive(Clone, Debug)]
pub struct CommandResult {
    pub success: bool,
    pub stdout: String,
    pub stderr: String,
    pub exit_code: i32,
}

#[derive(Clone, Debug)]
pub struct SubvolumeInfo {
    pub id: String,
    pub gen: String,
    pub top_level: String,
    pub path: String,
}

#[derive(Clone, Debug)]
pub struct BackupCheck {
    pub name: String,
    pub ok: bool,
    pub detail: String,
}

#[derive(Clone, Debug)]
pub struct BackupVerifyResult {
    pub backup_dev: String,
    pub overall_ok: bool,
    pub checks: Vec<BackupCheck>,
}

/// A single privileged file operation.
#[derive(Debug)]
pub enum FileOp {
    Write { path: String, content: String },
    Copy { src: String, dst: String },
    Delete { path: String },
    Mkdir { path: String },
    Chmod { path: String, mode: u32 },
}

/// Result of the overall health check.
#[derive(Clone, Debug)]
pub struct HealthCheck {
    pub primary_present: bool,
    pub backup_present: bool,
    pub snapper_installed: bool,
    pub rsync_installed: bool,
    pub btrfs_tools: bool,
    pub boot_disk: String,
    pub issues: Vec<String>,
    pub boot_validation: Option<BootValidation>,
}

// ─── TTL cache ────────────────────────────────────────────────

/// A value with the time (in milliseconds) it was stored; fresh while younger
/// than a time-to-live. The caller supplies the current time.
pub struct TtlCache<T> {
    inner: Option<(T, u64)>,
}

/// Milliseconds elapsed from `stored` to `now` (zero if the clock went back).
pub open spec fn elapsed(stored: u64, now: u64) -> nat {
    if now >= stored {
        (now - stored) as nat
    } else {
        0
    }
}

impl<T: Clone> TtlCache<T> {
    /// The stored value and its timestamp.
    pub closed spec fn entry(&self) -> Option<(T, u64)> {
        self.inner
    }

    pub fn new() -> (r: TtlCache<T>)
        ensures
            r.entry() is None,
    {
        TtlCache { inner: None }
    }

    /// A clone of the cached value if it is younger than `ttl_ms`, otherwise `None`.
    pub fn get(&self, ttl_ms: u64, now_ms: u64) -> (r: Option<T>)
        ensures
            r is Some <==> self.serves(ttl_ms, now_ms),
            r matches Some(x) ==> (self.entry() matches Some((v, ts)) && cloned::<T>(v, x)),
    {
        match &self.inner {
            Some((v, ts)) => {
                let age = if now_ms >= *ts {
                    now_ms - *ts
                } else {
                    0
                };
                if age < ttl_ms {
                    Some(v.clone())
                } else {
                    None
                }
            },
            None => None,
        }
    }

    /// Store a new value with the current time.
    pub fn set(&mut self, value: T, now_ms: u64)
        ensures
            final(self).entry() == Some((value, now_ms)),
    {
        self.inner = Some((value, now_ms));
    }

    /// Clear the cached value.
    pub fn clear(&mut self)
        ensures
            final(self).entry() is None,
    {
        self.inner = None;
    }
}

/// The caches of boot information and btrfs usage, and the loaded
/// configuration (absent: the next read loads it from disk again).
pub struct Caches {
    pub boot_info: TtlCache<BootInfo>,
    pub boot_validation: TtlCache<BootValidation>,
    pub btrfs_usage: TtlCache<String>,
    pub config: Option<AppConfig>,
}

/// Drop every cached value, the loaded configuration included.
pub fn invalidate_caches(caches: &mut Caches)
    ensures
        final(caches).boot_info.entry() is None,
        final(caches).boot_validation.entry() is None,
        final(caches).btrfs_usage.entry() is None,
        final(caches).config is None,
{
    caches.boot_info.clear();
    caches.boot_validation.clear();
    caches.btrfs_usage.clear();
    caches.config = None;
}

// ─── Validation ───────────────────────────────────────────────

/// Maximum length in bytes of a snapper config name.
pub const MAX_CONFIG_NAME_LEN: usize = 64;
/// Maximum length in bytes of a snapshot description.
pub const MAX_DESCRIPTION_LEN: usize = 256;
/// Maximum length in bytes of a device path (exclusive).
pub const MAX_DEVICE_PATH_LEN: usize = 128;
/// Maximum number of exclude rules.
pub const MAX_EXCLUDE_ENTRIES: usize = 10000;
/// Maximum length in bytes of one exclude rule.
pub const MAX_EXCLUDE_RULE_LEN: usize = 512;

/// Characters that could break out of a shell argument.
pub open spec fn is_shell_dangerous(c: char) -> bool {
    c == '`' || c == '$' || c == '\\' || c == '|' || c == ';' || c == '&' || c == '<' || c == '>'
        || c == '\'' || c == '"' || c == '\n' || c == '\r' || c == '\0' || c == '(' || c == ')'
}

pub fn shell_dangerous(c: char) -> (r: bool)
    ensures
        r == is_shell_dangerous(c),
{
    c == '`' || c == '$' || c == '\\' || c == '|' || c == ';' || c == '&' || c == '<' || c == '>'
        || c == '\'' || c == '"' || c == '\n' || c == '\r' || c == '\0' || c == '(' || c == ')'
}

/// Some character of `s` is shell-dangerous.
pub open spec fn has_dangerous(s: Seq<char>) -> bool {
    exists|k: int| 0 <= k < s.len() && is_shell_dangerous(#[trigger] s[k])
}

fn has_dangerous_chars(v: &Vec<char>) -> (r: bool)
    ensures
        r == has_dangerous(v@),
{
    let mut i: usize = 0;
    while i < v.len()
        invariant
            i <= v.len(),
            forall|k: int| 0 <= k < i ==> !is_shell_dangerous(#[trigger] v@[k]),
        decreases v.len() - i,
    {
        if shell_dangerous(v[i]) {
            return true;
        }
        i = i + 1;
    }
    false
}

pub open spec fn is_ascii_alnum(c: char) -> bool {
    ('a' <= c <= 'z') || ('A' <= c <= 'Z') || ('0' <= c <= '9')
}

pub open spec fn is_config_char(c: char) -> bool {
    is_ascii_alnum(c) || c == '-' || c == '_'
}

/// The error `validate_config` reports for a snapper config name, if any.
pub open spec fn config_name_error(s: &str) -> Option<Seq<char>> {
    if s@.len() == 0 || s.len() > 64 {
        Some("Ungültiger Config-Name: leer oder zu lang"@)
    } else if exists|k: int| 0 <= k < s@.len() && !is_config_char(#[trigger] s@[k]) {
        Some("Ungültiger Config-Name: '"@ + s@ + "' — nur a-z, 0-9, -, _ erlaubt"@)
    } else {
        None
    }
}

pub open spec fn result_is(r: Result<(), String>, e: Option<Seq<char>>) -> bool {
    match (r, e) {
        (Ok(()), None) => true,
        (Err(m), Some(x)) => m@ == x,
        _ => false,
    }
}

fn error_with(prefix: &str, middle: &str, suffix: &str) -> (r: String)
    ensures
        r@ == prefix@ + middle@ + suffix@,
{
    let mut v: Vec<char> = Vec::new();
    push_str(&mut v, prefix);
    push_str(&mut v, middle);
    push_str(&mut v, suffix);
    string_of(&v)
}

/// Check a snapper config name: 1–64 bytes of ASCII letters, digits, '-' and '_'.
pub fn validate_config(config: &str) -> (r: Result<(), String>)
    ensures
        result_is(r, config_name_error(config)),
{
    if config.is_empty() || config.len() > MAX_CONFIG_NAME_LEN {
        return Err(String::from_str("Ungültiger Config-Name: leer oder zu lang"));
    }
    let v = chars_of(config);
    let mut i: usize = 0;
    while i < v.len()
        invariant
            i <= v.len(),
            v@ == config@,
            config@.len() > 0,
            config.len() <= 64,
            forall|k: int| 0 <= k < i ==> is_config_char(#[trigger] config@[k]),
        decreases v.len() - i,
    {
        let c = v[i];
        let ok = ('a' <= c && c <= 'z') || ('A' <= c && c <= 'Z') || ('0' <= c && c <= '9') || c
            == '-' || c == '_';
        if !ok {
            assert(!is_config_char(config@[i as int]));
            return Err(error_with("Ungültiger Config-Name: '", config, "' — nur a-z, 0-9, -, _ erlaubt"));
        }
        i = i + 1;
    }
    Ok(())
}

/// The error `validate_description` reports, if any.
pub open spec fn description_error(s: &str) -> Option<Seq<char>> {
    if s.len() > 256 {
        Some("Beschreibung zu lang (max 256 Zeichen)"@)
    } else if has_dangerous(s@) {
        Some("Beschreibung enthält ungültige Zeichen"@)
    } else {
        None
    }
}

/// Check a snapshot description: at most 256 bytes, no shell-dangerous characters.
pub fn validate_description(desc: &str) -> (r: Result<(), String>)
    ensures
        result_is(r, description_error(desc)),
{
    if desc.len() > MAX_DESCRIPTION_LEN {
        return Err(String::from_str("Beschreibung zu lang (max 256 Zeichen)"));
    }
    let v = chars_of(desc);
    if has_dangerous_chars(&v) {
        return Err(String::from_str("Beschreibung enthält ungültige Zeichen"));
    }
    Ok(())
}

/// The error `validate_safe_path` reports, if any.
pub open spec fn safe_path_error(value: Seq<char>, label: Seq<char>) -> Option<Seq<char>> {
    if value.len() == 0 {
        Some(label + ": darf nicht leer sein"@)
    } else if has_dangerous(value) {
        Some(label + ": enthält ungültige Zeichen (Shell-Injection verhindert): '"@ + value + "'"@)
    } else {
        None
    }
}

/// Check that a value is non-empty and free of shell-dangerous characters.
pub fn validate_safe_path(value: &str, label: &str) -> (r: Result<(), String>)
    ensures
        result_is(r, safe_path_error(value@, label@)),
{
    let v = chars_of(value);
    if v.len() == 0 {
        let mut m = chars_of(label);
        push_str(&mut m, ": darf nicht leer sein");
        return Err(string_of(&m));
    }
    if has_dangerous_chars(&v) {
        let mut m = chars_of(label);
        push_str(&mut m, ": enthält ungültige Zeichen (Shell-Injection verhindert): '");
        push_all(&mut m, &v);
        push_str(&mut m, "'");
        return Err(string_of(&m));
    }
    Ok(())
}

/// A plausible device path: "/dev/...", under 128 bytes, no shell-dangerous characters.
pub open spec fn is_device_path(dev: &str) -> bool {
    dev@.len() > 0 && crate::text::starts_with(dev@, "/dev/"@) && dev.len() < 128
        && !has_dangerous(dev@)
}

pub fn validate_device_path(dev: &str) -> (r: bool)
    ensures
        r == is_device_path(dev),
{
    let v = chars_of(dev);
    v.len() > 0 && crate::text::starts_with_str(&v, "/dev/") && dev.len() < MAX_DEVICE_PATH_LEN
        && !has_dangerous_chars(&v)
}

/// The error `validate_timer_value` reports, if any: non-empty, at most 128 bytes,
/// none of the characters that could break out of a systemd unit line.
pub open spec fn timer_value_error(val: &str) -> Option<Seq<char>> {
    if val@.len() == 0 || val.len() > 128 {
        Some("Timer-Wert ungültig: leer oder zu lang"@)
    } else if exists|k: int|
        0 <= k < val@.len() && is_timer_forbidden(#[trigger] val@[k]) {
        Some("Timer-Wert enthält ungültige Zeichen"@)
    } else {
        None
    }
}

pub open spec fn is_timer_forbidden(c: char) -> bool {
    c == '`' || c == '$' || c == '\\' || c == '|' || c == ';' || c == '&' || c == '<' || c == '>'
        || c == '\n' || c == '\r' || c == '\0' || c == '\'' || c == '"'
}

/// Check a systemd timer value (calendar spec or delay).
pub fn validate_timer_value(val: &str) -> (r: Result<(), String>)
    ensures
        result_is(r, timer_value_error(val)),
{
    if val.is_empty() || val.len() > 128 {
        return Err(String::from_str("Timer-Wert ungültig: leer oder zu lang"));
    }
    let v = chars_of(val);
    let mut i: usize = 0;
    while i < v.len()
        invariant
            i <= v.len(),
            v@ == val@,
            val@.len() > 0,
            val.len() <= 128,
            forall|k: int| 0 <= k < i ==> !is_timer_forbidden(#[trigger] val@[k]),
        decreases v.len() - i,
    {
        let c = v[i];
        if c == '`' || c == '$' || c == '\\' || c == '|' || c == ';' || c == '&' || c == '<' || c
            == '>' || c == '\n' || c == '\r' || c == '\0' || c == '\'' || c == '"' {
            assert(is_timer_forbidden(val@[i as int]));
            return Err(String::from_str("Timer-Wert enthält ungültige Zeichen"));
        }
        i = i + 1;
    }
    Ok(())
}

} // verus!

verus! {

// ─── Exclude lists ────────────────────────────────────────────

/// An exclude rule that is ignored: empty or a comment once trimmed.
pub open spec fn is_skipped_rule(rule: Seq<char>) -> bool {
    rule.len() == 0 || rule[0] == '#'
}

/// The error for the rule at `idx`, if any.
pub open spec fn rule_error(raw: Seq<char>, label: Seq<char>, idx: nat) -> Option<Seq<char>> {
    let rule = trim(raw);
    let bytes = encode_utf8(rule).len() as usize;
    if is_skipped_rule(rule) {
        None
    } else if bytes > 512 {
        Some(label + "["@ + dec(idx) + "]: zu lang ("@ + dec(bytes as nat) + " Zeichen, max 512)"@)
    } else if has_dangerous(rule) {
        Some(label + "["@ + dec(idx) + "]: enthält ungültige Zeichen: '"@ + rule + "'"@)
    } else {
        None
    }
}

/// The first rule error from position `i` on.
pub open spec fn first_rule_error(xs: Seq<Seq<char>>, label: Seq<char>, i: nat) -> Option<Seq<char>>
    decreases xs.len() - i,
{
    if i >= xs.len() {
        None
    } else {
        match rule_error(xs[i as int], label, i) {
            Some(e) => Some(e),
            None => first_rule_error(xs, label, i + 1),
        }
    }
}

pub open spec fn string_views(v: Seq<String>) -> Seq<Seq<char>> {
    v.map_values(|s: String| s@)
}

/// The error `validate_exclude_list` reports, if any.
pub open spec fn exclude_list_error(xs: Seq<Seq<char>>, label: Seq<char>) -> Option<Seq<char>> {
    if xs.len() > 10000 {
        Some(label + ": zu viele Einträge ("@ + dec(xs.len()) + ") — max 10000"@)
    } else {
        first_rule_error(xs, label, 0)
    }
}

fn rule_error_exec(raw: &String, label: &str, idx: usize) -> (r: Option<String>)
    ensures
        match (r, rule_error(raw@, label@, idx as nat)) {
            (Some(a), Some(b)) => a@ == b,
            (None, None) => true,
            _ => false,
        },
{
    let v = chars_of(raw.as_str());
    let rule = trim_chars(&v);
    if rule.len() == 0 || rule[0] == '#' {
        return None;
    }
    let rs = string_of(&rule);
    let bytes = rs.as_str().len();
    if bytes > MAX_EXCLUDE_RULE_LEN {
        let mut m = chars_of(label);
        push_str(&mut m, "[");
        push_dec(&mut m, idx as u64);
        push_str(&mut m, "]: zu lang (");
        push_dec(&mut m, bytes as u64);
        push_str(&mut m, " Zeichen, max 512)");
        return Some(string_of(&m));
    }
    if has_dangerous_chars(&rule) {
        let mut m = chars_of(label);
        push_str(&mut m, "[");
        push_dec(&mut m, idx as u64);
        push_str(&mut m, "]: enthält ungültige Zeichen: '");
        push_all(&mut m, &rule);
        push_str(&mut m, "'");
        return Some(string_of(&m));
    }
    None
}

/// Check an exclude list: at most 10000 rules, each (trimmed, non-comment)
/// rule at most 512 bytes and free of shell-dangerous characters.
pub fn validate_exclude_list(excludes: &[String], label: &str) -> (r: Result<(), String>)
    ensures
        result_is(r, exclude_list_error(string_views(excludes@), label@)),
{
    let ghost xs = string_views(excludes@);
    if excludes.len() > MAX_EXCLUDE_ENTRIES {
        let mut m = chars_of(label);
        push_str(&mut m, ": zu viele Einträge (");
        push_dec(&mut m, excludes.len() as u64);
        push_str(&mut m, ") — max 10000");
        return Err(string_of(&m));
    }
    let mut i: usize = 0;
    while i < excludes.len()
        invariant
            i <= excludes@.len(),
            xs == string_views(excludes@),
            xs.len() <= 10000,
            first_rule_error(xs, label@, 0) == first_rule_error(xs, label@, i as nat),
        decreases excludes.len() - i,
    {
        assert(xs[i as int] == excludes@[i as int]@);
        match rule_error_exec(&excludes[i], label, i) {
            Some(e) => {
                return Err(e);
            },
            None => {},
        }
        i = i + 1;
    }
    Ok(())
}

/// Excludes as rsync receives them: trimmed, without empty and comment
/// entries, first occurrences only, in order.
pub open spec fn sanitized(xs: Seq<Seq<char>>) -> Seq<Seq<char>>
    decreases xs.len(),
{
    if xs.len() == 0 {
        seq![]
    } else {
        let prev = sanitized(xs.drop_last());
        let c = trim(xs.last());
        if is_skipped_rule(c) || prev.contains(c) {
            prev
        } else {
            prev.push(c)
        }
    }
}

fn contains_string(v: &Vec<String>, s: &String) -> (r: bool)
    ensures
        r == string_views(v@).contains(s@),
{
    let mut i: usize = 0;
    while i < v.len()
        invariant
            i <= v.len(),
            forall|k: int| 0 <= k < i ==> #[trigger] string_views(v@)[k] != s@,
        decreases v.len() - i,
    {
        if v[i].eq(s) {
            assert(string_views(v@)[i as int] == s@);
            return true;
        }
        i = i + 1;
    }
    false
}

/// Normalise excludes before passing them to rsync.
pub fn sanitize_excludes(excludes: &[String]) -> (r: Vec<String>)
    ensures
        string_views(r@) == sanitized(string_views(excludes@)),
{
    let ghost xs = string_views(excludes@);
    let mut out: Vec<String> = Vec::new();
    let mut i: usize = 0;
    while i < excludes.len()
        invariant
            i <= excludes@.len(),
            xs == string_views(excludes@),
            string_views(out@) == sanitized(xs.take(i as int)),
        decreases excludes.len() - i,
    {
        let ghost pre = xs.take(i + 1);
        assert(pre.drop_last() =~= xs.take(i as int));
        assert(pre.last() == excludes@[i as int]@);
        let v = chars_of(excludes[i].as_str());
        let cleaned = trim_chars(&v);
        if !(cleaned.len() == 0 || cleaned[0] == '#') {
            let candidate = string_of(&cleaned);
            if !contains_string(&out, &candidate) {
                out.push(candidate);
                assert(string_views(out@) =~= sanitized(xs.take(i as int)).push(cleaned@));
            }
        }
        i = i + 1;
    }
    assert(xs.take(excludes@.len() as int) =~= xs);
    out
}

// ─── Sync configuration ───────────────────────────────────────

pub open spec fn is_uuid_char(c: char) -> bool {
    ('0' <= c <= '9') || ('a' <= c <= 'f') || ('A' <= c <= 'F') || c == '-'
}

/// The error for a UUID setting, if any: non-empty and not hex digits and '-'.
pub open spec fn uuid_error(uuid: Seq<char>, label: Seq<char>) -> Option<Seq<char>> {
    if uuid.len() > 0 && exists|k: int| 0 <= k < uuid.len() && !is_uuid_char(#[trigger] uuid[k]) {
        Some(label + ": ungültiges UUID-Format '"@ + uuid + "'"@)
    } else {
        None
    }
}

fn uuid_error_exec(uuid: &String, label: &str) -> (r: Result<(), String>)
    ensures
        result_is(r, uuid_error(uuid@, label@)),
{
    let v = chars_of(uuid.as_str());
    if v.len() == 0 {
        return Ok(());
    }
    let mut i: usize = 0;
    while i < v.len()
        invariant
            i <= v.len(),
            v@ == uuid@,
            forall|k: int| 0 <= k < i ==> is_uuid_char(#[trigger] uuid@[k]),
        decreases v.len() - i,
    {
        let c = v[i];
        if !(('0' <= c && c <= '9') || ('a' <= c && c <= 'f') || ('A' <= c && c <= 'F') || c
            == '-') {
            assert(!is_uuid_char(uuid@[i as int]));
            let mut m = chars_of(label);
            push_str(&mut m, ": ungültiges UUID-Format '");
            push_all(&mut m, &v);
            push_str(&mut m, "'");
            return Err(string_of(&m));
        }
        i = i + 1;
    }
    Ok(())
}

/// The first error among the subvolume settings from position `i` on.
pub open spec fn subvolume_error(c: AppConfig, i: nat) -> Option<Seq<char>>
    decreases c.sync.subvolumes@.len() - i,
{
    if i >= c.sync.subvolumes@.len() {
        None
    } else {
        let sv = c.sync.subvolumes@[i as int];
        match safe_path_error(sv.subvol@, "subvol '"@ + sv.name@ + "'"@) {
            Some(e) => Some(e),
            None => match safe_path_error(sv.source@, "source '"@ + sv.name@ + "'"@) {
                Some(e) => Some(e),
                None => match safe_path_error(sv.name@, "name '"@ + sv.name@ + "'"@) {
                    Some(e) => Some(e),
                    None => subvolume_error(c, i + 1),
                },
            },
        }
    }
}

/// The first error `validate_sync_config` reports, in the order it checks.
pub open spec fn sync_config_error(c: AppConfig) -> Option<Seq<char>> {
    if safe_path_error(c.sync.mount_base@, "mount_base"@) is Some {
        safe_path_error(c.sync.mount_base@, "mount_base"@)
    } else if safe_path_error(c.sync.mount_options@, "mount_options"@) is Some {
        safe_path_error(c.sync.mount_options@, "mount_options"@)
    } else if subvolume_error(c, 0) is Some {
        subvolume_error(c, 0)
    } else if uuid_error(c.disks.primary_uuid@, "primary_uuid"@) is Some {
        uuid_error(c.disks.primary_uuid@, "primary_uuid"@)
    } else if uuid_error(c.disks.backup_uuid@, "backup_uuid"@) is Some {
        uuid_error(c.disks.backup_uuid@, "backup_uuid"@)
    } else if c.disks.primary_uuid@.len() > 0 && c.disks.backup_uuid@.len() > 0
        && c.disks.primary_uuid@ == c.disks.backup_uuid@ {
        Some(
            "Primary und Backup UUID sind identisch! Bitte unter Einstellungen zwei verschiedene Disks wählen."@,
        )
    } else if exclude_list_error(string_views(c.sync.system_excludes@), "system_excludes"@) is Some {
        exclude_list_error(string_views(c.sync.system_excludes@), "system_excludes"@)
    } else if exclude_list_error(string_views(c.sync.home_excludes@), "home_excludes"@) is Some {
        exclude_list_error(string_views(c.sync.home_excludes@), "home_excludes"@)
    } else if exclude_list_error(string_views(c.sync.home_extra_excludes@), "home_extra_excludes"@) is Some {
        exclude_list_error(string_views(c.sync.home_extra_excludes@), "home_extra_excludes"@)
    } else {
        exclude_list_error(string_views(c.boot.excludes@), "boot.excludes"@)
    }
}

fn labelled(prefix: &str, name: &String) -> (r: String)
    ensures
        r@ == prefix@ + name@ + "'"@,
{
    let mut m = chars_of(prefix);
    let n = chars_of(name.as_str());
    push_all(&mut m, &n);
    push_str(&mut m, "'");
    string_of(&m)
}

/// Check every path, UUID and exclude list of the sync configuration.
pub fn validate_sync_config(c: &AppConfig) -> (r: Result<(), String>)
    ensures
        result_is(r, sync_config_error(*c)),
{
    validate_safe_path(c.sync.mount_base.as_str(), "mount_base")?;
    validate_safe_path(c.sync.mount_options.as_str(), "mount_options")?;
    let mut i: usize = 0;
    while i < c.sync.subvolumes.len()
        invariant
            i <= c.sync.subvolumes@.len(),
            subvolume_error(*c, 0) == subvolume_error(*c, i as nat),
            safe_path_error(c.sync.mount_base@, "mount_base"@) is None,
            safe_path_error(c.sync.mount_options@, "mount_options"@) is None,
        decreases c.sync.subvolumes.len() - i,
    {
        let sv = &c.sync.subvolumes[i];
        let l1 = labelled("subvol '", &sv.name);
        validate_safe_path(sv.subvol.as_str(), l1.as_str())?;
        let l2 = labelled("source '", &sv.name);
        validate_safe_path(sv.source.as_str(), l2.as_str())?;
        let l3 = labelled("name '", &sv.name);
        validate_safe_path(sv.name.as_str(), l3.as_str())?;
        i = i + 1;
    }
    uuid_error_exec(&c.disks.primary_uuid, "primary_uuid")?;
    uuid_error_exec(&c.disks.backup_uuid, "backup_uuid")?;
    if !c.disks.primary_uuid.as_str().is_empty() && !c.disks.backup_uuid.as_str().is_empty()
        && crate::boot::string_eq(&c.disks.primary_uuid, &c.disks.backup_uuid) {
        return Err(
            String::from_str(
                "Primary und Backup UUID sind identisch! Bitte unter Einstellungen zwei verschiedene Disks wählen.",
            ),
        );
    }
    validate_exclude_list(c.sync.system_excludes.as_slice(), "system_excludes")?;
    validate_exclude_list(c.sync.home_excludes.as_slice(), "home_excludes")?;
    validate_exclude_list(c.sync.home_extra_excludes.as_slice(), "home_extra_excludes")?;
    validate_exclude_list(c.boot.excludes.as_slice(), "boot.excludes")?;
    Ok(())
}

} // verus!

verus! {

// ─── Formatting ───────────────────────────────────────────────

/// "1h 2m 3s", "2m 3s" or "3s".
pub open spec fn duration_text(secs: nat) -> Seq<char> {
    if secs >= 3600 {
        dec(secs / 3600) + "h "@ + dec((secs % 3600) / 60) + "m "@ + dec(secs % 60) + "s"@
    } else if secs >= 60 {
        dec(secs / 60) + "m "@ + dec(secs % 60) + "s"@
    } else {
        dec(secs) + "s"@
    }
}

/// Human-readable duration of a number of seconds.
pub fn format_duration(secs: u64) -> (r: String)
    ensures
        r@ == duration_text(secs as nat),
{
    let mut v: Vec<char> = Vec::new();
    if secs >= 3600 {
        push_dec(&mut v, secs / 3600);
        push_str(&mut v, "h ");
        push_dec(&mut v, (secs % 3600) / 60);
        push_str(&mut v, "m ");
        push_dec(&mut v, secs % 60);
        push_str(&mut v, "s");
    } else if secs >= 60 {
        push_dec(&mut v, secs / 60);
        push_str(&mut v, "m ");
        push_dec(&mut v, secs % 60);
        push_str(&mut v, "s");
    } else {
        push_dec(&mut v, secs);
        push_str(&mut v, "s");
    }
    string_of(&v)
}

/// The label of the disk a UUID belongs to, or "Unknown (<uuid>)".
pub open spec fn disk_label_text(uuid: Seq<char>, c: AppConfig) -> Seq<char> {
    match side_of(uuid, c) {
        DiskSide::Primary => c.disks.primary_label@,
        DiskSide::Backup => c.disks.backup_label@,
        DiskSide::Unknown => "Unknown ("@ + uuid + ")"@,
    }
}

/// Human label of the disk with this UUID.
pub fn disk_label(uuid: &str, c: &AppConfig) -> (r: String)
    ensures
        r@ == disk_label_text(uuid@, *c),
{
    let side = DiskSide::from_uuid(uuid, c);
    match side {
        DiskSide::Unknown => {
            let mut v = chars_of("Unknown (");
            push_str(&mut v, uuid);
            push_str(&mut v, ")");
            string_of(&v)
        },
        _ => String::from_str(side.label(c)),
    }
}

/// Role of a partition in the backup setup.
pub open spec fn role_of(uuid: Seq<char>, mountpoint: Seq<char>, c: AppConfig) -> Seq<char> {
    match side_of(uuid, c) {
        DiskSide::Primary => "System Disk"@,
        DiskSide::Backup => "Backup Disk"@,
        DiskSide::Unknown => if mountpoint == "/boot"@ || mountpoint == "/boot/efi"@ {
            "Boot Partition"@
        } else {
            "Datenlaufwerk"@
        },
    }
}

/// Classify a partition by its role in the backup setup.
pub fn partition_role(uuid: &str, mountpoint: &str, c: &AppConfig) -> (r: &'static str)
    ensures
        r@ == role_of(uuid@, mountpoint@, *c),
{
    match DiskSide::from_uuid(uuid, c) {
        DiskSide::Primary => "System Disk",
        DiskSide::Backup => "Backup Disk",
        DiskSide::Unknown => {
            let m = chars_of(mountpoint);
            if eq_str(&m, "/boot") || eq_str(&m, "/boot/efi") {
                "Boot Partition"
            } else {
                "Datenlaufwerk"
            }
        },
    }
}

// ─── Snapper output ───────────────────────────────────────────

/// The trimmed, non-empty lines, in order.
pub open spec fn nonempty_trimmed(ls: Seq<Seq<char>>) -> Seq<Seq<char>>
    decreases ls.len(),
{
    if ls.len() == 0 {
        seq![]
    } else {
        let prev = nonempty_trimmed(ls.drop_last());
        let t = trim(ls.last());
        if t.len() == 0 {
            prev
        } else {
            prev.push(t)
        }
    }
}

/// Config names in the output of `snapper list-configs --columns config`:
/// the trimmed non-empty lines after the two header lines.
pub open spec fn snapper_config_names(out: Seq<char>) -> Seq<Seq<char>> {
    let ls = lines(out);
    if ls.len() <= 2 {
        seq![]
    } else {
        nonempty_trimmed(ls.skip(2))
    }
}

/// The snapper config names listed in `snapper list-configs` output.
pub fn get_snapper_configs(output: &str) -> (r: Vec<String>)
    ensures
        string_views(r@) == snapper_config_names(output@),
{
    let v = chars_of(output);
    let ls = split_lines(&v);
    let mut out: Vec<String> = Vec::new();
    if ls.len() <= 2 {
        return out;
    }
    let ghost rest = vviews(ls@).skip(2);
    let mut i: usize = 2;
    while i < ls.len()
        invariant
            2 <= i <= ls.len(),
            rest == vviews(ls@).skip(2),
            string_views(out@) == nonempty_trimmed(rest.take(i - 2)),
        decreases ls.len() - i,
    {
        let ghost pre = rest.take(i - 1);
        assert(pre.drop_last() =~= rest.take(i - 2));
        assert(pre.last() == ls@[i as int]@);
        let t = trim_chars(&ls[i]);
        if t.len() > 0 {
            out.push(string_of(&t));
            assert(string_views(out@) =~= nonempty_trimmed(rest.take(i - 2)).push(t@));
        }
        i = i + 1;
    }
    assert(rest.take(ls.len() - 2) =~= rest);
    out
}

/// A line of `snapper list --columns number` that counts as a snapshot:
/// a number other than the baseline "0".
pub open spec fn is_snapshot_line(l: Seq<char>) -> bool {
    let t = trim(l);
    t.len() > 0 && t != "0"@ && parse_uint(t, 4294967295) is Some
}

/// Number of snapshot lines among the first `n` lines.
pub open spec fn count_snapshot_lines(ls: Seq<Seq<char>>) -> nat
    decreases ls.len(),
{
    if ls.len() == 0 {
        0
    } else {
        count_snapshot_lines(ls.drop_last()) + if is_snapshot_line(ls.last()) {
            1nat
        } else {
            0nat
        }
    }
}

/// Number of snapshots in `snapper list --columns number` output (as `u32`).
pub fn get_snapshot_count(output: &str) -> (r: u32)
    ensures
        r == count_snapshot_lines(lines(output@)) as u32,
{
    let v = chars_of(output);
    let ls = split_lines(&v);
    let mut count: usize = 0;
    let mut i: usize = 0;
    while i < ls.len()
        invariant
            i <= ls.len(),
            count == count_snapshot_lines(vviews(ls@).take(i as int)),
            count <= i,
        decreases ls.len() - i,
    {
        let ghost pre = vviews(ls@).take(i + 1);
        assert(pre.drop_last() =~= vviews(ls@).take(i as int));
        assert(pre.last() == ls@[i as int]@);
        let t = trim_chars(&ls[i]);
        if t.len() > 0 && !eq_str(&t, "0") && parse_uint_chars(&t, 4294967295).is_some() {
            count = count + 1;
        }
        i = i + 1;
    }
    assert(vviews(ls@).take(ls.len() as int) =~= vviews(ls@));
    count as u32
}


// ─── Log files ────────────────────────────────────────────────

/// The last `n` lines (all of them when there are fewer).
pub open spec fn last_n(ls: Seq<Seq<char>>, n: nat) -> Seq<Seq<char>> {
    if ls.len() > n { ls.skip(ls.len() - n) } else { ls }
}

fn last_n_exec(ls: &Vec<Vec<char>>, n: usize) -> (r: Vec<Vec<char>>)
    ensures
        vviews(r@) == last_n(vviews(ls@), n as nat),
{
    let start: usize = if ls.len() > n { ls.len() - n } else { 0 };
    let mut r: Vec<Vec<char>> = Vec::new();
    let mut i: usize = start;
    while i < ls.len()
        invariant
            start <= i <= ls@.len(),
            start == (if ls@.len() > n { ls@.len() - n } else { 0 }),
            vviews(r@) == vviews(ls@).subrange(start as int, i as int),
        decreases ls.len() - i,
    {
        let ghost before = r@;
        r.push(ls[i].clone());
        assert(vviews(r@) =~= vviews(before).push(ls@[i as int]@));
        assert(vviews(ls@).subrange(start as int, i + 1) =~= vviews(ls@).subrange(start as int, i as int).push(ls@[i as int]@));
        i = i + 1;
    }
    assert(vviews(ls@).subrange(start as int, ls@.len() as int) =~= last_n(vviews(ls@), n as nat));
    r
}

/// The newest `max_lines` lines of a log.
pub fn last_log_lines(content: &str, max_lines: usize) -> (r: Vec<String>)
    ensures
        string_views(r@) == last_n(lines(content@), max_lines as nat),
{
    let ls = split_lines(&chars_of(content));
    let t = last_n_exec(&ls, max_lines);
    let mut out: Vec<String> = Vec::new();
    let mut i: usize = 0;
    while i < t.len()
        invariant
            i <= t@.len(),
            string_views(out@) == vviews(t@).take(i as int),
        decreases t.len() - i,
    {
        let ghost before = out@;
        out.push(string_of(&t[i]));
        assert(string_views(out@) =~= string_views(before).push(t@[i as int]@));
        assert(vviews(t@).take(i + 1) =~= vviews(t@).take(i as int).push(t@[i as int]@));
        i = i + 1;
    }
    assert(vviews(t@).take(t@.len() as int) =~= vviews(t@));
    out
}

/// A log rotated to its newest `max_lines` lines, each ending in a newline;
/// `None` when the log is short enough to stay as it is.
pub fn rotated_log(content: &str, max_lines: usize) -> (r: Option<String>)
    ensures
        match r {
            Some(t) => lines(content@).len() > max_lines
                && t@ == join(last_n(lines(content@), max_lines as nat), "\n"@) + "\n"@,
            None => lines(content@).len() <= max_lines,
        },
{
    let ls = split_lines(&chars_of(content));
    if ls.len() <= max_lines {
        return None;
    }
    let t = last_n_exec(&ls, max_lines);
    let mut v = join_chars(&t, "\n");
    push_str(&mut v, "\n");
    Some(string_of(&v))
}

/// An activity log line: `[timestamp] [source] message`.
pub fn activity_log_line(timestamp: &str, source: &str, msg: &str) -> (r: String)
    ensures
        r@ == "["@ + timestamp@ + "] ["@ + source@ + "] "@ + msg@,
{
    let mut v: Vec<char> = Vec::new();
    push_str(&mut v, "[");
    push_str(&mut v, timestamp);
    push_str(&mut v, "] [");
    push_str(&mut v, source);
    push_str(&mut v, "] ");
    push_str(&mut v, msg);
    string_of(&v)
}

/// A sync log line: `[timestamp] message` and a newline.
pub fn sync_log_line(timestamp: &str, msg: &str) -> (r: String)
    ensures
        r@ == "["@ + timestamp@ + "] "@ + msg@ + "\n"@,
{
    let mut v: Vec<char> = Vec::new();
    push_str(&mut v, "[");
    push_str(&mut v, timestamp);
    push_str(&mut v, "] ");
    push_str(&mut v, msg);
    push_str(&mut v, "\n");
    string_of(&v)
}

// ─── Laws ─────────────────────────────────────────────────────

/// The excludes handed to rsync hold no rule twice and no empty or comment
/// rule, and each is a trimmed rule of the input.
pub proof fn law_excludes_distinct(xs: Seq<Seq<char>>)
    ensures
        forall|i: int, j: int| 0 <= i < j < sanitized(xs).len() ==> #[trigger] sanitized(xs)[i] != #[trigger] sanitized(xs)[j],
        forall|i: int| 0 <= i < sanitized(xs).len() ==> !is_skipped_rule(#[trigger] sanitized(xs)[i]),
        forall|i: int| 0 <= i < sanitized(xs).len() ==> exists|k: int| 0 <= k < xs.len() && #[trigger] sanitized(xs)[i] == trim(xs[k]),
    decreases xs.len(),
{
    if xs.len() > 0 {
        let prev = sanitized(xs.drop_last());
        law_excludes_distinct(xs.drop_last());
        let c = trim(xs.last());
        let r = sanitized(xs);
        if !(is_skipped_rule(c) || prev.contains(c)) {
            assert(r == prev.push(c));
            assert forall|i: int, j: int| 0 <= i < j < r.len() implies #[trigger] r[i] != #[trigger] r[j] by {
                if j == r.len() - 1 {
                    assert(r[i] == prev[i]);
                    assert(prev.contains(prev[i]));
                } else {
                    assert(r[i] == prev[i] && r[j] == prev[j]);
                }
            }
            assert forall|i: int| 0 <= i < r.len() implies exists|k: int| 0 <= k < xs.len() && #[trigger] r[i] == trim(xs[k]) by {
                if i == r.len() - 1 {
                    assert(r[i] == trim(xs[xs.len() - 1]));
                } else {
                    assert(r[i] == prev[i]);
                    let k = choose|k: int| 0 <= k < xs.drop_last().len() && prev[i] == trim(xs.drop_last()[k]);
                    assert(xs.drop_last()[k] == xs[k]);
                }
            }
        } else {
            assert forall|i: int| 0 <= i < r.len() implies exists|k: int| 0 <= k < xs.len() && #[trigger] r[i] == trim(xs[k]) by {
                let k = choose|k: int| 0 <= k < xs.drop_last().len() && prev[i] == trim(xs.drop_last()[k]);
                assert(xs.drop_last()[k] == xs[k]);
            }
        }
    }
}

proof fn lemma_sanitized_fixed(ys: Seq<Seq<char>>)
    requires
        forall|i: int, j: int| 0 <= i < j < ys.len() ==> #[trigger] ys[i] != #[trigger] ys[j],
        forall|i: int| 0 <= i < ys.len() ==> !is_skipped_rule(#[trigger] ys[i]),
        forall|i: int| 0 <= i < ys.len() ==> trim(#[trigger] ys[i]) == ys[i],
    ensures
        sanitized(ys) == ys,
    decreases ys.len(),
{
    if ys.len() > 0 {
        let prev = ys.drop_last();
        assert forall|i: int, j: int| 0 <= i < j < prev.len() implies #[trigger] prev[i] != #[trigger] prev[j] by {
            assert(prev[i] == ys[i] && prev[j] == ys[j]);
        }
        assert forall|i: int| 0 <= i < prev.len() implies !is_skipped_rule(#[trigger] prev[i]) by {
            assert(prev[i] == ys[i]);
        }
        assert forall|i: int| 0 <= i < prev.len() implies trim(#[trigger] prev[i]) == prev[i] by {
            assert(prev[i] == ys[i]);
        }
        lemma_sanitized_fixed(prev);
        let c = trim(ys.last());
        assert(c == ys[ys.len() - 1]);
        if prev.contains(c) {
            let k = choose|k: int| 0 <= k < prev.len() && prev[k] == c;
            assert(ys[k] == ys[ys.len() - 1]);
        }
        assert(prev.push(c) =~= ys);
    }
}

/// Sanitising the exclude list twice gives what sanitising it once gives.
pub proof fn law_sanitize_idempotent(xs: Seq<Seq<char>>)
    ensures
        sanitized(sanitized(xs)) == sanitized(xs),
{
    let ys = sanitized(xs);
    law_excludes_distinct(xs);
    assert forall|i: int| 0 <= i < ys.len() implies trim(#[trigger] ys[i]) == ys[i] by {
        let k = choose|k: int| 0 <= k < xs.len() && #[trigger] ys[i] == trim(xs[k]);
        crate::text::lemma_trim_idempotent(xs[k]);
    }
    lemma_sanitized_fixed(ys);
}

impl<T: Clone> TtlCache<T> {
    /// The cache holds a value younger than `ttl_ms` at `now_ms`.
    pub open spec fn serves(&self, ttl_ms: u64, now_ms: u64) -> bool {
        self.entry() matches Some((v, ts)) && elapsed(ts, now_ms) < ttl_ms
    }
}

/// A value stored at `t` is served while it is younger than the time to
/// live and not after (a clock that went back counts as age zero); a
/// cleared cache serves nothing.
pub proof fn law_cache_read_after_write<T: Clone>(c: TtlCache<T>, v: T, t: u64, ttl_ms: u64, now_ms: u64)
    ensures
        c.entry() == Some((v, t)) ==> (c.serves(ttl_ms, now_ms) <==> (if now_ms >= t {
            now_ms - t < ttl_ms
        } else {
            ttl_ms > 0
        })),
        c.entry() is None ==> !c.serves(ttl_ms, now_ms),
{
}

} // verus!
