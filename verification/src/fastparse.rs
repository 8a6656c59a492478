//! The keyword fast path: commands recognised by fixed phrases, so that they
//! need no language model. The input is split into segments ("..., dann ...")
//! and each segment is matched against the phrase tables below in a fixed order.

use vstd::prelude::*;
use crate::intent::{
    normalize_input, normalized, word_number, word_number_exec, ActionParams, KeywordAction, Scope,
};
use crate::helpers::nonempty_trimmed;
use crate::text::{
    chars_of, contains, contains_any, matches_at, contains_any_str, contains_str, dec, join, join_chars,
    push_all, push_dec, push_str, replace, replace_chars, split_char, split_char_vec, split_ws,
    string_of, trim, trim_chars, vviews, views, words,
};

verus! {

/// What a segment parser recognised: the scope it settles on, its reply and
/// its actions.
pub type Seg = (Option<Scope>, Seq<char>, Seq<KeywordAction>);

/// A segment with one action and no scope of its own.
pub open spec fn one(reply: Seq<char>, action: &'static str, params: ActionParams) -> Seg {
    (None, reply, seq![KeywordAction { action, params }])
}

struct ParsedSegment {
    scope: Option<Scope>,
    reply: Vec<char>,
    actions: Vec<KeywordAction>,
}

impl ParsedSegment {
    spec fn seg(self) -> Seg {
        (self.scope, self.reply@, self.actions@)
    }
}

spec fn opt_seg(p: Option<ParsedSegment>) -> Option<Seg> {
    match p {
        Some(x) => Some(x.seg()),
        None => None,
    }
}

fn one_exec(reply: &str, action: &'static str, params: ActionParams) -> (p: ParsedSegment)
    ensures
        p.seg() == one(reply@, action, params),
{
    let mut r: Vec<char> = Vec::new();
    push_str(&mut r, reply);
    let mut acts: Vec<KeywordAction> = Vec::new();
    acts.push(KeywordAction { action, params });
    ParsedSegment { scope: None, reply: r, actions: acts }
}

fn one_num_exec(prefix: &str, n: u16, suffix: &str, action: &'static str, params: ActionParams) -> (p: ParsedSegment)
    ensures
        p.seg() == one(prefix@ + dec(n as nat) + suffix@, action, params),
{
    let mut r: Vec<char> = Vec::new();
    push_str(&mut r, prefix);
    push_dec(&mut r, n as u64);
    push_str(&mut r, suffix);
    let mut acts: Vec<KeywordAction> = Vec::new();
    acts.push(KeywordAction { action, params });
    ParsedSegment { scope: None, reply: r, actions: acts }
}

// ─── Numbers in a segment ─────────────────────────────────────

/// The number of the first word whose number lies in `lo..=hi`.
pub open spec fn first_in(ws: Seq<Seq<char>>, lo: nat, hi: nat) -> Option<u16>
    decreases ws.len(),
{
    if ws.len() == 0 {
        None
    } else {
        match word_number(ws[0]) {
            Some(v) if lo <= v <= hi => Some(v),
            _ => first_in(ws.drop_first(), lo, hi),
        }
    }
}

fn first_in_exec(s: &Vec<char>, lo: u16, hi: u16) -> (r: Option<u16>)
    ensures
        r == first_in(words(s@), lo as nat, hi as nat),
{
    let ws = split_ws(s);
    let mut i: usize = 0;
    assert(vviews(ws@).skip(0) =~= vviews(ws@));
    while i < ws.len()
        invariant
            i <= ws.len(),
            vviews(ws@) == words(s@),
            first_in(words(s@), lo as nat, hi as nat) == first_in(
                vviews(ws@).skip(i as int),
                lo as nat,
                hi as nat,
            ),
        decreases ws.len() - i,
    {
        let ghost rest = vviews(ws@).skip(i as int);
        assert(rest[0] == ws@[i as int]@);
        assert(rest.drop_first() =~= vviews(ws@).skip(i + 1));
        match word_number_exec(&ws[i]) {
            Some(v) => {
                if lo <= v && v <= hi {
                    return Some(v);
                }
            },
            None => {},
        }
        i = i + 1;
    }
    None
}

// ─── Queries ──────────────────────────────────────────────────

pub open spec fn pi_status_words() -> Seq<Seq<char>> {
    seq![
        "pi status"@, "pistatus"@, "eistatus"@, "eis status"@, "feinstatus"@, "fein status"@,
        "heilsstatus"@, "pallstatus"@, "pie status"@, "pi 4 status"@, "pi 5 status"@,
        "raspberry pi status"@, "wie geht es dem pi"@, "wie geht es den pis"@, "pi temperatur"@,
    ]
}

pub open spec fn system_status_words() -> Seq<Seq<char>> {
    seq!["system status"@, "systemstatus"@, "system info"@, "systeminfo"@]
}

pub open spec fn gpu_words() -> Seq<Seq<char>> {
    seq![
        "gpu temperatur"@, "gpu temp"@, "wie warm ist die gpu"@, "wie warmsige gpu"@, "gpu info"@,
        "vram"@, "wie viel vram"@,
    ]
}

pub open spec fn tent_words() -> Seq<Seq<char>> {
    seq!["zelt status"@, "zeltstatus"@, "wie ist das zelt"@]
}

pub open spec fn tank_words() -> Seq<Seq<char>> {
    seq!["tankinhalt"@, "wie voll ist der tank"@, "tank"@]
}

pub open spec fn climate_words() -> Seq<Seq<char>> {
    seq!["wie warm ist das zelt"@, "zelt temperatur"@, "zelt luftfeuchtigkeit"@, "zelt klima"@]
}

pub open spec fn fan_status_words() -> Seq<Seq<char>> {
    seq![
        "wie geht es den lueftern"@, "luefterstatus"@, "luefter status"@, "fan status"@,
        "wassertemperatur"@,
    ]
}

pub open spec fn snapshot_words() -> Seq<Seq<char>> {
    seq!["snapshot liste"@, "zeig die snapshots"@, "wie viele snapshots"@, "snapshot uebersicht"@]
}

/// Status queries: Pis, system, GPU, tent, tank, climate, fans, snapshots.
pub open spec fn query_segment(s: Seq<char>) -> Option<Seg> {
    if contains_any(s, pi_status_words()) {
        Some(one("Checking the Pis."@, "pi_status", ActionParams::Empty))
    } else if contains_any(s, system_status_words()) {
        Some(one("Checking system status."@, "system_status", ActionParams::Empty))
    } else if contains_any(s, gpu_words()) {
        Some(one("Checking GPU status."@, "system_info", ActionParams::Empty))
    } else if contains_any(s, tent_words()) {
        Some(one("Checking the tent."@, "tent_status", ActionParams::Mode("full")))
    } else if contains_any(s, tank_words()) {
        Some(one("Checking the tank."@, "tent_status", ActionParams::Mode("tank")))
    } else if contains_any(s, climate_words()) {
        Some(one("Checking tent climate."@, "tent_status", ActionParams::Mode("climate")))
    } else if contains_any(s, fan_status_words()) {
        Some(one("Checking fans."@, "fan_status", ActionParams::Empty))
    } else if contains_any(s, snapshot_words()) {
        Some(one("Checking snapshots."@, "snapshot_list", ActionParams::Empty))
    } else {
        None
    }
}

fn parse_query(s: &Vec<char>) -> (r: Option<ParsedSegment>)
    ensures
        opt_seg(r) == query_segment(s@),
{
    let pi: [&str; 15] = [
        "pi status", "pistatus", "eistatus", "eis status", "feinstatus", "fein status",
        "heilsstatus", "pallstatus", "pie status", "pi 4 status", "pi 5 status",
        "raspberry pi status", "wie geht es dem pi", "wie geht es den pis", "pi temperatur",
    ];
    let sys: [&str; 4] = ["system status", "systemstatus", "system info", "systeminfo"];
    let gpu: [&str; 7] = [
        "gpu temperatur", "gpu temp", "wie warm ist die gpu", "wie warmsige gpu", "gpu info",
        "vram", "wie viel vram",
    ];
    let tent: [&str; 3] = ["zelt status", "zeltstatus", "wie ist das zelt"];
    let tank: [&str; 3] = ["tankinhalt", "wie voll ist der tank", "tank"];
    let climate: [&str; 4] = [
        "wie warm ist das zelt", "zelt temperatur", "zelt luftfeuchtigkeit", "zelt klima",
    ];
    let fans: [&str; 5] = [
        "wie geht es den lueftern", "luefterstatus", "luefter status", "fan status",
        "wassertemperatur",
    ];
    let snaps: [&str; 4] = [
        "snapshot liste", "zeig die snapshots", "wie viele snapshots", "snapshot uebersicht",
    ];
    assert(views(pi@) =~= pi_status_words());
    assert(views(sys@) =~= system_status_words());
    assert(views(gpu@) =~= gpu_words());
    assert(views(tent@) =~= tent_words());
    assert(views(tank@) =~= tank_words());
    assert(views(climate@) =~= climate_words());
    assert(views(fans@) =~= fan_status_words());
    assert(views(snaps@) =~= snapshot_words());
    if contains_any_str(s, &pi) {
        Some(one_exec("Checking the Pis.", "pi_status", ActionParams::Empty))
    } else if contains_any_str(s, &sys) {
        Some(one_exec("Checking system status.", "system_status", ActionParams::Empty))
    } else if contains_any_str(s, &gpu) {
        Some(one_exec("Checking GPU status.", "system_info", ActionParams::Empty))
    } else if contains_any_str(s, &tent) {
        Some(one_exec("Checking the tent.", "tent_status", ActionParams::Mode("full")))
    } else if contains_any_str(s, &tank) {
        Some(one_exec("Checking the tank.", "tent_status", ActionParams::Mode("tank")))
    } else if contains_any_str(s, &climate) {
        Some(one_exec("Checking tent climate.", "tent_status", ActionParams::Mode("climate")))
    } else if contains_any_str(s, &fans) {
        Some(one_exec("Checking fans.", "fan_status", ActionParams::Empty))
    } else if contains_any_str(s, &snaps) {
        Some(one_exec("Checking snapshots.", "snapshot_list", ActionParams::Empty))
    } else {
        None
    }
}

// ─── Screen brightness ────────────────────────────────────────

pub open spec fn screen_words() -> Seq<Seq<char>> {
    seq![
        "bildschirm"@, "monitor"@, "screen"@, "display"@, "bildschirmhelligkeit"@,
        "monitorhelligkeit"@,
    ]
}

/// Screen brightness: off, full, brighter, darker, or a number `0..=100`.
pub open spec fn screen_segment(s: Seq<char>) -> Option<Seg> {
    if !contains_any(s, screen_words()) {
        None
    } else if contains_any(s, seq!["aus"@, "off"@, "schwarz"@]) {
        Some(one("Turning screens off."@, "screen_brightness", ActionParams::Percent(0)))
    } else if contains_any(s, seq!["an"@, "on"@, "voll"@, "maximum"@, "max"@]) {
        Some(one("Setting screens to full brightness."@, "screen_brightness", ActionParams::Percent(100)))
    } else if contains_any(s, seq!["heller"@, "brighter"@]) {
        Some(one("Increasing screen brightness."@, "screen_brightness", ActionParams::Percent(80)))
    } else if contains_any(s, seq!["dunkler"@, "dimmen"@, "dimmer"@, "darker"@]) {
        Some(one("Dimming screens."@, "screen_brightness", ActionParams::Percent(30)))
    } else {
        match first_in(words(s), 0, 100) {
            Some(v) => Some(one(
                "Setting screen brightness to "@ + dec(v as nat) + " percent."@,
                "screen_brightness",
                ActionParams::Percent(v),
            )),
            None => None,
        }
    }
}

fn parse_screen_brightness(s: &Vec<char>) -> (r: Option<ParsedSegment>)
    ensures
        opt_seg(r) == screen_segment(s@),
{
    let screen: [&str; 6] = [
        "bildschirm", "monitor", "screen", "display", "bildschirmhelligkeit", "monitorhelligkeit",
    ];
    let off: [&str; 3] = ["aus", "off", "schwarz"];
    let on: [&str; 5] = ["an", "on", "voll", "maximum", "max"];
    let up: [&str; 2] = ["heller", "brighter"];
    let down: [&str; 4] = ["dunkler", "dimmen", "dimmer", "darker"];
    assert(views(screen@) =~= screen_words());
    assert(views(off@) =~= seq!["aus"@, "off"@, "schwarz"@]);
    assert(views(on@) =~= seq!["an"@, "on"@, "voll"@, "maximum"@, "max"@]);
    assert(views(up@) =~= seq!["heller"@, "brighter"@]);
    assert(views(down@) =~= seq!["dunkler"@, "dimmen"@, "dimmer"@, "darker"@]);
    if !contains_any_str(s, &screen) {
        None
    } else if contains_any_str(s, &off) {
        Some(one_exec("Turning screens off.", "screen_brightness", ActionParams::Percent(0)))
    } else if contains_any_str(s, &on) {
        Some(one_exec("Setting screens to full brightness.", "screen_brightness", ActionParams::Percent(100)))
    } else if contains_any_str(s, &up) {
        Some(one_exec("Increasing screen brightness.", "screen_brightness", ActionParams::Percent(80)))
    } else if contains_any_str(s, &down) {
        Some(one_exec("Dimming screens.", "screen_brightness", ActionParams::Percent(30)))
    } else {
        match first_in_exec(s, 0, 100) {
            Some(v) => Some(one_num_exec(
                "Setting screen brightness to ",
                v,
                " percent.",
                "screen_brightness",
                ActionParams::Percent(v),
            )),
            None => None,
        }
    }
}

// ─── Watering ─────────────────────────────────────────────────

pub open spec fn water_words() -> Seq<Seq<char>> {
    seq![
        "pflanze giessen"@, "pflanzen giessen"@, "giess die pflanze"@, "giesse die pflanze"@,
        "pflanze waessern"@, "pflanzen waessern"@,
    ]
}

/// Watering: normal (10 s), short (5 s) or generous (20 s).
pub open spec fn water_segment(s: Seq<char>) -> Option<Seg> {
    if contains_any(s, water_words()) {
        Some(one("Watering the plants now, Sir."@, "water_plant", ActionParams::Seconds(10)))
    } else if contains_any(s, seq!["kurz giessen"@, "kurz waessern"@]) {
        Some(one("Short watering cycle engaged."@, "water_plant", ActionParams::Seconds(5)))
    } else if contains_any(s, seq!["viel giessen"@, "ordentlich giessen"@, "lange giessen"@]) {
        Some(one("Generous watering cycle engaged."@, "water_plant", ActionParams::Seconds(20)))
    } else {
        None
    }
}

fn parse_watering(s: &Vec<char>) -> (r: Option<ParsedSegment>)
    ensures
        opt_seg(r) == water_segment(s@),
{
    let normal: [&str; 6] = [
        "pflanze giessen", "pflanzen giessen", "giess die pflanze", "giesse die pflanze",
        "pflanze waessern", "pflanzen waessern",
    ];
    let short: [&str; 2] = ["kurz giessen", "kurz waessern"];
    let long: [&str; 3] = ["viel giessen", "ordentlich giessen", "lange giessen"];
    assert(views(normal@) =~= water_words());
    assert(views(short@) =~= seq!["kurz giessen"@, "kurz waessern"@]);
    assert(views(long@) =~= seq!["viel giessen"@, "ordentlich giessen"@, "lange giessen"@]);
    if contains_any_str(s, &normal) {
        Some(one_exec("Watering the plants now, Sir.", "water_plant", ActionParams::Seconds(10)))
    } else if contains_any_str(s, &short) {
        Some(one_exec("Short watering cycle engaged.", "water_plant", ActionParams::Seconds(5)))
    } else if contains_any_str(s, &long) {
        Some(one_exec("Generous watering cycle engaged.", "water_plant", ActionParams::Seconds(20)))
    } else {
        None
    }
}

// ─── Fans ─────────────────────────────────────────────────────

pub open spec fn fan_words() -> Seq<Seq<char>> {
    seq!["luefter"@, "fan"@, "fans"@, "geblaese"@, "ventilator"@]
}

pub open spec fn fan_auto_words() -> Seq<Seq<char>> {
    seq!["auto"@, "automatisch"@, "zuruecksetzen"@, "normal"@, "reset"@, "kurve"@]
}

pub open spec fn fan_min_words() -> Seq<Seq<char>> {
    seq!["minimum"@, "min"@, "leise"@, "silent"@, "quiet"@]
}

/// Fans: back to the curve, maximum, minimum (20 %), or a number `1..=100`.
pub open spec fn fan_segment(s: Seq<char>) -> Option<Seg> {
    if !contains_any(s, fan_words()) {
        None
    } else if contains_any(s, fan_auto_words()) {
        Some(one("Returning fans to automatic curve, Sir."@, "fan_speed", ActionParams::PercentAuto))
    } else if contains_any(s, seq!["maximum"@, "max"@, "voll"@]) {
        Some(one("Setting all fans to maximum, Sir."@, "fan_speed", ActionParams::Percent(100)))
    } else if contains_any(s, fan_min_words()) {
        Some(one("Setting fans to minimum speed."@, "fan_speed", ActionParams::Percent(20)))
    } else {
        match first_in(words(s), 1, 100) {
            Some(v) => Some(one(
                "Setting all fans to "@ + dec(v as nat) + " percent, Sir."@,
                "fan_speed",
                ActionParams::Percent(v),
            )),
            None => None,
        }
    }
}

fn parse_fan(s: &Vec<char>) -> (r: Option<ParsedSegment>)
    ensures
        opt_seg(r) == fan_segment(s@),
{
    let fan: [&str; 5] = ["luefter", "fan", "fans", "geblaese", "ventilator"];
    let auto: [&str; 6] = ["auto", "automatisch", "zuruecksetzen", "normal", "reset", "kurve"];
    let max: [&str; 3] = ["maximum", "max", "voll"];
    let min: [&str; 5] = ["minimum", "min", "leise", "silent", "quiet"];
    assert(views(fan@) =~= fan_words());
    assert(views(auto@) =~= fan_auto_words());
    assert(views(max@) =~= seq!["maximum"@, "max"@, "voll"@]);
    assert(views(min@) =~= fan_min_words());
    if !contains_any_str(s, &fan) {
        None
    } else if contains_any_str(s, &auto) {
        Some(one_exec("Returning fans to automatic curve, Sir.", "fan_speed", ActionParams::PercentAuto))
    } else if contains_any_str(s, &max) {
        Some(one_exec("Setting all fans to maximum, Sir.", "fan_speed", ActionParams::Percent(100)))
    } else if contains_any_str(s, &min) {
        Some(one_exec("Setting fans to minimum speed.", "fan_speed", ActionParams::Percent(20)))
    } else {
        match first_in_exec(s, 1, 100) {
            Some(v) => Some(one_num_exec(
                "Setting all fans to ",
                v,
                " percent, Sir.",
                "fan_speed",
                ActionParams::Percent(v),
            )),
            None => None,
        }
    }
}

// ─── Volume ───────────────────────────────────────────────────

pub open spec fn volume_words() -> Seq<Seq<char>> {
    seq!["lautstaerke"@, "volume"@, "leiser"@, "lauter"@, "mute"@, "stumm"@, "ton"@]
}

/// Volume: mute, louder (70 %), quieter (30 %), or a number `0..=150`.
pub open spec fn volume_segment(s: Seq<char>) -> Option<Seg> {
    if !contains_any(s, volume_words()) {
        None
    } else if contains_any(s, seq!["mute"@, "stumm"@, "ton aus"@]) {
        Some(one("Muted."@, "volume", ActionParams::Percent(0)))
    } else if contains_any(s, seq!["lauter"@, "louder"@]) {
        Some(one("Turning volume up."@, "volume", ActionParams::Percent(70)))
    } else if contains_any(s, seq!["leiser"@, "quieter"@]) {
        Some(one("Turning volume down."@, "volume", ActionParams::Percent(30)))
    } else {
        match first_in(words(s), 0, 150) {
            Some(v) => Some(one(
                "Volume set to "@ + dec(v as nat) + " percent."@,
                "volume",
                ActionParams::Percent(v),
            )),
            None => None,
        }
    }
}

/// A segment's single volume action, if the segment gives exactly one
/// volume action with percentage `pct` and the reply `reply`.
pub open spec fn is_volume_action(x: Option<Seg>, reply: Seq<char>, pct: u16) -> bool {
    match x {
        Some(v) => {
            let (scope, r, acts) = v;
            &&& scope is None
            &&& r == reply
            &&& acts.len() == 1
            &&& acts[0].action@ == "volume"@
            &&& acts[0].params == ActionParams::Percent(pct)
        },
        None => false,
    }
}

/// "Louder" turns the volume up to 70 %, "quieter" down to 30 %: a segment
/// that asks for it (with a volume word; "lauter" and "leiser" are volume
/// words themselves) and does not ask to mute gives exactly that one volume
/// action, "louder" winning over "quieter".
pub proof fn law_volume_up_and_down(s: Seq<char>)
    requires
        !contains(s, "mute"@),
        !contains(s, "stumm"@),
        !contains(s, "ton aus"@),
    ensures
        (contains(s, "lauter"@) || (contains(s, "louder"@) && contains(s, "volume"@)))
            ==> is_volume_action(volume_segment(s), "Turning volume up."@, 70),
        ((contains(s, "leiser"@) || (contains(s, "quieter"@) && contains(s, "volume"@)))
            && !contains(s, "lauter"@) && !contains(s, "louder"@))
            ==> is_volume_action(volume_segment(s), "Turning volume down."@, 30),
{
    reveal_strlit("volume");
    let vw = volume_words();
    let mute = seq!["mute"@, "stumm"@, "ton aus"@];
    assert(!contains_any(s, mute)) by {
        if contains_any(s, mute) {
            let k = choose|k: int| 0 <= k < mute.len() && contains(s, #[trigger] mute[k]);
            assert(k == 0 || k == 1 || k == 2);
        }
    }
    if contains(s, "lauter"@) {
        assert(contains(s, vw[3]));
        assert(contains_any(s, seq!["lauter"@, "louder"@])) by {
            assert(contains(s, seq!["lauter"@, "louder"@][0]));
        }
    }
    if contains(s, "louder"@) && contains(s, "volume"@) {
        assert(contains(s, vw[1]));
        assert(contains_any(s, seq!["lauter"@, "louder"@])) by {
            assert(contains(s, seq!["lauter"@, "louder"@][1]));
        }
    }
    if !contains(s, "lauter"@) && !contains(s, "louder"@) {
        let up = seq!["lauter"@, "louder"@];
        assert(!contains_any(s, up)) by {
            if contains_any(s, up) {
                let k = choose|k: int| 0 <= k < up.len() && contains(s, #[trigger] up[k]);
                assert(k == 0 || k == 1);
            }
        }
        if contains(s, "leiser"@) {
            assert(contains(s, vw[2]));
            assert(contains_any(s, seq!["leiser"@, "quieter"@])) by {
                assert(contains(s, seq!["leiser"@, "quieter"@][0]));
            }
        }
        if contains(s, "quieter"@) && contains(s, "volume"@) {
            assert(contains(s, vw[1]));
            assert(contains_any(s, seq!["leiser"@, "quieter"@])) by {
                assert(contains(s, seq!["leiser"@, "quieter"@][1]));
            }
        }
    }
}

/// Asking to mute ("mute", "stumm", "ton aus") sets the volume to 0 %,
/// whatever else the segment says about the volume.
pub proof fn law_volume_mute(s: Seq<char>)
    requires
        contains(s, "mute"@) || contains(s, "stumm"@) || contains(s, "ton aus"@),
    ensures
        is_volume_action(volume_segment(s), "Muted."@, 0),
{
    reveal_strlit("ton aus");
    reveal_strlit("ton");
    let vw = volume_words();
    let mute = seq!["mute"@, "stumm"@, "ton aus"@];
    if contains(s, "mute"@) {
        assert(contains(s, vw[4]));
        assert(contains(s, mute[0]));
    } else if contains(s, "stumm"@) {
        assert(contains(s, vw[5]));
        assert(contains(s, mute[1]));
    } else {
        let i = choose|i: int| #[trigger] matches_at(s, "ton aus"@, i);
        assert(s.subrange(i, i + 3) =~= "ton aus"@.subrange(0, 3));
        assert("ton aus"@.subrange(0, 3) =~= "ton"@);
        assert(matches_at(s, "ton"@, i));
        assert(contains(s, vw[6]));
        assert(contains(s, mute[2]));
    }
}

fn parse_volume(s: &Vec<char>) -> (r: Option<ParsedSegment>)
    ensures
        opt_seg(r) == volume_segment(s@),
{
    let vol: [&str; 7] = ["lautstaerke", "volume", "leiser", "lauter", "mute", "stumm", "ton"];
    let mute: [&str; 3] = ["mute", "stumm", "ton aus"];
    let up: [&str; 2] = ["lauter", "louder"];
    let down: [&str; 2] = ["leiser", "quieter"];
    assert(views(vol@) =~= volume_words());
    assert(views(mute@) =~= seq!["mute"@, "stumm"@, "ton aus"@]);
    assert(views(up@) =~= seq!["lauter"@, "louder"@]);
    assert(views(down@) =~= seq!["leiser"@, "quieter"@]);
    if !contains_any_str(s, &vol) {
        None
    } else if contains_any_str(s, &mute) {
        Some(one_exec("Muted.", "volume", ActionParams::Percent(0)))
    } else if contains_any_str(s, &up) {
        Some(one_exec("Turning volume up.", "volume", ActionParams::Percent(70)))
    } else if contains_any_str(s, &down) {
        Some(one_exec("Turning volume down.", "volume", ActionParams::Percent(30)))
    } else {
        match first_in_exec(s, 0, 150) {
            Some(v) => Some(one_num_exec("Volume set to ", v, " percent.", "volume", ActionParams::Percent(v))),
            None => None,
        }
    }
}

// ─── Desktop actions ──────────────────────────────────────────

/// Keyword, application and reply of each launchable application, in the
/// order they are tried.
pub open spec fn app_table() -> Seq<(Seq<char>, &'static str, Seq<char>)> {
    seq![
        ("firefox"@, "firefox", "Opening Firefox."@),
        ("browser"@, "firefox", "Opening the browser."@),
        ("steam"@, "steam", "Launching Steam."@),
        ("code"@, "code", "Opening VS Code."@),
        ("vscode"@, "code", "Opening VS Code."@),
        ("vs code"@, "code", "Opening VS Code."@),
        ("terminal"@, "terminal", "Opening a terminal."@),
        ("konsole"@, "terminal", "Opening a terminal."@),
        ("thunar"@, "thunar", "Opening Thunar."@),
        ("dateimanager"@, "thunar", "Opening Thunar."@),
        ("dateien"@, "thunar", "Opening Thunar."@),
        ("spotify"@, "spotify", "Opening Spotify."@),
        ("discord"@, "discord", "Opening Discord."@),
        ("obsidian"@, "obsidian", "Opening Obsidian."@),
        ("gimp"@, "gimp", "Opening GIMP."@),
        ("vlc"@, "vlc", "Opening VLC."@),
        ("lutris"@, "lutris", "Opening Lutris."@),
    ]
}

pub open spec fn app_views(t: Seq<(&str, &'static str, &str)>) -> Seq<(Seq<char>, &'static str, Seq<char>)> {
    t.map_values(|e: (&str, &'static str, &str)| (e.0@, e.1, e.2@))
}

/// The first application of `table` whose keyword occurs in `s`.
pub open spec fn first_app(s: Seq<char>, table: Seq<(Seq<char>, &'static str, Seq<char>)>) -> Option<(&'static str, Seq<char>)>
    decreases table.len(),
{
    if table.len() == 0 {
        None
    } else if contains(s, table[0].0) {
        Some((table[0].1, table[0].2))
    } else {
        first_app(s, table.drop_first())
    }
}

pub open spec fn launch_words() -> Seq<Seq<char>> {
    seq!["oeffne"@, "starte"@, "open"@, "start"@, "launch"@, "mach"@]
}

pub open spec fn lock_words() -> Seq<Seq<char>> {
    seq!["sperre den bildschirm"@, "bildschirm sperren"@, "lock screen"@, "sperren"@, "lock"@]
}

pub open spec fn shutdown_words() -> Seq<Seq<char>> {
    seq![
        "herunterfahren"@, "runterfahren"@, "shutdown"@, "shut down"@, "fahr runter"@,
        "fahr den pc runter"@, "pc aus"@,
    ]
}

/// Launching an application, screenshot, screen lock, shutdown, reboot, suspend.
pub open spec fn desktop_segment(s: Seq<char>) -> Option<Seg> {
    let app = if contains_any(s, launch_words()) { first_app(s, app_table()) } else { None };
    if let Some((name, reply)) = app {
        Some(one(reply, "launch_app", ActionParams::App(name)))
    } else if contains_any(s, seq!["screenshot"@, "bildschirmfoto"@, "screen capture"@, "screenschat"@]) {
        Some(one("Screenshot taken."@, "screenshot", ActionParams::Empty))
    } else if contains_any(s, lock_words()) {
        Some(one("Locking screen."@, "lock_screen", ActionParams::Empty))
    } else if contains_any(s, shutdown_words()) {
        Some(one("Shutting down. Goodnight, Sir."@, "system_power", ActionParams::Mode("shutdown")))
    } else if contains_any(s, seq!["neustart"@, "reboot"@, "neu starten"@, "pc neu starten"@]) {
        Some(one("Rebooting now."@, "system_power", ActionParams::Mode("reboot")))
    } else if contains_any(s, seq!["suspend"@, "schlafmodus"@, "standby"@, "schlafen"@]) {
        Some(one("Suspending."@, "system_power", ActionParams::Mode("suspend")))
    } else {
        None
    }
}

fn find_app(s: &Vec<char>, table: &[(&str, &'static str, &str)]) -> (r: Option<(&'static str, usize)>)
    ensures
        match r {
            Some((app, k)) => k < table@.len() && first_app(s@, app_views(table@)) == Some(
                (app, table@[k as int].2@),
            ),
            None => first_app(s@, app_views(table@)) is None,
        },
{
    let mut k: usize = 0;
    assert(app_views(table@).skip(0) =~= app_views(table@));
    while k < table.len()
        invariant
            k <= table@.len(),
            first_app(s@, app_views(table@)) == first_app(s@, app_views(table@).skip(k as int)),
        decreases table.len() - k,
    {
        let ghost rest = app_views(table@).skip(k as int);
        assert(rest[0] == (table@[k as int].0@, table@[k as int].1, table@[k as int].2@));
        assert(rest.drop_first() =~= app_views(table@).skip(k + 1));
        if contains_str(s, table[k].0) {
            return Some((table[k].1, k));
        }
        k = k + 1;
    }
    None
}

fn parse_desktop_action(s: &Vec<char>) -> (r: Option<ParsedSegment>)
    ensures
        opt_seg(r) == desktop_segment(s@),
{
    let table: [(&str, &'static str, &str); 17] = [
        ("firefox", "firefox", "Opening Firefox."),
        ("browser", "firefox", "Opening the browser."),
        ("steam", "steam", "Launching Steam."),
        ("code", "code", "Opening VS Code."),
        ("vscode", "code", "Opening VS Code."),
        ("vs code", "code", "Opening VS Code."),
        ("terminal", "terminal", "Opening a terminal."),
        ("konsole", "terminal", "Opening a terminal."),
        ("thunar", "thunar", "Opening Thunar."),
        ("dateimanager", "thunar", "Opening Thunar."),
        ("dateien", "thunar", "Opening Thunar."),
        ("spotify", "spotify", "Opening Spotify."),
        ("discord", "discord", "Opening Discord."),
        ("obsidian", "obsidian", "Opening Obsidian."),
        ("gimp", "gimp", "Opening GIMP."),
        ("vlc", "vlc", "Opening VLC."),
        ("lutris", "lutris", "Opening Lutris."),
    ];
    let launch: [&str; 6] = ["oeffne", "starte", "open", "start", "launch", "mach"];
    let shot: [&str; 4] = ["screenshot", "bildschirmfoto", "screen capture", "screenschat"];
    let lock: [&str; 5] = ["sperre den bildschirm", "bildschirm sperren", "lock screen", "sperren", "lock"];
    let down: [&str; 7] = [
        "herunterfahren", "runterfahren", "shutdown", "shut down", "fahr runter",
        "fahr den pc runter", "pc aus",
    ];
    let reboot: [&str; 4] = ["neustart", "reboot", "neu starten", "pc neu starten"];
    let suspend: [&str; 4] = ["suspend", "schlafmodus", "standby", "schlafen"];
    assert(app_views(table@) =~= app_table());
    assert(views(launch@) =~= launch_words());
    assert(views(shot@) =~= seq!["screenshot"@, "bildschirmfoto"@, "screen capture"@, "screenschat"@]);
    assert(views(lock@) =~= lock_words());
    assert(views(down@) =~= shutdown_words());
    assert(views(reboot@) =~= seq!["neustart"@, "reboot"@, "neu starten"@, "pc neu starten"@]);
    assert(views(suspend@) =~= seq!["suspend"@, "schlafmodus"@, "standby"@, "schlafen"@]);
    if contains_any_str(s, &launch) {
        match find_app(s, &table) {
            Some((app, k)) => {
                return Some(one_exec(table[k].2, "launch_app", ActionParams::App(app)));
            },
            None => {},
        }
    }
    if contains_any_str(s, &shot) {
        Some(one_exec("Screenshot taken.", "screenshot", ActionParams::Empty))
    } else if contains_any_str(s, &lock) {
        Some(one_exec("Locking screen.", "lock_screen", ActionParams::Empty))
    } else if contains_any_str(s, &down) {
        Some(one_exec("Shutting down. Goodnight, Sir.", "system_power", ActionParams::Mode("shutdown")))
    } else if contains_any_str(s, &reboot) {
        Some(one_exec("Rebooting now.", "system_power", ActionParams::Mode("reboot")))
    } else if contains_any_str(s, &suspend) {
        Some(one_exec("Suspending.", "system_power", ActionParams::Mode("suspend")))
    } else {
        None
    }
}

// ─── Lights: scope, power, colour, brightness ─────────────────

pub open spec fn all_scope_words() -> Seq<Seq<char>> {
    seq!["alles"@, "alle lichter"@, "alle lampen"@, "komplette beleuchtung"@, "gesamte beleuchtung"@]
}

pub open spec fn govee_scope_words() -> Seq<Seq<char>> {
    seq![
        "govee"@, "decke"@, "deckenlampe"@, "deckenlampen"@, "stehlampe"@, "stehlampen"@,
        "rachel"@,
    ]
}

pub open spec fn rgb_scope_words() -> Seq<Seq<char>> {
    seq![
        "rgb"@, "pc"@, "computer"@, "rechner"@, "corsair"@, "keyboard"@, "tastatur"@, "maus"@,
        "mousepad"@, "mainboard"@,
    ]
}

pub open spec fn light_scope_words() -> Seq<Seq<char>> {
    seq!["alle lichter"@, "lichter"@, "alle lampen"@, "lampen"@, "licht"@, "beleuchtung"@]
}

/// The lights a text addresses: everything, the Govee lamps or the PC RGB.
pub open spec fn scope_of(s: Seq<char>) -> Option<Scope> {
    if contains_any(s, all_scope_words()) {
        Some(Scope::All)
    } else if contains_any(s, govee_scope_words()) {
        Some(Scope::Govee)
    } else if contains_any(s, rgb_scope_words()) {
        Some(Scope::Rgb)
    } else if contains_any(s, light_scope_words()) {
        Some(Scope::All)
    } else {
        None
    }
}

fn detect_scope(s: &Vec<char>) -> (r: Option<Scope>)
    ensures
        r == scope_of(s@),
{
    let all: [&str; 5] = ["alles", "alle lichter", "alle lampen", "komplette beleuchtung", "gesamte beleuchtung"];
    let govee: [&str; 7] = [
        "govee", "decke", "deckenlampe", "deckenlampen", "stehlampe", "stehlampen", "rachel",
    ];
    let rgb: [&str; 10] = [
        "rgb", "pc", "computer", "rechner", "corsair", "keyboard", "tastatur", "maus", "mousepad",
        "mainboard",
    ];
    let light: [&str; 6] = ["alle lichter", "lichter", "alle lampen", "lampen", "licht", "beleuchtung"];
    assert(views(all@) =~= all_scope_words());
    assert(views(govee@) =~= govee_scope_words());
    assert(views(rgb@) =~= rgb_scope_words());
    assert(views(light@) =~= light_scope_words());
    if contains_any_str(s, &all) {
        Some(Scope::All)
    } else if contains_any_str(s, &govee) {
        Some(Scope::Govee)
    } else if contains_any_str(s, &rgb) {
        Some(Scope::Rgb)
    } else if contains_any_str(s, &light) {
        Some(Scope::All)
    } else {
        None
    }
}

pub open spec fn explicit_all_words() -> Seq<Seq<char>> {
    seq![
        "alles"@, "alle lichter"@, "alle lampen"@, "komplette beleuchtung"@,
        "gesamte beleuchtung"@, "lichter"@,
    ]
}

pub open spec fn off_words() -> Seq<Seq<char>> {
    seq![
        "licht aus"@, "lichter aus"@, "lampen aus"@, "alle lichter aus"@, "alle lampen aus"@,
        "alles aus"@, "govee aus"@, "rgb aus"@, "pc rgb aus"@, "pc licht aus"@, "ausschalten"@,
        "abschalten"@, "ausmachen"@, "offline"@, "dunkel machen"@,
    ]
}

pub open spec fn on_words() -> Seq<Seq<char>> {
    seq![
        "licht an"@, "lichter an"@, "lampen an"@, "alle lichter an"@, "alle lampen an"@,
        "alles an"@, "govee an"@, "rgb an"@, "pc rgb an"@, "pc licht an"@, "einschalten"@,
        "anschalten"@, "anmachen"@, "online"@,
    ]
}

/// Whether the text switches lights off (`false`) or on (`true`).
pub open spec fn power_of(s: Seq<char>) -> Option<bool> {
    if contains_any(s, off_words()) {
        Some(false)
    } else if contains_any(s, on_words()) {
        Some(true)
    } else {
        None
    }
}

fn extract_power(s: &Vec<char>) -> (r: Option<bool>)
    ensures
        r == power_of(s@),
{
    let off: [&str; 15] = [
        "licht aus", "lichter aus", "lampen aus", "alle lichter aus", "alle lampen aus",
        "alles aus", "govee aus", "rgb aus", "pc rgb aus", "pc licht aus", "ausschalten",
        "abschalten", "ausmachen", "offline", "dunkel machen",
    ];
    let on: [&str; 14] = [
        "licht an", "lichter an", "lampen an", "alle lichter an", "alle lampen an", "alles an",
        "govee an", "rgb an", "pc rgb an", "pc licht an", "einschalten", "anschalten", "anmachen",
        "online",
    ];
    assert(views(off@) =~= off_words());
    assert(views(on@) =~= on_words());
    if contains_any_str(s, &off) {
        Some(false)
    } else if contains_any_str(s, &on) {
        Some(true)
    } else {
        None
    }
}

/// A single Govee lamp named in a command.
#[derive(Clone, Copy, PartialEq, Eq, Structural)]
pub enum Lamp {
    Ceiling,
    Ceiling2,
    Floor,
    Rachel,
}

/// The lamp's name in action parameters.
pub open spec fn lamp_name(l: Lamp) -> &'static str {
    match l {
        Lamp::Ceiling => "deckenlampe",
        Lamp::Ceiling2 => "deckenlampe2",
        Lamp::Floor => "stehlampe",
        Lamp::Rachel => "rachel",
    }
}

fn lamp_name_exec(l: Lamp) -> (r: &'static str)
    ensures
        r == lamp_name(l),
{
    match l {
        Lamp::Ceiling => "deckenlampe",
        Lamp::Ceiling2 => "deckenlampe2",
        Lamp::Floor => "stehlampe",
        Lamp::Rachel => "rachel",
    }
}

pub open spec fn ceiling2_words() -> Seq<Seq<char>> {
    seq!["deckenlampe 2"@, "deckenlampe2"@, "zweite deckenlampe"@, "decke 2"@]
}

/// The single Govee lamp a text names, if any.
pub open spec fn lamp_of(s: Seq<char>) -> Option<Lamp> {
    if contains_any(s, seq!["rachel"@]) {
        Some(Lamp::Rachel)
    } else if contains_any(s, seq!["stehlampe"@, "bodenlampe"@]) {
        Some(Lamp::Floor)
    } else if contains_any(s, ceiling2_words()) {
        Some(Lamp::Ceiling2)
    } else if contains_any(s, seq!["deckenlampe"@, "decke"@, "deckenlicht"@]) {
        Some(Lamp::Ceiling)
    } else {
        None
    }
}

fn detect_govee_lamp(s: &Vec<char>) -> (r: Option<Lamp>)
    ensures
        r == lamp_of(s@),
{
    let rachel: [&str; 1] = ["rachel"];
    let floor: [&str; 2] = ["stehlampe", "bodenlampe"];
    let c2: [&str; 4] = ["deckenlampe 2", "deckenlampe2", "zweite deckenlampe", "decke 2"];
    let c1: [&str; 3] = ["deckenlampe", "decke", "deckenlicht"];
    assert(views(rachel@) =~= seq!["rachel"@]);
    assert(views(floor@) =~= seq!["stehlampe"@, "bodenlampe"@]);
    assert(views(c2@) =~= ceiling2_words());
    assert(views(c1@) =~= seq!["deckenlampe"@, "decke"@, "deckenlicht"@]);
    if contains_any_str(s, &rachel) {
        Some(Lamp::Rachel)
    } else if contains_any_str(s, &floor) {
        Some(Lamp::Floor)
    } else if contains_any_str(s, &c2) {
        Some(Lamp::Ceiling2)
    } else if contains_any_str(s, &c1) {
        Some(Lamp::Ceiling)
    } else {
        None
    }
}

/// A colour command: its action, reply and parameters.
pub type ColorIntent = (&'static str, Seq<char>, ActionParams);

pub open spec fn purple_words() -> Seq<Seq<char>> {
    seq!["lila"@, "lilan"@, "violett"@, "purple"@, "magenta"@]
}

/// The named colour (other than purple) with its default reply.
pub open spec fn rgb_of(s: Seq<char>) -> Option<(u8, u8, u8, Seq<char>)> {
    if contains_any(s, seq!["rot"@, "red"@]) {
        Some((255, 0, 0, "Red. Excellent choice, Sir."@))
    } else if contains_any(s, seq!["blau"@, "blue"@]) {
        Some((0, 0, 255, "Blue, immediately."@))
    } else if contains_any(s, seq!["gruen"@, "grun"@, "green"@]) {
        Some((0, 255, 0, "Green. Done."@))
    } else if contains_any(s, seq!["orange"@]) {
        Some((255, 140, 0, "Orange. Applied across the lighting grid."@))
    } else if contains_any(s, seq!["weiss"@, "white"@]) {
        Some((255, 255, 255, "White. Clean, Sir."@))
    } else {
        None
    }
}

pub open spec fn purple_lamp_reply(l: Lamp) -> Seq<char> {
    match l {
        Lamp::Ceiling => "Applying purple to the ceiling lamp."@,
        Lamp::Ceiling2 => "Applying purple to ceiling lamp two."@,
        Lamp::Floor => "Applying purple to the floor lamp."@,
        Lamp::Rachel => "Applying purple to Rachel."@,
    }
}

pub open spec fn color_lamp_reply(l: Lamp) -> Seq<char> {
    match l {
        Lamp::Ceiling => "Setting the ceiling lamp color."@,
        Lamp::Ceiling2 => "Setting ceiling lamp two."@,
        Lamp::Floor => "Setting the floor lamp color."@,
        Lamp::Rachel => "Setting Rachel's color."@,
    }
}

/// The colour command of a text: purple goes by scene, other colours by RGB
/// value; a named lamp narrows Govee commands and its reply.
pub open spec fn color_intent(s: Seq<char>, scope: Option<Scope>) -> Option<ColorIntent> {
    let sc = if contains_any(s, explicit_all_words()) {
        Scope::All
    } else {
        match scope {
            Some(x) => x,
            None => Scope::All,
        }
    };
    let lamp = lamp_of(s);
    if contains_any(s, purple_words()) {
        Some(
            match sc {
                Scope::All => ("light_purple", "Purple, across the full lighting grid."@, ActionParams::Empty),
                Scope::Govee => match lamp {
                    Some(l) => (
                        "govee_lamp_color",
                        purple_lamp_reply(l),
                        ActionParams::LampColor { lamp: lamp_name(l), r: 128, g: 0, b: 255 },
                    ),
                    None => ("govee_purple", "Applying the purple scene to Govee."@, ActionParams::Empty),
                },
                Scope::Rgb => ("rgb_purple", "Applying the purple scene to PC RGB."@, ActionParams::Empty),
            },
        )
    } else {
        match rgb_of(s) {
            None => None,
            Some((r, g, b, reply)) => {
                let action = match sc {
                    Scope::All => "light_color",
                    Scope::Govee => if lamp is Some {
                        "govee_lamp_color"
                    } else {
                        "govee_color"
                    },
                    Scope::Rgb => "rgb_color",
                };
                match lamp {
                    Some(l) => Some(
                        (action, color_lamp_reply(l), ActionParams::LampColor { lamp: lamp_name(l), r, g, b }),
                    ),
                    None => Some((action, reply, ActionParams::Color { r, g, b })),
                }
            },
        }
    }
}

fn purple_lamp_reply_exec(l: Lamp) -> (r: &'static str)
    ensures
        r@ == purple_lamp_reply(l),
{
    match l {
        Lamp::Ceiling => "Applying purple to the ceiling lamp.",
        Lamp::Ceiling2 => "Applying purple to ceiling lamp two.",
        Lamp::Floor => "Applying purple to the floor lamp.",
        Lamp::Rachel => "Applying purple to Rachel.",
    }
}

fn color_lamp_reply_exec(l: Lamp) -> (r: &'static str)
    ensures
        r@ == color_lamp_reply(l),
{
    match l {
        Lamp::Ceiling => "Setting the ceiling lamp color.",
        Lamp::Ceiling2 => "Setting ceiling lamp two.",
        Lamp::Floor => "Setting the floor lamp color.",
        Lamp::Rachel => "Setting Rachel's color.",
    }
}

fn rgb_exec(s: &Vec<char>) -> (r: Option<(u8, u8, u8, &'static str)>)
    ensures
        match r {
            Some((x, y, z, reply)) => rgb_of(s@) == Some((x, y, z, reply@)),
            None => rgb_of(s@) is None,
        },
{
    let red: [&str; 2] = ["rot", "red"];
    let blue: [&str; 2] = ["blau", "blue"];
    let green: [&str; 3] = ["gruen", "grun", "green"];
    let orange: [&str; 1] = ["orange"];
    let white: [&str; 2] = ["weiss", "white"];
    assert(views(red@) =~= seq!["rot"@, "red"@]);
    assert(views(blue@) =~= seq!["blau"@, "blue"@]);
    assert(views(green@) =~= seq!["gruen"@, "grun"@, "green"@]);
    assert(views(orange@) =~= seq!["orange"@]);
    assert(views(white@) =~= seq!["weiss"@, "white"@]);
    if contains_any_str(s, &red) {
        Some((255, 0, 0, "Red. Excellent choice, Sir."))
    } else if contains_any_str(s, &blue) {
        Some((0, 0, 255, "Blue, immediately."))
    } else if contains_any_str(s, &green) {
        Some((0, 255, 0, "Green. Done."))
    } else if contains_any_str(s, &orange) {
        Some((255, 140, 0, "Orange. Applied across the lighting grid."))
    } else if contains_any_str(s, &white) {
        Some((255, 255, 255, "White. Clean, Sir."))
    } else {
        None
    }
}

fn extract_color_intent(s: &Vec<char>, scope: Option<Scope>) -> (r: Option<(&'static str, &'static str, ActionParams)>)
    ensures
        match r {
            Some((a, reply, p)) => color_intent(s@, scope) == Some((a, reply@, p)),
            None => color_intent(s@, scope) is None,
        },
{
    let all: [&str; 6] = [
        "alles", "alle lichter", "alle lampen", "komplette beleuchtung", "gesamte beleuchtung",
        "lichter",
    ];
    let purple: [&str; 5] = ["lila", "lilan", "violett", "purple", "magenta"];
    assert(views(all@) =~= explicit_all_words());
    assert(views(purple@) =~= purple_words());
    let sc = if contains_any_str(s, &all) {
        Scope::All
    } else {
        match scope {
            Some(x) => x,
            None => Scope::All,
        }
    };
    let lamp = detect_govee_lamp(s);
    if contains_any_str(s, &purple) {
        return Some(
            match sc {
                Scope::All => ("light_purple", "Purple, across the full lighting grid.", ActionParams::Empty),
                Scope::Govee => match lamp {
                    Some(l) => (
                        "govee_lamp_color",
                        purple_lamp_reply_exec(l),
                        ActionParams::LampColor { lamp: lamp_name_exec(l), r: 128, g: 0, b: 255 },
                    ),
                    None => ("govee_purple", "Applying the purple scene to Govee.", ActionParams::Empty),
                },
                Scope::Rgb => ("rgb_purple", "Applying the purple scene to PC RGB.", ActionParams::Empty),
            },
        );
    }
    match rgb_exec(s) {
        None => None,
        Some((r, g, b, reply)) => {
            let action = match sc {
                Scope::All => "light_color",
                Scope::Govee => if lamp.is_some() {
                    "govee_lamp_color"
                } else {
                    "govee_color"
                },
                Scope::Rgb => "rgb_color",
            };
            match lamp {
                Some(l) => Some(
                    (action, color_lamp_reply_exec(l), ActionParams::LampColor { lamp: lamp_name_exec(l), r, g, b }),
                ),
                None => Some((action, reply, ActionParams::Color { r, g, b })),
            }
        },
    }
}

pub open spec fn fan_guard_words() -> Seq<Seq<char>> {
    seq!["luefter"@, "fan"@, "fans"@, "geblase"@, "geblaese"@, "ventilator"@]
}

pub open spec fn brightness_context_words() -> Seq<Seq<char>> {
    seq!["%"@, "prozent"@, "helligkeit"@, "auf"@, "heller"@, "dunkler"@, "brightness"@]
}

/// The words around word `i`: up to two before and two after, joined by spaces.
pub open spec fn window(ws: Seq<Seq<char>>, i: int) -> Seq<char> {
    let lo = if i >= 2 { i - 2 } else { 0 };
    let hi = if i + 2 < ws.len() - 1 { i + 2 } else { ws.len() - 1 };
    join(ws.subrange(lo, hi + 1), " "@)
}

/// The first number `1..=100` from word `i` on whose window speaks of brightness.
pub open spec fn brightness_from(ws: Seq<Seq<char>>, i: int) -> Option<u8>
    decreases ws.len() - i,
{
    if i < 0 || i >= ws.len() {
        None
    } else {
        match word_number(ws[i]) {
            Some(v) if 1 <= v <= 100 && contains_any(window(ws, i), brightness_context_words()) => Some(
                v as u8,
            ),
            _ => brightness_from(ws, i + 1),
        }
    }
}

/// A brightness level in the text; never for fan commands.
pub open spec fn brightness_of(s: Seq<char>) -> Option<u8> {
    if contains_any(s, fan_guard_words()) {
        None
    } else {
        brightness_from(words(s), 0)
    }
}

fn window_exec(ws: &Vec<Vec<char>>, i: usize) -> (r: Vec<char>)
    requires
        i < ws.len(),
    ensures
        r@ == window(vviews(ws@), i as int),
{
    let lo: usize = if i >= 2 { i - 2 } else { 0 };
    let hi: usize = if ws.len() >= 3 && i < ws.len() - 3 { i + 2 } else { ws.len() - 1 };
    let mut win: Vec<Vec<char>> = Vec::new();
    let mut k: usize = lo;
    while k <= hi
        invariant
            lo <= k <= hi + 1,
            hi < ws.len(),
            vviews(win@) == vviews(ws@).subrange(lo as int, k as int),
        decreases hi + 1 - k,
    {
        let mut w: Vec<char> = Vec::new();
        push_all(&mut w, &ws[k]);
        assert(w@ =~= vviews(ws@)[k as int]);
        assert(vviews(win@.push(w)) =~= vviews(win@).push(w@));
        assert(vviews(ws@).subrange(lo as int, k + 1) =~= vviews(ws@).subrange(lo as int, k as int).push(
            vviews(ws@)[k as int],
        ));
        assert(vviews(win@.push(w)) =~= vviews(ws@).subrange(lo as int, k + 1));
        win.push(w);
        k = k + 1;
    }
    join_chars(&win, " ")
}

fn extract_brightness(s: &Vec<char>) -> (r: Option<u8>)
    ensures
        r == brightness_of(s@),
{
    let guard: [&str; 6] = ["luefter", "fan", "fans", "geblase", "geblaese", "ventilator"];
    let ctx: [&str; 7] = ["%", "prozent", "helligkeit", "auf", "heller", "dunkler", "brightness"];
    assert(views(guard@) =~= fan_guard_words());
    assert(views(ctx@) =~= brightness_context_words());
    if contains_any_str(s, &guard) {
        return None;
    }
    let ws = split_ws(s);
    let mut i: usize = 0;
    while i < ws.len()
        invariant
            i <= ws.len(),
            vviews(ws@) == words(s@),
            views(ctx@) == brightness_context_words(),
            !contains_any(s@, fan_guard_words()),
            brightness_from(words(s@), 0) == brightness_from(words(s@), i as int),
        decreases ws.len() - i,
    {
        assert(vviews(ws@)[i as int] == ws@[i as int]@);
        match word_number_exec(&ws[i]) {
            Some(v) => {
                if 1 <= v && v <= 100 {
                    let w = window_exec(&ws, i);
                    if contains_any_str(&w, &ctx) {
                        assert(brightness_from(vviews(ws@), i as int) == Some(v as u8));
                        return Some(v as u8);
                    }
                }
            },
            None => {},
        }
        i = i + 1;
    }
    None
}

pub open spec fn power_action(sc: Scope, on: bool) -> KeywordAction {
    KeywordAction {
        action: match sc {
            Scope::All => "light_power",
            Scope::Govee => "govee_power",
            Scope::Rgb => "rgb_power",
        },
        params: ActionParams::Power(on),
    }
}

pub open spec fn brightness_action(sc: Scope, b: u8) -> KeywordAction {
    KeywordAction {
        action: match sc {
            Scope::All => "light_brightness",
            Scope::Govee => "govee_brightness",
            Scope::Rgb => "rgb_brightness",
        },
        params: ActionParams::Brightness(b),
    }
}

pub open spec fn power_reply(sc: Scope, on: bool) -> Seq<char> {
    match (sc, on) {
        (Scope::All, true) => "Right away, Sir. Bringing all lights online."@,
        (Scope::All, false) => "Certainly, Sir. Turning the lights off."@,
        (Scope::Govee, true) => "Govee lights online, Sir."@,
        (Scope::Govee, false) => "Govee lights going offline."@,
        (Scope::Rgb, true) => "PC lighting enabled."@,
        (Scope::Rgb, false) => "PC lighting shutting down."@,
    }
}

pub open spec fn brightness_reply(sc: Scope, b: u8) -> Seq<char> {
    match sc {
        Scope::All => "Brightness set to "@ + dec(b as nat) + " percent, Sir."@,
        Scope::Govee => "Setting Govee brightness to "@ + dec(b as nat) + " percent."@,
        Scope::Rgb => "Setting PC RGB brightness to "@ + dec(b as nat) + " percent."@,
    }
}

fn power_action_exec(sc: Scope, on: bool) -> (r: KeywordAction)
    ensures
        r == power_action(sc, on),
{
    let action = match sc {
        Scope::All => "light_power",
        Scope::Govee => "govee_power",
        Scope::Rgb => "rgb_power",
    };
    KeywordAction { action, params: ActionParams::Power(on) }
}

fn brightness_action_exec(sc: Scope, b: u8) -> (r: KeywordAction)
    ensures
        r == brightness_action(sc, b),
{
    let action = match sc {
        Scope::All => "light_brightness",
        Scope::Govee => "govee_brightness",
        Scope::Rgb => "rgb_brightness",
    };
    KeywordAction { action, params: ActionParams::Brightness(b) }
}

fn power_reply_exec(sc: Scope, on: bool) -> (r: Vec<char>)
    ensures
        r@ == power_reply(sc, on),
{
    let text = match (sc, on) {
        (Scope::All, true) => "Right away, Sir. Bringing all lights online.",
        (Scope::All, false) => "Certainly, Sir. Turning the lights off.",
        (Scope::Govee, true) => "Govee lights online, Sir.",
        (Scope::Govee, false) => "Govee lights going offline.",
        (Scope::Rgb, true) => "PC lighting enabled.",
        (Scope::Rgb, false) => "PC lighting shutting down.",
    };
    chars_of(text)
}

fn brightness_reply_exec(sc: Scope, b: u8) -> (r: Vec<char>)
    ensures
        r@ == brightness_reply(sc, b),
{
    let (prefix, suffix) = match sc {
        Scope::All => ("Brightness set to ", " percent, Sir."),
        Scope::Govee => ("Setting Govee brightness to ", " percent."),
        Scope::Rgb => ("Setting PC RGB brightness to ", " percent."),
    };
    let mut r: Vec<char> = Vec::new();
    push_str(&mut r, prefix);
    push_dec(&mut r, b as u64);
    push_str(&mut r, suffix);
    r
}

pub open spec fn light_context_words() -> Seq<Seq<char>> {
    seq![
        "licht"@, "lichter"@, "lampe"@, "lampen"@, "beleuchtung"@, "alles"@, "govee"@,
        "deckenlampe"@, "stehlampe"@, "rachel"@, "rgb"@, "pc"@, "corsair"@,
    ]
}

/// Light commands of a segment: power, colour and brightness, in that order,
/// under the segment's own scope or the one inherited from earlier segments.
pub open spec fn light_segment(s: Seq<char>, inherited: Option<Scope>) -> Option<Seg> {
    let scope = match scope_of(s) {
        Some(x) => Some(x),
        None => inherited,
    };
    let sc = match scope {
        Some(x) => x,
        None => Scope::All,
    };
    let (pa, pr) = match power_of(s) {
        Some(on) => (seq![power_action(sc, on)], seq![power_reply(sc, on)]),
        None => (Seq::<KeywordAction>::empty(), Seq::<Seq<char>>::empty()),
    };
    let (ca, cr) = match color_intent(s, scope) {
        Some((a, r, p)) => (seq![KeywordAction { action: a, params: p }], seq![r]),
        None => (Seq::<KeywordAction>::empty(), Seq::<Seq<char>>::empty()),
    };
    let (ba, br) = match brightness_of(s) {
        Some(b) => if scope is Some || contains_any(s, light_context_words()) {
            (seq![brightness_action(sc, b)], seq![brightness_reply(sc, b)])
        } else {
            (Seq::<KeywordAction>::empty(), Seq::<Seq<char>>::empty())
        },
        None => (Seq::<KeywordAction>::empty(), Seq::<Seq<char>>::empty()),
    };
    let acts = pa + ca + ba;
    if acts.len() == 0 {
        None
    } else {
        Some((scope, join(pr + cr + br, " "@), acts))
    }
}

fn parse_lights(s: &Vec<char>, inherited: Option<Scope>) -> (r: Option<ParsedSegment>)
    ensures
        opt_seg(r) == light_segment(s@, inherited),
{
    let ctx: [&str; 13] = [
        "licht", "lichter", "lampe", "lampen", "beleuchtung", "alles", "govee", "deckenlampe",
        "stehlampe", "rachel", "rgb", "pc", "corsair",
    ];
    assert(views(ctx@) =~= light_context_words());
    let scope = match detect_scope(s) {
        Some(x) => Some(x),
        None => inherited,
    };
    let sc = match scope {
        Some(x) => x,
        None => Scope::All,
    };
    let mut actions: Vec<KeywordAction> = Vec::new();
    let mut replies: Vec<Vec<char>> = Vec::new();
    let ghost mut pa = Seq::<KeywordAction>::empty();
    let ghost mut pr = Seq::<Seq<char>>::empty();
    match extract_power(s) {
        Some(on) => {
            actions.push(power_action_exec(sc, on));
            replies.push(power_reply_exec(sc, on));
            proof {
                pa = seq![power_action(sc, on)];
                pr = seq![power_reply(sc, on)];
            }
        },
        None => {},
    }
    assert(actions@ == pa);
    assert(vviews(replies@) =~= pr);
    let ghost mut ca = Seq::<KeywordAction>::empty();
    let ghost mut cr = Seq::<Seq<char>>::empty();
    match extract_color_intent(s, scope) {
        Some((a, reply, p)) => {
            actions.push(KeywordAction { action: a, params: p });
            replies.push(chars_of(reply));
            proof {
                ca = seq![KeywordAction { action: a, params: p }];
                cr = seq![reply@];
            }
        },
        None => {},
    }
    assert(actions@ =~= pa + ca);
    assert(vviews(replies@) =~= pr + cr);
    let ghost mut ba = Seq::<KeywordAction>::empty();
    let ghost mut br = Seq::<Seq<char>>::empty();
    match extract_brightness(s) {
        Some(b) => {
            if scope.is_some() || contains_any_str(s, &ctx) {
                actions.push(brightness_action_exec(sc, b));
                replies.push(brightness_reply_exec(sc, b));
                proof {
                    ba = seq![brightness_action(sc, b)];
                    br = seq![brightness_reply(sc, b)];
                }
            }
        },
        None => {},
    }
    assert(actions@ =~= pa + ca + ba);
    assert(vviews(replies@) =~= pr + cr + br);
    if actions.len() == 0 {
        None
    } else {
        let reply = join_chars(&replies, " ");
        Some(ParsedSegment { scope, reply, actions })
    }
}

/// One segment: queries, screen, watering, fans, desktop and volume commands
/// are tried first, in that order; otherwise light commands.
pub open spec fn segment_parse(s: Seq<char>, inherited: Option<Scope>) -> Option<Seg> {
    if query_segment(s) is Some {
        query_segment(s)
    } else if screen_segment(s) is Some {
        screen_segment(s)
    } else if water_segment(s) is Some {
        water_segment(s)
    } else if fan_segment(s) is Some {
        fan_segment(s)
    } else if desktop_segment(s) is Some {
        desktop_segment(s)
    } else if volume_segment(s) is Some {
        volume_segment(s)
    } else {
        light_segment(s, inherited)
    }
}

fn parse_segment(s: &Vec<char>, inherited: Option<Scope>) -> (r: Option<ParsedSegment>)
    ensures
        opt_seg(r) == segment_parse(s@, inherited),
{
    let q = parse_query(s);
    if q.is_some() {
        return q;
    }
    let p = parse_screen_brightness(s);
    if p.is_some() {
        return p;
    }
    let p = parse_watering(s);
    if p.is_some() {
        return p;
    }
    let p = parse_fan(s);
    if p.is_some() {
        return p;
    }
    let p = parse_desktop_action(s);
    if p.is_some() {
        return p;
    }
    let p = parse_volume(s);
    if p.is_some() {
        return p;
    }
    parse_lights(s, inherited)
}

// ─── Segments and the whole input ─────────────────────────────

/// The input with "und dann", "danach" and "dann" turned into commas.
pub open spec fn segment_text(s: Seq<char>) -> Seq<char> {
    replace(replace(replace(s, " und dann "@, ","@), " danach "@, ","@), " dann "@, ","@)
}

/// The trimmed, non-empty comma-separated parts of the input.
pub open spec fn segments(s: Seq<char>) -> Seq<Seq<char>> {
    nonempty_trimmed(split_char(segment_text(s), ','))
}

fn split_segments(s: &Vec<char>) -> (r: Vec<Vec<char>>)
    ensures
        vviews(r@) == segments(s@),
{
    proof {
        reveal_strlit(" und dann ");
        reveal_strlit(" danach ");
        reveal_strlit(" dann ");
    }
    let t = replace_chars(s, " und dann ", ",");
    let t = replace_chars(&t, " danach ", ",");
    let t = replace_chars(&t, " dann ", ",");
    let pieces = split_char_vec(&t, ',');
    let mut out: Vec<Vec<char>> = Vec::new();
    let mut i: usize = 0;
    while i < pieces.len()
        invariant
            i <= pieces.len(),
            vviews(out@) == nonempty_trimmed(vviews(pieces@).take(i as int)),
        decreases pieces.len() - i,
    {
        let ghost pre = vviews(pieces@).take(i + 1);
        assert(pre.drop_last() =~= vviews(pieces@).take(i as int));
        assert(pre.last() == pieces@[i as int]@);
        let tr = trim_chars(&pieces[i]);
        if tr.len() > 0 {
            assert(vviews(out@.push(tr)) =~= vviews(out@).push(tr@));
            out.push(tr);
        }
        i = i + 1;
    }
    assert(vviews(pieces@).take(pieces.len() as int) =~= vviews(pieces@));
    out
}

/// Scope hint, replies and actions after the first `n` segments.
pub open spec fn fast_state(segs: Seq<Seq<char>>, n: int, hint: Option<Scope>) -> (
    Option<Scope>,
    Seq<Seq<char>>,
    Seq<KeywordAction>,
)
    decreases n,
{
    if n <= 0 {
        (hint, seq![], seq![])
    } else {
        let prev = fast_state(segs, n - 1, hint);
        let t = trim(segs[n - 1]);
        if t.len() == 0 {
            prev
        } else {
            match segment_parse(t, prev.0) {
                None => prev,
                Some((sc, reply, acts)) => (
                    match sc {
                        Some(x) => Some(x),
                        None => prev.0,
                    },
                    if reply.len() > 0 {
                        prev.1.push(reply)
                    } else {
                        prev.1
                    },
                    prev.2 + acts,
                ),
            }
        }
    }
}

/// The replies joined by spaces, or an acknowledgement when there are none.
pub open spec fn compose_reply(parts: Seq<Seq<char>>) -> Seq<char> {
    if parts.len() == 0 {
        "Understood, Sir."@
    } else {
        join(parts, " "@)
    }
}

/// The reply and actions that the fast path finds in normalised text, if any
/// action is found at all.
pub open spec fn fast_parse(s: Seq<char>) -> Option<(Seq<char>, Seq<KeywordAction>)> {
    let segs = segments(s);
    let st = fast_state(segs, segs.len() as int, scope_of(s));
    if st.2.len() == 0 {
        None
    } else {
        Some((compose_reply(st.1), st.2))
    }
}

fn compose_reply_exec(parts: &Vec<Vec<char>>) -> (r: Vec<char>)
    ensures
        r@ == compose_reply(vviews(parts@)),
{
    if parts.len() == 0 {
        chars_of("Understood, Sir.")
    } else {
        join_chars(parts, " ")
    }
}

/// The fast path on text that is already normalised.
pub fn fast_parse_normalized(normalized: &str) -> (r: Option<(String, Vec<KeywordAction>)>)
    ensures
        match r {
            Some((reply, acts)) => fast_parse(normalized@) == Some((reply@, acts@)),
            None => fast_parse(normalized@) is None,
        },
{
    let s = chars_of(normalized);
    let segs = split_segments(&s);
    let mut hint = detect_scope(&s);
    let mut replies: Vec<Vec<char>> = Vec::new();
    let mut actions: Vec<KeywordAction> = Vec::new();
    let mut i: usize = 0;
    while i < segs.len()
        invariant
            i <= segs.len(),
            vviews(segs@) == segments(s@),
            (hint, vviews(replies@), actions@) == fast_state(vviews(segs@), i as int, scope_of(s@)),
        decreases segs.len() - i,
    {
        assert(vviews(segs@)[i as int] == segs@[i as int]@);
        let t = trim_chars(&segs[i]);
        if t.len() > 0 {
            match parse_segment(&t, hint) {
                Some(p) => {
                    if p.scope.is_some() {
                        hint = p.scope;
                    }
                    if p.reply.len() > 0 {
                        assert(vviews(replies@.push(p.reply)) =~= vviews(replies@).push(p.reply@));
                        replies.push(p.reply);
                    }
                    let mut k: usize = 0;
                    let ghost before = actions@;
                    while k < p.actions.len()
                        invariant
                            k <= p.actions.len(),
                            actions@ == before + p.actions@.take(k as int),
                        decreases p.actions.len() - k,
                    {
                        actions.push(p.actions[k]);
                        assert(before + p.actions@.take(k + 1) =~= (before + p.actions@.take(
                            k as int,
                        )).push(p.actions@[k as int]));
                        k = k + 1;
                    }
                    assert(p.actions@.take(p.actions.len() as int) =~= p.actions@);
                },
                None => {},
            }
        }
        i = i + 1;
    }
    if actions.len() == 0 {
        None
    } else {
        let reply = compose_reply_exec(&replies);
        Some((string_of(&reply), actions))
    }
}

/// Recognises common commands by keyword, so they bypass the language model:
/// the reply to speak and the actions to run, or `None` when nothing matched.
pub fn try_fast_parse(input: &str) -> (r: Option<(String, Vec<KeywordAction>)>)
    ensures
        match r {
            Some((reply, acts)) => fast_parse(normalized(input@)) == Some((reply@, acts@)),
            None => fast_parse(normalized(input@)) is None,
        },
{
    let n = normalize_input(input);
    fast_parse_normalized(n.as_str())
}

} // verus!
