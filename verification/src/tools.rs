//! The assistant's tools: reading an action's parameters, with the defaults
//! each tool uses, and the messages reported once a tool has run.

use vstd::prelude::*;
use vstd::string::*;
use crate::assistant::ActionResult;
use crate::intent::{lowercase, to_lowercase};
use crate::text::{chars_of, contains, contains_chars, dec, eq_str, push_all, push_dec, push_str, string_of};

verus! {

// ─── Parameters ───────────────────────────────────────────────

/// A parameter value as the tools read it: a boolean, a non-negative
/// integer, a string, or anything else (which every tool ignores).
#[derive(Debug, Clone)]
pub enum ParamValue {
    Bool(bool),
    UInt(u64),
    Text(String),
    Other,
}

/// The value under `key` (keys of a JSON object are unique).
pub open spec fn lookup(p: Seq<(String, ParamValue)>, key: Seq<char>) -> Option<ParamValue>
    decreases p.len(),
{
    if p.len() == 0 {
        None
    } else if p[0].0@ == key {
        Some(p[0].1)
    } else {
        lookup(p.drop_first(), key)
    }
}

/// `params.get(key).and_then(as_bool).unwrap_or(d)`.
pub open spec fn bool_param(p: Seq<(String, ParamValue)>, key: Seq<char>, d: bool) -> bool {
    match lookup(p, key) {
        Some(ParamValue::Bool(b)) => b,
        _ => d,
    }
}

/// `params.get(key).and_then(as_u64).unwrap_or(d)`.
pub open spec fn u64_param(p: Seq<(String, ParamValue)>, key: Seq<char>, d: u64) -> u64 {
    match lookup(p, key) {
        Some(ParamValue::UInt(n)) => n,
        _ => d,
    }
}

/// `params.get(key).and_then(as_str).unwrap_or(d)`.
pub open spec fn text_param(p: Seq<(String, ParamValue)>, key: Seq<char>, d: Seq<char>) -> Seq<char> {
    match lookup(p, key) {
        Some(ParamValue::Text(s)) => s@,
        _ => d,
    }
}

/// `params.get(key).and_then(as_u64).unwrap_or(d) as u8`.
pub open spec fn byte_param(p: Seq<(String, ParamValue)>, key: Seq<char>, d: u64) -> u8 {
    u64_param(p, key, d) as u8
}

fn find_param(p: &[(String, ParamValue)], key: &str) -> (r: Option<usize>)
    ensures
        match r {
            Some(i) => i < p@.len() && lookup(p@, key@) == Some(p@[i as int].1),
            None => lookup(p@, key@) is None,
        },
{
    let mut i: usize = 0;
    assert(p@.skip(0) =~= p@);
    while i < p.len()
        invariant
            i <= p@.len(),
            lookup(p@, key@) == lookup(p@.skip(i as int), key@),
        decreases p.len() - i,
    {
        assert(p@.skip(i as int)[0] == p@[i as int]);
        if eq_str(&chars_of(p[i].0.as_str()), key) {
            return Some(i);
        }
        assert(p@.skip(i as int).drop_first() =~= p@.skip(i + 1));
        i = i + 1;
    }
    None
}

pub fn param_bool(p: &[(String, ParamValue)], key: &str, d: bool) -> (r: bool)
    ensures
        r == bool_param(p@, key@, d),
{
    match find_param(p, key) {
        Some(i) => match &p[i].1 {
            ParamValue::Bool(b) => *b,
            _ => d,
        },
        None => d,
    }
}

pub fn param_u64(p: &[(String, ParamValue)], key: &str, d: u64) -> (r: u64)
    ensures
        r == u64_param(p@, key@, d),
{
    match find_param(p, key) {
        Some(i) => match &p[i].1 {
            ParamValue::UInt(n) => *n,
            _ => d,
        },
        None => d,
    }
}

pub fn param_text(p: &[(String, ParamValue)], key: &str, d: &str) -> (r: String)
    ensures
        r@ == text_param(p@, key@, d@),
{
    match find_param(p, key) {
        Some(i) => match &p[i].1 {
            ParamValue::Text(s) => s.clone(),
            _ => d.to_string(),
        },
        None => d.to_string(),
    }
}

pub fn param_byte(p: &[(String, ParamValue)], key: &str, d: u64) -> (r: u8)
    ensures
        r == byte_param(p@, key@, d),
{
    let v = param_u64(p, key, d);
    #[verifier::truncate]
    (v as u8)
}

// ─── Requests ─────────────────────────────────────────────────

/// A tool call with its parameters read and defaulted.
#[derive(Debug, Clone)]
pub enum ToolRequest {
    LightPower { power: bool },
    GoveePower { power: bool },
    RgbPower { power: bool },
    LightBrightness { percent: u8 },
    GoveeBrightness { percent: u8 },
    GoveeColor { r: u8, g: u8, b: u8 },
    GoveeLampColor { lamp: String, r: u8, g: u8, b: u8 },
    GoveePurple,
    RgbPurple,
    RgbBrightness { percent: u8 },
    LightPurple,
    LightColor { r: u8, g: u8, b: u8 },
    RgbColor { r: u8, g: u8, b: u8 },
    WaterPlant { seconds: u32 },
    FanSpeed { auto: bool, percent: u64 },
    RgbMode { mode_name: String, mode_id: usize, speed: Option<u32> },
    SnapshotCreate { description: String },
    PiReboot { target: String },
    MusicStop,
    SystemInfo,
    FanStatus,
    PiStatus,
    SnapshotList,
    TimerInfo,
    TentStatus,
    SystemStatus,
    Unknown,
}

/// The OpenRGB mode number for a mode name (already lowercased); unknown
/// names give the static mode.
pub open spec fn mode_id_of(l: Seq<char>) -> usize {
    if l == "off"@ {
        0
    } else if l == "static"@ {
        1
    } else if l == "pulse"@ {
        2
    } else if l == "blink"@ || l == "blinking"@ {
        3
    } else if l == "cycle"@ || l == "colorcycle"@ || l == "color_cycle"@ {
        4
    } else if l == "wave"@ {
        5
    } else if l == "random"@ {
        6
    } else {
        1
    }
}

/// The mode number for a mode name, compared case-insensitively.
pub fn rgb_mode_id(name: &str) -> (r: usize)
    ensures
        r == mode_id_of(lowercase(name@)),
{
    let l = chars_of(to_lowercase(name).as_str());
    if eq_str(&l, "off") {
        0
    } else if eq_str(&l, "static") {
        1
    } else if eq_str(&l, "pulse") {
        2
    } else if eq_str(&l, "blink") || eq_str(&l, "blinking") {
        3
    } else if eq_str(&l, "cycle") || eq_str(&l, "colorcycle") || eq_str(&l, "color_cycle") {
        4
    } else if eq_str(&l, "wave") {
        5
    } else if eq_str(&l, "random") {
        6
    } else {
        1
    }
}

/// The optional animation speed: `as_u64().map(|v| v as u32)`.
pub open spec fn speed_param(p: Seq<(String, ParamValue)>) -> Option<u32> {
    match lookup(p, "speed"@) {
        Some(ParamValue::UInt(n)) => Some(n as u32),
        _ => None,
    }
}

/// What a tool call asks for. Colours default to blue (0, 0, 255),
/// brightness to 100 %, power to on, watering to 10 s (at most 60 s), the
/// fan speed to 50 % and the lamp to the ceiling lamp.
pub open spec fn request_is(q: ToolRequest, a: Seq<char>, p: Seq<(String, ParamValue)>) -> bool {
    let r = byte_param(p, "r"@, 0);
    let g = byte_param(p, "g"@, 0);
    let b = byte_param(p, "b"@, 255);
    if a == "light_power"@ {
        q == ToolRequest::LightPower { power: bool_param(p, "power"@, true) }
    } else if a == "govee_power"@ {
        q == ToolRequest::GoveePower { power: bool_param(p, "power"@, true) }
    } else if a == "rgb_power"@ {
        q == ToolRequest::RgbPower { power: bool_param(p, "power"@, true) }
    } else if a == "light_brightness"@ {
        q == ToolRequest::LightBrightness { percent: byte_param(p, "brightness"@, 100) }
    } else if a == "govee_brightness"@ {
        q == ToolRequest::GoveeBrightness { percent: byte_param(p, "brightness"@, 100) }
    } else if a == "govee_color"@ {
        q == ToolRequest::GoveeColor { r, g, b }
    } else if a == "govee_lamp_color"@ {
        q matches ToolRequest::GoveeLampColor { lamp, r: qr, g: qg, b: qb }
            && lamp@ == text_param(p, "lamp"@, "deckenlampe"@) && qr == r && qg == g && qb == b
    } else if a == "govee_purple"@ {
        q == ToolRequest::GoveePurple
    } else if a == "rgb_purple"@ {
        q == ToolRequest::RgbPurple
    } else if a == "rgb_brightness"@ {
        q == ToolRequest::RgbBrightness { percent: byte_param(p, "brightness"@, 100) }
    } else if a == "light_purple"@ {
        q == ToolRequest::LightPurple
    } else if a == "light_color"@ {
        q == ToolRequest::LightColor { r, g, b }
    } else if a == "rgb_color"@ {
        q == ToolRequest::RgbColor { r, g, b }
    } else if a == "water_plant"@ {
        let s = u64_param(p, "seconds"@, 10);
        q == ToolRequest::WaterPlant { seconds: (if s < 60 { s } else { 60 }) as u32 }
    } else if a == "fan_speed"@ {
        q == ToolRequest::FanSpeed {
            auto: lookup(p, "percent"@) matches Some(ParamValue::Text(s)) && s@ == "auto"@,
            percent: u64_param(p, "percent"@, 50),
        }
    } else if a == "rgb_mode"@ {
        q matches ToolRequest::RgbMode { mode_name, mode_id, speed }
            && mode_name@ == text_param(p, "mode"@, "static"@)
            && mode_id == mode_id_of(lowercase(mode_name@))
            && speed == speed_param(p)
    } else if a == "snapshot_create"@ {
        q matches ToolRequest::SnapshotCreate { description }
            && description@ == text_param(p, "description"@, "Jarvis snapshot"@)
    } else if a == "pi_reboot"@ {
        q matches ToolRequest::PiReboot { target } && target@ == text_param(p, "target"@, "pi5"@)
    } else if a == "music_stop"@ {
        q == ToolRequest::MusicStop
    } else if a == "system_info"@ {
        q == ToolRequest::SystemInfo
    } else if a == "fan_status"@ {
        q == ToolRequest::FanStatus
    } else if a == "pi_status"@ {
        q == ToolRequest::PiStatus
    } else if a == "snapshot_list"@ {
        q == ToolRequest::SnapshotList
    } else if a == "timer_info"@ {
        q == ToolRequest::TimerInfo
    } else if a == "tent_status"@ {
        q == ToolRequest::TentStatus
    } else if a == "system_status"@ {
        q == ToolRequest::SystemStatus
    } else {
        q == ToolRequest::Unknown
    }
}

fn fan_is_auto(p: &[(String, ParamValue)]) -> (r: bool)
    ensures
        r == (lookup(p@, "percent"@) matches Some(ParamValue::Text(s)) && s@ == "auto"@),
{
    match find_param(p, "percent") {
        Some(i) => match &p[i].1 {
            ParamValue::Text(s) => eq_str(&chars_of(s.as_str()), "auto"),
            _ => false,
        },
        None => false,
    }
}

fn speed_of(p: &[(String, ParamValue)]) -> (r: Option<u32>)
    ensures
        r == speed_param(p@),
{
    match find_param(p, "speed") {
        Some(i) => match &p[i].1 {
            ParamValue::UInt(n) => {
                let v = *n;
                Some(
                    #[verifier::truncate]
                    (v as u32),
                )
            },
            _ => None,
        },
        None => None,
    }
}

fn light_request(a: &Vec<char>, p: &[(String, ParamValue)]) -> (r: Option<ToolRequest>)
    ensures
        match r {
            Some(q) => request_is(q, a@, p@),
            None => !(a@ == "light_power"@ || a@ == "govee_power"@ || a@ == "rgb_power"@
                || a@ == "light_brightness"@ || a@ == "govee_brightness"@ || a@ == "govee_color"@
                || a@ == "govee_lamp_color"@ || a@ == "govee_purple"@ || a@ == "rgb_purple"@
                || a@ == "rgb_brightness"@ || a@ == "light_purple"@ || a@ == "light_color"@
                || a@ == "rgb_color"@),
        },
{
    if eq_str(a, "light_power") {
        Some(ToolRequest::LightPower { power: param_bool(p, "power", true) })
    } else if eq_str(a, "govee_power") {
        Some(ToolRequest::GoveePower { power: param_bool(p, "power", true) })
    } else if eq_str(a, "rgb_power") {
        Some(ToolRequest::RgbPower { power: param_bool(p, "power", true) })
    } else if eq_str(a, "light_brightness") {
        Some(ToolRequest::LightBrightness { percent: param_byte(p, "brightness", 100) })
    } else if eq_str(a, "govee_brightness") {
        Some(ToolRequest::GoveeBrightness { percent: param_byte(p, "brightness", 100) })
    } else if eq_str(a, "govee_color") {
        Some(ToolRequest::GoveeColor { r: param_byte(p, "r", 0), g: param_byte(p, "g", 0), b: param_byte(p, "b", 255) })
    } else if eq_str(a, "govee_lamp_color") {
        Some(ToolRequest::GoveeLampColor {
            lamp: param_text(p, "lamp", "deckenlampe"),
            r: param_byte(p, "r", 0),
            g: param_byte(p, "g", 0),
            b: param_byte(p, "b", 255),
        })
    } else if eq_str(a, "govee_purple") {
        Some(ToolRequest::GoveePurple)
    } else if eq_str(a, "rgb_purple") {
        Some(ToolRequest::RgbPurple)
    } else if eq_str(a, "rgb_brightness") {
        Some(ToolRequest::RgbBrightness { percent: param_byte(p, "brightness", 100) })
    } else if eq_str(a, "light_purple") {
        Some(ToolRequest::LightPurple)
    } else if eq_str(a, "light_color") {
        Some(ToolRequest::LightColor { r: param_byte(p, "r", 0), g: param_byte(p, "g", 0), b: param_byte(p, "b", 255) })
    } else if eq_str(a, "rgb_color") {
        Some(ToolRequest::RgbColor { r: param_byte(p, "r", 0), g: param_byte(p, "g", 0), b: param_byte(p, "b", 255) })
    } else {
        None
    }
}

/// Reads a tool call: which tool, with which parameters.
pub fn tool_request(action: &str, params: &[(String, ParamValue)]) -> (r: ToolRequest)
    ensures
        request_is(r, action@, params@),
{
    let a = chars_of(action);
    if let Some(q) = light_request(&a, params) {
        return q;
    }
    if eq_str(&a, "water_plant") {
        let s = param_u64(params, "seconds", 10);
        let capped: u64 = if s < 60 { s } else { 60 };
        ToolRequest::WaterPlant { seconds: capped as u32 }
    } else if eq_str(&a, "fan_speed") {
        ToolRequest::FanSpeed { auto: fan_is_auto(params), percent: param_u64(params, "percent", 50) }
    } else if eq_str(&a, "rgb_mode") {
        let mode_name = param_text(params, "mode", "static");
        let mode_id = rgb_mode_id(mode_name.as_str());
        ToolRequest::RgbMode { mode_name, mode_id, speed: speed_of(params) }
    } else if eq_str(&a, "snapshot_create") {
        ToolRequest::SnapshotCreate { description: param_text(params, "description", "Jarvis snapshot") }
    } else if eq_str(&a, "pi_reboot") {
        ToolRequest::PiReboot { target: param_text(params, "target", "pi5") }
    } else if eq_str(&a, "music_stop") {
        ToolRequest::MusicStop
    } else if eq_str(&a, "system_info") {
        ToolRequest::SystemInfo
    } else if eq_str(&a, "fan_status") {
        ToolRequest::FanStatus
    } else if eq_str(&a, "pi_status") {
        ToolRequest::PiStatus
    } else if eq_str(&a, "snapshot_list") {
        ToolRequest::SnapshotList
    } else if eq_str(&a, "timer_info") {
        ToolRequest::TimerInfo
    } else if eq_str(&a, "tent_status") {
        ToolRequest::TentStatus
    } else if eq_str(&a, "system_status") {
        ToolRequest::SystemStatus
    } else {
        ToolRequest::Unknown
    }
}


// ─── Results ──────────────────────────────────────────────────

pub open spec fn tick(b: bool) -> Seq<char> {
    if b { "✓"@ } else { "✗"@ }
}

pub open spec fn power_word(p: bool) -> Seq<char> {
    if p { "AN"@ } else { "AUS"@ }
}

/// `({r},{g},{b})`.
pub open spec fn rgb_text(r: u8, g: u8, b: u8) -> Seq<char> {
    "("@ + dec(r as nat) + ","@ + dec(g as nat) + ","@ + dec(b as nat) + ")"@
}

/// `{head}: Corsair {✓|✗} · OpenRGB {✓|✗} · Govee {✓|✗}`.
pub open spec fn all_lights_text(head: Seq<char>, c: bool, o: bool, g: bool) -> Seq<char> {
    head + ": Corsair "@ + tick(c) + " · OpenRGB "@ + tick(o) + " · Govee "@ + tick(g)
}

/// The tools that address every light at once.
pub open spec fn is_all_lights(q: ToolRequest) -> bool {
    q is LightPower || q is LightBrightness || q is LightPurple || q is LightColor
}

pub open spec fn all_lights_message(q: ToolRequest, c: bool, o: bool, g: bool) -> Seq<char> {
    match q {
        ToolRequest::LightPower { power } => all_lights_text("Alles "@ + power_word(power), c, o, g),
        ToolRequest::LightBrightness { percent } => "Helligkeit "@ + dec(percent as nat) + "%"@,
        ToolRequest::LightPurple => all_lights_text("Purple scene"@, c, o, g),
        ToolRequest::LightColor { r, g: gg, b } => all_lights_text("Alle Lichter RGB "@ + rgb_text(r, gg, b), c, o, g),
        _ => Seq::empty(),
    }
}

fn push_tick(v: &mut Vec<char>, b: bool)
    ensures
        final(v)@ == old(v)@ + tick(b),
{
    if b {
        push_str(v, "✓");
    } else {
        push_str(v, "✗");
    }
}

fn push_rgb(v: &mut Vec<char>, r: u8, g: u8, b: u8)
    ensures
        final(v)@ == old(v)@ + rgb_text(r, g, b),
{
    push_str(v, "(");
    push_dec(v, r as u64);
    push_str(v, ",");
    push_dec(v, g as u64);
    push_str(v, ",");
    push_dec(v, b as u64);
    push_str(v, ")");
    assert(v@ =~= old(v)@ + rgb_text(r, g, b));
}

fn push_all_lights(v: &mut Vec<char>, c: bool, o: bool, g: bool)
    ensures
        final(v)@ == all_lights_text(old(v)@, c, o, g),
{
    push_str(v, ": Corsair ");
    push_tick(v, c);
    push_str(v, " · OpenRGB ");
    push_tick(v, o);
    push_str(v, " · Govee ");
    push_tick(v, g);
    assert(v@ =~= all_lights_text(old(v)@, c, o, g));
}

/// The result of a tool that addresses every light, given which of the three
/// systems (Corsair, OpenRGB, Govee) succeeded.
pub fn all_lights_result(q: &ToolRequest, action: String, c: bool, o: bool, g: bool) -> (r: ActionResult)
    requires
        is_all_lights(*q),
    ensures
        r.action@ == action@,
        r.success == (c || o || g),
        r.message@ == all_lights_message(*q, c, o, g),
{
    let mut v: Vec<char> = Vec::new();
    match q {
        ToolRequest::LightPower { power } => {
            push_str(&mut v, "Alles ");
            if *power {
                push_str(&mut v, "AN");
            } else {
                push_str(&mut v, "AUS");
            }
            push_all_lights(&mut v, c, o, g);
        },
        ToolRequest::LightBrightness { percent } => {
            push_str(&mut v, "Helligkeit ");
            push_dec(&mut v, *percent as u64);
            push_str(&mut v, "%");
        },
        ToolRequest::LightPurple => {
            push_str(&mut v, "Purple scene");
            push_all_lights(&mut v, c, o, g);
        },
        ToolRequest::LightColor { r, g: gg, b } => {
            push_str(&mut v, "Alle Lichter RGB ");
            push_rgb(&mut v, *r, *gg, *b);
            push_all_lights(&mut v, c, o, g);
        },
        _ => {},
    }
    ActionResult { action, success: c || o || g, message: string_of(&v) }
}

/// The tools that address one system and report its own message.
pub open spec fn is_single_system(q: ToolRequest) -> bool {
    q is GoveePower || q is RgbPower || q is GoveeBrightness || q is RgbBrightness
        || q is GoveeColor || q is GoveeLampColor || q is GoveePurple || q is RgbPurple
}

pub open spec fn single_system_message(q: ToolRequest, msg: Seq<char>) -> Seq<char> {
    match q {
        ToolRequest::GoveePower { power } => "Govee "@ + power_word(power) + ": "@ + msg,
        ToolRequest::RgbPower { power } => "PC RGB "@ + power_word(power) + ": "@ + msg,
        ToolRequest::GoveeBrightness { percent } => "Govee "@ + dec(percent as nat) + "%: "@ + msg,
        ToolRequest::RgbBrightness { percent } => "PC RGB "@ + dec(percent as nat) + "%: "@ + msg,
        ToolRequest::GoveeColor { r, g, b } => "Govee RGB "@ + rgb_text(r, g, b) + ": "@ + msg,
        ToolRequest::GoveeLampColor { .. } => msg,
        ToolRequest::GoveePurple => "Govee purple scene: "@ + msg,
        ToolRequest::RgbPurple => "PC purple scene: "@ + msg,
        _ => Seq::empty(),
    }
}

/// The result of a tool that addresses Govee or the PC lighting alone.
pub fn single_system_result(q: &ToolRequest, action: String, ok: bool, msg: String) -> (r: ActionResult)
    requires
        is_single_system(*q),
    ensures
        r.action@ == action@,
        r.success == ok,
        r.message@ == single_system_message(*q, msg@),
{
    let mut v: Vec<char> = Vec::new();
    match q {
        ToolRequest::GoveePower { power } => {
            push_str(&mut v, "Govee ");
            if *power { push_str(&mut v, "AN"); } else { push_str(&mut v, "AUS"); }
            push_str(&mut v, ": ");
        },
        ToolRequest::RgbPower { power } => {
            push_str(&mut v, "PC RGB ");
            if *power { push_str(&mut v, "AN"); } else { push_str(&mut v, "AUS"); }
            push_str(&mut v, ": ");
        },
        ToolRequest::GoveeBrightness { percent } => {
            push_str(&mut v, "Govee ");
            push_dec(&mut v, *percent as u64);
            push_str(&mut v, "%: ");
        },
        ToolRequest::RgbBrightness { percent } => {
            push_str(&mut v, "PC RGB ");
            push_dec(&mut v, *percent as u64);
            push_str(&mut v, "%: ");
        },
        ToolRequest::GoveeColor { r, g, b } => {
            push_str(&mut v, "Govee RGB ");
            push_rgb(&mut v, *r, *g, *b);
            push_str(&mut v, ": ");
        },
        ToolRequest::GoveePurple => {
            push_str(&mut v, "Govee purple scene: ");
        },
        ToolRequest::RgbPurple => {
            push_str(&mut v, "PC purple scene: ");
        },
        _ => {},
    }
    let m = chars_of(msg.as_str());
    push_all(&mut v, &m);
    ActionResult { action, success: ok, message: string_of(&v) }
}

/// `RGB ({r},{g},{b}): Corsair {✓|✗} · {n} OpenRGB`, successful when Corsair
/// or at least one OpenRGB device took the colour.
pub fn rgb_color_result(action: String, r: u8, g: u8, b: u8, corsair_ok: bool, openrgb_ok: u32) -> (res: ActionResult)
    ensures
        res.action@ == action@,
        res.success == (corsair_ok || openrgb_ok > 0),
        res.message@ == "RGB "@ + rgb_text(r, g, b) + ": Corsair "@ + tick(corsair_ok) + " · "@
            + dec(openrgb_ok as nat) + " OpenRGB"@,
{
    let mut v: Vec<char> = Vec::new();
    push_str(&mut v, "RGB ");
    push_rgb(&mut v, r, g, b);
    push_str(&mut v, ": Corsair ");
    push_tick(&mut v, corsair_ok);
    push_str(&mut v, " · ");
    push_dec(&mut v, openrgb_ok as u64);
    push_str(&mut v, " OpenRGB");
    ActionResult { action, success: corsair_ok || openrgb_ok > 0, message: string_of(&v) }
}

/// Watering all six plants: every relay answered, or how many did.
pub open spec fn water_message(secs: u32, ok: u32, fail: u32) -> Seq<char> {
    if fail == 0 {
        "Alle 6 Pflanzen werden "@ + dec(secs as nat) + "s gegossen (R2/R6: 70%) 💧"@
    } else {
        dec(ok as nat) + "/6 Relays ok, "@ + dec(fail as nat) + " Fehler ("@ + dec(secs as nat) + "s)"@
    }
}

pub fn water_result(action: String, secs: u32, ok: u32, fail: u32) -> (r: ActionResult)
    ensures
        r.action@ == action@,
        r.success == (ok > 0),
        r.message@ == water_message(secs, ok, fail),
{
    let mut v: Vec<char> = Vec::new();
    if fail == 0 {
        push_str(&mut v, "Alle 6 Pflanzen werden ");
        push_dec(&mut v, secs as u64);
        push_str(&mut v, "s gegossen (R2/R6: 70%) 💧");
    } else {
        push_dec(&mut v, ok as u64);
        push_str(&mut v, "/6 Relays ok, ");
        push_dec(&mut v, fail as u64);
        push_str(&mut v, " Fehler (");
        push_dec(&mut v, secs as u64);
        push_str(&mut v, "s)");
    }
    ActionResult { action, success: ok > 0, message: string_of(&v) }
}

pub open spec fn fan_speed_message(auto: bool, percent: u64, ok: u32) -> Seq<char> {
    if auto {
        "Fans back to auto curve ("@ + dec(ok as nat) + "/6)"@
    } else {
        "Fans set to "@ + dec(percent as nat) + "% ("@ + dec(ok as nat) + "/6)"@
    }
}

/// Setting the six fan channels, `ok` of which accepted the speed.
pub fn fan_speed_result(action: String, auto: bool, percent: u64, ok: u32) -> (r: ActionResult)
    ensures
        r.action@ == action@,
        r.success == (ok > 0),
        r.message@ == fan_speed_message(auto, percent, ok),
{
    let mut v: Vec<char> = Vec::new();
    if auto {
        push_str(&mut v, "Fans back to auto curve (");
    } else {
        push_str(&mut v, "Fans set to ");
        push_dec(&mut v, percent);
        push_str(&mut v, "% (");
    }
    push_dec(&mut v, ok as u64);
    push_str(&mut v, "/6)");
    ActionResult { action, success: ok > 0, message: string_of(&v) }
}

/// `RGB mode '{name}': {ok}/6 devices`.
pub fn rgb_mode_result(action: String, mode_name: &str, ok: u32) -> (r: ActionResult)
    ensures
        r.action@ == action@,
        r.success == (ok > 0),
        r.message@ == "RGB mode '"@ + mode_name@ + "': "@ + dec(ok as nat) + "/6 devices"@,
{
    let mut v: Vec<char> = Vec::new();
    push_str(&mut v, "RGB mode '");
    push_str(&mut v, mode_name);
    push_str(&mut v, "': ");
    push_dec(&mut v, ok as u64);
    push_str(&mut v, "/6 devices");
    ActionResult { action, success: ok > 0, message: string_of(&v) }
}

/// A result whose message is a prefix followed by a text.
fn prefixed(action: String, success: bool, prefix: &str, text: &str) -> (r: ActionResult)
    ensures
        r.action@ == action@,
        r.success == success,
        r.message@ == prefix@ + text@,
{
    let mut v: Vec<char> = Vec::new();
    push_str(&mut v, prefix);
    push_str(&mut v, text);
    ActionResult { action, success, message: string_of(&v) }
}

/// Creating a snapshot: the service's success flag, or its error.
pub fn snapshot_create_result(action: String, description: &str, outcome: Result<bool, String>) -> (r: ActionResult)
    ensures
        r.action@ == action@,
        match outcome {
            Ok(done) => r.success == done && r.message@ == "Snapshot created: "@ + description@,
            Err(e) => !r.success && r.message@ == "Snapshot error: "@ + e@,
        },
{
    match outcome {
        Ok(done) => prefixed(action, done, "Snapshot created: ", description),
        Err(e) => prefixed(action, false, "Snapshot error: ", e.as_str()),
    }
}

/// A Pi device: its id, label and model.
#[derive(Debug, Clone)]
pub struct PiDevice {
    pub id: String,
    pub label: String,
    pub model: String,
}

/// The device a reboot target names: its id, label or model contains the
/// target, compared case-insensitively.
pub open spec fn names_device(d: PiDevice, t: Seq<char>) -> bool {
    contains(lowercase(d.id@), lowercase(t)) || contains(lowercase(d.label@), lowercase(t))
        || contains(lowercase(d.model@), lowercase(t))
}

/// The first device that the target names.
pub fn find_pi_device(devices: &[PiDevice], target: &str) -> (r: Option<usize>)
    ensures
        match r {
            Some(i) => i < devices@.len() && names_device(devices@[i as int], target@)
                && forall|j: int| 0 <= j < i ==> !names_device(#[trigger] devices@[j], target@),
            None => forall|j: int| 0 <= j < devices@.len() ==> !names_device(#[trigger] devices@[j], target@),
        },
{
    let t = chars_of(to_lowercase(target).as_str());
    let mut i: usize = 0;
    while i < devices.len()
        invariant
            i <= devices@.len(),
            t@ == lowercase(target@),
            forall|j: int| 0 <= j < i ==> !names_device(#[trigger] devices@[j], target@),
        decreases devices.len() - i,
    {
        let d = &devices[i];
        let id = chars_of(to_lowercase(d.id.as_str()).as_str());
        let label = chars_of(to_lowercase(d.label.as_str()).as_str());
        let model = chars_of(to_lowercase(d.model.as_str()).as_str());
        if contains_chars(&id, &t) || contains_chars(&label, &t) || contains_chars(&model, &t) {
            return Some(i);
        }
        i = i + 1;
    }
    None
}

/// Rebooting a Pi: the device found (its label and the reboot's outcome), or
/// none.
pub fn pi_reboot_result(action: String, target: &str, device: Option<(String, Result<bool, String>)>) -> (r: ActionResult)
    ensures
        r.action@ == action@,
        match device {
            Some((label, Ok(done))) => r.success == done && r.message@ == label@ + " rebooting"@,
            Some((_, Err(e))) => !r.success && r.message@ == "Reboot error: "@ + e@,
            None => !r.success && r.message@ == "Pi '"@ + target@ + "' not found"@,
        },
{
    match device {
        Some((label, Ok(done))) => {
            let mut v = chars_of(label.as_str());
            push_str(&mut v, " rebooting");
            ActionResult { action, success: done, message: string_of(&v) }
        },
        Some((_, Err(e))) => prefixed(action, false, "Reboot error: ", e.as_str()),
        None => {
            let mut v: Vec<char> = Vec::new();
            push_str(&mut v, "Pi '");
            push_str(&mut v, target);
            push_str(&mut v, "' not found");
            ActionResult { action, success: false, message: string_of(&v) }
        },
    }
}

pub fn music_stop_result(action: String) -> (r: ActionResult)
    ensures
        r.action@ == action@,
        r.success,
        r.message@ == "Audio playback stopped"@,
{
    ActionResult { action, success: true, message: "Audio playback stopped".to_string() }
}

/// A tool nobody knows.
pub fn unknown_result(action: String) -> (r: ActionResult)
    ensures
        r.action@ == action@,
        !r.success,
        r.message@ == "Unbekannte Aktion: "@ + action@,
{
    let mut v: Vec<char> = Vec::new();
    push_str(&mut v, "Unbekannte Aktion: ");
    push_str(&mut v, action.as_str());
    let message = string_of(&v);
    ActionResult { action, success: false, message }
}

pub open spec fn or_text(o: Option<String>, d: Seq<char>) -> Seq<char> {
    match o {
        Some(s) => s@,
        None => d,
    }
}

fn push_or(v: &mut Vec<char>, o: &Option<String>, d: &str)
    ensures
        final(v)@ == old(v)@ + or_text(*o, d@),
{
    match o {
        Some(s) => push_str(v, s.as_str()),
        None => push_str(v, d),
    }
}

/// The newest snapshot: id, date and description, each possibly missing.
#[derive(Debug, Clone)]
pub struct SnapshotSummary {
    pub id: Option<u64>,
    pub date: Option<String>,
    pub description: Option<String>,
}

/// `#{id} at {date}`, with ` ({description})` when there is one.
pub open spec fn snapshot_line(s: SnapshotSummary) -> Seq<char> {
    let id = match s.id { Some(n) => n, None => 0 };
    let head = "#"@ + dec(id as nat) + " at "@ + or_text(s.date, "unknown"@);
    let desc = or_text(s.description, Seq::empty());
    if desc.len() == 0 { head } else { head + " ("@ + desc + ")"@ }
}

pub open spec fn snapshot_list_message(count: u64, last: Option<SnapshotSummary>) -> Seq<char> {
    dec(count as nat) + " snapshots. Latest: "@ + match last {
        Some(s) => snapshot_line(s),
        None => "none"@,
    }
}

/// Listing the snapshots: how many there are and the newest, or the error.
pub fn snapshot_list_result(action: String, outcome: Result<(u64, Option<SnapshotSummary>), String>) -> (r: ActionResult)
    ensures
        r.action@ == action@,
        match outcome {
            Ok((count, last)) => r.success && r.message@ == snapshot_list_message(count, last),
            Err(e) => !r.success && r.message@ == "Snapshot list error: "@ + e@,
        },
{
    match outcome {
        Ok((count, last)) => {
            let mut v: Vec<char> = Vec::new();
            push_dec(&mut v, count);
            push_str(&mut v, " snapshots. Latest: ");
            let ghost before = v@;
            match &last {
                Some(s) => {
                    push_str(&mut v, "#");
                    let id: u64 = match s.id { Some(n) => n, None => 0 };
                    push_dec(&mut v, id);
                    push_str(&mut v, " at ");
                    push_or(&mut v, &s.date, "unknown");
                    let desc = match &s.description {
                        Some(d) => chars_of(d.as_str()),
                        None => Vec::new(),
                    };
                    if desc.len() > 0 {
                        push_str(&mut v, " (");
                        push_all(&mut v, &desc);
                        push_str(&mut v, ")");
                    }
                    assert(v@ =~= before + snapshot_line(*s));
                },
                None => {
                    push_str(&mut v, "none");
                },
            }
            ActionResult { action, success: true, message: string_of(&v) }
        },
        Err(e) => prefixed(action, false, "Snapshot list error: ", e.as_str()),
    }
}

/// The backup timer as reported: enabled, schedule, last run and result,
/// each possibly missing.
#[derive(Debug, Clone)]
pub struct TimerSummary {
    pub enabled: Option<bool>,
    pub calendar: Option<String>,
    pub last_trigger: Option<String>,
    pub service_result: Option<String>,
}

pub open spec fn timer_message(t: TimerSummary) -> Seq<char> {
    let enabled = match t.enabled { Some(b) => b, None => false };
    "Backup timer: "@ + (if enabled { "enabled"@ } else { "disabled"@ }) + ". Schedule: "@
        + or_text(t.calendar, "not set"@) + ". Last run: "@ + or_text(t.last_trigger, "never"@)
        + ". Result: "@ + or_text(t.service_result, "unknown"@) + "."@
}

pub fn timer_info_result(action: String, outcome: Result<TimerSummary, String>) -> (r: ActionResult)
    ensures
        r.action@ == action@,
        match outcome {
            Ok(t) => r.success && r.message@ == timer_message(t),
            Err(e) => !r.success && r.message@ == "Timer info error: "@ + e@,
        },
{
    match outcome {
        Ok(t) => {
            let mut v: Vec<char> = Vec::new();
            push_str(&mut v, "Backup timer: ");
            let enabled = match t.enabled { Some(b) => b, None => false };
            if enabled { push_str(&mut v, "enabled"); } else { push_str(&mut v, "disabled"); }
            push_str(&mut v, ". Schedule: ");
            push_or(&mut v, &t.calendar, "not set");
            push_str(&mut v, ". Last run: ");
            push_or(&mut v, &t.last_trigger, "never");
            push_str(&mut v, ". Result: ");
            push_or(&mut v, &t.service_result, "unknown");
            push_str(&mut v, ".");
            assert(v@ =~= timer_message(t));
            ActionResult { action, success: true, message: string_of(&v) }
        },
        Err(e) => prefixed(action, false, "Timer info error: ", e.as_str()),
    }
}

/// Host facts as reported, each possibly missing, and the disks as
/// (name, use percentage).
#[derive(Debug, Clone)]
pub struct HostSummary {
    pub hostname: Option<String>,
    pub kernel: Option<String>,
    pub uptime: Option<String>,
    pub disks: Vec<(Option<String>, Option<String>)>,
}

pub open spec fn disk_item(d: (Option<String>, Option<String>)) -> Seq<char> {
    or_text(d.0, "disk"@) + ": "@ + or_text(d.1, "?"@)
}

/// The disks joined by ", ".
pub open spec fn disk_list(ds: Seq<(Option<String>, Option<String>)>) -> Seq<char>
    decreases ds.len(),
{
    if ds.len() == 0 {
        Seq::empty()
    } else if ds.len() == 1 {
        disk_item(ds[0])
    } else {
        disk_list(ds.drop_last()) + ", "@ + disk_item(ds.last())
    }
}

pub open spec fn host_message(h: HostSummary) -> Seq<char> {
    "Host: "@ + or_text(h.hostname, "unknown"@) + ". Kernel: "@ + or_text(h.kernel, "unknown"@)
        + ". Uptime: "@ + or_text(h.uptime, "unknown"@) + ". Disk usage: "@
        + (if h.disks@.len() == 0 { "n/a"@ } else { disk_list(h.disks@) }) + "."@
}

fn push_disks(v: &mut Vec<char>, ds: &Vec<(Option<String>, Option<String>)>)
    ensures
        final(v)@ == old(v)@ + disk_list(ds@),
{
    let mut i: usize = 0;
    while i < ds.len()
        invariant
            i <= ds@.len(),
            v@ == old(v)@ + disk_list(ds@.take(i as int)),
        decreases ds.len() - i,
    {
        let ghost before = v@;
        if i > 0 {
            push_str(v, ", ");
        }
        push_or(v, &ds[i].0, "disk");
        push_str(v, ": ");
        push_or(v, &ds[i].1, "?");
        proof {
            let t = ds@.take(i + 1);
            assert(t.drop_last() =~= ds@.take(i as int));
            assert(t.last() == ds@[i as int]);
            if i == 0 {
                assert(v@ =~= old(v)@ + disk_list(t));
            } else {
                assert(v@ =~= old(v)@ + disk_list(t));
            }
        }
        i = i + 1;
    }
    assert(ds@.take(ds@.len() as int) =~= ds@);
}

pub fn system_status_result(action: String, outcome: Result<HostSummary, String>) -> (r: ActionResult)
    ensures
        r.action@ == action@,
        match outcome {
            Ok(h) => r.success && r.message@ == host_message(h),
            Err(e) => !r.success && r.message@ == "System status error: "@ + e@,
        },
{
    match outcome {
        Ok(h) => {
            let mut v: Vec<char> = Vec::new();
            push_str(&mut v, "Host: ");
            push_or(&mut v, &h.hostname, "unknown");
            push_str(&mut v, ". Kernel: ");
            push_or(&mut v, &h.kernel, "unknown");
            push_str(&mut v, ". Uptime: ");
            push_or(&mut v, &h.uptime, "unknown");
            push_str(&mut v, ". Disk usage: ");
            if h.disks.len() == 0 {
                push_str(&mut v, "n/a");
            } else {
                push_disks(&mut v, &h.disks);
            }
            push_str(&mut v, ".");
            assert(v@ =~= host_message(h));
            ActionResult { action, success: true, message: string_of(&v) }
        },
        Err(e) => prefixed(action, false, "System status error: ", e.as_str()),
    }
}

} // verus!
