//! Master lighting: brightness scaling, Govee lamp names and result summaries.

use vstd::prelude::*;
use vstd::string::*;
use crate::intent::{lowercase, to_lowercase};
use crate::text::{chars_of, dec, eq_any_str, join, join_chars, push_dec, push_str, string_of, trim, trim_chars, views, vviews};

verus! {

/// Result of a master lighting command across all subsystems.
#[derive(Debug, Clone)]
pub struct MasterLightResult {
    pub power: bool,
    pub corsair_ok: bool,
    pub corsair_msg: String,
    pub openrgb_ok: bool,
    pub openrgb_msg: String,
    pub govee_ok: bool,
    pub govee_msg: String,
}

/// Minimum effective brightness for RGB devices; dimmer colours look off.
pub const MIN_RGB_BRIGHTNESS: u8 = 10;

/// One channel scaled by a percentage (clamped to 1..=100).
pub open spec fn scale_channel(c: u8, pct: u8) -> u8 {
    let f: nat = if pct > 100 { 100 } else if pct < 1 { 1 } else { pct as nat };
    ((c as nat * f) / 100) as u8
}

/// Scale an RGB colour by a brightness percentage (1..=100).
pub fn scale_rgb(r: u8, g: u8, b: u8, pct: u8) -> (out: (u8, u8, u8))
    ensures
        out == (scale_channel(r, pct), scale_channel(g, pct), scale_channel(b, pct)),
{
    let p: u16 = if pct > 100 { 100 } else { pct as u16 };
    let f: u16 = if p < 1 { 1 } else { p };
    proof {
        assert((r as u16) * f <= 25500) by (nonlinear_arith)
            requires f <= 100,
        ;
        assert((g as u16) * f <= 25500) by (nonlinear_arith)
            requires f <= 100,
        ;
        assert((b as u16) * f <= 25500) by (nonlinear_arith)
            requires f <= 100,
        ;
        assert((r as u16) * f / 100 <= 255) by (nonlinear_arith)
            requires f <= 100,
        ;
        assert((g as u16) * f / 100 <= 255) by (nonlinear_arith)
            requires f <= 100,
        ;
        assert((b as u16) * f / 100 <= 255) by (nonlinear_arith)
            requires f <= 100,
        ;
    }
    (((r as u16) * f / 100) as u8, ((g as u16) * f / 100) as u8, ((b as u16) * f / 100) as u8)
}

/// A slider value clamped to the level range 1..=100.
pub open spec fn clamped_level(b: u8) -> u8 {
    if b < 1 { 1 } else if b > 100 { 100 } else { b }
}

/// The level after the slider values `moves`, from level `start`: the last
/// value, clamped, or `start` when there was none.
pub open spec fn level_after(start: u8, moves: Seq<u8>) -> u8 {
    if moves.len() == 0 { start } else { clamped_level(moves.last()) }
}

/// From start-up (full brightness), any run of slider moves leaves a level in
/// 1..=100: full brightness when there was none, else the last value clamped;
/// and moving in two runs is the same as moving in one.
pub proof fn law_brightness_after_moves(moves: Seq<u8>, more: Seq<u8>)
    ensures
        1 <= level_after(100, moves) <= 100,
        moves.len() == 0 ==> level_after(100, moves) == 100,
        moves.len() > 0 ==> level_after(100, moves) == clamped_level(moves.last()),
        level_after(level_after(100, moves), more) == level_after(100, moves + more),
{
    if more.len() > 0 {
        assert((moves + more).last() == more.last());
    } else {
        assert(moves + more =~= moves);
    }
}

/// The master brightness level (1..=100) set by the brightness slider.
pub struct MasterBrightness {
    level: u8,
}

impl MasterBrightness {
    pub closed spec fn level(&self) -> u8 {
        self.level
    }

    pub closed spec fn wf(&self) -> bool {
        1 <= self.level <= 100
    }

    /// The level always lies in 1..=100.
    #[verifier::type_invariant]
    spec fn level_in_range(self) -> bool {
        1 <= self.level <= 100
    }

    /// Full brightness, the level at start-up.
    pub fn new() -> (r: MasterBrightness)
        ensures
            r.level() == 100,
            r.wf(),
    {
        MasterBrightness { level: 100 }
    }

    /// Store a slider value, clamped to 1..=100; returns the stored level.
    pub fn set(&mut self, brightness: u8) -> (r: u8)
        ensures
            r == clamped_level(brightness),
            final(self).level() == level_after(old(self).level(), seq![brightness]),
            final(self).level() == r,
            final(self).wf(),
    {
        let br = if brightness < 1 {
            1
        } else if brightness > 100 {
            100
        } else {
            brightness
        };
        self.level = br;
        br
    }
}

/// The current master brightness.
pub fn current_brightness(m: &MasterBrightness) -> (r: u8)
    ensures
        r == m.level(),
        1 <= r <= 100,
{
    proof {
        use_type_invariant(m);
    }
    m.level
}

/// Scale a colour by the master brightness, with a floor of `MIN_RGB_BRIGHTNESS`
/// so hardware LEDs stay visible.
pub fn apply_brightness(m: &MasterBrightness, r: u8, g: u8, b: u8) -> (out: (u8, u8, u8))
    ensures
        out == ({
            let br = if m.level() < 10 { 10u8 } else { m.level() };
            (scale_channel(r, br), scale_channel(g, br), scale_channel(b, br))
        }),
{
    let cur = current_brightness(m);
    let br = if cur < MIN_RGB_BRIGHTNESS {
        MIN_RGB_BRIGHTNESS
    } else {
        cur
    };
    scale_rgb(r, g, b, br)
}

/// A Govee lamp and the endpoint that sets its colour.
#[derive(Clone, Copy, Debug, PartialEq, Eq)]
pub struct GoveeLamp {
    pub id: &'static str,
    pub url: &'static str,
}

pub open spec fn lamp(id: &'static str) -> Option<GoveeLamp> {
    if id == "deckenlampe" {
        Some(GoveeLamp { id: "deckenlampe", url: "http://192.168.0.8:4080/api/govee/deckenlampe/color" })
    } else if id == "deckenlampe2" {
        Some(GoveeLamp { id: "deckenlampe2", url: "http://192.168.0.8:4080/api/govee/deckenlampe2/color" })
    } else if id == "stehlampe" {
        Some(GoveeLamp { id: "stehlampe", url: "http://192.168.0.8:4080/api/govee/stehlampe/color" })
    } else {
        Some(GoveeLamp { id: "rachel", url: "http://192.168.0.8:4080/api/govee/rachel/color" })
    }
}

/// The lamp a user-given name refers to (trimmed and lowercased first).
pub open spec fn lamp_for(target: Seq<char>) -> Option<GoveeLamp> {
    let n = lowercase(trim(target));
    if seq!["deckenlampe"@, "decke"@, "deckenlicht"@, "ceiling"@, "ceiling1"@].contains(n) {
        lamp("deckenlampe")
    } else if seq!["deckenlampe2"@, "decke2"@, "deckenlicht2"@, "ceiling2"@, "zweite deckenlampe"@].contains(n) {
        lamp("deckenlampe2")
    } else if seq!["stehlampe"@, "bodenlampe"@, "floor"@, "floorlamp"@].contains(n) {
        lamp("stehlampe")
    } else if n == "rachel"@ {
        lamp("rachel")
    } else {
        None
    }
}

/// Resolve a lamp name ("decke", "ceiling2", "floor", ...) to a Govee lamp.
pub fn resolve_govee_lamp(target: &str) -> (r: Option<GoveeLamp>)
    ensures
        r == lamp_for(target@),
{
    let v = chars_of(target);
    let t = trim_chars(&v);
    let ts = string_of(&t);
    let lower = to_lowercase(ts.as_str());
    let n = chars_of(lower.as_str());
    let a: [&str; 5] = ["deckenlampe", "decke", "deckenlicht", "ceiling", "ceiling1"];
    let b: [&str; 5] = ["deckenlampe2", "decke2", "deckenlicht2", "ceiling2", "zweite deckenlampe"];
    let c: [&str; 4] = ["stehlampe", "bodenlampe", "floor", "floorlamp"];
    let d: [&str; 1] = ["rachel"];
    assert(views(a@) =~= seq!["deckenlampe"@, "decke"@, "deckenlicht"@, "ceiling"@, "ceiling1"@]);
    assert(views(b@) =~= seq!["deckenlampe2"@, "decke2"@, "deckenlicht2"@, "ceiling2"@, "zweite deckenlampe"@]);
    assert(views(c@) =~= seq!["stehlampe"@, "bodenlampe"@, "floor"@, "floorlamp"@]);
    assert(views(d@) =~= seq!["rachel"@]);
    if eq_any_str(&n, &a) {
        Some(GoveeLamp { id: "deckenlampe", url: "http://192.168.0.8:4080/api/govee/deckenlampe/color" })
    } else if eq_any_str(&n, &b) {
        Some(GoveeLamp { id: "deckenlampe2", url: "http://192.168.0.8:4080/api/govee/deckenlampe2/color" })
    } else if eq_any_str(&n, &c) {
        Some(GoveeLamp { id: "stehlampe", url: "http://192.168.0.8:4080/api/govee/stehlampe/color" })
    } else if eq_any_str(&n, &d) {
        assert(seq!["rachel"@].contains(n@) ==> n@ == "rachel"@);
        Some(GoveeLamp { id: "rachel", url: "http://192.168.0.8:4080/api/govee/rachel/color" })
    } else {
        assert(n@ == "rachel"@ ==> seq!["rachel"@][0] == n@);
        None
    }
}

/// One Govee lamp of a scene with the colour it gets.
#[derive(Clone, Copy, Debug)]
pub struct GoveeTarget {
    pub name: &'static str,
    pub url: &'static str,
    pub color: (u8, u8, u8),
}

impl GoveeTarget {
    pub fn new(name: &'static str, url: &'static str, color: (u8, u8, u8)) -> (r: GoveeTarget)
        ensures
            r.name == name,
            r.url == url,
            r.color == color,
    {
        GoveeTarget { name, url, color }
    }
}

/// Outcome of applying a colour scene to the PC lighting subsystems.
#[derive(Clone, Copy, Debug)]
pub struct PcLightingResult {
    pub corsair_ok: bool,
    pub openrgb_ok: bool,
}

impl PcLightingResult {
    /// "Corsair ✓ · OpenRGB ✗" style summary.
    pub fn message(self) -> (r: String)
        ensures
            r@ == "Corsair "@ + (if self.corsair_ok { "✓"@ } else { "✗"@ }) + " · OpenRGB "@ + (
            if self.openrgb_ok {
                "✓"@
            } else {
                "✗"@
            }),
    {
        let mut v = chars_of("Corsair ");
        push_str(&mut v, if self.corsair_ok { "✓" } else { "✗" });
        push_str(&mut v, " · OpenRGB ");
        push_str(&mut v, if self.openrgb_ok { "✓" } else { "✗" });
        string_of(&v)
    }

    /// At least one subsystem succeeded.
    pub fn any_ok(self) -> (r: bool)
        ensures
            r == (self.corsair_ok || self.openrgb_ok),
    {
        self.corsair_ok || self.openrgb_ok
    }
}


/// The lamps and colours of the purple Govee scene.
pub fn purple_govee_scene() -> (r: Vec<GoveeTarget>)
    ensures
        r@.len() == 4,
        r@[0].name == "deckenlampe" && r@[0].color == (70u8, 0u8, 255u8),
        r@[1].name == "deckenlampe2" && r@[1].color == (75u8, 0u8, 255u8),
        r@[2].name == "stehlampe" && r@[2].color == (110u8, 0u8, 255u8),
        r@[3].name == "rachel" && r@[3].color == (110u8, 0u8, 255u8),
        forall|i: int| 0 <= i < 4 ==> (#[trigger] lamp(r@[i].name)) == Some(GoveeLamp { id: r@[i].name, url: r@[i].url }),
{
    let mut v: Vec<GoveeTarget> = Vec::new();
    v.push(GoveeTarget::new("deckenlampe", "http://192.168.0.8:4080/api/govee/deckenlampe/color", (70, 0, 255)));
    v.push(GoveeTarget::new("deckenlampe2", "http://192.168.0.8:4080/api/govee/deckenlampe2/color", (75, 0, 255)));
    v.push(GoveeTarget::new("stehlampe", "http://192.168.0.8:4080/api/govee/stehlampe/color", (110, 0, 255)));
    v.push(GoveeTarget::new("rachel", "http://192.168.0.8:4080/api/govee/rachel/color", (110, 0, 255)));
    v
}

/// The purple scene for the PC: the Corsair colour, then the OpenRGB colour.
pub fn purple_pc_scene() -> (r: ((u8, u8, u8), (u8, u8, u8)))
    ensures
        r == ((75u8, 0u8, 255u8), (25u8, 0u8, 255u8)),
{
    ((75, 0, 255), (25, 0, 255))
}

/// How many outcomes succeeded.
pub open spec fn ok_count(outs: Seq<(&'static str, bool)>) -> nat
    decreases outs.len(),
{
    if outs.len() == 0 {
        0
    } else {
        ok_count(outs.drop_last()) + if outs.last().1 { 1nat } else { 0nat }
    }
}

/// The names whose outcome failed, in order.
pub open spec fn failed_names(outs: Seq<(&'static str, bool)>) -> Seq<Seq<char>>
    decreases outs.len(),
{
    if outs.len() == 0 {
        seq![]
    } else if outs.last().1 {
        failed_names(outs.drop_last())
    } else {
        failed_names(outs.drop_last()).push(outs.last().0@)
    }
}

/// "<scene>: <ok> applied, <fail> failed" with the failed names in brackets.
pub open spec fn scene_summary(scene_name: Seq<char>, outs: Seq<(&'static str, bool)>) -> Seq<char> {
    let names = failed_names(outs);
    scene_name + ": "@ + dec(ok_count(outs)) + " applied, "@ + dec((outs.len() - ok_count(outs)) as nat) + " failed"@
        + if names.len() == 0 { seq![] } else { " ("@ + join(names, ", "@) + ")"@ }
}

proof fn lemma_ok_count_bound(outs: Seq<(&'static str, bool)>)
    ensures
        ok_count(outs) <= outs.len(),
        failed_names(outs).len() == outs.len() - ok_count(outs),
    decreases outs.len(),
{
    if outs.len() > 0 {
        lemma_ok_count_bound(outs.drop_last());
    }
}

/// Summarise a Govee scene from the outcome of each lamp: success when any
/// lamp took its colour.
pub fn govee_scene_summary(scene_name: &str, outs: &[(&'static str, bool)]) -> (r: (bool, String))
    requires
        outs@.len() <= u32::MAX,
    ensures
        r.0 == (ok_count(outs@) > 0),
        r.1@ == scene_summary(scene_name@, outs@),
{
    let mut ok: u32 = 0;
    let mut fail: u32 = 0;
    let mut names: Vec<Vec<char>> = Vec::new();
    let mut i: usize = 0;
    while i < outs.len()
        invariant
            i <= outs@.len(),
            outs@.len() <= u32::MAX,
            ok as nat == ok_count(outs@.take(i as int)),
            ok + fail == i,
            vviews(names@) == failed_names(outs@.take(i as int)),
        decreases outs.len() - i,
    {
        let ghost pre = outs@.take(i + 1);
        assert(pre.drop_last() =~= outs@.take(i as int));
        assert(pre.last() == outs@[i as int]);
        let (name, good) = outs[i];
        if good {
            ok = ok + 1;
        } else {
            fail = fail + 1;
            let ghost before = names@;
            names.push(chars_of(name));
            assert(vviews(names@) =~= vviews(before).push(name@));
        }
        i = i + 1;
    }
    assert(outs@.take(outs@.len() as int) =~= outs@);
    proof {
        lemma_ok_count_bound(outs@);
    }
    let mut v = chars_of(scene_name);
    push_str(&mut v, ": ");
    push_dec(&mut v, ok as u64);
    push_str(&mut v, " applied, ");
    push_dec(&mut v, fail as u64);
    push_str(&mut v, " failed");
    if names.len() > 0 {
        push_str(&mut v, " (");
        let j = join_chars(&names, ", ");
        let ghost before = v@;
        v.extend_from_slice(j.as_slice());
        assert(v@ =~= before + j@);
        push_str(&mut v, ")");
    }
    (ok > 0, string_of(&v))
}

/// "<ok> <done>, <fail> <failed>" for a round over several devices; success
/// when any device took the command.
pub fn tally_message(ok: u32, fail: u32, done: &str, failed: &str) -> (r: (bool, String))
    ensures
        r.0 == (ok > 0),
        r.1@ == dec(ok as nat) + " "@ + done@ + ", "@ + dec(fail as nat) + " "@ + failed@,
{
    let mut v: Vec<char> = Vec::new();
    push_dec(&mut v, ok as u64);
    push_str(&mut v, " ");
    push_str(&mut v, done);
    push_str(&mut v, ", ");
    push_dec(&mut v, fail as u64);
    push_str(&mut v, " ");
    push_str(&mut v, failed);
    (ok > 0, string_of(&v))
}

/// Outcome of setting one Govee lamp's colour: the lamp's id and what the
/// request gave back, or `None` when the name resolved to no lamp.
pub fn lamp_color_result(target: &str, r: u8, g: u8, b: u8, outcome: Option<(&'static str, bool, String)>) -> (res: (bool, String))
    ensures
        match outcome {
            Some((id, ok, msg)) => res.0 == ok && res.1@ == id@ + " RGB ("@ + dec(r as nat) + ","@ + dec(g as nat) + ","@ + dec(b as nat) + "): "@ + msg@,
            None => !res.0 && res.1@ == "Unknown Govee lamp '"@ + target@ + "'. Valid targets: deckenlampe, deckenlampe2, stehlampe, rachel"@,
        },
{
    match outcome {
        Some((id, ok, msg)) => {
            let mut v = chars_of(id);
            push_str(&mut v, " RGB (");
            push_dec(&mut v, r as u64);
            push_str(&mut v, ",");
            push_dec(&mut v, g as u64);
            push_str(&mut v, ",");
            push_dec(&mut v, b as u64);
            push_str(&mut v, "): ");
            push_str(&mut v, msg.as_str());
            (ok, string_of(&v))
        },
        None => {
            let mut v = chars_of("Unknown Govee lamp '");
            push_str(&mut v, target);
            push_str(&mut v, "'. Valid targets: deckenlampe, deckenlampe2, stehlampe, rachel");
            (false, string_of(&v))
        },
    }
}

} // verus!
