//! RGB device types shared with the frontend, and the effect encodings.

use vstd::prelude::*;
use vstd::string::*;
use crate::text::{push_dec, push_str, string_of};

verus! {

#[derive(Debug, Clone, Copy, PartialEq, Eq, Structural)]
pub struct RgbColor {
    pub r: u8,
    pub g: u8,
    pub b: u8,
}

impl RgbColor {
    pub fn black() -> (c: RgbColor)
        ensures
            c == (RgbColor { r: 0, g: 0, b: 0 }),
    {
        RgbColor { r: 0, g: 0, b: 0 }
    }
}

/// Lighting effects (shared by IT8297 and the frontend).
#[derive(Debug, Clone, Copy, PartialEq, Eq, Structural)]
pub enum RgbEffect {
    Off,
    Static,
    Pulse,
    Blinking,
    ColorCycle,
    Wave,
    Random,
}

pub open spec fn it8297_code(e: RgbEffect) -> u8 {
    match e {
        RgbEffect::Off => 0,
        RgbEffect::Static => 1,
        RgbEffect::Pulse => 2,
        RgbEffect::Blinking => 3,
        RgbEffect::ColorCycle => 4,
        RgbEffect::Wave => 6,
        RgbEffect::Random => 8,
    }
}

pub open spec fn mode_of(e: RgbEffect) -> usize {
    match e {
        RgbEffect::Off => 0,
        RgbEffect::Static => 1,
        RgbEffect::Pulse => 2,
        RgbEffect::Blinking => 3,
        RgbEffect::ColorCycle => 4,
        RgbEffect::Wave => 5,
        RgbEffect::Random => 6,
    }
}

impl RgbEffect {
    /// The IT8297 (RGB Fusion 2) effect id.
    pub fn it8297_id(self) -> (r: u8)
        ensures
            r == it8297_code(self),
    {
        match self {
            RgbEffect::Off => 0,
            RgbEffect::Static => 1,
            RgbEffect::Pulse => 2,
            RgbEffect::Blinking => 3,
            RgbEffect::ColorCycle => 4,
            RgbEffect::Wave => 6,
            RgbEffect::Random => 8,
        }
    }

    /// Index into the effects list used by `openrgb_set_mode`.
    pub fn mode_index(self) -> (r: usize)
        ensures
            r == mode_of(self),
    {
        match self {
            RgbEffect::Off => 0,
            RgbEffect::Static => 1,
            RgbEffect::Pulse => 2,
            RgbEffect::Blinking => 3,
            RgbEffect::ColorCycle => 4,
            RgbEffect::Wave => 5,
            RgbEffect::Random => 6,
        }
    }
}

/// IT8297 LED-count setting for a digital strip (32, 64, 256, 512 or 1024 LEDs).
pub open spec fn led_count_code(count: u32) -> u8 {
    if count <= 32 {
        0
    } else if count <= 64 {
        1
    } else if count <= 256 {
        2
    } else if count <= 512 {
        3
    } else {
        4
    }
}

pub fn led_count_to_enum(count: u32) -> (r: u8)
    ensures
        r == led_count_code(count),
{
    if count <= 32 {
        0
    } else if count <= 64 {
        1
    } else if count <= 256 {
        2
    } else if count <= 512 {
        3
    } else {
        4
    }
}

/// Zone layout of a Gigabyte motherboard.
#[derive(Debug, Clone)]
pub struct ZoneInfo {
    pub idx: u8,
    pub name: String,
    pub header: u8,
    pub is_digital: bool,
    /// Configured LED count for digital strips; 1 for onboard zones.
    pub led_count: u32,
}

/// Per-device status returned to the frontend.
#[derive(Debug, Clone)]
pub struct RgbDeviceInfo {
    pub id: String,
    pub name: String,
    pub device_type: String,
    pub vendor: String,
    pub connected: bool,
    pub zones: Vec<RgbZoneInfo>,
    pub effects: Vec<String>,
}

#[derive(Debug, Clone)]
pub struct RgbZoneInfo {
    pub name: String,
    pub leds_count: u32,
    pub is_digital: bool,
}

/// Full system RGB status.
#[derive(Debug, Clone)]
pub struct RgbStatus {
    pub connected: bool,
    pub devices: Vec<RgbDeviceInfo>,
}

/// Saved per-device colour and effect.
#[derive(Debug, Clone)]
pub struct RgbDeviceState {
    pub id: String,
    pub color: RgbColor,
    pub effect: RgbEffect,
    pub speed: u8,
}

/// Restoring a saved state turns the device off: effect Off or a black colour.
pub open spec fn restores_as_off(s: RgbDeviceState) -> bool {
    s.effect == RgbEffect::Off || (s.color.r == 0 && s.color.g == 0 && s.color.b == 0)
}

/// Whether restoring this saved state means switching the device off.
pub fn restore_turns_off(s: &RgbDeviceState) -> (r: bool)
    ensures
        r == restores_as_off(*s),
{
    s.effect == RgbEffect::Off || (s.color.r == 0 && s.color.g == 0 && s.color.b == 0)
}

// ─── IT8297 (RGB Fusion 2) reports ────────────────────────────

/// Report id of IT8297 feature reports.
pub const IT8297_REPORT_ID: u8 = 0xCC;
/// Size of an IT8297 feature report.
pub const IT8297_BUF_SIZE: usize = 64;

/// An empty IT8297 report: the report id, then zeros.
pub open spec fn blank_report() -> Seq<u8> {
    Seq::new(64, |i: int| if i == 0 { 0xCCu8 } else { 0u8 })
}

fn blank_report_exec() -> (r: Vec<u8>)
    ensures
        r@ == blank_report(),
{
    let mut r: Vec<u8> = Vec::new();
    r.push(0xCC);
    let mut i: usize = 1;
    while i < 64
        invariant
            1 <= i <= 64,
            r@.len() == i,
            forall|j: int| 0 <= j < i ==> r@[j] == blank_report()[j],
        decreases 64 - i,
    {
        r.push(0);
        i = i + 1;
    }
    assert(r@ =~= blank_report());
    r
}

/// A simple command report: command byte and two arguments.
pub open spec fn cc_report(cmd: u8, b: u8, c: u8) -> Seq<u8> {
    blank_report().update(1, cmd).update(2, b).update(3, c)
}

pub fn cc_packet(cmd: u8, b: u8, c: u8) -> (r: Vec<u8>)
    ensures
        r@ == cc_report(cmd, b, c),
{
    let mut r = blank_report_exec();
    r.set(1, cmd);
    r.set(2, b);
    r.set(3, c);
    r
}

/// The bytes of a 32-bit value, least significant first.
pub open spec fn le32(v: u32) -> Seq<u8> {
    seq![(v % 256) as u8, ((v / 256) % 256) as u8, ((v / 65536) % 256) as u8, (v / 16777216) as u8]
}

/// The four bytes of `v` (little-endian) written at `at`.
pub open spec fn put_le32(s: Seq<u8>, at: int, v: u32) -> Seq<u8> {
    s.update(at, le32(v)[0]).update(at + 1, le32(v)[1]).update(at + 2, le32(v)[2]).update(at + 3, le32(v)[3])
}

/// The two bytes of `v` (little-endian) written at `at`.
pub open spec fn put_le16(s: Seq<u8>, at: int, v: u16) -> Seq<u8> {
    s.update(at, (v % 256) as u8).update(at + 1, (v / 256) as u8)
}

fn set_le32(r: &mut Vec<u8>, at: usize, v: u32)
    requires
        at + 4 <= old(r)@.len(),
    ensures
        final(r)@ == put_le32(old(r)@, at as int, v),
{
    let n = r.len();
    r.set(at, (v % 256) as u8);
    r.set(at + 1, ((v / 256) % 256) as u8);
    r.set(at + 2, ((v / 65536) % 256) as u8);
    r.set(at + 3, (v / 16777216) as u8);
}

fn set_le16(r: &mut Vec<u8>, at: usize, v: u16)
    requires
        at + 2 <= old(r)@.len(),
    ensures
        final(r)@ == put_le16(old(r)@, at as int, v),
{
    let n = r.len();
    r.set(at, (v % 256) as u8);
    r.set(at + 1, (v / 256) as u8);
}

/// The report that applies pending effects to the zones in `mask`.
pub open spec fn apply_report(mask: u32) -> Seq<u8> {
    put_le32(blank_report().update(1, 0x28u8), 2, mask)
}

pub fn apply_packet(zone_mask: u32) -> (r: Vec<u8>)
    ensures
        r@ == apply_report(zone_mask),
{
    let mut r = blank_report_exec();
    r.set(1, 0x28);
    set_le32(&mut r, 2, zone_mask);
    r
}

/// The effect period timings (at bytes 22..28) and colour-cycle bytes
/// (30, 31) of an effect at a speed (capped at 9).
pub open spec fn effect_timing(s: Seq<u8>, effect: RgbEffect, speed: u8) -> Seq<u8> {
    let spd: u16 = if speed < 9 { speed as u16 } else { 9 };
    match effect {
        RgbEffect::Static | RgbEffect::Off => s,
        RgbEffect::Pulse => {
            let p: u16 = if spd <= 6 { (400 + spd * 100) as u16 } else { (1000 + (spd - 6) * 200) as u16 };
            put_le16(put_le16(put_le16(s, 22, p), 24, p), 26, 200)
        },
        RgbEffect::Blinking => put_le16(put_le16(put_le16(s, 22, 100), 24, 100), 26, (spd * 200 + 700) as u16),
        RgbEffect::ColorCycle => {
            let p0: u16 = (spd * 100 + 300) as u16;
            put_le16(put_le16(s, 22, p0), 24, (p0 - 200) as u16).update(30, 7u8)
        },
        RgbEffect::Wave => {
            let w = spd + 1;
            put_le16(s, 22, (5 * w * (w + 1) / 2 + 25) as u16).update(30, 7u8).update(31, 1u8)
        },
        RgbEffect::Random => put_le16(s, 22, 100).update(30, 1u8).update(31, 5u8),
    }
}

/// The report that sets a zone (or all, for 0xFF) to an effect with a colour
/// (stored blue, green, red) and brightness.
pub open spec fn effect_report(zone: u8, effect: RgbEffect, color: RgbColor, speed: u8, brightness: u8) -> Seq<u8> {
    let (hdr, mask): (u8, u32) = if zone == 0xFF { (0x20, 0xFF) } else { ((0x20 + zone) as u8, (1u32 << zone) as u32) };
    effect_timing(
        put_le32(blank_report().update(1, hdr), 2, mask).update(11, it8297_code(effect)).update(12, brightness).update(
            13,
            0u8,
        ).update(14, color.b).update(15, color.g).update(16, color.r),
        effect,
        speed,
    )
}

pub fn zone_effect_packet(zone_idx: u8, effect: RgbEffect, color: RgbColor, speed: u8, brightness: u8) -> (r: Vec<u8>)
    requires
        zone_idx < 32 || zone_idx == 0xFF,
    ensures
        r@ == effect_report(zone_idx, effect, color, speed, brightness),
{
    let mut r = blank_report_exec();
    let mask: u32 = if zone_idx == 0xFF {
        r.set(1, 0x20);
        0xFF
    } else {
        r.set(1, 0x20 + zone_idx);
        1u32 << zone_idx
    };
    set_le32(&mut r, 2, mask);
    r.set(11, effect.it8297_id());
    r.set(12, brightness);
    r.set(13, 0);
    r.set(14, color.b);
    r.set(15, color.g);
    r.set(16, color.r);
    let spd: u16 = if speed < 9 { speed as u16 } else { 9 };
    match effect {
        RgbEffect::Static | RgbEffect::Off => {},
        RgbEffect::Pulse => {
            let p: u16 = if spd <= 6 { 400 + spd * 100 } else { 1000 + (spd - 6) * 200 };
            set_le16(&mut r, 22, p);
            set_le16(&mut r, 24, p);
            set_le16(&mut r, 26, 200);
        },
        RgbEffect::Blinking => {
            set_le16(&mut r, 22, 100);
            set_le16(&mut r, 24, 100);
            set_le16(&mut r, 26, spd * 200 + 700);
        },
        RgbEffect::ColorCycle => {
            let p0: u16 = spd * 100 + 300;
            set_le16(&mut r, 22, p0);
            set_le16(&mut r, 24, p0 - 200);
            r.set(30, 7);
        },
        RgbEffect::Wave => {
            let w: u16 = spd + 1;
            assert(5 * w * (w + 1) <= 550) by (nonlinear_arith)
                requires
                    1 <= w <= 10,
            ;
            set_le16(&mut r, 22, 5 * w * (w + 1) / 2 + 25);
            r.set(30, 7);
            r.set(31, 1);
        },
        RgbEffect::Random => {
            set_le16(&mut r, 22, 100);
            r.set(30, 1);
            r.set(31, 5);
        },
    }
    r
}

/// One LED's colour written into a report at `base`, in the strip's
/// calibrated byte order (red, green, blue written in that order).
pub open spec fn put_led(s: Seq<u8>, base: int, cal: (u8, u8, u8), c: RgbColor) -> Seq<u8> {
    s.update(base + cal.0, c.r).update(base + cal.1, c.g).update(base + cal.2, c.b)
}

/// The first `k` LEDs of `cs` written from byte 5 on, three bytes apart.
pub open spec fn put_leds(s: Seq<u8>, cs: Seq<RgbColor>, k: int, cal: (u8, u8, u8)) -> Seq<u8>
    decreases k,
{
    if k <= 0 {
        s
    } else {
        put_led(put_leds(s, cs, k - 1, cal), 5 + 3 * (k - 1), cal, cs[k - 1])
    }
}

/// Report `p` of a strip's direct colour data: up to 19 LEDs each, with the
/// byte offset of its data and its byte count.
pub open spec fn strip_report(addr: u8, cs: Seq<RgbColor>, p: int, cal: (u8, u8, u8)) -> Seq<u8> {
    let start = 19 * p;
    let n = if cs.len() - start < 19 { cs.len() - start } else { 19 };
    let chunk = cs.subrange(start, start + n);
    put_leds(put_le16(blank_report().update(1, addr), 2, (3 * start) as u16).update(4, (3 * n) as u8), chunk, n, cal)
}

/// Number of reports for `n` LEDs.
pub open spec fn strip_report_count(n: int) -> int {
    (n + 18) / 19
}

/// The calibrated byte offsets keep every LED's bytes inside the report,
/// and the data's byte offsets fit in 16 bits.
pub open spec fn strip_fits(n: int, cal: (u8, u8, u8)) -> bool {
    let k = if n < 19 { n } else { 19 };
    &&& 3 * n <= 65535
    &&& (n == 0 || 5 + 3 * (k - 1) + cal.0 < 64 && 5 + 3 * (k - 1) + cal.1 < 64 && 5 + 3 * (k - 1) + cal.2 < 64)
}

/// The reports that set a digital strip's LEDs directly (0x58 for D_LED1,
/// 0x59 for D_LED2), nineteen LEDs per report.
pub fn strip_packets(addr: u8, colors: &[RgbColor], cal: (u8, u8, u8)) -> (r: Vec<Vec<u8>>)
    requires
        strip_fits(colors@.len() as int, cal),
    ensures
        r@.len() == strip_report_count(colors@.len() as int),
        forall|p: int| 0 <= p < r@.len() ==> #[trigger] r@[p]@ == strip_report(addr, colors@, p, cal),
{
    let total = colors.len();
    let mut out: Vec<Vec<u8>> = Vec::new();
    let mut sent: usize = 0;
    let mut offset: u16 = 0;
    while sent < total
        invariant
            total == colors@.len(),
            strip_fits(total as int, cal),
            sent <= total,
            sent < total ==> sent == 19 * out@.len(),
            out@.len() == (sent + 18) / 19,
            offset == 3 * sent,
            forall|p: int| 0 <= p < out@.len() ==> #[trigger] out@[p]@ == strip_report(addr, colors@, p, cal),
        decreases total - sent,
    {
        let n: usize = if total - sent < 19 { total - sent } else { 19 };
        let bcount: u8 = (n * 3) as u8;
        let mut buf = blank_report_exec();
        buf.set(1, addr);
        set_le16(&mut buf, 2, offset);
        buf.set(4, bcount);
        let ghost head = buf@;
        let ghost chunk = colors@.subrange(sent as int, sent + n);
        let mut i: usize = 0;
        while i < n
            invariant
                i <= n <= 19,
                sent + n <= total,
                total == colors@.len(),
                chunk == colors@.subrange(sent as int, sent + n),
                buf@.len() == 64,
                strip_fits(total as int, cal),
                n >= 1,
                n == total - sent || n == 19,
                buf@ == put_leds(head, chunk, i as int, cal),
            decreases n - i,
        {
            let base = 5 + i * 3;
            assert(base + cal.0 < 64 && base + cal.1 < 64 && base + cal.2 < 64) by {
                assert(5 + 3 * (n - 1) + cal.0 < 64);
            }
            let c = colors[sent + i];
            assert(c == chunk[i as int]);
            buf.set(base + cal.0 as usize, c.r);
            buf.set(base + cal.1 as usize, c.g);
            buf.set(base + cal.2 as usize, c.b);
            i = i + 1;
        }
        proof {
            assert(buf@ == strip_report(addr, colors@, out@.len() as int, cal));
        }
        let ghost m = out@.len();
        out.push(buf);
        offset = offset + (bcount as u16);
        sent = sent + n;
        assert(out@.len() == (sent + 18) / 19) by (nonlinear_arith)
            requires
                out@.len() == m + 1,
                sent == 19 * m + n,
                1 <= n <= 19,
        ;
    }
    out
}

/// The effect-disable bits of the strip headers after enabling or disabling
/// built-in effects on a zone's header.
pub open spec fn builtin_bits(current: u8, zone_idx: u8, enable: bool) -> u8 {
    let bit: u8 = if zone_idx == 6 { 0x02 } else if zone_idx == 7 { 0x08 } else if zone_idx == 8 { 0x10 } else { 0x01 };
    if enable { current & !bit } else { current | bit }
}

/// The new effect-disable bits, and the 0x32 report to send when they changed.
pub fn strip_builtin_set(current: u8, zone_idx: u8, enable: bool) -> (r: (u8, Option<Vec<u8>>))
    ensures
        r.0 == builtin_bits(current, zone_idx, enable),
        match r.1 {
            Some(p) => r.0 != current && p@ == cc_report(0x32, r.0, 0),
            None => r.0 == current,
        },
{
    let bit: u8 = if zone_idx == 6 { 0x02 } else if zone_idx == 7 { 0x08 } else if zone_idx == 8 { 0x10 } else { 0x01 };
    let new_val = if enable { current & !bit } else { current | bit };
    if new_val != current {
        (new_val, Some(cc_packet(0x32, new_val, 0)))
    } else {
        (new_val, None)
    }
}

/// The zones of a board with `device_num` onboard zones (at least the back
/// I/O), then the two digital headers with 60 LEDs each.
pub open spec fn zone_layout(device_num: u8) -> Seq<(u8, Seq<char>, u8, bool, u32)> {
    seq![(0u8, "Back I/O"@, 0x20u8, false, 1u32)]
        + (if device_num >= 2 { seq![(1u8, "CPU Header"@, 0x21u8, false, 1u32)] } else { seq![] })
        + (if device_num >= 3 { seq![(2u8, "LED C1C2"@, 0x22u8, false, 1u32)] } else { seq![] })
        + (if device_num >= 4 { seq![(3u8, "PCIe"@, 0x23u8, false, 1u32)] } else { seq![] })
        + (if device_num >= 5 { seq![(4u8, "12V RGB Strip"@, 0x24u8, false, 1u32)] } else { seq![] })
        + seq![(5u8, "D_LED1"@, 0x25u8, true, 60u32), (6u8, "D_LED2"@, 0x26u8, true, 60u32)]
}

pub open spec fn zone_views(zs: Seq<ZoneInfo>) -> Seq<(u8, Seq<char>, u8, bool, u32)> {
    zs.map_values(|z: ZoneInfo| (z.idx, z.name@, z.header, z.is_digital, z.led_count))
}

fn push_zone(zs: &mut Vec<ZoneInfo>, idx: u8, name: &str, header: u8, is_digital: bool, led_count: u32)
    ensures
        zone_views(final(zs)@) == zone_views(old(zs)@).push((idx, name@, header, is_digital, led_count)),
{
    let ghost before = zs@;
    zs.push(ZoneInfo { idx, name: String::from_str(name), header, is_digital, led_count });
    assert(zone_views(zs@) =~= zone_views(before).push((idx, name@, header, is_digital, led_count)));
}

pub fn build_zones(device_num: u8) -> (r: Vec<ZoneInfo>)
    ensures
        zone_views(r@) == zone_layout(device_num),
{
    let mut zs: Vec<ZoneInfo> = Vec::new();
    push_zone(&mut zs, 0, "Back I/O", 0x20, false, 1);
    if device_num >= 2 {
        push_zone(&mut zs, 1, "CPU Header", 0x21, false, 1);
    }
    if device_num >= 3 {
        push_zone(&mut zs, 2, "LED C1C2", 0x22, false, 1);
    }
    if device_num >= 4 {
        push_zone(&mut zs, 3, "PCIe", 0x23, false, 1);
    }
    if device_num >= 5 {
        push_zone(&mut zs, 4, "12V RGB Strip", 0x24, false, 1);
    }
    push_zone(&mut zs, 5, "D_LED1", 0x25, true, 60);
    push_zone(&mut zs, 6, "D_LED2", 0x26, true, 60);
    assert(zone_views(zs@) =~= zone_layout(device_num));
    zs
}

/// The LED count of the first zone with index `idx`, or 0.
pub open spec fn zone_leds(zs: Seq<ZoneInfo>, idx: u8) -> u32
    decreases zs.len(),
{
    if zs.len() == 0 {
        0
    } else if zs[0].idx == idx {
        zs[0].led_count
    } else {
        zone_leds(zs.drop_first(), idx)
    }
}

fn zone_leds_exec(zs: &Vec<ZoneInfo>, idx: u8) -> (r: u32)
    ensures
        r == zone_leds(zs@, idx),
{
    let mut i: usize = 0;
    assert(zs@.skip(0) =~= zs@);
    while i < zs.len()
        invariant
            i <= zs@.len(),
            zone_leds(zs@, idx) == zone_leds(zs@.skip(i as int), idx),
        decreases zs.len() - i,
    {
        assert(zs@.skip(i as int)[0] == zs@[i as int]);
        assert(zs@.skip(i as int).drop_first() =~= zs@.skip(i + 1));
        if zs[i].idx == idx {
            return zs[i].led_count;
        }
        i = i + 1;
    }
    0
}

/// The strip LED-count byte (command 0x34): D_LED2's setting in the high
/// nibble, D_LED1's in the low one.
pub open spec fn led_count_setting(zs: Seq<ZoneInfo>) -> u8 {
    ((led_count_code(zone_leds(zs, 6)) * 16) + led_count_code(zone_leds(zs, 5))) as u8
}

pub fn led_count_byte(zones: &Vec<ZoneInfo>) -> (r: u8)
    ensures
        r == led_count_setting(zones@),
{
    let d1 = led_count_to_enum(zone_leds_exec(zones, 5));
    let d2 = led_count_to_enum(zone_leds_exec(zones, 6));
    let r = (d2 << 4) | d1;
    assert(r == d2 * 16 + d1) by (bit_vector)
        requires
            d1 <= 4,
            d2 <= 4,
            r == (d2 << 4) | d1,
    ;
    r
}

/// The byte order of a strip from its calibration word: 0 means the WS2812B
/// default (green, red, blue: red at 1, green at 0, blue at 2).
pub open spec fn calibration(val: u32) -> (u8, u8, u8) {
    if val == 0 {
        (1, 0, 2)
    } else {
        (((val / 65536) % 256) as u8, ((val / 256) % 256) as u8, (val % 256) as u8)
    }
}

pub fn parse_cal(val: u32) -> (r: (u8, u8, u8))
    ensures
        r == calibration(val),
{
    if val == 0 {
        (1, 0, 2)
    } else {
        let r = ((val >> 16) & 0xFF) as u8;
        let g = ((val >> 8) & 0xFF) as u8;
        let b = (val & 0xFF) as u8;
        assert(((val >> 16) & 0xFF) == (val / 65536) % 256 && ((val >> 8) & 0xFF) == (val / 256) % 256
            && (val & 0xFF) == val % 256) by (bit_vector);
        (r, g, b)
    }
}

/// A little-endian 32-bit value of four bytes.
pub open spec fn le32_value(b0: u8, b1: u8, b2: u8, b3: u8) -> u32 {
    (b0 + 256 * b1 + 65536 * b2 + 16777216 * b3) as u32
}

fn le32_exec(b0: u8, b1: u8, b2: u8, b3: u8) -> (r: u32)
    ensures
        r == le32_value(b0, b1, b2, b3),
{
    b0 as u32 + 256 * (b1 as u32) + 65536 * (b2 as u32) + 16777216 * (b3 as u32)
}

/// What the IT8297 hardware report (command 0x60) tells: device number,
/// firmware version, and the two strips' byte orders (default where the
/// report is too short to hold them).
pub struct It8297Report {
    pub device_num: u8,
    pub fw_version: u32,
    pub d_led1_cal: (u8, u8, u8),
    pub d_led2_cal: (u8, u8, u8),
}

/// The report fields of the first `n` bytes of `buf`; reports shorter than
/// 16 bytes are refused.
pub fn parse_it8297_report(buf: &[u8], n: usize) -> (r: Result<It8297Report, String>)
    requires
        n <= buf@.len(),
        buf@.len() >= 52,
    ensures
        n < 16 ==> (r matches Err(m) && m@ == "IT8297Report zu kurz ("@ + crate::text::dec(n as nat) + " bytes)"@),
        n >= 16 ==> (r matches Ok(x) && x.device_num == buf@[2]
            && x.fw_version == le32_value(buf@[4], buf@[5], buf@[6], buf@[7])
            && x.d_led1_cal == (if n >= 48 { calibration(le32_value(buf@[44], buf@[45], buf@[46], buf@[47])) } else { (1u8, 0u8, 2u8) })
            && x.d_led2_cal == (if n >= 52 { calibration(le32_value(buf@[48], buf@[49], buf@[50], buf@[51])) } else { (1u8, 0u8, 2u8) })),
{
    if n < 16 {
        let mut m: Vec<char> = Vec::new();
        push_str(&mut m, "IT8297Report zu kurz (");
        push_dec(&mut m, n as u64);
        push_str(&mut m, " bytes)");
        return Err(string_of(&m));
    }
    let c1 = if n >= 48 { parse_cal(le32_exec(buf[44], buf[45], buf[46], buf[47])) } else { (1, 0, 2) };
    let c2 = if n >= 52 { parse_cal(le32_exec(buf[48], buf[49], buf[50], buf[51])) } else { (1, 0, 2) };
    Ok(It8297Report {
        device_num: buf[2],
        fw_version: le32_exec(buf[4], buf[5], buf[6], buf[7]),
        d_led1_cal: c1,
        d_led2_cal: c2,
    })
}

// ─── Corsair K70 TKL reports ──────────────────────────────────

/// The K70's colour data: red, green, blue repeated over its 389 bytes.
pub open spec fn k70_color_data(c: RgbColor) -> Seq<u8> {
    Seq::new(389, |j: int| if j % 3 == 0 { c.r } else if j % 3 == 1 { c.g } else { c.b })
}

pub fn k70_fill(color: RgbColor) -> (r: Vec<u8>)
    ensures
        r@ == k70_color_data(color),
{
    let mut r: Vec<u8> = Vec::new();
    let mut j: usize = 0;
    while j < 389
        invariant
            j <= 389,
            r@.len() == j,
            forall|k: int| 0 <= k < j ==> r@[k] == k70_color_data(color)[k],
        decreases 389 - j,
    {
        let v = if j % 3 == 0 { color.r } else if j % 3 == 1 { color.g } else { color.b };
        r.push(v);
        j = j + 1;
    }
    assert(r@ =~= k70_color_data(color));
    r
}

/// A K70 write report (1025 bytes): report id 0, command 0x08, the
/// endpoint, then as much of the data as fits.
pub open spec fn k70_report(endpoint: Seq<u8>, data: Seq<u8>) -> Seq<u8> {
    let ep_end = 2 + endpoint.len();
    Seq::new(
        1025,
        |i: int|
            if i == 1 {
                0x08u8
            } else if 2 <= i < ep_end {
                endpoint[i - 2]
            } else if ep_end <= i < ep_end + data.len() {
                data[i - ep_end]
            } else {
                0u8
            },
    )
}

pub fn k70_transfer_packet(endpoint: &[u8], data: &[u8]) -> (r: Vec<u8>)
    requires
        endpoint@.len() <= 16,
    ensures
        r@ == k70_report(endpoint@, data@),
{
    let ep_end = 2 + endpoint.len();
    let mut r: Vec<u8> = Vec::new();
    let mut i: usize = 0;
    while i < 1025
        invariant
            i <= 1025,
            ep_end == 2 + endpoint@.len(),
            ep_end <= 18,
            r@.len() == i,
            forall|k: int| 0 <= k < i ==> r@[k] == k70_report(endpoint@, data@)[k],
        decreases 1025 - i,
    {
        let v = if i == 1 {
            0x08
        } else if 2 <= i && i < ep_end {
            endpoint[i - 2]
        } else if ep_end <= i && i - ep_end < data.len() {
            data[i - ep_end]
        } else {
            0
        };
        r.push(v);
        i = i + 1;
    }
    assert(r@ =~= k70_report(endpoint@, data@));
    r
}

/// The K70 colour buffer: data length (16-bit, little-endian), two zeros,
/// the set-colour data type 0x12 0x00, then the data.
pub open spec fn k70_color_buffer(data: Seq<u8>) -> Seq<u8> {
    seq![(data.len() % 256) as u8, ((data.len() / 256) % 256) as u8, 0u8, 0u8, 0x12u8, 0u8] + data
}

/// The colour writes: the buffer in 1021-byte chunks, the first sent to the
/// write-colour endpoint (0x06 0x00), the others to the next-colour one (0x07 0x00).
pub open spec fn k70_color_write(data: Seq<u8>, i: int) -> (Seq<u8>, Seq<u8>) {
    let b = k70_color_buffer(data);
    let end = if 1021 * (i + 1) < b.len() { 1021 * (i + 1) } else { b.len() as int };
    (if i == 0 { seq![0x06u8, 0x00u8] } else { seq![0x07u8, 0x00u8] }, b.subrange(1021 * i, end))
}

pub fn k70_color_writes(data: &[u8]) -> (r: Vec<(Vec<u8>, Vec<u8>)>)
    requires
        data@.len() + 6 <= usize::MAX,
    ensures
        r@.len() == (k70_color_buffer(data@).len() + 1020) / 1021,
        forall|i: int| 0 <= i < r@.len() ==> (#[trigger] r@[i].0@, r@[i].1@) == k70_color_write(data@, i),
{
    let mut buf: Vec<u8> = Vec::new();
    buf.push((data.len() % 256) as u8);
    buf.push(((data.len() / 256) % 256) as u8);
    buf.push(0);
    buf.push(0);
    buf.push(0x12);
    buf.push(0);
    let mut k: usize = 0;
    while k < data.len()
        invariant
            k <= data@.len(),
            buf@ == seq![(data@.len() % 256) as u8, ((data@.len() / 256) % 256) as u8, 0u8, 0u8, 0x12u8, 0u8] + data@.take(k as int),
        decreases data.len() - k,
    {
        buf.push(data[k]);
        assert(data@.take(k + 1) =~= data@.take(k as int).push(data@[k as int]));
        k = k + 1;
    }
    assert(data@.take(data@.len() as int) =~= data@);
    assert(buf@ =~= k70_color_buffer(data@));
    let n = buf.len();
    let count = n / 1021 + if n % 1021 > 0 { 1 } else { 0 };
    assert(count == (n + 1020) / 1021) by (nonlinear_arith)
        requires
            count == n / 1021 + if n % 1021 > 0 { 1int } else { 0int },
    ;
    let mut out: Vec<(Vec<u8>, Vec<u8>)> = Vec::new();
    let mut i: usize = 0;
    while i < count
        invariant
            n == buf@.len(),
            n >= 6,
            buf@ == k70_color_buffer(data@),
            count == (n + 1020) / 1021,
            i <= count,
            out@.len() == i,
            forall|j: int| 0 <= j < i ==> (#[trigger] out@[j].0@, out@[j].1@) == k70_color_write(data@, j),
        decreases count - i,
    {
        assert(1021 * i < n) by (nonlinear_arith)
            requires
                i < count,
                count == (n + 1020) / 1021,
        ;
        let start = 1021 * i;
        let end = if n - start > 1021 { start + 1021 } else { n };
        let chunk = copy_range(&buf, start, end);
        let mut ep: Vec<u8> = Vec::new();
        if i == 0 {
            ep.push(0x06);
        } else {
            ep.push(0x07);
        }
        ep.push(0x00);
        assert(ep@ =~= (if i == 0 { seq![0x06u8, 0x00u8] } else { seq![0x07u8, 0x00u8] }));
        out.push((ep, chunk));
        i = i + 1;
    }
    out
}

/// The bytes `a..b` of `v`.
pub fn copy_range(v: &Vec<u8>, a: usize, b: usize) -> (r: Vec<u8>)
    requires
        a <= b <= v@.len(),
    ensures
        r@ == v@.subrange(a as int, b as int),
{
    let mut r: Vec<u8> = Vec::new();
    let mut k: usize = a;
    while k < b
        invariant
            a <= k <= b <= v@.len(),
            r@ == v@.subrange(a as int, k as int),
        decreases b - k,
    {
        r.push(v[k]);
        assert(r@ =~= v@.subrange(a as int, k + 1));
        k = k + 1;
    }
    r
}

} // verus!
