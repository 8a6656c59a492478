//! The RGB status the frontend shows: one entry per connected device, with its
//! zones and the effects it supports.

use vstd::prelude::*;
use vstd::string::*;
use crate::helpers::string_views;
use crate::openrgb::{RgbDeviceInfo, RgbStatus, RgbZoneInfo, ZoneInfo};
use crate::sync_run::opt_text;
use crate::text::{push_str, string_of};

verus! {

/// The devices the RGB manager holds, as plain values.
pub struct DevicePresence {
    /// Gigabyte IT8297 controller: product name and zone layout.
    pub it8297: Option<(String, Vec<ZoneInfo>)>,
    /// Corsair K70: number of key LEDs.
    pub k70: Option<u32>,
    pub aerox3: bool,
    pub qck: bool,
    /// XPG SPECTRIX S40G: the NVMe device name.
    pub xpg_s40g: Option<String>,
    /// XPG SPECTRIX S20G on the Pi: the device name and, when read, the
    /// temperature in whole degrees as text.
    pub xpg_s20g: Option<(String, Option<String>)>,
}

/// A zone as the frontend sees it: name, LED count, digital strip.
pub type ZoneView = (Seq<char>, u32, bool);

/// A device entry: id, name, type, vendor, connected, zones, effects.
pub type DeviceView = (Seq<char>, Seq<char>, Seq<char>, Seq<char>, bool, Seq<ZoneView>, Seq<Seq<char>>);

pub open spec fn zone_view(z: RgbZoneInfo) -> ZoneView {
    (z.name@, z.leds_count, z.is_digital)
}

pub open spec fn device_view(d: RgbDeviceInfo) -> DeviceView {
    (d.id@, d.name@, d.device_type@, d.vendor@, d.connected,
        d.zones@.map_values(|z: RgbZoneInfo| zone_view(z)), string_views(d.effects@))
}

pub open spec fn device_views(ds: Seq<RgbDeviceInfo>) -> Seq<DeviceView> {
    ds.map_values(|d: RgbDeviceInfo| device_view(d))
}

/// The effects of the devices with hardware effects.
pub open spec fn all_effects() -> Seq<Seq<char>> {
    seq!["Static"@, "Pulse"@, "Blinking"@, "ColorCycle"@, "Wave"@, "Random"@]
}

pub open spec fn static_only() -> Seq<Seq<char>> {
    seq!["Static"@]
}

pub open spec fn board_zones(zs: Seq<ZoneInfo>) -> Seq<ZoneView> {
    zs.map_values(|z: ZoneInfo| (z.name@, z.led_count, z.is_digital))
}

pub open spec fn it8297_view(product: Seq<char>, zs: Seq<ZoneInfo>) -> DeviceView {
    ("it8297"@, "Gigabyte "@ + product + " (IT8297)"@, "Motherboard"@, "Gigabyte"@, true, board_zones(zs), all_effects())
}

pub open spec fn k70_view(leds: u32) -> DeviceView {
    ("k70"@, "Corsair K70 RGB TKL"@, "Keyboard"@, "Corsair"@, true, seq![("Keyboard"@, leds, false)], static_only())
}

pub open spec fn aerox3_view() -> DeviceView {
    ("aerox3"@, "SteelSeries Aerox 3"@, "Mouse"@, "SteelSeries"@, true,
        seq![("Front"@, 1u32, false), ("Mitte"@, 1u32, false), ("Hinten"@, 1u32, false)], static_only())
}

pub open spec fn qck_view() -> DeviceView {
    ("qck"@, "SteelSeries QCK Prism Cloth"@, "Mousemat"@, "SteelSeries"@, true,
        seq![("Unten"@, 1u32, false), ("Oben"@, 1u32, false)], static_only())
}

pub open spec fn s40g_view(dev: Seq<char>) -> DeviceView {
    ("xpg_s40g"@, "XPG SPECTRIX S40G ("@ + dev + ")"@, "Storage"@, "ADATA"@, true,
        seq![("NVMe LEDs"@, 8u32, false)], all_effects())
}

pub open spec fn s20g_name(dev: Seq<char>, temp: Option<Seq<char>>) -> Seq<char> {
    let base = "XPG SPECTRIX S20G Pi5 ("@ + dev + ")"@;
    match temp {
        Some(t) => base + " "@ + t + "°C"@,
        None => base,
    }
}

pub open spec fn s20g_view(dev: Seq<char>, temp: Option<Seq<char>>) -> DeviceView {
    ("xpg_s20g"@, s20g_name(dev, temp), "Storage"@, "ADATA"@, true,
        seq![("NVMe LEDs"@, 8u32, false)], all_effects())
}

/// The device entries, in the order IT8297, K70, Aerox 3, QCK, S40G, S20G,
/// of the devices that are present.
pub open spec fn presence_devices(p: DevicePresence) -> Seq<DeviceView> {
    (match p.it8297 { Some(x) => seq![it8297_view(x.0@, x.1@)], None => seq![] })
    + (match p.k70 { Some(n) => seq![k70_view(n)], None => seq![] })
    + (if p.aerox3 { seq![aerox3_view()] } else { seq![] })
    + (if p.qck { seq![qck_view()] } else { seq![] })
    + (match p.xpg_s40g { Some(d) => seq![s40g_view(d@)], None => seq![] })
    + (match p.xpg_s20g { Some(x) => seq![s20g_view(x.0@, opt_text(x.1))], None => seq![] })
}

fn text(s: &str) -> (r: String)
    ensures
        r@ == s@,
{
    s.to_string()
}

fn effects_all() -> (r: Vec<String>)
    ensures
        string_views(r@) == all_effects(),
{
    let mut v: Vec<String> = Vec::new();
    v.push(text("Static"));
    v.push(text("Pulse"));
    v.push(text("Blinking"));
    v.push(text("ColorCycle"));
    v.push(text("Wave"));
    v.push(text("Random"));
    assert(string_views(v@) =~= all_effects());
    v
}

fn effects_static() -> (r: Vec<String>)
    ensures
        string_views(r@) == static_only(),
{
    let mut v: Vec<String> = Vec::new();
    v.push(text("Static"));
    assert(string_views(v@) =~= static_only());
    v
}

fn zone(name: &str, leds: u32) -> (r: RgbZoneInfo)
    ensures
        zone_view(r) == (name@, leds, false),
{
    RgbZoneInfo { name: text(name), leds_count: leds, is_digital: false }
}

fn device(id: &str, name: String, device_type: &str, vendor: &str, zones: Vec<RgbZoneInfo>, effects: Vec<String>) -> (r: RgbDeviceInfo)
    ensures
        device_view(r) == (id@, name@, device_type@, vendor@, true,
            zones@.map_values(|z: RgbZoneInfo| zone_view(z)), string_views(effects@)),
{
    RgbDeviceInfo {
        id: text(id),
        name,
        device_type: text(device_type),
        vendor: text(vendor),
        connected: true,
        zones,
        effects,
    }
}

fn board_zone_infos(zs: &Vec<ZoneInfo>) -> (r: Vec<RgbZoneInfo>)
    ensures
        r@.map_values(|z: RgbZoneInfo| zone_view(z)) == board_zones(zs@),
{
    let mut out: Vec<RgbZoneInfo> = Vec::new();
    let mut i: usize = 0;
    while i < zs.len()
        invariant
            i <= zs@.len(),
            out@.map_values(|z: RgbZoneInfo| zone_view(z)) == board_zones(zs@.take(i as int)),
        decreases zs@.len() - i,
    {
        let z = &zs[i];
        let ghost before = out@;
        let name = z.name.clone();
        assert(name@ == z.name@);
        let info = RgbZoneInfo { name, leds_count: z.led_count, is_digital: z.is_digital };
        out.push(info);
        assert(zs@.take(i + 1) =~= zs@.take(i as int).push(zs@[i as int]));
        assert(out@.map_values(|z: RgbZoneInfo| zone_view(z)) =~= before.map_values(|z: RgbZoneInfo| zone_view(z)).push(zone_view(info)));
        assert(out@.map_values(|z: RgbZoneInfo| zone_view(z)) =~= board_zones(zs@.take(i + 1)));
        i = i + 1;
    }
    assert(zs@.take(zs@.len() as int) =~= zs@);
    out
}

fn push_device(ds: &mut Vec<RgbDeviceInfo>, d: RgbDeviceInfo)
    ensures
        device_views(final(ds)@) == device_views(old(ds)@).push(device_view(d)),
{
    ds.push(d);
    assert(device_views(ds@) =~= device_views(old(ds)@).push(device_view(d)));
}

/// The status of the RGB devices: an entry for each device present, and
/// `connected` when there is at least one.
pub fn rgb_status(p: &DevicePresence) -> (r: RgbStatus)
    ensures
        device_views(r.devices@) == presence_devices(*p),
        r.connected == (presence_devices(*p).len() > 0),
{
    let mut ds: Vec<RgbDeviceInfo> = Vec::new();
    let ghost mut acc: Seq<DeviceView> = seq![];
    assert(device_views(ds@) =~= acc);
    match &p.it8297 {
        Some(x) => {
            let mut n: Vec<char> = Vec::new();
            push_str(&mut n, "Gigabyte ");
            push_str(&mut n, x.0.as_str());
            push_str(&mut n, " (IT8297)");
            let zs = board_zone_infos(&x.1);
            push_device(&mut ds, device("it8297", string_of(&n), "Motherboard", "Gigabyte", zs, effects_all()));
            proof { acc = acc.push(it8297_view(x.0@, x.1@)); }
        },
        None => {},
    }
    match p.k70 {
        Some(leds) => {
            let mut zs: Vec<RgbZoneInfo> = Vec::new();
            zs.push(zone("Keyboard", leds));
            assert(zs@.map_values(|z: RgbZoneInfo| zone_view(z)) =~= seq![("Keyboard"@, leds, false)]);
            push_device(&mut ds, device("k70", text("Corsair K70 RGB TKL"), "Keyboard", "Corsair", zs, effects_static()));
            proof { acc = acc.push(k70_view(leds)); }
        },
        None => {},
    }
    if p.aerox3 {
        let mut zs: Vec<RgbZoneInfo> = Vec::new();
        zs.push(zone("Front", 1));
        zs.push(zone("Mitte", 1));
        zs.push(zone("Hinten", 1));
        assert(zs@.map_values(|z: RgbZoneInfo| zone_view(z))
            =~= seq![("Front"@, 1u32, false), ("Mitte"@, 1u32, false), ("Hinten"@, 1u32, false)]);
        push_device(&mut ds, device("aerox3", text("SteelSeries Aerox 3"), "Mouse", "SteelSeries", zs, effects_static()));
        proof { acc = acc.push(aerox3_view()); }
    }
    if p.qck {
        let mut zs: Vec<RgbZoneInfo> = Vec::new();
        zs.push(zone("Unten", 1));
        zs.push(zone("Oben", 1));
        assert(zs@.map_values(|z: RgbZoneInfo| zone_view(z)) =~= seq![("Unten"@, 1u32, false), ("Oben"@, 1u32, false)]);
        push_device(&mut ds, device("qck", text("SteelSeries QCK Prism Cloth"), "Mousemat", "SteelSeries", zs, effects_static()));
        proof { acc = acc.push(qck_view()); }
    }
    match &p.xpg_s40g {
        Some(dev) => {
            let mut n: Vec<char> = Vec::new();
            push_str(&mut n, "XPG SPECTRIX S40G (");
            push_str(&mut n, dev.as_str());
            push_str(&mut n, ")");
            let mut zs: Vec<RgbZoneInfo> = Vec::new();
            zs.push(zone("NVMe LEDs", 8));
            assert(zs@.map_values(|z: RgbZoneInfo| zone_view(z)) =~= seq![("NVMe LEDs"@, 8u32, false)]);
            push_device(&mut ds, device("xpg_s40g", string_of(&n), "Storage", "ADATA", zs, effects_all()));
            proof { acc = acc.push(s40g_view(dev@)); }
        },
        None => {},
    }
    match &p.xpg_s20g {
        Some(x) => {
            let mut n: Vec<char> = Vec::new();
            push_str(&mut n, "XPG SPECTRIX S20G Pi5 (");
            push_str(&mut n, x.0.as_str());
            push_str(&mut n, ")");
            match &x.1 {
                Some(t) => {
                    push_str(&mut n, " ");
                    push_str(&mut n, t.as_str());
                    push_str(&mut n, "°C");
                },
                None => {},
            }
            let mut zs: Vec<RgbZoneInfo> = Vec::new();
            zs.push(zone("NVMe LEDs", 8));
            assert(zs@.map_values(|z: RgbZoneInfo| zone_view(z)) =~= seq![("NVMe LEDs"@, 8u32, false)]);
            push_device(&mut ds, device("xpg_s20g", string_of(&n), "Storage", "ADATA", zs, effects_all()));
            proof { acc = acc.push(s20g_view(x.0@, opt_text(x.1))); }
        },
        None => {},
    }
    assert(acc =~= presence_devices(*p));
    let connected = ds.len() > 0;
    RgbStatus { connected, devices: ds }
}

} // verus!
