//! iCUE NEXUS touchscreen (640×48 LCD, five touch zones): page control,
//! status, frame encoding and the LCD transfer framing.

use vstd::prelude::*;
use vstd::string::*;
use crate::hid::HidError;
use crate::protocol::{NEXUS_IMG_HEIGHT, NEXUS_IMG_WIDTH, NEXUS_LCD_BUF_SIZE, NEXUS_LCD_MAX_PAYLOAD};
use crate::text::{dec, push_dec, push_str, string_of};

verus! {

// ─── Types ────────────────────────────────────────────────────

/// A touch button of the NEXUS screen: a horizontal zone.
#[derive(Debug, Clone)]
pub struct NexusButton {
    pub index: u8,
    pub pos_min: u16,
    pub pos_max: u16,
    pub label: String,
}

/// NEXUS device status, as shown to the frontend.
#[derive(Debug, Clone)]
pub struct NexusStatus {
    pub firmware: String,
    pub serial: String,
    pub product: String,
    pub connected: bool,
    pub lcd_width: u32,
    pub lcd_height: u32,
    pub buttons: Vec<NexusButton>,
    pub last_button: Option<u8>,
    pub current_page: u8,
    pub page_count: u8,
    pub auto_cycle: bool,
}

pub const PAGE_FANS: u8 = 0;
pub const PAGE_TEMPS: u8 = 1;
pub const PAGE_SYS: u8 = 2;
pub const PAGE_CLOCK: u8 = 3;
pub const PAGE_COUNT: u8 = 4;

/// The name shown for each page.
pub open spec fn page_title(page: u8) -> Seq<char> {
    if page == 0 {
        "FANS"@
    } else if page == 1 {
        "TEMPS"@
    } else if page == 2 {
        "SYSTEM"@
    } else {
        "UHR"@
    }
}

/// Name of each page.
pub fn page_name(page: u8) -> (r: &'static str)
    requires
        page < PAGE_COUNT,
    ensures
        r@ == page_title(page),
{
    match page {
        0 => "FANS",
        1 => "TEMPS",
        2 => "SYSTEM",
        _ => "UHR",
    }
}

/// Colour presets of widgets.
#[derive(Debug, Clone, Copy, PartialEq, Eq, Structural)]
pub enum WidgetColor {
    White,
    Cyan,
    Amber,
    Red,
    Purple,
    Dim,
}

/// An RGBA pixel.
#[derive(Debug, Clone, Copy)]
pub struct Rgba(pub [u8; 4]);

/// The RGBA bytes of a colour preset.
pub open spec fn rgba_of(c: WidgetColor) -> Seq<u8> {
    match c {
        WidgetColor::White => seq![255u8, 255, 255, 255],
        WidgetColor::Cyan => seq![0u8, 200, 220, 255],
        WidgetColor::Amber => seq![251u8, 191, 36, 255],
        WidgetColor::Red => seq![248u8, 113, 113, 255],
        WidgetColor::Purple => seq![120u8, 80, 160, 255],
        WidgetColor::Dim => seq![100u8, 100, 100, 255],
    }
}

impl WidgetColor {
    pub fn to_rgba(self) -> (r: Rgba)
        ensures
            r.0@ == rgba_of(self),
    {
        let c: [u8; 4] = match self {
            WidgetColor::White => [255, 255, 255, 255],
            WidgetColor::Cyan => [0, 200, 220, 255],
            WidgetColor::Amber => [251, 191, 36, 255],
            WidgetColor::Red => [248, 113, 113, 255],
            WidgetColor::Purple => [120, 80, 160, 255],
            WidgetColor::Dim => [100, 100, 100, 255],
        };
        assert(c@ =~= rgba_of(self));
        Rgba(c)
    }
}

/// The colour of widgets that do not name one.
pub fn default_color_dim_dark() -> (c: WidgetColor)
    ensures
        c == WidgetColor::Dim,
{
    WidgetColor::Dim
}

/// Live data that a widget shows.
#[derive(Debug, Clone, Copy, PartialEq, Eq, Structural)]
pub enum DataSource {
    WaterTemp,
    CpuTemp,
    GpuTemp,
    TotalPower,
    CpuUsage,
    RamUsage,
    CpuFreq,
    RamTotal,
}

// ─── Buttons and status ───────────────────────────────────────

/// Width of each of the five touch zones.
pub open spec fn zone_width() -> nat {
    (NEXUS_IMG_WIDTH / 5) as nat
}

/// The five touch zones, left to right, labelled "Button 1" to "Button 5".
pub fn default_buttons() -> (r: Vec<NexusButton>)
    ensures
        r@.len() == 5,
        forall|i: int|
            #![trigger r@[i]]
            0 <= i < 5 ==> r@[i].index == i && r@[i].pos_min == i * zone_width() && r@[i].pos_max
                == (i + 1) * zone_width() - 1 && r@[i].label@ == "Button "@ + dec((i + 1) as nat),
{
    let zone: u16 = (NEXUS_IMG_WIDTH / 5) as u16;
    let mut r: Vec<NexusButton> = Vec::new();
    let mut i: u8 = 0;
    while i < 5
        invariant
            i <= 5,
            zone == zone_width(),
            r@.len() == i,
            forall|j: int|
                #![trigger r@[j]]
                0 <= j < i ==> r@[j].index == j && r@[j].pos_min == j * zone_width()
                    && r@[j].pos_max == (j + 1) * zone_width() - 1 && r@[j].label@ == "Button "@
                    + dec((j + 1) as nat),
        decreases 5 - i,
    {
        let mut label: Vec<char> = Vec::new();
        push_str(&mut label, "Button ");
        push_dec(&mut label, (i + 1) as u64);
        let b = NexusButton {
            index: i,
            pos_min: (i as u16) * zone,
            pos_max: (i as u16 + 1) * zone - 1,
            label: string_of(&label),
        };
        r.push(b);
        i = i + 1;
    }
    r
}

// ─── Pages ────────────────────────────────────────────────────

/// Refresh ticks a page stays before auto-cycling moves on.
pub const AUTO_CYCLE_TICKS: u8 = 12;

/// The page shown, auto-cycling, and the fan icon's blade angle.
#[derive(Debug, Clone, Copy, PartialEq, Eq, Structural)]
pub struct NexusPages {
    pub current_page: u8,
    pub auto_cycle: bool,
    pub cycle_counter: u8,
    pub fan_angle: u16,
}

impl NexusPages {
    /// A valid page, a counter within the cycle, an angle below a full turn.
    pub open spec fn well_formed(self) -> bool {
        &&& self.current_page < PAGE_COUNT
        &&& self.cycle_counter <= AUTO_CYCLE_TICKS
        &&& self.fan_angle < 360
    }

    /// The fans page, no auto-cycling, angle zero.
    pub fn new() -> (p: NexusPages)
        ensures
            p == (NexusPages { current_page: PAGE_FANS, auto_cycle: false, cycle_counter: 0, fan_angle: 0 }),
            p.well_formed(),
    {
        NexusPages { current_page: PAGE_FANS, auto_cycle: false, cycle_counter: 0, fan_angle: 0 }
    }

    /// Shows `page` (the first page for a number out of range) and restarts the cycle.
    pub fn set_page(&mut self, page: u8)
        requires
            old(self).well_formed(),
        ensures
            final(self).current_page == (if page >= PAGE_COUNT { 0 } else { page }),
            final(self).cycle_counter == 0,
            final(self).auto_cycle == old(self).auto_cycle,
            final(self).fan_angle == old(self).fan_angle,
            final(self).well_formed(),
    {
        let p = if page >= PAGE_COUNT { 0 } else { page };
        self.current_page = p;
        self.cycle_counter = 0;
    }

    /// The following page, after the last the first.
    pub fn next_page(&mut self)
        requires
            old(self).well_formed(),
        ensures
            final(self).current_page == (old(self).current_page + 1) % (PAGE_COUNT as int),
            final(self).cycle_counter == 0,
            final(self).auto_cycle == old(self).auto_cycle,
            final(self).fan_angle == old(self).fan_angle,
            final(self).well_formed(),
    {
        let cur = self.current_page;
        self.set_page((cur + 1) % PAGE_COUNT);
    }

    /// The preceding page, before the first the last.
    pub fn prev_page(&mut self)
        requires
            old(self).well_formed(),
        ensures
            final(self).current_page == (if old(self).current_page == 0 {
                PAGE_COUNT - 1
            } else {
                old(self).current_page - 1
            }),
            final(self).cycle_counter == 0,
            final(self).auto_cycle == old(self).auto_cycle,
            final(self).fan_angle == old(self).fan_angle,
            final(self).well_formed(),
    {
        let cur = self.current_page;
        self.set_page(if cur == 0 { PAGE_COUNT - 1 } else { cur - 1 });
    }

    pub fn set_auto_cycle(&mut self, enabled: bool)
        ensures
            *final(self) == (NexusPages { auto_cycle: enabled, ..*old(self) }),
    {
        self.auto_cycle = enabled;
    }

    /// One refresh tick: with auto-cycling, the page moves on after
    /// `AUTO_CYCLE_TICKS` ticks; the fan blades turn by 8 degrees.
    /// Returns the page and the angle to render.
    pub fn tick(&mut self) -> (r: (u8, u16))
        requires
            old(self).well_formed(),
        ensures
            *final(self) == tick_next(*old(self)),
            r == (final(self).current_page, final(self).fan_angle),
            final(self).well_formed(),
    {
        if self.auto_cycle {
            let t = self.cycle_counter;
            self.cycle_counter = t + 1;
            if t >= AUTO_CYCLE_TICKS {
                self.cycle_counter = 0;
                self.current_page = (self.current_page + 1) % PAGE_COUNT;
            }
        }
        self.fan_angle = (self.fan_angle + 8) % 360;
        (self.current_page, self.fan_angle)
    }
}

/// The page state after one refresh tick.
pub open spec fn tick_next(p: NexusPages) -> NexusPages {
    let turned = ((p.fan_angle + 8) % 360) as u16;
    if p.auto_cycle {
        if p.cycle_counter >= AUTO_CYCLE_TICKS {
            NexusPages {
                current_page: ((p.current_page + 1) % (PAGE_COUNT as int)) as u8,
                cycle_counter: 0,
                fan_angle: turned,
                ..p
            }
        } else {
            NexusPages { cycle_counter: (p.cycle_counter + 1) as u8, fan_angle: turned, ..p }
        }
    } else {
        NexusPages { fan_angle: turned, ..p }
    }
}

/// `n` refresh ticks.
pub open spec fn ticks(p: NexusPages, n: nat) -> NexusPages
    decreases n,
{
    if n == 0 {
        p
    } else {
        ticks(tick_next(p), (n - 1) as nat)
    }
}

/// The page that follows `page`.
pub open spec fn page_after(page: u8) -> u8 {
    ((page + 1) % (PAGE_COUNT as int)) as u8
}

/// The page that precedes `page`.
pub open spec fn page_before(page: u8) -> u8 {
    if page == 0 {
        (PAGE_COUNT - 1) as u8
    } else {
        (page - 1) as u8
    }
}

/// Going to the next page and back again, or back and then forward, shows
/// the same page.
pub proof fn law_next_prev_inverse(page: u8)
    requires
        page < PAGE_COUNT,
    ensures
        page_before(page_after(page)) == page,
        page_after(page_before(page)) == page,
{
}

/// After as many "next" steps as there are pages, the same page is shown.
pub proof fn law_next_cycles_through_all(page: u8)
    requires
        page < PAGE_COUNT,
    ensures
        page_after(page_after(page_after(page_after(page)))) == page,
        page_after(page) != page,
{
}

/// With auto-cycling, a freshly set page is shown for `AUTO_CYCLE_TICKS + 1`
/// ticks, and the following tick shows the next page.
pub proof fn law_auto_cycle_period(p: NexusPages)
    requires
        p.well_formed(),
        p.auto_cycle,
        p.cycle_counter == 0,
    ensures
        ticks(p, AUTO_CYCLE_TICKS as nat).current_page == p.current_page,
        ticks(p, AUTO_CYCLE_TICKS as nat).cycle_counter == AUTO_CYCLE_TICKS,
        ticks(p, (AUTO_CYCLE_TICKS + 1) as nat).current_page == page_after(p.current_page),
        ticks(p, (AUTO_CYCLE_TICKS + 1) as nat).cycle_counter == 0,
{
    reveal_with_fuel(ticks, 14);
}

/// Without auto-cycling, ticks never change the page.
pub proof fn law_no_cycle_keeps_page(p: NexusPages, n: nat)
    requires
        !p.auto_cycle,
    ensures
        ticks(p, n).current_page == p.current_page,
        ticks(p, n).auto_cycle == false,
    decreases n,
{
    if n > 0 {
        law_no_cycle_keeps_page(tick_next(p), (n - 1) as nat);
    }
}

/// The status reported for a connected device.
pub fn nexus_status(firmware: &str, serial: &str, last_button: u8, pages: &NexusPages) -> (r: NexusStatus)
    ensures
        r.firmware@ == firmware@,
        r.serial@ == serial@,
        r.product@ == "iCUE NEXUS"@,
        r.connected,
        r.lcd_width == NEXUS_IMG_WIDTH,
        r.lcd_height == NEXUS_IMG_HEIGHT,
        r.buttons@.len() == 5,
        forall|i: int|
            #![trigger r.buttons@[i]]
            0 <= i < 5 ==> r.buttons@[i].index == i && r.buttons@[i].pos_min == i * zone_width()
                && r.buttons@[i].pos_max == (i + 1) * zone_width() - 1 && r.buttons@[i].label@ == "Button "@ + dec((i + 1) as nat),
        r.last_button == (if last_button == u8::MAX { None } else { Some(last_button) }),
        r.current_page == pages.current_page,
        r.page_count == PAGE_COUNT,
        r.auto_cycle == pages.auto_cycle,
{
    NexusStatus {
        firmware: String::from_str(firmware),
        serial: String::from_str(serial),
        product: String::from_str("iCUE NEXUS"),
        connected: true,
        lcd_width: NEXUS_IMG_WIDTH,
        lcd_height: NEXUS_IMG_HEIGHT,
        buttons: default_buttons(),
        last_button: if last_button == u8::MAX { None } else { Some(last_button) },
        current_page: pages.current_page,
        page_count: PAGE_COUNT,
        auto_cycle: pages.auto_cycle,
    }
}

// ─── Sizes ────────────────────────────────────────────────────

/// LCD width in pixels.
pub const W: usize = 640;
/// LCD height in pixels.
pub const H: usize = 48;
/// Scale of the preview frame.
pub const PV: usize = 4;

/// Bytes of one RGBA LCD frame.
pub fn pixel_buf_size() -> (n: usize)
    ensures
        n == W * H * 4,
{
    W * H * 4
}

pub fn usize_from_u32(v: u32) -> (r: usize)
    ensures
        r == v,
{
    v as usize
}

/// The width of a bar filled `value` parts of `scale` (capped at full) out of `max_w`.
pub open spec fn pct_width(max_w: usize, value: u32, scale: u32) -> usize {
    if scale == 0 {
        0
    } else {
        let v = if value < scale { value } else { scale };
        let prod = if max_w * v > usize::MAX { usize::MAX as int } else { max_w * v };
        (prod / (scale as int)) as usize
    }
}

/// `max_w * min(value, scale) / scale`, saturating the product; 0 for scale 0.
pub fn pct_of(max_w: usize, value: u32, scale: u32) -> (r: usize)
    ensures
        r == pct_width(max_w, value, scale),
{
    if scale == 0 {
        return 0;
    }
    let v: usize = if value < scale { value as usize } else { scale as usize };
    let prod: usize = match max_w.checked_mul(v) {
        Some(p) => p,
        None => usize::MAX,
    };
    prod / (scale as usize)
}

// ─── Base64 ───────────────────────────────────────────────────

/// The RFC 4648 base64 digit for a value below 64.
pub open spec fn b64_char(i: nat) -> char {
    if i < 26 {
        (65 + i) as char
    } else if i < 52 {
        (97 + i - 26) as char
    } else if i < 62 {
        (48 + i - 52) as char
    } else if i == 62 {
        '+'
    } else {
        '/'
    }
}

/// Four base64 characters for a group of `n` (1 to 3) bytes; missing bytes
/// count as zero and their characters are `'='`.
pub open spec fn b64_group(b0: u8, b1: u8, b2: u8, n: nat) -> Seq<char> {
    let t = b0 * 65536 + b1 * 256 + b2;
    seq![
        b64_char((t / 262144) as nat),
        b64_char(((t / 4096) % 64) as nat),
        if n > 1 { b64_char(((t / 64) % 64) as nat) } else { '=' },
        if n > 2 { b64_char((t % 64) as nat) } else { '=' },
    ]
}

/// RFC 4648 base64 with padding.
pub open spec fn base64(s: Seq<u8>) -> Seq<char>
    decreases s.len(),
{
    if s.len() == 0 {
        seq![]
    } else if s.len() < 3 {
        b64_group(s[0], if s.len() > 1 { s[1] } else { 0 }, 0, s.len())
    } else {
        b64_group(s[0], s[1], s[2], 3) + base64(s.skip(3))
    }
}

fn b64_digit(i: u32) -> (c: char)
    requires
        i < 64,
    ensures
        c == b64_char(i as nat),
{
    if i < 26 {
        ((65 + i) as u8) as char
    } else if i < 52 {
        ((97 + i - 26) as u8) as char
    } else if i < 62 {
        ((48 + i - 52) as u8) as char
    } else if i == 62 {
        '+'
    } else {
        '/'
    }
}

fn push_group(out: &mut Vec<char>, b0: u8, b1: u8, b2: u8, n: usize)
    requires
        1 <= n <= 3,
    ensures
        final(out)@ == old(out)@ + b64_group(b0, b1, b2, n as nat),
{
    let x0 = b0 as u32;
    let x1 = b1 as u32;
    let x2 = b2 as u32;
    let triple: u32 = (x0 << 16) | (x1 << 8) | x2;
    assert(triple == x0 * 65536 + x1 * 256 + x2) by (bit_vector)
        requires
            x0 < 256 && x1 < 256 && x2 < 256,
            triple == (x0 << 16) | (x1 << 8) | x2,
    ;
    let i0 = (triple >> 18) & 0x3F;
    let i1 = (triple >> 12) & 0x3F;
    let i2 = (triple >> 6) & 0x3F;
    let i3 = triple & 0x3F;
    assert(i0 == (triple / 262144) % 64 && i1 == (triple / 4096) % 64 && i2 == (triple / 64) % 64
        && i3 == triple % 64) by (bit_vector)
        requires
            i0 == (triple >> 18) & 0x3F,
            i1 == (triple >> 12) & 0x3F,
            i2 == (triple >> 6) & 0x3F,
            i3 == triple & 0x3F,
    ;
    assert(triple < 16777216);
    out.push(b64_digit(i0));
    out.push(b64_digit(i1));
    out.push(if n > 1 { b64_digit(i2) } else { '=' });
    out.push(if n > 2 { b64_digit(i3) } else { '=' });
    assert(final(out)@ =~= old(out)@ + b64_group(b0, b1, b2, n as nat));
}

/// The bytes in base64 (RFC 4648, standard alphabet, padded).
pub fn base64_encode(data: &[u8]) -> (r: String)
    ensures
        r@ == base64(data@),
{
    let mut out: Vec<char> = Vec::new();
    let mut i: usize = 0;
    assert(data@.skip(0) =~= data@);
    while i < data.len()
        invariant
            i <= data@.len(),
            out@ + base64(data@.skip(i as int)) == base64(data@),
        decreases data.len() - i,
    {
        let ghost rest = data@.skip(i as int);
        let n: usize = if data.len() - i >= 3 { 3 } else { data.len() - i };
        let b0 = data[i];
        let b1 = if n > 1 { data[i + 1] } else { 0 };
        let b2 = if n > 2 { data[i + 2] } else { 0 };
        let ghost before = out@;
        push_group(&mut out, b0, b1, b2, n);
        proof {
            assert(rest[0] == b0);
            if n > 1 {
                assert(rest[1] == b1);
            }
            if n > 2 {
                assert(rest[2] == b2);
                assert(rest.skip(3) =~= data@.skip(i + 3));
            } else {
                assert(data@.skip(i + n) =~= Seq::<u8>::empty());
            }
            assert(before + base64(rest) == base64(data@));
        }
        i = i + n;
    }
    proof {
        assert(data@.skip(i as int) =~= Seq::<u8>::empty());
        assert(out@ + Seq::<char>::empty() =~= out@);
    }
    string_of(&out)
}

// ─── Calendar ─────────────────────────────────────────────────

/// (year, month, day) of a civil day number counted from 0000-03-01
/// (days since 1970-01-01 plus 719 468): the date whose `days_from_civil`
/// is that number (`law_civil_from_days_inverts`), computed era by era,
/// year by year and month by month (Howard Hinnant's algorithm).
pub open spec fn civil_from_days(g: int) -> (int, u32, u32) {
    let era = g / 146097;
    let doe = g % 146097;
    let yoe = (doe - doe / 1460 + doe / 36524 - doe / 146096) / 365;
    let y = era * 400 + yoe;
    let doy = doe - (365 * yoe + yoe / 4 - yoe / 100);
    let mp = (5 * doy + 2) / 153;
    let d = doy - (153 * mp + 2) / 5 + 1;
    let m = if mp < 10 { mp + 3 } else { mp - 9 };
    (if m <= 2 { y + 1 } else { y }, m as u32, d as u32)
}

/// The civil day number (days since 0000-03-01 of the proleptic Gregorian
/// calendar, years starting in March) of year `y`, month `m`, day `d`:
/// 146 097 days per 400 years, 365 per year plus a leap day every fourth
/// year but not every hundredth, and (153 * month + 2) / 5 days before a
/// month counted from March.
pub open spec fn days_from_civil(y: int, m: int, d: int) -> int {
    let y2 = if m <= 2 { y - 1 } else { y };
    let era = y2 / 400;
    let yoe = y2 - era * 400;
    let mp = if m > 2 { m - 3 } else { m + 9 };
    let doy = (153 * mp + 2) / 5 + d - 1;
    era * 146097 + yoe * 365 + yoe / 4 - yoe / 100 + doy
}

proof fn lemma_doe_bounds(doe: u64)
    by (bit_vector)
    requires
        doe < 146097,
    ensures
        (doe - doe / 1460 + doe / 36524 - doe / 146096) / 365 <= 399,
        doe - (365 * ((doe - doe / 1460 + doe / 36524 - doe / 146096) / 365)
            + ((doe - doe / 1460 + doe / 36524 - doe / 146096) / 365) / 4
            - ((doe - doe / 1460 + doe / 36524 - doe / 146096) / 365) / 100) <= 365,
        doe - (365 * ((doe - doe / 1460 + doe / 36524 - doe / 146096) / 365)
            + ((doe - doe / 1460 + doe / 36524 - doe / 146096) / 365) / 4
            - ((doe - doe / 1460 + doe / 36524 - doe / 146096) / 365) / 100) >= 0,
{
}

proof fn lemma_doy_month(doy: u64)
    by (bit_vector)
    requires
        doy <= 365,
    ensures
        (5 * doy + 2) / 153 <= 11,
        doy - (153 * ((5 * doy + 2) / 153) + 2) / 5 + 1 >= 1,
        doy - (153 * ((5 * doy + 2) / 153) + 2) / 5 + 1 <= 31,
{
}

/// `civil_from_days` is the inverse of `days_from_civil`: every day number
/// maps to a month 1..=12 and a day 1..=31 whose day number it is.
pub proof fn law_civil_from_days_inverts(g: int)
    ensures
        ({
            let (y, m, d) = civil_from_days(g);
            &&& 1 <= m <= 12
            &&& 1 <= d <= 31
            &&& days_from_civil(y, m as int, d as int) == g
        }),
{
    let era = g / 146097;
    let doe = g % 146097;
    assert(0 <= doe < 146097 && g == era * 146097 + doe) by (nonlinear_arith)
        requires
            era == g / 146097,
            doe == g % 146097,
    ;
    lemma_doe_bounds(doe as u64);
    let yoe = (doe - doe / 1460 + doe / 36524 - doe / 146096) / 365;
    let doy = doe - (365 * yoe + yoe / 4 - yoe / 100);
    assert(0 <= yoe <= 399);
    assert(0 <= doy <= 365);
    lemma_doy_month(doy as u64);
    let mp = (5 * doy + 2) / 153;
    assert(0 <= mp <= 11) by (nonlinear_arith)
        requires
            mp == (5 * doy + 2) / 153,
            0 <= doy,
            mp <= 11,
    ;
    let y = era * 400 + yoe;
    assert((y / 400) == era && y - (y / 400) * 400 == yoe) by (nonlinear_arith)
        requires
            y == era * 400 + yoe,
            0 <= yoe <= 399,
    ;
}

fn ediv(a: i64, b: i64) -> (r: i64)
    requires
        b > 0,
        -1_000_000_000 <= b <= 1_000_000_000,
    ensures
        r == a / b,
{
    assert(i64::MIN <= a / b <= i64::MAX) by (nonlinear_arith)
        requires
            b > 0,
            i64::MIN <= a <= i64::MAX,
    ;
    match a.checked_div_euclid(b) {
        Some(q) => q,
        None => 0,
    }
}

proof fn lemma_mod_bounds(a: int, b: int)
    requires
        b > 0,
    ensures
        0 <= a % b < b,
        a >= 0 ==> a / b >= 0 && a / b <= a,
{
    assert(a >= 0 ==> a / b <= a) by (nonlinear_arith)
        requires
            b > 0,
    ;
}

/// Year, month and day of a civil day number.
pub fn days_to_ymd(g: i64) -> (r: (i64, u32, u32))
    ensures
        (r.0 as int, r.1, r.2) == civil_from_days(g as int),
        1 <= r.1 <= 12,
        1 <= r.2 <= 31,
        days_from_civil(r.0 as int, r.1 as int, r.2 as int) == g,
{
    proof {
        law_civil_from_days_inverts(g as int);
    }
    let era = ediv(g, 146_097);
    proof {
        lemma_mod_bounds(g as int, 146097);
        assert(-63_200_000_000_000 <= era <= 63_200_000_000_000) by (nonlinear_arith)
            requires
                era == (g as int) / 146097,
                i64::MIN <= g <= i64::MAX,
        ;
    }
    let doe: i64 = match g.checked_rem_euclid(146_097) {
        Some(r) => r,
        None => 0,
    };
    proof {
        lemma_mod_bounds(doe as int, 1460);
        lemma_mod_bounds(doe as int, 36524);
        lemma_mod_bounds(doe as int, 146096);
    }
    let num = doe - ediv(doe, 1460) + ediv(doe, 36524) - ediv(doe, 146_096);
    let yoe = ediv(num, 365);
    proof {
        assert(-1000 <= yoe <= 1000) by (nonlinear_arith)
            requires
                yoe == (num as int) / 365,
                -200000 <= num <= 200000,
        ;
    }
    let y = era * 400 + yoe;
    let doy = doe - (365 * yoe + ediv(yoe, 4) - ediv(yoe, 100));
    proof {
        lemma_mod_bounds(yoe as int, 4);
        lemma_mod_bounds(yoe as int, 100);
        assert(-10000 <= yoe / 4 <= 10000 && -10000 <= yoe / 100 <= 10000) by (nonlinear_arith)
            requires
                -1000 <= yoe <= 1000,
        ;
    }
    let mp = ediv(5 * doy + 2, 153);
    proof {
        assert(-10_000_000 <= mp <= 10_000_000) by (nonlinear_arith)
            requires
                mp == (5 * doy + 2) / 153,
                -1_000_000 <= doy <= 1_000_000,
        ;
    }
    let d = doy - ediv(153 * mp + 2, 5) + 1;
    proof {
        assert(-1_000_000_000 <= (153 * mp + 2) / 5 <= 1_000_000_000) by (nonlinear_arith)
            requires
                -10_000_000 <= mp <= 10_000_000,
        ;
    }
    let m = if mp < 10 { mp + 3 } else { mp - 9 };
    let y = if m <= 2 { y + 1 } else { y };
    (y, m as u32, d as u32)
}

/// A number with at least two digits, zero-padded (`{:02}`).
pub open spec fn pad2(n: nat) -> Seq<char> {
    if n < 10 {
        seq!['0'] + dec(n)
    } else {
        dec(n)
    }
}

fn push_pad2(v: &mut Vec<char>, n: u64)
    ensures
        final(v)@ == old(v)@ + pad2(n as nat),
{
    if n < 10 {
        v.push('0');
    }
    push_dec(v, n);
    assert(final(v)@ =~= old(v)@ + pad2(n as nat));
}

/// Local time (CET, with summer time roughly from day 90 to day 273 of the
/// year) of `secs` since the Unix epoch, as ("HH:MM", "DD.MM.YYYY").
pub open spec fn clock_text(secs: nat) -> (Seq<char>, Seq<char>) {
    let local = secs + 3600;
    let day_of_year = (local / 86400) % 365;
    let local = if 90 <= day_of_year <= 273 { local + 3600 } else { local };
    let sec_of_day = local % 86400;
    let (y, m, d) = civil_from_days((local / 86400 + 719468) as int);
    (
        pad2(sec_of_day / 3600) + ":"@ + pad2((sec_of_day % 3600) / 60),
        pad2(d as nat) + "."@ + pad2(m as nat) + "."@ + dec(y as nat),
    )
}

proof fn lemma_civil_year_nonneg(g: int)
    requires
        g >= 0,
    ensures
        civil_from_days(g).0 >= 0,
{
    let era = g / 146097;
    let doe = g % 146097;
    lemma_mod_bounds(g, 146097);
    lemma_mod_bounds(doe, 1460);
    lemma_mod_bounds(doe, 146096);
    assert(doe - doe / 1460 >= 0);
    assert(doe / 146096 <= 1) by (nonlinear_arith)
        requires
            0 <= doe < 146097,
    ;
    assert(doe - doe / 1460 + doe / 36524 - doe / 146096 >= 0) by (nonlinear_arith)
        requires
            0 <= doe < 146097,
            doe / 146096 <= 1,
            doe / 146096 == 1 ==> doe == 146096,
            doe / 1460 <= doe / 2 + 1,
            doe / 36524 >= 0,
    {
        if doe / 146096 == 1 {
            assert(doe >= 146096);
        }
    }
}

/// The clock and date strings shown on the clock page for `secs` since the epoch.
pub fn clock_strings(secs: u64) -> (r: (String, String))
    requires
        secs + 7200 <= u64::MAX,
    ensures
        (r.0@, r.1@) == clock_text(secs as nat),
{
    let local = secs + 3600;
    let day_of_year = (local / 86400) % 365;
    let in_dst = 90 <= day_of_year && day_of_year <= 273;
    let local = if in_dst { local + 3600 } else { local };
    let sec_of_day = local % 86400;
    let hour = sec_of_day / 3600;
    let min = (sec_of_day % 3600) / 60;
    let days = (local / 86400) as i64;
    let (y, m, d) = days_to_ymd(days + 719_468);
    proof {
        lemma_civil_year_nonneg(days + 719468);
    }
    let mut t: Vec<char> = Vec::new();
    push_pad2(&mut t, hour);
    t.push(':');
    push_pad2(&mut t, min);
    let mut dt: Vec<char> = Vec::new();
    push_pad2(&mut dt, d as u64);
    dt.push('.');
    push_pad2(&mut dt, m as u64);
    dt.push('.');
    push_dec(&mut dt, y as u64);
    proof {
        reveal_strlit(":");
        reveal_strlit(".");
    }
    (string_of(&t), string_of(&dt))
}

// ─── Frames ───────────────────────────────────────────────────

/// Bytes of a preview frame (`PV` times the LCD resolution).
pub open spec fn preview_len() -> int {
    (W * PV * H * PV * 4) as int
}

/// Index of channel `c` of sample (`sy`, `sx`) of LCD pixel (`x`, `y`) in the preview.
pub open spec fn preview_index(y: int, x: int, sy: int, sx: int, c: int) -> int {
    ((y * PV + sy) * (W * PV) + (x * PV + sx)) * 4 + c
}

/// Sum of channel `c` over the first `k` of the `PV × PV` samples of a pixel,
/// row by row.
pub open spec fn box_sum(p: Seq<u8>, y: int, x: int, c: int, k: int) -> int
    decreases k,
{
    if k <= 0 {
        0
    } else {
        box_sum(p, y, x, c, k - 1) + p[preview_index(y, x, (k - 1) / 4, (k - 1) % 4, c)]
    }
}

/// The LCD frame: each channel of each pixel is the mean of its `PV × PV`
/// preview samples, rounded down.
pub open spec fn downsampled(p: Seq<u8>) -> Seq<u8> {
    Seq::new(
        (W * H * 4) as nat,
        |i: int| (box_sum(p, (i / 4) / (W as int), (i / 4) % (W as int), i % 4, 16) / 16) as u8,
    )
}

proof fn lemma_box_sum_bound(p: Seq<u8>, y: int, x: int, c: int, k: int)
    ensures
        0 <= box_sum(p, y, x, c, k) <= 255 * (if k < 0 { 0 } else { k }),
    decreases k,
{
    if k > 0 {
        lemma_box_sum_bound(p, y, x, c, k - 1);
    }
}

proof fn lemma_pixel_index(y: int, x: int, c: int)
    requires
        0 <= y < H,
        0 <= x < W,
        0 <= c < 4,
    ensures
        ({
            let i = (y * (W as int) + x) * 4 + c;
            &&& i / 4 / (W as int) == y
            &&& (i / 4) % (W as int) == x
            &&& i % 4 == c
            &&& 0 <= i < W * H * 4
        }),
{
    let i = (y * 640 + x) * 4 + c;
    assert(i / 4 == y * 640 + x);
    assert((y * 640 + x) / 640 == y);
    assert((y * 640 + x) % 640 == x);
}

/// Box-filters a preview frame down to LCD resolution (supersampled anti-aliasing).
pub fn downsample_frame(preview: &[u8]) -> (lcd: Vec<u8>)
    requires
        preview@.len() >= preview_len(),
    ensures
        lcd@ == downsampled(preview@),
{
    let iw: usize = W * PV;
    let mut lcd: Vec<u8> = Vec::new();
    let mut y: usize = 0;
    while y < H
        invariant
            y <= H,
            iw == W * PV,
            preview@.len() >= preview_len(),
            lcd@.len() == y * W * 4,
            forall|i: int| 0 <= i < lcd@.len() ==> lcd@[i] == #[trigger] downsampled(preview@)[i],
        decreases H - y,
    {
        let mut x: usize = 0;
        while x < W
            invariant
                y < H,
                x <= W,
                iw == W * PV,
                preview@.len() >= preview_len(),
                lcd@.len() == (y * W + x) * 4,
                forall|i: int| 0 <= i < lcd@.len() ==> lcd@[i] == #[trigger] downsampled(preview@)[i],
            decreases W - x,
        {
            let mut sums: [u32; 4] = [0, 0, 0, 0];
            let mut k: usize = 0;
            while k < 16
                invariant
                    y < H,
                    x < W,
                    k <= 16,
                    iw == W * PV,
                    preview@.len() >= preview_len(),
                    forall|c: int| 0 <= c < 4 ==> #[trigger] sums@[c] == box_sum(preview@, y as int, x as int, c, k as int),
                decreases 16 - k,
            {
                let sy = k / 4;
                let sx = k % 4;
                assert(sy < 4 && sx < 4);
                assert((y * PV + sy) * (W * PV) + (x * PV + sx) < 491520) by (nonlinear_arith)
                    requires
                        y < 48,
                        x < 640,
                        sy < 4,
                        sx < 4,
                ;
                let px = ((y * PV + sy) * (W * PV) + (x * PV + sx)) * 4;
                proof {
                    assert(px + 3 < preview_len());
                    assert forall|c: int| 0 <= c < 4 implies #[trigger] sums@[c] + 255 <= 255 * 16 by {
                        lemma_box_sum_bound(preview@, y as int, x as int, c, k as int);
                    }
                }
                let ghost old_sums = sums@;
                sums[0] = sums[0] + preview[px] as u32;
                sums[1] = sums[1] + preview[px + 1] as u32;
                sums[2] = sums[2] + preview[px + 2] as u32;
                sums[3] = sums[3] + preview[px + 3] as u32;
                proof {
                    assert forall|c: int| 0 <= c < 4 implies #[trigger] sums@[c] == box_sum(
                        preview@,
                        y as int,
                        x as int,
                        c,
                        k + 1,
                    ) by {
                        assert(preview_index(y as int, x as int, k as int / 4, k as int % 4, c) == px + c);
                        assert(sums@[c] == old_sums[c] + preview@[px + c]);
                    }
                }
                k = k + 1;
            }
            let mut c: usize = 0;
            while c < 4
                invariant
                    y < H,
                    x < W,
                    c <= 4,
                    preview@.len() >= preview_len(),
                    forall|j: int| 0 <= j < 4 ==> #[trigger] sums@[j] == box_sum(preview@, y as int, x as int, j, 16),
                    lcd@.len() == (y * W + x) * 4 + c,
                    forall|i: int| 0 <= i < lcd@.len() ==> lcd@[i] == #[trigger] downsampled(preview@)[i],
                decreases 4 - c,
            {
                proof {
                    lemma_pixel_index(y as int, x as int, c as int);
                    lemma_box_sum_bound(preview@, y as int, x as int, c as int, 16);
                }
                let v = sums[c] / 16;
                lcd.push(v as u8);
                c = c + 1;
            }
            x = x + 1;
        }
        y = y + 1;
    }
    assert(lcd@ =~= downsampled(preview@));
    lcd
}

/// Where byte `i` of a BGRA frame comes from in the RGBA frame.
pub open spec fn swap_index(i: int) -> int {
    if i % 4 == 0 {
        i + 2
    } else if i % 4 == 2 {
        i - 2
    } else {
        i
    }
}

/// The frame with red and blue swapped in every pixel (RGBA to BGRA).
pub open spec fn bgra(p: Seq<u8>) -> Seq<u8> {
    Seq::new(p.len(), |i: int| p[swap_index(i)])
}

/// The LCD report carrying chunk `i` of `data`: header (report 0x02, command
/// 0x05 0x40, last-chunk flag, chunk index, 0, little-endian length), the
/// chunk, zero padding to the report size.
pub open spec fn lcd_packet(data: Seq<u8>, i: int) -> Seq<u8> {
    let start = i * NEXUS_LCD_MAX_PAYLOAD;
    let end = if start + NEXUS_LCD_MAX_PAYLOAD < data.len() {
        start + NEXUS_LCD_MAX_PAYLOAD
    } else {
        data.len() as int
    };
    let chunk = data.subrange(start, end);
    seq![
        2u8,
        5u8,
        64u8,
        if chunk.len() < NEXUS_LCD_MAX_PAYLOAD { 1u8 } else { 0u8 },
        (if i < 256 { i } else { 0 }) as u8,
        0u8,
        (chunk.len() % 256) as u8,
        (chunk.len() / 256) as u8,
    ] + chunk + Seq::new((NEXUS_LCD_BUF_SIZE - 8 - chunk.len()) as nat, |k: int| 0u8)
}

/// Number of LCD reports that carry `n` bytes.
pub open spec fn lcd_packet_count(n: int) -> int {
    (n + NEXUS_LCD_MAX_PAYLOAD - 1) / (NEXUS_LCD_MAX_PAYLOAD as int)
}

/// The message of a frame of the wrong size.
pub open spec fn size_error(expected: nat, got: nat) -> Seq<char> {
    "Image must be "@ + dec(expected) + " bytes, got "@ + dec(got)
}

/// The LCD reports that carry an RGBA frame, in BGRA order as the NEXUS
/// expects; a frame of another size than the LCD's is refused.
pub fn lcd_packets(rgba: &[u8]) -> (r: Result<Vec<Vec<u8>>, HidError>)
    ensures
        rgba@.len() != W * H * 4 ==> (r matches Err(HidError::Api(m)) && m@ == size_error(
            (W * H * 4) as nat,
            rgba@.len(),
        )),
        rgba@.len() == W * H * 4 ==> (r matches Ok(ps) && ps@.len() == lcd_packet_count(
            rgba@.len() as int,
        ) && forall|i: int| 0 <= i < ps@.len() ==> #[trigger] ps@[i]@ == lcd_packet(bgra(rgba@), i)),
{
    let expected = pixel_buf_size();
    if rgba.len() != expected {
        let mut m: Vec<char> = Vec::new();
        push_str(&mut m, "Image must be ");
        push_dec(&mut m, expected as u64);
        push_str(&mut m, " bytes, got ");
        push_dec(&mut m, rgba.len() as u64);
        return Err(HidError::Api(string_of(&m)));
    }
    let mut data: Vec<u8> = Vec::new();
    let mut i: usize = 0;
    while i < rgba.len()
        invariant
            rgba@.len() == W * H * 4,
            i <= rgba@.len(),
            i % 4 == 0,
            data@.len() == i,
            forall|j: int| 0 <= j < i ==> data@[j] == #[trigger] bgra(rgba@)[j],
        decreases rgba.len() - i,
    {
        data.push(rgba[i + 2]);
        data.push(rgba[i + 1]);
        data.push(rgba[i]);
        data.push(rgba[i + 3]);
        proof {
            assert(swap_index(i as int) == i + 2);
            assert(swap_index(i + 1) == i + 1);
            assert(swap_index(i + 2) == i);
            assert(swap_index(i + 3) == i + 3);
            assert(data@[i as int] == bgra(rgba@)[i as int]);
            assert(data@[i + 1] == bgra(rgba@)[i + 1]);
            assert(data@[i + 2] == bgra(rgba@)[i + 2]);
            assert(data@[i + 3] == bgra(rgba@)[i + 3]);
        }
        i = i + 4;
    }
    assert(data@ =~= bgra(rgba@));
    let n = data.len();
    let count = (n + NEXUS_LCD_MAX_PAYLOAD - 1) / NEXUS_LCD_MAX_PAYLOAD;
    assert(count == 121);
    let mut packets: Vec<Vec<u8>> = Vec::new();
    let mut p: usize = 0;
    while p < count
        invariant
            n == data@.len(),
            n == W * H * 4,
            data@ == bgra(rgba@),
            count == lcd_packet_count(n as int),
            count == 121,
            p <= count,
            packets@.len() == p,
            forall|q: int| 0 <= q < p ==> #[trigger] packets@[q]@ == lcd_packet(data@, q),
        decreases count - p,
    {
        assert(p * 1016 <= 121920) by (nonlinear_arith)
            requires
                p < 121,
        ;
        let start = p * NEXUS_LCD_MAX_PAYLOAD;
        let end = if start + NEXUS_LCD_MAX_PAYLOAD < n { start + NEXUS_LCD_MAX_PAYLOAD } else { n };
        let len = end - start;
        let mut buf: Vec<u8> = Vec::new();
        buf.push(0x02);
        buf.push(0x05);
        buf.push(0x40);
        buf.push(if len < NEXUS_LCD_MAX_PAYLOAD { 1 } else { 0 });
        buf.push(if p < 256 { p as u8 } else { 0 });
        buf.push(0);
        buf.push((len % 256) as u8);
        buf.push((len / 256) as u8);
        let ghost hdr = buf@;
        let mut k: usize = start;
        while k < end
            invariant
                start <= k <= end <= n,
                n == data@.len(),
                hdr.len() == 8,
                buf@.subrange(0, 8) == hdr,
                buf@.len() == 8 + (k - start),
                forall|j: int| 8 <= j < buf@.len() ==> #[trigger] buf@[j] == data@[start + j - 8],
            decreases end - k,
        {
            buf.push(data[k]);
            assert(buf@.subrange(0, 8) =~= hdr);
            k = k + 1;
        }
        let ghost pre = buf@;
        while buf.len() < NEXUS_LCD_BUF_SIZE
            invariant
                pre.len() == 8 + (end - start),
                8 + (end - start) <= buf@.len() <= NEXUS_LCD_BUF_SIZE,
                buf@.subrange(0, pre.len() as int) == pre,
                forall|j: int| 8 + (end - start) <= j < buf@.len() ==> #[trigger] buf@[j] == 0u8,
            decreases NEXUS_LCD_BUF_SIZE - buf.len(),
        {
            buf.push(0);
            assert(buf@.subrange(0, pre.len() as int) =~= pre);
        }
        proof {
            let chunk = data@.subrange(start as int, end as int);
            assert(pre.subrange(8, pre.len() as int) =~= chunk);
            assert(buf@ =~= lcd_packet(data@, p as int)) by {
                assert forall|j: int| 0 <= j < buf@.len() implies buf@[j] == lcd_packet(data@, p as int)[j] by {
                    if j < 8 {
                        assert(buf@[j] == pre[j]);
                        assert(pre[j] == hdr[j]);
                    } else if j < pre.len() {
                        assert(buf@[j] == pre[j]);
                    }
                }
            }
        }
        packets.push(buf);
        p = p + 1;
    }
    Ok(packets)
}


/// Base64 text is four characters for every started group of three bytes.
pub proof fn law_base64_length(data: Seq<u8>)
    ensures
        base64(data).len() == 4 * ((data.len() + 2) / 3),
    decreases data.len(),
{
    if data.len() >= 3 {
        law_base64_length(data.skip(3));
    }
}

} // verus!
