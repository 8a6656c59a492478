//! Corsair Commander Core XT and iCUE NEXUS request and status types.

use vstd::prelude::*;
use crate::hid::HidError;
use crate::protocol::{SpeedPct, CCXT_MAX_PAYLOAD, CHANNEL_FAN_CONNECTED};

verus! {

/// Status of a single fan channel.
#[derive(Debug, Clone, Copy)]
pub struct FanChannel {
    pub channel: u8,
    pub connected: bool,
    pub rpm: i16,
    pub duty: SpeedPct,
}

/// RGB colour value.
#[derive(Debug, Clone, Copy, PartialEq, Eq, Structural)]
pub struct RgbColor {
    pub r: u8,
    pub g: u8,
    pub b: u8,
}

/// Set a fixed fan speed (`Some`) or return to curve mode (`None`).
#[derive(Debug)]
pub struct SetFanSpeedRequest {
    pub channel: u8,
    pub speed: Option<SpeedPct>,
}

/// Set a static RGB colour.
#[derive(Debug)]
pub struct SetRgbRequest {
    pub r: u8,
    pub g: u8,
    pub b: u8,
}

/// Content to push to the NEXUS LCD.
#[derive(Debug)]
pub enum NexusDisplayRequest {
    Clear,
    Text { label: String, value: String },
}


// ─── Fan readings ─────────────────────────────────────────────

/// `i16::from_le_bytes([lo, hi])`.
pub open spec fn le_i16(lo: u8, hi: u8) -> int {
    let u = lo as int + 256 * (hi as int);
    if u >= 32768 { u - 65536 } else { u }
}

/// A fan after a reading: connected when its status byte (offset 6 + i of
/// the channel response, 0 when missing) says so; its RPM taken from the
/// speed data when connected and positive, kept otherwise.
pub open spec fn fan_after(f: FanChannel, i: int, channels: Seq<u8>, sensor: Seq<u8>) -> FanChannel {
    let status = if 6 + i < channels.len() { channels[6 + i] } else { 0u8 };
    let connected = status == CHANNEL_FAN_CONNECTED;
    let raw = le_i16(sensor[2 * i], sensor[2 * i + 1]);
    FanChannel { connected, rpm: if connected && raw > 0 { raw as i16 } else { f.rpm }, ..f }
}

/// The channel count a response announces (byte 5, or 0).
pub open spec fn channel_count(resp: Seq<u8>) -> nat {
    if resp.len() > 5 { resp[5] as nat } else { 0 }
}

/// How many fans a reading updates: as many as the channel count announces,
/// there are fans, and the speed data holds.
pub open spec fn fans_read(count: nat, fans: nat, sensor_len: nat) -> nat {
    let a = if count < fans { count } else { fans };
    if a < sensor_len / 2 { a } else { sensor_len / 2 }
}

fn i16_le(lo: u8, hi: u8) -> (r: i16)
    ensures
        r == le_i16(lo, hi),
{
    let u: u32 = lo as u32 + 256 * (hi as u32);
    if u >= 32768 {
        (u as i32 - 65536) as i16
    } else {
        u as i16
    }
}

/// Applies a fan reading: `channels` is the response to the fan-channel
/// query, `speeds` the response to the speed query (its data starts at
/// offset 6). A speed response shorter than 6 bytes changes nothing.
pub fn apply_fan_readings(fans: &mut Vec<FanChannel>, channels: &[u8], speeds: &[u8])
    ensures
        final(fans)@.len() == old(fans)@.len(),
        speeds@.len() < 6 ==> final(fans)@ == old(fans)@,
        speeds@.len() >= 6 ==> forall|i: int| 0 <= i < old(fans)@.len() ==> #[trigger] final(fans)@[i] == (
            if i < fans_read(channel_count(channels@), old(fans)@.len(), (speeds@.len() - 6) as nat) {
                fan_after(old(fans)@[i], i, channels@, speeds@.skip(6))
            } else {
                old(fans)@[i]
            }),
{
    let count = crate::protocol::parse_channel_count(channels);
    if speeds.len() < 6 {
        return;
    }
    let ghost sensor = speeds@.skip(6);
    let ghost orig = fans@;
    let ghost n = fans_read(count as nat, fans@.len(), sensor.len());
    let mut i: usize = 0;
    while i < count && i < fans.len() && i < (speeds.len() - 6) / 2
        invariant
            speeds@.len() >= 6,
            sensor == speeds@.skip(6),
            fans@.len() == orig.len(),
            n == fans_read(count as nat, orig.len(), sensor.len()),
            i <= n,
            forall|k: int| 0 <= k < orig.len() ==> #[trigger] fans@[k] == (
                if k < i { fan_after(orig[k], k, channels@, sensor) } else { orig[k] }),
        decreases count - i,
    {
        let status: u8 = if 6 + i < channels.len() { channels[6 + i] } else { 0 };
        let f = fans[i];
        let connected = status == CHANNEL_FAN_CONNECTED;
        let raw = i16_le(speeds[6 + 2 * i], speeds[6 + 2 * i + 1]);
        let rpm = if connected && raw > 0 { raw } else { f.rpm };
        fans.set(i, FanChannel { connected, rpm, ..f });
        i = i + 1;
    }
    assert(i == n);
}

// ─── Temperature readings ─────────────────────────────────────

/// A temperature probe as read: connected or not, and its last reading in
/// tenths of a degree Celsius (little-endian on the wire).
#[derive(Debug, Clone, Copy)]
pub struct ProbeReading {
    pub channel: u8,
    pub connected: bool,
    pub tenths: u16,
}

/// A probe after a reading: entry `i` of the sensor data is three bytes,
/// `[status, lo, hi]`; status 0 means connected, and then the reading is
/// taken; otherwise the old reading stays.
pub open spec fn probe_after(t: ProbeReading, i: int, sensor: Seq<u8>) -> ProbeReading {
    let connected = sensor[3 * i] == 0u8;
    ProbeReading {
        connected,
        tenths: if connected { (sensor[3 * i + 1] as nat + 256 * (sensor[3 * i + 2] as nat)) as u16 } else { t.tenths },
        ..t
    }
}

/// How many probes a reading updates: as many as the response announces,
/// there are probes, and the sensor data holds.
pub open spec fn probes_read(count: nat, probes: nat, sensor_len: nat) -> nat {
    let a = if count < probes { count } else { probes };
    if a < sensor_len / 3 { a } else { sensor_len / 3 }
}

/// Applies a temperature response (channel count at byte 5, sensor data from
/// offset 6). A response shorter than 6 bytes changes nothing.
pub fn apply_temp_readings(probes: &mut Vec<ProbeReading>, resp: &[u8])
    ensures
        final(probes)@.len() == old(probes)@.len(),
        resp@.len() < 6 ==> final(probes)@ == old(probes)@,
        resp@.len() >= 6 ==> forall|i: int| 0 <= i < old(probes)@.len() ==> #[trigger] final(probes)@[i] == (
            if i < probes_read(channel_count(resp@), old(probes)@.len(), (resp@.len() - 6) as nat) {
                probe_after(old(probes)@[i], i, resp@.skip(6))
            } else {
                old(probes)@[i]
            }),
{
    let count = crate::protocol::parse_channel_count(resp);
    if resp.len() < 6 {
        return;
    }
    let ghost sensor = resp@.skip(6);
    let ghost orig = probes@;
    let ghost n = probes_read(count as nat, probes@.len(), sensor.len());
    let mut i: usize = 0;
    while i < count && i < probes.len() && i < (resp.len() - 6) / 3
        invariant
            resp@.len() >= 6,
            sensor == resp@.skip(6),
            probes@.len() == orig.len(),
            n == probes_read(count as nat, orig.len(), sensor.len()),
            i <= n,
            forall|k: int| 0 <= k < orig.len() ==> #[trigger] probes@[k] == (
                if k < i { probe_after(orig[k], k, sensor) } else { orig[k] }),
        decreases count - i,
    {
        let s = 6 + 3 * i;
        let t = probes[i];
        let connected = resp[s] == 0;
        let tenths: u16 = if connected { resp[s + 1] as u16 + 256 * (resp[s + 2] as u16) } else { t.tenths };
        probes.set(i, ProbeReading { connected, tenths, ..t });
        i = i + 1;
    }
    assert(i == n);
}

/// The reading of the first connected probe, the water temperature the fan
/// curves follow.
pub open spec fn first_connected(ps: Seq<ProbeReading>) -> Option<u16>
    decreases ps.len(),
{
    if ps.len() == 0 {
        None
    } else if ps[0].connected {
        Some(ps[0].tenths)
    } else {
        first_connected(ps.skip(1))
    }
}

pub fn water_probe(probes: &[ProbeReading]) -> (r: Option<u16>)
    ensures
        r == first_connected(probes@),
{
    let mut i: usize = 0;
    assert(probes@.skip(0) =~= probes@);
    while i < probes.len()
        invariant
            i <= probes@.len(),
            first_connected(probes@) == first_connected(probes@.skip(i as int)),
        decreases probes.len() - i,
    {
        assert(probes@.skip(i as int).skip(1) =~= probes@.skip(i + 1));
        if probes[i].connected {
            return Some(probes[i].tenths);
        }
        i = i + 1;
    }
    None
}

// ─── Speed and LED port writes ────────────────────────────────

/// The speed-write data for one channel: `[count = 1, channel, mode = fixed,
/// percent, 0]`.
pub fn speed_payload(channel: u8, speed: SpeedPct) -> (r: [u8; 5])
    ensures
        r@ == seq![1u8, channel, 0u8, speed.value(), 0u8],
{
    let r = [1u8, channel, 0u8, speed.get(), 0u8];
    assert(r@ =~= seq![1u8, channel, 0u8, speed.value(), 0u8]);
    r
}

/// The device took a speed write: byte 2 of its answer is 0 (a missing byte
/// counts as an error).
pub fn speed_accepted(resp: &[u8]) -> (r: bool)
    ensures
        r == (resp@.len() > 2 && resp@[2] == 0u8),
{
    resp.len() > 2 && resp[2] == 0
}

/// The bytes one LED port contributes to the port configuration: its device
/// command when connected with a known device, 0 otherwise.
pub open spec fn port_config(p: crate::protocol::LedPort) -> Seq<u8> {
    if p.connected && p.command != 0 { seq![0x01u8, p.command] } else { seq![0x00u8] }
}

pub open spec fn ports_config(ps: Seq<crate::protocol::LedPort>) -> Seq<u8>
    decreases ps.len(),
{
    if ps.len() == 0 {
        seq![]
    } else {
        ports_config(ps.drop_last()) + port_config(ps.last())
    }
}

/// The LED port configuration written after detection: `0x0d 0x00 0x07 0x00`
/// and then each port's bytes.
pub fn led_port_config(ports: &[crate::protocol::LedPort; 6]) -> (r: Vec<u8>)
    ensures
        r@ == seq![0x0du8, 0x00, 0x07, 0x00] + ports_config(ports@),
{
    let mut buf: Vec<u8> = vec![0x0d, 0x00, 0x07, 0x00];
    let mut i: usize = 0;
    assert(ports@.take(0) =~= Seq::<crate::protocol::LedPort>::empty());
    assert(buf@ =~= seq![0x0du8, 0x00, 0x07, 0x00] + ports_config(ports@.take(0)));
    while i < 6
        invariant
            i <= 6,
            ports@.len() == 6,
            buf@ == seq![0x0du8, 0x00, 0x07, 0x00] + ports_config(ports@.take(i as int)),
        decreases 6 - i,
    {
        let p = ports[i];
        let ghost before = buf@;
        if p.connected && p.command != 0 {
            buf.push(0x01);
            buf.push(p.command);
        } else {
            buf.push(0x00);
        }
        assert(ports@.take(i + 1).drop_last() =~= ports@.take(i as int));
        assert(buf@ =~= before + port_config(p));
        i = i + 1;
    }
    assert(ports@.take(6) =~= ports@);
    buf
}

// ─── Colour writes ────────────────────────────────────────────

/// `[r, g, b]` repeated for every LED.
pub open spec fn rgb_run(n: nat, c: RgbColor) -> Seq<u8> {
    Seq::new(3 * n, |k: int| if k % 3 == 0 { c.r } else if k % 3 == 1 { c.g } else { c.b })
}

/// The colour buffer: payload length (little-endian), two zero bytes, the
/// set-colour data type `[0x12, 0x00]`, then the colour for every LED.
pub open spec fn color_buffer(n: nat, c: RgbColor) -> Seq<u8> {
    let len = 2 + 3 * n;
    seq![(len % 256) as u8, (len / 256) as u8, 0u8, 0u8, 0x12u8, 0x00u8] + rgb_run(n, c)
}

/// A buffer cut into pieces of `size` bytes (the last may be shorter).
pub open spec fn chunked(s: Seq<u8>, size: nat) -> Seq<Seq<u8>>
    decreases s.len(),
{
    if s.len() == 0 || size == 0 {
        seq![]
    } else if s.len() <= size {
        seq![s]
    } else {
        seq![s.take(size as int)] + chunked(s.skip(size as int), size)
    }
}

pub open spec fn byte_views(v: Seq<Vec<u8>>) -> Seq<Seq<u8>>
    decreases v.len(),
{
    if v.len() == 0 {
        seq![]
    } else {
        byte_views(v.drop_last()).push(v.last()@)
    }
}

fn slice_bytes(s: &Vec<u8>, a: usize, b: usize) -> (r: Vec<u8>)
    requires
        a <= b <= s@.len(),
    ensures
        r@ == s@.subrange(a as int, b as int),
{
    let mut r: Vec<u8> = Vec::new();
    let mut k: usize = a;
    while k < b
        invariant
            a <= k <= b <= s@.len(),
            r@ == s@.subrange(a as int, k as int),
        decreases b - k,
    {
        r.push(s[k]);
        assert(r@ =~= s@.subrange(a as int, k + 1));
        k = k + 1;
    }
    r
}

proof fn lemma_chunked_step(s: Seq<u8>, start: int, size: nat)
    requires
        0 <= start < s.len(),
        size > 0,
    ensures
        chunked(s.skip(start), size) == (if s.len() - start <= size {
            seq![s.skip(start)]
        } else {
            seq![s.subrange(start, start + size)] + chunked(s.skip(start + size), size)
        }),
{
    if s.len() - start > size {
        assert(s.skip(start).take(size as int) =~= s.subrange(start, start + size));
        assert(s.skip(start).skip(size as int) =~= s.skip(start + size));
    }
}

/// The packets of a colour write: the colour buffer cut at the packet
/// payload limit. The first is sent as a colour write, the others as its
/// continuation. With no LEDs nothing is sent; a buffer whose length does
/// not fit in 16 bits is refused.
pub fn color_packets(led_count: usize, color: RgbColor) -> (r: Result<Vec<Vec<u8>>, HidError>)
    requires
        led_count <= usize::MAX / 3 - 2,
    ensures
        match r {
            Ok(ps) => if led_count == 0 {
                ps@.len() == 0
            } else {
                2 + 3 * led_count <= 65535
                    && byte_views(ps@) == chunked(color_buffer(led_count as nat, color), CCXT_MAX_PAYLOAD as nat)
            },
            Err(e) => led_count > 0 && 2 + 3 * led_count > 65535
                && (e matches HidError::WriteFailed(m) && m@ == "Colour data too large"@),
        },
{
    if led_count == 0 {
        return Ok(Vec::new());
    }
    let payload_len = 2 + 3 * led_count;
    if payload_len > 65535 {
        return Err(HidError::WriteFailed("Colour data too large".to_string()));
    }
    let mut buf: Vec<u8> = Vec::new();
    buf.push((payload_len % 256) as u8);
    buf.push((payload_len / 256) as u8);
    buf.push(0u8);
    buf.push(0u8);
    buf.push(0x12u8);
    buf.push(0x00u8);
    let ghost head = buf@;
    let mut k: usize = 0;
    while k < led_count
        invariant
            k <= led_count,
            led_count <= usize::MAX / 3 - 2,
            head.len() == 6,
            buf@ == head + rgb_run(k as nat, color),
        decreases led_count - k,
    {
        buf.push(color.r);
        buf.push(color.g);
        buf.push(color.b);
        proof {
            assert forall|j: int| 0 <= j < 3 * (k + 1) implies #[trigger] rgb_run((k + 1) as nat, color)[j]
                == (rgb_run(k as nat, color) + seq![color.r, color.g, color.b])[j] by {
                if j >= 3 * k {
                    assert(j - 3 * k < 3);
                    assert((j % 3) == (j - 3 * k) % 3) by (nonlinear_arith)
                        requires 0 <= 3 * k <= j;
                }
            }
            assert(rgb_run((k + 1) as nat, color) =~= rgb_run(k as nat, color) + seq![color.r, color.g, color.b]);
        }
        k = k + 1;
    }
    assert(buf@ =~= color_buffer(led_count as nat, color));
    let mut ps: Vec<Vec<u8>> = Vec::new();
    let mut start: usize = 0;
    let size = CCXT_MAX_PAYLOAD;
    assert(buf@.skip(0) =~= buf@);
    while start < buf.len()
        invariant
            start <= buf@.len(),
            size == CCXT_MAX_PAYLOAD,
            size > 0,
            byte_views(ps@) + chunked(buf@.skip(start as int), size as nat) == chunked(buf@, size as nat),
        decreases buf.len() - start,
    {
        let ghost before = ps@;
        proof {
            lemma_chunked_step(buf@, start as int, size as nat);
        }
        if buf.len() - start <= size {
            let piece = slice_bytes(&buf, start, buf.len());
            assert(piece@ =~= buf@.skip(start as int));
            ps.push(piece);
            assert(ps@.drop_last() =~= before);
            assert(byte_views(ps@) =~= byte_views(before).push(piece@));
            assert(buf@.skip(buf@.len() as int) =~= Seq::<u8>::empty());
            assert(byte_views(ps@) + chunked(buf@.skip(buf@.len() as int), size as nat) =~= byte_views(before) + chunked(buf@.skip(start as int), size as nat));
            start = buf.len();
        } else {
            let piece = slice_bytes(&buf, start, start + size);
            ps.push(piece);
            assert(ps@.drop_last() =~= before);
            assert(byte_views(ps@) =~= byte_views(before).push(piece@));
            assert(byte_views(ps@) + chunked(buf@.skip(start + size), size as nat) =~= byte_views(before) + chunked(buf@.skip(start as int), size as nat));
            start = start + size;
        }
    }
    assert(buf@.skip(buf@.len() as int) =~= Seq::<u8>::empty());
    assert(byte_views(ps@) + chunked(buf@.skip(start as int), size as nat) =~= byte_views(ps@));
    Ok(ps)
}


/// Packets joined back together, in order.
pub open spec fn joined(ps: Seq<Seq<u8>>) -> Seq<u8>
    decreases ps.len(),
{
    if ps.len() == 0 {
        seq![]
    } else {
        ps[0] + joined(ps.drop_first())
    }
}

/// Cutting a buffer into packets loses and reorders nothing: the packets,
/// joined, give back the buffer, and each holds between one byte and the
/// packet size.
pub proof fn law_chunks_rejoin(s: Seq<u8>, size: nat)
    requires
        size > 0,
    ensures
        joined(chunked(s, size)) == s,
        forall|i: int| 0 <= i < chunked(s, size).len() ==> 0 < #[trigger] chunked(s, size)[i].len() <= size,
    decreases s.len(),
{
    if s.len() == 0 {
    } else if s.len() <= size {
        assert(chunked(s, size) == seq![s]);
        assert(seq![s].drop_first() =~= Seq::<Seq<u8>>::empty());
        reveal_with_fuel(joined, 2);
        assert(joined(seq![s]) =~= s);
    } else {
        let rest = s.skip(size as int);
        law_chunks_rejoin(rest, size);
        let c = chunked(s, size);
        assert(c == seq![s.take(size as int)] + chunked(rest, size));
        assert(c.drop_first() =~= chunked(rest, size));
        assert(s.take(size as int) + rest =~= s);
        assert forall|i: int| 0 <= i < c.len() implies 0 < #[trigger] c[i].len() <= size by {
            if i > 0 {
                assert(c[i] == chunked(rest, size)[i - 1]);
            }
        }
    }
}

} // verus!
