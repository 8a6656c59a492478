//! Corsair Commander Core XT protocol: domain newtypes and response parsing.

use vstd::prelude::*;
use vstd::string::*;
use crate::text::{dec, push_dec, push_str, string_of};

verus! {

pub const CORSAIR_VENDOR_ID: u16 = 0x1B1C;
/// Commander Core XT.
pub const CCXT_PRODUCT_ID: u16 = 3114;
/// iCUE NEXUS.
pub const NEXUS_PRODUCT_ID: u16 = 7054;

/// Commander Core XT report size.
pub const CCXT_BUF_SIZE: usize = 384;
/// Report size on the wire, with the report-ID byte.
pub const CCXT_BUF_WRITE: usize = CCXT_BUF_SIZE + 1;
pub const CCXT_HEADER_SIZE: usize = 2;
pub const CCXT_DATA_HEADER_SIZE: usize = 4;
pub const CCXT_CMD_BYTE: u8 = 0x08;
/// Data bytes that fit into one write report.
pub const CCXT_MAX_PAYLOAD: usize = CCXT_BUF_WRITE - CCXT_HEADER_SIZE - 2;
pub const CMD_INIT_LED_PORT: u8 = 0x14;
pub const CMD_SET_LED_PORTS: u8 = 0x1e;
pub const CHANNEL_FAN_CONNECTED: u8 = 0x07;

pub const NEXUS_IMG_WIDTH: u32 = 640;
pub const NEXUS_IMG_HEIGHT: u32 = 48;
/// NEXUS LCD report size.
pub const NEXUS_LCD_BUF_SIZE: usize = 1024;
pub const NEXUS_LCD_HEADER: usize = 8;
/// Pixel bytes that fit into one LCD report.
pub const NEXUS_LCD_MAX_PAYLOAD: usize = NEXUS_LCD_BUF_SIZE - NEXUS_LCD_HEADER;

/// Fan speed percentage. Invariant: `0 <= inner <= 100`.
#[derive(Debug, Clone, Copy, PartialEq, Eq, Structural)]
pub struct SpeedPct(u8);

impl SpeedPct {
    /// The value this speed holds.
    pub closed spec fn value(self) -> u8 {
        self.0
    }

    /// Construct with automatic clamping to 0-100.
    pub fn new(raw: u8) -> (s: SpeedPct)
        ensures
            s.value() == (if raw > 100 { 100u8 } else { raw }),
    {
        SpeedPct(if raw > 100 { 100 } else { raw })
    }

    /// A speed is a percentage: at most 100.
    #[verifier::type_invariant]
    spec fn in_range(self) -> bool {
        self.0 <= 100
    }

    /// The percentage; every speed, however it was made, is at most 100.
    pub fn get(self) -> (v: u8)
        ensures
            v == self.value(),
            v <= 100,
    {
        proof {
            use_type_invariant(&self);
        }
        self.0
    }
}

} // verus!

verus! {

/// Little-endian 16-bit value of two bytes.
pub open spec fn le16(lo: u8, hi: u8) -> nat {
    lo as nat + 256 * (hi as nat)
}

fn le16_exec(lo: u8, hi: u8) -> (r: u16)
    ensures
        r as nat == le16(lo, hi),
{
    lo as u16 + (hi as u16) * 256
}

/// The CCXT encodes the channel count at response byte offset 5.
pub fn parse_channel_count(resp: &[u8]) -> (n: usize)
    ensures
        n == (if resp@.len() > 5 { resp@[5] as usize } else { 0usize }),
{
    if resp.len() > 5 {
        resp[5] as usize
    } else {
        0
    }
}

/// Per-port LED detection result.
#[derive(Debug, Clone, Copy, PartialEq, Eq, Structural)]
pub struct LedPort {
    pub connected: bool,
    pub led_count: u16,
    /// Device-type command byte for `CMD_SET_LED_PORTS` (derived from LED count).
    pub command: u8,
}

/// Device-type command byte for an LED count (unknown counts map to 0, inactive).
pub open spec fn led_command(count: u16) -> u8 {
    if count == 4 {
        0x03
    } else if count == 8 {
        0x05
    } else if count == 10 {
        0x01
    } else if count == 12 {
        0x04
    } else if count == 16 {
        0x02
    } else if count == 34 {
        0x06
    } else {
        0x00
    }
}

/// Map an LED count to the CCXT device-type command byte.
pub fn led_count_to_command(count: u16) -> (c: u8)
    ensures
        c == led_command(count),
{
    match count {
        4 => 0x03,
        8 => 0x05,
        10 => 0x01,
        12 => 0x04,
        16 => 0x02,
        34 => 0x06,
        _ => 0x00,
    }
}

pub open spec fn no_port() -> LedPort {
    LedPort { connected: false, led_count: 0, command: 0 }
}

/// Port `i` as read from a `MODE_GET_LEDS` response: 4 bytes per port from
/// offset 10, `[status_lo, status_hi, count_lo, count_hi]`; status 2 = connected.
pub open spec fn led_port(resp: Seq<u8>, i: int) -> LedPort {
    let off = 10 + 4 * i;
    if off + 4 > resp.len() {
        no_port()
    } else {
        let connected = le16(resp[off], resp[off + 1]) == 2;
        let count = le16(resp[off + 2], resp[off + 3]) as u16;
        LedPort {
            connected,
            led_count: count,
            command: if connected { led_command(count) } else { 0 },
        }
    }
}

/// Sum of the LED counts of the connected ports among the first `n`.
pub open spec fn led_total(resp: Seq<u8>, n: int) -> nat
    decreases n,
{
    if n <= 0 {
        0
    } else {
        led_total(resp, n - 1) + if led_port(resp, n - 1).connected {
            led_port(resp, n - 1).led_count as nat
        } else {
            0nat
        }
    }
}

/// Parse the six LED ports and the total LED count from a `MODE_GET_LEDS` response.
pub fn parse_led_ports(resp: &[u8]) -> (r: ([LedPort; 6], usize))
    ensures
        forall|i: int| 0 <= i < 6 ==> #[trigger] r.0@[i] == led_port(resp@, i),
        r.1 == led_total(resp@, 6),
{
    let mut ports = [LedPort { connected: false, led_count: 0, command: 0 };6];
    let mut total: usize = 0;
    let mut i: usize = 0;
    while i < 6
        invariant
            i <= 6,
            forall|k: int| 0 <= k < i ==> #[trigger] ports@[k] == led_port(resp@, k),
            forall|k: int| i <= k < 6 ==> #[trigger] ports@[k] == no_port(),
            total == led_total(resp@, i as int),
            total <= 65535 * i,
        ensures
            forall|k: int| 0 <= k < 6 ==> #[trigger] ports@[k] == led_port(resp@, k),
            total == led_total(resp@, 6),
        decreases 6 - i,
    {
        let off = 10 + i * 4;
        if off + 4 > resp.len() {
            proof {
                assert forall|k: int| i <= k < 6 implies #[trigger] led_port(resp@, k)
                    == no_port() by {}
                assert forall|k: int| i <= k <= 6 implies #[trigger] led_total(resp@, k) == total by {
                    lemma_led_total_flat(resp@, i as int, k);
                }
            }
            break;
        }
        let status = le16_exec(resp[off], resp[off + 1]);
        let count = le16_exec(resp[off + 2], resp[off + 3]);
        let connected = status == 2;
        let command = if connected {
            led_count_to_command(count)
        } else {
            0
        };
        ports[i] = LedPort { connected, led_count: count, command };
        if connected {
            total = total + count as usize;
        }
        i = i + 1;
    }
    (ports, total)
}

proof fn lemma_led_total_flat(resp: Seq<u8>, i: int, k: int)
    requires
        0 <= i <= k,
        10 + 4 * i + 4 > resp.len(),
    ensures
        led_total(resp, k) == led_total(resp, i),
    decreases k - i,
{
    if k > i {
        lemma_led_total_flat(resp, i, k - 1);
    }
}

} // verus!

verus! {

/// Firmware version text: `major.minor.patch` from `resp[3]`, `resp[4]`, and
/// `resp[5..7]` (little-endian), or "unknown" for a short response.
pub open spec fn firmware_text(resp: Seq<u8>) -> Seq<char> {
    if resp.len() >= 7 {
        dec(resp[3] as nat) + "."@ + dec(resp[4] as nat) + "."@ + dec(le16(resp[5], resp[6]))
    } else {
        "unknown"@
    }
}

/// Parse `major.minor.patch` from a `CMD_GET_FIRMWARE` response.
pub fn parse_firmware(resp: &[u8]) -> (r: String)
    ensures
        r@ == firmware_text(resp@),
{
    if resp.len() >= 7 {
        let patch = le16_exec(resp[5], resp[6]);
        let mut v: Vec<char> = Vec::new();
        push_dec(&mut v, resp[3] as u64);
        push_str(&mut v, ".");
        push_dec(&mut v, resp[4] as u64);
        push_str(&mut v, ".");
        push_dec(&mut v, patch as u64);
        string_of(&v)
    } else {
        String::from_str("unknown")
    }
}

impl Default for SpeedPct {
    fn default() -> (s: SpeedPct)
        ensures
            s.value() == 50,
    {
        SpeedPct(50)
    }
}

} // verus!
