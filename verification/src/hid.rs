//! Corsair HID transport types: the error type and the device slot.

use vstd::prelude::*;
use vstd::string::*;
use crate::protocol::{CCXT_BUF_WRITE, CCXT_CMD_BYTE, CCXT_DATA_HEADER_SIZE, CCXT_HEADER_SIZE};
use crate::text::{chars_of, dec, push_all, push_dec, push_str, string_of};

verus! {

/// Errors of the HID transport.
#[derive(Debug)]
pub enum HidError {
    /// `hidapi` returned an error.
    Api(String),
    /// Requested device not found during enumeration.
    NotFound { product_id: u16 },
    /// Read returned fewer bytes than expected.
    ShortRead { expected: usize, got: usize },
    /// Write failed or wrote fewer bytes than expected.
    WriteFailed(String),
    /// Device is not connected — call `connect()` first.
    Disconnected,
    /// Internal mutex was poisoned (another thread panicked while holding it).
    LockPoisoned,
}

pub open spec fn hex_digit(d: nat) -> char {
    if d < 10 {
        crate::text::digit_char(d)
    } else if d == 10 {
        'a'
    } else if d == 11 {
        'b'
    } else if d == 12 {
        'c'
    } else if d == 13 {
        'd'
    } else if d == 14 {
        'e'
    } else {
        'f'
    }
}

/// `format!("{:04x}", v)` for a 16-bit value.
pub open spec fn hex4(v: u16) -> Seq<char> {
    seq![
        hex_digit((v as nat / 4096) % 16),
        hex_digit((v as nat / 256) % 16),
        hex_digit((v as nat / 16) % 16),
        hex_digit(v as nat % 16),
    ]
}

fn hex_digit_exec(d: u16) -> (c: char)
    requires
        d < 16,
    ensures
        c == hex_digit(d as nat),
{
    if d == 0 {
        '0'
    } else if d == 1 {
        '1'
    } else if d == 2 {
        '2'
    } else if d == 3 {
        '3'
    } else if d == 4 {
        '4'
    } else if d == 5 {
        '5'
    } else if d == 6 {
        '6'
    } else if d == 7 {
        '7'
    } else if d == 8 {
        '8'
    } else if d == 9 {
        '9'
    } else if d == 10 {
        'a'
    } else if d == 11 {
        'b'
    } else if d == 12 {
        'c'
    } else if d == 13 {
        'd'
    } else if d == 14 {
        'e'
    } else {
        'f'
    }
}

/// The message of an error, as the error's `Display` writes it.
pub open spec fn hid_error_text(e: HidError) -> Seq<char> {
    match e {
        HidError::Api(msg) => "HID API: "@ + msg@,
        HidError::NotFound { product_id } => "Device 0x"@ + hex4(product_id) + " not found"@,
        HidError::ShortRead { expected, got } => "Short read: expected "@ + dec(expected as nat)
            + ", got "@ + dec(got as nat),
        HidError::WriteFailed(msg) => "Write failed: "@ + msg@,
        HidError::Disconnected => "Device not connected"@,
        HidError::LockPoisoned => "Internal lock poisoned"@,
    }
}

impl HidError {
    /// The message of this error.
    pub fn message(&self) -> (r: String)
        ensures
            r@ == hid_error_text(*self),
    {
        match self {
            HidError::Api(msg) => {
                let mut v = chars_of("HID API: ");
                push_str(&mut v, msg.as_str());
                string_of(&v)
            },
            HidError::NotFound { product_id } => {
                let p = *product_id;
                let mut v = chars_of("Device 0x");
                v.push(hex_digit_exec((p / 4096) % 16));
                v.push(hex_digit_exec((p / 256) % 16));
                v.push(hex_digit_exec((p / 16) % 16));
                v.push(hex_digit_exec(p % 16));
                push_str(&mut v, " not found");
                assert(v@ =~= "Device 0x"@ + hex4(p) + " not found"@);
                string_of(&v)
            },
            HidError::ShortRead { expected, got } => {
                let mut v = chars_of("Short read: expected ");
                push_dec(&mut v, *expected as u64);
                push_str(&mut v, ", got ");
                push_dec(&mut v, *got as u64);
                string_of(&v)
            },
            HidError::WriteFailed(msg) => {
                let mut v = chars_of("Write failed: ");
                push_str(&mut v, msg.as_str());
                string_of(&v)
            },
            HidError::Disconnected => String::from_str("Device not connected"),
            HidError::LockPoisoned => String::from_str("Internal lock poisoned"),
        }
    }
}

/// A change of a device slot: a device is connected, or the slot is emptied.
pub enum SlotOp<T> {
    Connect(T),
    Disconnect,
}

/// The slot's device after the changes `ops`, starting from `start`.
pub open spec fn device_after<T>(start: Option<T>, ops: Seq<SlotOp<T>>) -> Option<T>
    decreases ops.len(),
{
    if ops.len() == 0 {
        start
    } else {
        match ops.last() {
            SlotOp::Connect(v) => Some(v),
            SlotOp::Disconnect => None,
        }
    }
}

/// From an empty slot, a device is connected after a run of changes exactly
/// when the run is not empty and its last change connects one (that device);
/// and changing in two runs is the same as changing in one.
pub proof fn law_slot_after_changes<T>(ops: Seq<SlotOp<T>>, more: Seq<SlotOp<T>>)
    ensures
        device_after(None, ops) is Some <==> (ops.len() > 0 && ops.last() is Connect),
        (ops.len() > 0 && ops.last() is Connect) ==> device_after(None, ops) == Some(ops.last()->0),
        device_after(device_after(None, ops), more) == device_after(None, ops + more),
{
    if more.len() > 0 {
        assert((ops + more).last() == more.last());
    } else {
        assert(ops + more =~= ops);
    }
}

/// A slot for a device that is either connected (holds it) or disconnected.
/// Locking for use across threads is the owner's concern.
pub struct DeviceSlot<T> {
    slot: Option<T>,
}

impl<T> DeviceSlot<T> {
    /// The connected device, if any.
    pub closed spec fn device(&self) -> Option<T> {
        self.slot
    }

    /// An empty (disconnected) slot.
    pub fn empty() -> (r: DeviceSlot<T>)
        ensures
            r.device() is None,
    {
        DeviceSlot { slot: None }
    }

    /// Run `f` with a shared reference to the connected device; `Disconnected`
    /// when there is none.
    pub fn with<R, F: FnOnce(&T) -> Result<R, HidError>>(&self, f: F) -> (r: Result<R, HidError>)
        requires
            self.device() matches Some(d) ==> f.requires((&d,)),
        ensures
            match self.device() {
                None => r matches Err(HidError::Disconnected),
                Some(d) => f.ensures((&d,), r),
            },
    {
        match &self.slot {
            None => Err(HidError::Disconnected),
            Some(d) => f(d),
        }
    }

    /// Run `f` with an exclusive reference to the connected device;
    /// `Disconnected` when there is none.
    pub fn with_mut<R, F: FnOnce(&mut T) -> Result<R, HidError>>(&mut self, f: F) -> (r: Result<R, HidError>)
        requires
            forall|d: &mut T| #[trigger] f.requires((d,)),
        ensures
            old(self).device() is None ==> (r matches Err(HidError::Disconnected) && final(self).device() is None),
            old(self).device() is Some ==> final(self).device() is Some,
            old(self).device() is Some ==> exists|d: &mut T| #[trigger] f.ensures((d,), r)
                && *d == old(self).device()->0 && final(self).device() == Some(*final(d)),
    {
        match &mut self.slot {
            None => Err(HidError::Disconnected),
            Some(d) => f(d),
        }
    }

    /// Store a new device, returning the previous one (if any).
    pub fn connect(&mut self, value: T) -> (r: Result<Option<T>, HidError>)
        ensures
            r == Ok::<Option<T>, HidError>(old(self).device()),
            final(self).device() == Some(value),
            final(self).device() == device_after(old(self).device(), seq![SlotOp::Connect(value)]),
    {
        let prev = self.slot.take();
        self.slot = Some(value);
        Ok(prev)
    }

    /// Take the device out, leaving the slot disconnected.
    pub fn disconnect(&mut self) -> (r: Result<Option<T>, HidError>)
        ensures
            r == Ok::<Option<T>, HidError>(old(self).device()),
            final(self).device() is None,
            final(self).device() == device_after(old(self).device(), seq![SlotOp::Disconnect]),
    {
        Ok(self.slot.take())
    }

    /// Whether a device is connected.
    pub fn is_connected(&self) -> (r: bool)
        ensures
            r == self.device() is Some,
    {
        self.slot.is_some()
    }
}

/// Discovered Corsair HID device metadata.
#[derive(Debug, Clone)]
pub struct CorsairDeviceInfo {
    pub product_id: u16,
    pub serial: String,
    pub product: String,
    pub path: String,
}


// ─── Framing ──────────────────────────────────────────────────

/// A write buffer: report id 0, the command marker, the command, the data,
/// then zeros up to the full buffer size.
pub open spec fn framed(command: Seq<u8>, data: Seq<u8>) -> Seq<u8> {
    seq![0u8, CCXT_CMD_BYTE] + command + data
        + Seq::new((CCXT_BUF_WRITE - 2 - command.len() - data.len()) as nat, |i: int| 0u8)
}

pub open spec fn opt_bytes(d: Option<&[u8]>) -> Seq<u8> {
    match d {
        Some(x) => x@,
        None => Seq::empty(),
    }
}

fn push_bytes(v: &mut Vec<u8>, b: &[u8])
    ensures
        final(v)@ == old(v)@ + b@,
{
    let mut i: usize = 0;
    while i < b.len()
        invariant
            i <= b@.len(),
            v@ == old(v)@ + b@.take(i as int),
        decreases b.len() - i,
    {
        v.push(b[i]);
        assert(b@.take(i + 1) =~= b@.take(i as int).push(b@[i as int]));
        i = i + 1;
    }
    assert(b@.take(b@.len() as int) =~= b@);
}

/// The buffer written for a command with optional data. A command that does
/// not fit is refused with "Command too large", data that does not fit with
/// "Payload too large".
pub fn command_frame(command: &[u8], data: Option<&[u8]>) -> (r: Result<Vec<u8>, HidError>)
    ensures
        match r {
            Ok(buf) => CCXT_HEADER_SIZE + command@.len() <= CCXT_BUF_WRITE
                && CCXT_HEADER_SIZE + command@.len() + opt_bytes(data).len() <= CCXT_BUF_WRITE
                && buf@ == framed(command@, opt_bytes(data)),
            Err(e) => if CCXT_HEADER_SIZE + command@.len() > CCXT_BUF_WRITE {
                e matches HidError::WriteFailed(m) && m@ == "Command too large"@
            } else {
                CCXT_HEADER_SIZE + command@.len() + opt_bytes(data).len() > CCXT_BUF_WRITE
                    && (e matches HidError::WriteFailed(m) && m@ == "Payload too large"@)
            },
        },
{
    if command.len() > CCXT_BUF_WRITE - CCXT_HEADER_SIZE {
        return Err(HidError::WriteFailed("Command too large".to_string()));
    }
    let cmd_end = CCXT_HEADER_SIZE + command.len();
    let d: &[u8] = match data {
        Some(x) => x,
        None => &[],
    };
    assert(d@ == opt_bytes(data));
    if d.len() > CCXT_BUF_WRITE - cmd_end {
        return Err(HidError::WriteFailed("Payload too large".to_string()));
    }
    let mut buf: Vec<u8> = Vec::new();
    buf.push(0u8);
    buf.push(CCXT_CMD_BYTE);
    push_bytes(&mut buf, command);
    push_bytes(&mut buf, d);
    let ghost head = buf@;
    assert(head =~= seq![0u8, CCXT_CMD_BYTE] + command@ + d@);
    while buf.len() < CCXT_BUF_WRITE
        invariant
            head.len() <= buf@.len() <= CCXT_BUF_WRITE,
            buf@.take(head.len() as int) == head,
            forall|k: int| head.len() <= k < buf@.len() ==> buf@[k] == 0u8,
        decreases CCXT_BUF_WRITE - buf.len(),
    {
        buf.push(0u8);
    }
    proof {
        let z = Seq::new((CCXT_BUF_WRITE - 2 - command@.len() - d@.len()) as nat, |i: int| 0u8);
        assert(head.len() + z.len() == buf@.len());
        assert forall|k: int| 0 <= k < buf@.len() implies buf@[k] == (head + z)[k] by {
            if k < head.len() {
                assert(buf@.take(head.len() as int)[k] == buf@[k]);
            }
        }
        assert(buf@ =~= head + z);
    }
    Ok(buf)
}

/// The data written to an endpoint: the payload length (buffer type plus
/// data) as two little-endian bytes, two zero bytes, the buffer type, the
/// data. A payload longer than 65535 bytes is refused.
pub open spec fn endpoint_payload_spec(buffer_type: Seq<u8>, data: Seq<u8>) -> Seq<u8> {
    let n = buffer_type.len() + data.len();
    seq![(n % 256) as u8, (n / 256) as u8, 0u8, 0u8] + buffer_type + data
}

pub fn endpoint_payload(buffer_type: &[u8], data: &[u8]) -> (r: Result<Vec<u8>, HidError>)
    ensures
        match r {
            Ok(buf) => buffer_type@.len() + data@.len() <= 65535
                && buf@ == endpoint_payload_spec(buffer_type@, data@),
            Err(e) => buffer_type@.len() + data@.len() > 65535
                && (e matches HidError::WriteFailed(m) && m@ == "Write payload too large"@),
        },
{
    if data.len() > 65535 || buffer_type.len() > 65535 - data.len() {
        return Err(HidError::WriteFailed("Write payload too large".to_string()));
    }
    let n: usize = data.len() + buffer_type.len();
    let mut buf: Vec<u8> = Vec::new();
    buf.push((n % 256) as u8);
    buf.push((n / 256) as u8);
    buf.push(0u8);
    buf.push(0u8);
    assert(CCXT_DATA_HEADER_SIZE == 4);
    push_bytes(&mut buf, buffer_type);
    push_bytes(&mut buf, data);
    assert(buf@ =~= endpoint_payload_spec(buffer_type@, data@));
    Ok(buf)
}

} // verus!
