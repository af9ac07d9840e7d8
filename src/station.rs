use vstd::prelude::*;

verus! {

/// Width of the SSID field handed to the firmware's connect call.
pub const SSID_FIELD_LEN: usize = 33;

/// Width of the passphrase field handed to the firmware's connect call.
pub const PSK_FIELD_LEN: usize = 64;

/// Width of the SSID buffer of a scan result.
pub const SCAN_SSID_LEN: usize = 32;

/// Longest SSID taken from a scan result; the rest of the buffer stays zero.
pub const SCAN_SSID_MAX: usize = 31;

/// Firmware event code for "an IP address was acquired".
pub const CODE_ON_GOT_IP: u32 = 7;

/// `s` followed by zero bytes up to `width`.
pub open spec fn zero_padded(s: Seq<u8>, width: nat) -> Seq<u8> {
    Seq::new(width, |k: int| if k < s.len() { s[k] } else { 0u8 })
}

/// `s` copied into a zeroed field of `width` bytes.
pub fn credential_field(s: &[u8], width: usize) -> (r: Vec<u8>)
    requires
        s@.len() <= width,
    ensures
        r@ == zero_padded(s@, width as nat),
{
    let n = s.len();
    let mut r: Vec<u8> = Vec::new();
    let mut k: usize = 0;
    while k < width
        invariant
            n == s@.len(),
            n <= width,
            k <= width,
            r@.len() == k,
            forall|j: int| 0 <= j < k ==> r@[j] == zero_padded(s@, width as nat)[j],
        decreases width - k,
    {
        if k < n {
            r.push(s[k]);
        } else {
            r.push(0u8);
        }
        k = k + 1;
    }
    assert(r@ =~= zero_padded(s@, width as nat));
    r
}

/// The SSID and passphrase fields of a connect request: each string in a
/// zeroed fixed-width field.
pub fn connect_sta(ssid: &[u8], psk: &[u8]) -> (r: (Vec<u8>, Vec<u8>))
    requires
        ssid@.len() <= SSID_FIELD_LEN,
        psk@.len() <= PSK_FIELD_LEN,
    ensures
        r.0@ == zero_padded(ssid@, SSID_FIELD_LEN as nat),
        r.1@ == zero_padded(psk@, PSK_FIELD_LEN as nat),
{
    (credential_field(ssid, SSID_FIELD_LEN), credential_field(psk, PSK_FIELD_LEN))
}

/// How many bytes of a scanned SSID are kept.
pub open spec fn scan_kept(ssid_len: u8) -> nat {
    if ssid_len as nat >= SCAN_SSID_LEN { SCAN_SSID_MAX as nat } else { ssid_len as nat }
}

/// The SSID of a scan result as a zero-terminated 32-byte buffer: its
/// stated length is cut to 31 bytes.
pub fn scan_ssid(ssid: &[u8], ssid_len: u8) -> (r: Vec<u8>)
    requires
        ssid@.len() >= scan_kept(ssid_len),
    ensures
        r@ == zero_padded(ssid@.subrange(0, scan_kept(ssid_len) as int), SCAN_SSID_LEN as nat),
{
    let mut n: usize = ssid_len as usize;
    if n >= SCAN_SSID_LEN {
        n = SCAN_SSID_MAX;
    }
    let ghost kept = ssid@.subrange(0, n as int);
    let mut r: Vec<u8> = Vec::new();
    let mut k: usize = 0;
    while k < SCAN_SSID_LEN
        invariant
            n == scan_kept(ssid_len),
            n <= ssid@.len(),
            kept == ssid@.subrange(0, n as int),
            k <= SCAN_SSID_LEN,
            r@.len() == k,
            forall|j: int| 0 <= j < k ==> r@[j] == zero_padded(kept, SCAN_SSID_LEN as nat)[j],
        decreases SCAN_SSID_LEN - k,
    {
        if k < n {
            r.push(ssid[k]);
        } else {
            r.push(0u8);
        }
        k = k + 1;
    }
    assert(r@ =~= zero_padded(kept, SCAN_SSID_LEN as nat));
    r
}

/// Whether the station has acquired an address, as the firmware's event
/// callback reports it.
pub struct Connection {
    pub connected: bool,
}

impl Connection {
    pub fn new() -> (c: Connection)
        ensures
            !c.connected,
    {
        Connection { connected: false }
    }

    /// The firmware's event callback: "IP acquired" marks the station
    /// connected; other events change nothing.
    pub fn on_event(&mut self, code: u32, value: u32)
        ensures
            final(self).connected == (old(self).connected || code == CODE_ON_GOT_IP),
    {
        if code == CODE_ON_GOT_IP {
            self.connected = true;
        }
    }
}

} // verus!
