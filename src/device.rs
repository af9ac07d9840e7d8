use vstd::prelude::*;
use crate::inbox::{FrameInbox, ReceivedFrame, is_first_taken};

verus! {

/// Size of the shared transmit buffer.
pub const TX_BUFFER_LEN: usize = 1650;

/// Bytes kept free in front of an outgoing frame for the firmware's own
/// framing headers.
pub const TX_HEADROOM: usize = 128;

/// Largest frame the device carries.
pub const MTU: usize = 1514;

/// Bit of the notify event mask that signals a completed transmit.
pub const EVENT_TX_DONE: u32 = 1;

/// Bit of the notify event mask that signals a received frame.
pub const EVENT_RX_READY: u32 = 2;

/// What the device reports of itself to the network stack.
#[derive(PartialEq, Eq, Structural, Debug, Clone, Copy)]
pub struct Capabilities {
    pub max_transmission_unit: usize,
    pub max_burst_size: Option<usize>,
}

/// Why a receive token found nothing to consume.
#[derive(PartialEq, Eq, Structural, Debug, Clone, Copy)]
pub enum RxError {
    /// The inbox was emptied between the readiness check and the take.
    Exhausted,
}

/// Why a transmit could not be handed to the firmware.
#[derive(PartialEq, Eq, Structural, Debug, Clone, Copy)]
pub enum TxError {
    /// An earlier transmit is still in flight.
    Busy,
}

/// Whether the event mask of a notify call signals a received frame.
pub open spec fn is_rx_event(event: u32) -> bool {
    event & EVENT_RX_READY != 0
}

/// The transmit buffer after `out` was written to the payload region of a
/// frame of `len` bytes: as many bytes of `out` as fit in the frame.
pub open spec fn write_payload(buf: Seq<u8>, out: Seq<u8>, len: int) -> Seq<u8> {
    let m = if out.len() < len { out.len() as int } else { len };
    Seq::new(
        buf.len(),
        |k: int| if TX_HEADROOM <= k < TX_HEADROOM + m { out[k - TX_HEADROOM] } else { buf[k] },
    )
}

/// The network device: the receive inbox, the shared transmit buffer and
/// the flag that marks a transmit handed to the firmware and not yet
/// dispatched.
pub struct WifiDevice {
    inbox: FrameInbox,
    tx_buffer: Vec<u8>,
    in_flight: bool,
}

/// One pending receive; consuming it takes a frame from the inbox.
#[derive(Debug, Default)]
pub struct WifiRxToken {}

/// One pending transmit; consuming it fills the transmit buffer and queues it.
#[derive(Debug, Default)]
pub struct WifiTxToken {}

impl WifiDevice {
    pub closed spec fn inbox(&self) -> FrameInbox {
        self.inbox
    }

    pub closed spec fn tx_bytes(&self) -> Seq<u8> {
        self.tx_buffer@
    }

    pub closed spec fn transmit_pending(&self) -> bool {
        self.in_flight
    }

    pub open spec fn wf(&self) -> bool {
        self.inbox().wf() && self.tx_bytes().len() == TX_BUFFER_LEN
    }

    /// A device with an empty inbox, a zeroed transmit buffer and nothing in
    /// flight.
    pub fn new() -> (d: WifiDevice)
        ensures
            d.wf(),
            !d.transmit_pending(),
            forall|j: int| 0 <= j < d.inbox()@.len() ==> d.inbox()@[j] is None,
            d.tx_bytes() == Seq::new(TX_BUFFER_LEN as nat, |k: int| 0u8),
    {
        let mut tx_buffer: Vec<u8> = Vec::new();
        let mut i: usize = 0;
        while i < TX_BUFFER_LEN
            invariant
                i <= TX_BUFFER_LEN,
                tx_buffer@.len() == i,
                forall|k: int| 0 <= k < i ==> tx_buffer@[k] == 0u8,
            decreases TX_BUFFER_LEN - i,
        {
            tx_buffer.push(0u8);
            i = i + 1;
        }
        let d = WifiDevice { inbox: FrameInbox::new(), tx_buffer, in_flight: false };
        assert(d.tx_bytes() =~= Seq::new(TX_BUFFER_LEN as nat, |k: int| 0u8));
        d
    }

    /// Whether a transmit has been handed to the firmware and not dispatched.
    pub fn is_transmit_pending(&self) -> (r: bool)
        ensures
            r == self.transmit_pending(),
    {
        self.in_flight
    }

    /// The shared transmit buffer; a queued frame starts at `TX_HEADROOM`.
    pub fn tx_buffer(&self) -> (b: &Vec<u8>)
        ensures
            b@ == self.tx_bytes(),
    {
        &self.tx_buffer
    }

    /// Whether the inbox holds a frame.
    pub fn has_rx_pending(&self) -> (r: bool)
        requires
            self.wf(),
        ensures
            r == exists|j: int| 0 <= j < self.inbox()@.len() && self.inbox()@[j] is Some,
    {
        self.inbox.has_pending()
    }

    /// The firmware's notify call: a receive event puts the frame at
    /// `buffer` of `len` bytes into the inbox; any other event changes
    /// nothing. With the inbox full the frame comes back as the error.
    pub fn notify(&mut self, event: u32, buffer: usize, len: usize) -> (r: Result<(), ReceivedFrame>)
        requires
            old(self).wf(),
        ensures
            final(self).wf(),
            final(self).tx_bytes() == old(self).tx_bytes(),
            final(self).transmit_pending() == old(self).transmit_pending(),
            !is_rx_event(event) ==> r is Ok && *final(self) == *old(self),
            is_rx_event(event) ==> {
                let frame = ReceivedFrame { len, buffer };
                &&& (r is Ok <==> exists|j: int|
                    0 <= j < old(self).inbox()@.len() && old(self).inbox()@[j] is None)
                &&& (r is Ok ==> final(self).inbox().frames()
                    =~= old(self).inbox().frames().insert(frame))
                &&& (r is Ok ==> exists|i: int| crate::inbox::is_first_free(old(self).inbox()@, i)
                    && final(self).inbox()@ == old(self).inbox()@.update(i, Some(frame)))
                &&& (r matches Err(f) ==> f == frame && final(self).inbox()@ == old(self).inbox()@)
            },
    {
        if event & EVENT_RX_READY != 0 {
            match self.inbox.enqueue(ReceivedFrame { len, buffer }) {
                Ok(_) => Ok(()),
                Err(f) => Err(f),
            }
        } else {
            Ok(())
        }
    }

    /// A receive and a transmit token when a frame waits in the inbox.
    pub fn receive(&mut self) -> (r: Option<(WifiRxToken, WifiTxToken)>)
        requires
            old(self).wf(),
        ensures
            *final(self) == *old(self),
            r is Some <==> exists|j: int|
                0 <= j < old(self).inbox()@.len() && old(self).inbox()@[j] is Some,
    {
        if self.inbox.has_pending() {
            Some((WifiRxToken {}, WifiTxToken {}))
        } else {
            None
        }
    }

    /// A transmit token, always: a second transmit is refused when it is
    /// queued, not here.
    pub fn transmit(&mut self) -> (r: Option<WifiTxToken>)
        ensures
            *final(self) == *old(self),
            r is Some,
    {
        Some(WifiTxToken {})
    }

    /// A fixed MTU of 1514 bytes and one frame in flight at a time.
    pub fn capabilities(&self) -> (c: Capabilities)
        ensures
            c.max_transmission_unit == MTU,
            c.max_burst_size == Some(1usize),
    {
        Capabilities { max_transmission_unit: MTU, max_burst_size: Some(1) }
    }

    /// Tests and clears the in-flight flag; `true` when a transmit was
    /// queued, and the firmware is then to be told to send it.
    pub fn trigger_transmit_if_needed(&mut self) -> (r: bool)
        ensures
            r == old(self).transmit_pending(),
            !final(self).transmit_pending(),
            final(self).inbox() == old(self).inbox(),
            final(self).tx_bytes() == old(self).tx_bytes(),
    {
        let was = self.in_flight;
        self.in_flight = false;
        was
    }
}

impl WifiRxToken {
    /// Takes the first waiting frame, hands it to `f`, and hands it back
    /// with `f`'s result, whatever that was, so that its buffer is returned
    /// to the firmware. `RxError::Exhausted` when the inbox is empty.
    pub fn consume<R, E, F: FnOnce(&ReceivedFrame) -> Result<R, E>>(
        self,
        dev: &mut WifiDevice,
        f: F,
    ) -> (r: Result<(Result<R, E>, ReceivedFrame), RxError>)
        requires
            old(dev).wf(),
            forall|fr: &ReceivedFrame| f.requires((fr,)),
        ensures
            final(dev).wf(),
            final(dev).tx_bytes() == old(dev).tx_bytes(),
            final(dev).transmit_pending() == old(dev).transmit_pending(),
            r is Ok <==> exists|j: int|
                0 <= j < old(dev).inbox()@.len() && old(dev).inbox()@[j] is Some,
            match r {
                Ok((res, fr)) => f.ensures((&fr,), res)
                    && (exists|i: int| is_first_taken(old(dev).inbox()@, i)
                        && old(dev).inbox()@[i] == Some(fr)
                        && final(dev).inbox()@ == old(dev).inbox()@.update(i, None))
                    && old(dev).inbox().frames().contains(fr)
                    && final(dev).inbox().frames() =~= old(dev).inbox().frames().remove(fr),
                Err(e) => e == RxError::Exhausted && final(dev).inbox()@ == old(dev).inbox()@,
            },
    {
        match dev.inbox.try_take_any() {
            Some(frame) => {
                let res = f(&frame);
                Ok((res, frame))
            },
            None => Err(RxError::Exhausted),
        }
    }
}

impl WifiTxToken {
    /// Hands `f` the `len` bytes of the payload region of the transmit
    /// buffer and writes back what it returns. When `f` succeeds the frame
    /// is queued for the firmware and the in-flight flag is set, unless a
    /// transmit is already in flight: that is `TxError::Busy`. `f`'s own
    /// error is passed on and nothing is queued.
    pub fn consume<R, E, F: FnOnce(Vec<u8>) -> (Vec<u8>, Result<R, E>)>(
        self,
        dev: &mut WifiDevice,
        len: usize,
        f: F,
    ) -> (r: Result<Result<R, E>, TxError>)
        requires
            old(dev).wf(),
            len <= TX_BUFFER_LEN - TX_HEADROOM,
            forall|v: Vec<u8>| f.requires((v,)),
        ensures
            final(dev).wf(),
            final(dev).inbox() == old(dev).inbox(),
            exists|region: Vec<u8>, out: Vec<u8>, res: Result<R, E>| {
                &&& region@ == old(dev).tx_bytes().subrange(TX_HEADROOM as int, TX_HEADROOM + len)
                &&& f.ensures((region,), (out, res))
                &&& final(dev).tx_bytes() == write_payload(old(dev).tx_bytes(), out@, len as int)
                &&& (r is Err <==> res is Ok && old(dev).transmit_pending())
                &&& (r matches Err(e) ==> e == TxError::Busy && final(dev).transmit_pending())
                &&& (r matches Ok(x) ==> x == res && final(dev).transmit_pending()
                    == (old(dev).transmit_pending() || res is Ok))
            },
    {
        let ghost before = dev.tx_bytes();
        let mut region: Vec<u8> = Vec::new();
        let mut k: usize = 0;
        while k < len
            invariant
                dev.wf(),
                dev.tx_bytes() == before,
                len <= TX_BUFFER_LEN - TX_HEADROOM,
                k <= len,
                region@ == before.subrange(TX_HEADROOM as int, TX_HEADROOM + k),
            decreases len - k,
        {
            region.push(dev.tx_buffer[TX_HEADROOM + k]);
            k = k + 1;
            assert(region@ =~= before.subrange(TX_HEADROOM as int, TX_HEADROOM + k));
        }
        let ghost handed = region;
        let (out, res) = f(region);
        let m: usize = if out.len() < len { out.len() } else { len };
        let mut k: usize = 0;
        while k < m
            invariant
                dev.tx_bytes().len() == TX_BUFFER_LEN,
                dev.inbox() == old(dev).inbox(),
                dev.transmit_pending() == old(dev).transmit_pending(),
                len <= TX_BUFFER_LEN - TX_HEADROOM,
                m <= len,
                m <= out@.len(),
                k <= m,
                forall|i: int| 0 <= i < TX_BUFFER_LEN ==> #[trigger] dev.tx_bytes()[i] == (
                    if TX_HEADROOM <= i < TX_HEADROOM + k { out@[i - TX_HEADROOM] } else { before[i] }),
            decreases m - k,
        {
            dev.tx_buffer.set(TX_HEADROOM + k, out[k]);
            k = k + 1;
        }
        assert(dev.tx_bytes() =~= write_payload(before, out@, len as int));
        match res {
            Ok(v) => {
                if dev.in_flight {
                    Err(TxError::Busy)
                } else {
                    dev.in_flight = true;
                    Ok(Ok(v))
                }
            },
            Err(e) => Ok(Err(e)),
        }
    }
}

} // verus!
