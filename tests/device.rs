use bl602_wifi::device::{
    RxError, TxError, WifiDevice, WifiRxToken, WifiTxToken, EVENT_RX_READY, EVENT_TX_DONE, MTU,
    TX_HEADROOM,
};
use bl602_wifi::inbox::ReceivedFrame;

fn fill(v: Vec<u8>, byte: u8) -> (Vec<u8>, Result<usize, ()>) {
    let n = v.len();
    (vec![byte; n], Ok(n))
}

#[test]
fn capabilities_report_mtu_and_burst() {
    let d = WifiDevice::new();
    let c = d.capabilities();
    assert_eq!(c.max_transmission_unit, 1514);
    assert_eq!(c.max_transmission_unit, MTU);
    assert_eq!(c.max_burst_size, Some(1));
}

#[test]
fn receive_only_with_a_frame_waiting() {
    let mut d = WifiDevice::new();
    assert!(d.receive().is_none());
    assert_eq!(d.notify(EVENT_TX_DONE, 0, 0), Ok(()));
    assert!(d.receive().is_none());
    assert_eq!(d.notify(EVENT_RX_READY, 0x2000, 42), Ok(()));
    assert!(d.receive().is_some());
    assert!(d.transmit().is_some());
}

#[test]
fn notify_with_full_inbox_hands_frame_back() {
    let mut d = WifiDevice::new();
    for n in 0..4 {
        assert_eq!(d.notify(EVENT_RX_READY | EVENT_TX_DONE, 0x100 * (n + 1), 10), Ok(()));
    }
    assert_eq!(
        d.notify(EVENT_RX_READY, 0x900, 11),
        Err(ReceivedFrame { len: 11, buffer: 0x900 })
    );
}

#[test]
fn rx_consume_returns_frame_even_when_processing_fails() {
    let mut d = WifiDevice::new();
    d.notify(EVENT_RX_READY, 0x3000, 64).unwrap();
    d.notify(EVENT_RX_READY, 0x4000, 80).unwrap();
    let r = WifiRxToken::default().consume(&mut d, |f: &ReceivedFrame| -> Result<(), usize> { Err(f.len) });
    assert_eq!(r, Ok((Err(64), ReceivedFrame { len: 64, buffer: 0x3000 })));
    let r = WifiRxToken::default().consume(&mut d, |f: &ReceivedFrame| -> Result<usize, ()> { Ok(f.buffer) });
    assert_eq!(r, Ok((Ok(0x4000), ReceivedFrame { len: 80, buffer: 0x4000 })));
    assert!(!d.has_rx_pending());
}

#[test]
fn rx_consume_on_empty_inbox_is_exhausted() {
    let mut d = WifiDevice::new();
    let r = WifiRxToken::default().consume(&mut d, |_f: &ReceivedFrame| -> Result<(), ()> { Ok(()) });
    assert_eq!(r, Err(RxError::Exhausted));
}

#[test]
fn second_transmit_before_drain_is_refused() {
    let mut d = WifiDevice::new();
    assert!(!d.is_transmit_pending());
    let r = WifiTxToken::default().consume(&mut d, 64, |v| fill(v, 0xAB));
    assert_eq!(r, Ok(Ok(64)));
    assert!(d.is_transmit_pending());
    let buf = d.tx_buffer();
    assert_eq!(buf[TX_HEADROOM - 1], 0);
    assert_eq!(buf[TX_HEADROOM], 0xAB);
    assert_eq!(buf[TX_HEADROOM + 63], 0xAB);
    assert_eq!(buf[TX_HEADROOM + 64], 0);

    let r = WifiTxToken::default().consume(&mut d, 64, |v| fill(v, 0xCD));
    assert_eq!(r, Err(TxError::Busy));
    assert!(d.is_transmit_pending());

    assert!(d.trigger_transmit_if_needed());
    assert!(!d.is_transmit_pending());
    assert!(!d.trigger_transmit_if_needed());

    let r = WifiTxToken::default().consume(&mut d, 64, |v| fill(v, 0xEF));
    assert_eq!(r, Ok(Ok(64)));
    assert!(d.is_transmit_pending());
    assert_eq!(d.tx_buffer()[TX_HEADROOM], 0xEF);
}

#[test]
fn failed_fill_queues_nothing() {
    let mut d = WifiDevice::new();
    let r = WifiTxToken::default().consume(&mut d, 10, |v| (v, Err::<(), u8>(3)));
    assert_eq!(r, Ok(Err(3)));
    assert!(!d.is_transmit_pending());
    assert!(!d.trigger_transmit_if_needed());
}

#[test]
fn tx_region_is_handed_over_with_current_bytes() {
    let mut d = WifiDevice::new();
    WifiTxToken::default().consume(&mut d, 4, |v| fill(v, 7)).unwrap().unwrap();
    d.trigger_transmit_if_needed();
    let r = WifiTxToken::default().consume(&mut d, 6, |v| {
        let seen = v.clone();
        (v, Ok::<Vec<u8>, ()>(seen))
    });
    assert_eq!(r, Ok(Ok(vec![7, 7, 7, 7, 0, 0])));
}
