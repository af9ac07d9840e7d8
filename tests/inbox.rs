use bl602_wifi::inbox::{FrameInbox, ReceivedFrame, RX_SLOTS};

fn frame(n: usize) -> ReceivedFrame {
    ReceivedFrame { len: 60 + n, buffer: 0x1000 * (n + 1) }
}

#[test]
fn inbox_fills_to_capacity_then_refuses() {
    let mut b = FrameInbox::new();
    assert!(!b.has_pending());
    for n in 0..RX_SLOTS {
        assert_eq!(b.enqueue(frame(n)), Ok(n));
    }
    assert!(b.has_pending());
    assert_eq!(b.enqueue(frame(9)), Err(frame(9)));
    for n in 0..RX_SLOTS {
        assert_eq!(b.try_take_any(), Some(frame(n)));
    }
    assert_eq!(b.try_take_any(), None);
    assert!(!b.has_pending());
}

#[test]
fn inbox_reuses_first_free_slot() {
    let mut b = FrameInbox::new();
    assert_eq!(b.enqueue(frame(0)), Ok(0));
    assert_eq!(b.enqueue(frame(1)), Ok(1));
    assert_eq!(b.try_take_any(), Some(frame(0)));
    assert_eq!(b.enqueue(frame(2)), Ok(0));
    assert_eq!(b.try_take_any(), Some(frame(2)));
    assert_eq!(b.try_take_any(), Some(frame(1)));
    assert_eq!(b.try_take_any(), None);
}

#[test]
fn inbox_take_on_empty_is_none() {
    let mut b = FrameInbox::new();
    assert_eq!(b.try_take_any(), None);
}
