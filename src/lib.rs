//! Adapter between a vendor radio firmware and a polling network stack:
//! a millisecond clock, a bounded receive inbox, a single transmit slot,
//! the device's token protocol and a table of periodic software timers.

pub mod clock;
pub mod inbox;
pub mod device;
pub mod timers;
pub mod frame_info;
pub mod station;
