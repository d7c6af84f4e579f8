//! Event pipeline and inter-device protocol of a wireless button remote and
//! the light it drives.

use vstd::prelude::*;

pub mod aggregator;
pub mod button;
pub mod checksum;
pub mod messenger;
pub mod monitor;
pub mod pairing;
pub mod scheduler;
pub mod sequence;
pub mod varint;
pub mod wire;

pub use crate::button::ButtonNumber;
pub use crate::wire::{ButtonEventType, Message, MessageType, PROTOCOL_VERSION};

verus! {

/// Sum of two counters. The caller keeps the sum within `u64`.
pub fn add(left: u64, right: u64) -> (sum: u64)
    requires
        left + right <= u64::MAX,
    ensures
        sum == left + right,
{
    left + right
}

} // verus!
