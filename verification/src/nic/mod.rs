//! Network interface cards: packets as the driver hands them over, the
//! reader that the protocol layers use to take them apart, and the table of
//! registered interfaces.
//!
//! A packet lies in one or more regions of driver-owned memory. Everything
//! here speaks of a packet as the bytes of its regions laid end to end.

use vstd::prelude::*;

pub mod ethernet;
pub mod packet;
pub mod reader;
pub mod registry;
pub mod sparse;

pub use ethernet::{
    arp_complete, arp_ip_offset, arp_matches, dispatch_rx, read_arp, ArpInfo, RxFrame,
    ETHERNET_HEADER_LEN, ETHER_TYPE_ARP, ETHER_TYPE_IPV4,
};
pub use packet::{prefix_len, PacketBuf, RxPacket};
pub use reader::{be16, be32, byte_or_zero, read_array, PacketReader};
pub use registry::{
    first_empty, insert_opt, probe_packet, probe_template, register, InterfaceList, Registration,
    PROBE_LEN,
};
pub use sparse::{SparsePacket, SparsePacketIter};

verus! {

/// Why a network interface could not do what was asked.
#[derive(Clone, Copy, Debug, PartialEq, Eq, Structural)]
pub enum Error {
    /// No packets waiting.
    NoPacket,
    /// An oversized packet was received.
    MtuExceeded,
    /// Not enough space available for the packet.
    BufferUnderrun,
}

} // verus!
