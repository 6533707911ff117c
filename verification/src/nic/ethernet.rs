//! What is done with a packet that has arrived: the Ethernet header says
//! where it goes.

use crate::nic::packet::RxPacket;
use crate::nic::reader::{be16, byte_or_zero, read_array, PacketReader};
use vstd::prelude::*;

verus! {

/// Length of an Ethernet II header: two hardware addresses and the type.
pub const ETHERNET_HEADER_LEN: usize = 14;

/// The Ethernet type of IPv4.
pub const ETHER_TYPE_IPV4: u16 = 0x0800;

/// The Ethernet type of ARP.
pub const ETHER_TYPE_ARP: u16 = 0x0806;

/// What an ARP packet says.
#[derive(Clone, Copy, Debug, PartialEq, Eq)]
pub struct ArpInfo {
    /// Kind of hardware address.
    pub hw_ty: u16,
    /// Kind of protocol address.
    pub sw_ty: u16,
    /// Length of a hardware address.
    pub hwsize: u8,
    /// Length of a protocol address.
    pub swsize: u8,
    /// Request or reply.
    pub code: u16,
    /// The sender's hardware address, where hardware addresses have six bytes.
    pub mac: Option<[u8; 6]>,
    /// The protocol address that follows, where protocol addresses have four
    /// bytes.
    pub ip: Option<[u8; 4]>,
}

/// What is to be done with a packet that has arrived.
pub enum RxFrame<'a, P: RxPacket> {
    /// The packet is shorter than an Ethernet header and is dropped.
    Short {
        /// Length of the packet.
        len: usize,
    },
    /// An IPv4 packet, to be handed to the IPv4 layer.
    Ipv4 {
        /// The first hardware address of the header.
        src_mac: [u8; 6],
        /// A reader that stands behind the Ethernet header.
        reader: PacketReader<'a, P>,
    },
    /// An ARP packet with what it says, or nothing if it ends too early.
    Arp(Option<ArpInfo>),
    /// A packet of a type that nothing here handles.
    Unknown {
        /// The Ethernet type of the packet.
        ether_ty: u16,
    },
}

/// Whether an ARP packet of `total` bytes, Ethernet header included, is long
/// enough to be read in full: its fixed part must reach past byte 20, and
/// each address that is read must begin inside the packet.
pub open spec fn arp_complete(total: int, hwsize: u8, swsize: u8) -> bool {
    &&& total > 20
    &&& (hwsize == 6 || swsize == 4) ==> total > 22
    &&& (hwsize == 6 && swsize == 4) ==> total > 28
}

/// Where the protocol address of an ARP packet begins.
pub open spec fn arp_ip_offset(hwsize: u8) -> int {
    if hwsize == 6 {
        28
    } else {
        22
    }
}

/// Whether `info` is what the ARP packet `bytes` says. Bytes past the end of
/// the packet count as zero.
pub open spec fn arp_matches(bytes: Seq<u8>, info: ArpInfo) -> bool {
    &&& info.hw_ty == be16(byte_or_zero(bytes, 14), byte_or_zero(bytes, 15))
    &&& info.sw_ty == be16(byte_or_zero(bytes, 16), byte_or_zero(bytes, 17))
    &&& info.hwsize == byte_or_zero(bytes, 18)
    &&& info.swsize == byte_or_zero(bytes, 19)
    &&& info.code == be16(byte_or_zero(bytes, 20), byte_or_zero(bytes, 21))
    &&& info.mac is Some <==> info.hwsize == 6
    &&& info.mac matches Some(mac) ==> mac@ == Seq::new(
        6,
        |i: int| byte_or_zero(bytes, 22 + i),
    )
    &&& info.ip is Some <==> info.swsize == 4
    &&& info.ip matches Some(ip) ==> ip@ == Seq::new(
        4,
        |i: int| byte_or_zero(bytes, arp_ip_offset(info.hwsize) + i),
    )
}

/// Reads what an ARP packet says. `r` stands behind the Ethernet header.
pub fn read_arp<'a, P: RxPacket>(r: &mut PacketReader<'a, P>) -> (info: Option<ArpInfo>)
    requires
        old(r).wf(),
        old(r).pos() == ETHERNET_HEADER_LEN,
    ensures
        final(r).wf(),
        final(r).packet() == old(r).packet(),
        info is Some <==> arp_complete(
            old(r).bytes().len() as int,
            byte_or_zero(old(r).bytes(), 18),
            byte_or_zero(old(r).bytes(), 19),
        ),
        info matches Some(found) ==> arp_matches(old(r).bytes(), found),
{
    let hw_ty = match r.read_u16n() {
        Ok(v) => v,
        Err(_) => return None,
    };
    let sw_ty = match r.read_u16n() {
        Ok(v) => v,
        Err(_) => return None,
    };
    let hwsize = match r.read_u8() {
        Ok(v) => v,
        Err(_) => return None,
    };
    let swsize = match r.read_u8() {
        Ok(v) => v,
        Err(_) => return None,
    };
    let code = match r.read_u16n() {
        Ok(v) => v,
        Err(_) => return None,
    };
    let mut mac: Option<[u8; 6]> = None;
    if hwsize == 6 {
        match read_array::<P, 6>(r) {
            Ok(b) => {
                mac = Some(b);
            },
            Err(_) => return None,
        }
    }
    let mut ip: Option<[u8; 4]> = None;
    if swsize == 4 {
        match read_array::<P, 4>(r) {
            Ok(b) => {
                ip = Some(b);
            },
            Err(_) => return None,
        }
    }
    Some(ArpInfo { hw_ty, sw_ty, hwsize, swsize, code, mac, ip })
}

/// Decides what is to be done with the packet `pkt` that has arrived.
///
/// A packet that is shorter than an Ethernet header is dropped. Otherwise
/// the Ethernet type, bytes 12 and 13 in network byte order, says where the
/// packet goes.
pub fn dispatch_rx<'a, P: RxPacket>(pkt: &'a P) -> (frame: RxFrame<'a, P>)
    requires
        pkt.wf(),
    ensures
        ({
            let bytes = pkt.regions().flatten();
            let ether_ty = be16(byte_or_zero(bytes, 12), byte_or_zero(bytes, 13));
            match frame {
                RxFrame::Short { len } => len == bytes.len() && len < ETHERNET_HEADER_LEN,
                RxFrame::Ipv4 { src_mac, reader } => {
                    &&& bytes.len() >= ETHERNET_HEADER_LEN
                    &&& ether_ty == ETHER_TYPE_IPV4
                    &&& src_mac@ == bytes.subrange(0, 6)
                    &&& reader.wf()
                    &&& reader.packet() == pkt
                    &&& reader.pos() == ETHERNET_HEADER_LEN
                },
                RxFrame::Arp(info) => {
                    &&& bytes.len() >= ETHERNET_HEADER_LEN
                    &&& ether_ty == ETHER_TYPE_ARP
                    &&& info is Some <==> arp_complete(
                        bytes.len() as int,
                        byte_or_zero(bytes, 18),
                        byte_or_zero(bytes, 19),
                    )
                    &&& info matches Some(found) ==> arp_matches(bytes, found)
                },
                RxFrame::Unknown { ether_ty: ty } => {
                    &&& bytes.len() >= ETHERNET_HEADER_LEN
                    &&& ty == ether_ty
                    &&& ty != ETHER_TYPE_IPV4
                    &&& ty != ETHER_TYPE_ARP
                },
            }
        }),
{
    let len = pkt.len();
    if len < ETHERNET_HEADER_LEN {
        return RxFrame::Short { len };
    }
    let mut r = PacketReader::new(pkt);
    let src_mac = match read_array::<P, 6>(&mut r) {
        Ok(b) => b,
        Err(_) => unreached(),
    };
    let _dst_mac = match read_array::<P, 6>(&mut r) {
        Ok(b) => b,
        Err(_) => unreached(),
    };
    let ether_ty = match r.read_u16n() {
        Ok(v) => v,
        Err(_) => unreached(),
    };
    assert(src_mac@ =~= pkt.regions().flatten().subrange(0, 6));
    if ether_ty == ETHER_TYPE_IPV4 {
        RxFrame::Ipv4 { src_mac, reader: r }
    } else if ether_ty == ETHER_TYPE_ARP {
        RxFrame::Arp(read_arp(&mut r))
    } else {
        RxFrame::Unknown { ether_ty }
    }
}

} // verus!
