//! Reading a packet from front to back.

use crate::nic::packet::{lemma_prefix_len_bounds, lemma_region_bytes, prefix_len, RxPacket};
use vstd::prelude::*;

verus! {

/// Byte `index` of `bytes`, or zero past the end.
pub open spec fn byte_or_zero(bytes: Seq<u8>, index: int) -> u8 {
    if 0 <= index < bytes.len() {
        bytes[index]
    } else {
        0
    }
}

/// The smaller of two numbers.
pub open spec fn min(a: int, b: int) -> int {
    if a <= b {
        a
    } else {
        b
    }
}

/// The number whose two bytes are `hi` and `lo`, the high byte first.
pub open spec fn be16(hi: u8, lo: u8) -> u16 {
    (hi * 0x100 + lo) as u16
}

/// The number whose four bytes are `b0` to `b3`, the highest byte first.
pub open spec fn be32(b0: u8, b1: u8, b2: u8, b3: u8) -> u32 {
    (b0 * 0x100_0000 + b1 * 0x1_0000 + b2 * 0x100 + b3) as u32
}

/// Reads a packet from front to back.
pub struct PacketReader<'a, P: RxPacket> {
    pkt: &'a P,
    ofs: usize,
}

impl<'a, P: RxPacket> Clone for PacketReader<'a, P> {
    fn clone(&self) -> (copy: Self)
        ensures
            copy == *self,
    {
        PacketReader { pkt: self.pkt, ofs: self.ofs }
    }
}

impl<'a, P: RxPacket> PacketReader<'a, P> {
    /// The bytes of the packet that is being read.
    pub closed spec fn bytes(&self) -> Seq<u8> {
        self.pkt.regions().flatten()
    }

    /// The packet that is being read.
    pub closed spec fn packet(&self) -> &'a P {
        self.pkt
    }

    /// Number of bytes that have been read.
    pub closed spec fn pos(&self) -> usize {
        self.ofs
    }

    /// The reader stands inside its packet, or at its end.
    pub open spec fn wf(&self) -> bool {
        &&& self.packet().wf()
        &&& self.bytes() == self.packet().regions().flatten()
        &&& self.pos() <= self.bytes().len()
    }

    /// Starts reading `pkt` at its first byte.
    pub fn new(pkt: &'a P) -> (reader: PacketReader<'a, P>)
        requires
            pkt.wf(),
        ensures
            reader.wf(),
            reader.packet() == pkt,
            reader.pos() == 0,
    {
        PacketReader { pkt, ofs: 0 }
    }

    /// Number of bytes that are left to read.
    pub fn remain(&self) -> (left: usize)
        requires
            self.wf(),
        ensures
            left == self.bytes().len() - self.pos(),
    {
        self.pkt.len() - self.ofs
    }

    /// Reads bytes into `dst` until `dst` is full or the packet ends, and
    /// returns how many were read. The rest of `dst` stays as it is. At the
    /// end of the packet there is nothing to read, which is an error.
    pub fn read(&mut self, dst: &mut [u8]) -> (result: Result<usize, ()>)
        requires
            old(self).wf(),
        ensures
            final(self).wf(),
            final(self).packet() == old(self).packet(),
            result is Err <==> old(self).pos() >= old(self).bytes().len(),
            result is Err ==> final(self).pos() == old(self).pos() && final(dst)@ == old(dst)@,
            result matches Ok(count) ==> {
                &&& count == min(old(dst)@.len() as int, old(self).bytes().len() - old(self).pos())
                &&& final(self).pos() == old(self).pos() + count
                &&& final(dst)@ == old(self).bytes().subrange(
                    old(self).pos() as int,
                    old(self).pos() + count,
                ) + old(dst)@.skip(count as int)
            },
    {
        let ghost regions = self.pkt.regions();
        let ghost flat = regions.flatten();
        let pkt = self.pkt;
        let start = self.ofs;
        let num = pkt.num_regions();
        let total = pkt.len();
        proof {
            lemma_prefix_len_bounds(regions, 0);
            lemma_prefix_len_bounds(regions, num as int);
        }
        if num == 0 {
            return Err(());
        }
        // Find the region that holds the next byte, and where in it.
        let mut ofs = start;
        let mut r: usize = 0;
        while ofs >= pkt.get_region(r).len()
            invariant
                *self == *old(self),
                old(self).wf(),
                pkt == self.pkt,
                start == self.ofs,
                dst@ == old(dst)@,
                pkt.wf(),
                regions == pkt.regions(),
                flat == regions.flatten(),
                num == regions.len(),
                prefix_len(regions, num as int) == flat.len(),
                r < num,
                start == prefix_len(regions, r as int) + ofs,
                start <= flat.len(),
            decreases num - r,
        {
            proof {
                lemma_region_bytes(regions, r as int);
                lemma_prefix_len_bounds(regions, (r + 1) as int);
            }
            ofs -= pkt.get_region(r).len();
            r += 1;
            if r == num {
                return Err(());
            }
        }
        proof {
            lemma_region_bytes(regions, r as int);
        }
        let mut wofs: usize = 0;
        while wofs < dst.len() && start + wofs < total
            invariant
                *self == *old(self),
                old(self).wf(),
                pkt == self.pkt,
                start == self.ofs,
                pkt.wf(),
                regions == pkt.regions(),
                flat == regions.flatten(),
                num == regions.len(),
                total == flat.len(),
                prefix_len(regions, num as int) == flat.len(),
                dst@.len() == old(dst)@.len(),
                r <= num,
                wofs <= dst@.len(),
                start + wofs <= total,
                start < total,
                wofs < dst@.len() ==> start + wofs == prefix_len(regions, r as int) + ofs,
                wofs < dst@.len() && r < num ==> ofs <= regions[r as int].len(),
                dst@ == flat.subrange(start as int, start + wofs) + old(dst)@.skip(wofs as int),
            decreases dst@.len() - wofs, num - r,
        {
            proof {
                lemma_prefix_len_bounds(regions, r as int);
                assert(r < num);
                lemma_region_bytes(regions, r as int);
            }
            let rgn = pkt.get_region(r);
            let alen = rgn.len() - ofs;
            let rlen = dst.len() - wofs;
            let len = if alen < rlen {
                alen
            } else {
                rlen
            };
            let ghost before = dst@;
            let mut i: usize = 0;
            while i < len
                invariant
                    i <= len,
                    ofs + len <= rgn@.len(),
                    wofs + len <= dst@.len(),
                    ofs + len <= usize::MAX,
                    wofs + len <= usize::MAX,
                    dst@.len() == before.len(),
                    dst@ == before.subrange(0, wofs as int) + rgn@.subrange(
                        ofs as int,
                        ofs + i,
                    ) + before.skip(wofs + i),
                decreases len - i,
            {
                dst[wofs + i] = rgn[ofs + i];
                i += 1;
                assert(dst@ =~= before.subrange(0, wofs as int) + rgn@.subrange(
                    ofs as int,
                    ofs + i,
                ) + before.skip(wofs + i));
            }
            proof {
                assert forall|j: int| 0 <= j < len implies #[trigger] rgn@[ofs + j] == flat[start
                    + wofs + j] by {
                    assert(flat[prefix_len(regions, r as int) + (ofs + j)] == regions[r as int][ofs
                        + j]);
                }
                assert(before == flat.subrange(start as int, start + wofs) + old(dst)@.skip(
                    wofs as int,
                ));
                assert(dst@ == before.subrange(0, wofs as int) + rgn@.subrange(
                    ofs as int,
                    ofs + len,
                ) + before.skip(wofs + len));
                let goal = flat.subrange(start as int, start + wofs + len) + old(dst)@.skip(
                    wofs + len,
                );
                assert(dst@.len() == goal.len());
                assert forall|k: int| 0 <= k < dst@.len() implies dst@[k] == goal[k] by {
                    if k < wofs {
                        assert(dst@[k] == before[k]);
                    } else if k < wofs + len {
                        assert(dst@[k] == rgn@[ofs + (k - wofs)]);
                    } else {
                        assert(dst@[k] == before[k]);
                    }
                }
                assert(dst@ =~= goal);
            }
            r += 1;
            ofs = 0;
            wofs += len;
        }
        self.ofs += wofs;
        Ok(wofs)
    }

    /// Reads into the buffer `b` as [`PacketReader::read`] does, and hands
    /// the buffer back.
    pub fn read_bytes(&mut self, b: Vec<u8>) -> (result: Result<Vec<u8>, ()>)
        requires
            old(self).wf(),
        ensures
            final(self).wf(),
            final(self).packet() == old(self).packet(),
            result is Err <==> old(self).pos() >= old(self).bytes().len(),
            result is Err ==> final(self).pos() == old(self).pos(),
            result matches Ok(filled) ==> {
                let count = min(b@.len() as int, old(self).bytes().len() - old(self).pos());
                &&& final(self).pos() == old(self).pos() + count
                &&& filled@ == old(self).bytes().subrange(
                    old(self).pos() as int,
                    old(self).pos() + count,
                ) + b@.skip(count)
            },
    {
        let mut b = b;
        match self.read(b.as_mut_slice()) {
            Ok(_) => Ok(b),
            Err(e) => Err(e),
        }
    }

    /// Reads one byte.
    pub fn read_u8(&mut self) -> (result: Result<u8, ()>)
        requires
            old(self).wf(),
        ensures
            final(self).wf(),
            final(self).packet() == old(self).packet(),
            result is Err <==> old(self).pos() >= old(self).bytes().len(),
            result is Err ==> final(self).pos() == old(self).pos(),
            result matches Ok(value) ==> {
                &&& value == old(self).bytes()[old(self).pos() as int]
                &&& final(self).pos() == old(self).pos() + 1
            },
    {
        let mut b = [0u8;1];
        match self.read(&mut b) {
            Ok(_) => Ok(b[0]),
            Err(e) => Err(e),
        }
    }

    /// Reads a 16-bit number in network byte order. Where the packet ends
    /// before the number does, the missing low byte counts as zero.
    pub fn read_u16n(&mut self) -> (result: Result<u16, ()>)
        requires
            old(self).wf(),
        ensures
            final(self).wf(),
            final(self).packet() == old(self).packet(),
            result is Err <==> old(self).pos() >= old(self).bytes().len(),
            result is Err ==> final(self).pos() == old(self).pos(),
            result matches Ok(value) ==> {
                let bytes = old(self).bytes();
                let pos = old(self).pos() as int;
                &&& value == be16(byte_or_zero(bytes, pos), byte_or_zero(bytes, pos + 1))
                &&& final(self).pos() == pos + min(2, bytes.len() - pos)
            },
    {
        let mut b = [0u8;2];
        match self.read(&mut b) {
            Ok(_) => {
                let hi = b[0];
                let lo = b[1];
                assert((hi as u16) << 8 | (lo as u16) == hi * 0x100 + lo) by (bit_vector);
                Ok((hi as u16) << 8 | (lo as u16))
            },
            Err(e) => Err(e),
        }
    }

    /// Reads a 32-bit number in network byte order. Where the packet ends
    /// before the number does, the missing low bytes count as zero.
    pub fn read_u32n(&mut self) -> (result: Result<u32, ()>)
        requires
            old(self).wf(),
        ensures
            final(self).wf(),
            final(self).packet() == old(self).packet(),
            result is Err <==> old(self).pos() >= old(self).bytes().len(),
            result is Err ==> final(self).pos() == old(self).pos(),
            result matches Ok(value) ==> {
                let bytes = old(self).bytes();
                let pos = old(self).pos() as int;
                &&& value == be32(
                    byte_or_zero(bytes, pos),
                    byte_or_zero(bytes, pos + 1),
                    byte_or_zero(bytes, pos + 2),
                    byte_or_zero(bytes, pos + 3),
                )
                &&& final(self).pos() == pos + min(4, bytes.len() - pos)
            },
    {
        let mut b = [0u8;4];
        match self.read(&mut b) {
            Ok(_) => {
                let b0 = b[0];
                let b1 = b[1];
                let b2 = b[2];
                let b3 = b[3];
                assert((b0 as u32) << 24 | (b1 as u32) << 16 | (b2 as u32) << 8 | (b3 as u32) == b0
                    * 0x100_0000 + b1 * 0x1_0000 + b2 * 0x100 + b3) by (bit_vector);
                Ok((b0 as u32) << 24 | (b1 as u32) << 16 | (b2 as u32) << 8 | (b3 as u32))
            },
            Err(e) => Err(e),
        }
    }
}

/// Reads `N` bytes. Where the packet ends before that, the missing bytes
/// count as zero.
pub fn read_array<'a, P: RxPacket, const N: usize>(r: &mut PacketReader<'a, P>) -> (result: Result<
    [u8; N],
    (),
>)
    requires
        old(r).wf(),
    ensures
        final(r).wf(),
        final(r).packet() == old(r).packet(),
        result is Err <==> old(r).pos() >= old(r).bytes().len(),
        result is Err ==> final(r).pos() == old(r).pos(),
        result matches Ok(b) ==> {
            &&& final(r).pos() == old(r).pos() + min(N as int, old(r).bytes().len() - old(r).pos())
            &&& b@ == Seq::new(
                N as nat,
                |i: int| byte_or_zero(old(r).bytes(), old(r).pos() + i),
            )
        },
{
    let mut b = [0u8;N];
    match r.read(&mut b) {
        Ok(_) => {
            assert(b@ =~= Seq::new(
                N as nat,
                |i: int| byte_or_zero(old(r).bytes(), old(r).pos() + i),
            ));
            Ok(b)
        },
        Err(e) => Err(e),
    }
}

} // verus!
