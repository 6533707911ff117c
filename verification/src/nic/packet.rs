//! Packets in driver-owned memory.

use core::ops::Range;
use vstd::prelude::*;
use vstd::seq_lib::lemma_flatten_concat;
use vstd::slice::slice_subrange;

verus! {

/// Number of bytes in the first `count` regions of `regions`.
pub open spec fn prefix_len(regions: Seq<Seq<u8>>, count: int) -> nat {
    regions.take(count).flatten().len()
}

/// The first `count` regions are the start of the packet, and region `count`
/// follows them byte for byte.
pub proof fn lemma_region_bytes(regions: Seq<Seq<u8>>, count: int)
    requires
        0 <= count < regions.len(),
    ensures
        prefix_len(regions, count + 1) == prefix_len(regions, count) + regions[count].len(),
        prefix_len(regions, count + 1) <= regions.flatten().len(),
        forall|j: int|
            0 <= j < regions[count].len() ==> #[trigger] regions.flatten()[prefix_len(
                regions,
                count,
            ) + j] == regions[count][j],
{
    let before = regions.take(count);
    let upto = regions.take(count + 1);
    assert(upto =~= before.push(regions[count]));
    before.lemma_flatten_push(regions[count]);
    assert(upto + regions.skip(count + 1) =~= regions);
    lemma_flatten_concat(upto, regions.skip(count + 1));
    assert(regions.flatten() =~= upto.flatten() + regions.skip(count + 1).flatten());
}

/// All regions together are the whole packet.
pub proof fn lemma_prefix_len_bounds(regions: Seq<Seq<u8>>, count: int)
    requires
        0 <= count <= regions.len(),
    ensures
        prefix_len(regions, count) <= regions.flatten().len(),
        prefix_len(regions, regions.len() as int) == regions.flatten().len(),
        prefix_len(regions, 0) == 0,
{
    assert(regions.take(count) + regions.skip(count) =~= regions);
    lemma_flatten_concat(regions.take(count), regions.skip(count));
    assert(regions.flatten() =~= regions.take(count).flatten() + regions.skip(count).flatten());
    assert(regions.take(regions.len() as int) =~= regions);
    assert(regions.take(0) =~= Seq::<Seq<u8>>::empty());
}

/// A packet in driver-owned memory.
pub trait RxPacket {
    /// The regions of memory that hold the packet, in order.
    spec fn regions(&self) -> Seq<Seq<u8>>;

    /// What a packet must satisfy to be read.
    spec fn wf(&self) -> bool;

    /// Number of bytes in the packet.
    fn len(&self) -> (len: usize)
        requires
            self.wf(),
        ensures
            len == self.regions().flatten().len(),
    ;

    /// Number of regions that hold the packet.
    fn num_regions(&self) -> (count: usize)
        requires
            self.wf(),
        ensures
            count == self.regions().len(),
    ;

    /// The bytes of region `idx`.
    fn get_region(&self, idx: usize) -> (region: &[u8])
        requires
            self.wf(),
            idx < self.regions().len(),
        ensures
            region@ == self.regions()[idx as int],
    ;

    /// The bytes of the packet in `range`, if the packet can hand them out
    /// as one piece of memory.
    fn get_slice(&self, range: Range<usize>) -> (slice: Option<&[u8]>)
        requires
            self.wf(),
        ensures
            slice matches Some(bytes) ==> range.start <= range.end
                <= self.regions().flatten().len() && bytes@ == self.regions().flatten().subrange(
                range.start as int,
                range.end as int,
            ),
    ;
}

/// A packet whose regions are owned buffers.
pub struct PacketBuf {
    regions: Vec<Vec<u8>>,
    len: usize,
}

impl PacketBuf {
    /// The regions of the packet.
    pub closed spec fn spec_regions(&self) -> Seq<Seq<u8>> {
        Seq::new(self.regions@.len(), |i: int| self.regions@[i]@)
    }

    /// The recorded length is the length of the regions together.
    pub closed spec fn spec_wf(&self) -> bool {
        self.len == self.spec_regions().flatten().len()
    }

    /// Makes a packet of `regions`. There is no packet of more bytes than
    /// can be counted.
    pub fn new(regions: Vec<Vec<u8>>) -> (packet: Option<PacketBuf>)
        ensures
            match packet {
                Some(p) => p.wf() && p.regions() == Seq::new(
                    regions@.len(),
                    |i: int| regions@[i]@,
                ),
                None => Seq::new(regions@.len(), |i: int| regions@[i]@).flatten().len()
                    > usize::MAX,
            },
    {
        let ghost all = Seq::new(regions@.len(), |i: int| regions@[i]@);
        let mut len: usize = 0;
        let mut i: usize = 0;
        proof {
            lemma_prefix_len_bounds(all, 0);
        }
        while i < regions.len()
            invariant
                i <= regions.len(),
                all == Seq::new(regions@.len(), |i: int| regions@[i]@),
                len == prefix_len(all, i as int),
            decreases regions.len() - i,
        {
            proof {
                lemma_region_bytes(all, i as int);
            }
            let more = regions[i].len();
            if more > usize::MAX - len {
                return None;
            }
            len += more;
            i += 1;
        }
        proof {
            lemma_prefix_len_bounds(all, regions.len() as int);
        }
        Some(PacketBuf { regions, len })
    }
}

impl RxPacket for PacketBuf {
    open spec fn regions(&self) -> Seq<Seq<u8>> {
        self.spec_regions()
    }

    open spec fn wf(&self) -> bool {
        self.spec_wf()
    }

    fn len(&self) -> (len: usize) {
        self.len
    }

    fn num_regions(&self) -> (count: usize) {
        self.regions.len()
    }

    fn get_region(&self, idx: usize) -> (region: &[u8]) {
        self.regions[idx].as_slice()
    }

    /// The bytes in `range` are handed out when they lie within one region.
    fn get_slice(&self, range: Range<usize>) -> (slice: Option<&[u8]>)
        ensures
            slice is Some <==> range.start <= range.end && exists|r: int|
                0 <= r < self.regions().len() && prefix_len(self.regions(), r) <= range.start
                    && range.end <= prefix_len(self.regions(), r) + (
                #[trigger] self.regions()[r]).len(),
    {
        let start = range.start;
        let end = range.end;
        if start > end {
            return None;
        }
        let mut base: usize = 0;
        let mut r: usize = 0;
        proof {
            lemma_prefix_len_bounds(self.regions(), 0);
        }
        while r < self.regions.len()
            invariant
                self.wf(),
                start == range.start,
                end == range.end,
                start <= end,
                r <= self.regions.len(),
                base == prefix_len(self.regions(), r as int),
                forall|k: int|
                    0 <= k < r ==> !(prefix_len(self.regions(), k) <= start && end <= prefix_len(
                        self.regions(),
                        k,
                    ) + (#[trigger] self.regions()[k]).len()),
            decreases self.regions.len() - r,
        {
            proof {
                lemma_region_bytes(self.regions(), r as int);
            }
            let region = self.regions[r].as_slice();
            if base <= start && end - base <= region.len() {
                let bytes = slice_subrange(region, start - base, end - base);
                assert(bytes@ =~= self.regions().flatten().subrange(start as int, end as int)) by {
                    let flat = self.regions().flatten();
                    assert forall|j: int| 0 <= j < end - start implies bytes@[j] == flat[start
                        + j] by {
                        assert(flat[prefix_len(self.regions(), r as int) + (start - base + j)]
                            == self.regions()[r as int][start - base + j]);
                    }
                }
                return Some(bytes);
            }
            base += region.len();
            r += 1;
        }
        None
    }
}

} // verus!
