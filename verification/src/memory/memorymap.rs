//! The boot-time memory map: an ordered sequence of physical regions.

use crate::PAGE_SIZE;
use vstd::prelude::*;

verus! {

/// What a region of physical memory is used for.
#[derive(Clone, Copy, Debug, PartialEq, Eq, Structural)]
pub enum MemoryState {
    /// Not usable as general memory (firmware tables, device windows, holes).
    Reserved,
    /// Real memory that was already in use when the map was built.
    Used,
    /// Real memory that is free for allocation.
    Free,
}

/// One region of the memory map.
#[derive(Clone, Copy, Debug, PartialEq, Eq, Structural)]
pub struct MemoryMapEnt {
    /// Physical address of the first byte of the region.
    pub start: u64,
    /// Length of the region in bytes.
    pub size: u64,
    /// What the region holds.
    pub state: MemoryState,
}

impl MemoryMapEnt {
    /// The address one past the last byte of the region.
    pub open spec fn end(self) -> int {
        self.start + self.size
    }

    /// Whether `addr` lies inside the region.
    pub open spec fn contains(self, addr: u64) -> bool {
        self.start <= addr < self.end()
    }

    /// Whether the region is backed by real memory.
    pub open spec fn is_ram(self) -> bool {
        self.state is Free || self.state is Used
    }

    /// A region is whole when it is a non-empty run of complete frames that
    /// ends inside the 64-bit address space.
    pub open spec fn whole(self) -> bool {
        &&& self.start as int % (PAGE_SIZE as int) == 0
        &&& self.size as int % (PAGE_SIZE as int) == 0
        &&& self.size > 0
        &&& self.end() <= u64::MAX
    }
}

/// A memory map is valid when every region is whole and the regions are
/// ordered by address without overlapping.
pub open spec fn valid_map(map: Seq<MemoryMapEnt>) -> bool {
    &&& forall|i: int| 0 <= i < map.len() ==> (#[trigger] map[i]).whole()
    &&& forall|i: int, j: int|
        0 <= i < j < map.len() ==> (#[trigger] map[i]).end() <= (#[trigger] map[j]).start
}

/// Decides whether `map` is a valid memory map.
pub fn is_valid_map(map: &Vec<MemoryMapEnt>) -> (ok: bool)
    ensures
        ok == valid_map(map@),
{
    let mut i: usize = 0;
    while i < map.len()
        invariant
            i <= map.len(),
            forall|k: int| 0 <= k < i ==> (#[trigger] map@[k]).whole(),
            forall|a: int, b: int|
                0 <= a < b < i ==> (#[trigger] map@[a]).end() <= (#[trigger] map@[b]).start,
        decreases map.len() - i,
    {
        let e = map[i];
        let page = PAGE_SIZE as u64;
        if e.start % page != 0 || e.size % page != 0 || e.size == 0 || e.size > u64::MAX
            - e.start {
            return false;
        }
        if i > 0 {
            let p = map[i - 1];
            if p.start + p.size > e.start {
                assert(!(map@[i - 1].end() <= map@[i as int].start));
                return false;
            }
            assert forall|a: int| 0 <= a < i implies (#[trigger] map@[a]).end() <= e.start by {
                if a < i - 1 {
                    assert(map@[a].end() <= map@[i - 1].start);
                }
            }
        }
        i += 1;
    }
    true
}

} // verus!
