//! The physical memory manager as a state machine: its mathematical state,
//! the invariant of that state, and what each operation makes of it.

use crate::memory::frames::FramesView;
use crate::memory::memorymap::{valid_map, MemoryMapEnt};
use crate::memory::phys::{PAddr, ProtectionMode, NOPAGE};
use crate::PAGE_SIZE;
use vstd::prelude::*;

verus! {

/// Number of the frame that holds `paddr`.
pub open spec fn frame_of(paddr: PAddr) -> u64 {
    (paddr as int / (PAGE_SIZE as int)) as u64
}

/// Address of the first byte of the frame that holds `paddr`.
pub open spec fn frame_base(paddr: PAddr) -> PAddr {
    (paddr - paddr as int % (PAGE_SIZE as int)) as u64
}

/// Whether `paddr` is the address of the first byte of a frame.
pub open spec fn page_aligned(paddr: PAddr) -> bool {
    paddr as int % (PAGE_SIZE as int) == 0
}

/// Whether `frame` can be written in `bits` bits.
pub open spec fn fits_bits(frame: u64, bits: u8) -> bool {
    bits >= 64 || frame >> bits == 0
}

/// Index of the first free region of `map` at or after `from`, or the length
/// of `map` if there is none.
pub open spec fn next_free(map: Seq<MemoryMapEnt>, from: nat) -> nat
    decreases map.len() - from,
{
    if from >= map.len() {
        map.len()
    } else if map[from as int].state is Free {
        from
    } else {
        next_free(map, from + 1)
    }
}

/// Whether `phys` lies in a region of `map` that is backed by real memory.
pub open spec fn map_is_ram(map: Seq<MemoryMapEnt>, phys: PAddr) -> bool {
    exists|i: int| 0 <= i < map.len() && (#[trigger] map[i]).contains(phys) && map[i].is_ram()
}

/// Whether `page` is the address of a whole frame of a free region of `map`.
pub open spec fn is_free_frame(map: Seq<MemoryMapEnt>, page: PAddr) -> bool {
    exists|i: int|
        0 <= i < map.len() && (#[trigger] map[i]).state is Free && map[i].start <= page && page
            + PAGE_SIZE <= map[i].end() && page_aligned(page)
}

/// Whether every frame of `map` has a number that fits in `bits` bits.
pub open spec fn map_within_bits(map: Seq<MemoryMapEnt>, bits: u8) -> bool {
    map.len() > 0 ==> fits_bits(frame_of((map.last().end() - 1) as u64), bits)
}

/// Mathematical state of a [`PhysMemory`].
pub struct PhysView {
    /// The memory map, once it has been given.
    pub map: Option<Seq<MemoryMapEnt>>,
    /// Allocation cursor: index of the region that is being handed out.
    pub index: nat,
    /// Allocation cursor: the next address to hand out.
    pub addr: PAddr,
    /// Reclaimed frames, the most recently reclaimed one last.
    pub free_stack: Seq<PAddr>,
    /// Reference counts and in-use marks.
    pub frames: FramesView,
}

impl PhysView {
    /// The state before the memory map is given.
    pub open spec fn blank() -> PhysView {
        PhysView {
            map: None,
            index: 0,
            addr: 0,
            free_stack: Seq::empty(),
            frames: FramesView::empty(),
        }
    }

    /// The regions of the memory map.
    pub open spec fn entries(self) -> Seq<MemoryMapEnt>
        recommends
            self.map is Some,
    {
        self.map->0
    }

    /// Whether the cursor has walked off the end of the map.
    pub open spec fn exhausted(self) -> bool {
        self.index == self.entries().len()
    }

    /// Whether the cursor will never hand out `paddr` from here on.
    pub open spec fn behind_cursor(self, paddr: PAddr) -> bool {
        self.exhausted() || paddr < self.addr
    }

    /// Whether the cursor stands inside a free region, or past the last one.
    pub open spec fn settled(self) -> bool {
        self.exhausted() || (self.entries()[self.index as int].state is Free
            && self.entries()[self.index as int].start <= self.addr)
    }

    /// Whether `phys` lies in real memory.
    pub open spec fn is_ram(self, phys: PAddr) -> bool {
        map_is_ram(self.entries(), phys)
    }

    /// Number of references held on the frame of `paddr`.
    pub open spec fn ref_count(self, paddr: PAddr) -> nat {
        self.frames.count(frame_of(paddr))
    }

    /// What the cursor must satisfy.
    pub open spec fn cursor_ok(self) -> bool {
        let map = self.entries();
        &&& self.index <= map.len()
        &&& page_aligned(self.addr)
        &&& self.index == map.len() ==> self.addr == 0
        &&& self.index < map.len() ==> self.addr <= map[self.index as int].end()
        &&& self.settled()
    }

    /// Whether the frame at `paddr` may stand on the stack of reclaimed
    /// frames: a whole frame of real memory that the cursor has passed and
    /// that is not in use.
    pub open spec fn reusable(self, paddr: PAddr) -> bool {
        &&& page_aligned(paddr)
        &&& self.is_ram(paddr)
        &&& self.behind_cursor(paddr)
        &&& !self.frames.is_used(frame_of(paddr))
    }

    /// What the stack of reclaimed frames must satisfy.
    pub open spec fn stack_ok(self) -> bool {
        &&& self.free_stack.no_duplicates()
        &&& forall|k: int|
            0 <= k < self.free_stack.len() ==> self.reusable(#[trigger] self.free_stack[k])
    }

    /// What the frame table must satisfy: a frame in use is referenced and
    /// was handed out, and the count of a frame that is not in use leaves
    /// room for the reference that handing it out will add.
    pub open spec fn frames_ok(self) -> bool {
        forall|f: u64|
            #![trigger self.frames.is_used(f)]
            #![trigger self.frames.count(f)]
            self.frame_ok(f)
    }

    /// What the frame table must satisfy for the frame `f`.
    #[verifier::inline]
    pub open spec fn frame_ok(self, f: u64) -> bool {
        &&& self.frames.is_used(f) ==> {
            &&& self.frames.count(f) >= 1
            &&& f * PAGE_SIZE <= u64::MAX
            &&& self.behind_cursor((f * PAGE_SIZE) as u64)
        }
        &&& !self.frames.is_used(f) ==> self.frames.count(f) < usize::MAX
    }

    /// The invariant of the allocator, which [`init`] establishes and every
    /// operation keeps.
    pub open spec fn wf(self) -> bool {
        &&& self.map is Some
        &&& valid_map(self.entries())
        &&& self.cursor_ok()
        &&& self.stack_ok()
        &&& self.frames_ok()
    }

    /// The state after the memory map was given: the cursor stands at the
    /// start of the first free region, or past the last region if none is
    /// free.
    pub open spec fn init(self, map: Seq<MemoryMapEnt>) -> PhysView {
        let first = next_free(map, 0);
        PhysView {
            map: Some(map),
            index: first,
            addr: if first < map.len() {
                map[first as int].start
            } else {
                0
            },
            ..self
        }
    }

    /// One step of the cursor: the state after it, and the address it hands
    /// out or [`NOPAGE`].
    ///
    /// While the cursor stands before the end of its region it hands out its
    /// address and moves on by one frame. At the end of the region it moves
    /// to the start of the next free region, passing over all others, and
    /// hands out that region's first frame. Past the last region it hands
    /// out nothing and stays.
    pub open spec fn allocate_range(self) -> (PhysView, PAddr) {
        let map = self.entries();
        if self.index >= map.len() {
            (self, NOPAGE)
        } else if self.addr >= map[self.index as int].end() {
            let next = next_free(map, self.index + 1);
            if next >= map.len() {
                (PhysView { index: next, addr: 0, ..self }, NOPAGE)
            } else {
                (
                    PhysView {
                        index: next,
                        addr: (map[next as int].start + PAGE_SIZE) as u64,
                        ..self
                    },
                    map[next as int].start,
                )
            }
        } else {
            (PhysView { addr: (self.addr + PAGE_SIZE) as u64, ..self }, self.addr)
        }
    }

    /// The state after the frame at `paddr` was marked as in use for a new
    /// holder: the mark is set and the holder's reference is counted.
    pub open spec fn mark_used(self, paddr: PAddr) -> PhysView {
        PhysView {
            frames: self.frames.mark_used(frame_of(paddr)).ref_frame(frame_of(paddr)),
            ..self
        }
    }

    /// Backing a page: the state after it, and the frame that was chosen with
    /// the protection to map it with, if there was a frame.
    ///
    /// The most recently reclaimed frame is taken if there is one, and the
    /// cursor is then left alone. Otherwise the cursor makes one step.
    pub open spec fn allocate(self) -> (PhysView, Option<(PAddr, ProtectionMode)>) {
        if self.free_stack.len() > 0 {
            let paddr = self.free_stack.last();
            (
                PhysView { free_stack: self.free_stack.drop_last(), ..self }.mark_used(paddr),
                Some((paddr, ProtectionMode::KernelRO)),
            )
        } else {
            let (stepped, paddr) = self.allocate_range();
            if paddr != NOPAGE {
                (stepped.mark_used(paddr), Some((paddr, ProtectionMode::KernelRW)))
            } else {
                (stepped, None)
            }
        }
    }

    /// The state after one more reference to the frame of `paddr` was taken.
    /// An address outside real memory is ignored.
    pub open spec fn ref_frame(self, paddr: PAddr) -> PhysView {
        if self.is_ram(paddr) {
            PhysView { frames: self.frames.ref_frame(frame_of(paddr)), ..self }
        } else {
            self
        }
    }

    /// The state after one reference to the frame of `paddr` was dropped.
    ///
    /// An address outside real memory is ignored. When no reference remains
    /// the frame is marked as free, and if it had been in use it goes onto
    /// the stack of reclaimed frames.
    pub open spec fn deref_frame(self, paddr: PAddr) -> PhysView {
        let frame = frame_of(paddr);
        let dropped = self.frames.deref_frame(frame);
        if !self.is_ram(paddr) {
            self
        } else if dropped.count(frame) == 0 && dropped.is_used(frame) {
            PhysView {
                frames: dropped.mark_free(frame),
                free_stack: self.free_stack.push(frame_base(paddr)),
                ..self
            }
        } else {
            PhysView { frames: dropped, ..self }
        }
    }
}

} // verus!
