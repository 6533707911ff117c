//! Physical memory manager.
//!
//! Frames are handed out by a cursor that walks the memory map once, and come
//! back through a stack of reclaimed frames that is served first. The state
//! lives in a [`PhysMemory`] that is made once, given its memory map once by
//! [`init`], and handed to every operation.
//!
//! The stack of reclaimed frames is kept in a table beside the frames, not in
//! the first bytes of each free frame: it costs one word per free frame and
//! in return no frame has to be mapped to reach the next one.

use crate::lazy_static::LazyStatic;
use crate::memory::frames::FrameTable;
use crate::memory::preservation::{
    lemma_allocate, lemma_allocate_range, lemma_deref_frame, lemma_from_addr, lemma_ref_frame,
};
use crate::memory::memorymap::{valid_map, MemoryMapEnt, MemoryState};
use crate::memory::model::{
    fits_bits, frame_base, frame_of, is_free_frame, map_within_bits, next_free, PhysView,
};
use crate::PAGE_SIZE;
use vstd::prelude::*;

verus! {

/// A physical address.
pub type PAddr = u64;

/// The address that stands for "no page": it is not the address of any frame.
pub const NOPAGE: PAddr = 1;

/// How a page is to be mapped.
#[derive(Clone, Copy, Debug, PartialEq, Eq, Structural)]
pub enum ProtectionMode {
    /// Readable by the kernel only.
    KernelRO,
    /// Readable and writable by the kernel only.
    KernelRW,
}

/// What is left to do after a frame was chosen for a page: map `paddr` at
/// `address` with `mode`, and fill the page with zeroes.
#[derive(Clone, Copy, Debug, PartialEq, Eq, Structural)]
pub struct PageMapping {
    /// The virtual address that is being backed.
    pub address: usize,
    /// The frame that backs it.
    pub paddr: PAddr,
    /// The protection to map it with.
    pub mode: ProtectionMode,
}

/// The physical memory manager's state.
pub struct PhysMemory {
    map: LazyStatic<Vec<MemoryMapEnt>>,
    /// Where the cursor stands: region index and next address.
    alloc_point: (usize, PAddr),
    free_stack: Vec<PAddr>,
    frames: FrameTable,
}

impl View for PhysMemory {
    type V = PhysView;

    closed spec fn view(&self) -> PhysView {
        PhysView {
            map: match self.map.0 {
                Some(map) => Some(map@),
                None => None,
            },
            index: self.alloc_point.0 as nat,
            addr: self.alloc_point.1,
            free_stack: self.free_stack@,
            frames: self.frames@,
        }
    }
}

impl PhysMemory {
    /// The invariant of the allocator.
    pub open spec fn wf(&self) -> bool {
        self@.wf()
    }

    /// Creates the state that has no memory map yet. Only [`init`] can be
    /// called on it.
    pub fn new() -> (mem: PhysMemory)
        ensures
            mem@ == PhysView::blank(),
    {
        PhysMemory {
            map: LazyStatic::new(),
            alloc_point: (0, 0),
            free_stack: Vec::new(),
            frames: FrameTable::new(),
        }
    }

    /// Where the cursor stands: region index and next address.
    pub fn alloc_point(&self) -> (point: (usize, PAddr))
        ensures
            point.0 == self@.index,
            point.1 == self@.addr,
    {
        self.alloc_point
    }

    /// The reclaimed frames, the most recently reclaimed one last.
    pub fn free_stack(&self) -> (stack: &Vec<PAddr>)
        ensures
            stack@ == self@.free_stack,
    {
        &self.free_stack
    }

    /// The reference counts and in-use marks.
    pub fn frames(&self) -> (frames: &FrameTable)
        ensures
            frames@ == self@.frames,
    {
        &self.frames
    }
}

/// Gives the allocator its memory map. This is done once, before anything
/// else: `mem` must be as [`PhysMemory::new`] made it. The cursor is put at
/// the start of the first free region of the map.
pub fn init(mem: &mut PhysMemory, map: Vec<MemoryMapEnt>)
    requires
        old(mem)@ == PhysView::blank(),
        valid_map(map@),
    ensures
        final(mem)@ == old(mem)@.init(map@),
        final(mem).wf(),
{
    let mut first: usize = 0;
    while first != map.len() && map[first].state != MemoryState::Free
        invariant
            first <= map.len(),
            next_free(map@, first as nat) == next_free(map@, 0),
        decreases map.len() - first,
    {
        first += 1;
    }
    let start = if first == map.len() {
        0
    } else {
        map[first].start
    };
    proof {
        if first < map.len() {
            assert(map@[first as int].whole());
        }
    }
    mem.alloc_point = (first, start);
    mem.map.prep(move || -> (given: Vec<MemoryMapEnt>)
        ensures
            given == map,
        { map });
}

/// The memory map.
pub fn get_memory_map(mem: &PhysMemory) -> (map: &Vec<MemoryMapEnt>)
    requires
        mem@.map is Some,
    ensures
        map@ == mem@.entries(),
{
    mem.map.deref()
}

/// Whether `phys` lies in a region that is backed by real memory.
pub fn is_ram(mem: &PhysMemory, phys: PAddr) -> (ram: bool)
    requires
        mem.wf(),
    ensures
        ram == mem@.is_ram(phys),
{
    let map = get_memory_map(mem);
    let mut i: usize = 0;
    while i < map.len()
        invariant
            i <= map.len(),
            valid_map(map@),
            map@ == mem@.entries(),
            forall|k: int| 0 <= k < i ==> !(#[trigger] map@[k]).contains(phys),
        decreases map.len() - i,
    {
        let e = map[i];
        if e.start <= phys && phys < e.start + e.size {
            assert(map@[i as int].contains(phys));
            assert forall|k: int| i < k < map.len() implies !(#[trigger] map@[k]).contains(
                phys,
            ) by {
                assert(map@[i as int].end() <= map@[k].start);
            }
            return match e.state {
                MemoryState::Free => true,
                MemoryState::Used => true,
                MemoryState::Reserved => false,
            };
        }
        i += 1;
    }
    false
}

/// Hands out `count` contiguous frames from the memory map and returns the
/// address of the first, or [`NOPAGE`] when the map is used up. Only single
/// frames can be asked for.
pub fn allocate_range(mem: &mut PhysMemory, count: usize) -> (page: PAddr)
    requires
        old(mem).wf(),
        count == 1,
    ensures
        final(mem).wf(),
        final(mem)@ == old(mem)@.allocate_range().0,
        page == old(mem)@.allocate_range().1,
        page == NOPAGE || is_free_frame(old(mem)@.entries(), page),
{
    proof {
        lemma_allocate_range(mem@);
    }
    let (mut i, mut addr) = mem.alloc_point;
    let map = get_memory_map(mem);
    if i == map.len() {
        return NOPAGE;
    }
    if addr >= map[i].start + map[i].size {
        let ghost from = (i + 1) as nat;
        i += 1;
        while i != map.len() && map[i].state != MemoryState::Free
            invariant
                from <= i <= map.len(),
                next_free(map@, i as nat) == next_free(map@, from),
            decreases map.len() - i,
        {
            i += 1;
        }
        if i == map.len() {
            mem.alloc_point = (i, 0);
            return NOPAGE;
        }
        addr = map[i].start;
    }
    let rv = addr;
    addr += PAGE_SIZE as u64;
    mem.alloc_point = (i, addr);
    rv
}

/// Whether every frame of the memory map has a number that fits in `bits`
/// bits, so that [`allocate_range_bits`] can serve a request for `bits`.
pub fn within_bits(mem: &PhysMemory, bits: u8) -> (within: bool)
    requires
        mem.wf(),
    ensures
        within == map_within_bits(mem@.entries(), bits),
{
    let map = get_memory_map(mem);
    if map.len() == 0 || bits >= 64 {
        return true;
    }
    let last = map[map.len() - 1];
    assert(last == map@.last());
    let top = (last.start + last.size - 1) / (PAGE_SIZE as u64);
    top >> bits == 0
}

/// Hands out `count` contiguous frames whose frame numbers fit in `bits`
/// bits, and returns the address of the first or [`NOPAGE`]. Only a single
/// frame can be asked for, and only from a memory map that lies within
/// `bits` bits as a whole; the cursor then serves the request.
pub fn allocate_range_bits(mem: &mut PhysMemory, bits: u8, count: usize) -> (page: PAddr)
    requires
        old(mem).wf(),
        count == 1,
        map_within_bits(old(mem)@.entries(), bits),
    ensures
        final(mem).wf(),
        final(mem)@ == old(mem)@.allocate_range().0,
        page == old(mem)@.allocate_range().1,
        page == NOPAGE || is_free_frame(old(mem)@.entries(), page),
        page != NOPAGE ==> fits_bits(frame_of(page), bits),
{
    proof {
        lemma_allocate_range(mem@);
        let page = mem@.allocate_range().1;
        if page != NOPAGE && bits < 64 {
            let top = frame_of((mem@.entries().last().end() - 1) as u64);
            let frame = frame_of(page);
            assert(frame <= top);
            assert(frame <= top && top >> bits == 0 && bits < 64 ==> frame >> bits == 0)
                by (bit_vector);
        }
    }
    allocate_range(mem, 1)
}

/// Marks the frame at `paddr` as in use and counts its new holder's
/// reference.
fn mark_used(mem: &mut PhysMemory, paddr: PAddr)
    requires
        old(mem)@.ref_count(paddr) < usize::MAX,
    ensures
        final(mem)@ == old(mem)@.mark_used(paddr),
{
    let frame = paddr / (PAGE_SIZE as u64);
    mem.frames.mark_used(frame);
    mem.frames.ref_frame(frame);
}

/// Chooses a frame to back the page at the virtual address `address`.
///
/// The most recently reclaimed frame is taken if there is one, else the next
/// frame of the memory map. The frame is marked as in use with one
/// reference, and the caller is told what to map. `None` means that no frame
/// is left.
pub fn allocate(mem: &mut PhysMemory, address: usize) -> (mapping: Option<PageMapping>)
    requires
        old(mem).wf(),
    ensures
        final(mem).wf(),
        final(mem)@ == old(mem)@.allocate().0,
        mapping == match old(mem)@.allocate().1 {
            Some((paddr, mode)) => Some(PageMapping { address, paddr, mode }),
            None => None,
        },
{
    proof {
        lemma_allocate(mem@);
        lemma_allocate_range(mem@);
    }
    match mem.free_stack.pop() {
        Some(paddr) => {
            assert(paddr == old(mem)@.free_stack.last());
            assert(old(mem)@.reusable(old(mem)@.free_stack[old(mem)@.free_stack.len() - 1]));
            mark_used(mem, paddr);
            return Some(PageMapping { address, paddr, mode: ProtectionMode::KernelRO });
        },
        None => {},
    }
    let paddr = allocate_range(mem, 1);
    if paddr != NOPAGE {
        mark_used(mem, paddr);
        return Some(PageMapping { address, paddr, mode: ProtectionMode::KernelRW });
    }
    None
}

/// Takes one more reference to the frame of `paddr`. An address outside real
/// memory is ignored.
pub fn ref_frame(mem: &mut PhysMemory, paddr: PAddr)
    requires
        old(mem).wf(),
        old(mem)@.is_ram(paddr) ==> old(mem)@.ref_count(paddr) + 1 < usize::MAX,
    ensures
        final(mem).wf(),
        final(mem)@ == old(mem)@.ref_frame(paddr),
{
    proof {
        lemma_ref_frame(mem@, paddr);
    }
    if is_ram(mem, paddr) {
        mem.frames.ref_frame(paddr / (PAGE_SIZE as u64));
    }
}

/// Drops one reference to the frame of `paddr`. When none remains, the frame
/// is marked as free, and if it had been in use it is put on the stack of
/// reclaimed frames. An address outside real memory is ignored.
pub fn deref_frame(mem: &mut PhysMemory, paddr: PAddr)
    requires
        old(mem).wf(),
    ensures
        final(mem).wf(),
        final(mem)@ == old(mem)@.deref_frame(paddr),
{
    proof {
        lemma_deref_frame(mem@, paddr);
    }
    let frame = paddr / (PAGE_SIZE as u64);
    if is_ram(mem, paddr) && mem.frames.deref_frame(frame) == 0 {
        if mem.frames.mark_free(frame) {
            mem.free_stack.push(paddr - paddr % (PAGE_SIZE as u64));
        } else {
            assert(mem@.frames.used =~= old(mem)@.frames.deref_frame(frame).used);
        }
    }
}

/// Returns a frame that holds what `page` holds and that nothing else
/// refers to. A frame with a single holder is that frame already; a frame
/// with more holders cannot be served.
pub fn make_unique(mem: &PhysMemory, page: PAddr) -> (unique: PAddr)
    requires
        mem.wf(),
        mem@.is_ram(page),
        mem@.frames.multiref_count(frame_of(page)) == 0,
    ensures
        unique == page,
{
    page
}

/// A handle to a physical frame, which stands for one reference to it.
pub struct FrameHandle(PAddr);

impl FrameHandle {
    /// The address that the handle holds.
    pub closed spec fn addr(&self) -> PAddr {
        self.0
    }

    /// Takes a reference to the frame of `addr` and wraps the address. The
    /// frame is marked as in use, so it has to be one that the allocator has
    /// handed out and does not hold for reuse.
    pub fn from_addr(mem: &mut PhysMemory, addr: PAddr) -> (handle: FrameHandle)
        requires
            old(mem).wf(),
            old(mem)@.behind_cursor(frame_base(addr)),
            !old(mem)@.free_stack.contains(frame_base(addr)),
            old(mem)@.ref_count(addr) < usize::MAX,
        ensures
            final(mem).wf(),
            final(mem)@ == old(mem)@.mark_used(addr),
            handle.addr() == addr,
    {
        proof {
            lemma_from_addr(mem@, addr);
        }
        mark_used(mem, addr);
        FrameHandle(addr)
    }

    /// Wraps `addr` without taking a reference: the caller hands over one
    /// that it holds already.
    pub fn from_addr_noref(addr: PAddr) -> (handle: FrameHandle)
        ensures
            handle.addr() == addr,
    {
        FrameHandle(addr)
    }

    /// Gives up the handle and returns the address. The reference that the
    /// handle stood for passes to the caller.
    pub fn into_addr(self) -> (addr: PAddr)
        ensures
            addr == self.addr(),
    {
        self.0
    }
}

} // verus!
