//! Every operation of the physical memory manager keeps its invariant.

use crate::memory::memorymap::{valid_map, MemoryMapEnt};
use crate::memory::model::{
    frame_base, frame_of, is_free_frame, map_is_ram, next_free, page_aligned, PhysView,
};
use crate::memory::phys::{PAddr, NOPAGE};
use crate::PAGE_SIZE;
use vstd::prelude::*;

verus! {

/// One step of the cursor keeps the allocator's invariant and only moves
/// forward. What it hands out is a whole frame of a free region that it has
/// not handed out before and that is neither in use nor on the stack of
/// reclaimed frames; it hands out nothing exactly when it has walked off the
/// end.
pub proof fn lemma_allocate_range(v: PhysView)
    requires
        v.wf(),
    ensures
        v.allocate_range().0.wf(),
        v.allocate_range().0.index >= v.index,
        forall|q: PAddr| v.behind_cursor(q) ==> v.allocate_range().0.behind_cursor(q),
        v.allocate_range().1 == NOPAGE <==> v.allocate_range().0.exhausted(),
        v.allocate_range().1 != NOPAGE ==> {
            let (w, page) = v.allocate_range();
            &&& page_aligned(page)
            &&& !v.behind_cursor(page)
            &&& w.behind_cursor(page)
            &&& w.addr == page + PAGE_SIZE
            &&& !v.frames.is_used(frame_of(page))
            &&& !v.free_stack.contains(page)
            &&& page < v.entries().last().end()
            &&& is_free_frame(v.entries(), page)
            &&& v.is_ram(page)
        },
{
    let map = v.entries();
    let (w, page) = v.allocate_range();
    if v.index < map.len() {
        let cur = map[v.index as int];
        assert(cur.whole());
        assert(map.last().whole());
        assert(v.index < map.len() - 1 ==> cur.end() <= map.last().start);
        if v.addr >= cur.end() {
            lemma_next_free(map, v.index + 1);
            let next = next_free(map, v.index + 1);
            if next < map.len() {
                assert(map[next as int].whole());
                assert(cur.end() <= map[next as int].start);
                assert(next < map.len() - 1 ==> map[next as int].end() <= map.last().start);
            }
        }
        if page != NOPAGE {
            let at = map[w.index as int];
            assert(at.whole());
            assert(at.state is Free && at.start <= page && page + PAGE_SIZE <= at.end());
            assert(at.contains(page) && at.is_ram());
            assert(v.frame_ok(frame_of(page)));
            assert(!v.free_stack.contains(page)) by {
                if v.free_stack.contains(page) {
                    let k = choose|k: int| 0 <= k < v.free_stack.len() && v.free_stack[k] == page;
                    assert(v.reusable(v.free_stack[k]));
                }
            }
        }
        assert forall|k: int| 0 <= k < w.free_stack.len() implies w.reusable(
            #[trigger] w.free_stack[k],
        ) by {
            assert(v.reusable(v.free_stack[k]));
        }
        assert forall|f: u64|
            #![trigger w.frames.is_used(f)]
            #![trigger w.frames.count(f)]
            w.frame_ok(f) by {
            assert(v.frame_ok(f));
        }
    }
}

/// [`next_free`] finds a free region at or after `from`, or the end.
pub proof fn lemma_next_free(map: Seq<MemoryMapEnt>, from: nat)
    requires
        from <= map.len(),
    ensures
        from <= next_free(map, from) <= map.len(),
        next_free(map, from) < map.len() ==> map[next_free(map, from) as int].state is Free,
        forall|k: int| from <= k < next_free(map, from) ==> !((#[trigger] map[k]).state is Free),
    decreases map.len() - from,
{
    if from < map.len() && !(map[from as int].state is Free) {
        lemma_next_free(map, from + 1);
    }
}

/// Marking a frame as in use keeps the frame table in order when the frame
/// was handed out before and its count has room for one more reference.
proof fn lemma_mark_used_frames_ok(v: PhysView, paddr: PAddr)
    requires
        v.frames_ok(),
        page_aligned(paddr),
        v.behind_cursor(paddr),
        v.ref_count(paddr) < usize::MAX,
    ensures
        v.mark_used(paddr).frames_ok(),
{
    let w = v.mark_used(paddr);
    let frame = frame_of(paddr);
    assert(frame * PAGE_SIZE == paddr);
    assert forall|f: u64|
            #![trigger w.frames.is_used(f)]
            #![trigger w.frames.count(f)]
            w.frame_ok(f) by {
            assert(v.frame_ok(f));
        if f != frame {
            assert(w.frames.is_used(f) == v.frames.is_used(f));
            assert(w.frames.count(f) == v.frames.count(f));
        }
    }
}

/// Two different frame addresses lie in different frames.
proof fn lemma_distinct_frames(p: PAddr, q: PAddr)
    requires
        page_aligned(p),
        page_aligned(q),
        p != q,
    ensures
        frame_of(p) != frame_of(q),
{
}

/// Backing a page keeps the allocator's invariant.
pub proof fn lemma_allocate(v: PhysView)
    requires
        v.wf(),
    ensures
        v.allocate().0.wf(),
{
    let (w, chosen) = v.allocate();
    if v.free_stack.len() > 0 {
        let paddr = v.free_stack.last();
        let popped = PhysView { free_stack: v.free_stack.drop_last(), ..v };
        assert(v.reusable(v.free_stack[v.free_stack.len() - 1]));
        assert(popped.frames_ok());
        lemma_mark_used_frames_ok(popped, paddr);
        assert(w.free_stack.no_duplicates());
        assert forall|k: int| 0 <= k < w.free_stack.len() implies w.reusable(
            #[trigger] w.free_stack[k],
        ) by {
            assert(v.reusable(v.free_stack[k]));
            lemma_distinct_frames(v.free_stack[k], paddr);
        }
    } else {
        lemma_allocate_range(v);
        let (stepped, paddr) = v.allocate_range();
        if paddr != NOPAGE {
            lemma_mark_used_frames_ok(stepped, paddr);
            assert forall|k: int| 0 <= k < w.free_stack.len() implies w.reusable(
                #[trigger] w.free_stack[k],
            ) by {
                assert(stepped.reusable(stepped.free_stack[k]));
                assert(v.free_stack[k] != paddr);
                lemma_distinct_frames(v.free_stack[k], paddr);
            }
        }
    }
}

/// Marking a frame as in use for a new holder keeps the allocator's
/// invariant when the frame was handed out before and is not held for reuse.
pub proof fn lemma_from_addr(v: PhysView, addr: PAddr)
    requires
        v.wf(),
        v.behind_cursor(frame_base(addr)),
        !v.free_stack.contains(frame_base(addr)),
        v.ref_count(addr) < usize::MAX,
    ensures
        v.mark_used(addr).wf(),
{
    let w = v.mark_used(addr);
    let base = frame_base(addr);
    assert(frame_of(base) == frame_of(addr)) by {
        assert(base == 0x1000 * (addr / 0x1000));
    }
    assert(w == v.mark_used(base));
    lemma_mark_used_frames_ok(v, base);
    assert forall|k: int| 0 <= k < w.free_stack.len() implies w.reusable(
        #[trigger] w.free_stack[k],
    ) by {
        assert(v.reusable(v.free_stack[k]));
        assert(v.free_stack.contains(v.free_stack[k]));
        lemma_distinct_frames(v.free_stack[k], base);
    }
}

/// Taking a reference keeps the allocator's invariant, as long as the count
/// stays below the largest count that the table can hold.
pub proof fn lemma_ref_frame(v: PhysView, paddr: PAddr)
    requires
        v.wf(),
        v.is_ram(paddr) ==> v.ref_count(paddr) + 1 < usize::MAX,
    ensures
        v.ref_frame(paddr).wf(),
{
    let w = v.ref_frame(paddr);
    let frame = frame_of(paddr);
    if v.is_ram(paddr) {
        assert forall|f: u64|
            #![trigger w.frames.is_used(f)]
            #![trigger w.frames.count(f)]
            w.frame_ok(f) by {
            assert(v.frame_ok(f));
            assert(w.frames.is_used(f) == v.frames.is_used(f));
            if f != frame {
                assert(w.frames.count(f) == v.frames.count(f));
            }
        }
        assert forall|k: int| 0 <= k < w.free_stack.len() implies w.reusable(
            #[trigger] w.free_stack[k],
        ) by {
            assert(v.reusable(v.free_stack[k]));
        }
    }
}

/// The frame of an address in real memory lies in real memory as a whole.
pub proof fn lemma_frame_base_is_ram(map: Seq<MemoryMapEnt>, paddr: PAddr)
    requires
        valid_map(map),
        map_is_ram(map, paddr),
    ensures
        map_is_ram(map, frame_base(paddr)),
        page_aligned(frame_base(paddr)),
        frame_of(frame_base(paddr)) == frame_of(paddr),
        frame_of(paddr) * PAGE_SIZE == frame_base(paddr),
{
    let i = choose|i: int|
        0 <= i < map.len() && (#[trigger] map[i]).contains(paddr) && map[i].is_ram();
    assert(map[i].whole());
    let start = map[i].start;
    assert(start <= frame_base(paddr)) by {
        assert(start == 0x1000 * (start / 0x1000));
        assert(frame_base(paddr) == 0x1000 * (paddr / 0x1000));
        assert(start / 0x1000 <= paddr / 0x1000);
    }
    assert(map[i].contains(frame_base(paddr)));
}

/// Dropping a reference keeps the allocator's invariant.
pub proof fn lemma_deref_frame(v: PhysView, paddr: PAddr)
    requires
        v.wf(),
    ensures
        v.deref_frame(paddr).wf(),
{
    let w = v.deref_frame(paddr);
    let frame = frame_of(paddr);
    let base = frame_base(paddr);
    if v.is_ram(paddr) {
        lemma_frame_base_is_ram(v.entries(), paddr);
        let freed = v.frames.deref_frame(frame).count(frame) == 0 && v.frames.is_used(frame);
        assert forall|f: u64|
            #![trigger w.frames.is_used(f)]
            #![trigger w.frames.count(f)]
            w.frame_ok(f) by {
            assert(v.frame_ok(f));
            if f != frame {
                assert(w.frames.is_used(f) == v.frames.is_used(f));
                assert(w.frames.count(f) == v.frames.count(f));
            } else {
                assert(w.frames.count(f) <= v.frames.count(f));
                assert(w.frames.is_used(f) ==> v.frames.is_used(f));
            }
        }
        if freed {
            assert(v.frame_ok(frame));
            assert forall|k: int| 0 <= k < v.free_stack.len() implies v.free_stack[k] != base by {
                assert(v.reusable(v.free_stack[k]));
            }
            assert(w.free_stack.no_duplicates());
            assert forall|k: int| 0 <= k < w.free_stack.len() implies w.reusable(
                #[trigger] w.free_stack[k],
            ) by {
                if k < v.free_stack.len() {
                    assert(v.reusable(v.free_stack[k]));
                }
            }
        } else {
            assert forall|k: int| 0 <= k < w.free_stack.len() implies w.reusable(
                #[trigger] w.free_stack[k],
            ) by {
                assert(v.reusable(v.free_stack[k]));
            }
        }
    }
}

} // verus!
