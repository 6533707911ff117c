//! What holds of the physical memory manager over whole runs of calls.
//!
//! Every statement is made over the mathematical state of the allocator, with
//! the same functions that the contracts of the operations use.

use crate::memory::preservation::{
    lemma_allocate, lemma_allocate_range, lemma_deref_frame, lemma_next_free,
};
use crate::memory::memorymap::{valid_map, MemoryMapEnt};
use crate::memory::model::{
    frame_base, frame_of, is_free_frame, next_free, page_aligned, PhysView,
};
use crate::memory::phys::{PAddr, ProtectionMode, NOPAGE};
use crate::PAGE_SIZE;
use vstd::prelude::*;

verus! {

impl PhysView {
    /// The state after `n` steps of the cursor.
    pub open spec fn allocate_range_n(self, n: nat) -> PhysView
        decreases n,
    {
        if n == 0 {
            self
        } else {
            self.allocate_range_n((n - 1) as nat).allocate_range().0
        }
    }

    /// What the step of the cursor that follows `n` earlier ones hands out.
    pub open spec fn nth_page(self, n: nat) -> PAddr {
        self.allocate_range_n(n).allocate_range().1
    }

    /// The state after `n` more references to the frame of `paddr` were taken.
    pub open spec fn ref_frame_n(self, paddr: PAddr, n: nat) -> PhysView
        decreases n,
    {
        if n == 0 {
            self
        } else {
            self.ref_frame_n(paddr, (n - 1) as nat).ref_frame(paddr)
        }
    }

    /// The state after `n` references to the frame of `paddr` were dropped.
    pub open spec fn deref_frame_n(self, paddr: PAddr, n: nat) -> PhysView
        decreases n,
    {
        if n == 0 {
            self
        } else {
            self.deref_frame_n(paddr, (n - 1) as nat).deref_frame(paddr)
        }
    }
}

/// Any number of steps of the cursor keeps the allocator's invariant, leaves
/// everything but the cursor alone, and never lets the cursor come back to an
/// address that it has passed.
pub proof fn lemma_allocate_range_n(v: PhysView, n: nat)
    requires
        v.wf(),
    ensures
        v.allocate_range_n(n).wf(),
        v.allocate_range_n(n).map == v.map,
        v.allocate_range_n(n).free_stack == v.free_stack,
        v.allocate_range_n(n).frames == v.frames,
        v.allocate_range_n(n).index >= v.index,
        forall|q: PAddr| v.behind_cursor(q) ==> v.allocate_range_n(n).behind_cursor(q),
        v.exhausted() ==> v.allocate_range_n(n) == v,
    decreases n,
{
    if n > 0 {
        lemma_allocate_range_n(v, (n - 1) as nat);
        lemma_allocate_range(v.allocate_range_n((n - 1) as nat));
    }
}

/// Steps of the cursor can be counted from either end.
pub proof fn lemma_allocate_range_n_split(v: PhysView, m: nat, n: nat)
    ensures
        v.allocate_range_n(m + n) == v.allocate_range_n(m).allocate_range_n(n),
    decreases n,
{
    if n > 0 {
        lemma_allocate_range_n_split(v, m, (n - 1) as nat);
    }
}

/// Repeated single-frame requests to the cursor return strictly increasing
/// addresses of whole frames: of two requests, the later one is answered with
/// an address at least one frame above the earlier answer.
pub proof fn theorem_pages_increase(v: PhysView, m: nat, n: nat)
    requires
        v.wf(),
        m < n,
        v.nth_page(n) != NOPAGE,
    ensures
        v.nth_page(m) != NOPAGE,
        page_aligned(v.nth_page(m)),
        page_aligned(v.nth_page(n)),
        v.nth_page(m) + PAGE_SIZE <= v.nth_page(n),
{
    let before_m = v.allocate_range_n(m);
    let after_m = v.allocate_range_n(m + 1);
    let before_n = v.allocate_range_n(n);
    lemma_allocate_range_n(v, m);
    lemma_allocate_range(before_m);
    lemma_allocate_range_n(v, n);
    lemma_allocate_range(before_n);
    lemma_allocate_range_n_split(v, m + 1, (n - m - 1) as nat);
    lemma_allocate_range_n(after_m, (n - m - 1) as nat);
    assert(before_n == after_m.allocate_range_n((n - m - 1) as nat));
    assert(!before_n.exhausted());
    assert(!after_m.exhausted());
    assert(after_m.behind_cursor(v.nth_page(m)));
    assert(before_n.behind_cursor(v.nth_page(m)));
}

/// Within one region the cursor hands out frame after frame: when two
/// requests in a row are answered from the same region, the second answer
/// lies exactly one frame above the first.
pub proof fn theorem_pages_stride(v: PhysView, n: nat)
    requires
        v.wf(),
        v.nth_page(n + 1) != NOPAGE,
        v.allocate_range_n(n + 2).index == v.allocate_range_n(n + 1).index,
    ensures
        v.nth_page(n + 1) == v.nth_page(n) + PAGE_SIZE,
{
    lemma_allocate_range_n(v, n);
    lemma_allocate_range(v.allocate_range_n(n));
    lemma_allocate_range_n(v, n + 1);
    lemma_allocate_range(v.allocate_range_n(n + 1));
    theorem_pages_increase(v, n, n + 1);
    lemma_next_free(v.entries(), v.allocate_range_n(n + 1).index + 1);
}

/// Once the map is used up, every later request is answered with the "no
/// page" address and leaves the allocator as it is.
pub proof fn theorem_exhaustion_is_final(v: PhysView, m: nat, n: nat)
    requires
        v.wf(),
        m <= n,
        v.nth_page(m) == NOPAGE,
    ensures
        v.nth_page(n) == NOPAGE,
        v.allocate_range_n(n + 1) == v.allocate_range_n(m + 1),
{
    let after_m = v.allocate_range_n(m + 1);
    lemma_allocate_range_n(v, m);
    lemma_allocate_range(v.allocate_range_n(m));
    assert(after_m.exhausted());
    lemma_allocate_range_n_split(v, m + 1, (n - m) as nat);
    lemma_allocate_range_n(after_m, (n - m) as nat);
    lemma_allocate_range_n(after_m, (n - m + 1) as nat);
    lemma_allocate_range_n_split(v, m + 1, (n - m - 1) as nat);
    if m < n {
        lemma_allocate_range_n(after_m, (n - m - 1) as nat);
    }
}

/// The cursor hands out free memory only: its answer is the "no page"
/// address or a whole frame of a free region, and regions that are not free
/// are passed over.
pub proof fn theorem_pages_are_free_memory(v: PhysView)
    requires
        v.wf(),
    ensures
        v.allocate_range().1 == NOPAGE || is_free_frame(v.entries(), v.allocate_range().1),
        v.allocate_range().1 != NOPAGE ==> v.is_ram(v.allocate_range().1),
{
    lemma_allocate_range(v);
}

/// Taking and dropping references to a frame of real memory adds up: after
/// `n` references were taken and `k` of them dropped, the count stands
/// `n - k` above where it stood. While fewer were dropped than taken the
/// frame is not free-eligible and does not reach the stack of reclaimed
/// frames; when the last of them is dropped, a frame that was unreferenced at
/// the start is free-eligible again.
pub proof fn theorem_ref_deref_balance(v: PhysView, paddr: PAddr, n: nat, k: nat)
    requires
        v.wf(),
        v.is_ram(paddr),
        n >= 1,
        k <= n,
    ensures
        v.ref_frame_n(paddr, n).deref_frame_n(paddr, k).ref_count(paddr) == v.ref_count(paddr)
            + n - k,
        k < n ==> !v.ref_frame_n(paddr, n).deref_frame_n(paddr, k).frames.free_eligible(
            frame_of(paddr),
        ),
        k < n ==> v.ref_frame_n(paddr, n).deref_frame_n(paddr, k).free_stack == v.free_stack,
        k == n && v.ref_count(paddr) == 0 ==> v.ref_frame_n(paddr, n).deref_frame_n(
            paddr,
            k,
        ).frames.free_eligible(frame_of(paddr)),
{
    lemma_ref_frame_n(v, paddr, n);
    lemma_deref_frame_n(v.ref_frame_n(paddr, n), paddr, k);
}

/// Taking `n` references changes the count of the frame by `n` and nothing
/// else.
pub proof fn lemma_ref_frame_n(v: PhysView, paddr: PAddr, n: nat)
    requires
        v.is_ram(paddr),
    ensures
        v.ref_frame_n(paddr, n).ref_count(paddr) == v.ref_count(paddr) + n,
        v.ref_frame_n(paddr, n).map == v.map,
        v.ref_frame_n(paddr, n).free_stack == v.free_stack,
        v.ref_frame_n(paddr, n).frames.used == v.frames.used,
        v.ref_frame_n(paddr, n).index == v.index,
        v.ref_frame_n(paddr, n).addr == v.addr,
    decreases n,
{
    if n > 0 {
        lemma_ref_frame_n(v, paddr, (n - 1) as nat);
    }
}

/// Dropping `k` references from a frame that has at least `k` lowers the
/// count by `k`. The stack of reclaimed frames stays as it is while the count
/// is above zero.
pub proof fn lemma_deref_frame_n(v: PhysView, paddr: PAddr, k: nat)
    requires
        v.is_ram(paddr),
        k <= v.ref_count(paddr),
    ensures
        v.deref_frame_n(paddr, k).ref_count(paddr) == v.ref_count(paddr) - k,
        v.deref_frame_n(paddr, k).map == v.map,
        v.deref_frame_n(paddr, k).index == v.index,
        v.deref_frame_n(paddr, k).addr == v.addr,
        k < v.ref_count(paddr) ==> v.deref_frame_n(paddr, k).free_stack == v.free_stack
            && v.deref_frame_n(paddr, k).frames.used == v.frames.used,
    decreases k,
{
    if k > 0 {
        lemma_deref_frame_n(v, paddr, (k - 1) as nat);
    }
}

/// A frame that is released is the next one to be handed out.
///
/// When a frame of real memory that is in use loses its last reference, it
/// goes on top of the stack of reclaimed frames, and the next page to be
/// backed gets this frame while the cursor stays where it is.
pub proof fn theorem_released_frame_is_reused(v: PhysView, paddr: PAddr)
    requires
        v.wf(),
        v.is_ram(paddr),
        v.frames.is_used(frame_of(paddr)),
    ensures
        ({
            let released = v.deref_frame_n(paddr, v.ref_count(paddr));
            &&& released.wf()
            &&& released.free_stack == v.free_stack.push(frame_base(paddr))
            &&& released.allocate().1 == Some((frame_base(paddr), ProtectionMode::KernelRO))
            &&& released.allocate().0.index == v.index
            &&& released.allocate().0.addr == v.addr
            &&& released.allocate().0.free_stack == v.free_stack
        }),
{
    let count = v.ref_count(paddr);
    let last = v.deref_frame_n(paddr, (count - 1) as nat);
    let released = v.deref_frame_n(paddr, count);
    assert(count >= 1);
    lemma_deref_frame_n(v, paddr, (count - 1) as nat);
    lemma_deref_frame_n_wf(v, paddr, (count - 1) as nat);
    lemma_deref_frame(last, paddr);
    assert(released == last.deref_frame(paddr));
    assert(last.ref_count(paddr) == 1);
    assert(last.frames.is_used(frame_of(paddr)));
    assert(released.free_stack == v.free_stack.push(frame_base(paddr)));
    assert(released.free_stack.last() == frame_base(paddr));
    assert(released.free_stack.drop_last() == v.free_stack);
}

/// Dropping references keeps the allocator's invariant.
pub proof fn lemma_deref_frame_n_wf(v: PhysView, paddr: PAddr, k: nat)
    requires
        v.wf(),
    ensures
        v.deref_frame_n(paddr, k).wf(),
    decreases k,
{
    if k > 0 {
        lemma_deref_frame_n_wf(v, paddr, (k - 1) as nat);
        lemma_deref_frame(v.deref_frame_n(paddr, (k - 1) as nat), paddr);
    }
}

/// Backing a page, releasing its frame and backing a page again gives the
/// same frame twice, and the cursor does not move for the second.
pub proof fn theorem_allocate_release_allocate(v: PhysView)
    requires
        v.wf(),
        v.allocate().1 is Some,
    ensures
        ({
            let (backed, first) = v.allocate();
            let paddr = first.unwrap().0;
            let released = backed.deref_frame_n(paddr, backed.ref_count(paddr));
            &&& released.allocate().1 == Some((paddr, ProtectionMode::KernelRO))
            &&& released.allocate().0.index == backed.index
            &&& released.allocate().0.addr == backed.addr
        }),
{
    let (backed, first) = v.allocate();
    let paddr = first.unwrap().0;
    lemma_allocate(v);
    lemma_allocate_range(v);
    if v.free_stack.len() > 0 {
        assert(v.reusable(v.free_stack[v.free_stack.len() - 1]));
    }
    assert(page_aligned(paddr));
    assert(frame_base(paddr) == paddr);
    assert(backed.frames.is_used(frame_of(paddr)));
    theorem_released_frame_is_reused(backed, paddr);
}

/// A page is backed by a frame that nothing else holds: the frame that is
/// chosen was not in use, is in use afterwards with one reference more than
/// it had, and is neither held for reuse nor ahead of the cursor any more.
pub proof fn theorem_allocate_gives_unused_frame(v: PhysView)
    requires
        v.wf(),
        v.allocate().1 is Some,
    ensures
        ({
            let (backed, chosen) = v.allocate();
            let paddr = chosen.unwrap().0;
            &&& backed.wf()
            &&& page_aligned(paddr)
            &&& !v.frames.is_used(frame_of(paddr))
            &&& backed.frames.is_used(frame_of(paddr))
            &&& backed.ref_count(paddr) == v.ref_count(paddr) + 1
            &&& !backed.free_stack.contains(paddr)
            &&& backed.behind_cursor(paddr)
        }),
{
    let (backed, chosen) = v.allocate();
    let paddr = chosen.unwrap().0;
    lemma_allocate(v);
    lemma_allocate_range(v);
    if v.free_stack.len() > 0 {
        assert(v.reusable(v.free_stack[v.free_stack.len() - 1]));
        if backed.free_stack.contains(paddr) {
            let k = choose|k: int| 0 <= k < backed.free_stack.len() && backed.free_stack[k] == paddr;
            assert(v.free_stack[k] == paddr);
        }
    }
}

/// The addresses of the frames from `from` up to `end`, in ascending order.
pub open spec fn frames_between(from: int, end: int) -> Seq<PAddr> {
    Seq::new(
        if end > from {
            ((end - from) / (PAGE_SIZE as int)) as nat
        } else {
            0
        },
        |k: int| (from + k * PAGE_SIZE) as u64,
    )
}

/// The addresses of all frames of the free regions of `map` from region
/// `from` on, in ascending order.
pub open spec fn free_pages_from(map: Seq<MemoryMapEnt>, from: nat) -> Seq<PAddr>
    decreases map.len() - from,
{
    if from >= map.len() {
        Seq::empty()
    } else if map[from as int].state is Free {
        frames_between(map[from as int].start as int, map[from as int].end()) + free_pages_from(
            map,
            from + 1,
        )
    } else {
        free_pages_from(map, from + 1)
    }
}

/// The addresses of all frames of the free regions of `map`, in ascending
/// order.
pub open spec fn free_pages(map: Seq<MemoryMapEnt>) -> Seq<PAddr> {
    free_pages_from(map, 0)
}

impl PhysView {
    /// The frames that the cursor has yet to hand out, in the order in which
    /// it will: the rest of its region, then every free region behind it.
    pub open spec fn pages_left(self) -> Seq<PAddr> {
        if self.exhausted() {
            Seq::empty()
        } else {
            frames_between(self.addr as int, self.entries()[self.index as int].end())
                + free_pages_from(self.entries(), self.index + 1)
        }
    }
}

/// Regions that are not free hold none of the free pages.
pub proof fn lemma_free_pages_skip(map: Seq<MemoryMapEnt>, from: nat)
    requires
        from <= map.len(),
    ensures
        free_pages_from(map, from) == free_pages_from(map, next_free(map, from)),
    decreases map.len() - from,
{
    if from < map.len() && !(map[from as int].state is Free) {
        lemma_free_pages_skip(map, from + 1);
    }
}

/// The frames between two frame addresses begin with the lower address, and
/// the rest are the frames from one frame further on.
pub proof fn lemma_frames_between(from: PAddr, end: int)
    requires
        page_aligned(from),
        end % (PAGE_SIZE as int) == 0,
        from <= end <= u64::MAX,
    ensures
        from == end ==> frames_between(from as int, end) == Seq::<PAddr>::empty(),
        from < end ==> frames_between(from as int, end).len() > 0 && frames_between(
            from as int,
            end,
        )[0] == from && frames_between(from + PAGE_SIZE, end) == frames_between(
            from as int,
            end,
        ).skip(1),
{
    if from < end {
        let all = frames_between(from as int, end);
        let rest = frames_between(from + PAGE_SIZE, end);
        assert(from + PAGE_SIZE <= end);
        assert(rest.len() == all.len() - 1);
        assert forall|k: int| 0 <= k < rest.len() implies rest[k] == all.skip(1)[k] by {
            assert(from + PAGE_SIZE + k * PAGE_SIZE == from + (k + 1) * PAGE_SIZE)
                by (nonlinear_arith);
        }
        assert(rest =~= all.skip(1));
    } else {
        assert(frames_between(from as int, end) =~= Seq::<PAddr>::empty());
    }
}

/// One step of the cursor hands out the first of the frames that are left
/// and leaves the others, in their order; with none left it hands out
/// nothing.
pub proof fn lemma_step_takes_first_page(v: PhysView)
    requires
        v.wf(),
    ensures
        v.pages_left().len() == 0 ==> v.allocate_range().1 == NOPAGE && v.allocate_range().0
            .pages_left() == Seq::<PAddr>::empty(),
        v.pages_left().len() > 0 ==> v.allocate_range().1 == v.pages_left()[0]
            && v.allocate_range().0.pages_left() == v.pages_left().skip(1),
{
    let map = v.entries();
    let (w, page) = v.allocate_range();
    lemma_allocate_range(v);
    if v.index < map.len() {
        let cur = map[v.index as int];
        assert(cur.whole());
        let behind = free_pages_from(map, v.index + 1);
        lemma_frames_between(v.addr, cur.end());
        if v.addr >= cur.end() {
            let next = next_free(map, v.index + 1);
            lemma_next_free(map, v.index + 1);
            lemma_free_pages_skip(map, v.index + 1);
            assert(v.pages_left() =~= behind);
            if next < map.len() {
                let found = map[next as int];
                assert(found.whole());
                lemma_frames_between(found.start, found.end());
                let here = frames_between(found.start as int, found.end());
                let after = free_pages_from(map, next + 1);
                assert(behind == here + after);
                assert(w.pages_left() == frames_between(found.start + PAGE_SIZE, found.end())
                    + after);
                assert(w.pages_left() =~= v.pages_left().skip(1));
            } else {
                assert(behind =~= Seq::<PAddr>::empty());
            }
        } else {
            let here = frames_between(v.addr as int, cur.end());
            assert(w.pages_left() == frames_between(v.addr + PAGE_SIZE, cur.end()) + behind);
            assert(w.pages_left() =~= v.pages_left().skip(1));
        }
    }
}

/// The cursor hands out the frames that are left, each once and in order:
/// the request that follows `n` earlier ones is answered with frame `n` of
/// them, and with the "no page" address once they are used up.
pub proof fn theorem_pages_in_order(v: PhysView, n: nat)
    requires
        v.wf(),
    ensures
        v.allocate_range_n(n).wf(),
        n <= v.pages_left().len() ==> v.allocate_range_n(n).pages_left() == v.pages_left().skip(
            n as int,
        ),
        n >= v.pages_left().len() ==> v.allocate_range_n(n).pages_left() == Seq::<PAddr>::empty(),
        n < v.pages_left().len() ==> v.nth_page(n) == v.pages_left()[n as int],
        n >= v.pages_left().len() ==> v.nth_page(n) == NOPAGE,
    decreases n,
{
    lemma_allocate_range_n(v, n);
    if n > 0 {
        let before = v.allocate_range_n((n - 1) as nat);
        theorem_pages_in_order(v, (n - 1) as nat);
        lemma_step_takes_first_page(before);
        if n <= v.pages_left().len() {
            assert(v.pages_left().skip(n - 1).skip(1) =~= v.pages_left().skip(n as int));
        }
    } else {
        assert(v.pages_left().skip(0) =~= v.pages_left());
    }
    lemma_step_takes_first_page(v.allocate_range_n(n));
    if n == v.pages_left().len() {
        assert(v.pages_left().skip(n as int) =~= Seq::<PAddr>::empty());
    }
}

/// From a fresh allocator, repeated single-frame requests are answered with
/// exactly the frames of the free regions of the map, in ascending order,
/// and then with the "no page" address.
pub proof fn theorem_fresh_cursor_hands_out_free_pages(map: Seq<MemoryMapEnt>, n: nat)
    requires
        valid_map(map),
    ensures
        PhysView::blank().init(map).wf(),
        PhysView::blank().init(map).pages_left() == free_pages(map),
        n < free_pages(map).len() ==> PhysView::blank().init(map).nth_page(n) == free_pages(
            map,
        )[n as int],
        n >= free_pages(map).len() ==> PhysView::blank().init(map).nth_page(n) == NOPAGE,
{
    let v = PhysView::blank().init(map);
    lemma_next_free(map, 0);
    lemma_free_pages_skip(map, 0);
    let first = next_free(map, 0);
    if first < map.len() {
        assert(map[first as int].whole());
    } else {
        assert(free_pages_from(map, first) =~= Seq::<PAddr>::empty());
    }
    assert(v.wf());
    theorem_pages_in_order(v, n);
}

} // verus!
