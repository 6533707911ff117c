//! Per-frame bookkeeping: a reference count and an in-use mark for every
//! physical frame, addressed by frame number.
//!
//! A kernel may leave these counts to its architecture layer. Here the
//! allocator keeps them itself, in a table of its own beside the frames, so
//! that what it promises about references and reuse rests on counts that it
//! can account for. The price is the memory of the table.
//!
//! The table is sparse: a frame that was never touched has no references and
//! is not in use.

use std::collections::HashMap;
use vstd::prelude::*;

verus! {

/// What the table stores for one frame.
#[derive(Clone, Copy)]
struct FrameInfo {
    refs: usize,
    used: bool,
}

/// Mathematical state of a [`FrameTable`].
pub struct FramesView {
    /// Number of references held on each frame; defined for every frame number.
    pub refs: Map<u64, nat>,
    /// The frames that are marked as in use.
    pub used: Set<u64>,
}

impl FramesView {
    /// The table in which no frame is referenced or in use.
    pub open spec fn empty() -> FramesView {
        FramesView { refs: Map::total(|f: u64| 0nat), used: Set::empty() }
    }

    /// Number of references held on `frame`.
    pub open spec fn count(self, frame: u64) -> nat {
        self.refs[frame]
    }

    /// Whether `frame` is marked as in use.
    pub open spec fn is_used(self, frame: u64) -> bool {
        self.used.contains(frame)
    }

    /// A frame is free-eligible when nothing references it.
    pub open spec fn free_eligible(self, frame: u64) -> bool {
        self.count(frame) == 0
    }

    /// Number of references beyond the first.
    pub open spec fn multiref_count(self, frame: u64) -> nat {
        if self.count(frame) > 0 {
            (self.count(frame) - 1) as nat
        } else {
            0
        }
    }

    /// The table after one more reference to `frame` was taken.
    pub open spec fn ref_frame(self, frame: u64) -> FramesView {
        FramesView { refs: self.refs.insert(frame, self.count(frame) + 1), used: self.used }
    }

    /// The table after one reference to `frame` was dropped. A frame without
    /// references stays as it is.
    pub open spec fn deref_frame(self, frame: u64) -> FramesView {
        if self.count(frame) > 0 {
            FramesView {
                refs: self.refs.insert(frame, (self.count(frame) - 1) as nat),
                used: self.used,
            }
        } else {
            self
        }
    }

    /// The table after `frame` was marked as in use.
    pub open spec fn mark_used(self, frame: u64) -> FramesView {
        FramesView { refs: self.refs, used: self.used.insert(frame) }
    }

    /// The table after `frame` was marked as free.
    pub open spec fn mark_free(self, frame: u64) -> FramesView {
        FramesView { refs: self.refs, used: self.used.remove(frame) }
    }
}

/// Reference counts and in-use marks of the physical frames.
pub struct FrameTable {
    frames: HashMap<u64, FrameInfo>,
}

impl View for FrameTable {
    type V = FramesView;

    closed spec fn view(&self) -> FramesView {
        FramesView {
            refs: Map::total(
                |f: u64|
                    if self.frames@.contains_key(f) {
                        self.frames@[f].refs as nat
                    } else {
                        0nat
                    },
            ),
            used: Set::new(|f: u64| self.frames@.contains_key(f) && self.frames@[f].used),
        }
    }
}

impl FrameTable {
    /// Creates a table in which no frame is referenced or in use.
    pub fn new() -> (table: FrameTable)
        ensures
            table@ == FramesView::empty(),
    {
        let table = FrameTable { frames: HashMap::new() };
        assert(table@.refs =~= FramesView::empty().refs);
        assert(table@.used =~= FramesView::empty().used);
        table
    }

    /// What is stored for `frame`, or the blank record if nothing is.
    fn info(&self, frame: u64) -> (info: FrameInfo)
        ensures
            info.refs == self@.count(frame),
            info.used == self@.is_used(frame),
    {
        match self.frames.get(&frame) {
            Some(info) => *info,
            None => FrameInfo { refs: 0, used: false },
        }
    }

    /// Number of references held on `frame`.
    pub fn ref_count(&self, frame: u64) -> (count: usize)
        ensures
            count == self@.count(frame),
    {
        self.info(frame).refs
    }

    /// Whether `frame` is marked as in use.
    pub fn is_used(&self, frame: u64) -> (used: bool)
        ensures
            used == self@.is_used(frame),
    {
        self.info(frame).used
    }

    /// Number of references held on `frame` beyond the first.
    pub fn get_multiref_count(&self, frame: u64) -> (count: usize)
        ensures
            count == self@.multiref_count(frame),
    {
        let refs = self.info(frame).refs;
        if refs > 0 {
            refs - 1
        } else {
            0
        }
    }

    /// Takes one more reference to `frame`.
    pub fn ref_frame(&mut self, frame: u64)
        requires
            old(self)@.count(frame) < usize::MAX,
        ensures
            final(self)@ == old(self)@.ref_frame(frame),
    {
        let info = self.info(frame);
        self.frames.insert(frame, FrameInfo { refs: info.refs + 1, used: info.used });
        assert(self@.refs =~= old(self)@.ref_frame(frame).refs);
        assert(self@.used =~= old(self)@.ref_frame(frame).used);
    }

    /// Drops one reference to `frame` and returns how many remain. Dropping a
    /// reference that was never taken changes nothing and returns zero.
    pub fn deref_frame(&mut self, frame: u64) -> (remaining: usize)
        ensures
            final(self)@ == old(self)@.deref_frame(frame),
            remaining == final(self)@.count(frame),
    {
        let info = self.info(frame);
        if info.refs == 0 {
            return 0;
        }
        self.frames.insert(frame, FrameInfo { refs: info.refs - 1, used: info.used });
        assert(self@.refs =~= old(self)@.deref_frame(frame).refs);
        assert(self@.used =~= old(self)@.deref_frame(frame).used);
        info.refs - 1
    }

    /// Marks `frame` as in use.
    pub fn mark_used(&mut self, frame: u64)
        ensures
            final(self)@ == old(self)@.mark_used(frame),
    {
        let info = self.info(frame);
        self.frames.insert(frame, FrameInfo { refs: info.refs, used: true });
        assert(self@.refs =~= old(self)@.mark_used(frame).refs);
        assert(self@.used =~= old(self)@.mark_used(frame).used);
    }

    /// Marks `frame` as free. Returns whether the frame had been in use; a
    /// frame that was not is left alone.
    pub fn mark_free(&mut self, frame: u64) -> (was_used: bool)
        ensures
            was_used == old(self)@.is_used(frame),
            final(self)@ == old(self)@.mark_free(frame),
    {
        let info = self.info(frame);
        if !info.used {
            assert(self@.used =~= old(self)@.mark_free(frame).used);
            return false;
        }
        self.frames.insert(frame, FrameInfo { refs: info.refs, used: false });
        assert(self@.refs =~= old(self)@.mark_free(frame).refs);
        assert(self@.used =~= old(self)@.mark_free(frame).used);
        true
    }
}

} // verus!
