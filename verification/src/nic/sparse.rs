//! Packets to send, given as pieces that lie apart in memory.

use vstd::prelude::*;
use vstd::seq_lib::lemma_flatten_concat;

verus! {

/// A packet to send, as a chain of pieces that lie apart in memory.
pub struct SparsePacket<'a> {
    head: &'a [u8],
    next: Option<&'a SparsePacket<'a>>,
}

impl<'a> SparsePacket<'a> {
    /// The pieces of the packet, in order.
    pub closed spec fn pieces(&self) -> Seq<Seq<u8>>
        decreases self,
    {
        match self.next {
            None => seq![self.head@],
            Some(rest) => seq![self.head@] + rest.pieces(),
        }
    }

    /// A packet that is the one piece `data`.
    pub fn new_root(data: &'a [u8]) -> (packet: SparsePacket<'a>)
        ensures
            packet.pieces() == seq![data@],
    {
        SparsePacket { head: data, next: None }
    }

    /// A packet that is the piece `data` followed by the packet `next`.
    pub fn new_chained(data: &'a [u8], next: &'a SparsePacket<'a>) -> (packet: SparsePacket<'a>)
        ensures
            packet.pieces() == seq![data@] + next.pieces(),
    {
        SparsePacket { head: data, next: Some(next) }
    }

    /// Number of bytes in the packet.
    pub fn total_len(&self) -> (len: usize)
        requires
            self.pieces().flatten().len() <= usize::MAX,
        ensures
            len == self.pieces().flatten().len(),
    {
        let mut s = self;
        let mut rv: usize = 0;
        let ghost mut done: Seq<Seq<u8>> = Seq::empty();
        loop
            invariant_except_break
                self.pieces() == done + s.pieces(),
                rv == done.flatten().len(),
            invariant
                self.pieces().flatten().len() <= usize::MAX,
            ensures
                rv == self.pieces().flatten().len(),
            decreases s,
        {
            proof {
                lemma_flatten_concat(done, s.pieces());
                lemma_flatten_concat(done.push(s.head@), s.pieces().skip(1));
                assert(done.push(s.head@) + s.pieces().skip(1) =~= done + s.pieces());
                done.lemma_flatten_push(s.head@);
            }
            rv += s.head.len();
            proof {
                done = done.push(s.head@);
            }
            match s.next {
                None => {
                    assert(s.pieces() =~= seq![s.head@]);
                    assert(self.pieces() =~= done);
                    break ;
                },
                Some(v) => {
                    assert(s.pieces().skip(1) =~= v.pieces());
                    s = v;
                },
            }
        }
        rv
    }

    /// Starts a walk over the pieces of the packet.
    pub fn into_iter(&'a self) -> (iter: SparsePacketIter<'a>)
        ensures
            iter.rest() == self.pieces(),
    {
        SparsePacketIter(Some(self))
    }
}

/// A walk over the pieces of a [`SparsePacket`].
pub struct SparsePacketIter<'a>(Option<&'a SparsePacket<'a>>);

impl<'a> SparsePacketIter<'a> {
    /// The pieces that the walk has yet to visit.
    pub closed spec fn rest(&self) -> Seq<Seq<u8>> {
        match self.0 {
            None => Seq::empty(),
            Some(p) => p.pieces(),
        }
    }

    /// The next piece, if the walk has not reached the end.
    pub fn next(&mut self) -> (piece: Option<&'a [u8]>)
        ensures
            match piece {
                Some(bytes) => old(self).rest().len() > 0 && bytes@ == old(self).rest()[0]
                    && final(self).rest() == old(self).rest().skip(1),
                None => old(self).rest().len() == 0 && final(self).rest() == old(self).rest(),
            },
    {
        let p = match self.0 {
            None => return None,
            Some(p) => p,
        };
        self.0 = p.next;
        proof {
            match p.next {
                None => {
                    assert(p.pieces().skip(1) =~= Seq::<Seq<u8>>::empty());
                },
                Some(rest) => {
                    assert(p.pieces().skip(1) =~= rest.pieces());
                },
            }
        }
        Some(p.head)
    }
}

} // verus!
