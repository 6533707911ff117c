//! The table of registered network interfaces, and the packet that probes
//! the network for a new one.

use vstd::prelude::*;

verus! {

/// Index of the first empty slot of `list`, or its length if every slot is
/// taken.
pub open spec fn first_empty<T>(list: Seq<Option<T>>) -> int
    decreases list.len(),
{
    if list.len() == 0 {
        0
    } else if list[0] is None {
        0
    } else {
        1 + first_empty(list.skip(1))
    }
}

/// [`first_empty`] is the least index of an empty slot.
pub proof fn lemma_first_empty<T>(list: Seq<Option<T>>)
    ensures
        0 <= first_empty(list) <= list.len(),
        first_empty(list) < list.len() ==> list[first_empty(list)] is None,
        forall|k: int| 0 <= k < first_empty(list) ==> (#[trigger] list[k]) is Some,
    decreases list.len(),
{
    if list.len() > 0 && list[0] is Some {
        lemma_first_empty(list.skip(1));
        assert forall|k: int| 0 <= k < first_empty(list) implies (#[trigger] list[k]) is Some by {
            if k > 0 {
                assert(list.skip(1)[k - 1] == list[k]);
            }
        }
    }
}

/// An index at which a slot is empty and before which none is, is the first
/// empty slot.
pub proof fn lemma_first_empty_is<T>(list: Seq<Option<T>>, at: int)
    requires
        0 <= at <= list.len(),
        at < list.len() ==> list[at] is None,
        forall|k: int| 0 <= k < at ==> (#[trigger] list[k]) is Some,
    ensures
        first_empty(list) == at,
{
    lemma_first_empty(list);
    let found = first_empty(list);
    if found < at {
        assert(list[found] is Some);
    }
}

/// Puts `val` into the first empty slot of `list`, or appends a slot for it
/// if every slot is taken, and returns the index of the slot.
pub fn insert_opt<T>(list: &mut Vec<Option<T>>, val: T) -> (index: usize)
    ensures
        index == first_empty(old(list)@),
        index < old(list)@.len() ==> final(list)@ == old(list)@.update(index as int, Some(val)),
        index == old(list)@.len() ==> final(list)@ == old(list)@.push(Some(val)),
{
    let mut i: usize = 0;
    while i < list.len()
        invariant
            i <= list@.len(),
            list@ == old(list)@,
            forall|k: int| 0 <= k < i ==> (#[trigger] list@[k]) is Some,
        decreases list@.len() - i,
    {
        if list[i].is_none() {
            proof {
                lemma_first_empty_is(list@, i as int);
            }
            list[i] = Some(val);
            return i;
        }
        i += 1;
    }
    proof {
        lemma_first_empty_is(list@, i as int);
    }
    list.push(Some(val));
    list.len() - 1
}

/// The registered network interfaces: a table of slots, each empty or
/// holding what is kept for one interface.
pub struct InterfaceList<T> {
    slots: Vec<Option<T>>,
}

/// Handle to a registered interface: the slot that is kept for it.
pub struct Registration {
    index: usize,
}

impl Registration {
    /// The slot that the registration stands for.
    pub closed spec fn slot(&self) -> usize {
        self.index
    }

    /// The slot that the registration stands for.
    pub fn index(&self) -> (index: usize)
        ensures
            index == self.slot(),
    {
        self.index
    }
}

impl<T> View for InterfaceList<T> {
    type V = Seq<Option<T>>;

    closed spec fn view(&self) -> Seq<Option<T>> {
        self.slots@
    }
}

impl<T> InterfaceList<T> {
    /// Whether `reg` stands for a slot of this list that is taken.
    pub open spec fn holds(&self, reg: &Registration) -> bool {
        reg.slot() < self@.len() && self@[reg.slot() as int] is Some
    }

    /// Creates the list without interfaces.
    pub fn new() -> (list: InterfaceList<T>)
        ensures
            list@ == Seq::<Option<T>>::empty(),
    {
        InterfaceList { slots: Vec::new() }
    }

    /// Number of slots, empty ones included.
    pub fn len(&self) -> (len: usize)
        ensures
            len == self@.len(),
    {
        self.slots.len()
    }

    /// What is kept for the interface in slot `index`, if the slot is taken.
    pub fn get(&self, index: usize) -> (entry: Option<&T>)
        ensures
            match entry {
                Some(found) => index < self@.len() && self@[index as int] == Some(*found),
                None => index >= self@.len() || self@[index as int] is None,
            },
    {
        if index < self.slots.len() {
            self.slots[index].as_ref()
        } else {
            None
        }
    }

    /// Ends a registration: empties its slot and hands back what was kept
    /// for the interface. The registration must be one of this list.
    pub fn unregister(&mut self, reg: Registration) -> (entry: T)
        requires
            old(self).holds(&reg),
        ensures
            Some(entry) == old(self)@[reg.slot() as int],
            final(self)@ == old(self)@.update(reg.slot() as int, None),
    {
        self.slots[reg.index].take().unwrap()
    }
}

/// Registers an interface: what is kept for it, `entry`, goes into the first
/// empty slot of `list`, and the slot is handed back as the registration.
pub fn register<T>(list: &mut InterfaceList<T>, entry: T) -> (reg: Registration)
    ensures
        reg.slot() == first_empty(old(list)@),
        final(list).holds(&reg),
        final(list)@[reg.slot() as int] == Some(entry),
        reg.slot() < old(list)@.len() ==> final(list)@ == old(list)@.update(
            reg.slot() as int,
            Some(entry),
        ),
        reg.slot() == old(list)@.len() ==> final(list)@ == old(list)@.push(Some(entry)),
{
    proof {
        lemma_first_empty(list@);
    }
    let index = insert_opt(&mut list.slots, entry);
    Registration { index }
}

/// Length of the packet that probes the network when an interface is
/// registered.
pub const PROBE_LEN: usize = 42;

/// The bytes of the probe packet, with the sender's hardware address left
/// blank in the Ethernet header.
///
/// It is an ARP request, broadcast, from the hardware address
/// 52:54:00:12:34:56 at 10.0.2.15 for the address 10.0.2.2.
pub open spec fn probe_template() -> Seq<u8> {
    seq![
        0xFF, 0xFF, 0xFF, 0xFF, 0xFF, 0xFF,
        0, 0, 0, 0, 0, 0,
        0x08, 0x06,
        0x00, 0x01,
        0x08, 0x00,
        0x06, 0x04,
        0x00, 0x01,
        0x52, 0x54, 0x00, 0x12, 0x34, 0x56,
        0x0A, 0x00, 0x02, 0x0F,
        0xFF, 0xFF, 0xFF, 0xFF, 0xFF, 0xFF,
        0x0A, 0x00, 0x02, 0x02,
    ]
}

/// Builds the packet that probes the network for an interface with the
/// hardware address `mac_addr`: the template with bytes 6 to 11 set to the
/// address.
pub fn probe_packet(mac_addr: [u8; 6]) -> (pkt: [u8; PROBE_LEN])
    ensures
        pkt@ == probe_template().subrange(0, 6) + mac_addr@ + probe_template().subrange(12, 42),
{
    let mut pkt: [u8; PROBE_LEN] = [
        0xFF, 0xFF, 0xFF, 0xFF, 0xFF, 0xFF,
        0, 0, 0, 0, 0, 0,
        0x08, 0x06,
        0x00, 0x01,
        0x08, 0x00,
        0x06, 0x04,
        0x00, 0x01,
        0x52, 0x54, 0x00, 0x12, 0x34, 0x56,
        0x0A, 0x00, 0x02, 0x0F,
        0xFF, 0xFF, 0xFF, 0xFF, 0xFF, 0xFF,
        0x0A, 0x00, 0x02, 0x02,
    ];
    assert(pkt@ =~= probe_template());
    let mut i: usize = 0;
    while i < 6
        invariant
            i <= 6,
            pkt@ == probe_template().subrange(0, 6) + mac_addr@.subrange(0, i as int)
                + probe_template().subrange(6 + i, 42),
        decreases 6 - i,
    {
        pkt[6 + i] = mac_addr[i];
        i += 1;
        assert(pkt@ =~= probe_template().subrange(0, 6) + mac_addr@.subrange(0, i as int)
            + probe_template().subrange(6 + i, 42));
    }
    assert(mac_addr@.subrange(0, 6) =~= mac_addr@);
    pkt
}

} // verus!
