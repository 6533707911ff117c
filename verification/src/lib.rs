//! Core resource managers of a small kernel: the physical-frame allocator and
//! the cooperative thread scheduler with its wait queues. Beside them stand
//! the packet handling of the network interface layer and the bookkeeping of
//! user-side files and array allocations.
//!
//! Every operation works on an explicitly constructed context object and is
//! stated over a mathematical view of that object, so that the allocation and
//! scheduling rules can be checked independently of any real hardware.

use vstd::prelude::*;

pub mod array;
pub mod lazy_static;
pub mod memory;
pub mod nic;
pub mod threads;
pub mod vfs;

verus! {

/// Size in bytes of one physical frame (and of one virtual page).
pub const PAGE_SIZE: usize = 0x1000;

} // verus!
