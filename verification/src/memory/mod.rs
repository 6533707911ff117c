//! Physical memory: the boot-time memory map and the frame allocator.

pub mod frames;
pub mod memorymap;
pub mod model;
pub mod phys;
pub mod preservation;
pub mod theorems;
