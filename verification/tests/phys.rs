use tifflin_core::memory::frames::FrameTable;
use tifflin_core::memory::memorymap::{is_valid_map, MemoryMapEnt, MemoryState};
use tifflin_core::memory::phys::{
    allocate, allocate_range, allocate_range_bits, deref_frame, get_memory_map, init, is_ram,
    make_unique, ref_frame, within_bits, FrameHandle, PageMapping, PhysMemory, ProtectionMode,
    NOPAGE,
};
use tifflin_core::PAGE_SIZE;

const PAGE: u64 = PAGE_SIZE as u64;

fn ent(start: u64, pages: u64, state: MemoryState) -> MemoryMapEnt {
    MemoryMapEnt { start, size: pages * PAGE, state }
}

fn memory(map: Vec<MemoryMapEnt>) -> PhysMemory {
    assert!(is_valid_map(&map));
    let mut mem = PhysMemory::new();
    init(&mut mem, map);
    mem
}

fn mixed_map() -> Vec<MemoryMapEnt> {
    vec![
        ent(0, 2, MemoryState::Free),
        ent(2 * PAGE, 1, MemoryState::Reserved),
        ent(3 * PAGE, 1, MemoryState::Used),
        ent(8 * PAGE, 2, MemoryState::Free),
    ]
}

#[test]
fn page_size_is_four_kilobytes() {
    assert_eq!(PAGE_SIZE, 0x1000);
    assert_eq!(NOPAGE, 1);
}

#[test]
fn valid_map_accepts_ordered_whole_regions() {
    assert!(is_valid_map(&Vec::new()));
    assert!(is_valid_map(&mixed_map()));
    assert!(is_valid_map(&vec![ent(PAGE, 1, MemoryState::Free), ent(2 * PAGE, 1, MemoryState::Free)]));
}

#[test]
fn valid_map_rejects_unaligned_start() {
    assert!(!is_valid_map(&vec![MemoryMapEnt { start: 0x800, size: PAGE, state: MemoryState::Free }]));
}

#[test]
fn valid_map_rejects_unaligned_size() {
    assert!(!is_valid_map(&vec![MemoryMapEnt { start: 0, size: PAGE + 1, state: MemoryState::Free }]));
}

#[test]
fn valid_map_rejects_empty_region() {
    assert!(!is_valid_map(&vec![MemoryMapEnt { start: 0, size: 0, state: MemoryState::Free }]));
}

#[test]
fn valid_map_rejects_region_past_address_space() {
    assert!(!is_valid_map(&vec![MemoryMapEnt {
        start: u64::MAX - PAGE + 1,
        size: PAGE,
        state: MemoryState::Free,
    }]));
    assert!(is_valid_map(&vec![MemoryMapEnt {
        start: u64::MAX - 2 * PAGE + 1,
        size: PAGE,
        state: MemoryState::Free,
    }]));
}

#[test]
fn valid_map_rejects_overlap_and_disorder() {
    assert!(!is_valid_map(&vec![ent(0, 2, MemoryState::Free), ent(PAGE, 2, MemoryState::Free)]));
    assert!(!is_valid_map(&vec![ent(4 * PAGE, 1, MemoryState::Free), ent(0, 1, MemoryState::Free)]));
}

#[test]
fn init_stores_the_map_and_resets_the_cursor() {
    let mem = memory(mixed_map());
    assert_eq!(get_memory_map(&mem), &mixed_map());
    assert_eq!(mem.alloc_point(), (0, 0));
    assert!(mem.free_stack().is_empty());
}

#[test]
fn allocate_range_walks_one_free_region() {
    let mut mem = memory(vec![ent(0, 3, MemoryState::Free)]);
    assert_eq!(allocate_range(&mut mem, 1), 0);
    assert_eq!(allocate_range(&mut mem, 1), PAGE);
    assert_eq!(allocate_range(&mut mem, 1), 2 * PAGE);
    assert_eq!(allocate_range(&mut mem, 1), NOPAGE);
}

#[test]
fn allocate_range_stays_exhausted() {
    let mut mem = memory(vec![ent(0, 1, MemoryState::Free)]);
    assert_eq!(allocate_range(&mut mem, 1), 0);
    assert_eq!(allocate_range(&mut mem, 1), NOPAGE);
    let frozen = mem.alloc_point();
    assert_eq!(frozen, (1, 0));
    for _ in 0..5 {
        assert_eq!(allocate_range(&mut mem, 1), NOPAGE);
        assert_eq!(mem.alloc_point(), frozen);
    }
}

#[test]
fn allocate_range_skips_regions_that_are_not_free() {
    let mut mem = memory(mixed_map());
    assert_eq!(allocate_range(&mut mem, 1), 0);
    assert_eq!(allocate_range(&mut mem, 1), PAGE);
    assert_eq!(mem.alloc_point(), (0, 2 * PAGE));
    assert_eq!(allocate_range(&mut mem, 1), 8 * PAGE);
    assert_eq!(mem.alloc_point(), (3, 9 * PAGE));
    assert_eq!(allocate_range(&mut mem, 1), 9 * PAGE);
    assert_eq!(allocate_range(&mut mem, 1), NOPAGE);
    assert_eq!(mem.alloc_point(), (4, 0));
}

#[test]
fn allocate_range_results_increase_by_whole_pages() {
    let mut mem = memory(vec![
        ent(0, 4, MemoryState::Free),
        ent(6 * PAGE, 3, MemoryState::Free),
        ent(16 * PAGE, 2, MemoryState::Free),
    ]);
    let mut last: Option<u64> = None;
    let mut count = 0;
    loop {
        let page = allocate_range(&mut mem, 1);
        if page == NOPAGE {
            break;
        }
        assert_eq!(page % PAGE, 0);
        if let Some(prev) = last {
            assert!(page >= prev + PAGE);
        }
        last = Some(page);
        count += 1;
    }
    assert_eq!(count, 9);
    assert_eq!(last, Some(17 * PAGE));
}

#[test]
fn allocate_range_on_empty_map_gives_no_page() {
    let mut mem = memory(Vec::new());
    assert_eq!(allocate_range(&mut mem, 1), NOPAGE);
    assert_eq!(mem.alloc_point(), (0, 0));
}

#[test]
fn allocate_range_passes_over_a_first_region_that_is_not_free() {
    let mut mem = memory(vec![ent(2 * PAGE, 1, MemoryState::Reserved), ent(4 * PAGE, 1, MemoryState::Free)]);
    assert_eq!(mem.alloc_point(), (1, 4 * PAGE));
    assert_eq!(allocate_range(&mut mem, 1), 4 * PAGE);
    assert_eq!(allocate_range(&mut mem, 1), NOPAGE);
}

#[test]
fn allocate_range_starts_at_the_start_of_the_first_free_region() {
    let mut mem = memory(vec![ent(PAGE, 1, MemoryState::Free)]);
    assert_eq!(mem.alloc_point(), (0, PAGE));
    assert_eq!(allocate_range(&mut mem, 1), PAGE);
    assert_eq!(allocate_range(&mut mem, 1), NOPAGE);
}

#[test]
fn allocate_range_without_free_regions_gives_no_page() {
    let mut mem = memory(vec![ent(PAGE, 1, MemoryState::Reserved), ent(2 * PAGE, 3, MemoryState::Used)]);
    assert_eq!(mem.alloc_point(), (2, 0));
    assert_eq!(allocate_range(&mut mem, 1), NOPAGE);
    assert_eq!(mem.alloc_point(), (2, 0));
    assert_eq!(allocate(&mut mem, 0x1000), None);
}

#[test]
fn allocate_range_hands_out_every_free_page_once() {
    let map = vec![
        ent(PAGE, 1, MemoryState::Used),
        ent(2 * PAGE, 2, MemoryState::Free),
        ent(4 * PAGE, 1, MemoryState::Reserved),
        ent(5 * PAGE, 1, MemoryState::Free),
        ent(8 * PAGE, 3, MemoryState::Free),
        ent(11 * PAGE, 1, MemoryState::Used),
    ];
    let mut mem = memory(map);
    let mut seen = Vec::new();
    loop {
        let page = allocate_range(&mut mem, 1);
        if page == NOPAGE {
            break;
        }
        assert!(is_ram(&mem, page));
        seen.push(page / PAGE);
    }
    assert_eq!(seen, vec![2, 3, 5, 8, 9, 10]);
}

#[test]
fn frame_from_a_map_that_starts_above_zero_is_reclaimed() {
    let mut mem = memory(vec![ent(0, 2, MemoryState::Reserved), ent(2 * PAGE, 2, MemoryState::Free)]);
    let first = allocate(&mut mem, 0x1000).unwrap();
    assert_eq!(first.paddr, 2 * PAGE);
    deref_frame(&mut mem, first.paddr);
    assert_eq!(mem.free_stack(), &vec![2 * PAGE]);
    assert_eq!(allocate(&mut mem, 0x2000).unwrap().paddr, 2 * PAGE);
}

#[test]
fn is_ram_tells_real_memory_from_the_rest() {
    let mem = memory(mixed_map());
    assert!(is_ram(&mem, 0));
    assert!(is_ram(&mem, 2 * PAGE - 1));
    assert!(!is_ram(&mem, 2 * PAGE));
    assert!(!is_ram(&mem, 3 * PAGE - 1));
    assert!(is_ram(&mem, 3 * PAGE));
    assert!(!is_ram(&mem, 4 * PAGE));
    assert!(!is_ram(&mem, 7 * PAGE));
    assert!(is_ram(&mem, 8 * PAGE + 5));
    assert!(!is_ram(&mem, 10 * PAGE));
    assert!(!is_ram(&mem, u64::MAX));
}

#[test]
fn allocate_takes_from_the_map_when_nothing_was_released() {
    let mut mem = memory(vec![ent(0, 2, MemoryState::Free)]);
    assert_eq!(
        allocate(&mut mem, 0x7000_0000),
        Some(PageMapping { address: 0x7000_0000, paddr: 0, mode: ProtectionMode::KernelRW })
    );
    assert_eq!(
        allocate(&mut mem, 0x7000_1000),
        Some(PageMapping { address: 0x7000_1000, paddr: PAGE, mode: ProtectionMode::KernelRW })
    );
    assert_eq!(allocate(&mut mem, 0x7000_2000), None);
    assert_eq!(mem.frames().ref_count(0), 1);
    assert_eq!(mem.frames().ref_count(1), 1);
    assert!(mem.frames().is_used(0));
    assert!(mem.frames().is_used(1));
    assert!(!mem.frames().is_used(2));
}

#[test]
fn allocate_deref_allocate_reuses_the_frame() {
    let mut mem = memory(vec![ent(0, 4, MemoryState::Free)]);
    let first = allocate(&mut mem, 0x1000).unwrap();
    let second = allocate(&mut mem, 0x2000).unwrap();
    assert_eq!(first.paddr, 0);
    assert_eq!(second.paddr, PAGE);
    let cursor = mem.alloc_point();
    deref_frame(&mut mem, first.paddr);
    assert_eq!(mem.free_stack(), &vec![0u64]);
    assert_eq!(mem.frames().ref_count(0), 0);
    assert!(!mem.frames().is_used(0));
    let again = allocate(&mut mem, 0x3000).unwrap();
    assert_eq!(again, PageMapping { address: 0x3000, paddr: 0, mode: ProtectionMode::KernelRO });
    assert_eq!(mem.alloc_point(), cursor);
    assert!(mem.free_stack().is_empty());
    assert_eq!(allocate(&mut mem, 0x4000).unwrap().paddr, 2 * PAGE);
}

#[test]
fn released_frames_come_back_last_in_first_out() {
    let mut mem = memory(vec![ent(0, 8, MemoryState::Free)]);
    let a = allocate(&mut mem, 0).unwrap().paddr;
    let b = allocate(&mut mem, 0).unwrap().paddr;
    let c = allocate(&mut mem, 0).unwrap().paddr;
    deref_frame(&mut mem, a);
    deref_frame(&mut mem, c);
    deref_frame(&mut mem, b);
    assert_eq!(mem.free_stack(), &vec![a, c, b]);
    assert_eq!(allocate(&mut mem, 0).unwrap().paddr, b);
    assert_eq!(allocate(&mut mem, 0).unwrap().paddr, c);
    assert_eq!(allocate(&mut mem, 0).unwrap().paddr, a);
    assert_eq!(allocate(&mut mem, 0).unwrap().paddr, 3 * PAGE);
}

#[test]
fn deref_frame_pushes_the_base_of_the_frame() {
    let mut mem = memory(vec![ent(0, 2, MemoryState::Free)]);
    let page = allocate(&mut mem, 0).unwrap().paddr;
    deref_frame(&mut mem, page + 0x123);
    assert_eq!(mem.free_stack(), &vec![page]);
}

#[test]
fn references_keep_a_frame_from_being_released() {
    for n in 1..6usize {
        let mut mem = memory(vec![ent(0, 4, MemoryState::Free)]);
        let page = 2 * PAGE;
        for _ in 0..n {
            ref_frame(&mut mem, page);
        }
        assert_eq!(mem.frames().ref_count(2), n);
        for dropped in 1..n {
            deref_frame(&mut mem, page);
            assert_eq!(mem.frames().ref_count(2), n - dropped);
            assert!(mem.free_stack().is_empty());
        }
        deref_frame(&mut mem, page);
        assert_eq!(mem.frames().ref_count(2), 0);
    }
}

#[test]
fn shared_frame_is_released_with_its_last_reference() {
    let mut mem = memory(vec![ent(0, 4, MemoryState::Free)]);
    let page = allocate(&mut mem, 0).unwrap().paddr;
    ref_frame(&mut mem, page);
    ref_frame(&mut mem, page);
    assert_eq!(mem.frames().ref_count(0), 3);
    assert_eq!(mem.frames().get_multiref_count(0), 2);
    deref_frame(&mut mem, page);
    deref_frame(&mut mem, page);
    assert!(mem.free_stack().is_empty());
    assert!(mem.frames().is_used(0));
    deref_frame(&mut mem, page);
    assert_eq!(mem.free_stack(), &vec![page]);
    assert!(!mem.frames().is_used(0));
}

#[test]
fn ref_and_deref_ignore_addresses_outside_real_memory() {
    let mut mem = memory(mixed_map());
    ref_frame(&mut mem, 2 * PAGE);
    assert_eq!(mem.frames().ref_count(2), 0);
    ref_frame(&mut mem, 20 * PAGE);
    assert_eq!(mem.frames().ref_count(20), 0);
    deref_frame(&mut mem, 2 * PAGE);
    deref_frame(&mut mem, 20 * PAGE);
    assert!(mem.free_stack().is_empty());
}

#[test]
fn deref_of_an_untracked_frame_changes_nothing() {
    let mut mem = memory(vec![ent(0, 4, MemoryState::Free)]);
    deref_frame(&mut mem, PAGE);
    assert_eq!(mem.frames().ref_count(1), 0);
    assert!(mem.free_stack().is_empty());
    // A frame that was referenced but never handed out is not reclaimed either.
    ref_frame(&mut mem, PAGE);
    deref_frame(&mut mem, PAGE);
    assert!(mem.free_stack().is_empty());
    assert_eq!(allocate_range(&mut mem, 1), 0);
}

#[test]
fn make_unique_returns_a_frame_with_one_holder() {
    let mut mem = memory(vec![ent(0, 4, MemoryState::Free)]);
    let page = allocate(&mut mem, 0).unwrap().paddr;
    assert_eq!(mem.frames().get_multiref_count(0), 0);
    assert_eq!(make_unique(&mem, page), page);
    assert_eq!(make_unique(&mem, 3 * PAGE), 3 * PAGE);
}

#[test]
fn within_bits_compares_the_last_frame_number() {
    let mem = memory(vec![ent(0, 16, MemoryState::Free)]);
    assert!(within_bits(&mem, 4));
    assert!(!within_bits(&mem, 3));
    assert!(within_bits(&mem, 64));
    assert!(within_bits(&mem, 200));
    let mem = memory(vec![ent(0, 17, MemoryState::Free)]);
    assert!(!within_bits(&mem, 4));
    assert!(within_bits(&mem, 5));
    assert!(!within_bits(&mem, 0));
    let mem = memory(Vec::new());
    assert!(within_bits(&mem, 0));
}

#[test]
fn allocate_range_bits_uses_the_cursor() {
    let mut mem = memory(vec![ent(0, 2, MemoryState::Free)]);
    assert!(within_bits(&mem, 1));
    assert_eq!(allocate_range_bits(&mut mem, 1, 1), 0);
    assert_eq!(allocate_range_bits(&mut mem, 1, 1), PAGE);
    assert_eq!(allocate_range_bits(&mut mem, 1, 1), NOPAGE);
    assert_eq!(mem.alloc_point(), (1, 0));
}

#[test]
fn frame_handle_wraps_an_address() {
    let handle = FrameHandle::from_addr_noref(0x5000);
    assert_eq!(handle.into_addr(), 0x5000);
}

#[test]
fn frame_handle_from_addr_takes_a_reference() {
    let mut mem = memory(vec![ent(0, 4, MemoryState::Free)]);
    let page = allocate(&mut mem, 0).unwrap().paddr;
    let handle = FrameHandle::from_addr(&mut mem, page);
    assert_eq!(mem.frames().ref_count(0), 2);
    assert!(mem.frames().is_used(0));
    assert_eq!(handle.into_addr(), page);
    deref_frame(&mut mem, page);
    assert!(mem.free_stack().is_empty());
    deref_frame(&mut mem, page);
    assert_eq!(mem.free_stack(), &vec![page]);
}

#[test]
fn frame_table_counts_and_marks() {
    let mut table = FrameTable::new();
    assert_eq!(table.ref_count(7), 0);
    assert!(!table.is_used(7));
    assert_eq!(table.get_multiref_count(7), 0);
    table.ref_frame(7);
    table.ref_frame(7);
    table.ref_frame(7);
    assert_eq!(table.ref_count(7), 3);
    assert_eq!(table.get_multiref_count(7), 2);
    assert_eq!(table.ref_count(8), 0);
    assert_eq!(table.deref_frame(7), 2);
    assert_eq!(table.deref_frame(7), 1);
    assert_eq!(table.get_multiref_count(7), 0);
    assert_eq!(table.deref_frame(7), 0);
    assert_eq!(table.deref_frame(7), 0);
    assert_eq!(table.ref_count(7), 0);
    assert!(!table.mark_free(7));
    table.mark_used(7);
    assert!(table.is_used(7));
    assert!(table.mark_free(7));
    assert!(!table.is_used(7));
    assert!(!table.mark_free(7));
}
