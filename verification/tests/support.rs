use tifflin_core::array::ArrayAlloc;
use tifflin_core::lazy_static::LazyStatic;
use tifflin_core::vfs::{Error, File, FileOpenMode, MemoryMapMode, ObjectHandle};

#[test]
fn lazy_static_starts_empty() {
    let cell: LazyStatic<u32> = LazyStatic::new();
    assert!(cell.0.is_none());
}

#[test]
fn lazy_static_prep_stores_what_the_function_returns() {
    let mut cell: LazyStatic<Vec<u8>> = LazyStatic::new();
    cell.prep(|| vec![1, 2, 3]);
    assert_eq!(cell.deref(), &vec![1, 2, 3]);
    assert_eq!(cell.0, Some(vec![1, 2, 3]));
}

#[test]
fn lazy_static_mutable_access_changes_the_value() {
    let mut cell: LazyStatic<u32> = LazyStatic::new();
    cell.prep(|| 7);
    *cell.ls_unsafe_mut() += 5;
    assert_eq!(*cell.deref(), 12);
}

#[test]
fn array_alloc_records_base_and_count() {
    let array: ArrayAlloc<u32> = ArrayAlloc::new(0x1000, 8);
    assert_eq!(array.count(), 8);
    assert_eq!(array.get_base(), 0x1000);
    let mut array = array;
    assert_eq!(array.get_base_mut(), 0x1000);
}

#[test]
fn array_alloc_size_is_count_times_element_size() {
    assert_eq!(ArrayAlloc::<u32>::get_alloc_size(8), 32);
    assert_eq!(ArrayAlloc::<u64>::get_alloc_size(3), 24);
    assert_eq!(ArrayAlloc::<u8>::get_alloc_size(0), 0);
    assert_eq!(ArrayAlloc::<()>::get_alloc_size(1000), 0);
}

#[test]
fn array_alloc_of_zero_sized_elements_is_unbounded() {
    let array: ArrayAlloc<()> = ArrayAlloc::new(0x1000, 8);
    assert_eq!(array.count(), usize::MAX);
    assert_eq!(array.get_ptr(12345), 0x1000);
}

#[test]
fn array_alloc_element_addresses() {
    let mut array: ArrayAlloc<u64> = ArrayAlloc::from_raw_parts(0x2000, 4);
    assert_eq!(array.count(), 4);
    assert_eq!(array.get_ptr(0), 0x2000);
    assert_eq!(array.get_ptr(1), 0x2008);
    assert_eq!(array.get_ptr(3), 0x2018);
    assert_eq!(array.get_ptr_mut(2), 0x2010);
}

#[test]
fn array_alloc_resize_changes_the_count() {
    let mut array: ArrayAlloc<u16> = ArrayAlloc::new(0x3000, 2);
    assert!(array.resize(10));
    assert_eq!(array.count(), 10);
    assert_eq!(array.get_base(), 0x3000);
    assert_eq!(array.get_ptr(9), 0x3012);
}

#[test]
fn file_open_mode_codes() {
    assert_eq!(FileOpenMode::NoAccess.code(), 0);
    assert_eq!(FileOpenMode::ReadOnly.code(), 1);
    assert_eq!(FileOpenMode::Execute.code(), 2);
}

#[test]
fn memory_map_mode_codes() {
    assert_eq!(MemoryMapMode::ReadOnly.code(), 0);
    assert_eq!(MemoryMapMode::Execute.code(), 1);
    assert_eq!(MemoryMapMode::COW.code(), 2);
    assert_eq!(MemoryMapMode::WriteBack.code(), 3);
}

#[test]
fn file_opens_with_cursor_at_start() {
    let file = File::open(ObjectHandle(4));
    assert_eq!(file.get_cursor(), 0);
    assert_eq!(file.get_handle(), ObjectHandle(4));
}

#[test]
fn file_set_cursor_moves_the_cursor() {
    let mut file = File::open(ObjectHandle(4));
    file.set_cursor(4096);
    assert_eq!(file.get_cursor(), 4096);
    file.set_cursor(u64::MAX);
    assert_eq!(file.get_cursor(), u64::MAX);
    assert_eq!(file.get_handle(), ObjectHandle(4));
}

#[test]
fn file_read_advances_the_cursor_by_the_count() {
    let mut file = File::open(ObjectHandle(1));
    assert_eq!(file.read(Ok(100)), Ok(100));
    assert_eq!(file.get_cursor(), 100);
    assert_eq!(file.read(Ok(28)), Ok(28));
    assert_eq!(file.get_cursor(), 128);
    assert_eq!(file.read(Ok(0)), Ok(0));
    assert_eq!(file.get_cursor(), 128);
}

#[test]
fn file_read_failure_leaves_the_cursor() {
    let mut file = File::open(ObjectHandle(1));
    file.set_cursor(50);
    assert_eq!(file.read(Err(Error::NotFound)), Err(Error::NotFound));
    assert_eq!(file.get_cursor(), 50);
    assert_eq!(file.read(Err(Error::PermissionDenied)), Err(Error::PermissionDenied));
    assert_eq!(file.get_cursor(), 50);
}
