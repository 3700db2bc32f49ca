use rust_tools::byte_order::{read_target_int, read_target_uint, write_target_int, write_target_uint};
use rust_tools::pointer::{AllocIdKind, DataLayout, Endian, MemoryPointer, PointerArithmetic};
use rust_tools::error::EvalError;
use rust_tools::undef_mask::{bit_index, UndefMask};

fn layout(pointer_size: u64) -> DataLayout {
    DataLayout {
        pointer_size,
        endian: Endian::Little,
        i8_align: 1,
        i16_align: 2,
        i32_align: 4,
        i64_align: 8,
        i128_align: 8,
    }
}

#[test]
fn bit_index_splits_positions() {
    assert_eq!(bit_index(0), (0, 0));
    assert_eq!(bit_index(63), (0, 63));
    assert_eq!(bit_index(64), (1, 0));
    assert_eq!(bit_index(130), (2, 2));
}

#[test]
fn undef_mask_ranges() {
    let mut m = UndefMask::new(100);
    assert_eq!(m.len(), 100);
    assert!(!m.is_range_defined(0, 1));
    assert!(m.is_range_defined(5, 5));
    m.set_range(10, 70, true);
    assert!(m.is_range_defined(10, 70));
    assert!(!m.is_range_defined(9, 70));
    assert!(!m.is_range_defined(10, 71));
    assert!(m.get(69) && !m.get(70));
    m.set(70, true);
    assert!(m.is_range_defined(10, 71));
    assert!(!m.is_range_defined(90, 101));
    m.grow(28, true);
    assert_eq!(m.len(), 128);
    assert!(m.is_range_defined(100, 128));
    m.set_range(120, 200, false);
    assert_eq!(m.len(), 200);
    assert!(!m.get(150));
    m.set_range_inbounds(0, 10, true);
    assert!(m.is_range_defined(0, 71));
}

#[test]
fn pointer_offsets_wrap_at_the_pointer_width() {
    let l = layout(2);
    assert_eq!(l.truncate_to_ptr(0x1_0005), (5, true));
    assert_eq!(l.overflowing_offset(0xfffe, 3), (1, true));
    assert_eq!(l.overflowing_offset(10, 3), (13, false));
    assert!(matches!(l.offset(0xffff, 1), Err(EvalError::OverflowingMath)));
    assert_eq!(l.offset(10, 5).unwrap(), 15);
    assert_eq!(l.overflowing_signed_offset(10, -3), (7, false));
    assert_eq!(l.overflowing_signed_offset(1, -3), (u64::MAX - 1, true));
    assert!(matches!(l.signed_offset(1, -3), Err(EvalError::OverflowingMath)));
    assert_eq!(l.signed_offset(10, -3).unwrap(), 7);
}

#[test]
fn memory_pointer_offsets() {
    let l = layout(8);
    let id = AllocIdKind::Runtime(1).into_alloc_id();
    let p = MemoryPointer::new(id, 10);
    assert_eq!(p.offset(6, &l).unwrap(), MemoryPointer::new(id, 16));
    assert_eq!(p.signed_offset(-4, &l).unwrap(), MemoryPointer::new(id, 6));
    assert!(matches!(p.signed_offset(-11, &l), Err(EvalError::OverflowingMath)));
    assert_eq!(p.wrapping_signed_offset(-11, &l), MemoryPointer::new(id, u64::MAX));
    assert_eq!(p.overflowing_offset(u64::MAX, &l), (MemoryPointer::new(id, 9), true));
    assert_eq!(p.overflowing_signed_offset(-10, &l), (MemoryPointer::new(id, 0), false));
}

#[test]
fn target_integers_roundtrip() {
    assert_eq!(write_target_uint(Endian::Little, 4, 0x01020304), vec![4, 3, 2, 1]);
    assert_eq!(write_target_uint(Endian::Big, 4, 0x01020304), vec![1, 2, 3, 4]);
    assert_eq!(read_target_uint(Endian::Little, &[4, 3, 2, 1]), 0x01020304);
    assert_eq!(read_target_uint(Endian::Big, &[1, 2, 3, 4]), 0x01020304);
    assert_eq!(write_target_int(Endian::Little, 2, -2), vec![0xfe, 0xff]);
    assert_eq!(read_target_int(Endian::Little, &[0xfe, 0xff]), -2);
    assert_eq!(read_target_int(Endian::Big, &[0x80]), -128);
    let v = write_target_uint(Endian::Big, 16, u128::MAX - 1);
    assert_eq!(read_target_uint(Endian::Big, &v), u128::MAX - 1);
}
