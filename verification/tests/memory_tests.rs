use rust_tools::allocation::{MemoryKind, Mutability};
use rust_tools::error::EvalError;
use rust_tools::lock::{AccessKind, Lock};
use rust_tools::dump::DumpLine;
use rust_tools::memory::{Instance, Machine, Memory};
use rust_tools::pointer::{AllocId, AllocIdKind, DataLayout, Endian, MemoryPointer, Pointer, PrimVal};

fn layout() -> DataLayout {
    DataLayout {
        pointer_size: 8,
        endian: Endian::Little,
        i8_align: 1,
        i16_align: 2,
        i32_align: 4,
        i64_align: 8,
        i128_align: 8,
    }
}

struct QuietMachine;

impl Machine for QuietMachine {
    fn mark_static_initialized(_kind: u64) -> Result<(), EvalError> {
        Ok(())
    }
}

struct RefusingMachine;

impl Machine for RefusingMachine {
    fn mark_static_initialized(kind: u64) -> Result<(), EvalError> {
        Err(EvalError::MachineRefusedStatic(kind))
    }
}

fn ptr(p: MemoryPointer) -> Pointer {
    Pointer::from_ptr(p)
}

#[test]
fn allocate_write_read_roundtrip() {
    let mut m = Memory::new(layout(), 1024);
    let p = m.allocate(8, 4, MemoryKind::Stack).unwrap();
    assert_eq!(p.offset, 0);
    m.write_bytes(ptr(p), &[1, 2, 3, 4]).unwrap();
    assert_eq!(m.read_bytes(ptr(p), 4).unwrap(), vec![1, 2, 3, 4]);
    assert!(matches!(m.read_bytes(ptr(p), 5), Err(EvalError::ReadUndefBytes)));
    assert!(matches!(
        m.read_bytes(ptr(MemoryPointer::new(p.alloc_id, 4)), 8),
        Err(EvalError::ReadUndefBytes)
    ));
}

#[test]
fn allocation_beyond_capacity_is_out_of_memory() {
    let mut m = Memory::new(layout(), 16);
    let _ = m.allocate(10, 1, MemoryKind::Stack).unwrap();
    match m.allocate(7, 1, MemoryKind::Stack) {
        Err(EvalError::OutOfMemory { allocation_size, memory_size, memory_usage }) => {
            assert_eq!((allocation_size, memory_size, memory_usage), (7, 16, 10));
        }
        other => panic!("unexpected {:?}", other),
    }
    assert!(m.allocate(6, 1, MemoryKind::Stack).is_ok());
}

#[test]
fn deallocate_errors() {
    let mut m = Memory::new(layout(), 1024);
    let p = m.allocate(4, 1, MemoryKind::Stack).unwrap();
    assert!(matches!(
        m.deallocate(MemoryPointer::new(p.alloc_id, 1), None, MemoryKind::Stack),
        Err(EvalError::DeallocateNonBasePtr)
    ));
    assert!(matches!(
        m.deallocate(p, Some((5, 1)), MemoryKind::Stack),
        Err(EvalError::IncorrectAllocationInformation)
    ));
    let q = m.allocate(4, 1, MemoryKind::Stack).unwrap();
    assert!(m.deallocate(q, Some((4, 1)), MemoryKind::Stack).is_ok());
    assert!(matches!(m.deallocate(q, None, MemoryKind::Stack), Err(EvalError::DoubleFree)));
    let r = m.allocate(4, 1, MemoryKind::Machine(3)).unwrap();
    assert!(matches!(
        m.deallocate(r, None, MemoryKind::Stack),
        Err(EvalError::DeallocatedWrongMemoryKind(MemoryKind::Machine(3), MemoryKind::Stack))
    ));
    let f = m.create_fn_alloc(Instance(9));
    assert!(matches!(
        m.deallocate(f, None, MemoryKind::Stack),
        Err(EvalError::DeallocatedFunction(MemoryKind::Stack))
    ));
}

#[test]
fn function_pointers_are_shared_per_instance() {
    let mut m = Memory::new(layout(), 1024);
    let a = m.create_fn_alloc(Instance(7));
    let b = m.create_fn_alloc(Instance(8));
    let c = m.create_fn_alloc(Instance(7));
    assert_eq!(a, c);
    assert_ne!(a, b);
    assert_eq!(m.get_fn(a).unwrap(), Instance(7));
    assert_eq!(m.get_fn(b).unwrap(), Instance(8));
    assert!(matches!(m.get_fn(MemoryPointer::new(a.alloc_id, 1)), Err(EvalError::InvalidFunctionPointer)));
    assert!(matches!(m.get(a.alloc_id), Err(EvalError::DerefFunctionPointer)));
}

#[test]
fn primitive_values_roundtrip() {
    let mut m = Memory::new(layout(), 1024);
    let p = m.allocate(16, 8, MemoryKind::Stack).unwrap();
    m.write_primval(p, PrimVal::Bytes(0x1234), 2, false).unwrap();
    assert_eq!(m.read_bytes(ptr(p), 2).unwrap(), vec![0x34, 0x12]);
    assert_eq!(m.read_primval(p, 2, false).unwrap(), PrimVal::Bytes(0x1234));
    m.write_primval(p, PrimVal::Bytes(0xff), 1, true).unwrap();
    assert_eq!(m.read_primval(p, 1, true).unwrap(), PrimVal::Bytes(u128::MAX));
    let q = m.allocate(4, 1, MemoryKind::Stack).unwrap();
    let target = MemoryPointer::new(q.alloc_id, 3);
    let at = MemoryPointer::new(p.alloc_id, 8);
    m.write_ptr_sized_unsigned(at, PrimVal::Ptr(target)).unwrap();
    assert_eq!(m.read_ptr_sized_unsigned(at).unwrap(), PrimVal::Ptr(target));
    assert!(matches!(m.read_bytes(ptr(at), 8), Err(EvalError::ReadPointerAsBytes)));
}

#[test]
fn undefined_bytes_and_definedness() {
    let mut m = Memory::new(layout(), 1024);
    let p = m.allocate(4, 1, MemoryKind::Stack).unwrap();
    m.mark_definedness(ptr(p), 4, true).unwrap();
    assert_eq!(m.read_bytes(ptr(p), 4).unwrap(), vec![0, 0, 0, 0]);
    m.mark_definedness(ptr(MemoryPointer::new(p.alloc_id, 2)), 1, false).unwrap();
    assert!(matches!(m.read_bytes(ptr(p), 4), Err(EvalError::ReadUndefBytes)));
    m.write_repeat(ptr(p), 9, 4).unwrap();
    assert_eq!(m.read_bytes(ptr(p), 4).unwrap(), vec![9, 9, 9, 9]);
}

#[test]
fn copy_and_c_strings() {
    let mut m = Memory::new(layout(), 1024);
    let p = m.allocate(6, 1, MemoryKind::Stack).unwrap();
    m.write_bytes(ptr(p), b"hi\0").unwrap();
    assert_eq!(m.read_c_str(p).unwrap(), b"hi".to_vec());
    let q = m.allocate(6, 1, MemoryKind::Stack).unwrap();
    m.copy(ptr(p), ptr(q), 3, 1, true).unwrap();
    assert_eq!(m.read_c_str(q).unwrap(), b"hi".to_vec());
    m.copy(ptr(p), ptr(MemoryPointer::new(p.alloc_id, 1)), 3, 1, false).unwrap();
    assert_eq!(m.read_bytes(ptr(p), 4).unwrap(), b"hhi\0".to_vec());
    assert!(matches!(
        m.copy(ptr(p), ptr(MemoryPointer::new(p.alloc_id, 1)), 3, 1, true),
        Err(EvalError::CopyNonoverlappingOverlapping)
    ));
    let r = m.allocate(2, 1, MemoryKind::Stack).unwrap();
    m.write_bytes(ptr(r), b"ab").unwrap();
    assert!(matches!(m.read_c_str(r), Err(EvalError::UnterminatedCString(_))));
}

#[test]
fn reallocate_moves_contents() {
    let mut m = Memory::new(layout(), 1024);
    let p = m.allocate(4, 1, MemoryKind::Stack).unwrap();
    m.write_bytes(ptr(p), &[5, 6, 7, 8]).unwrap();
    let q = m.reallocate(p, 4, 1, 8, 1, MemoryKind::Stack).unwrap();
    assert_ne!(p.alloc_id, q.alloc_id);
    assert_eq!(m.read_bytes(ptr(q), 4).unwrap(), vec![5, 6, 7, 8]);
    assert!(matches!(m.get(p.alloc_id), Err(EvalError::DanglingPointerDeref)));
    assert!(matches!(
        m.reallocate(MemoryPointer::new(q.alloc_id, 1), 8, 1, 4, 1, MemoryKind::Stack),
        Err(EvalError::ReallocateNonBasePtr)
    ));
}

#[test]
fn alignment_is_checked() {
    let mut m = Memory::new(layout(), 1024);
    let p = m.allocate(8, 2, MemoryKind::Stack).unwrap();
    assert!(m.check_align(ptr(p), 2, None).is_ok());
    assert!(matches!(
        m.check_align(ptr(p), 4, None),
        Err(EvalError::AlignmentCheckFailed { has: 2, required: 4 })
    ));
    assert!(matches!(
        m.check_align(ptr(MemoryPointer::new(p.alloc_id, 1)), 2, None),
        Err(EvalError::AlignmentCheckFailed { has: 1, required: 2 })
    ));
    assert!(matches!(
        m.check_align(Pointer::from_primval(PrimVal::Bytes(0)), 1, None),
        Err(EvalError::InvalidNullPointerUsage)
    ));
    assert!(m.check_align(Pointer::from_primval(PrimVal::Bytes(8)), 4, None).is_ok());
    assert!(m.check_align(Pointer::from_primval(PrimVal::Bytes(256)), 4, None).is_ok());
    assert!(matches!(
        m.check_align(Pointer::from_primval(PrimVal::Bytes(1u128 << 64)), 1, None),
        Err(EvalError::InvalidNullPointerUsage)
    ));
}

#[test]
fn leak_report_counts_non_static_allocations() {
    let mut m = Memory::new(layout(), 1024);
    let _a = m.allocate(1, 1, MemoryKind::Stack).unwrap();
    let b = m.allocate(1, 1, MemoryKind::UninitializedStatic).unwrap();
    let _c = m.allocate(1, 1, MemoryKind::Machine(1)).unwrap();
    assert_eq!(m.leak_report(), 3);
    m.mark_static_initalized::<QuietMachine>(b.alloc_id, Mutability::Immutable).unwrap();
    assert_eq!(m.leak_report(), 2);
}

#[test]
fn locks_admit_their_holder_and_refuse_others() {
    let mut m = Memory::new(layout(), 1024);
    m.set_frame(1);
    let p = m.allocate(8, 1, MemoryKind::Stack).unwrap();
    m.acquire_lock(p, 4, Some(10), AccessKind::Write).unwrap();
    assert!(m.check_locks(p, 4, AccessKind::Write).is_ok());
    m.set_frame(2);
    match m.check_locks(p, 4, AccessKind::Read) {
        Err(EvalError::MemoryLockViolation { frame: 2, access: AccessKind::Read, lock: Lock::WriteLock(l), len: 4, .. }) => {
            assert_eq!(l.frame, 1);
            assert_eq!(l.region, Some(10));
        }
        other => panic!("unexpected {:?}", other),
    }
    assert!(m.check_locks(MemoryPointer::new(p.alloc_id, 4), 4, AccessKind::Write).is_ok());
    assert!(matches!(
        m.acquire_lock(p, 2, None, AccessKind::Read),
        Err(EvalError::MemoryAcquireConflict { kind: AccessKind::Read, lock: Lock::WriteLock(_), .. })
    ));
    m.set_frame(1);
    m.locks_lifetime_ended(Some(10));
    assert!(m.check_locks(p, 4, AccessKind::Write).is_ok());
    m.set_frame(2);
    assert!(m.check_locks(p, 4, AccessKind::Write).is_ok());
}

#[test]
fn read_locks_are_shared() {
    let mut m = Memory::new(layout(), 1024);
    let p = m.allocate(4, 1, MemoryKind::Stack).unwrap();
    m.set_frame(1);
    m.acquire_lock(p, 4, None, AccessKind::Read).unwrap();
    m.set_frame(2);
    m.acquire_lock(p, 4, None, AccessKind::Read).unwrap();
    assert!(m.check_locks(p, 4, AccessKind::Read).is_ok());
    assert!(matches!(
        m.check_locks(p, 4, AccessKind::Write),
        Err(EvalError::MemoryLockViolation { lock: Lock::ReadLock(_), .. })
    ));
    m.locks_lifetime_ended(None);
    m.set_frame(3);
    match m.check_locks(p, 1, AccessKind::Write) {
        Err(EvalError::MemoryLockViolation { lock: Lock::ReadLock(holders), .. }) => {
            assert_eq!(holders.len(), 1);
            assert_eq!(holders[0].frame, 1);
        }
        other => panic!("unexpected {:?}", other),
    }
    assert!(m.deallocate(p, None, MemoryKind::Stack).is_ok());
}

#[test]
fn deallocating_under_another_frames_write_lock_is_refused() {
    let mut m = Memory::new(layout(), 1024);
    let p = m.allocate(4, 1, MemoryKind::Stack).unwrap();
    m.set_frame(1);
    m.acquire_lock(MemoryPointer::new(p.alloc_id, 2), 1, None, AccessKind::Write).unwrap();
    m.set_frame(2);
    assert!(matches!(
        m.deallocate(p, None, MemoryKind::Stack),
        Err(EvalError::DeallocatedLockedMemory { lock: Lock::WriteLock(_), .. })
    ));
}

#[test]
fn out_of_bounds_lock_is_refused() {
    let mut m = Memory::new(layout(), 1024);
    let p = m.allocate(4, 1, MemoryKind::Stack).unwrap();
    assert!(matches!(
        m.acquire_lock(p, 5, None, AccessKind::Write),
        Err(EvalError::PointerOutOfBounds { access: true, allocation_size: 4, .. })
    ));
}

#[test]
fn suspend_then_recover_restores_write_lock() {
    let mut m = Memory::new(layout(), 1024);
    m.set_frame(1);
    let p = m.allocate(4, 1, MemoryKind::Stack).unwrap();
    m.acquire_lock(p, 4, Some(5), AccessKind::Write).unwrap();
    m.suspend_write_lock(p, 4, 77, Some(6)).unwrap();
    m.set_frame(2);
    assert!(m.check_locks(p, 4, AccessKind::Write).is_ok());
    m.set_frame(1);
    m.recover_write_lock(p, 4, 77, Some(5), 6).unwrap();
    m.set_frame(2);
    assert!(matches!(
        m.check_locks(p, 4, AccessKind::Write),
        Err(EvalError::MemoryLockViolation { lock: Lock::WriteLock(_), .. })
    ));
}

#[test]
fn suspending_someone_elses_lock_is_refused() {
    let mut m = Memory::new(layout(), 1024);
    m.set_frame(1);
    let p = m.allocate(4, 1, MemoryKind::Stack).unwrap();
    m.acquire_lock(p, 4, None, AccessKind::Write).unwrap();
    m.set_frame(2);
    assert!(matches!(
        m.suspend_write_lock(p, 4, 1, Some(3)),
        Err(EvalError::InvalidMemoryLockRelease { frame: 2, lock: Lock::WriteLock(_), len: 4, .. })
    ));
    assert!(matches!(
        m.suspend_write_lock(p, 4, 1, None),
        Err(EvalError::InvalidMemoryLockRelease { frame: 2, lock: Lock::WriteLock(_), len: 4, .. })
    ));
}

#[test]
fn releasing_a_read_lock_is_refused() {
    let mut m = Memory::new(layout(), 1024);
    m.set_frame(1);
    let p = m.allocate(4, 1, MemoryKind::Stack).unwrap();
    m.acquire_lock(p, 4, None, AccessKind::Read).unwrap();
    assert!(matches!(
        m.suspend_write_lock(p, 4, 1, None),
        Err(EvalError::InvalidMemoryLockRelease { frame: 1, lock: Lock::ReadLock(_), len: 4, .. })
    ));
    let q = m.allocate(4, 1, MemoryKind::Stack).unwrap();
    assert!(m.suspend_write_lock(q, 4, 1, None).is_ok());
    m.acquire_lock(q, 4, None, AccessKind::Write).unwrap();
    assert!(m.suspend_write_lock(q, 4, 1, None).is_ok());
    assert!(m.check_locks(q, 4, AccessKind::Write).is_ok());
}

#[test]
fn recovering_where_another_lock_is_held_conflicts() {
    let mut m = Memory::new(layout(), 1024);
    m.set_frame(1);
    let p = m.allocate(4, 1, MemoryKind::Stack).unwrap();
    m.acquire_lock(p, 4, None, AccessKind::Read).unwrap();
    assert!(matches!(
        m.recover_write_lock(p, 4, 9, None, 1),
        Err(EvalError::MemoryAcquireConflict { kind: AccessKind::Write, lock: Lock::ReadLock(_), .. })
    ));
}

#[test]
fn marking_statics_follows_pointers() {
    let mut m = Memory::new(layout(), 1024);
    let s = m.allocate(8, 8, MemoryKind::UninitializedStatic).unwrap();
    let t = m.allocate(4, 1, MemoryKind::Stack).unwrap();
    let other = m.allocate(4, 1, MemoryKind::UninitializedStatic).unwrap();
    m.write_ptr_sized_unsigned(s, PrimVal::Ptr(t)).unwrap();
    m.mark_static_initalized::<QuietMachine>(s.alloc_id, Mutability::Immutable).unwrap();
    assert_eq!(m.get(s.alloc_id).unwrap().kind, MemoryKind::Static);
    assert_eq!(m.get(t.alloc_id).unwrap().kind, MemoryKind::Static);
    assert_eq!(m.get(t.alloc_id).unwrap().mutable, Mutability::Immutable);
    assert_eq!(m.get(other.alloc_id).unwrap().kind, MemoryKind::UninitializedStatic);
    assert!(matches!(
        m.write_bytes(ptr(t), &[1]),
        Err(EvalError::ModifiedConstantMemory)
    ));
    let f = m.create_fn_alloc(Instance(1));
    assert!(m.mark_static_initalized::<QuietMachine>(f.alloc_id, Mutability::Mutable).is_ok());
    let gone = AllocIdKind::Runtime(999).into_alloc_id();
    assert!(matches!(
        m.mark_static_initalized::<QuietMachine>(gone, Mutability::Mutable),
        Err(EvalError::DanglingPointerDeref)
    ));
}

#[test]
fn marking_asks_the_machine_about_its_kinds() {
    let mut m = Memory::new(layout(), 1024);
    let a = m.allocate(4, 1, MemoryKind::Machine(5)).unwrap();
    assert!(matches!(
        m.mark_static_initalized::<RefusingMachine>(a.alloc_id, Mutability::Mutable),
        Err(EvalError::MachineRefusedStatic(5))
    ));
    assert_eq!(m.get(a.alloc_id).unwrap().kind, MemoryKind::Machine(5));
    m.mark_static_initalized::<QuietMachine>(a.alloc_id, Mutability::Mutable).unwrap();
    assert_eq!(m.get(a.alloc_id).unwrap().kind, MemoryKind::Static);
}

#[test]
fn marking_succeeds_without_reachable_machine_memory() {
    let mut m = Memory::new(layout(), 1024);
    let _machine = m.allocate(4, 1, MemoryKind::Machine(5)).unwrap();
    let s = m.allocate(8, 8, MemoryKind::Stack).unwrap();
    let t = m.allocate(4, 1, MemoryKind::Stack).unwrap();
    m.write_ptr_sized_unsigned(s, PrimVal::Ptr(t)).unwrap();
    assert!(m.mark_static_initalized::<RefusingMachine>(s.alloc_id, Mutability::Immutable).is_ok());
    assert_eq!(m.get(t.alloc_id).unwrap().kind, MemoryKind::Static);
    let u = m.allocate(8, 8, MemoryKind::Stack).unwrap();
    let machine = m.allocate(4, 1, MemoryKind::Machine(7)).unwrap();
    m.write_ptr_sized_unsigned(u, PrimVal::Ptr(machine)).unwrap();
    assert!(matches!(
        m.mark_static_initalized::<RefusingMachine>(u.alloc_id, Mutability::Immutable),
        Err(EvalError::MachineRefusedStatic(7))
    ));
}

#[test]
fn cached_literals_are_shared() {
    let mut m = Memory::new(layout(), 1024);
    let a = m.allocate_cached::<QuietMachine>(b"hello").unwrap();
    let b = m.allocate_cached::<QuietMachine>(b"hello").unwrap();
    let c = m.allocate_cached::<QuietMachine>(b"world").unwrap();
    assert_eq!(a, b);
    assert_ne!(a, c);
    assert_eq!(m.read_bytes(ptr(a), 5).unwrap(), b"hello".to_vec());
    assert_eq!(m.get(a.alloc_id).unwrap().kind, MemoryKind::Static);
    assert_eq!(m.get(a.alloc_id).unwrap().mutable, Mutability::Immutable);
    let mut small = Memory::new(layout(), 3);
    assert!(matches!(
        small.allocate_cached::<QuietMachine>(b"hello"),
        Err(EvalError::OutOfMemory { .. })
    ));
}

#[test]
fn alloc_ids_roundtrip() {
    let f = AllocIdKind::Function(3).into_alloc_id();
    let r = AllocIdKind::Runtime(3).into_alloc_id();
    assert_ne!(f, r);
    assert!(matches!(f.into_alloc_id_kind(), AllocIdKind::Function(3)));
    assert!(matches!(r.into_alloc_id_kind(), AllocIdKind::Runtime(3)));
    assert_eq!(f.discriminant(), 0);
    assert_eq!(r.discriminant(), 1);
    assert_eq!(f.index(), 3);
    assert_eq!(r.index(), 3);
    assert_eq!(r, AllocId::from_raw(r.0));
}

#[test]
fn alignment_checks_can_be_narrowed_and_restored() {
    let mut m = Memory::new(layout(), 1024);
    let p = m.allocate(8, 1, MemoryKind::Stack).unwrap();
    let odd = Pointer::from_ptr(MemoryPointer::new(p.alloc_id, 1));
    assert!(m.check_align(odd, 2, Some(AccessKind::Read)).is_err());
    let previous = m.narrow_read_alignment(false);
    assert!(previous);
    assert!(m.check_align(odd, 2, Some(AccessKind::Read)).is_ok());
    assert!(m.check_align(odd, 2, Some(AccessKind::Write)).is_err());
    let inner = m.narrow_read_alignment(true);
    assert!(!inner);
    assert!(m.check_align(odd, 2, Some(AccessKind::Read)).is_ok());
    m.restore_read_alignment(inner);
    m.restore_read_alignment(previous);
    assert!(m.check_align(odd, 2, Some(AccessKind::Read)).is_err());
    let w = m.narrow_write_alignment(false);
    assert!(m.check_align(odd, 2, Some(AccessKind::Write)).is_ok());
    m.restore_write_alignment(w);
    assert!(m.check_align(odd, 2, Some(AccessKind::Write)).is_err());
}

#[test]
fn allocations_lists_each_allocation_once() {
    let mut m = Memory::new(layout(), 1024);
    let a = m.allocate(1, 1, MemoryKind::Stack).unwrap();
    let b = m.allocate(2, 1, MemoryKind::Stack).unwrap();
    let _f = m.create_fn_alloc(Instance(1));
    m.deallocate(a, None, MemoryKind::Stack).unwrap();
    let all = m.allocations();
    assert_eq!(all.len(), 1);
    assert_eq!(all[0].0, b.alloc_id);
    assert_eq!(all[0].1.bytes.len(), 2);
}

#[test]
fn freeing_gives_back_memory_and_ids_stay_fresh() {
    let mut m = Memory::new(layout(), 16);
    let p = m.allocate(10, 1, MemoryKind::Stack).unwrap();
    m.deallocate(p, Some((10, 1)), MemoryKind::Stack).unwrap();
    assert!(matches!(m.get(p.alloc_id), Err(EvalError::DanglingPointerDeref)));
    let q = m.allocate(16, 1, MemoryKind::Stack).unwrap();
    assert_ne!(p.alloc_id, q.alloc_id);
}

#[test]
fn undefined_values_read_back_undefined() {
    let mut m = Memory::new(layout(), 1024);
    let p = m.allocate(8, 8, MemoryKind::Stack).unwrap();
    m.write_primval(p, PrimVal::Bytes(7), 4, false).unwrap();
    m.write_primval(p, PrimVal::Undef, 4, false).unwrap();
    assert!(matches!(m.read_primval(p, 4, false), Ok(PrimVal::Undef)));
}

fn text(s: &str) -> DumpLine {
    DumpLine::Text(s.to_string())
}

#[test]
fn dump_shows_bytes_pointers_and_targets() {
    let mut m = Memory::new(layout(), 1024);
    let a = m.allocate(16, 8, MemoryKind::Stack).unwrap();
    let b = m.allocate(4, 1, MemoryKind::Stack).unwrap();
    m.write_bytes(ptr(a), &[1, 2]).unwrap();
    m.write_bytes(ptr(b), &[0xab]).unwrap();
    m.write_ptr_sized_unsigned(MemoryPointer::new(a.alloc_id, 8), PrimVal::Ptr(MemoryPointer::new(b.alloc_id, 3)))
        .unwrap();
    let lines = m.dump_alloc(a.alloc_id);
    let marks = format!("{}└────(Runtime(1))─────┘ ", " ".repeat(18 + 24));
    assert_eq!(
        lines,
        vec![
            text("Alloc Runtime(0): 01 02 __ __ __ __ __ __ 03 00 00 00 00 00 00 00 (16 bytes, alignment 8) (stack)"),
            text(&marks),
            text("Alloc Runtime(1): ab __ __ __ (4 bytes, alignment 1) (stack)"),
        ]
    );
}

#[test]
fn dump_sorts_and_dedups_ids_and_revisits_reached_ones() {
    let mut m = Memory::new(layout(), 1024);
    let a = m.allocate(8, 8, MemoryKind::Stack).unwrap();
    let b = m.allocate(2, 1, MemoryKind::Machine(5)).unwrap();
    m.write_ptr_sized_unsigned(a, PrimVal::Ptr(b)).unwrap();
    let lines = m.dump_allocs_lines(vec![b.alloc_id, a.alloc_id, b.alloc_id]);
    let b_line = text("Alloc Runtime(1): __ __ (2 bytes, alignment 1) (5)");
    assert_eq!(lines.len(), 4);
    assert_eq!(lines[0], text("Alloc Runtime(0): 00 00 00 00 00 00 00 00 (8 bytes, alignment 8) (stack)"));
    assert_eq!(lines[1], text(&format!("{}└────(Runtime(1))─────┘ ", " ".repeat(18))));
    assert_eq!(lines[2], b_line);
    assert_eq!(lines[3], b_line);
}

#[test]
fn dump_names_functions_and_freed_allocations() {
    let mut m = Memory::new(layout(), 1024);
    let f = m.create_fn_alloc(Instance(7));
    let c = m.allocate(4, 1, MemoryKind::Stack).unwrap();
    m.deallocate(c, None, MemoryKind::Stack).unwrap();
    let s = m.allocate(1, 1, MemoryKind::UninitializedStatic).unwrap();
    assert_eq!(
        m.dump_allocs_lines(vec![s.alloc_id, c.alloc_id, f.alloc_id]),
        vec![
            DumpLine::Function("Alloc Function(0):  ".to_string(), Instance(7)),
            text("Alloc Runtime(0):  (deallocated)"),
            text("Alloc Runtime(1): __ (1 bytes, alignment 1) (static in the process of initialization)"),
        ]
    );
    m.mark_static_initalized::<QuietMachine>(s.alloc_id, Mutability::Immutable).unwrap();
    assert_eq!(m.dump_alloc(s.alloc_id), vec![text("Alloc Runtime(1): __ (1 bytes, alignment 1) (immutable)")]);
    assert!(m.dump_allocs_lines(vec![]).is_empty());
}

#[test]
fn dump_needs_known_functions() {
    let mut m = Memory::new(layout(), 1024);
    let a = m.allocate(8, 8, MemoryKind::Stack).unwrap();
    let f = m.create_fn_alloc(Instance(3));
    assert!(m.can_dump(&vec![a.alloc_id, f.alloc_id]));
    let unknown = AllocIdKind::Function(5).into_alloc_id();
    assert!(!m.can_dump(&vec![a.alloc_id, unknown]));
    m.write_ptr_sized_unsigned(a, PrimVal::Ptr(MemoryPointer::new(unknown, 0))).unwrap();
    assert!(!m.can_dump(&vec![a.alloc_id]));
}
