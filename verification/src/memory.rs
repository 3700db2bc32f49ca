//! The interpreter's memory: allocations addressed by id, with accounting of
//! the bytes in use, function "allocations", and the checks every access makes.
use vstd::prelude::*;
use std::collections::{HashMap, HashSet};
use crate::allocation::{Allocation, MemoryKind, Mutability, is_range_of};
use crate::dump::{
    DumpLine, DumpLineView, ScanState, alloc_tail, id_string, lemma_sorted_ids_len, lemma_u64_set_len,
    lemma_sorted_ids_from, line_prefix, push_alloc_tail, push_marks, push_repeated, reloc_marks, repeat, scan_alloc,
    scan_from, sorted_ids, sorted_ids_of,
};
use crate::error::EvalError;
use crate::lock::{AccessKind, DynamicLifetime, Lock, LockView, WriteLockId};
use crate::locking::LockOp;
use crate::ordered_keys::lemma_u64_keys_ordered;
use crate::pointer::{
    AllocId, AllocIdKind, DataLayout, Endian, MemoryPointer, Pointer, PrimVal, id_bit,
    spec_id_to_kind, spec_kind_to_id,
};
use crate::undef_mask::max_mask_len;
use vstd::arithmetic::power2::pow2;
use vstd::std_specs::iter::IteratorSpec;

verus! {

broadcast use vstd::std_specs::hash::group_hash_axioms, vstd::std_specs::btree::group_btree_axioms;

/// A function that a function pointer can point to, by its number.
#[derive(Copy, Clone, Debug, PartialEq, Eq, Structural)]
pub struct Instance(pub u64);

/// Sum of the sizes of the allocations in `m`.
pub open spec fn total_size(m: Map<u64, Allocation>) -> nat
    decreases m.dom().len(),
    when m.dom().finite()
{
    if m.dom().len() == 0 {
        0
    } else {
        let k = m.dom().choose();
        m[k].bytes@.len() + total_size(m.remove(k))
    }
}

/// The total size splits into any one allocation and the rest.
pub proof fn lemma_total_size_remove(m: Map<u64, Allocation>, k: u64)
    requires
        m.dom().finite(),
        m.contains_key(k),
    ensures
        total_size(m) == m[k].bytes@.len() + total_size(m.remove(k)),
    decreases m.dom().len(),
{
    let c = m.dom().choose();
    if c != k {
        lemma_total_size_remove(m.remove(c), k);
        lemma_total_size_remove(m.remove(k), c);
        assert(m.remove(c).remove(k) =~= m.remove(k).remove(c));
    }
}

/// Adding a fresh allocation adds its size.
pub proof fn lemma_total_size_insert(m: Map<u64, Allocation>, k: u64, a: Allocation)
    requires
        m.dom().finite(),
        !m.contains_key(k),
    ensures
        total_size(m.insert(k, a)) == a.bytes@.len() + total_size(m),
{
    lemma_total_size_remove(m.insert(k, a), k);
    assert(m.insert(k, a).remove(k) =~= m);
}

/// Replacing an allocation by one of the same size keeps the total.
pub proof fn lemma_total_size_replace(m: Map<u64, Allocation>, k: u64, a: Allocation)
    requires
        m.dom().finite(),
        m.contains_key(k),
        m[k].bytes@.len() == a.bytes@.len(),
    ensures
        total_size(m.insert(k, a)) == total_size(m),
{
    lemma_total_size_remove(m.insert(k, a), k);
    lemma_total_size_remove(m, k);
    assert(m.insert(k, a).remove(k) =~= m.remove(k));
}

/// A power of two other than zero.
pub open spec fn is_power_of_two(a: u64) -> bool {
    a != 0 && a & ((a - 1) as u64) == 0
}

/// A freshly made allocation of `size` bytes.
pub open spec fn is_fresh(a: Allocation, size: u64, align: u64, kind: MemoryKind) -> bool {
    &&& a.bytes@ == Seq::new(size as nat, |i: int| 0u8)
    &&& a.relocations@ == Map::<u64, AllocId>::empty()
    &&& a.undef_mask@ == Seq::new(size as nat, |i: int| false)
    &&& a.align == align
    &&& a.mutable == Mutability::Mutable
    &&& a.kind == kind
    &&& a.locks@ == Map::<u64, crate::lock::LockInfo>::empty()
}

/// The interpreter's memory.
pub struct Memory {
    /// The allocations, by the index of their runtime id.
    alloc_map: HashMap<u64, Allocation>,
    /// The index the next allocation gets; it only grows.
    next_alloc_id: u64,
    /// Bytes allocated.
    memory_usage: u64,
    /// Bytes that may be allocated.
    memory_size: u64,
    /// The functions that function pointers point to, by index.
    functions: Vec<Instance>,
    /// The id given to each function, so that each gets one.
    function_alloc_cache: HashMap<u64, AllocId>,
    /// The target.
    layout: DataLayout,
    /// Allocations made for byte literals, by content.
    literal_alloc_cache: Vec<(Vec<u8>, AllocId)>,
    /// Whether reads are checked for alignment.
    reads_are_aligned: bool,
    /// Whether writes are checked for alignment.
    writes_are_aligned: bool,
    /// The current stack frame, against which locks are checked.
    cur_frame: usize,
}

impl Memory {
    /// The allocations by index.
    pub closed spec fn allocs(&self) -> Map<u64, Allocation> {
        self.alloc_map@
    }

    pub closed spec fn usage(&self) -> u64 {
        self.memory_usage
    }

    pub closed spec fn capacity(&self) -> u64 {
        self.memory_size
    }

    pub closed spec fn next_id(&self) -> u64 {
        self.next_alloc_id
    }

    pub closed spec fn function_list(&self) -> Seq<Instance> {
        self.functions@
    }

    pub closed spec fn function_ids(&self) -> Map<u64, AllocId> {
        self.function_alloc_cache@
    }

    pub closed spec fn literal_cache(&self) -> Seq<(Seq<u8>, AllocId)> {
        self.literal_alloc_cache@.map_values(|e: (Vec<u8>, AllocId)| (e.0@, e.1))
    }

    pub closed spec fn reads_aligned(&self) -> bool {
        self.reads_are_aligned
    }

    pub closed spec fn writes_aligned(&self) -> bool {
        self.writes_are_aligned
    }

    /// The pointer size in bytes.
    pub open spec fn ptr_size(&self) -> nat {
        self.target().pointer_size as nat
    }

    /// The target.
    pub closed spec fn target(&self) -> DataLayout {
        self.layout
    }

    /// The current stack frame.
    pub closed spec fn frame(&self) -> usize {
        self.cur_frame
    }

    /// The internal invariant.
    pub closed spec fn wf(&self) -> bool {
        &&& self.layout.wf()
        &&& self.alloc_map@.dom().finite()
        &&& forall|k: u64| #[trigger]
            self.alloc_map@.contains_key(k) ==> k < self.next_alloc_id && self.alloc_map@[k].wf(
                self.layout.pointer_size as nat,
            )
        &&& self.next_alloc_id < id_bit()
        &&& total_size(self.alloc_map@) <= self.memory_usage <= self.memory_size
        &&& forall|i: u64| #[trigger]
            self.function_alloc_cache@.contains_key(i) ==> {
                let id = self.function_alloc_cache@[i]@;
                &&& id < self.functions@.len()
                &&& self.functions@[id as int] == Instance(i)
            }
        &&& self.functions@.len() < id_bit()
    }

    /// In every memory that can occur, and so after every operation, the
    /// memory in use stays within the limit and every allocation has an id
    /// below the next one to be handed out.
    pub proof fn law_usage_within_limit(&self)
        requires
            self.wf(),
        ensures
            self.usage() <= self.capacity(),
            forall|k: u64| #[trigger] self.allocs().contains_key(k) ==> k < self.next_id(),
    {
    }

    /// The allocation an id names, or why there is none.
    pub open spec fn spec_get(&self, id: AllocId) -> Result<Allocation, EvalError> {
        match spec_id_to_kind(id@) {
            AllocIdKind::Function(_) => Err(EvalError::DerefFunctionPointer),
            AllocIdKind::Runtime(i) => if self.allocs().contains_key(i) {
                Ok(self.allocs()[i])
            } else {
                Err(EvalError::DanglingPointerDeref)
            },
        }
    }

    /// An empty memory that may hold `max_memory` bytes.
    pub fn new(layout: DataLayout, max_memory: u64) -> (m: Memory)
        requires
            layout.wf(),
        ensures
            m.wf(),
            m.allocs() == Map::<u64, Allocation>::empty(),
            m.usage() == 0,
            m.capacity() == max_memory,
            m.next_id() == 0,
            m.function_list().len() == 0,
            m.function_ids() == Map::<u64, AllocId>::empty(),
            m.literal_cache().len() == 0,
            m.reads_aligned(),
            m.writes_aligned(),
            m.target() == layout,
            m.frame() == usize::MAX,
    {
        let m = Memory {
            alloc_map: HashMap::new(),
            next_alloc_id: 0,
            memory_usage: 0,
            memory_size: max_memory,
            functions: Vec::new(),
            function_alloc_cache: HashMap::new(),
            layout,
            literal_alloc_cache: Vec::new(),
            reads_are_aligned: true,
            writes_are_aligned: true,
            cur_frame: usize::MAX,
        };
        proof {
            assert(m.alloc_map@.dom() =~= Set::empty());
            assert(total_size(m.alloc_map@) == 0);
        }
        m
    }

    /// Makes `frame` the current stack frame, against which locks are checked.
    pub fn set_frame(&mut self, frame: usize)
        requires
            old(self).wf(),
        ensures
            final(self).wf(),
            final(self).frame() == frame,
            final(self).allocs() == old(self).allocs(),
            final(self).target() == old(self).target(),
            final(self).capacity() == old(self).capacity(),
            final(self).usage() == old(self).usage(),
            final(self).next_id() == old(self).next_id(),
            final(self).function_list() == old(self).function_list(),
            final(self).function_ids() == old(self).function_ids(),
            final(self).literal_cache() == old(self).literal_cache(),
            final(self).reads_aligned() == old(self).reads_aligned(),
            final(self).writes_aligned() == old(self).writes_aligned(),
    {
        self.cur_frame = frame;
    }

    /// Everything but the alignment flags is the same in both memories.
    pub open spec fn same_but_alignment_flags(&self, other: &Memory) -> bool {
        &&& self.allocs() == other.allocs()
        &&& self.target() == other.target()
        &&& self.frame() == other.frame()
        &&& self.capacity() == other.capacity()
        &&& self.usage() == other.usage()
        &&& self.next_id() == other.next_id()
        &&& self.function_list() == other.function_list()
        &&& self.function_ids() == other.function_ids()
        &&& self.literal_cache() == other.literal_cache()
    }

    /// Checks reads for alignment from now on only if they were checked and
    /// `aligned` asks for it, so that nested narrowings all have their say;
    /// gives back the setting to restore.
    pub fn narrow_read_alignment(&mut self, aligned: bool) -> (previous: bool)
        requires
            old(self).wf(),
        ensures
            final(self).wf(),
            previous == old(self).reads_aligned(),
            final(self).reads_aligned() == (previous && aligned),
            final(self).writes_aligned() == old(self).writes_aligned(),
            final(self).same_but_alignment_flags(old(self)),
    {
        let previous = self.reads_are_aligned;
        self.reads_are_aligned = previous && aligned;
        previous
    }

    /// Puts back the setting for reads that `narrow_read_alignment` gave.
    pub fn restore_read_alignment(&mut self, previous: bool)
        requires
            old(self).wf(),
        ensures
            final(self).wf(),
            final(self).reads_aligned() == previous,
            final(self).writes_aligned() == old(self).writes_aligned(),
            final(self).same_but_alignment_flags(old(self)),
    {
        self.reads_are_aligned = previous;
    }

    /// Checks writes for alignment from now on only if they were checked and
    /// `aligned` asks for it; gives back the setting to restore.
    pub fn narrow_write_alignment(&mut self, aligned: bool) -> (previous: bool)
        requires
            old(self).wf(),
        ensures
            final(self).wf(),
            previous == old(self).writes_aligned(),
            final(self).writes_aligned() == (previous && aligned),
            final(self).reads_aligned() == old(self).reads_aligned(),
            final(self).same_but_alignment_flags(old(self)),
    {
        let previous = self.writes_are_aligned;
        self.writes_are_aligned = previous && aligned;
        previous
    }

    /// Puts back the setting for writes that `narrow_write_alignment` gave.
    pub fn restore_write_alignment(&mut self, previous: bool)
        requires
            old(self).wf(),
        ensures
            final(self).wf(),
            final(self).writes_aligned() == previous,
            final(self).reads_aligned() == old(self).reads_aligned(),
            final(self).same_but_alignment_flags(old(self)),
    {
        self.writes_are_aligned = previous;
    }

    /// The pointer size in bytes.
    pub fn pointer_size(&self) -> (r: u64)
        ensures
            r == self.target().pointer_size,
    {
        self.layout.pointer_size
    }

    /// The byte order of the target.
    pub fn endianess(&self) -> (r: Endian)
        ensures
            r == self.target().endian,
    {
        self.layout.endian
    }

    /// `after` and `r` are what `allocate` makes of this memory.
    pub open spec fn allocate_outcome(&self, after: Memory, r: Result<MemoryPointer, EvalError>, size: u64, align: u64, kind: MemoryKind) -> bool {
        &&& (after.target() == self.target())
        &&& (after.frame() == self.frame())
        &&& (after.capacity() == self.capacity())
        &&& (after.function_list() == self.function_list())
        &&& (after.function_ids() == self.function_ids())
        &&& (after.literal_cache() == self.literal_cache())
        &&& (after.reads_aligned() == self.reads_aligned())
        &&& (after.writes_aligned() == self.writes_aligned())
        &&& (self.capacity() - self.usage() < size ==> {
                &&& r == Err::<MemoryPointer, EvalError>(
                    EvalError::OutOfMemory {
                        allocation_size: size,
                        memory_size: self.capacity(),
                        memory_usage: self.usage(),
                    },
                )
                &&& after.allocs() == self.allocs()
                &&& after.usage() == self.usage()
                &&& after.next_id() == self.next_id()
            })
        &&& (self.capacity() - self.usage() >= size ==> {
                let id = self.next_id();
                &&& r matches Ok(p)
                &&& p.offset == 0
                &&& p.alloc_id@ == spec_kind_to_id(AllocIdKind::Runtime(id))
                &&& spec_id_to_kind(p.alloc_id@) == AllocIdKind::Runtime(id)
                &&& !self.allocs().contains_key(id)
                &&& after.allocs().contains_key(id)
                &&& is_fresh(after.allocs()[id], size, align, kind)
                &&& after.allocs().remove(id) == self.allocs()
                &&& after.usage() == self.usage() + size
                &&& after.next_id() == id + 1
            })
    }

    /// Makes a new allocation of `size` zero bytes, all undefined.
    pub fn allocate(&mut self, size: u64, align: u64, kind: MemoryKind) -> (r: Result<
        MemoryPointer,
        EvalError,
    >)
        requires
            old(self).wf(),
            is_power_of_two(align),
            size <= max_mask_len(),
            old(self).next_id() + 1 < id_bit(),
        ensures
            final(self).wf(),
            old(self).allocate_outcome(*final(self), r, size, align, kind),

    {
        if self.memory_size - self.memory_usage < size {
            return Err(
                EvalError::OutOfMemory {
                    allocation_size: size,
                    memory_size: self.memory_size,
                    memory_usage: self.memory_usage,
                },
            );
        }
        self.memory_usage = self.memory_usage + size;
        let alloc = Allocation::new(size, align, kind);
        let id = self.next_alloc_id;
        self.next_alloc_id = self.next_alloc_id + 1;
        proof {
            assert(!self.alloc_map@.contains_key(id));
            lemma_total_size_insert(self.alloc_map@, id, alloc);
            crate::pointer::law_alloc_id_kind_roundtrip(AllocIdKind::Runtime(id));
        }
        self.alloc_map.insert(id, alloc);
        proof {
            assert(self.alloc_map@.remove(id) =~= old(self).alloc_map@);
        }
        Ok(MemoryPointer::new(AllocIdKind::Runtime(id).into_alloc_id(), 0))
    }

    /// The allocation an id names.
    pub fn get(&self, id: AllocId) -> (r: Result<&Allocation, EvalError>)
        requires
            self.wf(),
        ensures
            match self.spec_get(id) {
                Ok(a) => r matches Ok(b) && *b == a,
                Err(e) => r == Err::<&Allocation, EvalError>(e),
            },
    {
        match id.into_alloc_id_kind() {
            AllocIdKind::Function(_) => Err(EvalError::DerefFunctionPointer),
            AllocIdKind::Runtime(i) => match self.alloc_map.get(&i) {
                Some(a) => Ok(a),
                None => Err(EvalError::DanglingPointerDeref),
            },
        }
    }

    /// Checks that the pointer does not lie past the end of its allocation.
    pub fn check_bounds(&self, ptr: MemoryPointer, access: bool) -> (r: Result<(), EvalError>)
        requires
            self.wf(),
        ensures
            r == self.spec_check_bounds(ptr, access),
    {
        let alloc = self.get(ptr.alloc_id)?;
        let allocation_size = alloc.bytes.len() as u64;
        if ptr.offset > allocation_size {
            return Err(EvalError::PointerOutOfBounds { ptr, access, allocation_size });
        }
        Ok(())
    }

    pub open spec fn spec_check_bounds(&self, ptr: MemoryPointer, access: bool) -> Result<
        (),
        EvalError,
    > {
        match self.spec_get(ptr.alloc_id) {
            Err(e) => Err(e),
            Ok(a) => if ptr.offset > a.bytes@.len() {
                Err(
                    EvalError::PointerOutOfBounds {
                        ptr,
                        access,
                        allocation_size: a.bytes@.len() as u64,
                    },
                )
            } else {
                Ok(())
            },
        }
    }

    /// Whether alignment is enforced for an access of the given kind.
    pub open spec fn enforces_alignment(&self, access: Option<AccessKind>) -> bool {
        match access {
            Some(AccessKind::Read) => self.reads_aligned(),
            Some(AccessKind::Write) => self.writes_aligned(),
            None => true,
        }
    }

    /// What `check_align` answers.
    pub open spec fn spec_check_align(&self, ptr: Pointer, align: u64, access: Option<AccessKind>) -> Result<
        (),
        EvalError,
    > {
        let found: Result<(int, u64), EvalError> = match ptr.primval {
            PrimVal::Ptr(p) => match self.spec_get(p.alloc_id) {
                Err(e) => Err(e),
                Ok(a) => Ok((p.offset as int, a.align)),
            },
            PrimVal::Bytes(b) => {
                let v = b as int % pow2(self.target().bits()) as int;
                if v == 0 {
                    Err(EvalError::InvalidNullPointerUsage)
                } else {
                    Ok((v, align))
                }
            },
            PrimVal::Undef => Err(EvalError::ReadUndefBytes),
        };
        match found {
            Err(e) => Err(e),
            Ok((offset, alloc_align)) => if !self.enforces_alignment(access) {
                Ok(())
            } else if alloc_align < align {
                Err(EvalError::AlignmentCheckFailed { has: alloc_align, required: align })
            } else if offset % align as int == 0 {
                Ok(())
            } else {
                Err(EvalError::AlignmentCheckFailed { has: (offset % align as int) as u64, required: align })
            },
        }
    }

    /// Checks that the pointer is aligned and not null.
    pub fn check_align(&self, ptr: Pointer, align: u64, access: Option<AccessKind>) -> (r: Result<
        (),
        EvalError,
    >)
        requires
            self.wf(),
            align != 0,
        ensures
            r == self.spec_check_align(ptr, align, access),
    {
        let (offset, alloc_align) = match ptr.into_inner_primval() {
            PrimVal::Ptr(p) => {
                let alloc = self.get(p.alloc_id)?;
                (p.offset as u128, alloc.align)
            },
            PrimVal::Bytes(bytes) => {
                let v = self.truncate_address(bytes);
                if v == 0 {
                    return Err(EvalError::InvalidNullPointerUsage);
                }
                (v, align)
            },
            PrimVal::Undef => return Err(EvalError::ReadUndefBytes),
        };
        let enforce_alignment = match access {
            Some(AccessKind::Read) => self.reads_are_aligned,
            Some(AccessKind::Write) => self.writes_are_aligned,
            None => true,
        };
        if !enforce_alignment {
            return Ok(());
        }
        if alloc_align < align {
            return Err(EvalError::AlignmentCheckFailed { has: alloc_align, required: align });
        }
        let rem = offset % (align as u128);
        if rem == 0 {
            Ok(())
        } else {
            Err(EvalError::AlignmentCheckFailed { has: rem as u64, required: align })
        }
    }

    /// An integer address reduced modulo 2 to the pointer width in bits.
    fn truncate_address(&self, bytes: u128) -> (r: u128)
        requires
            self.wf(),
        ensures
            r == bytes as int % pow2(self.target().bits()) as int,
    {
        let bits = self.layout.pointer_size * 8;
        proof {
            crate::pointer::lemma_u128_shl_pow2(bits as u128);
            vstd::arithmetic::power2::lemma_pow2_pos(bits as nat);
        }
        let m: u128 = 1u128 << (bits as u128);
        bytes % m
    }
}


impl Allocation {
    /// Byte `o` is the first in `offset..offset + len` whose lock refuses the access.
    pub open spec fn is_first_conflict(
        &self,
        frame: Option<usize>,
        offset: u64,
        len: u64,
        access: AccessKind,
        o: u64,
    ) -> bool {
        &&& offset <= o < offset + len
        &&& !crate::lock::spec_access_permitted(self.active_at(o), frame, access)
        &&& forall|p: u64|
            offset <= p < o ==> crate::lock::spec_access_permitted(
                #[trigger] self.active_at(p),
                frame,
                access,
            )
    }

    /// Some byte in `offset..offset + len` has a lock that refuses the access.
    pub open spec fn has_conflict(
        &self,
        frame: Option<usize>,
        offset: u64,
        len: u64,
        access: AccessKind,
    ) -> bool {
        exists|o: u64|
            offset <= o < offset + len && !crate::lock::spec_access_permitted(
                #[trigger] self.active_at(o),
                frame,
                access,
            )
    }
}

impl Memory {
    /// `after` and `r` are what `deallocate` makes of this memory.
    pub open spec fn deallocate_outcome(&self, after: Memory, r: Result<(), EvalError>, ptr: MemoryPointer, size_and_align: Option<(u64, u64)>, kind: MemoryKind) -> bool {
        &&& (after.target() == self.target())
        &&& (after.frame() == self.frame())
        &&& (after.capacity() == self.capacity())
        &&& (after.next_id() == self.next_id())
        &&& (after.function_list() == self.function_list())
        &&& (after.function_ids() == self.function_ids())
        &&& (after.literal_cache() == self.literal_cache())
        &&& (after.reads_aligned() == self.reads_aligned())
        &&& (after.writes_aligned() == self.writes_aligned())
        &&& (ptr.offset != 0 ==> r == Err::<(), EvalError>(EvalError::DeallocateNonBasePtr)
                && after.allocs() == self.allocs() && after.usage() == self.usage())
        &&& (ptr.offset == 0 ==> match spec_id_to_kind(ptr.alloc_id@) {
                AllocIdKind::Function(_) => r == Err::<(), EvalError>(
                    EvalError::DeallocatedFunction(kind),
                ) && after.allocs() == self.allocs() && after.usage() == self.usage(),
                AllocIdKind::Runtime(i) => if !self.allocs().contains_key(i) {
                    r == Err::<(), EvalError>(EvalError::DoubleFree) && after.allocs()
                        == self.allocs() && after.usage() == self.usage()
                } else {
                    let a = self.allocs()[i];
                    let frame = Some(self.frame());
                    &&& after.allocs() == self.allocs().remove(i)
                    &&& if a.has_conflict(frame, 0, a.bytes@.len() as u64, AccessKind::Read) {
                        &&& r matches Err(EvalError::DeallocatedLockedMemory { ptr: p, lock: l })
                        &&& p == ptr
                        &&& exists|o: u64|
                            a.is_first_conflict(frame, 0, a.bytes@.len() as u64, AccessKind::Read, o)
                                && l@ == a.active_at(o)
                        &&& after.usage() == self.usage()
                    } else if a.kind != kind {
                        &&& r == Err::<(), EvalError>(
                            EvalError::DeallocatedWrongMemoryKind(a.kind, kind),
                        )
                        &&& after.usage() == self.usage()
                    } else if size_and_align matches Some((sz, al)) && (sz != a.bytes@.len()
                        || al != a.align) {
                        &&& r == Err::<(), EvalError>(EvalError::IncorrectAllocationInformation)
                        &&& after.usage() == self.usage()
                    } else {
                        &&& r == Ok::<(), EvalError>(())
                        &&& after.usage() == self.usage() - a.bytes@.len()
                    }
                }
            })
    }

    /// Frees the allocation `ptr` points to, which must be of the given kind
    /// and, when given, of the given size and alignment.
    pub fn deallocate(
        &mut self,
        ptr: MemoryPointer,
        size_and_align: Option<(u64, u64)>,
        kind: MemoryKind,
    ) -> (r: Result<(), EvalError>)
        requires
            old(self).wf(),
        ensures
            final(self).wf(),
            old(self).deallocate_outcome(*final(self), r, ptr, size_and_align, kind),
    {
        if ptr.offset != 0 {
            return Err(EvalError::DeallocateNonBasePtr);
        }
        let alloc_id = match ptr.alloc_id.into_alloc_id_kind() {
            AllocIdKind::Function(_) => {
                return Err(EvalError::DeallocatedFunction(kind));
            },
            AllocIdKind::Runtime(id) => id,
        };
        let removed = self.alloc_map.remove(&alloc_id);
        let alloc = match removed {
            Some(alloc) => alloc,
            None => {
                assert(self.alloc_map@ =~= old(self).alloc_map@);
                return Err(EvalError::DoubleFree);
            },
        };
        proof {
            lemma_total_size_remove(old(self).alloc_map@, alloc_id);
        }
        let len = alloc.bytes.len() as u64;
        match alloc.check_locks(Some(self.cur_frame), 0, len, AccessKind::Read) {
            Ok(()) => {},
            Err(lock) => {
                return Err(EvalError::DeallocatedLockedMemory { ptr, lock });
            },
        }
        if alloc.kind != kind {
            return Err(EvalError::DeallocatedWrongMemoryKind(alloc.kind, kind));
        }
        if let Some((size, align)) = size_and_align {
            if size != len || align != alloc.align {
                return Err(EvalError::IncorrectAllocationInformation);
            }
        }
        self.memory_usage = self.memory_usage - len;
        Ok(())
    }

    /// Checks an access to `len` bytes at `ptr` against the locks on them.
    pub fn check_locks(&self, ptr: MemoryPointer, len: u64, access: AccessKind) -> (r: Result<
        (),
        EvalError,
    >)
        requires
            self.wf(),
            ptr.offset + len <= u64::MAX,
        ensures
            len == 0 ==> r == Ok::<(), EvalError>(()),
            len != 0 ==> match self.spec_get(ptr.alloc_id) {
                Err(e) => r == Err::<(), EvalError>(e),
                Ok(a) => if a.has_conflict(Some(self.frame()), ptr.offset, len, access) {
                    &&& r matches Err(
                        EvalError::MemoryLockViolation { ptr: p, len: n, frame: f, access: k, lock: l },
                    )
                    &&& p == ptr && n == len && f == self.frame() && k == access
                    &&& exists|o: u64|
                        a.is_first_conflict(Some(self.frame()), ptr.offset, len, access, o) && l@
                            == a.active_at(o)
                } else {
                    r == Ok::<(), EvalError>(())
                },
            },
    {
        if len == 0 {
            return Ok(());
        }
        let alloc = self.get(ptr.alloc_id)?;
        let frame = self.cur_frame;
        match alloc.check_locks(Some(frame), ptr.offset, len, access) {
            Ok(()) => Ok(()),
            Err(lock) => Err(EvalError::MemoryLockViolation { ptr, len, frame, access, lock }),
        }
    }

    /// `after` and `r` are what applying `op` to the `len` bytes at `ptr`
    /// makes of this memory, whose allocation there exists.
    pub open spec fn lock_op_outcome(&self, after: Memory, ptr: MemoryPointer, len: u64, op: LockOp, r: Result<(), Lock>) -> bool {
        let i = Memory::runtime_index(ptr.alloc_id);
        &&& after.allocs().contains_key(i)
        &&& after.allocs().remove(i) == self.allocs().remove(i)
        &&& self.allocs()[i].op_outcome(&after.allocs()[i], op, ptr.offset, len, r)
    }

    /// Applies `op` to the `len` bytes at `ptr` of an allocation that exists.
    fn apply_lock_op(&mut self, ptr: MemoryPointer, len: u64, op: LockOp) -> (r: Result<(), Lock>)
        requires
            old(self).wf(),
            old(self).spec_get(ptr.alloc_id) is Ok,
            ptr.offset + len <= u64::MAX,
            old(self).spec_get(ptr.alloc_id)->Ok_0.op_reachable_bytes_fine(op, ptr.offset, len),
        ensures
            final(self).wf(),
            final(self).same_but_allocs(old(self)),
            old(self).lock_op_outcome(*final(self), ptr, len, op, r),
    {
        let i = match ptr.alloc_id.into_alloc_id_kind() {
            AllocIdKind::Runtime(i) => i,
            AllocIdKind::Function(_) => {
                proof {
                    assert(false);
                }
                0
            },
        };
        let mut alloc = self.take_alloc(i);
        let r = alloc.apply_lock_op(ptr.offset, len, op);
        self.put_alloc(i, alloc);
        proof {
            assert(self.allocs().remove(i) =~= old(self).allocs().remove(i));
        }
        r
    }

    /// `after` and `r` are what `acquire_lock` makes of this memory.
    pub open spec fn acquire_lock_outcome(
        &self,
        after: Memory,
        r: Result<(), EvalError>,
        ptr: MemoryPointer,
        len: u64,
        region: Option<u64>,
        kind: AccessKind,
    ) -> bool {
        let op = LockOp::Acquire { kind, lifetime: DynamicLifetime { frame: self.frame(), region } };
        let (end, over) = crate::pointer::spec_overflowing_offset(self.target().bits(), ptr.offset, len);
        if over {
            r == Err::<(), EvalError>(EvalError::OverflowingMath) && after.allocs() == self.allocs()
        } else {
            match self.spec_check_bounds(MemoryPointer { alloc_id: ptr.alloc_id, offset: end }, true) {
                Err(e) => r == Err::<(), EvalError>(e) && after.allocs() == self.allocs(),
                Ok(()) => match r {
                    Ok(()) => self.lock_op_outcome(after, ptr, len, op, Ok(())),
                    Err(EvalError::MemoryAcquireConflict { ptr: p, len: n, kind: k, lock: l }) => p
                        == ptr && n == len && k == kind && self.lock_op_outcome(
                        after,
                        ptr,
                        len,
                        op,
                        Err(l),
                    ),
                    Err(_) => false,
                },
            }
        }
    }

    /// Takes a lock of kind `kind` on the `len` bytes at `ptr` for the current
    /// frame and `region`; a byte whose lock refuses that ends the work there.
    pub fn acquire_lock(&mut self, ptr: MemoryPointer, len: u64, region: Option<u64>, kind: AccessKind) -> (r:
        Result<(), EvalError>)
        requires
            old(self).wf(),
            len > 0,
        ensures
            final(self).wf(),
            final(self).same_but_allocs(old(self)),
            old(self).acquire_lock_outcome(*final(self), r, ptr, len, region, kind),
    {
        let frame = self.cur_frame;
        let end = ptr.offset(len, &self.layout)?;
        self.check_bounds(end, true)?;
        proof {
            crate::pointer::lemma_offset_fits(self.layout, ptr.offset, len);
        }
        let lifetime = DynamicLifetime { frame, region };
        let op = LockOp::Acquire { kind, lifetime };
        match self.apply_lock_op(ptr, len, op) {
            Ok(()) => Ok(()),
            Err(lock) => Err(EvalError::MemoryAcquireConflict { ptr, len, kind, lock }),
        }
    }

    /// Once a frame has acquired a lock on a range, the lock check of an
    /// access of that kind by the same frame passes on the whole range.
    pub proof fn law_acquire_then_check_locks(
        &self,
        after: Memory,
        ptr: MemoryPointer,
        len: u64,
        region: Option<u64>,
        kind: AccessKind,
    )
        requires
            self.wf(),
            after.same_but_allocs(self),
            self.acquire_lock_outcome(after, Ok(()), ptr, len, region, kind),
        ensures
            after.spec_get(ptr.alloc_id) is Ok,
            !after.spec_get(ptr.alloc_id)->Ok_0.has_conflict(Some(after.frame()), ptr.offset, len, kind),
    {
        let op = LockOp::Acquire { kind, lifetime: DynamicLifetime { frame: self.frame(), region } };
        let i = Memory::runtime_index(ptr.alloc_id);
        crate::pointer::lemma_offset_fits(self.target(), ptr.offset, len);
        let a = self.allocs()[i];
        let b = after.allocs()[i];
        crate::locking::law_acquired_lock_admits_holder(
            a,
            b,
            ptr.offset,
            len,
            kind,
            DynamicLifetime { frame: self.frame(), region },
        );
        assert(after.spec_get(ptr.alloc_id) == Ok::<Allocation, EvalError>(b));
    }

    /// `after` and `r` are what `suspend_write_lock` makes of this memory.
    pub open spec fn suspend_write_lock_outcome(
        &self,
        after: Memory,
        r: Result<(), EvalError>,
        ptr: MemoryPointer,
        len: u64,
        lock_path: u64,
        suspend: Option<u64>,
    ) -> bool {
        let op = LockOp::Suspend {
            frame: self.frame(),
            id: WriteLockId { frame: self.frame(), path: lock_path },
            region: suspend,
        };
        match self.spec_get(ptr.alloc_id) {
            Err(e) => r == Err::<(), EvalError>(e) && after.allocs() == self.allocs(),
            Ok(_) => match r {
                Ok(()) => self.lock_op_outcome(after, ptr, len, op, Ok(())),
                Err(EvalError::InvalidMemoryLockRelease { ptr: p, len: n, frame: f, lock: l }) => p
                    == ptr && n == len && f == self.frame() && self.lock_op_outcome(
                    after,
                    ptr,
                    len,
                    op,
                    Err(l),
                ),
                Err(_) => false,
            },
        }
    }

    /// Releases the current frame's write lock on the `len` bytes at `ptr`,
    /// and, when `suspend` gives a region, registers a suspension of the
    /// write lock named by `lock_path` for it.  Releasing where a read lock
    /// or another frame's write lock is in effect is an error; so is
    /// suspending such a lock that is not suspended yet.  Where no lock is
    /// held, both are fine.
    pub fn suspend_write_lock(&mut self, ptr: MemoryPointer, len: u64, lock_path: u64, suspend: Option<u64>) -> (r:
        Result<(), EvalError>)
        requires
            old(self).wf(),
            len > 0,
            ptr.offset + len <= u64::MAX,
        ensures
            final(self).wf(),
            final(self).same_but_allocs(old(self)),
            old(self).suspend_write_lock_outcome(*final(self), r, ptr, len, lock_path, suspend),
    {
        let cur_frame = self.cur_frame;
        let _ = self.get(ptr.alloc_id)?;
        let op = LockOp::Suspend {
            frame: cur_frame,
            id: WriteLockId { frame: cur_frame, path: lock_path },
            region: suspend,
        };
        match self.apply_lock_op(ptr, len, op) {
            Ok(()) => Ok(()),
            Err(lock) => Err(EvalError::InvalidMemoryLockRelease { ptr, len, frame: cur_frame, lock }),
        }
    }

    /// The operation `recover_write_lock` applies to each byte.
    pub open spec fn recover_op(&self, lock_path: u64, lock_region: Option<u64>, suspended_region: u64) -> LockOp {
        LockOp::Recover {
            frame: self.frame(),
            id: WriteLockId { frame: self.frame(), path: lock_path },
            lock_region,
            suspended_region,
        }
    }

    /// Suspending the write locks this frame holds on a range for region
    /// `s` succeeds; recovering that suspension with the locks' own region
    /// then may be asked for, succeeds, and gives the range back the locks
    /// it had, with no suspension of the lock left.
    pub proof fn law_suspend_then_recover_write_lock(
        &self,
        mid: Memory,
        after: Memory,
        ptr: MemoryPointer,
        len: u64,
        lock_path: u64,
        s: u64,
        lock_region: Option<u64>,
        r1: Result<(), EvalError>,
        r2: Result<(), EvalError>,
    )
        requires
            self.spec_get(ptr.alloc_id) matches Ok(a) && forall|o: u64|
                ptr.offset <= o < ptr.offset + len ==> (#[trigger] a.info_at(o)).active == LockView::WriteLock(
                    DynamicLifetime { frame: self.frame(), region: lock_region },
                ) && crate::locking::suspension_keys(a.info_at(o).suspended).index_of_first(
                    WriteLockId { frame: self.frame(), path: lock_path },
                ) is None,
            self.suspend_write_lock_outcome(mid, r1, ptr, len, lock_path, Some(s)),
            mid.same_but_allocs(self),
            mid.recover_write_lock_outcome(after, r2, ptr, len, lock_path, lock_region, s),
        ensures
            r1 is Ok,
            mid.spec_get(ptr.alloc_id) matches Ok(b) && b.op_reachable_bytes_fine(
                mid.recover_op(lock_path, lock_region, s),
                ptr.offset,
                len,
            ),
            r2 is Ok,
            after.spec_get(ptr.alloc_id) matches Ok(c) && forall|o: u64| #[trigger] c.info_at(o)
                == self.spec_get(ptr.alloc_id)->Ok_0.info_at(o),
    {
        let id = WriteLockId { frame: self.frame(), path: lock_path };
        let a = self.spec_get(ptr.alloc_id)->Ok_0;
        let i = Memory::runtime_index(ptr.alloc_id);
        let b = mid.allocs()[i];
        let suspend = LockOp::Suspend { frame: self.frame(), id, region: Some(s) };
        let recover = LockOp::Recover { frame: self.frame(), id, lock_region, suspended_region: s };
        if let Err(e) = r1 {
            if let EvalError::InvalidMemoryLockRelease { ptr: p, len: n, frame: f, lock: l } = e {
                let c = mid.allocs()[i];
                crate::locking::law_suspend_then_recover(
                    a, c, c, ptr.offset, len, id, lock_region, s, Err(l), Ok(()),
                );
            }
            assert(false);
        }
        assert(mid.spec_get(ptr.alloc_id) == Ok::<Allocation, EvalError>(b));
        let c = after.allocs()[i];
        match r2 {
            Ok(()) => {
                crate::locking::law_suspend_then_recover(a, b, c, ptr.offset, len, id, lock_region, s, Ok(()), Ok(()));
            },
            Err(e) => {
                if let EvalError::MemoryAcquireConflict { ptr: p, len: n, kind: k, lock: l } = e {
                    crate::locking::law_suspend_then_recover(a, b, c, ptr.offset, len, id, lock_region, s, Ok(()), Err(l));
                }
                assert(false);
            },
        }
        assert(after.spec_get(ptr.alloc_id) == Ok::<Allocation, EvalError>(c));
    }

    /// `after` and `r` are what `recover_write_lock` makes of this memory.
    pub open spec fn recover_write_lock_outcome(
        &self,
        after: Memory,
        r: Result<(), EvalError>,
        ptr: MemoryPointer,
        len: u64,
        lock_path: u64,
        lock_region: Option<u64>,
        suspended_region: u64,
    ) -> bool {
        let op = self.recover_op(lock_path, lock_region, suspended_region);
        match self.spec_get(ptr.alloc_id) {
            Err(e) => r == Err::<(), EvalError>(e) && after.allocs() == self.allocs(),
            Ok(_) => match r {
                Ok(()) => self.lock_op_outcome(after, ptr, len, op, Ok(())),
                Err(EvalError::MemoryAcquireConflict { ptr: p, len: n, kind: k, lock: l }) => p
                    == ptr && n == len && k == AccessKind::Write && self.lock_op_outcome(
                    after,
                    ptr,
                    len,
                    op,
                    Err(l),
                ),
                Err(_) => false,
            },
        }
    }

    /// Removes one suspension for `suspended_region` of the write lock named
    /// by `lock_path` from the `len` bytes at `ptr`; on a byte where none is
    /// left, the current frame takes the write lock again for `lock_region`,
    /// which is an error where another lock is in effect.
    pub fn recover_write_lock(
        &mut self,
        ptr: MemoryPointer,
        len: u64,
        lock_path: u64,
        lock_region: Option<u64>,
        suspended_region: u64,
    ) -> (r: Result<(), EvalError>)
        requires
            old(self).wf(),
            len > 0,
            ptr.offset + len <= u64::MAX,
            old(self).spec_get(ptr.alloc_id) matches Ok(a) ==> a.op_reachable_bytes_fine(
                old(self).recover_op(lock_path, lock_region, suspended_region),
                ptr.offset,
                len,
            ),
        ensures
            final(self).wf(),
            final(self).same_but_allocs(old(self)),
            old(self).recover_write_lock_outcome(
                *final(self),
                r,
                ptr,
                len,
                lock_path,
                lock_region,
                suspended_region,
            ),
    {
        let cur_frame = self.cur_frame;
        let _ = self.get(ptr.alloc_id)?;
        let op = LockOp::Recover {
            frame: cur_frame,
            id: WriteLockId { frame: cur_frame, path: lock_path },
            lock_region,
            suspended_region,
        };
        match self.apply_lock_op(ptr, len, op) {
            Ok(()) => Ok(()),
            Err(lock) => Err(
                EvalError::MemoryAcquireConflict { ptr, len, kind: AccessKind::Write, lock },
            ),
        }
    }

    /// The indices of the allocations, each once.
    fn alloc_indices(&self) -> (r: Vec<u64>)
        ensures
            r@.to_set() == self.allocs().dom(),
            r@.no_duplicates(),
    {
        let keys = self.alloc_map.keys();
        let ghost s = keys.remaining();
        proof {
            assert(keys == vstd::std_specs::hash::spec_keys_iter(&self.alloc_map));
        }
        let mut out: Vec<u64> = Vec::new();
        for k in it: keys
            invariant
                it.seq() == s,
                s.unref().to_set() == self.alloc_map@.dom(),
                s.no_duplicates(),
                out@ == s.unref().take(it.index() as int),
        {
            let ghost idx = it.index();
            proof {
                assert(k == s[idx as int]);
            }
            out.push(*k);
            proof {
                assert(out@ =~= s.unref().take(idx + 1));
            }
        }
        proof {
            assert(out@ =~= s.unref());
            assert(s.unref().no_duplicates()) by {
                assert forall|a: int, b: int|
                    0 <= a < s.len() && 0 <= b < s.len() && a != b implies s.unref()[a]
                    != s.unref()[b] by {
                    assert(s[a] != s[b]);
                }
            }
        }
        out
    }

    /// Releases, in every allocation, the locks of the current frame that
    /// end with region `ending_region`; `None` means the frame returns, which
    /// ends all its locks and drops its suspensions.
    pub fn locks_lifetime_ended(&mut self, ending_region: Option<u64>)
        requires
            old(self).wf(),
        ensures
            final(self).wf(),
            final(self).same_but_allocs(old(self)),
            final(self).allocs().dom() == old(self).allocs().dom(),
            forall|i: u64| #[trigger]
                old(self).allocs().contains_key(i) ==> {
                    let a = old(self).allocs()[i];
                    let b = final(self).allocs()[i];
                    &&& b.same_but_locks(&a)
                    &&& b.lock_view() == crate::locking::ended_lock_map(
                        a.lock_view(),
                        old(self).frame(),
                        ending_region,
                    )
                },
    {
        let cur_frame = self.cur_frame;
        let keys = self.alloc_indices();
        let ghost before = self.allocs();
        let mut j: usize = 0;
        while j < keys.len()
            invariant
                j <= keys@.len(),
                keys@.to_set() == before.dom(),
                keys@.no_duplicates(),
                before == old(self).allocs(),
                cur_frame == old(self).frame(),
                self.wf(),
                self.same_but_allocs(old(self)),
                self.allocs().dom() == before.dom(),
                forall|i: u64| #[trigger]
                    self.allocs().contains_key(i) ==> if keys@.take(j as int).contains(i) {
                        let a = before[i];
                        let b = self.allocs()[i];
                        &&& b.same_but_locks(&a)
                        &&& b.lock_view() == crate::locking::ended_lock_map(
                            a.lock_view(),
                            cur_frame,
                            ending_region,
                        )
                    } else {
                        self.allocs()[i] == before[i]
                    },
            decreases keys@.len() - j,
        {
            let i = keys[j];
            proof {
                assert(keys@.to_set().contains(i)) by {
                    assert(keys@.contains(i));
                }
                assert(!keys@.take(j as int).contains(i)) by {
                    if keys@.take(j as int).contains(i) {
                        let m = choose|m: int| 0 <= m < j && keys@.take(j as int)[m] == i;
                        assert(keys@[m] == keys@[j as int]);
                    }
                }
            }
            let ghost pre = self.allocs();
            let mut alloc = self.take_alloc(i);
            alloc.end_lifetimes(cur_frame, ending_region);
            self.put_alloc(i, alloc);
            proof {
                let t1 = keys@.take(j + 1);
                let t0 = keys@.take(j as int);
                assert(t1 =~= t0.push(i));
                assert forall|o: u64| #[trigger] t1.contains(o) <==> (t0.contains(o) || o == i) by {
                    if t1.contains(o) {
                        let m = choose|m: int| 0 <= m < t1.len() && t1[m] == o;
                        if m < j {
                            assert(t0[m] == o);
                        }
                    }
                    if t0.contains(o) {
                        let m = choose|m: int| 0 <= m < t0.len() && t0[m] == o;
                        assert(t1[m] == o);
                    }
                    if o == i {
                        assert(t1[j as int] == o);
                    }
                }
                assert(self.allocs().dom() =~= before.dom());
            }
            j = j + 1;
        }
        proof {
            assert(keys@.take(keys@.len() as int) =~= keys@);
            assert forall|i: u64| keys@.contains(i) <==> before.contains_key(i) by {
                assert(keys@.to_set().contains(i) == keys@.contains(i));
            }
        }
    }

    /// `after` and `r` are what asking for a pointer to the function
    /// `instance` makes of this memory: the pointer it gave before, or a new
    /// one at the end of the function list.
    pub open spec fn fn_alloc_outcome(&self, after: Memory, r: MemoryPointer, instance: Instance) -> bool {
        &&& after.target() == self.target()
        &&& after.frame() == self.frame()
        &&& after.capacity() == self.capacity()
        &&& after.usage() == self.usage()
        &&& after.next_id() == self.next_id()
        &&& after.allocs() == self.allocs()
        &&& after.literal_cache() == self.literal_cache()
        &&& after.reads_aligned() == self.reads_aligned()
        &&& after.writes_aligned() == self.writes_aligned()
        &&& r.offset == 0
        &&& (self.function_ids().contains_key(instance.0) ==> {
            &&& r.alloc_id == self.function_ids()[instance.0]
            &&& after.function_list() == self.function_list()
            &&& after.function_ids() == self.function_ids()
        })
        &&& (!self.function_ids().contains_key(instance.0) ==> {
            let n = self.function_list().len();
            &&& r.alloc_id@ == n
            &&& spec_id_to_kind(r.alloc_id@) == AllocIdKind::Function(n as usize)
            &&& after.function_list() == self.function_list().push(instance)
            &&& after.function_ids() == self.function_ids().insert(instance.0, r.alloc_id)
        })
        &&& spec_id_to_kind(r.alloc_id@) matches AllocIdKind::Function(idx) && idx < after.function_list().len()
            && after.function_list()[idx as int] == instance
    }

    /// A pointer to the function `instance`, the same each time it is asked for.
    pub fn create_fn_alloc(&mut self, instance: Instance) -> (r: MemoryPointer)
        requires
            old(self).wf(),
            old(self).function_list().len() + 1 < id_bit(),
        ensures
            final(self).wf(),
            old(self).fn_alloc_outcome(*final(self), r, instance),
    {
        let flen = self.functions.len();
        if let Some(alloc_id) = self.function_alloc_cache.get(&instance.0) {
            proof {
                let fid = self.function_alloc_cache@[instance.0]@;
                assert(self.functions@[fid as int] == Instance(instance.0));
                assert(Instance(instance.0) == instance);
                assert(fid < self.functions@.len());
                assert(spec_id_to_kind(fid) == AllocIdKind::Function(fid as usize));
                assert((fid as usize) as int == fid as int);
            }
            return MemoryPointer::new(*alloc_id, 0);
        }
        let id = self.functions.len();
        self.functions.push(instance);
        let alloc_id = AllocIdKind::Function(id).into_alloc_id();
        self.function_alloc_cache.insert(instance.0, alloc_id);
        proof {
            assert forall|i: u64| #[trigger]
                self.function_alloc_cache@.contains_key(i) implies ({
                let fid = self.function_alloc_cache@[i]@;
                &&& fid < self.functions@.len()
                &&& self.functions@[fid as int] == Instance(i)
            }) by {
                if i != instance.0 {
                    let fid = old(self).function_alloc_cache@[i]@;
                    assert(self.functions@[fid as int] == old(self).functions@[fid as int]);
                }
            }
        }
        MemoryPointer::new(alloc_id, 0)
    }

    /// The function a function pointer points to.
    pub fn get_fn(&self, ptr: MemoryPointer) -> (r: Result<Instance, EvalError>)
        requires
            self.wf(),
            ptr.offset == 0 ==> (spec_id_to_kind(ptr.alloc_id@) matches AllocIdKind::Function(i)
                ==> i < self.function_list().len()),
        ensures
            ptr.offset != 0 ==> r == Err::<Instance, EvalError>(EvalError::InvalidFunctionPointer),
            ptr.offset == 0 ==> match spec_id_to_kind(ptr.alloc_id@) {
                AllocIdKind::Function(i) => r == Ok::<Instance, EvalError>(
                    self.function_list()[i as int],
                ),
                AllocIdKind::Runtime(_) => r == Err::<Instance, EvalError>(
                    EvalError::ExecuteMemory,
                ),
            },
    {
        if ptr.offset != 0 {
            return Err(EvalError::InvalidFunctionPointer);
        }
        match ptr.alloc_id.into_alloc_id_kind() {
            AllocIdKind::Function(id) => Ok(self.functions[id]),
            AllocIdKind::Runtime(_) => Err(EvalError::ExecuteMemory),
        }
    }
}

/// The first bytes of the relocations that overlap `offset..offset + size`:
/// a pointer of `ps` bytes stored at `k` overlaps it when `k` lies in this window.
pub open spec fn reloc_window(ps: nat, offset: u64, size: u64) -> (int, int) {
    (if offset >= ps - 1 {
        offset - (ps - 1)
    } else {
        0
    }, offset + size)
}

/// Some relocation starts in `lo..hi`.
pub open spec fn has_reloc_in(m: Map<u64, AllocId>, lo: int, hi: int) -> bool {
    exists|k: u64| lo <= k < hi && #[trigger] m.contains_key(k)
}

/// `k` is the least relocation offset in `lo..hi`.
pub open spec fn is_min_reloc(m: Map<u64, AllocId>, lo: int, hi: int, k: u64) -> bool {
    &&& lo <= k < hi
    &&& m.contains_key(k)
    &&& forall|j: u64| lo <= j < hi && #[trigger] m.contains_key(j) ==> k <= j
}

/// `k` is the greatest relocation offset in `lo..hi`.
pub open spec fn is_max_reloc(m: Map<u64, AllocId>, lo: int, hi: int, k: u64) -> bool {
    &&& lo <= k < hi
    &&& m.contains_key(k)
    &&& forall|j: u64| lo <= j < hi && #[trigger] m.contains_key(j) ==> j <= k
}

/// The least relocation offset in `lo..hi`, when there is one.
pub open spec fn min_reloc(m: Map<u64, AllocId>, lo: int, hi: int) -> u64 {
    choose|k: u64| is_min_reloc(m, lo, hi, k)
}

/// The greatest relocation offset in `lo..hi`, when there is one.
pub open spec fn max_reloc(m: Map<u64, AllocId>, lo: int, hi: int) -> u64 {
    choose|k: u64| is_max_reloc(m, lo, hi, k)
}

/// The undefined-byte mask of `a` after the relocations overlapping
/// `offset..offset + size` are cleared.
pub open spec fn cleared_mask(a: Allocation, ps: nat, offset: u64, size: u64) -> Seq<bool> {
    let (lo, hi) = reloc_window(ps, offset, size);
    if has_reloc_in(a.relocations@, lo, hi) {
        mask_after_clear(
            a.undef_mask@,
            offset,
            size,
            min_reloc(a.relocations@, lo, hi),
            max_reloc(a.relocations@, lo, hi) + ps,
        )
    } else {
        a.undef_mask@
    }
}

/// The relocation map without its entries in `lo..hi`.
pub open spec fn without_range(m: Map<u64, AllocId>, lo: int, hi: int) -> Map<u64, AllocId> {
    m.remove_keys(Set::new(|k: u64| lo <= k < hi))
}

/// The undefined-byte mask after clearing the relocations that overlap
/// `offset..offset + size`: the parts of the outermost ones that stick out
/// of the range become undefined.
pub open spec fn mask_after_clear(
    mask: Seq<bool>,
    offset: u64,
    size: u64,
    first: u64,
    last_end: int,
) -> Seq<bool> {
    let m1 = if first < offset {
        crate::undef_mask::seq_set_range(mask, first as int, offset as int, false)
    } else {
        mask
    };
    if last_end > offset + size {
        crate::undef_mask::seq_set_range(m1, offset + size, last_end, false)
    } else {
        m1
    }
}

impl Memory {
    /// Everything but the allocations is the same in both memories.
    pub open spec fn same_but_allocs(&self, other: &Memory) -> bool {
        &&& self.target() == other.target()
        &&& self.frame() == other.frame()
        &&& self.capacity() == other.capacity()
        &&& self.usage() == other.usage()
        &&& self.next_id() == other.next_id()
        &&& self.function_list() == other.function_list()
        &&& self.function_ids() == other.function_ids()
        &&& self.literal_cache() == other.literal_cache()
        &&& self.reads_aligned() == other.reads_aligned()
        &&& self.writes_aligned() == other.writes_aligned()
    }

    /// The runtime index an id names, when it names one.
    pub open spec fn runtime_index(id: AllocId) -> u64 {
        match spec_id_to_kind(id@) {
            AllocIdKind::Runtime(i) => i,
            AllocIdKind::Function(_) => 0,
        }
    }

    /// The relocations overlapping `size` bytes at `ptr`.
    fn relocations(&self, ptr: MemoryPointer, size: u64) -> (r: Result<Vec<(u64, AllocId)>, EvalError>)
        requires
            self.wf(),
            ptr.offset + size <= u64::MAX,
        ensures
            match self.spec_get(ptr.alloc_id) {
                Err(e) => r == Err::<Vec<(u64, AllocId)>, EvalError>(e),
                Ok(a) => r matches Ok(v) && crate::allocation::is_range_of(
                    v@,
                    a.relocations@,
                    reloc_window(self.ptr_size(), ptr.offset, size).0,
                    reloc_window(self.ptr_size(), ptr.offset, size).1,
                ),
            },
    {
        let start = ptr.offset.saturating_sub(self.layout.pointer_size - 1);
        let end = ptr.offset + size;
        let a = self.get(ptr.alloc_id)?;
        Ok(a.relocations_in(start, end))
    }

    /// Forgets the relocations overlapping `size` bytes at `ptr`, making the
    /// parts of them that stick out of the range undefined.
    fn clear_relocations(&mut self, ptr: MemoryPointer, size: u64) -> (r: Result<(), EvalError>)
        requires
            old(self).wf(),
            ptr.offset + size <= u64::MAX,
        ensures
            final(self).wf(),
            final(self).same_but_allocs(old(self)),
            ({
                let (lo, hi) = reloc_window(old(self).ptr_size(), ptr.offset, size);
                match old(self).spec_get(ptr.alloc_id) {
                    Err(e) => r == Err::<(), EvalError>(e) && final(self).allocs() == old(self).allocs(),
                    Ok(a) => if !has_reloc_in(a.relocations@, lo, hi) {
                        r == Ok::<(), EvalError>(()) && final(self).allocs() == old(self).allocs()
                    } else if a.mutable != Mutability::Mutable {
                        r == Err::<(), EvalError>(EvalError::ModifiedConstantMemory) && final(self).allocs() == old(self).allocs()
                    } else {
                        let i = Memory::runtime_index(ptr.alloc_id);
                        let b = final(self).allocs()[i];
                        &&& r == Ok::<(), EvalError>(())
                        &&& final(self).allocs().contains_key(i)
                        &&& final(self).allocs().remove(i) == old(self).allocs().remove(i)
                        &&& b.bytes == a.bytes && b.align == a.align && b.mutable == a.mutable
                            && b.kind == a.kind && b.locks == a.locks
                        &&& b.relocations@ == without_range(a.relocations@, lo, hi)
                        &&& b.undef_mask@ == cleared_mask(a, old(self).ptr_size(), ptr.offset, size)
                    }
                }
            }),
    {
        let keys = self.relocations(ptr, size)?;
        let ghost lo = reloc_window(self.ptr_size(), ptr.offset, size).0;
        let ghost hi = reloc_window(self.ptr_size(), ptr.offset, size).1;
        if keys.len() == 0 {
            proof {
                let a = self.spec_get(ptr.alloc_id)->Ok_0;
                if has_reloc_in(a.relocations@, lo, hi) {
                    let k = choose|k: u64| lo <= k < hi && #[trigger] a.relocations@.contains_key(k);
                    assert(exists|i: int| 0 <= i < keys@.len() && keys@[i].0 == k);
                }
            }
            return Ok(());
        }
        let start = ptr.offset;
        let end = start + size;
        let mut first = keys[0].0;
        let mut last = keys[0].0;
        let mut j: usize = 1;
        while j < keys.len()
            invariant
                1 <= j <= keys@.len(),
                exists|i: int| 0 <= i < j && keys@[i].0 == first,
                exists|i: int| 0 <= i < j && keys@[i].0 == last,
                forall|i: int| 0 <= i < j ==> first <= #[trigger] keys@[i].0 <= last,
            decreases keys@.len() - j,
        {
            if keys[j].0 < first {
                first = keys[j].0;
            }
            if keys[j].0 > last {
                last = keys[j].0;
            }
            j = j + 1;
        }
        let i = match ptr.alloc_id.into_alloc_id_kind() {
            AllocIdKind::Runtime(i) => i,
            AllocIdKind::Function(_) => {
                return Err(EvalError::DerefFunctionPointer);
            },
        };
        let ghost a = self.alloc_map@[i];
        proof {
            assert(is_min_reloc(a.relocations@, lo, hi, first));
            assert(is_max_reloc(a.relocations@, lo, hi, last));
            let cf = min_reloc(a.relocations@, lo, hi);
            let cl = max_reloc(a.relocations@, lo, hi);
            assert(is_min_reloc(a.relocations@, lo, hi, cf));
            assert(is_max_reloc(a.relocations@, lo, hi, cl));
            assert(cf == first);
            assert(cl == last);
            assert(last + self.layout.pointer_size <= a.bytes@.len());
        }
        let ghost old_map = self.alloc_map@;
        let mutable = self.alloc_map.get(&i).unwrap().mutable;
        if mutable != Mutability::Mutable {
            return Err(EvalError::ModifiedConstantMemory);
        }
        let mut alloc = self.alloc_map.remove(&i).unwrap();
        assert(alloc == a);
        proof {
            a.undef_mask.lemma_len_bound();
        }
        let last_end = last + self.layout.pointer_size;
        let ghost m0 = alloc.undef_mask@;
        if first < start {
            alloc.undef_mask.set_range(first, start, false);
        }
        let ghost m1 = alloc.undef_mask@;
        assert(m1 == if first < ptr.offset {
            crate::undef_mask::seq_set_range(m0, first as int, ptr.offset as int, false)
        } else {
            m0
        });
        if last_end > end {
            alloc.undef_mask.set_range(end, last_end, false);
        }
        let ghost um = alloc.undef_mask;
        let mut t: usize = 0;
        while t < keys.len()
            invariant
                0 <= t <= keys@.len(),
                alloc.undef_mask == um,
                alloc.bytes == a.bytes,
                alloc.align == a.align,
                alloc.mutable == a.mutable,
                alloc.kind == a.kind,
                alloc.locks == a.locks,
                crate::allocation::is_range_of(keys@, a.relocations@, lo, hi),
                alloc.relocations@ == a.relocations@.remove_keys(
                    Set::new(|k: u64| exists|q: int| 0 <= q < t && keys@[q].0 == k),
                ),
            decreases keys@.len() - t,
        {
            let k = keys[t].0;
            alloc.relocations.remove(&k);
            proof {
                lemma_u64_keys_ordered();
                assert(alloc.relocations@ =~= a.relocations@.remove_keys(
                    Set::new(|k: u64| exists|q: int| 0 <= q < t + 1 && keys@[q].0 == k),
                ));
            }
            t = t + 1;
        }
        proof {
            assert(Set::new(|k: u64| exists|q: int| 0 <= q < keys@.len() && keys@[q].0 == k).intersect(a.relocations@.dom())
                =~= Set::new(|k: u64| lo <= k < hi).intersect(a.relocations@.dom()));
            assert(alloc.relocations@ =~= without_range(a.relocations@, lo, hi));
            assert(alloc.undef_mask@ == mask_after_clear(a.undef_mask@, ptr.offset, size, first, last_end as int));
            lemma_total_size_remove(old_map, i);
            lemma_total_size_replace(old_map, i, alloc);
        }
        proof {
            assert(alloc.undef_mask@.len() >= alloc.bytes@.len());
            assert(alloc.wf(self.layout.pointer_size as nat));
        }
        self.alloc_map.insert(i, alloc);
        proof {
            assert(self.alloc_map@.remove(i) =~= old_map.remove(i));
            assert(self.alloc_map@ =~= old_map.insert(i, alloc));
            assert forall|k: u64| #[trigger] self.alloc_map@.contains_key(k) implies k
                < self.next_alloc_id && self.alloc_map@[k].wf(self.layout.pointer_size as nat) by {
                if k != i {
                    assert(old_map.contains_key(k));
                }
            }
        }
        Ok(())
    }
}

/// The outcome of the checks an access makes: alignment, locks, bounds.
pub enum AccessCheck {
    Fails(EvalError),
    Locked,
    Passes,
}

/// The outcome of a read: an error, a lock refusing it, or the bytes read.
pub enum ReadOutcome {
    Fails(EvalError),
    Locked,
    Reads(Seq<u8>),
}

/// `r` is what a read with outcome `o` returns; a refusing lock is reported
/// as `is_locked` says.
pub open spec fn read_result_matches(
    r: Result<Vec<u8>, EvalError>,
    o: ReadOutcome,
    is_locked: spec_fn(EvalError) -> bool,
) -> bool {
    match o {
        ReadOutcome::Fails(e) => r == Err::<Vec<u8>, EvalError>(e),
        ReadOutcome::Locked => r matches Err(e) && is_locked(e),
        ReadOutcome::Reads(s) => r matches Ok(v) && v@ == s,
    }
}

/// All of `start..end` lies in the mask and is defined.
pub open spec fn range_defined(mask: Seq<bool>, start: int, end: int) -> bool {
    end <= mask.len() && forall|j: int| start <= j < end ==> #[trigger] mask[j]
}

/// Same alignment, mutability, kind and locks.
pub open spec fn same_meta(a: Allocation, b: Allocation) -> bool {
    &&& a.align == b.align
    &&& a.mutable == b.mutable
    &&& a.kind == b.kind
    &&& a.locks == b.locks
}

impl Memory {
    /// The allocation an id names, if it may be modified.
    pub open spec fn spec_get_mut(&self, id: AllocId) -> Result<Allocation, EvalError> {
        match self.spec_get(id) {
            Err(e) => Err(e),
            Ok(a) => if a.mutable == Mutability::Mutable {
                Ok(a)
            } else {
                Err(EvalError::ModifiedConstantMemory)
            },
        }
    }

    /// The memory is well formed except that allocation `i` has been taken
    /// out, and `size` bytes are reserved for it.
    closed spec fn wf_hole(&self, i: u64, size: nat) -> bool {
        &&& self.layout.wf()
        &&& self.alloc_map@.dom().finite()
        &&& !self.alloc_map@.contains_key(i)
        &&& i < self.next_alloc_id
        &&& forall|k: u64| #[trigger]
            self.alloc_map@.contains_key(k) ==> k < self.next_alloc_id && self.alloc_map@[k].wf(
                self.layout.pointer_size as nat,
            )
        &&& self.next_alloc_id < id_bit()
        &&& total_size(self.alloc_map@) + size <= self.memory_usage <= self.memory_size
        &&& forall|f: u64| #[trigger]
            self.function_alloc_cache@.contains_key(f) ==> {
                let id = self.function_alloc_cache@[f]@;
                &&& id < self.functions@.len()
                &&& self.functions@[id as int] == Instance(f)
            }
        &&& self.functions@.len() < id_bit()
    }

    /// Takes allocation `i` out, to be put back by `put_alloc`.
    fn take_alloc(&mut self, i: u64) -> (a: Allocation)
        requires
            old(self).wf(),
            old(self).allocs().contains_key(i),
        ensures
            a == old(self).allocs()[i],
            a.wf(old(self).ptr_size()),
            final(self).wf_hole(i, a.bytes@.len()),
            final(self).allocs() == old(self).allocs().remove(i),
            final(self).same_but_allocs(old(self)),
    {
        proof {
            lemma_total_size_remove(self.alloc_map@, i);
        }
        self.alloc_map.remove(&i).unwrap()
    }

    /// Puts allocation `i` back, with contents of the size it had.
    fn put_alloc(&mut self, i: u64, a: Allocation)
        requires
            old(self).wf_hole(i, a.bytes@.len()),
            a.wf(old(self).ptr_size()),
        ensures
            final(self).wf(),
            final(self).allocs() == old(self).allocs().insert(i, a),
            final(self).same_but_allocs(old(self)),
    {
        proof {
            lemma_total_size_insert(self.alloc_map@, i, a);
        }
        self.alloc_map.insert(i, a);
    }

    /// Marks `size` bytes at `ptr` defined or undefined.
    pub fn mark_definedness(&mut self, ptr: Pointer, size: u64, new_state: bool) -> (r: Result<
        (),
        EvalError,
    >)
        requires
            old(self).wf(),
            size != 0 ==> (ptr.primval matches PrimVal::Ptr(p) ==> p.offset + size
                <= max_mask_len()),
        ensures
            final(self).wf(),
            final(self).same_but_allocs(old(self)),
            size == 0 ==> r == Ok::<(), EvalError>(()) && final(self).allocs() == old(self).allocs(),
            size != 0 ==> match crate::pointer::spec_to_ptr(ptr) {
                Err(e) => r == Err::<(), EvalError>(e) && final(self).allocs() == old(self).allocs(),
                Ok(p) => match old(self).spec_get_mut(p.alloc_id) {
                    Err(e) => r == Err::<(), EvalError>(e) && final(self).allocs() == old(self).allocs(),
                    Ok(a) => {
                        let i = Memory::runtime_index(p.alloc_id);
                        let b = final(self).allocs()[i];
                        &&& r == Ok::<(), EvalError>(())
                        &&& final(self).allocs().contains_key(i)
                        &&& final(self).allocs().remove(i) == old(self).allocs().remove(i)
                        &&& same_meta(a, b) && b.bytes == a.bytes && b.relocations == a.relocations
                        &&& b.undef_mask@ == crate::undef_mask::seq_set_range(
                            a.undef_mask@,
                            p.offset as int,
                            p.offset + size,
                            new_state,
                        )
                    },
                },
            },
    {
        if size == 0 {
            return Ok(());
        }
        let p = ptr.to_ptr()?;
        let i = match p.alloc_id.into_alloc_id_kind() {
            AllocIdKind::Function(_) => return Err(EvalError::DerefFunctionPointer),
            AllocIdKind::Runtime(i) => i,
        };
        match self.alloc_map.get(&i) {
            None => return Err(EvalError::DanglingPointerDeref),
            Some(a) => {
                if a.mutable != Mutability::Mutable {
                    return Err(EvalError::ModifiedConstantMemory);
                }
            },
        }
        let mut alloc = self.take_alloc(i);
        let ghost a = alloc;
        alloc.undef_mask.set_range(p.offset, p.offset + size, new_state);
        proof {
            assert(alloc.undef_mask@.len() >= alloc.bytes@.len());
        }
        self.put_alloc(i, alloc);
        proof {
            assert(self.allocs().remove(i) =~= old(self).allocs().remove(i));
        }
        Ok(())
    }

    /// Checks that the `size` bytes at `ptr` are defined.
    fn check_defined(&self, ptr: MemoryPointer, size: u64) -> (r: Result<(), EvalError>)
        requires
            self.wf(),
            ptr.offset + size <= u64::MAX,
        ensures
            match self.spec_get(ptr.alloc_id) {
                Err(e) => r == Err::<(), EvalError>(e),
                Ok(a) => if range_defined(a.undef_mask@, ptr.offset as int, ptr.offset + size) {
                    r == Ok::<(), EvalError>(())
                } else {
                    r == Err::<(), EvalError>(EvalError::ReadUndefBytes)
                },
            },
    {
        let alloc = self.get(ptr.alloc_id)?;
        if !alloc.undef_mask.is_range_defined(ptr.offset, ptr.offset + size) {
            return Err(EvalError::ReadUndefBytes);
        }
        Ok(())
    }

    /// Fails when a stored pointer straddles the start or the end of the
    /// `size` bytes at `ptr`.
    fn check_relocation_edges(&self, ptr: MemoryPointer, size: u64) -> (r: Result<(), EvalError>)
        requires
            self.wf(),
        ensures
            r == self.spec_check_relocation_edges(ptr, size),
    {
        let rs0 = self.relocations(ptr, 0)?;
        let end_ptr = ptr.offset(size, &self.layout)?;
        let rs1 = self.relocations(end_ptr, 0)?;
        let overlapping_start = rs0.len();
        let overlapping_end = rs1.len();
        proof {
            let a = self.spec_get(ptr.alloc_id)->Ok_0;
            let w0 = reloc_window(self.ptr_size(), ptr.offset, 0);
            let w1 = reloc_window(self.ptr_size(), end_ptr.offset, 0);
            if has_reloc_in(a.relocations@, w0.0, w0.1) {
                let k = choose|k: u64| w0.0 <= k < w0.1 && #[trigger] a.relocations@.contains_key(k);
                assert(overlapping_start > 0);
            }
            if has_reloc_in(a.relocations@, w1.0, w1.1) {
                let k = choose|k: u64| w1.0 <= k < w1.1 && #[trigger] a.relocations@.contains_key(k);
                assert(overlapping_end > 0);
            }
            if overlapping_start > 0 {
                assert(w0.0 <= rs0@[0].0 < w0.1 && a.relocations@.contains_key(rs0@[0].0));
            }
            if overlapping_end > 0 {
                assert(w1.0 <= rs1@[0].0 < w1.1 && a.relocations@.contains_key(rs1@[0].0));
            }
        }
        if overlapping_start != 0 || overlapping_end != 0 {
            return Err(EvalError::ReadPointerAsBytes);
        }
        Ok(())
    }

    /// What `check_relocation_edges` answers.
    pub open spec fn spec_check_relocation_edges(&self, ptr: MemoryPointer, size: u64) -> Result<
        (),
        EvalError,
    > {
        match self.spec_get(ptr.alloc_id) {
            Err(e) => Err(e),
            Ok(a) => {
                let (end, over) = crate::pointer::spec_overflowing_offset(
                    self.target().bits(),
                    ptr.offset,
                    size,
                );
                let w0 = reloc_window(self.ptr_size(), ptr.offset, 0);
                let w1 = reloc_window(self.ptr_size(), end, 0);
                if over {
                    Err(EvalError::OverflowingMath)
                } else if has_reloc_in(a.relocations@, w0.0, w0.1) || has_reloc_in(
                    a.relocations@,
                    w1.0,
                    w1.1,
                ) {
                    Err(EvalError::ReadPointerAsBytes)
                } else {
                    Ok(())
                }
            },
        }
    }

    /// The alignment, lock and bounds checks of an access to `size` bytes at `ptr`.
    pub open spec fn spec_access_checks(
        &self,
        ptr: MemoryPointer,
        size: u64,
        align: u64,
        access: AccessKind,
    ) -> AccessCheck {
        match self.spec_check_align(Pointer { primval: PrimVal::Ptr(ptr) }, align, Some(access)) {
            Err(e) => AccessCheck::Fails(e),
            Ok(()) => if size == 0 {
                AccessCheck::Passes
            } else {
                match self.spec_get(ptr.alloc_id) {
                    Err(e) => AccessCheck::Fails(e),
                    Ok(a) => if a.has_conflict(Some(self.frame()), ptr.offset, size, access) {
                        AccessCheck::Locked
                    } else {
                        let (end, over) = crate::pointer::spec_overflowing_offset(
                            self.target().bits(),
                            ptr.offset,
                            size,
                        );
                        if over {
                            AccessCheck::Fails(EvalError::OverflowingMath)
                        } else if end > a.bytes@.len() {
                            AccessCheck::Fails(
                                EvalError::PointerOutOfBounds {
                                    ptr: MemoryPointer { alloc_id: ptr.alloc_id, offset: end },
                                    access: true,
                                    allocation_size: a.bytes@.len() as u64,
                                },
                            )
                        } else {
                            AccessCheck::Passes
                        }
                    },
                }
            },
        }
    }

    /// `e` reports that a lock refuses `access` to `len` bytes at `ptr`, with
    /// the lock of the first refusing byte.
    pub open spec fn is_lock_violation(
        &self,
        e: EvalError,
        ptr: MemoryPointer,
        len: u64,
        access: AccessKind,
    ) -> bool {
        &&& e matches EvalError::MemoryLockViolation { ptr: p, len: n, frame: f, access: k, lock: l }
        &&& p == ptr && n == len && f == self.frame() && k == access
        &&& exists|o: u64|
            self.spec_get(ptr.alloc_id)->Ok_0.is_first_conflict(
                Some(self.frame()),
                ptr.offset,
                len,
                access,
                o,
            ) && l@ == self.spec_get(ptr.alloc_id)->Ok_0.active_at(o)
    }

    /// Runs the alignment, lock and bounds checks of an access.
    fn access_checks(&self, ptr: MemoryPointer, size: u64, align: u64, access: AccessKind) -> (r:
        Result<(), EvalError>)
        requires
            self.wf(),
            align != 0,
            ptr.offset + size <= u64::MAX,
        ensures
            match self.spec_access_checks(ptr, size, align, access) {
                AccessCheck::Fails(e) => r == Err::<(), EvalError>(e),
                AccessCheck::Locked => r matches Err(e) && self.is_lock_violation(
                    e,
                    ptr,
                    size,
                    access,
                ),
                AccessCheck::Passes => r == Ok::<(), EvalError>(()),
            },
    {
        self.check_align(Pointer::from_ptr(ptr), align, Some(access))?;
        if size == 0 {
            return Ok(());
        }
        self.check_locks(ptr, size, access)?;
        let end = ptr.offset(size, &self.layout)?;
        self.check_bounds(end, true)?;
        Ok(())
    }

    /// The outcome of reading `size` bytes at `ptr` without looking at
    /// relocations or definedness.
    pub open spec fn spec_read_unchecked(&self, ptr: MemoryPointer, size: u64, align: u64) -> ReadOutcome {
        match self.spec_access_checks(ptr, size, align, AccessKind::Read) {
            AccessCheck::Fails(e) => ReadOutcome::Fails(e),
            AccessCheck::Locked => ReadOutcome::Locked,
            AccessCheck::Passes => ReadOutcome::Reads(
                if size == 0 {
                    Seq::<u8>::empty()
                } else {
                    self.spec_get(ptr.alloc_id)->Ok_0.bytes@.subrange(
                        ptr.offset as int,
                        ptr.offset + size,
                    )
                },
            ),
        }
    }

    /// The outcome of reading `size` bytes at `ptr` as plain bytes: no stored
    /// pointer may overlap them and all must be defined.
    pub open spec fn spec_get_bytes(&self, ptr: MemoryPointer, size: u64, align: u64) -> ReadOutcome {
        match self.spec_get(ptr.alloc_id) {
            Err(e) => ReadOutcome::Fails(e),
            Ok(a) => {
                let (lo, hi) = reloc_window(self.ptr_size(), ptr.offset, size);
                if has_reloc_in(a.relocations@, lo, hi) {
                    ReadOutcome::Fails(EvalError::ReadPointerAsBytes)
                } else if !range_defined(a.undef_mask@, ptr.offset as int, ptr.offset + size) {
                    ReadOutcome::Fails(EvalError::ReadUndefBytes)
                } else {
                    self.spec_read_unchecked(ptr, size, align)
                }
            },
        }
    }

    /// The `size` bytes at `ptr`, after the alignment, lock and bounds checks.
    fn get_bytes_unchecked(&self, ptr: MemoryPointer, size: u64, align: u64) -> (r: Result<
        Vec<u8>,
        EvalError,
    >)
        requires
            self.wf(),
            align != 0,
            ptr.offset + size <= u64::MAX,
        ensures
            read_result_matches(
                r,
                self.spec_read_unchecked(ptr, size, align),
                |e: EvalError| self.is_lock_violation(e, ptr, size, AccessKind::Read),
            ),
    {
        self.access_checks(ptr, size, align, AccessKind::Read)?;
        if size == 0 {
            return Ok(Vec::new());
        }
        let alloc = self.get(ptr.alloc_id)?;
        proof {
            crate::pointer::lemma_offset_fits(self.layout, ptr.offset, size);
        }
        Ok(alloc.read_slice(ptr.offset, size))
    }

    /// The `size` bytes at `ptr`, which must hold no pointer and be defined.
    fn get_bytes(&self, ptr: MemoryPointer, size: u64, align: u64) -> (r: Result<
        Vec<u8>,
        EvalError,
    >)
        requires
            self.wf(),
            align != 0,
            size != 0,
            ptr.offset + size <= u64::MAX,
        ensures
            read_result_matches(
                r,
                self.spec_get_bytes(ptr, size, align),
                |e: EvalError| self.is_lock_violation(e, ptr, size, AccessKind::Read),
            ),
    {
        let relocs = self.relocations(ptr, size)?;
        proof {
            let a = self.spec_get(ptr.alloc_id)->Ok_0;
            let (lo, hi) = reloc_window(self.ptr_size(), ptr.offset, size);
            if has_reloc_in(a.relocations@, lo, hi) {
                let k = choose|k: u64| lo <= k < hi && #[trigger] a.relocations@.contains_key(k);
                assert(relocs@.len() > 0);
            }
            if relocs@.len() > 0 {
                assert(lo <= relocs@[0].0 < hi && a.relocations@.contains_key(relocs@[0].0));
            }
        }
        if relocs.len() != 0 {
            return Err(EvalError::ReadPointerAsBytes);
        }
        self.check_defined(ptr, size)?;
        self.get_bytes_unchecked(ptr, size, align)
    }

    /// Reads `size` bytes at `ptr`; an empty read needs only a non-null pointer.
    pub fn read_bytes(&self, ptr: Pointer, size: u64) -> (r: Result<Vec<u8>, EvalError>)
        requires
            self.wf(),
            ptr.primval matches PrimVal::Ptr(p) ==> p.offset + size <= u64::MAX,
        ensures
            match self.spec_check_align(ptr, 1, Some(AccessKind::Read)) {
                Err(e) => r == Err::<Vec<u8>, EvalError>(e),
                Ok(()) => if size == 0 {
                    r matches Ok(v) && v@.len() == 0
                } else {
                    match crate::pointer::spec_to_ptr(ptr) {
                        Err(e) => r == Err::<Vec<u8>, EvalError>(e),
                        Ok(p) => read_result_matches(
                            r,
                            self.spec_get_bytes(p, size, 1),
                            |e: EvalError| self.is_lock_violation(e, p, size, AccessKind::Read),
                        ),
                    }
                },
            },
    {
        self.check_align(ptr, 1, Some(AccessKind::Read))?;
        if size == 0 {
            return Ok(Vec::new());
        }
        let p = ptr.to_ptr()?;
        self.get_bytes(p, size, 1)
    }
}

/// `b` is `a` prepared for a write of `size` bytes at `offset`: the
/// relocations overlapping the range forgotten, the parts of them outside it
/// undefined, and the range itself defined.
pub open spec fn prepared_for_write(a: Allocation, b: Allocation, ps: nat, offset: u64, size: u64) -> bool {
    let (lo, hi) = reloc_window(ps, offset, size);
    &&& same_meta(a, b)
    &&& b.relocations@ == without_range(a.relocations@, lo, hi)
    &&& b.undef_mask@ == crate::undef_mask::seq_set_range(
        cleared_mask(a, ps, offset, size),
        offset as int,
        offset + size,
        true,
    )
}

/// `s` with `data` written over it at `offset`.
pub open spec fn splice(s: Seq<u8>, offset: int, data: Seq<u8>) -> Seq<u8> {
    s.subrange(0, offset) + data + s.subrange(offset + data.len(), s.len() as int)
}

/// Allocations with the same locks refuse the same accesses.
pub proof fn lemma_same_locks(
    a: Allocation,
    b: Allocation,
    frame: Option<usize>,
    offset: u64,
    len: u64,
    access: AccessKind,
)
    requires
        a.locks == b.locks,
    ensures
        a.has_conflict(frame, offset, len, access) == b.has_conflict(frame, offset, len, access),
        forall|o: u64|
            a.is_first_conflict(frame, offset, len, access, o) == b.is_first_conflict(
                frame,
                offset,
                len,
                access,
                o,
            ),
{
    assert(forall|o: u64| #[trigger] b.active_at(o) == a.active_at(o));
    assert forall|o: u64| a.is_first_conflict(frame, offset, len, access, o) implies b.is_first_conflict(frame, offset, len, access, o) by {
        assert forall|p: u64| offset <= p < o implies crate::lock::spec_access_permitted(#[trigger] b.active_at(p), frame, access) by {
            assert(a.active_at(p) == b.active_at(p));
        }
    }
    assert forall|o: u64| b.is_first_conflict(frame, offset, len, access, o) implies a.is_first_conflict(frame, offset, len, access, o) by {
        assert forall|p: u64| offset <= p < o implies crate::lock::spec_access_permitted(#[trigger] a.active_at(p), frame, access) by {
            assert(a.active_at(p) == b.active_at(p));
        }
    }
    if a.has_conflict(frame, offset, len, access) {
        let o = choose|o: u64|
            offset <= o < offset + len && !crate::lock::spec_access_permitted(
                #[trigger] a.active_at(o),
                frame,
                access,
            );
        assert(b.active_at(o) == a.active_at(o));
    }
    if b.has_conflict(frame, offset, len, access) {
        let o = choose|o: u64|
            offset <= o < offset + len && !crate::lock::spec_access_permitted(
                #[trigger] b.active_at(o),
                frame,
                access,
            );
        assert(b.active_at(o) == a.active_at(o));
    }
}

impl Memory {
    /// Gets `size` bytes at `ptr` ready to be overwritten: forgets the stored
    /// pointers overlapping them, marks them defined, and checks that the
    /// write is aligned, not locked out and in bounds.
    fn prepare_write(&mut self, ptr: MemoryPointer, size: u64, align: u64) -> (r: Result<(), EvalError>)
        requires
            old(self).wf(),
            align != 0,
            size != 0,
            ptr.offset + size <= max_mask_len(),
        ensures
            final(self).wf(),
            final(self).same_but_allocs(old(self)),
            match old(self).spec_get(ptr.alloc_id) {
                Err(e) => r == Err::<(), EvalError>(e) && final(self).allocs() == old(self).allocs(),
                Ok(a) => if a.mutable != Mutability::Mutable {
                    r == Err::<(), EvalError>(EvalError::ModifiedConstantMemory) && final(
                        self).allocs() == old(self).allocs()
                } else {
                    let i = Memory::runtime_index(ptr.alloc_id);
                    let b = final(self).allocs()[i];
                    &&& final(self).allocs().contains_key(i)
                    &&& final(self).allocs().remove(i) == old(self).allocs().remove(i)
                    &&& prepared_for_write(a, b, old(self).ptr_size(), ptr.offset, size)
                    &&& b.bytes == a.bytes
                    &&& match old(self).spec_access_checks(ptr, size, align, AccessKind::Write) {
                        AccessCheck::Fails(e) => r == Err::<(), EvalError>(e),
                        AccessCheck::Locked => r matches Err(e) && old(self).is_lock_violation(
                            e,
                            ptr,
                            size,
                            AccessKind::Write,
                        ),
                        AccessCheck::Passes => r == Ok::<(), EvalError>(())
                            && ptr.offset + size <= a.bytes@.len(),
                    }
                },
            },
    {
        self.clear_relocations(ptr, size)?;
        let ghost m1 = *self;
        self.mark_definedness(Pointer::from_ptr(ptr), size, true)?;
        proof {
            let a = old(self).spec_get(ptr.alloc_id)->Ok_0;
            let i = Memory::runtime_index(ptr.alloc_id);
            let (lo, hi) = reloc_window(old(self).ptr_size(), ptr.offset, size);
            if !has_reloc_in(a.relocations@, lo, hi) {
                assert(without_range(a.relocations@, lo, hi) =~= a.relocations@);
            }
            let b = self.spec_get(ptr.alloc_id)->Ok_0;
            assert(self.spec_get(ptr.alloc_id) is Ok);
            assert(b.align == a.align);
            assert(b.locks == a.locks);
            assert(b.bytes == a.bytes);
            lemma_same_locks(a, b, Some(self.frame()), ptr.offset, size, AccessKind::Write);
            assert(self.spec_check_align(Pointer { primval: PrimVal::Ptr(ptr) }, align, Some(AccessKind::Write))
                == old(self).spec_check_align(Pointer { primval: PrimVal::Ptr(ptr) }, align, Some(AccessKind::Write)));
            assert(self.spec_access_checks(ptr, size, align, AccessKind::Write)
                == old(self).spec_access_checks(ptr, size, align, AccessKind::Write));
            crate::pointer::lemma_offset_fits(self.layout, ptr.offset, size);
        }
        self.access_checks(ptr, size, align, AccessKind::Write)?;
        Ok(())
    }

    /// Writes `src` at `ptr`; an empty write needs only a non-null pointer.
    pub fn write_bytes(&mut self, ptr: Pointer, src: &[u8]) -> (r: Result<(), EvalError>)
        requires
            old(self).wf(),
            ptr.primval matches PrimVal::Ptr(p) ==> p.offset + src@.len() <= max_mask_len(),
        ensures
            final(self).wf(),
            final(self).same_but_allocs(old(self)),
            old(self).write_bytes_outcome(*final(self), r, ptr, src@),
    {
        self.check_align(ptr, 1, Some(AccessKind::Write))?;
        if src.len() == 0 {
            return Ok(());
        }
        let p = ptr.to_ptr()?;
        self.prepare_write(p, src.len() as u64, 1)?;
        self.fill_prepared(p, src);
        Ok(())
    }

    /// `after` and `r` are what `write_bytes` makes of this memory.
    pub open spec fn write_bytes_outcome(&self, after: Memory, r: Result<(), EvalError>, ptr: Pointer, src: Seq<u8>) -> bool {
        match self.spec_check_align(ptr, 1, Some(AccessKind::Write)) {
            Err(e) => r == Err::<(), EvalError>(e) && after.allocs() == self.allocs(),
            Ok(()) => if src.len() == 0 {
                r == Ok::<(), EvalError>(()) && after.allocs() == self.allocs()
            } else {
                match crate::pointer::spec_to_ptr(ptr) {
                    Err(e) => r == Err::<(), EvalError>(e) && after.allocs() == self.allocs(),
                    Ok(p) => self.write_outcome(after, r, p, src, 1),
                }
            },
        }
    }

    /// Writes `count` copies of `val` at `ptr`; an empty write needs only a non-null pointer.
    pub fn write_repeat(&mut self, ptr: Pointer, val: u8, count: u64) -> (r: Result<(), EvalError>)
        requires
            old(self).wf(),
            ptr.primval matches PrimVal::Ptr(p) ==> p.offset + count <= max_mask_len(),
        ensures
            final(self).wf(),
            final(self).same_but_allocs(old(self)),
            match old(self).spec_check_align(ptr, 1, Some(AccessKind::Write)) {
                Err(e) => r == Err::<(), EvalError>(e) && final(self).allocs() == old(self).allocs(),
                Ok(()) => if count == 0 {
                    r == Ok::<(), EvalError>(()) && final(self).allocs() == old(self).allocs()
                } else {
                    match crate::pointer::spec_to_ptr(ptr) {
                        Err(e) => r == Err::<(), EvalError>(e) && final(self).allocs() == old(self).allocs(),
                        Ok(p) => old(self).write_outcome(
                            *final(self),
                            r,
                            p,
                            Seq::new(count as nat, |i: int| val),
                            1,
                        ),
                    }
                },
            },
    {
        self.check_align(ptr, 1, Some(AccessKind::Write))?;
        if count == 0 {
            return Ok(());
        }
        let p = ptr.to_ptr()?;
        self.prepare_write(p, count, 1)?;
        let data = vec![val; count as usize];
        assert(data@ =~= Seq::new(count as nat, |i: int| val));
        self.fill_prepared(p, data.as_slice());
        Ok(())
    }

    /// `after` and `r` are what writing `data` at `ptr` with alignment
    /// `align` makes of this memory.
    pub open spec fn write_outcome(
        &self,
        after: Memory,
        r: Result<(), EvalError>,
        ptr: MemoryPointer,
        data: Seq<u8>,
        align: u64,
    ) -> bool {
        let size = data.len() as u64;
        match self.spec_get(ptr.alloc_id) {
            Err(e) => r == Err::<(), EvalError>(e) && after.allocs() == self.allocs(),
            Ok(a) => if a.mutable != Mutability::Mutable {
                r == Err::<(), EvalError>(EvalError::ModifiedConstantMemory) && after.allocs()
                    == self.allocs()
            } else {
                let i = Memory::runtime_index(ptr.alloc_id);
                let b = after.allocs()[i];
                &&& after.allocs().contains_key(i)
                &&& after.allocs().remove(i) == self.allocs().remove(i)
                &&& prepared_for_write(a, b, self.ptr_size(), ptr.offset, size)
                &&& match self.spec_access_checks(ptr, size, align, AccessKind::Write) {
                    AccessCheck::Fails(e) => r == Err::<(), EvalError>(e) && b.bytes == a.bytes,
                    AccessCheck::Locked => r matches Err(e) && self.is_lock_violation(
                        e,
                        ptr,
                        size,
                        AccessKind::Write,
                    ) && b.bytes == a.bytes,
                    AccessCheck::Passes => r == Ok::<(), EvalError>(()) && b.bytes@ == splice(
                        a.bytes@,
                        ptr.offset as int,
                        data,
                    ),
                }
            },
        }
    }

    /// Writes `data` at `ptr`, which `prepare_write` has checked.
    fn fill_prepared(&mut self, ptr: MemoryPointer, data: &[u8])
        requires
            old(self).wf(),
            old(self).spec_get(ptr.alloc_id) is Ok,
            ptr.offset + data@.len() <= old(self).spec_get(ptr.alloc_id)->Ok_0.bytes@.len(),
        ensures
            final(self).wf(),
            final(self).same_but_allocs(old(self)),
            ({
                let i = Memory::runtime_index(ptr.alloc_id);
                let a = old(self).allocs()[i];
                let b = final(self).allocs()[i];
                &&& final(self).allocs().contains_key(i)
                &&& final(self).allocs().remove(i) == old(self).allocs().remove(i)
                &&& same_meta(a, b) && b.relocations == a.relocations && b.undef_mask == a.undef_mask
                &&& b.bytes@ == splice(a.bytes@, ptr.offset as int, data@)
            }),
    {
        let i = match ptr.alloc_id.into_alloc_id_kind() {
            AllocIdKind::Runtime(i) => i,
            AllocIdKind::Function(_) => 0,
        };
        let mut alloc = self.take_alloc(i);
        alloc.write_slice(ptr.offset, data);
        self.put_alloc(i, alloc);
        proof {
            assert(self.allocs().remove(i) =~= old(self).allocs().remove(i));
        }
    }
}

/// The outcome of reading a primitive value.
pub enum PrimOutcome {
    Fails(EvalError),
    Locked,
    Value(PrimVal),
}

/// Sizes of integers that memory reads and writes.
pub open spec fn is_int_size(size: u64) -> bool {
    size == 1 || size == 2 || size == 4 || size == 8 || size == 16
}

/// The mask that keeps the low `size` bytes of a value.
pub open spec fn size_mask(size: u64) -> u128 {
    if size == 1 {
        0xffu128
    } else if size == 2 {
        0xffffu128
    } else if size == 4 {
        0xffff_ffffu128
    } else if size == 8 {
        0xffff_ffff_ffff_ffffu128
    } else {
        0xffff_ffff_ffff_ffff_ffff_ffff_ffff_ffffu128
    }
}

impl Memory {
    /// The alignment of an integer of `size` bytes.
    pub open spec fn spec_int_align(&self, size: u64) -> u64 {
        if size == 1 {
            self.target().i8_align
        } else if size == 2 {
            self.target().i16_align
        } else if size == 4 {
            self.target().i32_align
        } else if size == 8 {
            self.target().i64_align
        } else {
            self.target().i128_align
        }
    }

    /// The alignment of an integer of `size` bytes: pointer-sized integers are
    /// assumed aligned as pointers, signed as unsigned.
    pub fn int_align(&self, size: u64) -> (r: u64)
        requires
            self.wf(),
            is_int_size(size),
        ensures
            r == self.spec_int_align(size),
            r >= 1,
    {
        if size == 1 {
            self.layout.i8_align
        } else if size == 2 {
            self.layout.i16_align
        } else if size == 4 {
            self.layout.i32_align
        } else if size == 8 {
            self.layout.i64_align
        } else {
            self.layout.i128_align
        }
    }

    /// The value a read of `size` bytes at `ptr` gives, or why it fails.
    pub open spec fn spec_read_primval(&self, ptr: MemoryPointer, size: u64, signed: bool) -> PrimOutcome {
        match self.spec_check_relocation_edges(ptr, size) {
            Err(e) => PrimOutcome::Fails(e),
            Ok(()) => match self.spec_read_unchecked(ptr, size, self.spec_int_align(size)) {
                ReadOutcome::Fails(e) => PrimOutcome::Fails(e),
                ReadOutcome::Locked => PrimOutcome::Locked,
                ReadOutcome::Reads(s) => {
                    let a = self.spec_get(ptr.alloc_id)->Ok_0;
                    let u = crate::byte_order::endian_value(self.target().endian, s);
                    let v: u128 = if signed {
                        crate::byte_order::sign_extend(u, size as nat) as u128
                    } else {
                        u as u128
                    };
                    let (lo, hi) = reloc_window(self.ptr_size(), ptr.offset, size);
                    if !range_defined(a.undef_mask@, ptr.offset as int, ptr.offset + size) {
                        PrimOutcome::Value(PrimVal::Undef)
                    } else if size != self.ptr_size() {
                        if has_reloc_in(a.relocations@, lo, hi) {
                            PrimOutcome::Fails(EvalError::ReadPointerAsBytes)
                        } else {
                            PrimOutcome::Value(PrimVal::Bytes(v))
                        }
                    } else if a.relocations@.contains_key(ptr.offset) {
                        PrimOutcome::Value(
                            PrimVal::Ptr(
                                MemoryPointer {
                                    alloc_id: a.relocations@[ptr.offset],
                                    offset: v as u64,
                                },
                            ),
                        )
                    } else {
                        PrimOutcome::Value(PrimVal::Bytes(v))
                    }
                },
            },
        }
    }

    /// Reads an integer or a pointer of `size` bytes at `ptr`: a pointer when
    /// a pointer-sized read meets a stored pointer, `Undef` when a byte is undefined.
    pub fn read_primval(&self, ptr: MemoryPointer, size: u64, signed: bool) -> (r: Result<
        PrimVal,
        EvalError,
    >)
        requires
            self.wf(),
            is_int_size(size),
            ptr.offset + size <= u64::MAX,
        ensures
            match self.spec_read_primval(ptr, size, signed) {
                PrimOutcome::Fails(e) => r == Err::<PrimVal, EvalError>(e),
                PrimOutcome::Locked => r matches Err(e) && self.is_lock_violation(
                    e,
                    ptr,
                    size,
                    AccessKind::Read,
                ),
                PrimOutcome::Value(v) => r == Ok::<PrimVal, EvalError>(v),
            },
    {
        self.check_relocation_edges(ptr, size)?;
        let endianess = self.endianess();
        let align = self.int_align(size);
        let bytes = self.get_bytes_unchecked(ptr, size, align)?;
        if self.check_defined(ptr, size).is_err() {
            return Ok(PrimVal::Undef);
        }
        proof {
            crate::pointer::lemma_offset_fits(self.layout, ptr.offset, size);
            assert(bytes@.len() == size);
        }
        let value: u128 = if signed {
            let x = crate::byte_order::read_target_int(endianess, bytes.as_slice());
            #[verifier::truncate]
            (x as u128)
        } else {
            crate::byte_order::read_target_uint(endianess, bytes.as_slice())
        };
        if size != self.layout.pointer_size {
            let relocs = self.relocations(ptr, size)?;
            proof {
                let a = self.spec_get(ptr.alloc_id)->Ok_0;
                let (lo, hi) = reloc_window(self.ptr_size(), ptr.offset, size);
                if has_reloc_in(a.relocations@, lo, hi) {
                    let k = choose|k: u64| lo <= k < hi && #[trigger] a.relocations@.contains_key(k);
                    assert(relocs@.len() > 0);
                }
                if relocs@.len() > 0 {
                    assert(lo <= relocs@[0].0 < hi && a.relocations@.contains_key(relocs@[0].0));
                }
            }
            if relocs.len() != 0 {
                return Err(EvalError::ReadPointerAsBytes);
            }
        } else {
            let alloc = self.get(ptr.alloc_id)?;
            proof {
                lemma_u64_keys_ordered();
            }
            match alloc.relocations.get(&ptr.offset) {
                Some(id) => {
                    return Ok(PrimVal::Ptr(MemoryPointer::new(*id, #[verifier::truncate] (value as u64))));
                },
                None => {},
            }
        }
        Ok(PrimVal::Bytes(value))
    }

    /// Reads an unsigned pointer-sized integer (or a pointer) at `ptr`.
    pub fn read_ptr_sized_unsigned(&self, ptr: MemoryPointer) -> (r: Result<PrimVal, EvalError>)
        requires
            self.wf(),
            is_int_size(self.target().pointer_size),
            ptr.offset + self.target().pointer_size <= u64::MAX,
        ensures
            match self.spec_read_primval(ptr, self.target().pointer_size, false) {
                PrimOutcome::Fails(e) => r == Err::<PrimVal, EvalError>(e),
                PrimOutcome::Locked => r matches Err(e) && self.is_lock_violation(
                    e,
                    ptr,
                    self.target().pointer_size,
                    AccessKind::Read,
                ),
                PrimOutcome::Value(v) => r == Ok::<PrimVal, EvalError>(v),
            },
    {
        let size = self.pointer_size();
        self.read_primval(ptr, size, false)
    }
}

impl Memory {
    /// The bytes that writing `val` as a `size`-byte integer stores.
    pub open spec fn spec_prim_bytes(&self, val: PrimVal, size: u64, signed: bool) -> Seq<u8> {
        let n: u128 = match val {
            PrimVal::Ptr(v) => v.offset as u128,
            PrimVal::Bytes(b) => b & size_mask(size),
            PrimVal::Undef => 0,
        };
        if signed {
            crate::byte_order::endian_bytes(
                self.target().endian,
                crate::byte_order::two_complement(n as i128 as int, size as nat),
                size as nat,
            )
        } else {
            crate::byte_order::endian_bytes(self.target().endian, n as nat, size as nat)
        }
    }

    /// `after` and `r` are what writing `val` as a `size`-byte integer at
    /// `ptr` makes of this memory.
    pub open spec fn write_primval_outcome(
        &self,
        after: Memory,
        r: Result<(), EvalError>,
        ptr: MemoryPointer,
        val: PrimVal,
        size: u64,
        signed: bool,
    ) -> bool {
        match val {
            PrimVal::Undef => if size == 0 {
                r == Ok::<(), EvalError>(()) && after.allocs() == self.allocs()
            } else {
                match self.spec_get_mut(ptr.alloc_id) {
                Err(e) => r == Err::<(), EvalError>(e) && after.allocs() == self.allocs(),
                Ok(a) => {
                    let i = Memory::runtime_index(ptr.alloc_id);
                    let b = after.allocs()[i];
                    &&& r == Ok::<(), EvalError>(())
                    &&& after.allocs().contains_key(i)
                    &&& after.allocs().remove(i) == self.allocs().remove(i)
                    &&& same_meta(a, b) && b.bytes == a.bytes && b.relocations == a.relocations
                    &&& b.undef_mask@ == crate::undef_mask::seq_set_range(
                        a.undef_mask@,
                        ptr.offset as int,
                        ptr.offset + size,
                        false,
                    )
                },
                }
            },
            _ => match self.spec_get(ptr.alloc_id) {
                Err(e) => r == Err::<(), EvalError>(e) && after.allocs() == self.allocs(),
                Ok(a) => if a.mutable != Mutability::Mutable {
                    r == Err::<(), EvalError>(EvalError::ModifiedConstantMemory) && after.allocs()
                        == self.allocs()
                } else {
                    let i = Memory::runtime_index(ptr.alloc_id);
                    let b = after.allocs()[i];
                    let (lo, hi) = reloc_window(self.ptr_size(), ptr.offset, size);
                    let cleared = without_range(a.relocations@, lo, hi);
                    &&& after.allocs().contains_key(i)
                    &&& after.allocs().remove(i) == self.allocs().remove(i)
                    &&& same_meta(a, b)
                    &&& b.undef_mask@ == crate::undef_mask::seq_set_range(
                        cleared_mask(a, self.ptr_size(), ptr.offset, size),
                        ptr.offset as int,
                        ptr.offset + size,
                        true,
                    )
                    &&& match self.spec_access_checks(
                        ptr,
                        size,
                        self.spec_int_align(size),
                        AccessKind::Write,
                    ) {
                        AccessCheck::Fails(e) => r == Err::<(), EvalError>(e) && b.bytes == a.bytes
                            && b.relocations@ == cleared,
                        AccessCheck::Locked => r matches Err(e) && self.is_lock_violation(
                            e,
                            ptr,
                            size,
                            AccessKind::Write,
                        ) && b.bytes == a.bytes && b.relocations@ == cleared,
                        AccessCheck::Passes => {
                            &&& r == Ok::<(), EvalError>(())
                            &&& b.bytes@ == splice(
                                a.bytes@,
                                ptr.offset as int,
                                self.spec_prim_bytes(val, size, signed),
                            )
                            &&& b.relocations@ == match val {
                                PrimVal::Ptr(v) => cleared.insert(ptr.offset, v.alloc_id),
                                _ => cleared,
                            }
                        },
                    }
                },
            },
        }
    }

    /// Writes `val` as a `size`-byte integer at `ptr`; a pointer is stored as
    /// its offset and remembered as a relocation, `Undef` makes the bytes undefined.
    pub fn write_primval(&mut self, ptr: MemoryPointer, val: PrimVal, size: u64, signed: bool) -> (r:
        Result<(), EvalError>)
        requires
            old(self).wf(),
            ptr.offset + size <= max_mask_len(),
            val !is Undef ==> is_int_size(size),
            val matches PrimVal::Ptr(v) ==> size == old(self).target().pointer_size && v.offset
                < pow2(8 * size as nat),
        ensures
            final(self).wf(),
            final(self).same_but_allocs(old(self)),
            old(self).write_primval_outcome(*final(self), r, ptr, val, size, signed),
    {
        let endianess = self.endianess();
        let bytes: u128 = match val {
            PrimVal::Ptr(v) => v.offset as u128,
            PrimVal::Bytes(b) => {
                let mask: u128 = if size == 1 {
                    0xff
                } else if size == 2 {
                    0xffff
                } else if size == 4 {
                    0xffff_ffff
                } else if size == 8 {
                    0xffff_ffff_ffff_ffff
                } else {
                    0xffff_ffff_ffff_ffff_ffff_ffff_ffff_ffff
                };
                b & mask
            },
            PrimVal::Undef => {
                return self.mark_definedness(Pointer::from_ptr(ptr), size, false);
            },
        };
        let align = self.int_align(size);
        self.prepare_write(ptr, size, align)?;
        proof {
            match val {
                PrimVal::Bytes(b) => {
                    assert(bytes == b & size_mask(size));
                    lemma_mask_fits(b, size);
                },
                _ => {},
            }
            assert((size as usize) as nat == size as nat);
            assert(bytes < pow2(8 * size as nat));
        }
        let data = if signed {
            #[verifier::truncate]
            let sb = bytes as i128;
            crate::byte_order::write_target_int(endianess, size as usize, sb)
        } else {
            crate::byte_order::write_target_uint(endianess, size as usize, bytes)
        };
        proof {
            crate::byte_order::lemma_endian_bytes_len(endianess, bytes as nat, size as nat);
            crate::byte_order::lemma_endian_bytes_len(
                endianess,
                crate::byte_order::two_complement(bytes as i128 as int, size as nat),
                size as nat,
            );
        }
        self.fill_prepared(ptr, data.as_slice());
        match val {
            PrimVal::Ptr(v) => {
                self.insert_relocation(ptr, v.alloc_id);
            },
            _ => {},
        }
        Ok(())
    }

    /// Records that a pointer to `target` is stored at `ptr`.
    fn insert_relocation(&mut self, ptr: MemoryPointer, target: AllocId)
        requires
            old(self).wf(),
            old(self).spec_get(ptr.alloc_id) is Ok,
            ptr.offset + old(self).ptr_size() <= old(self).spec_get(ptr.alloc_id)->Ok_0.bytes@.len(),
        ensures
            final(self).wf(),
            final(self).same_but_allocs(old(self)),
            ({
                let i = Memory::runtime_index(ptr.alloc_id);
                let a = old(self).allocs()[i];
                let b = final(self).allocs()[i];
                &&& final(self).allocs().contains_key(i)
                &&& final(self).allocs().remove(i) == old(self).allocs().remove(i)
                &&& same_meta(a, b) && b.bytes == a.bytes && b.undef_mask == a.undef_mask
                &&& b.relocations@ == a.relocations@.insert(ptr.offset, target)
            }),
    {
        let i = match ptr.alloc_id.into_alloc_id_kind() {
            AllocIdKind::Runtime(i) => i,
            AllocIdKind::Function(_) => 0,
        };
        let mut alloc = self.take_alloc(i);
        proof {
            lemma_u64_keys_ordered();
        }
        alloc.relocations.insert(ptr.offset, target);
        self.put_alloc(i, alloc);
        proof {
            assert(self.allocs().remove(i) =~= old(self).allocs().remove(i));
        }
    }

    /// Writes an unsigned pointer-sized integer (or a pointer) at `ptr`.
    pub fn write_ptr_sized_unsigned(&mut self, ptr: MemoryPointer, val: PrimVal) -> (r: Result<
        (),
        EvalError,
    >)
        requires
            old(self).wf(),
            ptr.offset + old(self).target().pointer_size <= max_mask_len(),
            val !is Undef ==> is_int_size(old(self).target().pointer_size),
            val matches PrimVal::Ptr(v) ==> v.offset < pow2(8 * old(self).target().pointer_size as nat),
        ensures
            final(self).wf(),
            final(self).same_but_allocs(old(self)),
            old(self).write_primval_outcome(
                *final(self),
                r,
                ptr,
                val,
                old(self).target().pointer_size,
                false,
            ),
    {
        let ptr_size = self.pointer_size();
        self.write_primval(ptr, val, ptr_size, false)
    }
}

/// A value masked to `size` bytes fits in `size` bytes.
pub proof fn lemma_mask_fits(b: u128, size: u64)
    requires
        is_int_size(size),
    ensures
        (b & size_mask(size)) < pow2(8 * size as nat),
        (b & size_mask(size)) as nat == b as nat % pow2(8 * size as nat),
{
    vstd::arithmetic::power2::lemma2_to64();
    vstd::arithmetic::power2::lemma2_to64_rest();
    if size == 1 {
        assert(pow2(8) == 0x100);
        assert(b & 0xffu128 == b % 0x100u128) by (bit_vector);
    } else if size == 2 {
        assert(pow2(16) == 0x10000);
        assert(b & 0xffffu128 == b % 0x10000u128) by (bit_vector);
    } else if size == 4 {
        assert(pow2(32) == 0x1_0000_0000);
        assert(b & 0xffff_ffffu128 == b % 0x1_0000_0000u128) by (bit_vector);
    } else if size == 8 {
        assert(pow2(64) == 0x1_0000_0000_0000_0000);
        assert(b & 0xffff_ffff_ffff_ffffu128 == b % 0x1_0000_0000_0000_0000u128) by (bit_vector);
    } else {
        assert(pow2(128) == 0x1_0000_0000_0000_0000_0000_0000_0000_0000nat) by {
            vstd::arithmetic::power2::lemma_pow2_adds(64, 64);
        }
        assert(b & 0xffff_ffff_ffff_ffff_ffff_ffff_ffff_ffffu128 == b) by (bit_vector);
        vstd::arithmetic::div_mod::lemma_small_mod(b as nat, pow2(128));
    }
}

/// A window inside the cleared one holds no relocation after clearing.
proof fn lemma_cleared_window(m: Map<u64, AllocId>, lo: int, hi: int, lo2: int, hi2: int)
    requires
        lo <= lo2,
        hi2 <= hi,
    ensures
        !has_reloc_in(without_range(m, lo, hi), lo2, hi2),
{
    if has_reloc_in(without_range(m, lo, hi), lo2, hi2) {
        let k = choose|k: u64| lo2 <= k < hi2 && #[trigger] without_range(m, lo, hi).contains_key(k);
        assert(Set::new(|k: u64| lo <= k < hi).contains(k));
    }
}

/// What a read gives back of a write: reading `size` bytes at `ptr` right
/// after writing the integer `b` there gives `b` cut to `size` bytes, as long
/// A read of bytes gives back what a write of them wrote: after writing the
/// non-empty `src` at `p` succeeds, reading as many bytes there succeeds
/// with `src` (where reads check alignment, writes do too).
pub proof fn law_read_bytes_after_write(m0: Memory, m1: Memory, p: MemoryPointer, src: Seq<u8>)
    requires
        m0.wf(),
        src.len() > 0,
        p.offset + src.len() <= max_mask_len(),
        m1.same_but_allocs(&m0),
        m0.write_bytes_outcome(m1, Ok(()), Pointer { primval: PrimVal::Ptr(p) }, src),
        m0.reads_aligned() ==> m0.writes_aligned(),
    ensures
        m1.spec_check_align(Pointer { primval: PrimVal::Ptr(p) }, 1, Some(AccessKind::Read)) == Ok::<(), EvalError>(()),
        m1.spec_get_bytes(p, src.len() as u64, 1) == ReadOutcome::Reads(src),
{
    let size = src.len() as u64;
    let a = m0.spec_get(p.alloc_id)->Ok_0;
    let i = Memory::runtime_index(p.alloc_id);
    let b = m1.allocs()[i];
    assert(m0.spec_access_checks(p, size, 1, AccessKind::Write) == AccessCheck::Passes);
    assert(m1.spec_get(p.alloc_id) == Ok::<Allocation, EvalError>(b));
    let (lo, hi) = reloc_window(m0.ptr_size(), p.offset, size);
    assert(!has_reloc_in(b.relocations@, lo, hi)) by {
        if has_reloc_in(b.relocations@, lo, hi) {
            let k = choose|k: u64| lo <= k < hi && #[trigger] b.relocations@.contains_key(k);
            assert(without_range(a.relocations@, lo, hi).contains_key(k));
        }
    }
    crate::pointer::lemma_offset_fits(m0.target(), p.offset, size);
    assert(range_defined(b.undef_mask@, p.offset as int, p.offset + size));
    lemma_same_locks(a, b, Some(m0.frame()), p.offset, size, AccessKind::Read);
    assert(!b.has_conflict(Some(m1.frame()), p.offset, size, AccessKind::Read)) by {
        if b.has_conflict(Some(m1.frame()), p.offset, size, AccessKind::Read) {
            let o = choose|o: u64|
                p.offset <= o < p.offset + size && !crate::lock::spec_access_permitted(
                    #[trigger] a.active_at(o),
                    Some(m0.frame()),
                    AccessKind::Read,
                );
            assert(!crate::lock::spec_access_permitted(a.active_at(o), Some(m0.frame()), AccessKind::Write));
        }
    }
    assert(m1.spec_access_checks(p, size, 1, AccessKind::Read) == AccessCheck::Passes);
    assert(b.bytes@.subrange(p.offset as int, p.offset + size) =~= src);
}

/// An undefined value reads back as undefined: after writing `Undef` over
/// `size` bytes at `ptr`, a read there that its checks allow gives `Undef`.
pub proof fn law_read_undef_after_write(m0: Memory, m1: Memory, ptr: MemoryPointer, size: u64, signed: bool)
    requires
        m0.wf(),
        size > 0,
        m1.same_but_allocs(&m0),
        m0.write_primval_outcome(m1, Ok(()), ptr, PrimVal::Undef, size, false),
        m0.spec_check_relocation_edges(ptr, size) == Ok::<(), EvalError>(()),
        m0.spec_access_checks(ptr, size, m0.spec_int_align(size), AccessKind::Read) == AccessCheck::Passes,
    ensures
        m1.spec_read_primval(ptr, size, signed) == PrimOutcome::Value(PrimVal::Undef),
{
    let a = m0.spec_get(ptr.alloc_id)->Ok_0;
    let i = Memory::runtime_index(ptr.alloc_id);
    let b = m1.allocs()[i];
    assert(m1.spec_get(ptr.alloc_id) == Ok::<Allocation, EvalError>(b));
    assert(b.relocations == a.relocations && b.bytes == a.bytes && same_meta(a, b));
    lemma_same_locks(a, b, Some(m0.frame()), ptr.offset, size, AccessKind::Read);
    assert(m1.spec_check_relocation_edges(ptr, size) == Ok::<(), EvalError>(()));
    assert(m1.spec_access_checks(ptr, size, m1.spec_int_align(size), AccessKind::Read) == AccessCheck::Passes);
    assert(!b.undef_mask@[ptr.offset as int]);
    assert(!range_defined(b.undef_mask@, ptr.offset as int, ptr.offset + size));
}

/// as reads are not checked for alignment when writes are not.
pub proof fn law_read_after_write(
    m0: Memory,
    m1: Memory,
    ptr: MemoryPointer,
    b: u128,
    size: u64,
)
    requires
        m0.wf(),
        is_int_size(size),
        ptr.offset + size <= max_mask_len(),
        m1.same_but_allocs(&m0),
        m0.write_primval_outcome(m1, Ok(()), ptr, PrimVal::Bytes(b), size, false),
        m0.reads_aligned() ==> m0.writes_aligned(),
    ensures
        m1.spec_read_primval(ptr, size, false) == PrimOutcome::Value(
            PrimVal::Bytes(b & size_mask(size)),
        ),
{
    lemma_write_then_read(m0, m1, ptr, PrimVal::Bytes(b), size);
    lemma_mask_fits(b, size);
    let v = b & size_mask(size);
    crate::byte_order::lemma_endian_roundtrip(m0.target().endian, v as nat, size as nat);
}

/// What a read gives back of a pointer write: reading a pointer-sized value at
/// `ptr` right after storing the pointer `q` there gives `q` back.
pub proof fn law_read_pointer_after_write(
    m0: Memory,
    m1: Memory,
    ptr: MemoryPointer,
    q: MemoryPointer,
)
    requires
        m0.wf(),
        is_int_size(m0.target().pointer_size),
        ptr.offset + m0.target().pointer_size <= max_mask_len(),
        q.offset < pow2(8 * m0.target().pointer_size as nat),
        m1.same_but_allocs(&m0),
        m0.write_primval_outcome(
            m1,
            Ok(()),
            ptr,
            PrimVal::Ptr(q),
            m0.target().pointer_size,
            false,
        ),
        m0.reads_aligned() ==> m0.writes_aligned(),
    ensures
        m1.spec_read_primval(ptr, m0.target().pointer_size, false) == PrimOutcome::Value(
            PrimVal::Ptr(q),
        ),
{
    let size = m0.target().pointer_size;
    lemma_write_then_read(m0, m1, ptr, PrimVal::Ptr(q), size);
    crate::byte_order::lemma_endian_roundtrip(m0.target().endian, q.offset as nat, size as nat);
}

/// After a successful write of `val`, reading the same bytes passes every
/// check and finds them defined, holding the written bytes, with no stored
/// pointer overlapping them but the one the write stored.
proof fn lemma_write_then_read(m0: Memory, m1: Memory, ptr: MemoryPointer, val: PrimVal, size: u64)
    requires
        m0.wf(),
        is_int_size(size),
        val !is Undef,
        val is Ptr ==> size == m0.target().pointer_size,
        ptr.offset + size <= max_mask_len(),
        m1.same_but_allocs(&m0),
        m0.write_primval_outcome(m1, Ok(()), ptr, val, size, false),
        m0.reads_aligned() ==> m0.writes_aligned(),
    ensures
        m1.spec_check_relocation_edges(ptr, size) == Ok::<(), EvalError>(()),
        ({
            let bnew = m1.spec_get(ptr.alloc_id)->Ok_0;
            let (lo, hi) = reloc_window(m1.ptr_size(), ptr.offset, size);
            &&& m1.spec_get(ptr.alloc_id) is Ok
            &&& m1.spec_read_unchecked(ptr, size, m1.spec_int_align(size)) == ReadOutcome::Reads(
                m0.spec_prim_bytes(val, size, false),
            )
            &&& range_defined(bnew.undef_mask@, ptr.offset as int, ptr.offset + size)
            &&& match val {
                PrimVal::Ptr(q) => bnew.relocations@.contains_key(ptr.offset)
                    && bnew.relocations@[ptr.offset] == q.alloc_id,
                _ => !has_reloc_in(bnew.relocations@, lo, hi),
            }
        }),
{
    let a = m0.spec_get(ptr.alloc_id)->Ok_0;
    let i = Memory::runtime_index(ptr.alloc_id);
    let bnew = m1.allocs()[i];
    let ps = m0.ptr_size();
    let (lo, hi) = reloc_window(ps, ptr.offset, size);
    let cleared = without_range(a.relocations@, lo, hi);
    let data = m0.spec_prim_bytes(val, size, false);
    assert(m0.spec_access_checks(ptr, size, m0.spec_int_align(size), AccessKind::Write)
        == AccessCheck::Passes);
    assert(m1.spec_get(ptr.alloc_id) == Ok::<Allocation, EvalError>(bnew));
    crate::pointer::lemma_offset_fits(m0.target(), ptr.offset, size);
    let (end, over) = crate::pointer::spec_overflowing_offset(m0.target().bits(), ptr.offset, size);
    assert(!over && end == ptr.offset + size);
    // no relocation straddles either edge
    let w0 = reloc_window(ps, ptr.offset, 0);
    let w1 = reloc_window(ps, end, 0);
    lemma_cleared_window(a.relocations@, lo, hi, w0.0, w0.1);
    lemma_cleared_window(a.relocations@, lo, hi, w1.0, w1.1);
    lemma_cleared_window(a.relocations@, lo, hi, lo, hi);
    match val {
        PrimVal::Ptr(q) => {
            assert(!has_reloc_in(bnew.relocations@, w0.0, w0.1)) by {
                if has_reloc_in(bnew.relocations@, w0.0, w0.1) {
                    let k = choose|k: u64| w0.0 <= k < w0.1 && #[trigger] bnew.relocations@.contains_key(k);
                    assert(cleared.contains_key(k));
                }
            }
            assert(!has_reloc_in(bnew.relocations@, w1.0, w1.1)) by {
                if has_reloc_in(bnew.relocations@, w1.0, w1.1) {
                    let k = choose|k: u64| w1.0 <= k < w1.1 && #[trigger] bnew.relocations@.contains_key(k);
                    assert(k != ptr.offset);
                    assert(cleared.contains_key(k));
                }
            }
        },
        _ => {},
    }
    assert(m1.spec_check_relocation_edges(ptr, size) == Ok::<(), EvalError>(()));
    // the read passes the checks the write passed
    lemma_same_locks(a, bnew, Some(m0.frame()), ptr.offset, size, AccessKind::Read);
    assert(!bnew.has_conflict(Some(m1.frame()), ptr.offset, size, AccessKind::Read)) by {
        if bnew.has_conflict(Some(m1.frame()), ptr.offset, size, AccessKind::Read) {
            let o = choose|o: u64|
                ptr.offset <= o < ptr.offset + size && !crate::lock::spec_access_permitted(
                    #[trigger] a.active_at(o),
                    Some(m0.frame()),
                    AccessKind::Read,
                );
            assert(!crate::lock::spec_access_permitted(a.active_at(o), Some(m0.frame()), AccessKind::Write));
        }
    }
    assert(m1.spec_access_checks(ptr, size, m1.spec_int_align(size), AccessKind::Read)
        == AccessCheck::Passes);
    crate::byte_order::lemma_endian_bytes_len(m0.target().endian, 0, size as nat);
    assert(data.len() == size) by {
        match val {
            PrimVal::Ptr(q) => crate::byte_order::lemma_endian_bytes_len(
                m0.target().endian,
                q.offset as nat,
                size as nat,
            ),
            PrimVal::Bytes(b) => crate::byte_order::lemma_endian_bytes_len(
                m0.target().endian,
                (b & size_mask(size)) as nat,
                size as nat,
            ),
            PrimVal::Undef => {},
        }
    }
    assert(bnew.bytes@.subrange(ptr.offset as int, ptr.offset + size) =~= data);
}

/// The relocations of `m` in `src_off..src_off + size`, moved to start at `dest_off`.
pub open spec fn shifted_relocs(m: Map<u64, AllocId>, src_off: u64, size: u64, dest_off: u64) -> Map<
    u64,
    AllocId,
> {
    Map::new(
        |k: u64| dest_off <= k < dest_off + size && m.contains_key((k - dest_off + src_off) as u64),
        |k: u64| m[(k - dest_off + src_off) as u64],
    )
}

/// The two ranges of `size` bytes overlap.
pub open spec fn ranges_overlap(a: u64, b: u64, size: u64) -> bool {
    (a <= b && a + size > b) || (b <= a && b + size > a)
}

impl Memory {
    /// `after` and `r` are what the part of a copy after reading the source
    /// bytes `sb` makes of this memory.
    pub open spec fn copy_tail_outcome(
        &self,
        after: Memory,
        r: Result<(), EvalError>,
        s: MemoryPointer,
        d: MemoryPointer,
        size: u64,
        align: u64,
        nonoverlapping: bool,
        sb: Seq<u8>,
    ) -> bool {
        match self.spec_get(d.alloc_id) {
            Err(e) => r == Err::<(), EvalError>(e) && after.allocs() == self.allocs(),
            Ok(a) => if a.mutable != Mutability::Mutable {
                r == Err::<(), EvalError>(EvalError::ModifiedConstantMemory) && after.allocs()
                    == self.allocs()
            } else {
                let i = Memory::runtime_index(d.alloc_id);
                let c = after.allocs()[i];
                let (lo, hi) = reloc_window(self.ptr_size(), d.offset, size);
                let cleared = without_range(a.relocations@, lo, hi);
                let prepared_mask = crate::undef_mask::seq_set_range(
                    cleared_mask(a, self.ptr_size(), d.offset, size),
                    d.offset as int,
                    d.offset + size,
                    true,
                );
                let same = s.alloc_id == d.alloc_id;
                let src_mask = if same {
                    prepared_mask
                } else {
                    self.spec_get(s.alloc_id)->Ok_0.undef_mask@
                };
                let src_relocs = self.spec_get(s.alloc_id)->Ok_0.relocations@;
                &&& after.allocs().contains_key(i)
                &&& after.allocs().remove(i) == self.allocs().remove(i)
                &&& same_meta(a, c)
                &&& match self.spec_access_checks(d, size, align, AccessKind::Write) {
                    AccessCheck::Fails(e) => r == Err::<(), EvalError>(e) && c.bytes == a.bytes
                        && c.relocations@ == cleared && c.undef_mask@ == prepared_mask,
                    AccessCheck::Locked => r matches Err(e) && self.is_lock_violation(
                        e,
                        d,
                        size,
                        AccessKind::Write,
                    ) && c.bytes == a.bytes && c.relocations@ == cleared && c.undef_mask@
                        == prepared_mask,
                    AccessCheck::Passes => if same && nonoverlapping && ranges_overlap(
                        s.offset,
                        d.offset,
                        size,
                    ) {
                        r == Err::<(), EvalError>(EvalError::CopyNonoverlappingOverlapping)
                            && c.bytes == a.bytes && c.relocations@ == cleared && c.undef_mask@
                            == prepared_mask
                    } else {
                        &&& r == Ok::<(), EvalError>(())
                        &&& c.bytes@ == splice(a.bytes@, d.offset as int, sb)
                        &&& c.undef_mask@ == prepared_mask.subrange(0, d.offset as int)
                            + src_mask.subrange(s.offset as int, s.offset + size)
                            + prepared_mask.subrange(d.offset + size, prepared_mask.len() as int)
                        &&& c.relocations@ == cleared.union_prefer_right(
                            shifted_relocs(src_relocs, s.offset, size, d.offset),
                        )
                    },
                }
            },
        }
    }

    /// `after` and `r` are what copying `size` bytes from `src` to `dest` makes
    /// of this memory.
    pub open spec fn copy_outcome(
        &self,
        after: Memory,
        r: Result<(), EvalError>,
        src: Pointer,
        dest: Pointer,
        size: u64,
        align: u64,
        nonoverlapping: bool,
    ) -> bool {
        match self.spec_check_align(src, align, Some(AccessKind::Read)) {
            Err(e) => r == Err::<(), EvalError>(e) && after.allocs() == self.allocs(),
            Ok(()) => match self.spec_check_align(dest, align, Some(AccessKind::Write)) {
                Err(e) => r == Err::<(), EvalError>(e) && after.allocs() == self.allocs(),
                Ok(()) => if size == 0 {
                    r == Ok::<(), EvalError>(()) && after.allocs() == self.allocs()
                } else {
                    match (crate::pointer::spec_to_ptr(src), crate::pointer::spec_to_ptr(dest)) {
                        (Err(e), _) => r == Err::<(), EvalError>(e) && after.allocs()
                            == self.allocs(),
                        (Ok(_), Err(e)) => r == Err::<(), EvalError>(e) && after.allocs()
                            == self.allocs(),
                        (Ok(s), Ok(d)) => match self.spec_check_relocation_edges(s, size) {
                            Err(e) => r == Err::<(), EvalError>(e) && after.allocs()
                                == self.allocs(),
                            Ok(()) => match self.spec_read_unchecked(s, size, align) {
                                ReadOutcome::Fails(e) => r == Err::<(), EvalError>(e)
                                    && after.allocs() == self.allocs(),
                                ReadOutcome::Locked => r matches Err(e) && self.is_lock_violation(
                                    e,
                                    s,
                                    size,
                                    AccessKind::Read,
                                ) && after.allocs() == self.allocs(),
                                ReadOutcome::Reads(sb) => self.copy_tail_outcome(
                                    after,
                                    r,
                                    s,
                                    d,
                                    size,
                                    align,
                                    nonoverlapping,
                                    sb,
                                ),
                            },
                        },
                    }
                },
            },
        }
    }

    /// Copies `size` bytes from `src` to `dest`, with their definedness and
    /// the pointers stored in them; with `nonoverlapping`, overlapping ranges
    /// in one allocation are an error.
    pub fn copy(
        &mut self,
        src: Pointer,
        dest: Pointer,
        size: u64,
        align: u64,
        nonoverlapping: bool,
    ) -> (r: Result<(), EvalError>)
        requires
            old(self).wf(),
            align != 0,
            src.primval matches PrimVal::Ptr(p) ==> p.offset + size <= max_mask_len(),
            dest.primval matches PrimVal::Ptr(p) ==> p.offset + size <= max_mask_len(),
        ensures
            final(self).wf(),
            final(self).same_but_allocs(old(self)),
            old(self).copy_outcome(*final(self), r, src, dest, size, align, nonoverlapping),
    {
        self.check_align(src, align, Some(AccessKind::Read))?;
        self.check_align(dest, align, Some(AccessKind::Write))?;
        if size == 0 {
            return Ok(());
        }
        let s = src.to_ptr()?;
        let d = dest.to_ptr()?;
        self.check_relocation_edges(s, size)?;
        let relocs = self.relocations(s, size)?;
        let src_bytes = self.get_bytes_unchecked(s, size, align)?;
        let ghost m0 = *self;
        self.prepare_write(d, size, align)?;
        proof {
            let i = Memory::runtime_index(d.alloc_id);
            let j = Memory::runtime_index(s.alloc_id);
            assert(m0.spec_get(s.alloc_id) is Ok);
            if j != i {
                assert(m0.allocs().remove(i).contains_key(j));
                assert(self.allocs().remove(i).contains_key(j));
            }
            assert(self.spec_get(s.alloc_id) is Ok);
            crate::pointer::lemma_offset_fits(self.layout, s.offset, size);
            assert(s.offset + size <= m0.spec_get(s.alloc_id)->Ok_0.bytes@.len());
            if j != i {
                assert(self.allocs()[j] == m0.allocs().remove(i)[j]);
            }
            assert(self.spec_get(s.alloc_id)->Ok_0.bytes == m0.spec_get(s.alloc_id)->Ok_0.bytes);
            self.lemma_alloc_wf(s.alloc_id);
        }
        if s.alloc_id == d.alloc_id && nonoverlapping {
            if (s.offset <= d.offset && s.offset + size > d.offset) || (d.offset <= s.offset
                && d.offset + size > s.offset) {
                return Err(EvalError::CopyNonoverlappingOverlapping);
            }
        }
        proof {
            crate::pointer::lemma_offset_fits(self.layout, s.offset, size);
            crate::pointer::lemma_offset_fits(self.layout, d.offset, size);
        }
        let src_bits = self.read_mask_of(s, size);
        self.fill_prepared(d, src_bytes.as_slice());
        self.finish_copy(s, d, size, &src_bits, &relocs, Ghost(m0.spec_get(s.alloc_id)->Ok_0.relocations@));
        Ok(())
    }
}

impl Memory {
    /// Gives the copied bytes at `d` the definedness `bits` and the stored
    /// pointers `relocs` (found at `s`), moved to their new place.
    fn finish_copy(
        &mut self,
        s: MemoryPointer,
        d: MemoryPointer,
        size: u64,
        bits: &Vec<bool>,
        relocs: &Vec<(u64, AllocId)>,
        Ghost(src_relocs): Ghost<Map<u64, AllocId>>,
    )
        requires
            old(self).wf(),
            old(self).spec_get(d.alloc_id) is Ok,
            d.offset + size <= old(self).spec_get(d.alloc_id)->Ok_0.bytes@.len(),
            s.offset + size <= u64::MAX,
            bits@.len() == size,
            crate::allocation::is_range_of(relocs@, src_relocs, s.offset as int, s.offset + size),
            forall|k: u64|
                #![trigger src_relocs.contains_key(k)]
                s.offset <= k < s.offset + size && src_relocs.contains_key(k) ==> k
                    + old(self).ptr_size() <= s.offset + size,
        ensures
            final(self).wf(),
            final(self).same_but_allocs(old(self)),
            ({
                let i = Memory::runtime_index(d.alloc_id);
                let a = old(self).allocs()[i];
                let c = final(self).allocs()[i];
                &&& final(self).allocs().contains_key(i)
                &&& final(self).allocs().remove(i) == old(self).allocs().remove(i)
                &&& same_meta(a, c) && c.bytes == a.bytes
                &&& c.undef_mask@ == a.undef_mask@.subrange(0, d.offset as int) + bits@
                    + a.undef_mask@.subrange(d.offset + size, a.undef_mask@.len() as int)
                &&& c.relocations@ == a.relocations@.union_prefer_right(
                    shifted_relocs(src_relocs, s.offset, size, d.offset),
                )
            }),
    {
        let i = match d.alloc_id.into_alloc_id_kind() {
            AllocIdKind::Runtime(i) => i,
            AllocIdKind::Function(_) => 0,
        };
        let mut alloc = self.take_alloc(i);
        let ghost a = alloc;
        alloc.write_mask(d.offset, bits);
        let blen = alloc.bytes.len();
        assert(alloc.relocations@ =~= a.relocations@.union_prefer_right(
            Map::new(
                |k: u64| exists|q: int| 0 <= q < 0 && relocs@[q].0 - s.offset + d.offset == k,
                |k: u64| src_relocs[(k - d.offset + s.offset) as u64],
            ),
        ));
        let mut t: usize = 0;
        while t < relocs.len()
            invariant
                0 <= t <= relocs@.len(),
                crate::allocation::is_range_of(relocs@, src_relocs, s.offset as int, s.offset + size),
                alloc.bytes == a.bytes,
                alloc.align == a.align,
                alloc.mutable == a.mutable,
                alloc.kind == a.kind,
                alloc.locks == a.locks,
                alloc.undef_mask@.len() >= alloc.bytes@.len(),
                alloc.undef_mask.wf(),
                alloc.undef_mask@ == a.undef_mask@.subrange(0, d.offset as int) + bits@
                    + a.undef_mask@.subrange(d.offset + size, a.undef_mask@.len() as int),
                d.offset + size <= a.bytes@.len(),
                a.bytes@.len() == blen,
                alloc.relocations@ == a.relocations@.union_prefer_right(
                    Map::new(
                        |k: u64| exists|q: int| 0 <= q < t && relocs@[q].0 - s.offset + d.offset == k,
                        |k: u64| src_relocs[(k - d.offset + s.offset) as u64],
                    ),
                ),
            decreases relocs@.len() - t,
        {
            let (k, id) = relocs[t];
            let nk = (k - s.offset) + d.offset;
            proof {
                lemma_u64_keys_ordered();
            }
            alloc.relocations.insert(nk, id);
            proof {
                assert(alloc.relocations@ =~= a.relocations@.union_prefer_right(
                    Map::new(
                        |k: u64| exists|q: int| 0 <= q < t + 1 && relocs@[q].0 - s.offset + d.offset == k,
                        |k: u64| src_relocs[(k - d.offset + s.offset) as u64],
                    ),
                ));
            }
            t = t + 1;
        }
        proof {
            assert(Map::new(
                |k: u64| exists|q: int| 0 <= q < relocs@.len() && relocs@[q].0 - s.offset + d.offset == k,
                |k: u64| src_relocs[(k - d.offset + s.offset) as u64],
            ) =~= shifted_relocs(src_relocs, s.offset, size, d.offset)) by {
                assert forall|k: u64| #[trigger] shifted_relocs(src_relocs, s.offset, size, d.offset).contains_key(k)
                    implies exists|q: int| 0 <= q < relocs@.len() && relocs@[q].0 - s.offset + d.offset == k by {
                    let k0 = (k - d.offset + s.offset) as u64;
                    assert(d.offset <= k < d.offset + size);
                    assert(s.offset <= k0 < s.offset + size);
                    assert(src_relocs.contains_key(k0));
                    assert(exists|q: int| 0 <= q < relocs@.len() && relocs@[q].0 == k0);
                    let q = choose|q: int| 0 <= q < relocs@.len() && relocs@[q].0 == k0;
                    assert(relocs@[q].0 - s.offset + d.offset == k);
                }
            }
            assert(alloc.wf(self.layout.pointer_size as nat)) by {
                assert forall|k: u64| #[trigger] alloc.relocations@.contains_key(k) implies k
                    + self.layout.pointer_size <= alloc.bytes@.len() by {
                    if !a.relocations@.contains_key(k) {
                        let k0 = (k - d.offset + s.offset) as u64;
                        assert(src_relocs.contains_key(k0));
                    }
                }
            }
        }
        self.put_alloc(i, alloc);
        proof {
            assert(self.allocs().remove(i) =~= old(self).allocs().remove(i));
        }
    }
}

impl Memory {
    /// The definedness bits of `size` bytes at `p`.
    fn read_mask_of(&self, p: MemoryPointer, size: u64) -> (r: Vec<bool>)
        requires
            self.wf(),
            self.spec_get(p.alloc_id) is Ok,
            p.offset + size <= self.spec_get(p.alloc_id)->Ok_0.undef_mask@.len(),
        ensures
            r@ == self.spec_get(p.alloc_id)->Ok_0.undef_mask@.subrange(
                p.offset as int,
                p.offset + size,
            ),
    {
        match self.get(p.alloc_id) {
            Ok(a) => a.read_mask(p.offset, size),
            Err(_) => Vec::new(),
        }
    }
}

impl Memory {
    /// Every allocation of a well-formed memory is well formed.
    pub proof fn lemma_alloc_wf(&self, id: AllocId)
        requires
            self.wf(),
        ensures
            self.spec_get(id) is Ok ==> self.spec_get(id)->Ok_0.wf(self.ptr_size()),
            self.target().wf(),
    {
        if self.spec_get(id) is Ok {
            assert(self.alloc_map@.contains_key(Memory::runtime_index(id)));
        }
    }
}

/// `n` is the length of the first run of nonzero bytes of `s`, which a zero ends.
pub open spec fn is_c_str_len(s: Seq<u8>, n: int) -> bool {
    &&& 0 <= n < s.len()
    &&& s[n] == 0
    &&& forall|j: int| 0 <= j < n ==> #[trigger] s[j] != 0
}

impl Memory {
    /// The memories agree in everything.
    pub open spec fn same_state(&self, other: &Memory) -> bool {
        self.same_but_allocs(other) && self.allocs() == other.allocs()
    }

    /// Reads the zero-terminated string at `ptr`, without the terminator; it
    /// must hold no pointer, be defined and not be locked against reading.
    pub fn read_c_str(&self, ptr: MemoryPointer) -> (r: Result<Vec<u8>, EvalError>)
        requires
            self.wf(),
            self.spec_get(ptr.alloc_id) is Ok ==> ptr.offset <= self.spec_get(
                ptr.alloc_id,
            )->Ok_0.bytes@.len(),
        ensures
            match self.spec_get(ptr.alloc_id) {
                Err(e) => r == Err::<Vec<u8>, EvalError>(e),
                Ok(a) => {
                    let tail = a.bytes@.subrange(ptr.offset as int, a.bytes@.len() as int);
                    if !(exists|n: int| is_c_str_len(tail, n)) {
                        r == Err::<Vec<u8>, EvalError>(EvalError::UnterminatedCString(ptr))
                    } else {
                        let n = choose|n: int| is_c_str_len(tail, n);
                        let len = (n + 1) as u64;
                        let (lo, hi) = reloc_window(self.ptr_size(), ptr.offset, len);
                        if has_reloc_in(a.relocations@, lo, hi) {
                            r == Err::<Vec<u8>, EvalError>(EvalError::ReadPointerAsBytes)
                        } else if !range_defined(a.undef_mask@, ptr.offset as int, ptr.offset + len) {
                            r == Err::<Vec<u8>, EvalError>(EvalError::ReadUndefBytes)
                        } else if a.has_conflict(Some(self.frame()), ptr.offset, len, AccessKind::Read) {
                            r matches Err(e) && self.is_lock_violation(e, ptr, len, AccessKind::Read)
                        } else {
                            r matches Ok(v) && v@ == tail.subrange(0, n)
                        }
                    }
                },
            },
    {
        let alloc = self.get(ptr.alloc_id)?;
        let n = alloc.bytes.len();
        let offset = ptr.offset as usize;
        let ghost tail = alloc.bytes@.subrange(ptr.offset as int, alloc.bytes@.len() as int);
        let mut j = offset;
        while j < n && alloc.bytes[j] != 0
            invariant
                offset <= j <= n,
                n == alloc.bytes@.len(),
                offset == ptr.offset,
                tail == alloc.bytes@.subrange(ptr.offset as int, alloc.bytes@.len() as int),
                forall|q: int| 0 <= q < j - offset ==> #[trigger] tail[q] != 0,
            decreases n - j,
        {
            j = j + 1;
        }
        if j == n {
            proof {
                if exists|m: int| is_c_str_len(tail, m) {
                    let m = choose|m: int| is_c_str_len(tail, m);
                    assert(tail[m] != 0);
                }
            }
            return Err(EvalError::UnterminatedCString(ptr));
        }
        let size = (j - offset) as u64;
        proof {
            assert(tail[size as int] == alloc.bytes@[j as int]);
            assert(is_c_str_len(tail, size as int));
            let m = choose|m: int| is_c_str_len(tail, m);
            if m < size {
                assert(tail[m] != 0);
            }
            if size < m {
                assert(tail[size as int] != 0);
            }
            assert(m == size);
            self.lemma_alloc_wf(ptr.alloc_id);
        }
        let relocs = self.relocations(ptr, size + 1)?;
        proof {
            let a = self.spec_get(ptr.alloc_id)->Ok_0;
            let (lo, hi) = reloc_window(self.ptr_size(), ptr.offset, (size + 1) as u64);
            if has_reloc_in(a.relocations@, lo, hi) {
                let k = choose|k: u64| lo <= k < hi && #[trigger] a.relocations@.contains_key(k);
                assert(relocs@.len() > 0);
            }
            if relocs@.len() > 0 {
                assert(lo <= relocs@[0].0 < hi && a.relocations@.contains_key(relocs@[0].0));
            }
        }
        if relocs.len() != 0 {
            return Err(EvalError::ReadPointerAsBytes);
        }
        self.check_defined(ptr, size + 1)?;
        self.check_locks(ptr, size + 1, AccessKind::Read)?;
        let v = alloc.read_slice(ptr.offset, size);
        assert(v@ =~= tail.subrange(0, size as int));
        Ok(v)
    }

    /// The number of allocations that are not statics, which leak when the program ends.
    pub fn leak_report(&self) -> (r: usize)
        requires
            self.wf(),
        ensures
            r == self.allocs().dom().filter(|k: u64| self.allocs()[k].kind != MemoryKind::Static).len(),
    {
        let ghost p = |k: u64| self.alloc_map@[k].kind != MemoryKind::Static;
        let keys = self.alloc_map.keys();
        let ghost s = keys.remaining();
        let mut n: usize = 0;
        let total = self.alloc_map.len();
        let ghost mut seen: Set<u64> = Set::empty();
        proof {
            assert(keys == vstd::std_specs::hash::spec_keys_iter(&self.alloc_map));
            assert(s.unref().to_set() == self.alloc_map@.dom());
            assert(s.len() == self.alloc_map@.dom().len());
        }
        for k in it: keys
            invariant
                it.seq() == s,
                p == (|k: u64| self.alloc_map@[k].kind != MemoryKind::Static),
                s.no_duplicates(),
                s.len() == self.alloc_map@.dom().len(),
                s.len() == total,
                s.unref().to_set() == self.alloc_map@.dom(),
                self.alloc_map@.dom().finite(),
                seen == Set::new(|k: u64| exists|j: int| 0 <= j < it.index() && *s[j] == k && p(k)),
                seen.finite(),
                n == seen.len(),
                n <= it.index(),
        {
            let ghost idx = it.index();
            proof {
                assert(k == s[idx as int]);
                assert(s.unref()[idx as int] == *k);
                assert(s.unref().to_set().contains(*k));
                assert(self.alloc_map@.contains_key(*k));
            }
            let is_static = match self.alloc_map.get(k) {
                Some(a) => {
                    assert(*a == self.alloc_map@[*k]);
                    a.kind == MemoryKind::Static
                },
                None => true,
            };
            proof {
                assert(is_static == !p(*k));
            }
            if !is_static {
                proof {
                    assert(!seen.contains(*k)) by {
                        if seen.contains(*k) {
                            let j = choose|j: int| 0 <= j < idx && *s[j] == *k && p(*k);
                            assert(s[j] == s[idx as int]);
                        }
                    }
                    assert(seen.insert(*k) =~= Set::new(|q: u64| exists|j: int| 0 <= j < idx + 1 && *s[j] == q && p(q)));
                    seen = seen.insert(*k);
                }
                n = n + 1;
            } else {
                proof {
                    assert(seen =~= Set::new(|q: u64| exists|j: int| 0 <= j < idx + 1 && *s[j] == q && p(q)));
                }
            }
        }
        proof {
            assert(seen =~= self.allocs().dom().filter(p)) by {
                assert forall|k: u64| self.allocs().dom().filter(p).contains(k) implies seen.contains(k) by {
                    assert(s.unref().to_set().contains(k));
                    let j = choose|j: int| 0 <= j < s.len() && s.unref()[j] == k;
                    assert(*s[j] == k);
                }
                assert forall|k: u64| seen.contains(k) implies self.allocs().dom().filter(p).contains(k) by {
                    let j = choose|j: int| 0 <= j < s.len() && *s[j] == k && p(k);
                    assert(s.unref().to_set().contains(s.unref()[j]));
                }
            }
        }
        n
    }
}

impl Memory {
    /// `after` and `r` are what `reallocate` makes of this memory: a new
    /// allocation, a copy of the common prefix, and the old allocation freed.
    pub open spec fn reallocate_outcome(
        &self,
        after: Memory,
        r: Result<MemoryPointer, EvalError>,
        ptr: MemoryPointer,
        old_size: u64,
        old_align: u64,
        new_size: u64,
        new_align: u64,
        kind: MemoryKind,
    ) -> bool {
        if ptr.offset != 0 {
            r == Err::<MemoryPointer, EvalError>(EvalError::ReallocateNonBasePtr) && after.same_state(
                self,
            )
        } else if self.spec_get(ptr.alloc_id) matches Ok(a) && a.kind != kind {
            r == Err::<MemoryPointer, EvalError>(
                EvalError::ReallocatedWrongMemoryKind(self.spec_get(ptr.alloc_id)->Ok_0.kind, kind),
            ) && after.same_state(self)
        } else {
            exists|m1: Memory, r1: Result<MemoryPointer, EvalError>|
                #![trigger self.allocate_outcome(m1, r1, new_size, new_align, kind)]
                self.allocate_outcome(m1, r1, new_size, new_align, kind) && m1.wf() && match r1 {
                    Err(e) => r == Err::<MemoryPointer, EvalError>(e) && after.same_state(&m1),
                    Ok(np) => exists|m2: Memory, r2: Result<(), EvalError>|
                        #![trigger m1.copy_outcome(m2, r2, Pointer { primval: PrimVal::Ptr(ptr) }, Pointer { primval: PrimVal::Ptr(np) }, min_u64(old_size, new_size), min_u64(old_align, new_align), true)]
                        m1.copy_outcome(
                            m2,
                            r2,
                            Pointer { primval: PrimVal::Ptr(ptr) },
                            Pointer { primval: PrimVal::Ptr(np) },
                            min_u64(old_size, new_size),
                            min_u64(old_align, new_align),
                            true,
                        ) && m2.same_but_allocs(&m1) && m2.wf() && match r2 {
                            Err(e) => r == Err::<MemoryPointer, EvalError>(e) && after.same_state(&m2),
                            Ok(()) => exists|r3: Result<(), EvalError>|
                                #![trigger m2.deallocate_outcome(after, r3, ptr, Some((old_size, old_align)), kind)]
                                m2.deallocate_outcome(
                                    after,
                                    r3,
                                    ptr,
                                    Some((old_size, old_align)),
                                    kind,
                                ) && match r3 {
                                    Err(e) => r == Err::<MemoryPointer, EvalError>(e),
                                    Ok(()) => r == Ok::<MemoryPointer, EvalError>(np),
                                },
                        },
                }
        }
    }

    /// Moves the allocation `ptr` points to into a new one of `new_size`
    /// bytes: allocate, copy what both hold, deallocate the old one.
    pub fn reallocate(
        &mut self,
        ptr: MemoryPointer,
        old_size: u64,
        old_align: u64,
        new_size: u64,
        new_align: u64,
        kind: MemoryKind,
    ) -> (r: Result<MemoryPointer, EvalError>)
        requires
            old(self).wf(),
            is_power_of_two(new_align),
            old_align != 0,
            new_size <= max_mask_len(),
            old(self).next_id() + 1 < id_bit(),
        ensures
            final(self).wf(),
            final(self).next_id() >= old(self).next_id(),
            old(self).reallocate_outcome(
                *final(self),
                r,
                ptr,
                old_size,
                old_align,
                new_size,
                new_align,
                kind,
            ),
    {
        if ptr.offset != 0 {
            return Err(EvalError::ReallocateNonBasePtr);
        }
        if let Ok(alloc) = self.get(ptr.alloc_id) {
            if alloc.kind != kind {
                return Err(EvalError::ReallocatedWrongMemoryKind(alloc.kind, kind));
            }
        }
        let ghost m0 = *self;
        let r1 = self.allocate(new_size, new_align, kind);
        let ghost m1 = *self;
        let new_ptr = match r1 {
            Ok(p) => p,
            Err(e) => {
                assert(m0.allocate_outcome(m1, r1, new_size, new_align, kind));
                return Err(e);
            },
        };
        let size = if old_size < new_size { old_size } else { new_size };
        let align = if old_align < new_align { old_align } else { new_align };
        let r2 = self.copy(Pointer::from_ptr(ptr), Pointer::from_ptr(new_ptr), size, align, true);
        let ghost m2 = *self;
        match r2 {
            Ok(()) => {},
            Err(e) => {
                assert(m1.copy_outcome(m2, r2, Pointer { primval: PrimVal::Ptr(ptr) }, Pointer { primval: PrimVal::Ptr(new_ptr) }, min_u64(old_size, new_size), min_u64(old_align, new_align), true));
                assert(m0.allocate_outcome(m1, r1, new_size, new_align, kind));
                return Err(e);
            },
        }
        let r3 = self.deallocate(ptr, Some((old_size, old_align)), kind);
        proof {
            assert(m2.deallocate_outcome(*self, r3, ptr, Some((old_size, old_align)), kind));
            assert(m1.copy_outcome(m2, r2, Pointer { primval: PrimVal::Ptr(ptr) }, Pointer { primval: PrimVal::Ptr(new_ptr) }, min_u64(old_size, new_size), min_u64(old_align, new_align), true));
            assert(m0.allocate_outcome(m1, r1, new_size, new_align, kind));
        }
        match r3 {
            Ok(()) => Ok(new_ptr),
            Err(e) => Err(e),
        }
    }
}

/// The smaller of two numbers.
pub open spec fn min_u64(a: u64, b: u64) -> u64 {
    if a < b {
        a
    } else {
        b
    }
}

/// The interpreter's machine, as far as memory is concerned.
pub trait Machine {
    /// Called when a static being initialized contains an allocation of
    /// the machine's memory kind `kind`; an error stops the marking.
    fn mark_static_initialized(kind: u64) -> Result<(), EvalError>;
}

/// How marking statics may change an allocation: it can become static,
/// taking the given mutability, and (only when marking fails) lose its
/// relocations; nothing else changes.
pub open spec fn marked_from(a: Allocation, b: Allocation, mutability: Mutability) -> bool {
    &&& b.bytes == a.bytes
    &&& b.undef_mask == a.undef_mask
    &&& b.align == a.align
    &&& b.locks == a.locks
    &&& (b.relocations == a.relocations || b.relocations@ == Map::<u64, AllocId>::empty())
    &&& ((b.kind == a.kind && b.mutable == a.mutable) || (a.kind != MemoryKind::Static && b.kind
        == MemoryKind::Static && b.mutable == mutability))
}

/// Marking took the allocations `m` to `n`.
pub open spec fn marking_step(m: Map<u64, Allocation>, n: Map<u64, Allocation>, mutability: Mutability) -> bool {
    &&& n.dom() == m.dom()
    &&& forall|k: u64| #[trigger] m.contains_key(k) ==> marked_from(m[k], n[k], mutability)
}

/// Every allocation kept its relocations.
pub open spec fn relocations_kept(m: Map<u64, Allocation>, n: Map<u64, Allocation>) -> bool {
    forall|k: u64| #[trigger] m.contains_key(k) ==> n[k].relocations == m[k].relocations
}

/// A pointer's target is settled: no stack or machine allocation that exists.
pub open spec fn target_settled(m: Map<u64, Allocation>, t: AllocId) -> bool {
    match spec_id_to_kind(t@) {
        AllocIdKind::Runtime(ti) => m.contains_key(ti) ==> (m[ti].kind == MemoryKind::Static
            || m[ti].kind == MemoryKind::UninitializedStatic),
        AllocIdKind::Function(_) => true,
    }
}

/// Every allocation that became static between `m` and `n` points only to
/// settled allocations.
pub open spec fn static_closed(m: Map<u64, Allocation>, n: Map<u64, Allocation>) -> bool {
    forall|k: u64, o: u64|
        m.contains_key(k) && m[k].kind != MemoryKind::Static && n[k].kind == MemoryKind::Static
            && #[trigger] n[k].relocations@.contains_key(o) ==> target_settled(
            n,
            n[k].relocations@[o],
        )
}

/// Every allocation of `m` other than `root` that is a static still being
/// initialized is one in `n` too.
pub open spec fn uninit_kept(m: Map<u64, Allocation>, n: Map<u64, Allocation>, root: int) -> bool {
    forall|k: u64|
        #[trigger] m.contains_key(k) && k != root && m[k].kind == MemoryKind::UninitializedStatic ==> n[k].kind
            == MemoryKind::UninitializedStatic
}

/// Where marking follows the pointer `t`, to an allocation that exists and
/// is not a static still being initialized, that allocation is in `rs`.
pub open spec fn visit_target(m: Map<u64, Allocation>, t: AllocId, rs: Set<u64>) -> bool {
    match spec_id_to_kind(t@) {
        AllocIdKind::Runtime(j) => m.contains_key(j) && m[j].kind != MemoryKind::UninitializedStatic ==> rs.contains(
            j,
        ),
        AllocIdKind::Function(_) => true,
    }
}

/// `rs` holds no allocation of a machine kind, and with each allocation in
/// it that is not static yet, every allocation that marking goes on to
/// from there: so no machine's answer is asked for from within `rs`.
pub open spec fn machine_free_closure(m: Map<u64, Allocation>, rs: Set<u64>) -> bool {
    &&& forall|k: u64| #[trigger] rs.contains(k) && m.contains_key(k) ==> !(m[k].kind is Machine)
    &&& forall|k: u64, o: u64|
        rs.contains(k) && m.contains_key(k) && m[k].kind != MemoryKind::Static
            && #[trigger] m[k].relocations@.contains_key(o) ==> visit_target(m, m[k].relocations@[o], rs)
}

/// Marking from the allocation `id`, present in `m`, starts inside `rs`.
pub open spec fn rooted_in(m: Map<u64, Allocation>, id: AllocId, rs: Set<u64>) -> bool {
    match spec_id_to_kind(id@) {
        AllocIdKind::Runtime(i) => m.contains_key(i) && rs.contains(i),
        AllocIdKind::Function(_) => true,
    }
}

/// The index marking from `id` starts at, or none for a function.
pub open spec fn root_index(id: AllocId) -> int {
    match spec_id_to_kind(id@) {
        AllocIdKind::Runtime(i) => i as int,
        AllocIdKind::Function(_) => -1,
    }
}

/// Statics still being initialized stay so over two marking steps.
proof fn lemma_uninit_compose(m: Map<u64, Allocation>, n: Map<u64, Allocation>, p: Map<u64, Allocation>, root: int)
    requires
        n.dom() == m.dom(),
        uninit_kept(m, n, root),
        uninit_kept(n, p, -1),
    ensures
        uninit_kept(m, p, root),
{
    assert forall|k: u64|
        #[trigger] m.contains_key(k) && k != root && m[k].kind == MemoryKind::UninitializedStatic implies p[k].kind
        == MemoryKind::UninitializedStatic by {
        assert(n.contains_key(k));
        assert(k != -1);
    }
}

/// A set closed for marking stays so while marking goes on from inside it.
proof fn lemma_closure_kept(
    m: Map<u64, Allocation>,
    n: Map<u64, Allocation>,
    rs: Set<u64>,
    root: u64,
    mutability: Mutability,
)
    requires
        machine_free_closure(m, rs),
        rs.contains(root),
        marking_step(m, n, mutability),
        uninit_kept(m, n, root as int),
    ensures
        machine_free_closure(n, rs),
        forall|t: AllocId| visit_target(m, t, rs) ==> #[trigger] visit_target(n, t, rs),
{
    assert forall|t: AllocId| visit_target(m, t, rs) implies #[trigger] visit_target(n, t, rs) by {
        if let AllocIdKind::Runtime(j) = spec_id_to_kind(t@) {
            if n.contains_key(j) && n[j].kind != MemoryKind::UninitializedStatic && j != root {
                assert(m.contains_key(j));
                assert(marked_from(m[j], n[j], mutability));
            }
        }
    }
    assert forall|k: u64| #[trigger] rs.contains(k) && n.contains_key(k) implies !(n[k].kind is Machine) by {
        assert(m.contains_key(k));
        assert(marked_from(m[k], n[k], mutability));
    }
    assert forall|k: u64, o: u64|
        rs.contains(k) && n.contains_key(k) && n[k].kind != MemoryKind::Static
            && #[trigger] n[k].relocations@.contains_key(o) implies visit_target(n, n[k].relocations@[o], rs) by {
        assert(m.contains_key(k));
        assert(marked_from(m[k], n[k], mutability));
        assert(m[k].relocations@.contains_key(o));
        assert(visit_target(m, m[k].relocations@[o], rs));
    }
}

/// No allocation is of a machine kind.
pub open spec fn no_machine_kinds(m: Map<u64, Allocation>) -> bool {
    forall|k: u64| #[trigger] m.contains_key(k) ==> !(m[k].kind is Machine)
}

/// The allocations that are not static yet.
pub open spec fn not_static(m: Map<u64, Allocation>) -> Set<u64> {
    m.dom().filter(|k: u64| m[k].kind != MemoryKind::Static)
}

/// Marking never makes more allocations non-static, and settled targets stay settled.
proof fn lemma_marking_step(m: Map<u64, Allocation>, n: Map<u64, Allocation>, mutability: Mutability)
    requires
        m.dom().finite(),
        marking_step(m, n, mutability),
    ensures
        not_static(n).subset_of(not_static(m)),
        not_static(n).len() <= not_static(m).len(),
        forall|t: AllocId| target_settled(m, t) ==> #[trigger] target_settled(n, t),
        no_machine_kinds(m) ==> no_machine_kinds(n),
{
    assert(not_static(n).subset_of(not_static(m)));
    vstd::set_lib::lemma_len_subset(not_static(n), not_static(m));
}

/// Marking steps compose.
proof fn lemma_marking_compose(
    m: Map<u64, Allocation>,
    n: Map<u64, Allocation>,
    p: Map<u64, Allocation>,
    mutability: Mutability,
)
    requires
        marking_step(m, n, mutability),
        marking_step(n, p, mutability),
    ensures
        marking_step(m, p, mutability),
{
    assert forall|k: u64| #[trigger] m.contains_key(k) implies marked_from(m[k], p[k], mutability) by {
        assert(marked_from(m[k], n[k], mutability));
        assert(marked_from(n[k], p[k], mutability));
    }
}

/// Closedness composes over a step that keeps relocations.
proof fn lemma_static_closed_compose(
    m: Map<u64, Allocation>,
    n: Map<u64, Allocation>,
    p: Map<u64, Allocation>,
    mutability: Mutability,
)
    requires
        m.dom().finite(),
        marking_step(m, n, mutability),
        marking_step(n, p, mutability),
        static_closed(m, n),
        static_closed(n, p),
        relocations_kept(n, p),
    ensures
        static_closed(m, p),
{
    lemma_marking_step(n, p, mutability);
    assert forall|k: u64, o: u64|
        m.contains_key(k) && m[k].kind != MemoryKind::Static && p[k].kind == MemoryKind::Static
            && #[trigger] p[k].relocations@.contains_key(o) implies target_settled(
        p,
        p[k].relocations@[o],
    ) by {
        assert(marked_from(m[k], n[k], mutability));
        assert(n[k].relocations == p[k].relocations);
        if n[k].kind == MemoryKind::Static {
            assert(target_settled(n, n[k].relocations@[o]));
        }
    }
}

impl Memory {
    /// How many allocations are not static yet.
    pub closed spec fn not_static_count(&self) -> nat {
        not_static(self.alloc_map@).len()
    }

    /// Marks an allocation that a static points to as static, unless it is
    /// another static still being initialized.
    fn mark_inner_allocation_initialized<M: Machine>(&mut self, alloc: AllocId, mutability: Mutability) -> (r:
        Result<(), EvalError>)
        requires
            old(self).wf(),
        ensures
            final(self).wf(),
            final(self).same_but_allocs(old(self)),
            marking_step(old(self).allocs(), final(self).allocs(), mutability),
            final(self).not_static_count() <= old(self).not_static_count(),
            r is Ok ==> relocations_kept(old(self).allocs(), final(self).allocs()) && static_closed(
                old(self).allocs(),
                final(self).allocs(),
            ) && target_settled(final(self).allocs(), alloc),
            no_machine_kinds(old(self).allocs()) ==> r is Ok,
            uninit_kept(old(self).allocs(), final(self).allocs(), -1),
            forall|rs: Set<u64>|
                #![trigger machine_free_closure(old(self).allocs(), rs)]
                machine_free_closure(old(self).allocs(), rs) && visit_target(old(self).allocs(), alloc, rs) ==> r is Ok,
        decreases old(self).not_static_count(), 2nat,
    {
        let go = match self.get(alloc) {
            Ok(a) => a.kind != MemoryKind::UninitializedStatic,
            Err(_) => false,
        };
        if go {
            let ghost j = root_index(alloc);
            self.mark_static_initalized::<M>(alloc, mutability)?;
            proof {
                assert(uninit_kept(old(self).allocs(), self.allocs(), -1)) by {
                    assert forall|k: u64|
                        #[trigger] old(self).allocs().contains_key(k) && k != -1 && old(self).allocs()[k].kind
                            == MemoryKind::UninitializedStatic implies self.allocs()[k].kind
                        == MemoryKind::UninitializedStatic by {
                        assert(k as int != j);
                    }
                }
            }
        } else {
            proof {
                assert(self.allocs() =~= old(self).allocs());
            }
        }
        Ok(())
    }

    /// `after` and `r` are what marking the allocation `alloc_id` as a
    /// static with `mutability` makes of this memory, whatever the machine
    /// answers for allocations of its kinds: marking an allocation that
    /// exists succeeds where no allocation of a machine kind is reachable
    /// from it along what marking follows, that is, where a set closed for
    /// marking holds it and no allocation of a machine kind.
    pub open spec fn mark_outcome(&self, after: Memory, r: Result<(), EvalError>, alloc_id: AllocId, mutability: Mutability) -> bool {
        &&& marking_step(self.allocs(), after.allocs(), mutability)
        &&& after.not_static_count() <= self.not_static_count()
        &&& match spec_id_to_kind(alloc_id@) {
            AllocIdKind::Function(_) => r == Ok::<(), EvalError>(()) && after.allocs() == self.allocs(),
            AllocIdKind::Runtime(i) => if !self.allocs().contains_key(i) {
                r == Err::<(), EvalError>(EvalError::DanglingPointerDeref) && after.allocs()
                    == self.allocs()
            } else if self.allocs()[i].kind == MemoryKind::Static {
                r == Ok::<(), EvalError>(()) && after.allocs() == self.allocs()
            } else {
                &&& (r is Ok ==> after.allocs()[i].kind == MemoryKind::Static
                    && after.allocs()[i].mutable == mutability)
                &&& (self.allocs()[i].relocations@ == Map::<u64, AllocId>::empty() && !(
                self.allocs()[i].kind is Machine) ==> r is Ok)
            },
        }
        &&& (r is Ok ==> relocations_kept(self.allocs(), after.allocs()) && static_closed(
            self.allocs(),
            after.allocs(),
        ) && target_settled(after.allocs(), alloc_id))
        &&& (no_machine_kinds(self.allocs()) && !(spec_id_to_kind(alloc_id@) matches AllocIdKind::Runtime(i)
            && !self.allocs().contains_key(i)) ==> r is Ok)
        &&& uninit_kept(self.allocs(), after.allocs(), root_index(alloc_id))
        &&& forall|rs: Set<u64>|
            #![trigger machine_free_closure(self.allocs(), rs)]
            machine_free_closure(self.allocs(), rs) && rooted_in(self.allocs(), alloc_id, rs) ==> r is Ok
    }

    /// Marks an allocation as static and initialized, with the given
    /// mutability, and then every allocation it points to that is not
    /// another static still being initialized; an allocation already static
    /// is left as it is, so cycles end.
    pub fn mark_static_initalized<M: Machine>(&mut self, alloc_id: AllocId, mutability: Mutability) -> (r:
        Result<(), EvalError>)
        requires
            old(self).wf(),
        ensures
            final(self).wf(),
            final(self).same_but_allocs(old(self)),
            old(self).mark_outcome(*final(self), r, alloc_id, mutability),
        decreases old(self).not_static_count(), 1nat,
    {
        let i = match alloc_id.into_alloc_id_kind() {
            AllocIdKind::Function(_) => {
                return Ok(());
            },
            AllocIdKind::Runtime(i) => i,
        };
        let kind = match self.alloc_map.get(&i) {
            Some(a) => a.kind,
            None => {
                return Err(EvalError::DanglingPointerDeref);
            },
        };
        match kind {
            MemoryKind::Stack | MemoryKind::UninitializedStatic => {},
            MemoryKind::Machine(m) => {
                M::mark_static_initialized(m)?;
            },
            MemoryKind::Static => {
                return Ok(());
            },
        }
        let ghost m0 = self.allocs();
        let mut alloc = self.take_alloc(i);
        let pairs = alloc.relocations_in(0, u64::MAX);
        proof {
            if alloc.relocations@ == Map::<u64, AllocId>::empty() && pairs@.len() > 0 {
                assert(alloc.relocations@.contains_key(pairs@[0].0));
            }
            assert forall|o: u64| #[trigger] alloc.relocations@.contains_key(o) implies o < u64::MAX by {
                assert(o + self.ptr_size() <= alloc.bytes@.len());
            }
        }
        alloc.kind = MemoryKind::Static;
        alloc.mutable = mutability;
        let mut relocations = std::collections::BTreeMap::new();
        std::mem::swap(&mut relocations, &mut alloc.relocations);
        self.put_alloc(i, alloc);
        let ghost m1 = self.allocs();
        proof {
            assert(marking_step(m0, m1, mutability)) by {
                assert(m1.dom() =~= m0.dom());
            }
            assert(not_static(m1).subset_of(not_static(m0).remove(i)));
            vstd::set_lib::lemma_len_subset(not_static(m1), not_static(m0).remove(i));
            assert(not_static(m0).contains(i));
        }
        let mut j: usize = 0;
        while j < pairs.len()
            invariant
                self.wf(),
                self.same_but_allocs(old(self)),
                m0 == old(self).allocs(),
                spec_id_to_kind(alloc_id@) == AllocIdKind::Runtime(i),
                m0.contains_key(i),
                m0[i].kind != MemoryKind::Static,
                m1.dom() == m0.dom(),
                m1[i].kind == MemoryKind::Static,
                m1[i].mutable == mutability,
                m1.remove(i) == m0.remove(i),
                marking_step(m0, m1, mutability),
                marking_step(m1, self.allocs(), mutability),
                relocations_kept(m1, self.allocs()),
                static_closed(m1, self.allocs()),
                not_static(m1).len() < not_static(m0).len(),
                self.not_static_count() <= not_static(m1).len(),
                crate::allocation::is_range_of(pairs@, relocations@, 0, u64::MAX as int),
                forall|q: int| 0 <= q < j ==> target_settled(self.allocs(), #[trigger] pairs@[q].1),
                no_machine_kinds(m0) ==> no_machine_kinds(self.allocs()),
                m0[i].relocations@ == Map::<u64, AllocId>::empty() ==> pairs@.len() == 0,
                j <= pairs@.len(),
                relocations@ == m0[i].relocations@,
                uninit_kept(m0, self.allocs(), i as int),
            decreases pairs@.len() - j,
        {
            let ghost pre = self.allocs();
            let t = pairs[j].1;
            let res = self.mark_inner_allocation_initialized::<M>(t, mutability);
            proof {
                lemma_marking_step(pre, self.allocs(), mutability);
                lemma_marking_compose(m1, pre, self.allocs(), mutability);
            }
            match res {
                Ok(()) => {},
                Err(e) => {
                    proof {
                        lemma_marking_compose(m0, m1, self.allocs(), mutability);
                        lemma_marking_step(m0, self.allocs(), mutability);
                        lemma_marking_compose(m0, m1, pre, mutability);
                        lemma_uninit_compose(m0, pre, self.allocs(), i as int);
                        assert forall|rs: Set<u64>|
                            #![trigger machine_free_closure(m0, rs)]
                            machine_free_closure(m0, rs) && rooted_in(m0, alloc_id, rs) implies false by {
                            lemma_closure_kept(m0, pre, rs, i, mutability);
                            assert(relocations@.contains_key(pairs@[j as int].0));
                            assert(m0[i].relocations@.contains_key(pairs@[j as int].0));
                            assert(visit_target(m0, t, rs));
                            assert(visit_target(pre, t, rs));
                        }
                    }
                    return Err(e);
                },
            }
            proof {
                lemma_uninit_compose(m0, pre, self.allocs(), i as int);
            }
            proof {
                lemma_static_closed_compose(m1, pre, self.allocs(), mutability);
                assert forall|k: u64| #[trigger] m1.contains_key(k) implies self.allocs()[k].relocations
                    == m1[k].relocations by {
                    assert(pre[k].relocations == m1[k].relocations);
                }
            }
            j = j + 1;
        }
        let ghost m2 = self.allocs();
        let mut alloc = self.take_alloc(i);
        alloc.relocations = relocations;
        proof {
            assert(m2[i].relocations@ == Map::<u64, AllocId>::empty());
            assert(alloc.wf(self.ptr_size())) by {
                assert(alloc.bytes == m0[i].bytes);
            }
        }
        self.put_alloc(i, alloc);
        proof {
            let m3 = self.allocs();
            assert(m3.dom() =~= m0.dom());
            lemma_marking_compose(m0, m1, m2, mutability);
            assert(marking_step(m0, m3, mutability)) by {
                assert forall|k: u64| #[trigger] m0.contains_key(k) implies marked_from(
                    m0[k],
                    m3[k],
                    mutability,
                ) by {
                    assert(marked_from(m0[k], m2[k], mutability));
                }
            }
            assert(relocations_kept(m0, m3)) by {
                assert forall|k: u64| #[trigger] m0.contains_key(k) implies m3[k].relocations
                    == m0[k].relocations by {
                    if k != i {
                        assert(m1[k] == m0[k]);
                    }
                }
            }
            assert(static_closed(m0, m3)) by {
                assert forall|k: u64, o: u64|
                    m0.contains_key(k) && m0[k].kind != MemoryKind::Static && m3[k].kind
                        == MemoryKind::Static && #[trigger] m3[k].relocations@.contains_key(
                        o,
                    ) implies target_settled(m3, m3[k].relocations@[o]) by {
                    let t = m3[k].relocations@[o];
                    if k == i {
                        let q = choose|q: int| 0 <= q < pairs@.len() && pairs@[q].0 == o;
                        assert(target_settled(m2, pairs@[q].1));
                    } else {
                        assert(m1[k] == m0[k]);
                        assert(target_settled(m2, m2[k].relocations@[o]));
                    }
                }
            }
            lemma_marking_step(m0, m3, mutability);
            assert(m3[i].kind == MemoryKind::Static);
            assert(uninit_kept(m0, m3, i as int)) by {
                assert forall|k: u64|
                    #[trigger] m0.contains_key(k) && k != i as int && m0[k].kind == MemoryKind::UninitializedStatic implies m3[k].kind
                    == MemoryKind::UninitializedStatic by {
                    assert(m2[k].kind == MemoryKind::UninitializedStatic);
                }
            }
        }
        Ok(())
    }
}


/// The allocation the literal cache holds for `bytes`: that of its first entry with them.
pub open spec fn cache_lookup(cache: Seq<(Seq<u8>, AllocId)>, bytes: Seq<u8>) -> Option<AllocId> {
    match cache.map_values(|e: (Seq<u8>, AllocId)| e.0).index_of_first(bytes) {
        Some(k) => Some(cache[k].1),
        None => None,
    }
}

/// Whether two byte strings are equal.
fn same_bytes(a: &Vec<u8>, b: &[u8]) -> (r: bool)
    ensures
        r == (a@ == b@),
{
    if a.len() != b.len() {
        return false;
    }
    let mut i: usize = 0;
    while i < a.len()
        invariant
            a@.len() == b@.len(),
            i <= a@.len(),
            forall|j: int| 0 <= j < i ==> a@[j] == b@[j],
        decreases a@.len() - i,
    {
        if a[i] != b[i] {
            return false;
        }
        i = i + 1;
    }
    proof {
        assert(a@ =~= b@);
    }
    true
}

impl Memory {
    /// The allocation the literal cache holds for `bytes`, if any.
    fn cached_literal(&self, bytes: &[u8]) -> (r: Option<AllocId>)
        ensures
            r == cache_lookup(self.literal_cache(), bytes@),
    {
        let ghost keys = self.literal_cache().map_values(|e: (Seq<u8>, AllocId)| e.0);
        let mut j: usize = 0;
        while j < self.literal_alloc_cache.len()
            invariant
                keys == self.literal_cache().map_values(|e: (Seq<u8>, AllocId)| e.0),
                keys.len() == self.literal_alloc_cache@.len(),
                j <= keys.len(),
                forall|m: int| 0 <= m < j ==> keys[m] != bytes@,
            decreases keys.len() - j,
        {
            let entry = &self.literal_alloc_cache[j];
            proof {
                assert(keys[j as int] == entry.0@);
            }
            if same_bytes(&entry.0, bytes) {
                proof {
                    keys.index_of_first_ensures(bytes@);
                    assert(keys.contains(bytes@));
                    let k = keys.index_of_first(bytes@).unwrap();
                    assert(k == j as int);
                }
                return Some(entry.1);
            }
            j = j + 1;
        }
        proof {
            keys.index_of_first_ensures(bytes@);
            if keys.contains(bytes@) {
                let m = choose|m: int| 0 <= m < keys.len() && keys[m] == bytes@;
                assert(keys[m] != bytes@);
            }
        }
        None
    }

    /// `after` and `r` are what `allocate_cached` makes of this memory: the
    /// allocation cached for `bytes`, or a new one holding them, marked as an
    /// immutable static and then cached.
    pub open spec fn allocate_cached_outcome(&self, after: Memory, r: Result<MemoryPointer, EvalError>, bytes: Seq<u8>) -> bool {
        match cache_lookup(self.literal_cache(), bytes) {
            Some(id) => r == Ok::<MemoryPointer, EvalError>(MemoryPointer { alloc_id: id, offset: 0 })
                && after.same_state(self),
            None => exists|m1: Memory, r1: Result<MemoryPointer, EvalError>|
                #![trigger self.allocate_outcome(m1, r1, bytes.len() as u64, 1, MemoryKind::UninitializedStatic)]
                self.allocate_outcome(m1, r1, bytes.len() as u64, 1, MemoryKind::UninitializedStatic)
                    && m1.wf() && match r1 {
                    Err(e) => r == Err::<MemoryPointer, EvalError>(e) && after.same_state(&m1),
                    Ok(p) => exists|m2: Memory, r2: Result<(), EvalError>|
                        #![trigger m1.write_bytes_outcome(m2, r2, Pointer { primval: PrimVal::Ptr(p) }, bytes)]
                        m1.write_bytes_outcome(m2, r2, Pointer { primval: PrimVal::Ptr(p) }, bytes)
                            && m2.wf() && m2.same_but_allocs(&m1) && match r2 {
                            Err(e) => r == Err::<MemoryPointer, EvalError>(e) && after.same_state(&m2),
                            Ok(()) => exists|m3: Memory, r3: Result<(), EvalError>|
                                #![trigger m2.mark_outcome(m3, r3, p.alloc_id, Mutability::Immutable)]
                                m2.mark_outcome(m3, r3, p.alloc_id, Mutability::Immutable) && m3.wf()
                                    && m3.same_but_allocs(&m2) && match r3 {
                                    Err(e) => r == Err::<MemoryPointer, EvalError>(e)
                                        && after.same_state(&m3),
                                    Ok(()) => {
                                        &&& r == Ok::<MemoryPointer, EvalError>(p)
                                        &&& after.allocs() == m3.allocs()
                                        &&& after.literal_cache() == m3.literal_cache().push((bytes, p.alloc_id))
                                        &&& after.target() == m3.target()
                                        &&& after.frame() == m3.frame()
                                        &&& after.capacity() == m3.capacity()
                                        &&& after.usage() == m3.usage()
                                        &&& after.next_id() == m3.next_id()
                                        &&& after.function_list() == m3.function_list()
                                        &&& after.function_ids() == m3.function_ids()
                                        &&& after.reads_aligned() == m3.reads_aligned()
                                        &&& after.writes_aligned() == m3.writes_aligned()
                                    },
                                },
                        },
                },
        }
    }

    /// An allocation holding `bytes` as an immutable static; the same one for
    /// the same bytes each time.
    pub fn allocate_cached<M: Machine>(&mut self, bytes: &[u8]) -> (r: Result<MemoryPointer, EvalError>)
        requires
            old(self).wf(),
            bytes@.len() <= max_mask_len(),
            old(self).next_id() + 1 < id_bit(),
        ensures
            final(self).wf(),
            final(self).next_id() >= old(self).next_id(),
            old(self).allocate_cached_outcome(*final(self), r, bytes@),
    {
        if let Some(alloc_id) = self.cached_literal(bytes) {
            return Ok(MemoryPointer::new(alloc_id, 0));
        }
        let ghost m0 = *self;
        proof {
            assert(is_power_of_two(1)) by (bit_vector);
        }
        let r1 = self.allocate(bytes.len() as u64, 1, MemoryKind::UninitializedStatic);
        let ghost m1 = *self;
        let ptr = match r1 {
            Ok(p) => p,
            Err(e) => {
                assert(m0.allocate_outcome(m1, r1, bytes@.len() as u64, 1, MemoryKind::UninitializedStatic));
                return Err(e);
            },
        };
        let r2 = self.write_bytes(Pointer::from_ptr(ptr), bytes);
        let ghost m2 = *self;
        match r2 {
            Ok(()) => {},
            Err(e) => {
                assert(m1.write_bytes_outcome(m2, r2, Pointer { primval: PrimVal::Ptr(ptr) }, bytes@));
                assert(m0.allocate_outcome(m1, r1, bytes@.len() as u64, 1, MemoryKind::UninitializedStatic));
                return Err(e);
            },
        }
        let r3 = self.mark_static_initalized::<M>(ptr.alloc_id, Mutability::Immutable);
        let ghost m3 = *self;
        match r3 {
            Ok(()) => {},
            Err(e) => {
                assert(m2.mark_outcome(m3, r3, ptr.alloc_id, Mutability::Immutable));
                assert(m1.write_bytes_outcome(m2, r2, Pointer { primval: PrimVal::Ptr(ptr) }, bytes@));
                assert(m0.allocate_outcome(m1, r1, bytes@.len() as u64, 1, MemoryKind::UninitializedStatic));
                return Err(e);
            },
        }
        let copy = slice_to_vec(bytes);
        self.literal_alloc_cache.push((copy, ptr.alloc_id));
        proof {
            assert(self.literal_cache() =~= m3.literal_cache().push((bytes@, ptr.alloc_id)));
            assert(m2.mark_outcome(m3, r3, ptr.alloc_id, Mutability::Immutable));
            assert(m1.write_bytes_outcome(m2, r2, Pointer { primval: PrimVal::Ptr(ptr) }, bytes@));
            assert(m0.allocate_outcome(m1, r1, bytes@.len() as u64, 1, MemoryKind::UninitializedStatic));
        }
        Ok(ptr)
    }
}

/// A vector holding the bytes of a slice.
fn slice_to_vec(s: &[u8]) -> (r: Vec<u8>)
    ensures
        r@ == s@,
{
    let mut out: Vec<u8> = Vec::new();
    let mut i: usize = 0;
    while i < s.len()
        invariant
            i <= s@.len(),
            out@ == s@.take(i as int),
        decreases s@.len() - i,
    {
        out.push(s[i]);
        i = i + 1;
        proof {
            assert(out@ =~= s@.take(i as int));
        }
    }
    proof {
        assert(s@.take(s@.len() as int) =~= s@);
    }
    out
}


/// Looking up bytes after caching them for an allocation finds that
/// allocation, when they were not cached before.
proof fn lemma_cache_lookup_push(cache: Seq<(Seq<u8>, AllocId)>, bytes: Seq<u8>)
    requires
        cache_lookup(cache, bytes) is None,
    ensures
        forall|id: AllocId| #[trigger] cache_lookup(cache.push((bytes, id)), bytes) == Some(id),
{
    assert forall|id: AllocId| #[trigger] cache_lookup(cache.push((bytes, id)), bytes) == Some(id) by {
        let keys = cache.map_values(|e: (Seq<u8>, AllocId)| e.0);
        let pushed = cache.push((bytes, id));
        let keys2 = pushed.map_values(|e: (Seq<u8>, AllocId)| e.0);
        assert(keys2 =~= keys.push(bytes));
        keys.index_of_first_ensures(bytes);
        keys2.index_of_first_ensures(bytes);
        assert(keys2[keys.len() as int] == bytes);
        assert(keys2.contains(bytes));
        let k = keys2.index_of_first(bytes).unwrap();
        if k < keys.len() {
            assert(keys[k] == keys2[k]);
            assert(keys.contains(bytes));
        }
    }
}

impl Memory {
    /// Asking twice for the same bytes gives the same allocation, and the
    /// A literal allocated anew holds its bytes, all defined, in an
    /// immutable static allocation.
    pub proof fn law_cached_literal_contents(&self, after: Memory, p: MemoryPointer, bytes: Seq<u8>)
        requires
            self.wf(),
            cache_lookup(self.literal_cache(), bytes) is None,
            self.allocate_cached_outcome(after, Ok(p), bytes),
        ensures
            p.offset == 0,
            after.spec_get(p.alloc_id) matches Ok(a) && a.kind == MemoryKind::Static && a.mutable
                == Mutability::Immutable && a.bytes@ == bytes && range_defined(a.undef_mask@, 0, bytes.len() as int),
    {
        let n = bytes.len() as u64;
        let (m1, r1) = choose|m1: Memory, r1: Result<MemoryPointer, EvalError>|
            self.allocate_outcome(m1, r1, n, 1, MemoryKind::UninitializedStatic) && m1.wf() && match r1 {
                Err(e) => Err::<MemoryPointer, EvalError>(e) == Ok::<MemoryPointer, EvalError>(p) && after.same_state(&m1),
                Ok(q) => exists|m2: Memory, r2: Result<(), EvalError>|
                    #![trigger m1.write_bytes_outcome(m2, r2, Pointer { primval: PrimVal::Ptr(q) }, bytes)]
                    m1.write_bytes_outcome(m2, r2, Pointer { primval: PrimVal::Ptr(q) }, bytes) && m2.wf()
                        && m2.same_but_allocs(&m1) && match r2 {
                        Err(e) => Err::<MemoryPointer, EvalError>(e) == Ok::<MemoryPointer, EvalError>(p)
                            && after.same_state(&m2),
                        Ok(()) => exists|m3: Memory, r3: Result<(), EvalError>|
                            #![trigger m2.mark_outcome(m3, r3, q.alloc_id, Mutability::Immutable)]
                            m2.mark_outcome(m3, r3, q.alloc_id, Mutability::Immutable) && m3.wf()
                                && m3.same_but_allocs(&m2) && match r3 {
                                Err(e) => Err::<MemoryPointer, EvalError>(e) == Ok::<MemoryPointer, EvalError>(p)
                                    && after.same_state(&m3),
                                Ok(()) => {
                                    &&& Ok::<MemoryPointer, EvalError>(p) == Ok::<MemoryPointer, EvalError>(q)
                                    &&& after.allocs() == m3.allocs()
                                },
                            },
                    },
            };
        let q = r1->Ok_0;
        assert(q == p);
        let (m2, r2) = choose|m2: Memory, r2: Result<(), EvalError>|
            m1.write_bytes_outcome(m2, r2, Pointer { primval: PrimVal::Ptr(q) }, bytes) && m2.wf()
                && m2.same_but_allocs(&m1) && match r2 {
                Err(e) => Err::<MemoryPointer, EvalError>(e) == Ok::<MemoryPointer, EvalError>(p)
                    && after.same_state(&m2),
                Ok(()) => exists|m3: Memory, r3: Result<(), EvalError>|
                    #![trigger m2.mark_outcome(m3, r3, q.alloc_id, Mutability::Immutable)]
                    m2.mark_outcome(m3, r3, q.alloc_id, Mutability::Immutable) && m3.wf()
                        && m3.same_but_allocs(&m2) && match r3 {
                        Err(e) => Err::<MemoryPointer, EvalError>(e) == Ok::<MemoryPointer, EvalError>(p)
                            && after.same_state(&m3),
                        Ok(()) => {
                            &&& Ok::<MemoryPointer, EvalError>(p) == Ok::<MemoryPointer, EvalError>(q)
                            &&& after.allocs() == m3.allocs()
                        },
                    },
            };
        assert(r2 is Ok);
        let (m3, r3) = choose|m3: Memory, r3: Result<(), EvalError>|
            m2.mark_outcome(m3, r3, q.alloc_id, Mutability::Immutable) && m3.wf() && m3.same_but_allocs(&m2)
                && match r3 {
                Err(e) => Err::<MemoryPointer, EvalError>(e) == Ok::<MemoryPointer, EvalError>(p)
                    && after.same_state(&m3),
                Ok(()) => {
                    &&& Ok::<MemoryPointer, EvalError>(p) == Ok::<MemoryPointer, EvalError>(q)
                    &&& after.allocs() == m3.allocs()
                },
            };
        assert(r3 is Ok);
        let i = self.next_id();
        let a1 = m1.allocs()[i];
        assert(is_fresh(a1, n, 1, MemoryKind::UninitializedStatic));
        assert(m1.spec_get(q.alloc_id) == Ok::<Allocation, EvalError>(a1));
        let a2 = m2.allocs()[i];
        assert(m2.allocs().contains_key(i));
        assert(m2.spec_get(q.alloc_id) == Ok::<Allocation, EvalError>(a2));
        if n == 0 {
            assert(a2.bytes@ =~= bytes);
        } else {
            assert(m1.spec_check_align(Pointer { primval: PrimVal::Ptr(q) }, 1, Some(AccessKind::Write)) is Ok);
            assert(prepared_for_write(a1, a2, m1.ptr_size(), 0, n));
            crate::undef_mask::law_set_range_then_defined(cleared_mask(a1, m1.ptr_size(), 0, n), 0, n as int);
            assert(a2.bytes@ =~= bytes);
        }
        assert(range_defined(a2.undef_mask@, 0, n as int));
        assert(a2.kind == MemoryKind::UninitializedStatic);
        let a3 = m3.allocs()[i];
        assert(marked_from(a2, a3, Mutability::Immutable));
        assert(a3.kind == MemoryKind::Static && a3.mutable == Mutability::Immutable);
        assert(after.spec_get(p.alloc_id) == Ok::<Allocation, EvalError>(a3));
    }

    /// second time changes nothing.
    pub proof fn law_allocate_cached_deduplicates(
        &self,
        mid: Memory,
        p: MemoryPointer,
        after: Memory,
        r: Result<MemoryPointer, EvalError>,
        bytes: Seq<u8>,
    )
        requires
            self.allocate_cached_outcome(mid, Ok(p), bytes),
            mid.allocate_cached_outcome(after, r, bytes),
        ensures
            r == Ok::<MemoryPointer, EvalError>(p),
            after.same_state(&mid),
    {
        if cache_lookup(self.literal_cache(), bytes) is None {
            lemma_cache_lookup_push(self.literal_cache(), bytes);
        }
    }
}

impl Memory {
    /// A freed allocation is gone: reaching it is a dangling pointer, and
    /// freeing it again is a double free.
    pub proof fn law_deallocated_is_dangling(
        &self,
        after: Memory,
        ptr: MemoryPointer,
        size_and_align: Option<(u64, u64)>,
        kind: MemoryKind,
        again: Memory,
        r: Result<(), EvalError>,
        size_and_align2: Option<(u64, u64)>,
        kind2: MemoryKind,
    )
        requires
            self.deallocate_outcome(after, Ok(()), ptr, size_and_align, kind),
            after.deallocate_outcome(again, r, ptr, size_and_align2, kind2),
        ensures
            after.spec_get(ptr.alloc_id) == Err::<Allocation, EvalError>(EvalError::DanglingPointerDeref),
            r == Err::<(), EvalError>(EvalError::DoubleFree),
    {
    }

    /// Two allocations made one after the other have different ids, and the
    /// Freeing what an allocation just made, as it was made, gives back the
    /// allocations and the memory usage from before it, and leaves the
    /// pointer dangling.
    pub proof fn law_free_after_allocate(
        &self,
        mid: Memory,
        p: MemoryPointer,
        size: u64,
        align: u64,
        kind: MemoryKind,
        after: Memory,
    )
        requires
            self.allocate_outcome(mid, Ok(p), size, align, kind),
            mid.deallocate_outcome(after, Ok(()), p, Some((size, align)), kind),
        ensures
            after.allocs() == self.allocs(),
            after.usage() == self.usage(),
            after.next_id() == mid.next_id(),
            after.spec_get(p.alloc_id) == Err::<Allocation, EvalError>(EvalError::DanglingPointerDeref),
    {
        let i = self.next_id();
        assert(spec_id_to_kind(p.alloc_id@) == AllocIdKind::Runtime(i));
        assert(mid.allocs()[i].bytes@.len() == size);
        assert(after.allocs() =~= self.allocs());
    }

    /// A function pointer leads back to its function, and asking again for
    /// one gives the same pointer and changes nothing.
    pub proof fn law_fn_pointer_roundtrip(
        &self,
        after: Memory,
        p: MemoryPointer,
        instance: Instance,
        again: Memory,
        q: MemoryPointer,
    )
        requires
            self.fn_alloc_outcome(after, p, instance),
            after.fn_alloc_outcome(again, q, instance),
        ensures
            p.offset == 0,
            spec_id_to_kind(p.alloc_id@) matches AllocIdKind::Function(i) && i < after.function_list().len()
                && after.function_list()[i as int] == instance,
            q == p,
            again.function_list() == after.function_list(),
            again.function_ids() == after.function_ids(),
    {
        if self.function_ids().contains_key(instance.0) {
        } else {
            assert(after.function_ids().contains_key(instance.0));
        }
    }

    /// Ids are never reused: every operation leaves the next id no smaller,
    /// so an allocation made from any memory reached after an earlier one
    /// gets another id than the earlier one, even after it was freed.
    pub proof fn law_ids_never_reused(
        &self,
        mid: Memory,
        p: MemoryPointer,
        size1: u64,
        align1: u64,
        kind1: MemoryKind,
        later: Memory,
        after: Memory,
        q: MemoryPointer,
        size2: u64,
        align2: u64,
        kind2: MemoryKind,
    )
        requires
            self.allocate_outcome(mid, Ok(p), size1, align1, kind1),
            later.next_id() >= mid.next_id(),
            later.allocate_outcome(after, Ok(q), size2, align2, kind2),
        ensures
            p.alloc_id != q.alloc_id,
            after.next_id() > mid.next_id(),
    {
        assert(spec_id_to_kind(p.alloc_id@) == AllocIdKind::Runtime(self.next_id()));
        assert(spec_id_to_kind(q.alloc_id@) == AllocIdKind::Runtime(later.next_id()));
    }

    /// first is still there after the second.
    pub proof fn law_allocations_are_fresh(
        &self,
        mid: Memory,
        p: MemoryPointer,
        size1: u64,
        align1: u64,
        kind1: MemoryKind,
        after: Memory,
        q: MemoryPointer,
        size2: u64,
        align2: u64,
        kind2: MemoryKind,
    )
        requires
            self.allocate_outcome(mid, Ok(p), size1, align1, kind1),
            mid.allocate_outcome(after, Ok(q), size2, align2, kind2),
        ensures
            p.alloc_id != q.alloc_id,
            after.spec_get(p.alloc_id) is Ok,
            after.spec_get(q.alloc_id) is Ok,
    {
        let i = self.next_id();
        let j = mid.next_id();
        assert(spec_id_to_kind(p.alloc_id@) == AllocIdKind::Runtime(i));
        assert(spec_id_to_kind(q.alloc_id@) == AllocIdKind::Runtime(j));
        assert(i != j);
        assert(after.allocs().remove(j) == mid.allocs());
        assert(after.allocs().contains_key(i)) by {
            assert(mid.allocs().contains_key(i));
            assert(after.allocs().remove(j).contains_key(i));
        }
    }
}

impl Memory {
    /// Every allocation with its id, each once, in no particular order.
    pub fn allocations(&self) -> (r: Vec<(AllocId, &Allocation)>)
        requires
            self.wf(),
        ensures
            r@.len() == self.allocs().dom().len(),
            forall|j: int|
                0 <= j < r@.len() ==> {
                    let i = Memory::runtime_index(#[trigger] r@[j].0);
                    &&& spec_id_to_kind(r@[j].0@) == AllocIdKind::Runtime(i)
                    &&& self.allocs().contains_key(i)
                    &&& *r@[j].1 == self.allocs()[i]
                },
            forall|i: u64| #[trigger]
                self.allocs().contains_key(i) ==> exists|j: int|
                    0 <= j < r@.len() && r@[j].0 == spec_kind_to_id_value(i),
            forall|a: int, b: int| 0 <= a < b < r@.len() ==> r@[a].0 != r@[b].0,
    {
        let keys = self.alloc_indices();
        proof {
            keys@.unique_seq_to_set();
        }
        let mut out: Vec<(AllocId, &Allocation)> = Vec::new();
        let mut j: usize = 0;
        while j < keys.len()
            invariant
                self.wf(),
                keys@.to_set() == self.allocs().dom(),
                keys@.no_duplicates(),
                keys@.len() == self.allocs().dom().len(),
                j <= keys@.len(),
                out@.len() == j,
                forall|q: int|
                    0 <= q < j ==> {
                        &&& (#[trigger] out@[q]).0 == spec_kind_to_id_value(keys@[q])
                        &&& spec_id_to_kind(out@[q].0@) == AllocIdKind::Runtime(keys@[q])
                        &&& Memory::runtime_index(out@[q].0) == keys@[q]
                        &&& self.allocs().contains_key(keys@[q])
                        &&& *out@[q].1 == self.allocs()[keys@[q]]
                    },
            decreases keys@.len() - j,
        {
            let k = keys[j];
            proof {
                assert(keys@.contains(k));
                assert(keys@.to_set().contains(k));
                crate::pointer::law_alloc_id_kind_roundtrip(AllocIdKind::Runtime(k));
            }
            let a = self.alloc_map.get(&k).unwrap();
            out.push((AllocIdKind::Runtime(k).into_alloc_id(), a));
            j = j + 1;
        }
        proof {
            assert forall|i: u64| #[trigger] self.allocs().contains_key(i) implies exists|q: int|
                0 <= q < out@.len() && out@[q].0 == spec_kind_to_id_value(i) by {
                assert(keys@.to_set().contains(i));
                let q = choose|q: int| 0 <= q < keys@.len() && keys@[q] == i;
                assert(out@[q].0 == spec_kind_to_id_value(keys@[q]));
            }
            assert forall|a: int, b: int| 0 <= a < b < out@.len() implies out@[a].0 != out@[b].0 by {
                assert(keys@[a] != keys@[b]);
                if out@[a].0 == out@[b].0 {
                    assert(Memory::runtime_index(out@[a].0) == keys@[a]);
                }
            }
        }
        out
    }
}

/// The id of runtime allocation `i`.
pub open spec fn spec_kind_to_id_value(i: u64) -> AllocId {
    AllocId(spec_kind_to_id(AllocIdKind::Runtime(i)))
}

/// Where a dump stands: the ids to print, how many of them are printed, and the
/// ids met as targets of pointers.
#[verifier::ext_equal]
pub struct DumpState {
    pub queue: Seq<AllocId>,
    pub head: int,
    pub seen: Set<u64>,
}

/// The pointers stored in `a` are at least `ps` bytes apart.
pub open spec fn relocations_apart(a: Allocation, ps: nat) -> bool {
    forall|k: u64, l: u64|
        #![trigger a.relocations@.contains_key(k), a.relocations@.contains_key(l)]
        a.relocations@.contains_key(k) && a.relocations@.contains_key(l) && k < l ==> k + ps <= l
}

impl Memory {
    /// `id` is a runtime id, or names a function of this memory.
    pub open spec fn names_known(&self, id: AllocId) -> bool {
        match spec_id_to_kind(id@) {
            AllocIdKind::Function(n) => n < self.function_list().len(),
            AllocIdKind::Runtime(_) => true,
        }
    }

    /// What a dump of `allocs` needs: every function id it can meet names a
    /// function, and stored pointers do not overlap.
    pub open spec fn dump_ready(&self, allocs: Seq<AllocId>) -> bool {
        &&& forall|k: int| 0 <= k < allocs.len() ==> #[trigger] self.names_known(allocs[k])
        &&& forall|r: u64, o: u64|
            #![trigger self.allocs()[r].relocations@[o]]
            self.allocs().contains_key(r) && self.allocs()[r].relocations@.contains_key(o)
                ==> self.names_known(self.allocs()[r].relocations@[o])
        &&& forall|r: u64| #[trigger]
            self.allocs().contains_key(r) ==> relocations_apart(self.allocs()[r], self.ptr_size())
    }

    /// The lines that printing the next id of `s` gives, and the state after it:
    /// a function's line ends with the function; a freed allocation is marked
    /// so; a live one shows its bytes, size, alignment and kind, and under them,
    /// if it holds pointers, a mark for each; the targets of its pointers that
    /// were not met before are queued.
    pub open spec fn dump_step(&self, s: DumpState) -> (Seq<DumpLineView>, DumpState) {
        let id = s.queue[s.head];
        let prefix = line_prefix(id);
        let next = DumpState { queue: s.queue, head: s.head + 1, seen: s.seen };
        match spec_id_to_kind(id@) {
            AllocIdKind::Function(n) => (
                seq![DumpLineView::Function(prefix + " "@, self.function_list()[n as int])],
                next,
            ),
            AllocIdKind::Runtime(r) => if !self.allocs().contains_key(r) {
                (seq![DumpLineView::Text(prefix + " (deallocated)"@)], next)
            } else {
                let a = self.allocs()[r];
                let sc = scan_from(
                    a,
                    0,
                    ScanState { queue: s.queue, seen: s.seen, relocs: Seq::empty(), text: prefix },
                );
                let first = DumpLineView::Text(sc.text + alloc_tail(a));
                let after = DumpState { queue: sc.queue, head: s.head + 1, seen: sc.seen };
                if sc.relocs.len() == 0 {
                    (seq![first], after)
                } else {
                    (
                        seq![
                            first,
                            DumpLineView::Text(
                                repeat(" "@, prefix.len()) + reloc_marks(sc.relocs, 0, self.ptr_size()),
                            ),
                        ],
                        after,
                    )
                }
            },
        }
    }

    /// The lines of at most `fuel` steps of a dump from `s`, until no id is left.
    pub open spec fn dump_run(&self, s: DumpState, fuel: nat) -> Seq<DumpLineView>
        decreases fuel,
    {
        if fuel == 0 || s.head < 0 || s.head >= s.queue.len() {
            Seq::empty()
        } else {
            self.dump_step(s).0 + self.dump_run(self.dump_step(s).1, (fuel - 1) as nat)
        }
    }

    /// The lines that dumping `allocs` prints: the ids in increasing order, each
    /// once, then every allocation reachable from them through stored pointers,
    /// in the order met (an id given is printed again when a pointer reaches it).
    /// Every id is queued at most once after the given ones, so the bound on the
    /// steps is never reached.
    pub open spec fn spec_dump_lines(&self, allocs: Seq<AllocId>) -> Seq<DumpLineView> {
        self.dump_run(
            DumpState { queue: sorted_ids(allocs), head: 0, seen: Set::empty() },
            (allocs.len() + 0x1_0000_0000_0000_0001) as nat,
        )
    }

    /// For debugging: the lines that show the allocations `allocs` and all
    /// allocations they point to, recursively.
    pub fn dump_allocs_lines(&self, allocs: Vec<AllocId>) -> (lines: Vec<DumpLine>)
        requires
            self.wf(),
            self.dump_ready(allocs@),
        ensures
            lines@.map_values(|l: DumpLine| l@) == self.spec_dump_lines(allocs@),
    {
        let mut queue = sorted_ids_of(&allocs);
        let ghost nroots = queue@.len();
        let ghost fuel0: nat = (allocs@.len() + 0x1_0000_0000_0000_0001) as nat;
        proof {
            lemma_sorted_ids_len(allocs@);
            assert forall|q: int| 0 <= q < queue@.len() implies #[trigger] self.names_known(queue@[q]) by {
                lemma_sorted_ids_known(self, allocs@, q);
            }
        }
        let mut seen: HashSet<u64> = HashSet::new();
        let mut lines: Vec<DumpLine> = Vec::new();
        let mut head: usize = 0;
        assert(lines@.map_values(|l: DumpLine| l@) + self.dump_run(
            DumpState { queue: queue@, head: 0, seen: seen@ },
            fuel0,
        ) =~= self.spec_dump_lines(allocs@));
        while head < queue.len()
            invariant
                self.wf(),
                self.dump_ready(allocs@),
                head <= queue@.len(),
                seen@.finite(),
                queue@.len() == nroots + seen@.len(),
                nroots <= allocs@.len(),
                fuel0 == allocs@.len() + 0x1_0000_0000_0000_0001,
                forall|q: int| 0 <= q < queue@.len() ==> #[trigger] self.names_known(queue@[q]),
                lines@.map_values(|l: DumpLine| l@) + self.dump_run(
                    DumpState { queue: queue@, head: head as int, seen: seen@ },
                    (fuel0 - head) as nat,
                ) == self.spec_dump_lines(allocs@),
            decreases fuel0 - head,
        {
            proof {
                lemma_u64_set_len(seen@);
            }
            let ghost s = DumpState { queue: queue@, head: head as int, seen: seen@ };
            let ghost before = lines@.map_values(|l: DumpLine| l@);
            let ghost step = self.dump_step(s);
            let id = queue[head];
            assert(self.names_known(queue@[head as int]));
            let mut msg = String::from_str("Alloc ");
            msg.append(id_string(id).as_str());
            msg.append(": ");
            assert(msg@ =~= line_prefix(id));
            match id.into_alloc_id_kind() {
                AllocIdKind::Function(n) => {
                    msg.append(" ");
                    let f = self.functions[n];
                    lines.push(DumpLine::Function(msg, f));
                    proof {
                        assert(step.0 =~= seq![DumpLineView::Function(line_prefix(id) + " "@, f)]);
                        assert(lines@.map_values(|l: DumpLine| l@) =~= before + step.0);
                    }
                },
                AllocIdKind::Runtime(r) => {
                    match self.alloc_map.get(&r) {
                        None => {
                            msg.append(" (deallocated)");
                            lines.push(DumpLine::Text(msg));
                            proof {
                                assert(lines@.map_values(|l: DumpLine| l@) =~= before + step.0);
                            }
                        },
                        Some(a) => {
                            let blen: usize = a.bytes.len();
                            let prefix_len = msg.as_str().unicode_len();
                            let ghost q0 = queue@;
                            let ghost prefix = msg@;
                            assert(self.allocs()[r].wf(self.layout.pointer_size as nat));
                            let relocs = scan_alloc(a, &mut queue, &mut seen, &mut msg);
                            let ghost sc = ScanState { queue: queue@, seen: seen@, relocs: relocs@, text: msg@ };
                            proof {
                                assert(queue@.subrange(0, q0.len() as int) == q0);
                                assert forall|q: int| 0 <= q < queue@.len() implies #[trigger] self.names_known(
                                    queue@[q],
                                ) by {
                                    if q < q0.len() {
                                        assert(queue@.subrange(0, q0.len() as int)[q] == q0[q]);
                                    } else {
                                        let e = queue@[q];
                                        let o = choose|o: u64|
                                            a.relocations@.contains_key(o) && a.relocations@[o] == queue@[q];
                                        assert(self.allocs()[r].relocations@[o] == queue@[q]);
                                    }
                                }
                            }
                            push_alloc_tail(&mut msg, a);
                            let ghost first = msg@;
                            lines.push(DumpLine::Text(msg));
                            if relocs.len() > 0 {
                                let mut marks = String::from_str("");
                                proof {
                                    reveal_strlit("");
                                    assert(marks@ =~= Seq::<char>::empty());
                                }
                                push_repeated(&mut marks, " ", prefix_len as u64);
                                proof {
                                    assert(relocations_apart(self.allocs()[r], self.ptr_size()));
                                    assert forall|k: int| 0 <= k < relocs@.len() - 1 implies #[trigger] relocs@[k].0
                                        + self.layout.pointer_size <= relocs@[k + 1].0 by {
                                        assert(a.relocations@.contains_key(relocs@[k].0));
                                        assert(a.relocations@.contains_key(relocs@[k + 1].0));
                                        assert(relocs@[k].0 < relocs@[k + 1].0);
                                    }
                                    assert forall|k: int| 0 <= k < relocs@.len() implies relocs@[k].0
                                        + self.layout.pointer_size <= u64::MAX by {
                                        assert(a.relocations@.contains_key(relocs@[k].0));
                                    }
                                }
                                push_marks(&mut marks, &relocs, self.layout.pointer_size);
                                lines.push(DumpLine::Text(marks));
                                proof {
                                    assert(marks@ =~= repeat(" "@, prefix.len()) + reloc_marks(
                                        sc.relocs,
                                        0,
                                        self.ptr_size(),
                                    ));
                                    assert(step.0 =~= seq![
                                        DumpLineView::Text(first),
                                        DumpLineView::Text(marks@),
                                    ]);
                                    assert(lines@.map_values(|l: DumpLine| l@) =~= before + step.0);
                                }
                            } else {
                                proof {
                                    assert(step.0 =~= seq![DumpLineView::Text(first)]);
                                    assert(lines@.map_values(|l: DumpLine| l@) =~= before + step.0);
                                }
                            }
                        },
                    }
                },
            }
            head = head + 1;
            proof {
                assert(queue@ =~= step.1.queue);
                assert(seen@ =~= step.1.seen);
                assert(lines@.map_values(|l: DumpLine| l@) + self.dump_run(
                    DumpState { queue: queue@, head: head as int, seen: seen@ },
                    (fuel0 - head) as nat,
                ) =~= before + self.dump_run(s, (fuel0 - s.head) as nat));
            }
        }
        lines
    }

    /// For debugging: the lines that show allocation `id` and all allocations
    /// it points to, recursively.
    pub fn dump_alloc(&self, id: AllocId) -> (lines: Vec<DumpLine>)
        requires
            self.wf(),
            self.dump_ready(seq![id]),
        ensures
            lines@.map_values(|l: DumpLine| l@) == self.spec_dump_lines(seq![id]),
    {
        let v = vec![id];
        assert(v@ =~= seq![id]);
        self.dump_allocs_lines(v)
    }
}

/// Every id of the sorted `allocs` names something the memory knows, when every given id does.
proof fn lemma_sorted_ids_known(m: &Memory, allocs: Seq<AllocId>, q: int)
    requires
        forall|k: int| 0 <= k < allocs.len() ==> #[trigger] m.names_known(allocs[k]),
        0 <= q < sorted_ids(allocs).len(),
    ensures
        m.names_known(sorted_ids(allocs)[q]),
{
    lemma_sorted_ids_from(allocs, q);
    let k = choose|k: int| 0 <= k < allocs.len() && allocs[k] == sorted_ids(allocs)[q];
    assert(m.names_known(allocs[k]));
}

impl Memory {
    /// Whether `id` is a runtime id or names a function of this memory.
    fn knows(&self, id: AllocId) -> (r: bool)
        ensures
            r == self.names_known(id),
    {
        match id.into_alloc_id_kind() {
            AllocIdKind::Function(n) => n < self.functions.len(),
            AllocIdKind::Runtime(_) => true,
        }
    }

    /// Whether the pointers stored in `a` name what this memory knows and do not overlap.
    fn pointers_fine(&self, a: &Allocation) -> (r: bool)
        requires
            self.wf(),
            a.wf(self.ptr_size()),
        ensures
            r == ((forall|o: u64| #[trigger]
                a.relocations@.contains_key(o) ==> self.names_known(a.relocations@[o]))
                && relocations_apart(*a, self.ptr_size())),
    {
        let blen: usize = a.bytes.len();
        let ps = self.layout.pointer_size;
        let rs = a.relocations_in(0, u64::MAX);
        assert forall|o: u64| #[trigger] a.relocations@.contains_key(o) implies exists|i: int|
            0 <= i < rs@.len() && rs@[i].0 == o by {
            assert(o < u64::MAX);
        }
        let mut i: usize = 0;
        while i < rs.len()
            invariant
                i <= rs@.len(),
                is_range_of(rs@, a.relocations@, 0, u64::MAX as int),
                forall|j: int| 0 <= j < i ==> #[trigger] self.names_known(rs@[j].1),
            decreases rs@.len() - i,
        {
            if !self.knows(rs[i].1) {
                proof {
                    assert(a.relocations@.contains_key(rs@[i as int].0));
                }
                return false;
            }
            i = i + 1;
        }
        assert forall|o: u64| #[trigger] a.relocations@.contains_key(o) implies self.names_known(
            a.relocations@[o],
        ) by {
            let j = choose|j: int| 0 <= j < rs@.len() && rs@[j].0 == o;
            assert(self.names_known(rs@[j].1));
        }
        let mut i: usize = 0;
        while i < rs.len()
            invariant
                i <= rs@.len(),
                ps == self.ptr_size(),
                blen == a.bytes@.len(),
                a.wf(self.ptr_size()),
                is_range_of(rs@, a.relocations@, 0, u64::MAX as int),
                forall|j: int, l: int|
                    0 <= j < i && 0 <= l < rs@.len() && #[trigger] rs@[j].0 < #[trigger] rs@[l].0 ==> rs@[j].0
                        + ps <= rs@[l].0,
            decreases rs@.len() - i,
        {
            let mut l: usize = 0;
            assert(a.relocations@.contains_key(rs@[i as int].0));
            while l < rs.len()
                invariant
                    i < rs@.len(),
                    l <= rs@.len(),
                    ps == self.ptr_size(),
                    blen == a.bytes@.len(),
                    a.wf(self.ptr_size()),
                    a.relocations@.contains_key(rs@[i as int].0),
                    is_range_of(rs@, a.relocations@, 0, u64::MAX as int),
                    forall|j: int, m: int|
                        0 <= j < i && 0 <= m < rs@.len() && #[trigger] rs@[j].0 < #[trigger] rs@[m].0 ==> rs@[j].0
                            + ps <= rs@[m].0,
                    forall|m: int|
                        0 <= m < l && rs@[i as int].0 < #[trigger] rs@[m].0 ==> rs@[i as int].0 + ps <= rs@[m].0,
                decreases rs@.len() - l,
            {
                if rs[i].0 < rs[l].0 && rs[i].0 + ps > rs[l].0 {
                    proof {
                        let k1 = rs@[i as int].0;
                        let k2 = rs@[l as int].0;
                        assert(a.relocations@.contains_key(k2));
                        assert(!relocations_apart(*a, self.ptr_size())) by {
                            assert(a.relocations@.contains_key(k1) && a.relocations@.contains_key(k2) && k1 < k2);
                        }
                    }
                    return false;
                }
                l = l + 1;
            }
            i = i + 1;
        }
        assert forall|k: u64, l: u64|
            a.relocations@.contains_key(k) && a.relocations@.contains_key(l) && k < l implies k + self.ptr_size()
            <= l by {
            let j = choose|j: int| 0 <= j < rs@.len() && rs@[j].0 == k;
            let m = choose|m: int| 0 <= m < rs@.len() && rs@[m].0 == l;
            assert(rs@[j].0 < rs@[m].0);
        }
        true
    }

    /// Whether a dump of `allocs` can be made: every function id it can meet
    /// names a function, and stored pointers do not overlap.
    pub fn can_dump(&self, allocs: &Vec<AllocId>) -> (r: bool)
        requires
            self.wf(),
        ensures
            r == self.dump_ready(allocs@),
    {
        let mut k: usize = 0;
        while k < allocs.len()
            invariant
                k <= allocs@.len(),
                forall|j: int| 0 <= j < k ==> #[trigger] self.names_known(allocs@[j]),
            decreases allocs@.len() - k,
        {
            if !self.knows(allocs[k]) {
                return false;
            }
            k = k + 1;
        }
        let keys = self.alloc_indices();
        let mut j: usize = 0;
        while j < keys.len()
            invariant
                self.wf(),
                keys@.to_set() == self.allocs().dom(),
                j <= keys@.len(),
                forall|q: int| 0 <= q < allocs@.len() ==> #[trigger] self.names_known(allocs@[q]),
                forall|q: int| 0 <= q < j ==> #[trigger] self.alloc_fine(keys@[q]),
            decreases keys@.len() - j,
        {
            let r = keys[j];
            assert(keys@.to_set().contains(r));
            let a = self.alloc_map.get(&r).unwrap();
            if !self.pointers_fine(a) {
                proof {
                    if forall|o: u64| #[trigger]
                        a.relocations@.contains_key(o) ==> self.names_known(a.relocations@[o]) {
                        assert(!relocations_apart(self.allocs()[r], self.ptr_size()));
                    } else {
                        let o = choose|o: u64|
                            a.relocations@.contains_key(o) && !self.names_known(a.relocations@[o]);
                        assert(self.allocs()[r].relocations@[o] == a.relocations@[o]);
                    }
                }
                return false;
            }
            j = j + 1;
        }
        assert forall|r: u64| #[trigger] self.allocs().contains_key(r) implies self.alloc_fine(r) by {
            assert(keys@.to_set().contains(r));
            let q = choose|q: int| 0 <= q < keys@.len() && keys@[q] == r;
        }
        true
    }

    /// The pointers of allocation `r` name what this memory knows and do not overlap.
    pub open spec fn alloc_fine(&self, r: u64) -> bool {
        &&& forall|o: u64| #[trigger]
            self.allocs()[r].relocations@.contains_key(o) ==> self.names_known(
                self.allocs()[r].relocations@[o],
            )
        &&& relocations_apart(self.allocs()[r], self.ptr_size())
    }
}

} // verus!
