//! A single allocation: its bytes, the pointers stored in it, which bytes are
//! defined, and the locks held on its bytes.
use vstd::prelude::*;
use std::collections::BTreeMap;
use vstd::std_specs::iter::IteratorSpec;
use crate::lock::{AccessKind, Lock, LockInfo, LockInfoView, LockView, spec_access_permitted};
use crate::ordered_keys::lemma_u64_keys_ordered;
use crate::pointer::AllocId;
use crate::undef_mask::{UndefMask, max_mask_len};

verus! {

broadcast use vstd::std_specs::btree::group_btree_axioms;

/// Whether an allocation may be modified.
#[derive(Copy, Clone, Debug, PartialEq, Eq, Structural)]
pub enum Mutability {
    Mutable,
    Immutable,
}

/// Where an allocation comes from, which decides how it may be deallocated.
#[derive(Copy, Clone, Debug, PartialEq, Eq, Structural)]
pub enum MemoryKind {
    /// Error if deallocated except during a stack pop.
    Stack,
    /// A static in the process of being initialized.
    UninitializedStatic,
    /// May never be deallocated.
    Static,
    /// A kind the interpreter's machine distinguishes, by its number.
    Machine(u64),
}

/// The bytes of an allocation and what is known about them.
#[derive(Debug)]
pub struct Allocation {
    /// The bytes; those of a stored pointer hold its offset.
    pub bytes: Vec<u8>,
    /// For each stored pointer, the offset of its first byte and the allocation it points to.
    pub relocations: BTreeMap<u64, AllocId>,
    /// Which bytes are defined.
    pub undef_mask: UndefMask,
    /// The alignment of the allocation.
    pub align: u64,
    /// Whether the allocation may be modified.
    pub mutable: Mutability,
    /// Where it comes from.
    pub kind: MemoryKind,
    /// The lock information of each byte that has any; other bytes are unlocked.
    pub locks: BTreeMap<u64, LockInfo>,
}

/// A relocation table entry list that holds exactly the entries of `m` with keys in `start..end`.
pub open spec fn is_range_of(r: Seq<(u64, AllocId)>, m: Map<u64, AllocId>, start: int, end: int) -> bool {
    &&& forall|i: int|
        0 <= i < r.len() ==> start <= #[trigger] r[i].0 < end && m.contains_key(r[i].0) && m[r[i].0]
            == r[i].1
    &&& forall|k: u64|
        start <= k < end && #[trigger] m.contains_key(k) ==> exists|i: int|
            0 <= i < r.len() && r[i].0 == k
}

impl Allocation {
    /// The lock in effect on byte `o`.
    pub open spec fn active_at(&self, o: u64) -> LockView {
        if self.locks@.contains_key(o) {
            self.locks@[o]@.active
        } else {
            LockView::NoLock
        }
    }

    /// The lock information of each byte, as values.
    pub open spec fn lock_view(&self) -> Map<u64, LockInfoView> {
        self.locks@.map_values(|l: LockInfo| l@)
    }

    /// The internal invariant, for pointers of `ptr_size` bytes.
    pub open spec fn wf(&self, ptr_size: nat) -> bool {
        &&& self.undef_mask.wf()
        &&& self.undef_mask@.len() >= self.bytes@.len()
        &&& forall|k: u64| #[trigger]
            self.relocations@.contains_key(k) ==> k + ptr_size <= self.bytes@.len()
        &&& forall|k: u64| #[trigger] self.locks@.contains_key(k) ==> self.locks@[k].wf()
    }

    /// A fresh allocation of `size` zero bytes, all undefined, mutable and unlocked.
    pub fn new(size: u64, align: u64, kind: MemoryKind) -> (a: Allocation)
        requires
            size <= max_mask_len(),
        ensures
            a.bytes@ == Seq::new(size as nat, |i: int| 0u8),
            a.relocations@ == Map::<u64, AllocId>::empty(),
            a.undef_mask@ == Seq::new(size as nat, |i: int| false),
            a.undef_mask.wf(),
            a.align == align,
            a.mutable == Mutability::Mutable,
            a.kind == kind,
            a.locks@ == Map::<u64, LockInfo>::empty(),
    {
        let bytes = vec![0u8; size as usize];
        assert(bytes@ =~= Seq::new(size as nat, |i: int| 0u8));
        Allocation {
            bytes,
            relocations: BTreeMap::new(),
            undef_mask: UndefMask::new(size),
            align,
            mutable: Mutability::Mutable,
            kind,
            locks: BTreeMap::new(),
        }
    }

    /// A copy of `size` bytes at `offset`.
    pub fn read_slice(&self, offset: u64, size: u64) -> (r: Vec<u8>)
        requires
            offset + size <= self.bytes@.len(),
        ensures
            r@ == self.bytes@.subrange(offset as int, offset + size),
    {
        let mut out: Vec<u8> = Vec::new();
        let n = self.bytes.len();
        let start = offset as usize;
        let end = (offset + size) as usize;
        let mut i = start;
        while i < end
            invariant
                start <= i <= end,
                end <= self.bytes@.len(),
                start == offset,
                end == offset + size,
                out@ == self.bytes@.subrange(start as int, i as int),
            decreases end - i,
        {
            out.push(self.bytes[i]);
            i = i + 1;
            assert(out@ =~= self.bytes@.subrange(start as int, i as int));
        }
        out
    }

    /// Overwrites the bytes at `offset` with `data`.
    pub fn write_slice(&mut self, offset: u64, data: &[u8])
        requires
            offset + data@.len() <= old(self).bytes@.len(),
        ensures
            final(self).bytes@.len() == old(self).bytes@.len(),
            final(self).bytes@ == old(self).bytes@.subrange(0, offset as int) + data@
                + old(self).bytes@.subrange(offset + data@.len(), old(self).bytes@.len() as int),
            final(self).relocations == old(self).relocations,
            final(self).undef_mask == old(self).undef_mask,
            final(self).align == old(self).align,
            final(self).mutable == old(self).mutable,
            final(self).kind == old(self).kind,
            final(self).locks == old(self).locks,
    {
        let n = self.bytes.len();
        let start = offset as usize;
        let mut j: usize = 0;
        while j < data.len()
            invariant
                start == offset,
                n == self.bytes@.len(),
                start + data@.len() <= self.bytes@.len(),
                0 <= j <= data@.len(),
                self.bytes@.len() == old(self).bytes@.len(),
                self.bytes@ == old(self).bytes@.subrange(0, offset as int) + data@.subrange(0, j as int)
                    + old(self).bytes@.subrange(offset + j, old(self).bytes@.len() as int),
                self.relocations == old(self).relocations,
                self.undef_mask == old(self).undef_mask,
                self.align == old(self).align,
                self.mutable == old(self).mutable,
                self.kind == old(self).kind,
                self.locks == old(self).locks,
            decreases data@.len() - j,
        {
            self.bytes.set(start + j, data[j]);
            j = j + 1;
            assert(self.bytes@ =~= old(self).bytes@.subrange(0, offset as int) + data@.subrange(0, j as int)
                + old(self).bytes@.subrange(offset + j, old(self).bytes@.len() as int));
        }
        assert(data@.subrange(0, data@.len() as int) =~= data@);
    }

    /// The definedness bits of `size` bytes at `offset`.
    pub fn read_mask(&self, offset: u64, size: u64) -> (r: Vec<bool>)
        requires
            self.undef_mask.wf(),
            offset + size <= self.undef_mask@.len(),
        ensures
            r@ == self.undef_mask@.subrange(offset as int, offset + size),
    {
        let mut out: Vec<bool> = Vec::new();
        let mut k: u64 = 0;
        proof {
            self.undef_mask.lemma_len_bound();
        }
        while k < size
            invariant
                self.undef_mask.wf(),
                self.undef_mask@.len() <= max_mask_len(),
                offset + size <= self.undef_mask@.len(),
                k <= size,
                out@ == self.undef_mask@.subrange(offset as int, offset + k),
            decreases size - k,
        {
            out.push(self.undef_mask.get(offset + k));
            k = k + 1;
            assert(out@ =~= self.undef_mask@.subrange(offset as int, offset + k));
        }
        out
    }

    /// Sets the definedness bits at `offset` to `bits`.
    pub fn write_mask(&mut self, offset: u64, bits: &Vec<bool>)
        requires
            old(self).undef_mask.wf(),
            offset + bits@.len() <= old(self).undef_mask@.len(),
        ensures
            final(self).undef_mask.wf(),
            final(self).undef_mask@ == old(self).undef_mask@.subrange(0, offset as int) + bits@
                + old(self).undef_mask@.subrange(offset + bits@.len(), old(self).undef_mask@.len() as int),
            final(self).bytes == old(self).bytes,
            final(self).relocations == old(self).relocations,
            final(self).align == old(self).align,
            final(self).mutable == old(self).mutable,
            final(self).kind == old(self).kind,
            final(self).locks == old(self).locks,
    {
        let mut k: usize = 0;
        proof {
            old(self).undef_mask.lemma_len_bound();
        }
        while k < bits.len()
            invariant
                self.undef_mask.wf(),
                old(self).undef_mask@.len() <= max_mask_len(),
                offset + bits@.len() <= old(self).undef_mask@.len(),
                self.undef_mask@.len() == old(self).undef_mask@.len(),
                k <= bits@.len(),
                self.undef_mask@ == old(self).undef_mask@.subrange(0, offset as int) + bits@.subrange(0, k as int)
                    + old(self).undef_mask@.subrange(offset + k, old(self).undef_mask@.len() as int),
                self.bytes == old(self).bytes,
                self.relocations == old(self).relocations,
                self.align == old(self).align,
                self.mutable == old(self).mutable,
                self.kind == old(self).kind,
                self.locks == old(self).locks,
            decreases bits@.len() - k,
        {
            self.undef_mask.set(offset + k as u64, bits[k]);
            k = k + 1;
            assert(self.undef_mask@ =~= old(self).undef_mask@.subrange(0, offset as int) + bits@.subrange(0, k as int)
                + old(self).undef_mask@.subrange(offset + k, old(self).undef_mask@.len() as int));
        }
        assert(bits@.subrange(0, bits@.len() as int) =~= bits@);
    }

    /// Whether `access` by `frame` is allowed on byte `o`.
    pub fn byte_access_permitted(&self, frame: Option<usize>, o: u64, access: AccessKind) -> (r:
        Result<(), Lock>)
        requires
            forall|k: u64| #[trigger] self.locks@.contains_key(k) ==> self.locks@[k].wf(),
        ensures
            match r {
                Ok(()) => spec_access_permitted(self.active_at(o), frame, access),
                Err(l) => !spec_access_permitted(self.active_at(o), frame, access) && l@
                    == self.active_at(o),
            },
    {
        proof {
            lemma_u64_keys_ordered();
        }
        match self.locks.get(&o) {
            Some(info) => {
                if info.access_permitted(frame, access) {
                    Ok(())
                } else {
                    Err(info.active.clone_lock())
                }
            },
            None => Ok(()),
        }
    }

    /// Checks an access to `offset..offset + len` against the locks held on
    /// those bytes; on conflict, gives the lock of the first conflicting byte.
    pub fn check_locks(&self, frame: Option<usize>, offset: u64, len: u64, access: AccessKind) -> (r:
        Result<(), Lock>)
        requires
            forall|k: u64| #[trigger] self.locks@.contains_key(k) ==> self.locks@[k].wf(),
            offset + len <= u64::MAX,
        ensures
            match r {
                Ok(()) => forall|o: u64|
                    offset <= o < offset + len ==> spec_access_permitted(
                        #[trigger] self.active_at(o),
                        frame,
                        access,
                    ),
                Err(l) => exists|o: u64|
                    offset <= o < offset + len && !spec_access_permitted(
                        #[trigger] self.active_at(o),
                        frame,
                        access,
                    ) && l@ == self.active_at(o) && forall|p: u64|
                        offset <= p < o ==> spec_access_permitted(
                            #[trigger] self.active_at(p),
                            frame,
                            access,
                        ),
            },
    {
        if len == 0 {
            return Ok(());
        }
        let end = offset + len;
        let mut o = offset;
        while o < end
            invariant
                forall|k: u64| #[trigger] self.locks@.contains_key(k) ==> self.locks@[k].wf(),
                end == offset + len,
                offset <= o <= end,
                forall|p: u64|
                    offset <= p < o ==> spec_access_permitted(
                        #[trigger] self.active_at(p),
                        frame,
                        access,
                    ),
            decreases end - o,
        {
            match self.byte_access_permitted(frame, o, access) {
                Ok(()) => {},
                Err(l) => {
                    return Err(l);
                },
            }
            o = o + 1;
        }
        Ok(())
    }

    /// The relocations whose first byte lies in `start..end`.
    pub fn relocations_in(&self, start: u64, end: u64) -> (r: Vec<(u64, AllocId)>)
        ensures
            is_range_of(r@, self.relocations@, start as int, end as int),
    {
        let mut out: Vec<(u64, AllocId)> = Vec::new();
        let iter = self.relocations.iter();
        proof {
            lemma_u64_keys_ordered();
            assert(iter == vstd::std_specs::btree::spec_btree_map_iter(&self.relocations));
        }
        let ghost s = iter.remaining();
        let ghost m = self.relocations@;
        for kv in it: iter
            invariant
                it.seq() == s,
                m == self.relocations@,
                forall|i: int|
                    0 <= i < s.len() ==> m.contains_key(#[trigger] *s[i].0) && m[*s[i].0]
                        == *s[i].1,
                forall|i: int|
                    0 <= i < out@.len() ==> start <= #[trigger] out@[i].0 < end && m.contains_key(
                        out@[i].0,
                    ) && m[out@[i].0] == out@[i].1,
                forall|j: int|
                    0 <= j < it.index() && start <= *s[j].0 < end ==> exists|i: int|
                        0 <= i < out@.len() && out@[i].0 == #[trigger] *s[j].0,
        {
            let ghost idx = it.index();
            let ghost old_out = out@;
            proof {
                assert(kv == s[idx as int]);
            }
            let (k, v) = kv;
            if start <= *k && *k < end {
                out.push((*k, *v));
            }
            proof {
                assert forall|j: int|
                    0 <= j < idx + 1 && start <= *s[j].0 < end implies exists|i: int|
                    0 <= i < out@.len() && out@[i].0 == #[trigger] *s[j].0 by {
                    if j == idx {
                        assert(out@[out@.len() - 1].0 == *s[j].0);
                    } else {
                        let i = choose|i: int| 0 <= i < old_out.len() && old_out[i].0 == *s[j].0;
                        assert(out@[i] == old_out[i]);
                    }
                }
            }
        }
        proof {
            assert forall|k: u64| start <= k < end && #[trigger] m.contains_key(k) implies exists|i: int|
                0 <= i < out@.len() && out@[i].0 == k by {
                assert(s.contains((&k, &m[k])));
                let j = choose|j: int| 0 <= j < s.len() && s[j] == (&k, &m[k]);
                assert(*s[j].0 == k);
            }
        }
        out
    }
}

impl Lock {
    /// A copy of the lock with the same value.
    pub fn clone_lock(&self) -> (r: Lock)
        ensures
            r@ == self@,
    {
        match self {
            Lock::NoLock => Lock::NoLock,
            Lock::WriteLock(l) => Lock::WriteLock(*l),
            Lock::ReadLock(v) => {
                let c = v.clone();
                assert(c@ =~= v@);
                Lock::ReadLock(c)
            },
        }
    }
}

} // verus!
