//! Allocation identifiers, pointers into allocations, and pointer arithmetic
//! modulo the target's pointer width.
use vstd::prelude::*;
use vstd::arithmetic::power2::{pow2, lemma_pow2_unfold, lemma_pow2_pos};
use crate::error::EvalError;

verus! {

/// The top bit of an allocation id tells function allocations from runtime ones.
pub open spec fn id_bit() -> int {
    0x8000_0000_0000_0000int
}

/// Identifies an allocation: the top bit is the kind, the other bits the index.
#[derive(Copy, Clone, Debug, PartialEq, Eq, Structural, Hash, PartialOrd, Ord)]
pub struct AllocId(pub u64);

/// The two kinds of allocation an id can name.
#[derive(Copy, Clone, Debug, PartialEq, Eq, Structural)]
pub enum AllocIdKind {
    /// Function "allocations"; they are never deallocated.
    Function(usize),
    /// Locals and heap allocations.
    Runtime(u64),
}

/// The raw id that a kind is encoded as.
pub open spec fn spec_kind_to_id(k: AllocIdKind) -> u64 {
    match k {
        AllocIdKind::Function(n) => n as u64,
        AllocIdKind::Runtime(n) => (n | 0x8000_0000_0000_0000u64),
    }
}

impl AllocIdKind {
    /// Encodes the kind as an allocation id.
    pub fn into_alloc_id(self) -> (r: AllocId)
        ensures
            r@ == spec_kind_to_id(self),
    {
        match self {
            AllocIdKind::Function(n) => AllocId(n as u64),
            AllocIdKind::Runtime(n) => {
                assert((1u64 << 63u64) | n == n | 0x8000_0000_0000_0000u64) by (bit_vector);
                AllocId((1u64 << 63u64) | n)
            },
        }
    }
}

impl View for AllocId {
    type V = u64;

    open spec fn view(&self) -> u64 {
        self.0
    }
}

/// The kind that a raw id decodes to.
pub open spec fn spec_id_to_kind(id: u64) -> AllocIdKind {
    if id < id_bit() {
        AllocIdKind::Function(id as usize)
    } else {
        AllocIdKind::Runtime((id - id_bit()) as u64)
    }
}

proof fn lemma_top_bit(n: u64)
    ensures
        n < 0x8000_0000_0000_0000u64 ==> (n | 0x8000_0000_0000_0000u64) == n
            + 0x8000_0000_0000_0000u64,
        n >> 63u64 == (if n < 0x8000_0000_0000_0000u64 { 0u64 } else { 1u64 }),
        n & 0x7fff_ffff_ffff_ffffu64 == (if n < 0x8000_0000_0000_0000u64 {
            n
        } else {
            (n - 0x8000_0000_0000_0000u64) as u64
        }),
{
    assert(n < 0x8000_0000_0000_0000u64 ==> (n | 0x8000_0000_0000_0000u64) == n
        + 0x8000_0000_0000_0000u64) by (bit_vector);
    assert(n >> 63u64 == (if n < 0x8000_0000_0000_0000u64 { 0u64 } else { 1u64 }))
        by (bit_vector);
    assert(n & 0x7fff_ffff_ffff_ffffu64 == (if n < 0x8000_0000_0000_0000u64 {
        n
    } else {
        (n - 0x8000_0000_0000_0000u64) as u64
    })) by (bit_vector);
}

impl AllocId {
    /// The id made of the given raw bits.
    pub fn from_raw(raw: u64) -> (r: AllocId)
        ensures
            r@ == raw,
    {
        AllocId(raw)
    }

    /// The top bit, which tells the kind.
    pub fn discriminant(self) -> (r: u64)
        ensures
            r == (if self@ < id_bit() { 0u64 } else { 1u64 }),
    {
        proof {
            lemma_top_bit(self.0);
        }
        self.0 >> 63u64
    }

    /// Everything but the kind bit.
    pub fn index(self) -> (r: u64)
        ensures
            r == (self@ as int) % id_bit(),
    {
        proof {
            lemma_top_bit(self.0);
        }
        assert(1u64 << 63u64 == 0x8000_0000_0000_0000u64) by (bit_vector);
        let mask = (1u64 << 63u64) - 1;
        assert(mask == 0x7fff_ffff_ffff_ffffu64);
        self.0 & mask
    }

    /// Decodes the id into its kind.
    pub fn into_alloc_id_kind(self) -> (r: AllocIdKind)
        ensures
            r == spec_id_to_kind(self@),
    {
        let d = self.discriminant();
        if d == 0 {
            AllocIdKind::Function(self.index() as usize)
        } else {
            AllocIdKind::Runtime(self.index())
        }
    }
}

/// Encoding a kind and decoding it again gives the kind back, when its number
/// leaves the kind bit free.
pub proof fn law_alloc_id_kind_roundtrip(k: AllocIdKind)
    requires
        match k {
            AllocIdKind::Function(n) => n < id_bit(),
            AllocIdKind::Runtime(n) => n < id_bit(),
        },
    ensures
        spec_id_to_kind(spec_kind_to_id(k)) == k,
{
    match k {
        AllocIdKind::Function(n) => {},
        AllocIdKind::Runtime(n) => {
            lemma_top_bit(n);
        },
    }
}

/// Decoding an id and encoding the kind again gives the id back, when a
/// function id's index fits the machine's `usize`.
pub proof fn law_alloc_id_roundtrip(id: u64)
    requires
        id < id_bit() ==> id <= usize::MAX,
    ensures
        spec_kind_to_id(spec_id_to_kind(id)) == id,
{
    if id >= id_bit() {
        lemma_top_bit((id - id_bit()) as u64);
    }
}

/// A pointer: an allocation and an offset into it.
#[derive(Copy, Clone, Debug, PartialEq, Eq, Structural)]
pub struct MemoryPointer {
    pub alloc_id: AllocId,
    pub offset: u64,
}

impl MemoryPointer {
    pub fn new(alloc_id: AllocId, offset: u64) -> (r: Self)
        ensures
            r.alloc_id == alloc_id,
            r.offset == offset,
    {
        MemoryPointer { alloc_id, offset }
    }

    /// Offsets the pointer by `i`, wrapping at the pointer width.
    pub fn wrapping_signed_offset(self, i: i64, cx: &DataLayout) -> (r: Self)
        requires
            cx.wf(),
        ensures
            r.alloc_id == self.alloc_id,
            r.offset == spec_overflowing_signed_offset(cx.bits(), self.offset, i as int).0,
    {
        MemoryPointer::new(self.alloc_id, cx.wrapping_signed_offset(self.offset, i))
    }

    /// Offsets the pointer by `i`, telling whether that overflowed.
    pub fn overflowing_signed_offset(self, i: i128, cx: &DataLayout) -> (r: (Self, bool))
        requires
            cx.wf(),
            i < 0 ==> i as int % 0x1_0000_0000_0000_0000int != 0,
        ensures
            r.0.alloc_id == self.alloc_id,
            (r.0.offset, r.1) == spec_overflowing_signed_offset(cx.bits(), self.offset, i as int),
    {
        let (res, over) = cx.overflowing_signed_offset(self.offset, i);
        (MemoryPointer::new(self.alloc_id, res), over)
    }

    /// Offsets the pointer by `i`, failing on overflow.
    pub fn signed_offset(self, i: i64, cx: &DataLayout) -> (r: Result<Self, EvalError>)
        requires
            cx.wf(),
        ensures
            ({
                let (o, over) = spec_overflowing_signed_offset(cx.bits(), self.offset, i as int);
                if over {
                    r == Err::<Self, EvalError>(EvalError::OverflowingMath)
                } else {
                    r == Ok::<Self, EvalError>(MemoryPointer { alloc_id: self.alloc_id, offset: o })
                }
            }),
    {
        let o = cx.signed_offset(self.offset, i)?;
        Ok(MemoryPointer::new(self.alloc_id, o))
    }

    /// Offsets the pointer by `i`, telling whether that overflowed.
    pub fn overflowing_offset(self, i: u64, cx: &DataLayout) -> (r: (Self, bool))
        requires
            cx.wf(),
        ensures
            r.0.alloc_id == self.alloc_id,
            (r.0.offset, r.1) == spec_overflowing_offset(cx.bits(), self.offset, i),
    {
        let (res, over) = cx.overflowing_offset(self.offset, i);
        (MemoryPointer::new(self.alloc_id, res), over)
    }

    /// Offsets the pointer by `i`, failing on overflow.
    pub fn offset(self, i: u64, cx: &DataLayout) -> (r: Result<Self, EvalError>)
        requires
            cx.wf(),
        ensures
            ({
                let (o, over) = spec_overflowing_offset(cx.bits(), self.offset, i);
                if over {
                    r == Err::<Self, EvalError>(EvalError::OverflowingMath)
                } else {
                    r == Ok::<Self, EvalError>(MemoryPointer { alloc_id: self.alloc_id, offset: o })
                }
            }),
    {
        let o = cx.offset(self.offset, i)?;
        Ok(MemoryPointer::new(self.alloc_id, o))
    }
}

/// Byte order of the target.
#[derive(Copy, Clone, Debug, PartialEq, Eq, Structural)]
pub enum Endian {
    Little,
    Big,
}

/// What the memory needs to know of the target: pointer width, byte order,
/// and the alignment of each integer size (all in bytes).
#[derive(Copy, Clone, Debug, PartialEq, Eq, Structural)]
pub struct DataLayout {
    pub pointer_size: u64,
    pub endian: Endian,
    pub i8_align: u64,
    pub i16_align: u64,
    pub i32_align: u64,
    pub i64_align: u64,
    pub i128_align: u64,
}

/// The truncation of `val` to `bits` bits, and whether it did not fit.
pub open spec fn spec_truncate(bits: nat, val: int) -> (u64, bool) {
    ((val % (pow2(bits) as int)) as u64, val >= pow2(bits))
}

/// Adds `i` to `val`, wrapping first at 64 bits and then at the pointer width;
/// the flag tells whether either wrapped.
pub open spec fn spec_overflowing_offset(bits: nat, val: u64, i: u64) -> (u64, bool) {
    let sum = val + i;
    let res1 = sum % 0x1_0000_0000_0000_0000int;
    let over1 = sum >= 0x1_0000_0000_0000_0000int;
    let (res, over2) = spec_truncate(bits, res1);
    (res, over1 || over2)
}

/// Offsets `val` by the signed `i`: a negative offset subtracts (wrapping at
/// 64 bits), a non-negative one adds as `spec_overflowing_offset` does; only
/// the low 64 bits of `i` count.
pub open spec fn spec_overflowing_signed_offset(bits: nat, val: u64, i: int) -> (u64, bool) {
    let low = i % 0x1_0000_0000_0000_0000int;
    if i < 0 {
        let n = 0x1_0000_0000_0000_0000int - low;
        (((val - n) % 0x1_0000_0000_0000_0000int) as u64, val < n)
    } else {
        spec_overflowing_offset(bits, val, low as u64)
    }
}

/// An offset that does not overflow is the plain sum.
pub proof fn lemma_offset_fits(layout: DataLayout, val: u64, i: u64)
    requires
        layout.wf(),
    ensures
        !spec_overflowing_offset(layout.bits(), val, i).1 ==> spec_overflowing_offset(
            layout.bits(),
            val,
            i,
        ).0 == val + i,
{
    let bits = layout.bits();
    lemma_pow2_pos(bits);
    vstd::arithmetic::power2::lemma2_to64_rest();
    let sum = val + i;
    if sum < 0x1_0000_0000_0000_0000int && sum < pow2(bits) {
        vstd::arithmetic::div_mod::lemma_small_mod(sum as nat, 0x1_0000_0000_0000_0000nat);
        vstd::arithmetic::div_mod::lemma_small_mod(sum as nat, pow2(bits));
    }
}

pub proof fn lemma_u128_shl_pow2(b: u128)
    requires
        b < 128,
    ensures
        (1u128 << b) == pow2(b as nat),
    decreases b,
{
    if b == 0 {
        assert(1u128 << 0u128 == 1u128) by (bit_vector);
        vstd::arithmetic::power2::lemma2_to64();
    } else {
        lemma_u128_shl_pow2((b - 1) as u128);
        assert((1u128 << b) == 2 * (1u128 << ((b - 1) as u128))) by (bit_vector)
            requires
                0 < b < 128,
        ;
        lemma_pow2_unfold(b as nat);
    }
}

impl DataLayout {
    /// Pointer widths up to 120 bits (the shift in `truncate_to_ptr` needs
    /// fewer than 128) and alignments of at least one byte.
    pub open spec fn wf(&self) -> bool {
        &&& 1 <= self.pointer_size <= 15
        &&& self.i8_align >= 1
        &&& self.i16_align >= 1
        &&& self.i32_align >= 1
        &&& self.i64_align >= 1
        &&& self.i128_align >= 1
    }

    /// The pointer width in bits.
    pub open spec fn bits(&self) -> nat {
        (self.pointer_size * 8) as nat
    }
}

/// Arithmetic on pointer offsets, modulo the target's pointer width.
pub trait PointerArithmetic {
    spec fn pointer_layout(&self) -> DataLayout;

    /// The layout whose pointer width the arithmetic uses.
    fn data_layout(&self) -> (r: &DataLayout)
        ensures
            *r == self.pointer_layout(),
    ;

    /// Truncates `val` to the pointer width, also telling whether it did not fit.
    fn truncate_to_ptr(&self, val: u128) -> (r: (u64, bool))
        requires
            self.pointer_layout().wf(),
        ensures
            r == spec_truncate(self.pointer_layout().bits(), val as int),
    {
        let bits = self.data_layout().pointer_size * 8;
        proof {
            lemma_u128_shl_pow2(bits as u128);
            lemma_pow2_pos(bits as nat);
        }
        let max_ptr_plus_1: u128 = 1u128 << (bits as u128);
        let m = val % max_ptr_plus_1;
        proof {
            if bits < 64 {
                vstd::arithmetic::power2::lemma_pow2_strictly_increases(bits as nat, 64);
            }
        }
        (#[verifier::truncate] (m as u64), val >= max_ptr_plus_1)
    }

    /// Adds `i` to `val`, telling whether the sum wrapped at 64 bits or at the pointer width.
    fn overflowing_offset(&self, val: u64, i: u64) -> (r: (u64, bool))
        requires
            self.pointer_layout().wf(),
        ensures
            r == spec_overflowing_offset(self.pointer_layout().bits(), val, i),
    {
        let (res, over1) = match val.checked_add(i) {
            Some(s) => (s, false),
            None => (val.wrapping_add(i), true),
        };
        let (res, over2) = self.truncate_to_ptr(res as u128);
        (res, over1 || over2)
    }

    /// Offsets `val` by a signed amount, telling whether that overflowed.
    /// Overflow checking is exact on the range from -u64 to +u64.
    fn overflowing_signed_offset(&self, val: u64, i: i128) -> (r: (u64, bool))
        requires
            self.pointer_layout().wf(),
            i < 0 ==> i as int % 0x1_0000_0000_0000_0000int != 0,
        ensures
            r == spec_overflowing_signed_offset(self.pointer_layout().bits(), val, i as int),
    {
        proof {
            vstd::arithmetic::power2::lemma2_to64_rest();
        }
        if i < 0 {
            let iu = i as u64;
            assert(iu as int == i as int % 0x1_0000_0000_0000_0000int) by (bit_vector)
                requires iu == i as u64;
            let n = u64::MAX - iu + 1;
            match val.checked_sub(n) {
                Some(d) => (d, false),
                None => (val.wrapping_sub(n), true),
            }
        } else {
            let iu = i as u64;
            assert(iu as int == i as int % 0x1_0000_0000_0000_0000int) by (bit_vector)
                requires iu == i as u64;
            self.overflowing_offset(val, iu)
        }
    }

    /// Offsets `val` by a signed amount, failing on overflow.
    fn signed_offset(&self, val: u64, i: i64) -> (r: Result<u64, EvalError>)
        requires
            self.pointer_layout().wf(),
        ensures
            ({
                let (o, over) = spec_overflowing_signed_offset(
                    self.pointer_layout().bits(),
                    val,
                    i as int,
                );
                if over {
                    r == Err::<u64, EvalError>(EvalError::OverflowingMath)
                } else {
                    r == Ok::<u64, EvalError>(o)
                }
            }),
    {
        let (res, over) = self.overflowing_signed_offset(val, i as i128);
        if over {
            Err(EvalError::OverflowingMath)
        } else {
            Ok(res)
        }
    }

    /// Adds `i` to `val`, failing on overflow.
    fn offset(&self, val: u64, i: u64) -> (r: Result<u64, EvalError>)
        requires
            self.pointer_layout().wf(),
        ensures
            ({
                let (o, over) = spec_overflowing_offset(self.pointer_layout().bits(), val, i);
                if over {
                    r == Err::<u64, EvalError>(EvalError::OverflowingMath)
                } else {
                    r == Ok::<u64, EvalError>(o)
                }
            }),
    {
        let (res, over) = self.overflowing_offset(val, i);
        if over {
            Err(EvalError::OverflowingMath)
        } else {
            Ok(res)
        }
    }

    /// Offsets `val` by a signed amount, wrapping.
    fn wrapping_signed_offset(&self, val: u64, i: i64) -> (r: u64)
        requires
            self.pointer_layout().wf(),
        ensures
            r == spec_overflowing_signed_offset(self.pointer_layout().bits(), val, i as int).0,
    {
        self.overflowing_signed_offset(val, i as i128).0
    }
}

impl PointerArithmetic for DataLayout {
    open spec fn pointer_layout(&self) -> DataLayout {
        *self
    }

    fn data_layout(&self) -> (r: &DataLayout) {
        self
    }
}

/// A primitive value: raw bytes, a pointer, or undefined.
#[derive(Copy, Clone, Debug, PartialEq, Eq, Structural)]
pub enum PrimVal {
    Bytes(u128),
    Ptr(MemoryPointer),
    Undef,
}

/// A value used as a pointer; it may also be an integer address or undefined.
#[derive(Copy, Clone, Debug, PartialEq, Eq, Structural)]
pub struct Pointer {
    pub primval: PrimVal,
}

impl Pointer {
    pub fn from_primval(primval: PrimVal) -> (r: Pointer)
        ensures
            r.primval == primval,
    {
        Pointer { primval }
    }

    pub fn from_ptr(ptr: MemoryPointer) -> (r: Pointer)
        ensures
            r.primval == PrimVal::Ptr(ptr),
    {
        Pointer { primval: PrimVal::Ptr(ptr) }
    }

    pub fn into_inner_primval(self) -> (r: PrimVal)
        ensures
            r == self.primval,
    {
        self.primval
    }

    /// The memory pointer held, or why there is none.
    pub fn to_ptr(self) -> (r: Result<MemoryPointer, EvalError>)
        ensures
            r == spec_to_ptr(self),
    {
        match self.primval {
            PrimVal::Ptr(p) => Ok(p),
            PrimVal::Bytes(_) => Err(EvalError::ReadBytesAsPointer),
            PrimVal::Undef => Err(EvalError::ReadUndefBytes),
        }
    }
}

pub open spec fn spec_to_ptr(p: Pointer) -> Result<MemoryPointer, EvalError> {
    match p.primval {
        PrimVal::Ptr(p) => Ok(p),
        PrimVal::Bytes(_) => Err(EvalError::ReadBytesAsPointer),
        PrimVal::Undef => Err(EvalError::ReadUndefBytes),
    }
}

} // verus!
