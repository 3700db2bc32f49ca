//! Tracking of which bytes of an allocation are defined, one bit per byte.
use vstd::prelude::*;

verus! {

/// Number of bits held by one block of the mask.
pub const BLOCK_SIZE: u64 = 64;

/// Whether bit `b` of the word `w` is set.
pub open spec fn word_bit(w: u64, b: u64) -> bool {
    (w >> b) & 1u64 == 1u64
}

/// Largest number of bits a mask can hold: its blocks must be indexable and the
/// block storage must stay far below the address space.
pub open spec fn max_mask_len() -> int {
    if usize::MAX < u64::MAX / 4 {
        usize::MAX as int
    } else {
        (u64::MAX / 4) as int
    }
}

proof fn lemma_bit_or(w: u64, b: u64, c: u64)
    requires
        b < 64,
        c < 64,
    ensures
        word_bit(w | (1u64 << b), c) == (c == b || word_bit(w, c)),
{
    assert(((w | (1u64 << b)) >> c) & 1u64 == 1u64 <==> (c == b || (w >> c) & 1u64 == 1u64))
        by (bit_vector)
        requires
            b < 64,
            c < 64,
    ;
}

proof fn lemma_bit_and_not(w: u64, b: u64, c: u64)
    requires
        b < 64,
        c < 64,
    ensures
        word_bit(w & !(1u64 << b), c) == (c != b && word_bit(w, c)),
{
    assert(((w & !(1u64 << b)) >> c) & 1u64 == 1u64 <==> (c != b && (w >> c) & 1u64 == 1u64))
        by (bit_vector)
        requires
            b < 64,
            c < 64,
    ;
}

proof fn lemma_bit_test(w: u64, b: u64)
    requires
        b < 64,
    ensures
        (w & (1u64 << b) != 0) == word_bit(w, b),
{
    assert((w & (1u64 << b) != 0u64) <==> ((w >> b) & 1u64 == 1u64)) by (bit_vector)
        requires
            b < 64,
    ;
}

/// `s` with the bits in `start..end` set to `state`, first extended with
/// `state` bits up to `end` when it is shorter.
pub open spec fn seq_set_range(s: Seq<bool>, start: int, end: int, state: bool) -> Seq<bool> {
    let len = if end > s.len() {
        end as nat
    } else {
        s.len()
    };
    Seq::new(
        len,
        |j: int|
            if start <= j < end {
                state
            } else if j < s.len() {
                s[j]
            } else {
                state
            },
    )
}

/// Splits a bit position into the index of its block and its place in the block.
pub open spec fn spec_bit_index(bits: u64) -> (int, int) {
    ((bits / BLOCK_SIZE) as int, (bits % BLOCK_SIZE) as int)
}

/// Splits a bit position into the index of its block and the bit inside that block.
pub fn bit_index(bits: u64) -> (r: (usize, usize))
    requires
        bits / BLOCK_SIZE <= usize::MAX,
    ensures
        r.0 as int == spec_bit_index(bits).0,
        r.1 as int == spec_bit_index(bits).1,
        r.1 < 64,
        r.0 * 64 + r.1 == bits,
{
    let a = bits / BLOCK_SIZE;
    let b = bits % BLOCK_SIZE;
    (a as usize, b as usize)
}

/// A bit per byte of an allocation: set when the byte is defined.
#[derive(Clone, Debug)]
pub struct UndefMask {
    blocks: Vec<u64>,
    len: u64,
}

impl View for UndefMask {
    type V = Seq<bool>;

    /// Bit `i` of the mask, for each `i` below its length.
    closed spec fn view(&self) -> Seq<bool> {
        Seq::new(self.len as nat, |i: int| word_bit(self.blocks@[i / 64], (i % 64) as u64))
    }
}

impl UndefMask {
    /// The internal invariant: the blocks cover the length, and not by much more.
    pub closed spec fn wf(&self) -> bool {
        &&& self.len <= self.blocks@.len() * 64
        &&& self.blocks@.len() * 64 <= 2 * self.len + 64
        &&& self.len <= max_mask_len()
    }

    /// A well-formed mask holds at most `max_mask_len()` bits.
    pub proof fn lemma_len_bound(&self)
        requires
            self.wf(),
        ensures
            self@.len() <= max_mask_len(),
    {
    }

    /// A mask of `size` bits, all undefined.
    pub fn new(size: u64) -> (m: Self)
        requires
            size <= max_mask_len(),
        ensures
            m.wf(),
            m@ == Seq::new(size as nat, |i: int| false),
    {
        let mut m = UndefMask { blocks: Vec::new(), len: 0 };
        m.grow(size, false);
        m
    }

    /// Number of bits in the mask.
    pub fn len(&self) -> (r: u64)
        ensures
            r == self@.len(),
    {
        self.len
    }

    /// Whether bit `i` is set.
    pub fn get(&self, i: u64) -> (b: bool)
        requires
            self.wf(),
            i < self@.len(),
        ensures
            b == self@[i as int],
    {
        let (block, bit) = bit_index(i);
        proof {
            lemma_bit_test(self.blocks@[block as int], bit as u64);
        }
        (self.blocks[block] & (1u64 << (bit as u64))) != 0
    }

    /// Sets bit `i` to `new_state`.
    pub fn set(&mut self, i: u64, new_state: bool)
        requires
            old(self).wf(),
            i < old(self)@.len(),
        ensures
            final(self).wf(),
            final(self)@ == old(self)@.update(i as int, new_state),
    {
        let (block, bit) = bit_index(i);
        let w = self.blocks[block];
        let nw = if new_state {
            w | (1u64 << (bit as u64))
        } else {
            w & !(1u64 << (bit as u64))
        };
        self.blocks.set(block, nw);
        proof {
            let old_v = old(self)@;
            let new_v = self@;
            assert forall|j: int| 0 <= j < new_v.len() implies new_v[j] == old_v.update(
                i as int,
                new_state,
            )[j] by {
                let jb = j / 64;
                let jc = (j % 64) as u64;
                if jb == block as int {
                    if new_state {
                        lemma_bit_or(w, bit as u64, jc);
                    } else {
                        lemma_bit_and_not(w, bit as u64, jc);
                    }
                    assert(jc == bit as u64 <==> j == i);
                }
            }
            assert(new_v =~= old_v.update(i as int, new_state));
        }
    }

    /// Sets every bit in `start..end` to `new_state`; the range lies within the mask.
    pub fn set_range_inbounds(&mut self, start: u64, end: u64, new_state: bool)
        requires
            old(self).wf(),
            end <= old(self)@.len(),
        ensures
            final(self).wf(),
            final(self)@.len() == old(self)@.len(),
            forall|j: int|
                0 <= j < final(self)@.len() ==> #[trigger] final(self)@[j] == if start <= j < end {
                    new_state
                } else {
                    old(self)@[j]
                },
    {
        let mut i = start;
        while i < end
            invariant
                self.wf(),
                end <= self@.len(),
                self@.len() == old(self)@.len(),
                start <= i,
                start <= end ==> i <= end,
                start > end ==> i == start,
                forall|j: int|
                    0 <= j < self@.len() ==> #[trigger] self@[j] == if start <= j < i {
                        new_state
                    } else {
                        old(self)@[j]
                    },
            decreases end - i,
        {
            self.set(i, new_state);
            i = i + 1;
        }
    }

    /// Sets every bit in `start..end` to `new_state`, growing the mask up to `end` first.
    pub fn set_range(&mut self, start: u64, end: u64, new_state: bool)
        requires
            old(self).wf(),
            end <= max_mask_len(),
        ensures
            final(self).wf(),
            final(self)@ == seq_set_range(old(self)@, start as int, end as int, new_state),
    {
        let len = self.len;
        if end > len {
            self.grow(end - len, new_state);
        }
        self.set_range_inbounds(start, end, new_state);
        assert(self@ =~= seq_set_range(old(self)@, start as int, end as int, new_state));
    }

    /// Appends `amount` bits, all set to `new_state`.
    pub fn grow(&mut self, amount: u64, new_state: bool)
        requires
            old(self).wf(),
            old(self)@.len() + amount <= max_mask_len(),
        ensures
            final(self).wf(),
            final(self)@ == old(self)@ + Seq::new(amount as nat, |i: int| new_state),
    {
        let unused_trailing_bits = self.blocks.len() as u64 * BLOCK_SIZE - self.len;
        if amount > unused_trailing_bits {
            let additional_blocks = amount / BLOCK_SIZE + 1;
            let mut k: u64 = 0;
            while k < additional_blocks
                invariant
                    k <= additional_blocks,
                    additional_blocks == amount / 64 + 1,
                    self.len == old(self).len,
                    self.blocks@.len() == old(self).blocks@.len() + k,
                    forall|j: int|
                        0 <= j < old(self).blocks@.len() ==> self.blocks@[j]
                            == old(self).blocks@[j],
                    old(self).wf(),
                    old(self)@.len() + amount <= max_mask_len(),
                    amount > old(self).blocks@.len() * 64 - old(self).len,
                decreases additional_blocks - k,
            {
                self.blocks.push(0);
                k = k + 1;
            }
        }
        let start = self.len;
        proof {
            assert(self.len + amount <= self.blocks@.len() * 64);
            assert(self.blocks@.len() * 64 <= 2 * (self.len + amount) + 64);
        }
        let ghost mid_blocks = self.blocks@;
        self.len = self.len + amount;
        proof {
            assert forall|j: int| 0 <= j < start implies #[trigger] self@[j] == old(self)@[j] by {
                assert(j / 64 < old(self).blocks@.len());
            }
        }
        let ghost grown = self@;
        self.set_range_inbounds(start, start + amount, new_state);
        assert(self@ =~= old(self)@ + Seq::new(amount as nat, |i: int| new_state));
    }

    /// Whether every bit in `start..end` is set; false when `end` lies past the mask.
    pub fn is_range_defined(&self, start: u64, end: u64) -> (r: bool)
        requires
            self.wf(),
        ensures
            r == (end <= self@.len() && forall|j: int| start <= j < end ==> #[trigger] self@[j]),
    {
        if end > self.len {
            return false;
        }
        let mut i = start;
        while i < end
            invariant
                self.wf(),
                end <= self@.len(),
                start <= i,
                start <= end ==> i <= end,
                start > end ==> i == start,
                forall|j: int| start <= j < i ==> #[trigger] self@[j],
            decreases end - i,
        {
            if !self.get(i) {
                assert(!self@[i as int]);
                return false;
            }
            i = i + 1;
        }
        true
    }
}

/// Setting a range defines every bit of it, for the check over that range,
/// and leaves every other bit as it was.
pub proof fn law_set_range_then_defined(m: Seq<bool>, start: int, end: int)
    requires
        0 <= start <= end,
    ensures
        end <= seq_set_range(m, start, end, true).len(),
        forall|j: int| start <= j < end ==> #[trigger] seq_set_range(m, start, end, true)[j],
        forall|j: int|
            0 <= j < m.len() && !(start <= j < end) ==> #[trigger] seq_set_range(m, start, end, true)[j]
                == m[j],
{
}

} // verus!

