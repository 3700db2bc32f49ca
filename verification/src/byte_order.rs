//! Integers as sequences of bytes in the target's byte order.
use vstd::prelude::*;
use vstd::arithmetic::power2::{pow2, lemma_pow2_adds, lemma_pow2_pos};
use byteorder::{BigEndian, ByteOrder, LittleEndian};
use crate::pointer::Endian;

verus! {

/// The number whose little-endian bytes are `s`.
pub open spec fn le_value(s: Seq<u8>) -> nat
    decreases s.len(),
{
    if s.len() == 0 {
        0
    } else {
        s[0] as nat + 256 * le_value(s.drop_first())
    }
}

/// The number whose big-endian bytes are `s`.
pub open spec fn be_value(s: Seq<u8>) -> nat {
    le_value(s.reverse())
}

/// The low `n` bytes of `v`, least significant first.
pub open spec fn le_bytes(v: nat, n: nat) -> Seq<u8>
    decreases n,
{
    if n == 0 {
        Seq::empty()
    } else {
        seq![(v % 256) as u8] + le_bytes(v / 256, (n - 1) as nat)
    }
}

/// The low `n` bytes of `v`, most significant first.
pub open spec fn be_bytes(v: nat, n: nat) -> Seq<u8> {
    le_bytes(v, n).reverse()
}

/// The value of `s` read in byte order `e`.
pub open spec fn endian_value(e: Endian, s: Seq<u8>) -> nat {
    match e {
        Endian::Little => le_value(s),
        Endian::Big => be_value(s),
    }
}

/// The `n` bytes of `v` in byte order `e`.
pub open spec fn endian_bytes(e: Endian, v: nat, n: nat) -> Seq<u8> {
    match e {
        Endian::Little => le_bytes(v, n),
        Endian::Big => be_bytes(v, n),
    }
}

/// Reads an `n`-byte two's complement number: values with the top bit set are negative.
pub open spec fn sign_extend(u: nat, n: nat) -> int {
    if n > 0 && u >= pow2((8 * n - 1) as nat) {
        u - pow2(8 * n)
    } else {
        u as int
    }
}

/// The `n`-byte two's complement pattern of `v`, as an unsigned number.
pub open spec fn two_complement(v: int, n: nat) -> nat {
    (v % (pow2(8 * n) as int)) as nat
}

pub proof fn lemma_pow2_8(n: nat)
    requires
        n > 0,
    ensures
        pow2(8 * n) == 256 * pow2(8 * (n - 1) as nat),
{
    lemma_pow2_adds(8, 8 * (n - 1) as nat);
    vstd::arithmetic::power2::lemma2_to64();
    assert(8 + 8 * (n - 1) as nat == 8 * n);
}

/// The little-endian bytes of a number that fits read back as that number.
pub proof fn lemma_le_roundtrip(v: nat, n: nat)
    requires
        v < pow2(8 * n),
    ensures
        le_bytes(v, n).len() == n,
        le_value(le_bytes(v, n)) == v,
    decreases n,
{
    if n == 0 {
        vstd::arithmetic::power2::lemma2_to64();
    } else {
        lemma_pow2_8(n);
        lemma_pow2_pos(8 * (n - 1) as nat);
        assert(v / 256 < pow2(8 * (n - 1) as nat)) by (nonlinear_arith)
            requires
                v < 256 * pow2(8 * (n - 1) as nat),
        ;
        lemma_le_roundtrip(v / 256, (n - 1) as nat);
        let s = le_bytes(v, n);
        assert(s.drop_first() =~= le_bytes(v / 256, (n - 1) as nat));
    }
}

/// The length of `le_bytes`.
pub proof fn lemma_le_bytes_len(v: nat, n: nat)
    ensures
        le_bytes(v, n).len() == n,
    decreases n,
{
    if n > 0 {
        lemma_le_bytes_len(v / 256, (n - 1) as nat);
    }
}

/// A little-endian value is below 2^(8 * length).
pub proof fn lemma_le_value_bound(s: Seq<u8>)
    ensures
        le_value(s) < pow2(8 * s.len()),
    decreases s.len(),
{
    if s.len() == 0 {
        vstd::arithmetic::power2::lemma2_to64();
    } else {
        lemma_le_value_bound(s.drop_first());
        lemma_pow2_8(s.len());
        let t = le_value(s.drop_first());
        let p = pow2(8 * (s.len() - 1) as nat);
        assert(s[0] as nat + 256 * t < 256 * p) by (nonlinear_arith)
            requires
                t < p,
                s[0] < 256,
        ;
    }
}

/// `endian_bytes` makes as many bytes as asked for.
pub proof fn lemma_endian_bytes_len(e: Endian, v: nat, n: nat)
    ensures
        endian_bytes(e, v, n).len() == n,
{
    lemma_le_bytes_len(v, n);
}

/// Bytes read in a byte order and written back in it give the same bytes.
pub proof fn lemma_endian_roundtrip(e: Endian, v: nat, n: nat)
    requires
        v < pow2(8 * n),
    ensures
        endian_bytes(e, v, n).len() == n,
        endian_value(e, endian_bytes(e, v, n)) == v,
{
    lemma_le_roundtrip(v, n);
    assert(le_bytes(v, n).reverse().reverse() =~= le_bytes(v, n));
}

/// `LittleEndian::read_uint128`: the first `nbytes` bytes of `buf`, least
/// significant first. It panics unless `1 <= nbytes <= 16` and `nbytes <= buf.len()`.
#[verifier::external_body]
fn le_read_uint128(buf: &[u8], nbytes: usize) -> (r: u128)
    requires
        1 <= nbytes <= 16,
        nbytes <= buf@.len(),
    ensures
        r as nat == le_value(buf@.subrange(0, nbytes as int)),
{
    LittleEndian::read_uint128(buf, nbytes)
}

/// `BigEndian::read_uint128`: the first `nbytes` bytes of `buf`, most significant first.
#[verifier::external_body]
fn be_read_uint128(buf: &[u8], nbytes: usize) -> (r: u128)
    requires
        1 <= nbytes <= 16,
        nbytes <= buf@.len(),
    ensures
        r as nat == be_value(buf@.subrange(0, nbytes as int)),
{
    BigEndian::read_uint128(buf, nbytes)
}

/// `LittleEndian::read_int128`: the first `nbytes` bytes, least significant
/// first, sign-extended from the top bit of the last one.
#[verifier::external_body]
fn le_read_int128(buf: &[u8], nbytes: usize) -> (r: i128)
    requires
        1 <= nbytes <= 16,
        nbytes <= buf@.len(),
    ensures
        r as int == sign_extend(le_value(buf@.subrange(0, nbytes as int)), nbytes as nat),
{
    LittleEndian::read_int128(buf, nbytes)
}

/// `BigEndian::read_int128`: the first `nbytes` bytes, most significant first,
/// sign-extended from the top bit of the first one.
#[verifier::external_body]
fn be_read_int128(buf: &[u8], nbytes: usize) -> (r: i128)
    requires
        1 <= nbytes <= 16,
        nbytes <= buf@.len(),
    ensures
        r as int == sign_extend(be_value(buf@.subrange(0, nbytes as int)), nbytes as nat),
{
    BigEndian::read_int128(buf, nbytes)
}

/// `LittleEndian::write_uint128` into a fresh buffer of `nbytes` bytes: the
/// bytes of `n`, least significant first. It panics unless `n` fits in `nbytes <= 16` bytes.
#[verifier::external_body]
fn le_write_uint128(n: u128, nbytes: usize) -> (r: Vec<u8>)
    requires
        1 <= nbytes <= 16,
        n < pow2(8 * nbytes as nat),
    ensures
        r@ == le_bytes(n as nat, nbytes as nat),
{
    let mut buf = vec![0u8; nbytes];
    LittleEndian::write_uint128(&mut buf, n, nbytes);
    buf
}

/// `BigEndian::write_uint128` into a fresh buffer of `nbytes` bytes: the bytes
/// of `n`, most significant first.
#[verifier::external_body]
fn be_write_uint128(n: u128, nbytes: usize) -> (r: Vec<u8>)
    requires
        1 <= nbytes <= 16,
        n < pow2(8 * nbytes as nat),
    ensures
        r@ == be_bytes(n as nat, nbytes as nat),
{
    let mut buf = vec![0u8; nbytes];
    BigEndian::write_uint128(&mut buf, n, nbytes);
    buf
}

/// `LittleEndian::write_int128` into a fresh buffer of `nbytes` bytes: the low
/// `nbytes` bytes of the two's complement of `n`, least significant first.
#[verifier::external_body]
fn le_write_int128(n: i128, nbytes: usize) -> (r: Vec<u8>)
    requires
        1 <= nbytes <= 16,
    ensures
        r@ == le_bytes(two_complement(n as int, nbytes as nat), nbytes as nat),
{
    let mut buf = vec![0u8; nbytes];
    LittleEndian::write_int128(&mut buf, n, nbytes);
    buf
}

/// `BigEndian::write_int128` into a fresh buffer of `nbytes` bytes: the low
/// `nbytes` bytes of the two's complement of `n`, most significant first.
#[verifier::external_body]
fn be_write_int128(n: i128, nbytes: usize) -> (r: Vec<u8>)
    requires
        1 <= nbytes <= 16,
    ensures
        r@ == be_bytes(two_complement(n as int, nbytes as nat), nbytes as nat),
{
    let mut buf = vec![0u8; nbytes];
    BigEndian::write_int128(&mut buf, n, nbytes);
    buf
}

/// The bytes of `data` in the target's byte order, as many as `len`.
pub fn write_target_uint(endianess: Endian, len: usize, data: u128) -> (r: Vec<u8>)
    requires
        1 <= len <= 16,
        data < pow2(8 * len as nat),
    ensures
        r@ == endian_bytes(endianess, data as nat, len as nat),
{
    match endianess {
        Endian::Little => le_write_uint128(data, len),
        Endian::Big => be_write_uint128(data, len),
    }
}

/// The `len` bytes of the two's complement of `data` in the target's byte order.
pub fn write_target_int(endianess: Endian, len: usize, data: i128) -> (r: Vec<u8>)
    requires
        1 <= len <= 16,
    ensures
        r@ == endian_bytes(endianess, two_complement(data as int, len as nat), len as nat),
{
    match endianess {
        Endian::Little => le_write_int128(data, len),
        Endian::Big => be_write_int128(data, len),
    }
}

/// The unsigned number stored in `source` in the target's byte order.
pub fn read_target_uint(endianess: Endian, source: &[u8]) -> (r: u128)
    requires
        1 <= source@.len() <= 16,
    ensures
        r as nat == endian_value(endianess, source@),
{
    assert(source@.subrange(0, source@.len() as int) =~= source@);
    match endianess {
        Endian::Little => le_read_uint128(source, source.len()),
        Endian::Big => be_read_uint128(source, source.len()),
    }
}

/// The signed number stored in `source` in the target's byte order.
pub fn read_target_int(endianess: Endian, source: &[u8]) -> (r: i128)
    requires
        1 <= source@.len() <= 16,
    ensures
        r as int == sign_extend(endian_value(endianess, source@), source@.len()),
{
    assert(source@.subrange(0, source@.len() as int) =~= source@);
    match endianess {
        Endian::Little => le_read_int128(source, source.len()),
        Endian::Big => be_read_int128(source, source.len()),
    }
}

} // verus!
