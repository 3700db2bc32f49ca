//! Operations on 128-bit vectors of integers: lane-wise addition, wrapping
//! on overflow (a mask vector adds as the integers its lanes hold); the
//! saturating multiply-adds and multiply-sums; and the byte permutation.
use vstd::prelude::*;
use vstd::array::*;

verus! {

/// A 128-bit vector of sixteen packed `i8`.
#[allow(non_camel_case_types)]
#[derive(Copy, Clone, Debug)]
pub struct vector_signed_char(pub [i8; 16]);

/// A 128-bit vector of sixteen packed `u8`.
#[allow(non_camel_case_types)]
#[derive(Copy, Clone, Debug)]
pub struct vector_unsigned_char(pub [u8; 16]);

/// A 128-bit vector of a mask of sixteen packed elements.
#[allow(non_camel_case_types)]
#[derive(Copy, Clone, Debug)]
pub struct vector_bool_char(pub [i8; 16]);

/// A 128-bit vector of eight packed `i16`.
#[allow(non_camel_case_types)]
#[derive(Copy, Clone, Debug)]
pub struct vector_signed_short(pub [i16; 8]);

/// A 128-bit vector of eight packed `u16`.
#[allow(non_camel_case_types)]
#[derive(Copy, Clone, Debug)]
pub struct vector_unsigned_short(pub [u16; 8]);

/// A 128-bit vector of a mask of eight packed elements.
#[allow(non_camel_case_types)]
#[derive(Copy, Clone, Debug)]
pub struct vector_bool_short(pub [i16; 8]);

/// A 128-bit vector of four packed `i32`.
#[allow(non_camel_case_types)]
#[derive(Copy, Clone, Debug)]
pub struct vector_signed_int(pub [i32; 4]);

/// A 128-bit vector of four packed `u32`.
#[allow(non_camel_case_types)]
#[derive(Copy, Clone, Debug)]
pub struct vector_unsigned_int(pub [u32; 4]);

/// A 128-bit vector of a mask of four packed elements.
#[allow(non_camel_case_types)]
#[derive(Copy, Clone, Debug)]
pub struct vector_bool_int(pub [i32; 4]);

/// `x + y` wrapped into the range of `i8`.
pub open spec fn wrapping_sum_i8(x: i8, y: i8) -> i8 {
    if x + y > i8::MAX {
        (x + y - 0x100) as i8
    } else if x + y < i8::MIN {
        (x + y + 0x100) as i8
    } else {
        (x + y) as i8
    }
}

/// The lane-wise wrapping sum of two arrays of `i8`.
fn add_i8(a: [i8; 16], b: [i8; 16]) -> (r: [i8; 16])
    ensures
        forall|i: int| 0 <= i < 16 ==> r@[i] == wrapping_sum_i8(a@[i], b@[i]),
{
    let mut r: [i8; 16] = [0i8; 16];
    let mut i: usize = 0;
    while i < 16
        invariant
            i <= 16,
            forall|j: int| 0 <= j < i ==> r@[j] == wrapping_sum_i8(a@[j], b@[j]),
        decreases 16 - i,
    {
        r.set(i, a[i].wrapping_add(b[i]));
        i = i + 1;
    }
    r
}

/// `x + y` wrapped into the range of `u8`.
pub open spec fn wrapping_sum_u8(x: u8, y: u8) -> u8 {
    if x + y > u8::MAX {
        (x + y - 0x100) as u8
    } else {
        (x + y) as u8
    }
}

/// The lane-wise wrapping sum of two arrays of `u8`.
fn add_u8(a: [u8; 16], b: [u8; 16]) -> (r: [u8; 16])
    ensures
        forall|i: int| 0 <= i < 16 ==> r@[i] == wrapping_sum_u8(a@[i], b@[i]),
{
    let mut r: [u8; 16] = [0u8; 16];
    let mut i: usize = 0;
    while i < 16
        invariant
            i <= 16,
            forall|j: int| 0 <= j < i ==> r@[j] == wrapping_sum_u8(a@[j], b@[j]),
        decreases 16 - i,
    {
        r.set(i, a[i].wrapping_add(b[i]));
        i = i + 1;
    }
    r
}

/// `x + y` wrapped into the range of `i16`.
pub open spec fn wrapping_sum_i16(x: i16, y: i16) -> i16 {
    if x + y > i16::MAX {
        (x + y - 0x1_0000) as i16
    } else if x + y < i16::MIN {
        (x + y + 0x1_0000) as i16
    } else {
        (x + y) as i16
    }
}

/// The lane-wise wrapping sum of two arrays of `i16`.
fn add_i16(a: [i16; 8], b: [i16; 8]) -> (r: [i16; 8])
    ensures
        forall|i: int| 0 <= i < 8 ==> r@[i] == wrapping_sum_i16(a@[i], b@[i]),
{
    let mut r: [i16; 8] = [0i16; 8];
    let mut i: usize = 0;
    while i < 8
        invariant
            i <= 8,
            forall|j: int| 0 <= j < i ==> r@[j] == wrapping_sum_i16(a@[j], b@[j]),
        decreases 8 - i,
    {
        r.set(i, a[i].wrapping_add(b[i]));
        i = i + 1;
    }
    r
}

/// `x + y` wrapped into the range of `u16`.
pub open spec fn wrapping_sum_u16(x: u16, y: u16) -> u16 {
    if x + y > u16::MAX {
        (x + y - 0x1_0000) as u16
    } else {
        (x + y) as u16
    }
}

/// The lane-wise wrapping sum of two arrays of `u16`.
fn add_u16(a: [u16; 8], b: [u16; 8]) -> (r: [u16; 8])
    ensures
        forall|i: int| 0 <= i < 8 ==> r@[i] == wrapping_sum_u16(a@[i], b@[i]),
{
    let mut r: [u16; 8] = [0u16; 8];
    let mut i: usize = 0;
    while i < 8
        invariant
            i <= 8,
            forall|j: int| 0 <= j < i ==> r@[j] == wrapping_sum_u16(a@[j], b@[j]),
        decreases 8 - i,
    {
        r.set(i, a[i].wrapping_add(b[i]));
        i = i + 1;
    }
    r
}

/// `x + y` wrapped into the range of `i32`.
pub open spec fn wrapping_sum_i32(x: i32, y: i32) -> i32 {
    if x + y > i32::MAX {
        (x + y - 0x1_0000_0000) as i32
    } else if x + y < i32::MIN {
        (x + y + 0x1_0000_0000) as i32
    } else {
        (x + y) as i32
    }
}

/// The lane-wise wrapping sum of two arrays of `i32`.
fn add_i32(a: [i32; 4], b: [i32; 4]) -> (r: [i32; 4])
    ensures
        forall|i: int| 0 <= i < 4 ==> r@[i] == wrapping_sum_i32(a@[i], b@[i]),
{
    let mut r: [i32; 4] = [0i32; 4];
    let mut i: usize = 0;
    while i < 4
        invariant
            i <= 4,
            forall|j: int| 0 <= j < i ==> r@[j] == wrapping_sum_i32(a@[j], b@[j]),
        decreases 4 - i,
    {
        r.set(i, a[i].wrapping_add(b[i]));
        i = i + 1;
    }
    r
}

/// `x + y` wrapped into the range of `u32`.
pub open spec fn wrapping_sum_u32(x: u32, y: u32) -> u32 {
    if x + y > u32::MAX {
        (x + y - 0x1_0000_0000) as u32
    } else {
        (x + y) as u32
    }
}

/// The lane-wise wrapping sum of two arrays of `u32`.
fn add_u32(a: [u32; 4], b: [u32; 4]) -> (r: [u32; 4])
    ensures
        forall|i: int| 0 <= i < 4 ==> r@[i] == wrapping_sum_u32(a@[i], b@[i]),
{
    let mut r: [u32; 4] = [0u32; 4];
    let mut i: usize = 0;
    while i < 4
        invariant
            i <= 4,
            forall|j: int| 0 <= j < i ==> r@[j] == wrapping_sum_u32(a@[j], b@[j]),
        decreases 4 - i,
    {
        r.set(i, a[i].wrapping_add(b[i]));
        i = i + 1;
    }
    r
}

/// The lanes of an array of `i8` read as `u8`.
fn as_unsigned_i8(a: [i8; 16]) -> (r: [u8; 16])
    ensures
        forall|i: int| 0 <= i < 16 ==> r@[i] == a@[i] as u8,
{
    let mut r: [u8; 16] = [0u8; 16];
    let mut i: usize = 0;
    while i < 16
        invariant
            i <= 16,
            forall|j: int| 0 <= j < i ==> r@[j] == a@[j] as u8,
        decreases 16 - i,
    {
        r.set(i, a[i] as u8);
        i = i + 1;
    }
    r
}

/// The lanes of an array of `i16` read as `u16`.
fn as_unsigned_i16(a: [i16; 8]) -> (r: [u16; 8])
    ensures
        forall|i: int| 0 <= i < 8 ==> r@[i] == a@[i] as u16,
{
    let mut r: [u16; 8] = [0u16; 8];
    let mut i: usize = 0;
    while i < 8
        invariant
            i <= 8,
            forall|j: int| 0 <= j < i ==> r@[j] == a@[j] as u16,
        decreases 8 - i,
    {
        r.set(i, a[i] as u16);
        i = i + 1;
    }
    r
}

/// The lanes of an array of `i32` read as `u32`.
fn as_unsigned_i32(a: [i32; 4]) -> (r: [u32; 4])
    ensures
        forall|i: int| 0 <= i < 4 ==> r@[i] == a@[i] as u32,
{
    let mut r: [u32; 4] = [0u32; 4];
    let mut i: usize = 0;
    while i < 4
        invariant
            i <= 4,
            forall|j: int| 0 <= j < i ==> r@[j] == a@[j] as u32,
        decreases 4 - i,
    {
        r.set(i, a[i] as u32);
        i = i + 1;
    }
    r
}

/// Adds the lanes of `a` and `b`, wrapping on overflow.
pub fn vec_add_bc_sc(a: vector_bool_char, b: vector_signed_char) -> (r: vector_signed_char)
    ensures
        forall|i: int| 0 <= i < 16 ==> r.0@[i] == wrapping_sum_i8(a.0@[i], b.0@[i]),
{
    vector_signed_char(add_i8(a.0, b.0))
}

/// Adds the lanes of `a` and `b`, wrapping on overflow.
pub fn vec_add_sc_sc(a: vector_signed_char, b: vector_signed_char) -> (r: vector_signed_char)
    ensures
        forall|i: int| 0 <= i < 16 ==> r.0@[i] == wrapping_sum_i8(a.0@[i], b.0@[i]),
{
    vector_signed_char(add_i8(a.0, b.0))
}

/// Adds the lanes of `a` and `b`, wrapping on overflow.
pub fn vec_add_bc_uc(a: vector_bool_char, b: vector_unsigned_char) -> (r: vector_unsigned_char)
    ensures
        forall|i: int| 0 <= i < 16 ==> r.0@[i] == wrapping_sum_u8(a.0@[i] as u8, b.0@[i]),
{
    vector_unsigned_char(add_u8(as_unsigned_i8(a.0), b.0))
}

/// Adds the lanes of `a` and `b`, wrapping on overflow.
pub fn vec_add_uc_uc(a: vector_unsigned_char, b: vector_unsigned_char) -> (r: vector_unsigned_char)
    ensures
        forall|i: int| 0 <= i < 16 ==> r.0@[i] == wrapping_sum_u8(a.0@[i], b.0@[i]),
{
    vector_unsigned_char(add_u8(a.0, b.0))
}

/// Adds the lanes of `a` and `b`, wrapping on overflow.
pub fn vec_add_bs_ss(a: vector_bool_short, b: vector_signed_short) -> (r: vector_signed_short)
    ensures
        forall|i: int| 0 <= i < 8 ==> r.0@[i] == wrapping_sum_i16(a.0@[i], b.0@[i]),
{
    vector_signed_short(add_i16(a.0, b.0))
}

/// Adds the lanes of `a` and `b`, wrapping on overflow.
pub fn vec_add_ss_ss(a: vector_signed_short, b: vector_signed_short) -> (r: vector_signed_short)
    ensures
        forall|i: int| 0 <= i < 8 ==> r.0@[i] == wrapping_sum_i16(a.0@[i], b.0@[i]),
{
    vector_signed_short(add_i16(a.0, b.0))
}

/// Adds the lanes of `a` and `b`, wrapping on overflow.
pub fn vec_add_bs_us(a: vector_bool_short, b: vector_unsigned_short) -> (r: vector_unsigned_short)
    ensures
        forall|i: int| 0 <= i < 8 ==> r.0@[i] == wrapping_sum_u16(a.0@[i] as u16, b.0@[i]),
{
    vector_unsigned_short(add_u16(as_unsigned_i16(a.0), b.0))
}

/// Adds the lanes of `a` and `b`, wrapping on overflow.
pub fn vec_add_us_us(a: vector_unsigned_short, b: vector_unsigned_short) -> (r: vector_unsigned_short)
    ensures
        forall|i: int| 0 <= i < 8 ==> r.0@[i] == wrapping_sum_u16(a.0@[i], b.0@[i]),
{
    vector_unsigned_short(add_u16(a.0, b.0))
}

/// Adds the lanes of `a` and `b`, wrapping on overflow.
pub fn vec_add_bi_si(a: vector_bool_int, b: vector_signed_int) -> (r: vector_signed_int)
    ensures
        forall|i: int| 0 <= i < 4 ==> r.0@[i] == wrapping_sum_i32(a.0@[i], b.0@[i]),
{
    vector_signed_int(add_i32(a.0, b.0))
}

/// Adds the lanes of `a` and `b`, wrapping on overflow.
pub fn vec_add_si_si(a: vector_signed_int, b: vector_signed_int) -> (r: vector_signed_int)
    ensures
        forall|i: int| 0 <= i < 4 ==> r.0@[i] == wrapping_sum_i32(a.0@[i], b.0@[i]),
{
    vector_signed_int(add_i32(a.0, b.0))
}

/// Adds the lanes of `a` and `b`, wrapping on overflow.
pub fn vec_add_bi_ui(a: vector_bool_int, b: vector_unsigned_int) -> (r: vector_unsigned_int)
    ensures
        forall|i: int| 0 <= i < 4 ==> r.0@[i] == wrapping_sum_u32(a.0@[i] as u32, b.0@[i]),
{
    vector_unsigned_int(add_u32(as_unsigned_i32(a.0), b.0))
}

/// Adds the lanes of `a` and `b`, wrapping on overflow.
pub fn vec_add_ui_ui(a: vector_unsigned_int, b: vector_unsigned_int) -> (r: vector_unsigned_int)
    ensures
        forall|i: int| 0 <= i < 4 ==> r.0@[i] == wrapping_sum_u32(a.0@[i], b.0@[i]),
{
    vector_unsigned_int(add_u32(a.0, b.0))
}

/// Vector addition of `Self` and `Other`.
pub trait VectorAdd<Other>: Sized {
    type Result;

    /// Whether `r` holds the lane-wise wrapping sums of `a` and `b`.
    spec fn is_sum(a: Self, b: Other, r: Self::Result) -> bool;

    fn vec_add(self, other: Other) -> (r: Self::Result)
        ensures
            Self::is_sum(self, other, r),
    ;
}

impl VectorAdd<vector_signed_char> for vector_bool_char {
    type Result = vector_signed_char;

    open spec fn is_sum(a: vector_bool_char, b: vector_signed_char, r: vector_signed_char) -> bool {
        forall|i: int| 0 <= i < 16 ==> r.0@[i] == wrapping_sum_i8(a.0@[i], b.0@[i])
    }

    fn vec_add(self, other: vector_signed_char) -> (r: vector_signed_char) {
        vec_add_bc_sc(self, other)
    }
}

impl VectorAdd<vector_bool_char> for vector_signed_char {
    type Result = vector_signed_char;

    open spec fn is_sum(a: vector_signed_char, b: vector_bool_char, r: vector_signed_char) -> bool {
        forall|i: int| 0 <= i < 16 ==> r.0@[i] == wrapping_sum_i8(b.0@[i], a.0@[i])
    }

    fn vec_add(self, other: vector_bool_char) -> (r: vector_signed_char) {
        other.vec_add(self)
    }
}

impl VectorAdd<vector_signed_char> for vector_signed_char {
    type Result = vector_signed_char;

    open spec fn is_sum(a: vector_signed_char, b: vector_signed_char, r: vector_signed_char) -> bool {
        forall|i: int| 0 <= i < 16 ==> r.0@[i] == wrapping_sum_i8(a.0@[i], b.0@[i])
    }

    fn vec_add(self, other: vector_signed_char) -> (r: vector_signed_char) {
        vec_add_sc_sc(self, other)
    }
}

impl VectorAdd<vector_unsigned_char> for vector_bool_char {
    type Result = vector_unsigned_char;

    open spec fn is_sum(a: vector_bool_char, b: vector_unsigned_char, r: vector_unsigned_char) -> bool {
        forall|i: int| 0 <= i < 16 ==> r.0@[i] == wrapping_sum_u8(a.0@[i] as u8, b.0@[i])
    }

    fn vec_add(self, other: vector_unsigned_char) -> (r: vector_unsigned_char) {
        vec_add_bc_uc(self, other)
    }
}

impl VectorAdd<vector_bool_char> for vector_unsigned_char {
    type Result = vector_unsigned_char;

    open spec fn is_sum(a: vector_unsigned_char, b: vector_bool_char, r: vector_unsigned_char) -> bool {
        forall|i: int| 0 <= i < 16 ==> r.0@[i] == wrapping_sum_u8(b.0@[i] as u8, a.0@[i])
    }

    fn vec_add(self, other: vector_bool_char) -> (r: vector_unsigned_char) {
        other.vec_add(self)
    }
}

impl VectorAdd<vector_unsigned_char> for vector_unsigned_char {
    type Result = vector_unsigned_char;

    open spec fn is_sum(a: vector_unsigned_char, b: vector_unsigned_char, r: vector_unsigned_char) -> bool {
        forall|i: int| 0 <= i < 16 ==> r.0@[i] == wrapping_sum_u8(a.0@[i], b.0@[i])
    }

    fn vec_add(self, other: vector_unsigned_char) -> (r: vector_unsigned_char) {
        vec_add_uc_uc(self, other)
    }
}

impl VectorAdd<vector_signed_short> for vector_bool_short {
    type Result = vector_signed_short;

    open spec fn is_sum(a: vector_bool_short, b: vector_signed_short, r: vector_signed_short) -> bool {
        forall|i: int| 0 <= i < 8 ==> r.0@[i] == wrapping_sum_i16(a.0@[i], b.0@[i])
    }

    fn vec_add(self, other: vector_signed_short) -> (r: vector_signed_short) {
        vec_add_bs_ss(self, other)
    }
}

impl VectorAdd<vector_bool_short> for vector_signed_short {
    type Result = vector_signed_short;

    open spec fn is_sum(a: vector_signed_short, b: vector_bool_short, r: vector_signed_short) -> bool {
        forall|i: int| 0 <= i < 8 ==> r.0@[i] == wrapping_sum_i16(b.0@[i], a.0@[i])
    }

    fn vec_add(self, other: vector_bool_short) -> (r: vector_signed_short) {
        other.vec_add(self)
    }
}

impl VectorAdd<vector_signed_short> for vector_signed_short {
    type Result = vector_signed_short;

    open spec fn is_sum(a: vector_signed_short, b: vector_signed_short, r: vector_signed_short) -> bool {
        forall|i: int| 0 <= i < 8 ==> r.0@[i] == wrapping_sum_i16(a.0@[i], b.0@[i])
    }

    fn vec_add(self, other: vector_signed_short) -> (r: vector_signed_short) {
        vec_add_ss_ss(self, other)
    }
}

impl VectorAdd<vector_unsigned_short> for vector_bool_short {
    type Result = vector_unsigned_short;

    open spec fn is_sum(a: vector_bool_short, b: vector_unsigned_short, r: vector_unsigned_short) -> bool {
        forall|i: int| 0 <= i < 8 ==> r.0@[i] == wrapping_sum_u16(a.0@[i] as u16, b.0@[i])
    }

    fn vec_add(self, other: vector_unsigned_short) -> (r: vector_unsigned_short) {
        vec_add_bs_us(self, other)
    }
}

impl VectorAdd<vector_bool_short> for vector_unsigned_short {
    type Result = vector_unsigned_short;

    open spec fn is_sum(a: vector_unsigned_short, b: vector_bool_short, r: vector_unsigned_short) -> bool {
        forall|i: int| 0 <= i < 8 ==> r.0@[i] == wrapping_sum_u16(b.0@[i] as u16, a.0@[i])
    }

    fn vec_add(self, other: vector_bool_short) -> (r: vector_unsigned_short) {
        other.vec_add(self)
    }
}

impl VectorAdd<vector_unsigned_short> for vector_unsigned_short {
    type Result = vector_unsigned_short;

    open spec fn is_sum(a: vector_unsigned_short, b: vector_unsigned_short, r: vector_unsigned_short) -> bool {
        forall|i: int| 0 <= i < 8 ==> r.0@[i] == wrapping_sum_u16(a.0@[i], b.0@[i])
    }

    fn vec_add(self, other: vector_unsigned_short) -> (r: vector_unsigned_short) {
        vec_add_us_us(self, other)
    }
}

impl VectorAdd<vector_signed_int> for vector_bool_int {
    type Result = vector_signed_int;

    open spec fn is_sum(a: vector_bool_int, b: vector_signed_int, r: vector_signed_int) -> bool {
        forall|i: int| 0 <= i < 4 ==> r.0@[i] == wrapping_sum_i32(a.0@[i], b.0@[i])
    }

    fn vec_add(self, other: vector_signed_int) -> (r: vector_signed_int) {
        vec_add_bi_si(self, other)
    }
}

impl VectorAdd<vector_bool_int> for vector_signed_int {
    type Result = vector_signed_int;

    open spec fn is_sum(a: vector_signed_int, b: vector_bool_int, r: vector_signed_int) -> bool {
        forall|i: int| 0 <= i < 4 ==> r.0@[i] == wrapping_sum_i32(b.0@[i], a.0@[i])
    }

    fn vec_add(self, other: vector_bool_int) -> (r: vector_signed_int) {
        other.vec_add(self)
    }
}

impl VectorAdd<vector_signed_int> for vector_signed_int {
    type Result = vector_signed_int;

    open spec fn is_sum(a: vector_signed_int, b: vector_signed_int, r: vector_signed_int) -> bool {
        forall|i: int| 0 <= i < 4 ==> r.0@[i] == wrapping_sum_i32(a.0@[i], b.0@[i])
    }

    fn vec_add(self, other: vector_signed_int) -> (r: vector_signed_int) {
        vec_add_si_si(self, other)
    }
}

impl VectorAdd<vector_unsigned_int> for vector_bool_int {
    type Result = vector_unsigned_int;

    open spec fn is_sum(a: vector_bool_int, b: vector_unsigned_int, r: vector_unsigned_int) -> bool {
        forall|i: int| 0 <= i < 4 ==> r.0@[i] == wrapping_sum_u32(a.0@[i] as u32, b.0@[i])
    }

    fn vec_add(self, other: vector_unsigned_int) -> (r: vector_unsigned_int) {
        vec_add_bi_ui(self, other)
    }
}

impl VectorAdd<vector_bool_int> for vector_unsigned_int {
    type Result = vector_unsigned_int;

    open spec fn is_sum(a: vector_unsigned_int, b: vector_bool_int, r: vector_unsigned_int) -> bool {
        forall|i: int| 0 <= i < 4 ==> r.0@[i] == wrapping_sum_u32(b.0@[i] as u32, a.0@[i])
    }

    fn vec_add(self, other: vector_bool_int) -> (r: vector_unsigned_int) {
        other.vec_add(self)
    }
}

impl VectorAdd<vector_unsigned_int> for vector_unsigned_int {
    type Result = vector_unsigned_int;

    open spec fn is_sum(a: vector_unsigned_int, b: vector_unsigned_int, r: vector_unsigned_int) -> bool {
        forall|i: int| 0 <= i < 4 ==> r.0@[i] == wrapping_sum_u32(a.0@[i], b.0@[i])
    }

    fn vec_add(self, other: vector_unsigned_int) -> (r: vector_unsigned_int) {
        vec_add_ui_ui(self, other)
    }
}

/// Vector addition: the lane-wise wrapping sums of `a` and `b`.
pub fn vec_add<T: VectorAdd<U>, U>(a: T, b: U) -> (r: T::Result)
    ensures
        T::is_sum(a, b, r),
{
    a.vec_add(b)
}

/// `x` clamped into the range of `i16`.
pub open spec fn sat_i16(x: int) -> i16 {
    if x > i16::MAX {
        i16::MAX
    } else if x < i16::MIN {
        i16::MIN
    } else {
        x as i16
    }
}

/// `x` clamped into the range of `i32`.
pub open spec fn sat_i32(x: int) -> i32 {
    if x > i32::MAX {
        i32::MAX
    } else if x < i32::MIN {
        i32::MIN
    } else {
        x as i32
    }
}

/// `x` clamped into the range of `u32`.
pub open spec fn sat_u32(x: int) -> u32 {
    if x > u32::MAX {
        u32::MAX
    } else {
        x as u32
    }
}

fn clamp_i16(x: i64) -> (r: i16)
    ensures
        r == sat_i16(x as int),
{
    if x > i16::MAX as i64 {
        i16::MAX
    } else if x < i16::MIN as i64 {
        i16::MIN
    } else {
        x as i16
    }
}

/// `p` shifted right by 15 bits, rounding toward minus infinity.
fn shr15(p: i64) -> (r: i64)
    requires
        -0x4000_0000_0000 <= p <= 0x4000_0000_0000,
    ensures
        r == p / 32768,
{
    if p >= 0 {
        p / 32768
    } else {
        let q = (-p + 32767) / 32768;
        assert(-q == p / 32768) by (nonlinear_arith)
            requires
                p < 0,
                q == (-p + 32767) / 32768,
        ;
        -q
    }
}

/// A lane of the multiply-high-add: `a * b` shifted right by 15 bits, plus
/// `c`, saturated.
pub open spec fn madds_lane(a: i16, b: i16, c: i16) -> i16 {
    sat_i16((a * b) / 32768 + c)
}

/// A lane of the rounding multiply-high-add: `a * b` plus `0x4000`,
/// shifted right by 15 bits, plus `c`, saturated.
pub open spec fn mradds_lane(a: i16, b: i16, c: i16) -> i16 {
    sat_i16((a * b + 0x4000) / 32768 + c)
}

proof fn lemma_i16_product(a: i16, b: i16)
    ensures
        -0x4000_0000 <= a * b <= 0x4000_0000,
{
    assert(-0x4000_0000 <= a * b <= 0x4000_0000) by (nonlinear_arith)
        requires
            -32768 <= a <= 32767,
            -32768 <= b <= 32767,
    ;
}

/// Vector multiply add saturated: lane by lane, the high half of `a * b`
/// (the product shifted right by 15 bits) plus `c`, saturated.
pub fn vec_madds(a: vector_signed_short, b: vector_signed_short, c: vector_signed_short) -> (r: vector_signed_short)
    ensures
        forall|i: int| 0 <= i < 8 ==> r.0@[i] == madds_lane(a.0@[i], b.0@[i], c.0@[i]),
{
    let mut out: [i16; 8] = [0i16; 8];
    let mut i: usize = 0;
    while i < 8
        invariant
            i <= 8,
            forall|j: int| 0 <= j < i ==> out@[j] == madds_lane(a.0@[j], b.0@[j], c.0@[j]),
        decreases 8 - i,
    {
        proof {
            lemma_i16_product(a.0@[i as int], b.0@[i as int]);
        }
        let p = a.0[i] as i64 * b.0[i] as i64;
        let v = shr15(p) + c.0[i] as i64;
        out[i] = clamp_i16(v);
        i = i + 1;
    }
    vector_signed_short(out)
}

/// Vector multiply round and add saturated: lane by lane, `a * b` rounded
/// to its high half (plus `0x4000`, shifted right by 15 bits) plus `c`,
/// saturated.
pub fn vec_mradds(a: vector_signed_short, b: vector_signed_short, c: vector_signed_short) -> (r: vector_signed_short)
    ensures
        forall|i: int| 0 <= i < 8 ==> r.0@[i] == mradds_lane(a.0@[i], b.0@[i], c.0@[i]),
{
    let mut out: [i16; 8] = [0i16; 8];
    let mut i: usize = 0;
    while i < 8
        invariant
            i <= 8,
            forall|j: int| 0 <= j < i ==> out@[j] == mradds_lane(a.0@[j], b.0@[j], c.0@[j]),
        decreases 8 - i,
    {
        proof {
            lemma_i16_product(a.0@[i as int], b.0@[i as int]);
        }
        let p = a.0[i] as i64 * b.0[i] as i64 + 0x4000;
        let v = shr15(p) + c.0[i] as i64;
        out[i] = clamp_i16(v);
        i = i + 1;
    }
    vector_signed_short(out)
}

/// A lane of the unsigned multiply-sum: the two products of the lanes of
/// `a` and `b` that fall in it, plus `c`, saturated.
pub open spec fn msum_u_lane(a: Seq<u16>, b: Seq<u16>, c: u32, i: int) -> u32 {
    sat_u32(c + a[2 * i] * b[2 * i] + a[2 * i + 1] * b[2 * i + 1])
}

/// A lane of the signed multiply-sum: the two products of the lanes of
/// `a` and `b` that fall in it, plus `c`, saturated.
pub open spec fn msum_s_lane(a: Seq<i16>, b: Seq<i16>, c: i32, i: int) -> i32 {
    sat_i32(c + a[2 * i] * b[2 * i] + a[2 * i + 1] * b[2 * i + 1])
}

/// Multiply-sum of unsigned lanes.
fn msums_unsigned(a: vector_unsigned_short, b: vector_unsigned_short, c: vector_unsigned_int) -> (r: vector_unsigned_int)
    ensures
        forall|i: int| 0 <= i < 4 ==> r.0@[i] == msum_u_lane(a.0@, b.0@, c.0@[i], i),
{
    let mut out: [u32; 4] = [0u32; 4];
    let mut i: usize = 0;
    while i < 4
        invariant
            i <= 4,
            forall|j: int| 0 <= j < i ==> out@[j] == msum_u_lane(a.0@, b.0@, c.0@[j], j),
        decreases 4 - i,
    {
        let x0 = a.0[2 * i] as u64;
        let y0 = b.0[2 * i] as u64;
        let x1 = a.0[2 * i + 1] as u64;
        let y1 = b.0[2 * i + 1] as u64;
        assert(x0 * y0 <= 0xffff_ffff && x1 * y1 <= 0xffff_ffff) by (nonlinear_arith)
            requires
                x0 <= 0xffff,
                y0 <= 0xffff,
                x1 <= 0xffff,
                y1 <= 0xffff,
        ;
        let v = c.0[i] as u64 + x0 * y0 + x1 * y1;
        out[i] = if v > u32::MAX as u64 {
            u32::MAX
        } else {
            v as u32
        };
        i = i + 1;
    }
    vector_unsigned_int(out)
}

/// Multiply-sum of signed lanes.
fn msums_signed(a: vector_signed_short, b: vector_signed_short, c: vector_signed_int) -> (r: vector_signed_int)
    ensures
        forall|i: int| 0 <= i < 4 ==> r.0@[i] == msum_s_lane(a.0@, b.0@, c.0@[i], i),
{
    let mut out: [i32; 4] = [0i32; 4];
    let mut i: usize = 0;
    while i < 4
        invariant
            i <= 4,
            forall|j: int| 0 <= j < i ==> out@[j] == msum_s_lane(a.0@, b.0@, c.0@[j], j),
        decreases 4 - i,
    {
        proof {
            lemma_i16_product(a.0@[2 * i as int], b.0@[2 * i as int]);
            lemma_i16_product(a.0@[2 * i + 1], b.0@[2 * i + 1]);
        }
        let v = c.0[i] as i64 + a.0[2 * i] as i64 * b.0[2 * i] as i64 + a.0[2 * i + 1] as i64 * b.0[2 * i + 1] as i64;
        out[i] = if v > i32::MAX as i64 {
            i32::MAX
        } else if v < i32::MIN as i64 {
            i32::MIN
        } else {
            v as i32
        };
        i = i + 1;
    }
    vector_signed_int(out)
}

/// Vector multiply-sum saturated of vectors of `Self` into a vector of `Other`.
pub trait VectorMsums<Other>: Sized {
    /// Whether `r` holds the saturated multiply-sums of `a` and `b` added to `c`.
    spec fn is_msum(a: Self, b: Self, c: Other, r: Other) -> bool;

    fn vec_msums(self, b: Self, c: Other) -> (r: Other)
        ensures
            Self::is_msum(self, b, c, r),
    ;
}

impl VectorMsums<vector_unsigned_int> for vector_unsigned_short {
    open spec fn is_msum(a: vector_unsigned_short, b: vector_unsigned_short, c: vector_unsigned_int, r: vector_unsigned_int) -> bool {
        forall|i: int| 0 <= i < 4 ==> r.0@[i] == msum_u_lane(a.0@, b.0@, c.0@[i], i)
    }

    fn vec_msums(self, b: vector_unsigned_short, c: vector_unsigned_int) -> (r: vector_unsigned_int) {
        msums_unsigned(self, b, c)
    }
}

impl VectorMsums<vector_signed_int> for vector_signed_short {
    open spec fn is_msum(a: vector_signed_short, b: vector_signed_short, c: vector_signed_int, r: vector_signed_int) -> bool {
        forall|i: int| 0 <= i < 4 ==> r.0@[i] == msum_s_lane(a.0@, b.0@, c.0@[i], i)
    }

    fn vec_msums(self, b: vector_signed_short, c: vector_signed_int) -> (r: vector_signed_int) {
        msums_signed(self, b, c)
    }
}

/// Vector multiply-sum saturated: each lane of `c` plus the products of the
/// two lanes of `a` and `b` that fall in it, saturated.
pub fn vec_msums<T: VectorMsums<U>, U>(a: T, b: T, c: U) -> (r: U)
    ensures
        T::is_msum(a, b, c, r),
{
    a.vec_msums(b, c)
}

/// The byte that `c` selects from the 32 bytes of `a` followed by `b`: by
/// its low five bits.
pub open spec fn select_byte(a: Seq<u8>, b: Seq<u8>, c: u8) -> u8 {
    let k = c % 32;
    if k < 16 {
        a[k as int]
    } else {
        b[k - 16]
    }
}

/// The bytes that the bytes of `c` select from those of `a` and `b`.
pub open spec fn perm_bytes(a: Seq<u8>, b: Seq<u8>, c: Seq<u8>) -> Seq<u8> {
    Seq::new(16, |i: int| select_byte(a, b, c[i]))
}

/// Permutes the bytes of `a` and `b` as `c` selects them.
fn perm16(a: [u8; 16], b: [u8; 16], c: [u8; 16]) -> (r: [u8; 16])
    ensures
        r@ == perm_bytes(a@, b@, c@),
{
    let mut out: [u8; 16] = [0u8; 16];
    let mut i: usize = 0;
    while i < 16
        invariant
            i <= 16,
            forall|j: int| 0 <= j < i ==> out@[j] == select_byte(a@, b@, c@[j]),
        decreases 16 - i,
    {
        let k = c[i] % 32;
        out[i] = if k < 16 {
            a[k as usize]
        } else {
            b[(k - 16) as usize]
        };
        i = i + 1;
    }
    assert(out@ =~= perm_bytes(a@, b@, c@));
    out
}

/// The two's complement bits of an `i8`.
pub open spec fn bits8(x: i8) -> u8 {
    if x < 0 {
        (x + 256) as u8
    } else {
        x as u8
    }
}

/// The `i8` with the given two's complement bits.
pub open spec fn from_bits8(v: u8) -> i8 {
    if v >= 128 {
        (v - 256) as i8
    } else {
        v as i8
    }
}

/// The two's complement bits of an `i16`.
pub open spec fn bits16(x: i16) -> u16 {
    if x < 0 {
        (x + 65536) as u16
    } else {
        x as u16
    }
}

/// The `i16` with the given two's complement bits.
pub open spec fn from_bits16(v: u16) -> i16 {
    if v >= 32768 {
        (v - 65536) as i16
    } else {
        v as i16
    }
}

/// The two's complement bits of an `i32`.
pub open spec fn bits32(x: i32) -> u32 {
    if x < 0 {
        (x + 0x1_0000_0000) as u32
    } else {
        x as u32
    }
}

/// The `i32` with the given two's complement bits.
pub open spec fn from_bits32(v: u32) -> i32 {
    if v >= 0x8000_0000 {
        (v - 0x1_0000_0000) as i32
    } else {
        v as i32
    }
}

/// The bytes of eight `u16` lanes, most significant first.
pub open spec fn bytes_of_u16s(s: Seq<u16>) -> Seq<u8> {
    Seq::new(16, |j: int| if j % 2 == 0 { (s[j / 2] / 256) as u8 } else { (s[j / 2] % 256) as u8 })
}

/// The eight `u16` lanes of sixteen bytes, most significant first.
pub open spec fn u16s_of_bytes(t: Seq<u8>) -> Seq<u16> {
    Seq::new(8, |i: int| (t[2 * i] * 256 + t[2 * i + 1]) as u16)
}

/// The bytes of four `u32` lanes, most significant first.
pub open spec fn bytes_of_u32s(s: Seq<u32>) -> Seq<u8> {
    Seq::new(
        16,
        |j: int|
            {
                let x = s[j / 4];
                let k = j % 4;
                (if k == 0 {
                    x / 0x100_0000
                } else if k == 1 {
                    (x / 0x1_0000) % 256
                } else if k == 2 {
                    (x / 256) % 256
                } else {
                    x % 256
                }) as u8
            },
    )
}

/// The four `u32` lanes of sixteen bytes, most significant first.
pub open spec fn u32s_of_bytes(t: Seq<u8>) -> Seq<u32> {
    Seq::new(
        4,
        |i: int| (t[4 * i] * 0x100_0000 + t[4 * i + 1] * 0x1_0000 + t[4 * i + 2] * 256 + t[4 * i + 3]) as u32,
    )
}

fn i8_bytes(a: [i8; 16]) -> (r: [u8; 16])
    ensures
        forall|j: int| 0 <= j < 16 ==> r@[j] == bits8(a@[j]),
{
    let mut out: [u8; 16] = [0u8; 16];
    let mut i: usize = 0;
    while i < 16
        invariant
            i <= 16,
            forall|j: int| 0 <= j < i ==> out@[j] == bits8(a@[j]),
        decreases 16 - i,
    {
        let x = a[i];
        out[i] = if x < 0 {
            (x as i16 + 256) as u8
        } else {
            x as u8
        };
        i = i + 1;
    }
    out
}

fn bytes_i8(t: [u8; 16]) -> (r: [i8; 16])
    ensures
        forall|j: int| 0 <= j < 16 ==> r@[j] == from_bits8(t@[j]),
{
    let mut out: [i8; 16] = [0i8; 16];
    let mut i: usize = 0;
    while i < 16
        invariant
            i <= 16,
            forall|j: int| 0 <= j < i ==> out@[j] == from_bits8(t@[j]),
        decreases 16 - i,
    {
        let v = t[i];
        out[i] = if v >= 128 {
            (v as i16 - 256) as i8
        } else {
            v as i8
        };
        i = i + 1;
    }
    out
}

fn i16_bits(a: [i16; 8]) -> (r: [u16; 8])
    ensures
        forall|j: int| 0 <= j < 8 ==> r@[j] == bits16(a@[j]),
{
    let mut out: [u16; 8] = [0u16; 8];
    let mut i: usize = 0;
    while i < 8
        invariant
            i <= 8,
            forall|j: int| 0 <= j < i ==> out@[j] == bits16(a@[j]),
        decreases 8 - i,
    {
        let x = a[i];
        out[i] = if x < 0 {
            (x as i32 + 65536) as u16
        } else {
            x as u16
        };
        i = i + 1;
    }
    out
}

fn bits_i16(t: [u16; 8]) -> (r: [i16; 8])
    ensures
        forall|j: int| 0 <= j < 8 ==> r@[j] == from_bits16(t@[j]),
{
    let mut out: [i16; 8] = [0i16; 8];
    let mut i: usize = 0;
    while i < 8
        invariant
            i <= 8,
            forall|j: int| 0 <= j < i ==> out@[j] == from_bits16(t@[j]),
        decreases 8 - i,
    {
        let v = t[i];
        out[i] = if v >= 32768 {
            (v as i32 - 65536) as i16
        } else {
            v as i16
        };
        i = i + 1;
    }
    out
}

fn i32_bits(a: [i32; 4]) -> (r: [u32; 4])
    ensures
        forall|j: int| 0 <= j < 4 ==> r@[j] == bits32(a@[j]),
{
    let mut out: [u32; 4] = [0u32; 4];
    let mut i: usize = 0;
    while i < 4
        invariant
            i <= 4,
            forall|j: int| 0 <= j < i ==> out@[j] == bits32(a@[j]),
        decreases 4 - i,
    {
        let x = a[i];
        out[i] = if x < 0 {
            (x as i64 + 0x1_0000_0000) as u32
        } else {
            x as u32
        };
        i = i + 1;
    }
    out
}

fn bits_i32(t: [u32; 4]) -> (r: [i32; 4])
    ensures
        forall|j: int| 0 <= j < 4 ==> r@[j] == from_bits32(t@[j]),
{
    let mut out: [i32; 4] = [0i32; 4];
    let mut i: usize = 0;
    while i < 4
        invariant
            i <= 4,
            forall|j: int| 0 <= j < i ==> out@[j] == from_bits32(t@[j]),
        decreases 4 - i,
    {
        let v = t[i];
        out[i] = if v >= 0x8000_0000 {
            (v as i64 - 0x1_0000_0000) as i32
        } else {
            v as i32
        };
        i = i + 1;
    }
    out
}

fn u16_bytes(a: [u16; 8]) -> (r: [u8; 16])
    ensures
        r@ == bytes_of_u16s(a@),
{
    let mut out: [u8; 16] = [0u8; 16];
    let mut i: usize = 0;
    while i < 8
        invariant
            i <= 8,
            forall|j: int| 0 <= j < 2 * i ==> out@[j] == bytes_of_u16s(a@)[j],
        decreases 8 - i,
    {
        out[2 * i] = (a[i] / 256) as u8;
        out[2 * i + 1] = (a[i] % 256) as u8;
        i = i + 1;
    }
    assert(out@ =~= bytes_of_u16s(a@));
    out
}

fn bytes_u16(t: [u8; 16]) -> (r: [u16; 8])
    ensures
        r@ == u16s_of_bytes(t@),
{
    let mut out: [u16; 8] = [0u16; 8];
    let mut i: usize = 0;
    while i < 8
        invariant
            i <= 8,
            forall|j: int| 0 <= j < i ==> out@[j] == u16s_of_bytes(t@)[j],
        decreases 8 - i,
    {
        out[i] = t[2 * i] as u16 * 256 + t[2 * i + 1] as u16;
        i = i + 1;
    }
    assert(out@ =~= u16s_of_bytes(t@));
    out
}

fn u32_bytes(a: [u32; 4]) -> (r: [u8; 16])
    ensures
        r@ == bytes_of_u32s(a@),
{
    let mut out: [u8; 16] = [0u8; 16];
    let mut i: usize = 0;
    while i < 4
        invariant
            i <= 4,
            forall|j: int| 0 <= j < 4 * i ==> out@[j] == bytes_of_u32s(a@)[j],
        decreases 4 - i,
    {
        let x = a[i];
        out[4 * i] = (x / 0x100_0000) as u8;
        out[4 * i + 1] = ((x / 0x1_0000) % 256) as u8;
        out[4 * i + 2] = ((x / 256) % 256) as u8;
        out[4 * i + 3] = (x % 256) as u8;
        i = i + 1;
    }
    assert(out@ =~= bytes_of_u32s(a@));
    out
}

fn bytes_u32(t: [u8; 16]) -> (r: [u32; 4])
    ensures
        r@ == u32s_of_bytes(t@),
{
    let mut out: [u32; 4] = [0u32; 4];
    let mut i: usize = 0;
    while i < 4
        invariant
            i <= 4,
            forall|j: int| 0 <= j < i ==> out@[j] == u32s_of_bytes(t@)[j],
        decreases 4 - i,
    {
        out[i] = t[4 * i] as u32 * 0x100_0000 + t[4 * i + 1] as u32 * 0x1_0000 + t[4 * i + 2] as u32 * 256
            + t[4 * i + 3] as u32;
        i = i + 1;
    }
    assert(out@ =~= u32s_of_bytes(t@));
    out
}

/// The bits of sixteen `i8` lanes.
pub open spec fn bytes_of_i8s(s: Seq<i8>) -> Seq<u8> {
    Seq::new(16, |k: int| bits8(s[k]))
}

/// Sixteen `i8` lanes of the given bits.
pub open spec fn i8s_of_bytes(t: Seq<u8>) -> Seq<i8> {
    Seq::new(16, |k: int| from_bits8(t[k]))
}

/// The bits of eight `i16` lanes.
pub open spec fn u16s_of_i16s(s: Seq<i16>) -> Seq<u16> {
    Seq::new(8, |k: int| bits16(s[k]))
}

/// Eight `i16` lanes of the given bits.
pub open spec fn i16s_of_u16s(t: Seq<u16>) -> Seq<i16> {
    Seq::new(8, |k: int| from_bits16(t[k]))
}

/// The bits of four `i32` lanes.
pub open spec fn u32s_of_i32s(s: Seq<i32>) -> Seq<u32> {
    Seq::new(4, |k: int| bits32(s[k]))
}

/// Four `i32` lanes of the given bits.
pub open spec fn i32s_of_u32s(t: Seq<u32>) -> Seq<i32> {
    Seq::new(4, |k: int| from_bits32(t[k]))
}

/// Permutes the bytes of vectors of `i8` lanes.
fn perm_i8(a: [i8; 16], b: [i8; 16], c: [u8; 16]) -> (r: [i8; 16])
    ensures
        r@ == i8s_of_bytes(perm_bytes(bytes_of_i8s(a@), bytes_of_i8s(b@), c@)),
{
    let x = i8_bytes(a);
    let y = i8_bytes(b);
    assert(x@ =~= bytes_of_i8s(a@));
    assert(y@ =~= bytes_of_i8s(b@));
    let r = bytes_i8(perm16(x, y, c));
    assert(r@ =~= i8s_of_bytes(perm_bytes(bytes_of_i8s(a@), bytes_of_i8s(b@), c@)));
    r
}

/// Permutes the bytes of vectors of `i16` lanes.
fn perm_i16(a: [i16; 8], b: [i16; 8], c: [u8; 16]) -> (r: [i16; 8])
    ensures
        r@ == i16s_of_u16s(u16s_of_bytes(perm_bytes(bytes_of_u16s(u16s_of_i16s(a@)), bytes_of_u16s(u16s_of_i16s(b@)), c@))),
{
    let x = i16_bits(a);
    let y = i16_bits(b);
    assert(x@ =~= u16s_of_i16s(a@));
    assert(y@ =~= u16s_of_i16s(b@));
    let r = bits_i16(bytes_u16(perm16(u16_bytes(x), u16_bytes(y), c)));
    assert(r@ =~= i16s_of_u16s(u16s_of_bytes(perm_bytes(bytes_of_u16s(x@), bytes_of_u16s(y@), c@))));
    r
}

/// Permutes the bytes of vectors of `i32` lanes.
fn perm_i32(a: [i32; 4], b: [i32; 4], c: [u8; 16]) -> (r: [i32; 4])
    ensures
        r@ == i32s_of_u32s(u32s_of_bytes(perm_bytes(bytes_of_u32s(u32s_of_i32s(a@)), bytes_of_u32s(u32s_of_i32s(b@)), c@))),
{
    let x = i32_bits(a);
    let y = i32_bits(b);
    assert(x@ =~= u32s_of_i32s(a@));
    assert(y@ =~= u32s_of_i32s(b@));
    let r = bits_i32(bytes_u32(perm16(u32_bytes(x), u32_bytes(y), c)));
    assert(r@ =~= i32s_of_u32s(u32s_of_bytes(perm_bytes(bytes_of_u32s(x@), bytes_of_u32s(y@), c@))));
    r
}

/// Vector permutation: the bytes of the result are those that the bytes
/// of `c` select, by their low five bits, from the 32 bytes of `self`
/// followed by `b`, each lane's bytes most significant first.
pub trait VectorPerm: Sized {
    /// Whether `r` is the permutation of `a` and `b` that `c` selects.
    spec fn is_perm(a: Self, b: Self, c: vector_unsigned_char, r: Self) -> bool;

    fn vec_vperm(self, b: Self, c: vector_unsigned_char) -> (r: Self)
        ensures
            Self::is_perm(self, b, c, r),
    ;
}

impl VectorPerm for vector_unsigned_char {
    open spec fn is_perm(a: Self, b: Self, c: vector_unsigned_char, r: Self) -> bool {
        r.0@ == perm_bytes(a.0@, b.0@, c.0@)
    }

    fn vec_vperm(self, b: Self, c: vector_unsigned_char) -> (r: Self) {
        vector_unsigned_char(perm16(self.0, b.0, c.0))
    }
}

impl VectorPerm for vector_signed_char {
    open spec fn is_perm(a: Self, b: Self, c: vector_unsigned_char, r: Self) -> bool {
        r.0@ == i8s_of_bytes(perm_bytes(bytes_of_i8s(a.0@), bytes_of_i8s(b.0@), c.0@))
    }

    fn vec_vperm(self, b: Self, c: vector_unsigned_char) -> (r: Self) {
        vector_signed_char(perm_i8(self.0, b.0, c.0))
    }
}

impl VectorPerm for vector_bool_char {
    open spec fn is_perm(a: Self, b: Self, c: vector_unsigned_char, r: Self) -> bool {
        r.0@ == i8s_of_bytes(perm_bytes(bytes_of_i8s(a.0@), bytes_of_i8s(b.0@), c.0@))
    }

    fn vec_vperm(self, b: Self, c: vector_unsigned_char) -> (r: Self) {
        vector_bool_char(perm_i8(self.0, b.0, c.0))
    }
}

impl VectorPerm for vector_unsigned_short {
    open spec fn is_perm(a: Self, b: Self, c: vector_unsigned_char, r: Self) -> bool {
        r.0@ == u16s_of_bytes(perm_bytes(bytes_of_u16s(a.0@), bytes_of_u16s(b.0@), c.0@))
    }

    fn vec_vperm(self, b: Self, c: vector_unsigned_char) -> (r: Self) {
        vector_unsigned_short(bytes_u16(perm16(u16_bytes(self.0), u16_bytes(b.0), c.0)))
    }
}

impl VectorPerm for vector_signed_short {
    open spec fn is_perm(a: Self, b: Self, c: vector_unsigned_char, r: Self) -> bool {
        r.0@ == i16s_of_u16s(
            u16s_of_bytes(perm_bytes(bytes_of_u16s(u16s_of_i16s(a.0@)), bytes_of_u16s(u16s_of_i16s(b.0@)), c.0@)),
        )
    }

    fn vec_vperm(self, b: Self, c: vector_unsigned_char) -> (r: Self) {
        vector_signed_short(perm_i16(self.0, b.0, c.0))
    }
}

impl VectorPerm for vector_bool_short {
    open spec fn is_perm(a: Self, b: Self, c: vector_unsigned_char, r: Self) -> bool {
        r.0@ == i16s_of_u16s(
            u16s_of_bytes(perm_bytes(bytes_of_u16s(u16s_of_i16s(a.0@)), bytes_of_u16s(u16s_of_i16s(b.0@)), c.0@)),
        )
    }

    fn vec_vperm(self, b: Self, c: vector_unsigned_char) -> (r: Self) {
        vector_bool_short(perm_i16(self.0, b.0, c.0))
    }
}

impl VectorPerm for vector_unsigned_int {
    open spec fn is_perm(a: Self, b: Self, c: vector_unsigned_char, r: Self) -> bool {
        r.0@ == u32s_of_bytes(perm_bytes(bytes_of_u32s(a.0@), bytes_of_u32s(b.0@), c.0@))
    }

    fn vec_vperm(self, b: Self, c: vector_unsigned_char) -> (r: Self) {
        vector_unsigned_int(bytes_u32(perm16(u32_bytes(self.0), u32_bytes(b.0), c.0)))
    }
}

impl VectorPerm for vector_signed_int {
    open spec fn is_perm(a: Self, b: Self, c: vector_unsigned_char, r: Self) -> bool {
        r.0@ == i32s_of_u32s(
            u32s_of_bytes(perm_bytes(bytes_of_u32s(u32s_of_i32s(a.0@)), bytes_of_u32s(u32s_of_i32s(b.0@)), c.0@)),
        )
    }

    fn vec_vperm(self, b: Self, c: vector_unsigned_char) -> (r: Self) {
        vector_signed_int(perm_i32(self.0, b.0, c.0))
    }
}

impl VectorPerm for vector_bool_int {
    open spec fn is_perm(a: Self, b: Self, c: vector_unsigned_char, r: Self) -> bool {
        r.0@ == i32s_of_u32s(
            u32s_of_bytes(perm_bytes(bytes_of_u32s(u32s_of_i32s(a.0@)), bytes_of_u32s(u32s_of_i32s(b.0@)), c.0@)),
        )
    }

    fn vec_vperm(self, b: Self, c: vector_unsigned_char) -> (r: Self) {
        vector_bool_int(perm_i32(self.0, b.0, c.0))
    }
}

/// Vector permute: each byte of the result is the byte of `a` followed by
/// `b` that the byte of `c` at its place selects by its low five bits.
pub fn vec_perm<T: VectorPerm>(a: T, b: T, c: vector_unsigned_char) -> (r: T)
    ensures
        T::is_perm(a, b, c, r),
{
    a.vec_vperm(b, c)
}

} // verus!
