use rust_tools::altivec::{
    vec_madds, vec_mradds, vec_msums, vec_perm, vector_bool_char, vector_bool_int, vector_bool_short,
    vector_signed_char, vector_signed_int, vector_signed_short, vector_unsigned_char, vector_unsigned_int,
    vector_unsigned_short,
};

const SHORT_SEL: [u8; 16] = [0x00, 0x01, 0x10, 0x11, 0x02, 0x03, 0x12, 0x13, 0x04, 0x05, 0x14, 0x15, 0x06, 0x07, 0x16, 0x17];
const INT_SEL: [u8; 16] = [0x00, 0x01, 0x02, 0x03, 0x10, 0x11, 0x12, 0x13, 0x04, 0x05, 0x06, 0x07, 0x14, 0x15, 0x16, 0x17];

#[test]
fn test_vec_perm_u8x16() {
    let a = vector_unsigned_char([0, 1, 2, 3, 4, 5, 6, 7, 8, 9, 10, 11, 12, 13, 14, 15]);
    let b = vector_unsigned_char([100, 101, 102, 103, 104, 105, 106, 107, 108, 109, 110, 111, 112, 113, 114, 115]);
    let r = vec_perm(a, b, vector_unsigned_char(SHORT_SEL));
    assert_eq!(r.0, [0, 1, 100, 101, 2, 3, 102, 103, 4, 5, 104, 105, 6, 7, 106, 107]);
}

#[test]
fn test_vec_perm_i8x16() {
    let a = vector_signed_char([0, 1, 2, 3, 4, 5, 6, 7, 8, 9, 10, 11, 12, 13, 14, 15]);
    let b = vector_signed_char([100, 101, 102, 103, 104, 105, 106, 107, 108, 109, 110, 111, 112, 113, 114, 115]);
    let r = vec_perm(a, b, vector_unsigned_char(SHORT_SEL));
    assert_eq!(r.0, [0, 1, 100, 101, 2, 3, 102, 103, 4, 5, 104, 105, 6, 7, 106, 107]);
}

#[test]
fn test_vec_perm_m8x16() {
    let a = vector_bool_char([0; 16]);
    let b = vector_bool_char([-1; 16]);
    let r = vec_perm(a, b, vector_unsigned_char(SHORT_SEL));
    assert_eq!(r.0, [0, 0, -1, -1, 0, 0, -1, -1, 0, 0, -1, -1, 0, 0, -1, -1]);
}

#[test]
fn test_vec_perm_u16x8() {
    let a = vector_unsigned_short([0, 1, 2, 3, 4, 5, 6, 7]);
    let b = vector_unsigned_short([10, 11, 12, 13, 14, 15, 16, 17]);
    assert_eq!(vec_perm(a, b, vector_unsigned_char(SHORT_SEL)).0, [0, 10, 1, 11, 2, 12, 3, 13]);
}

#[test]
fn test_vec_perm_i16x8() {
    let a = vector_signed_short([0, 1, 2, 3, 4, 5, 6, 7]);
    let b = vector_signed_short([10, 11, 12, 13, 14, 15, 16, 17]);
    assert_eq!(vec_perm(a, b, vector_unsigned_char(SHORT_SEL)).0, [0, 10, 1, 11, 2, 12, 3, 13]);
    let n = vector_signed_short([-1, -2, -3, -4, -5, -6, -7, -8]);
    assert_eq!(vec_perm(n, b, vector_unsigned_char(SHORT_SEL)).0, [-1, 10, -2, 11, -3, 12, -4, 13]);
}

#[test]
fn test_vec_perm_m16x8() {
    let a = vector_bool_short([0; 8]);
    let b = vector_bool_short([-1; 8]);
    assert_eq!(vec_perm(a, b, vector_unsigned_char(SHORT_SEL)).0, [0, -1, 0, -1, 0, -1, 0, -1]);
}

#[test]
fn test_vec_perm_u32x4() {
    let a = vector_unsigned_int([0, 1, 2, 3]);
    let b = vector_unsigned_int([10, 11, 12, 13]);
    assert_eq!(vec_perm(a, b, vector_unsigned_char(INT_SEL)).0, [0, 10, 1, 11]);
}

#[test]
fn test_vec_perm_i32x4() {
    let a = vector_signed_int([0, 1, 2, 3]);
    let b = vector_signed_int([10, 11, 12, 13]);
    assert_eq!(vec_perm(a, b, vector_unsigned_char(INT_SEL)).0, [0, 10, 1, 11]);
}

#[test]
fn test_vec_perm_m32x4() {
    let a = vector_bool_int([0; 4]);
    let b = vector_bool_int([-1; 4]);
    assert_eq!(vec_perm(a, b, vector_unsigned_char(INT_SEL)).0, [0, -1, 0, -1]);
}

#[test]
fn test_vec_madds() {
    let a = vector_signed_short([0, 256, 2 * 256, 3 * 256, 4 * 256, 5 * 256, 6 * 256, 7 * 256]);
    let b = vector_signed_short([256; 8]);
    let c = vector_signed_short([0, 1, 2, 3, 4, 5, 6, 7]);
    assert_eq!(vec_madds(a, b, c).0, [0, 3, 6, 9, 12, 15, 18, 21]);
}

#[test]
fn test_vec_mradds() {
    let a = vector_signed_short([0, 256, 2 * 256, 3 * 256, 4 * 256, 5 * 256, 6 * 256, 7 * 256]);
    let b = vector_signed_short([256; 8]);
    let c = vector_signed_short([0, 1, 2, 3, 4, 5, 6, i16::max_value() - 1]);
    assert_eq!(vec_mradds(a, b, c).0, [0, 3, 6, 9, 12, 15, 18, i16::max_value()]);
}

#[test]
fn test_vec_msums_unsigned() {
    let a = vector_unsigned_short([0, 256, 2 * 256, 3 * 256, 4 * 256, 5 * 256, 6 * 256, 7 * 256]);
    let b = vector_unsigned_short([256; 8]);
    let c = vector_unsigned_int([0, 1, 2, 3]);
    let d = [(0 + 1) * 256 * 256, (2 + 3) * 256 * 256 + 1, (4 + 5) * 256 * 256 + 2, (6 + 7) * 256 * 256 + 3];
    assert_eq!(vec_msums(a, b, c).0, d);
    let big = vector_unsigned_short([0xffff; 8]);
    assert_eq!(vec_msums(big, big, vector_unsigned_int([5; 4])).0, [u32::MAX; 4]);
}

#[test]
fn test_vec_msums_signed() {
    let a = vector_signed_short([0, -256, 2 * 256, -3 * 256, 4 * 256, -5 * 256, 6 * 256, -7 * 256]);
    let b = vector_signed_short([256; 8]);
    let c = vector_signed_int([0, 1, 2, 3]);
    let d = [(0 - 1) * 256 * 256, (2 - 3) * 256 * 256 + 1, (4 - 5) * 256 * 256 + 2, (6 - 7) * 256 * 256 + 3];
    assert_eq!(vec_msums(a, b, c).0, d);
    let low = vector_signed_short([i16::MIN, i16::MAX, i16::MIN, i16::MAX, 0, 0, 0, 0]);
    assert_eq!(vec_msums(low, low, vector_signed_int([i32::MAX; 4])).0[0], i32::MAX);
}
