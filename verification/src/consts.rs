//! Folding of constant expressions: integers of every width, booleans,
//! strings, characters, and arrays and tuples of them.
use vstd::prelude::*;

verus! {

/// Signed integer types.
#[derive(Copy, Clone, Debug, PartialEq, Eq, Structural)]
pub enum IntTy {
    Isize,
    I8,
    I16,
    I32,
    I64,
    I128,
}

/// Unsigned integer types.
#[derive(Copy, Clone, Debug, PartialEq, Eq, Structural)]
pub enum UintTy {
    Usize,
    U8,
    U16,
    U32,
    U64,
    U128,
}

/// The type of an expression, as far as folding cares.
#[derive(Copy, Clone, Debug, PartialEq, Eq, Structural)]
pub enum Ty {
    Int(IntTy),
    Uint(UintTy),
    /// Any type that is not an integer.
    Other,
}

/// Whether a target pointer width in bits is one that exists.
pub open spec fn pointer_bits_wf(pointer_bits: u32) -> bool {
    pointer_bits == 16 || pointer_bits == 32 || pointer_bits == 64
}

/// The width in bits of a signed integer type on a target with `pointer_bits`-bit pointers.
pub open spec fn spec_int_bits(t: IntTy, pointer_bits: u32) -> u32 {
    match t {
        IntTy::Isize => pointer_bits,
        IntTy::I8 => 8,
        IntTy::I16 => 16,
        IntTy::I32 => 32,
        IntTy::I64 => 64,
        IntTy::I128 => 128,
    }
}

/// The width in bits of an unsigned integer type on a target with `pointer_bits`-bit pointers.
pub open spec fn spec_uint_bits(t: UintTy, pointer_bits: u32) -> u32 {
    match t {
        UintTy::Usize => pointer_bits,
        UintTy::U8 => 8,
        UintTy::U16 => 16,
        UintTy::U32 => 32,
        UintTy::U64 => 64,
        UintTy::U128 => 128,
    }
}

/// Two to the power `bits`, for the widths integers have.
pub open spec fn modulus(bits: u32) -> int {
    if bits == 8 {
        0x100
    } else if bits == 16 {
        0x1_0000
    } else if bits == 32 {
        0x1_0000_0000
    } else if bits == 64 {
        0x1_0000_0000_0000_0000int
    } else {
        0x1_0000_0000_0000_0000_0000_0000_0000_0000int
    }
}

/// The value of the low `bits` bits of `u` read as a two's complement number.
pub open spec fn spec_sext(u: u128, bits: u32) -> int {
    let t = u as int % modulus(bits);
    if t >= modulus(bits) / 2 {
        t - modulus(bits)
    } else {
        t
    }
}

/// The low `bits` bits of `v` in two's complement, as an unsigned number.
pub open spec fn spec_unsext(v: int, bits: u32) -> u128 {
    (v % modulus(bits)) as u128
}

/// A negative number modulo `m`, through the non-negative `-(v + 1)`.
proof fn lemma_negative_mod(v: int, m: int)
    requires
        v < 0,
        m > 0,
    ensures
        v % m == m - 1 - (-(v + 1)) % m,
{
    let a = -(v + 1);
    vstd::arithmetic::div_mod::lemma_fundamental_div_mod(a, m);
    let q = a / m;
    let r = a % m;
    assert(v == (-(q + 1)) * m + (m - 1 - r)) by (nonlinear_arith)
        requires
            a == m * q + r,
            v == -(a + 1),
    ;
    vstd::arithmetic::div_mod::lemma_fundamental_div_mod_converse(v, m, -(q + 1), m - 1 - r);
}

/// The width of a signed integer type.
pub fn int_bits(pointer_bits: u32, t: IntTy) -> (r: u32)
    ensures
        r == spec_int_bits(t, pointer_bits),
{
    match t {
        IntTy::Isize => pointer_bits,
        IntTy::I8 => 8,
        IntTy::I16 => 16,
        IntTy::I32 => 32,
        IntTy::I64 => 64,
        IntTy::I128 => 128,
    }
}

/// The width of an unsigned integer type.
pub fn uint_bits(pointer_bits: u32, t: UintTy) -> (r: u32)
    ensures
        r == spec_uint_bits(t, pointer_bits),
{
    match t {
        UintTy::Usize => pointer_bits,
        UintTy::U8 => 8,
        UintTy::U16 => 16,
        UintTy::U32 => 32,
        UintTy::U64 => 64,
        UintTy::U128 => 128,
    }
}

/// Two to the power `bits`, for a width below 128.
fn small_modulus(bits: u32) -> (m: u128)
    requires
        bits == 8 || bits == 16 || bits == 32 || bits == 64,
    ensures
        m == modulus(bits),
{
    if bits == 8 {
        0x100
    } else if bits == 16 {
        0x1_0000
    } else if bits == 32 {
        0x1_0000_0000
    } else {
        0x1_0000_0000_0000_0000
    }
}

/// Reads the low bits of `u` that an integer of type `t` has as a signed number.
pub fn sext(pointer_bits: u32, u: u128, t: IntTy) -> (r: i128)
    requires
        pointer_bits_wf(pointer_bits),
    ensures
        r == spec_sext(u, spec_int_bits(t, pointer_bits)),
{
    let bits = int_bits(pointer_bits, t);
    if bits == 128 {
        if u >= 0x8000_0000_0000_0000_0000_0000_0000_0000 {
            ((u - 0x8000_0000_0000_0000_0000_0000_0000_0000) as i128) + i128::MIN
        } else {
            u as i128
        }
    } else {
        let m = small_modulus(bits);
        let t = u % m;
        if t >= m / 2 {
            (t as i128) - (m as i128)
        } else {
            t as i128
        }
    }
}

/// The bits an integer of type `t` has of `v`, as an unsigned number.
pub fn unsext(pointer_bits: u32, v: i128, t: IntTy) -> (r: u128)
    requires
        pointer_bits_wf(pointer_bits),
    ensures
        r == spec_unsext(v as int, spec_int_bits(t, pointer_bits)),
{
    let bits = int_bits(pointer_bits, t);
    if v >= 0 {
        if bits == 128 {
            v as u128
        } else {
            (v as u128) % small_modulus(bits)
        }
    } else {
        let a = (-(v + 1)) as u128;
        if bits == 128 {
            proof {
                lemma_negative_mod(v as int, modulus(bits));
            }
            u128::MAX - a
        } else {
            let m = small_modulus(bits);
            proof {
                lemma_negative_mod(v as int, m as int);
            }
            (m - 1) - (a % m)
        }
    }
}

/// The bits an unsigned integer of type `t` has of `u`.
pub fn clip(pointer_bits: u32, u: u128, t: UintTy) -> (r: u128)
    requires
        pointer_bits_wf(pointer_bits),
    ensures
        r == u as int % modulus(spec_uint_bits(t, pointer_bits)),
{
    let bits = uint_bits(pointer_bits, t);
    if bits == 128 {
        u
    } else {
        u % small_modulus(bits)
    }
}

/// Binary operators.
#[derive(Copy, Clone, Debug, PartialEq, Eq, Structural)]
pub enum BinOp {
    Add,
    Sub,
    Mul,
    Div,
    Rem,
    And,
    Or,
    BitXor,
    BitAnd,
    BitOr,
    Shl,
    Shr,
    Eq,
    Lt,
    Le,
    Ne,
    Ge,
    Gt,
}

/// Unary operators.
#[derive(Copy, Clone, Debug, PartialEq, Eq, Structural)]
pub enum UnOp {
    Deref,
    Not,
    Neg,
}

/// A constant that an expression folds to.
#[derive(Debug)]
pub enum Constant {
    /// A string "abc".
    Str(String),
    /// A byte string b"abc".
    Binary(Vec<u8>),
    /// A character 'a'.
    Char(char),
    /// The bits of an integer.
    Int(u128),
    /// true or false.
    Bool(bool),
    /// An array of constants.
    Vec(Vec<Constant>),
    /// An array of one constant repeated the given number of times.
    Repeat(Box<Constant>, u64),
    /// A tuple of constants.
    Tuple(Vec<Constant>),
}

/// The value of a constant.
pub enum ConstantView {
    Str(Seq<char>),
    Binary(Seq<u8>),
    Char(char),
    Int(u128),
    Bool(bool),
    Vec(Seq<ConstantView>),
    Repeat(Box<ConstantView>, u64),
    Tuple(Seq<ConstantView>),
}

/// The value of a constant.
pub open spec fn cview(c: Constant) -> ConstantView
    decreases c, 0nat,
{
    match c {
        Constant::Str(s) => ConstantView::Str(s@),
        Constant::Binary(b) => ConstantView::Binary(b@),
        Constant::Char(ch) => ConstantView::Char(ch),
        Constant::Int(n) => ConstantView::Int(n),
        Constant::Bool(b) => ConstantView::Bool(b),
        Constant::Vec(v) => ConstantView::Vec(cviews(v@)),
        Constant::Repeat(b, n) => ConstantView::Repeat(Box::new(cview(*b)), n),
        Constant::Tuple(v) => ConstantView::Tuple(cviews(v@)),
    }
}

/// The values of a sequence of constants.
pub open spec fn cviews(s: Seq<Constant>) -> Seq<ConstantView>
    decreases s, 1nat,
{
    if s.len() == 0 {
        Seq::empty()
    } else {
        cviews(s.drop_last()).push(cview(s.last()))
    }
}

impl View for Constant {
    type V = ConstantView;

    open spec fn view(&self) -> ConstantView {
        cview(*self)
    }
}

/// An optional constant's value.
pub open spec fn option_view(c: Option<Constant>) -> Option<ConstantView> {
    match c {
        Some(k) => Some(k@),
        None => None,
    }
}

/// Literals.
#[derive(Debug)]
pub enum LitKind {
    Str(String),
    Byte(u8),
    ByteStr(Vec<u8>),
    Char(char),
    Int(u128),
    Bool(bool),
}

/// The expressions folding looks into; what it cannot fold is `Other`.
#[derive(Debug)]
pub enum Expr {
    /// A literal.
    Lit(LitKind),
    /// A path; the value the compiler gave the constant it names, if it names one.
    Path(Option<Constant>),
    /// A block: whether it has statements, and its final expression.
    Block(bool, Option<Box<Expr>>),
    /// `if cond { then } else { otherwise }`.
    If(Box<Expr>, Box<Expr>, Option<Box<Expr>>),
    /// `[a, b, ..]`.
    Array(Vec<Expr>),
    /// `(a, b, ..)`.
    Tup(Vec<Expr>),
    /// `[value; n]`, with the length of its type.
    Repeat(Box<Expr>, u64),
    /// A unary operation, with the type of the whole expression.
    Unary(UnOp, Box<Expr>, Ty),
    /// A binary operation, with the type of its left operand.
    Binary(BinOp, Box<Expr>, Box<Expr>, Ty),
    /// Anything else.
    Other,
}

/// The constant a literal is.
pub open spec fn lit_view(l: LitKind) -> ConstantView {
    match l {
        LitKind::Str(s) => ConstantView::Str(s@),
        LitKind::Byte(b) => ConstantView::Int(b as u128),
        LitKind::ByteStr(b) => ConstantView::Binary(b@),
        LitKind::Char(c) => ConstantView::Char(c),
        LitKind::Int(n) => ConstantView::Int(n),
        LitKind::Bool(b) => ConstantView::Bool(b),
    }
}

/// Whether `x` fits in an `i128`.
pub open spec fn in_i128(x: int) -> bool {
    i128::MIN <= x <= i128::MAX
}

/// Integer division rounding toward zero.
pub open spec fn trunc_div(x: int, d: int) -> int {
    if x == 0 {
        0
    } else if x > 0 && d > 0 {
        x / d
    } else if x < 0 && d < 0 {
        (-x) / (-d)
    } else if x < 0 {
        -((-x) / d)
    } else {
        -(x / (-d))
    }
}

/// The remainder of division rounding toward zero; it has the sign of `x`.
pub open spec fn trunc_rem(x: int, d: int) -> int {
    if x == 0 {
        0
    } else if x > 0 && d > 0 {
        x % d
    } else if x < 0 && d < 0 {
        -((-x) % (-d))
    } else if x < 0 {
        -((-x) % d)
    } else {
        x % (-d)
    }
}

/// An integer constant holding the low `bits` bits of `x`.
pub open spec fn int_of(x: int, bits: u32) -> ConstantView {
    ConstantView::Int(spec_unsext(x, bits))
}

/// The shift amount a right operand gives: its low 32 bits.
pub open spec fn shift_amount(b: int) -> int {
    b % 0x1_0000_0000
}

/// Folds `a op b` for signed operands `a` and `b` of width `bits`: the
/// operation is done on 128 bits, fails where that overflows, and keeps
/// the low `bits` bits.
pub open spec fn fold_signed(op: BinOp, a: int, b: int, bits: u32) -> Option<ConstantView> {
    match op {
        BinOp::Add => if in_i128(a + b) { Some(int_of(a + b, bits)) } else { None },
        BinOp::Sub => if in_i128(a - b) { Some(int_of(a - b, bits)) } else { None },
        BinOp::Mul => if in_i128(a * b) { Some(int_of(a * b, bits)) } else { None },
        BinOp::Div => if b != 0 && in_i128(trunc_div(a, b)) {
            Some(int_of(trunc_div(a, b), bits))
        } else {
            None
        },
        BinOp::Rem => if b != 0 && !(a == i128::MIN && b == -1) {
            Some(int_of(trunc_rem(a, b), bits))
        } else {
            None
        },
        BinOp::Shr => if shift_amount(b) < 128 {
            Some(int_of(((a as i128) >> (shift_amount(b) as u32)) as int, bits))
        } else {
            None
        },
        BinOp::Shl => if shift_amount(b) < 128 {
            Some(int_of(((a as i128) << (shift_amount(b) as u32)) as int, bits))
        } else {
            None
        },
        BinOp::BitXor => Some(int_of(((a as i128) ^ (b as i128)) as int, bits)),
        BinOp::BitOr => Some(int_of(((a as i128) | (b as i128)) as int, bits)),
        BinOp::BitAnd => Some(int_of(((a as i128) & (b as i128)) as int, bits)),
        BinOp::Eq => Some(ConstantView::Bool(a == b)),
        BinOp::Ne => Some(ConstantView::Bool(a != b)),
        BinOp::Lt => Some(ConstantView::Bool(a < b)),
        BinOp::Le => Some(ConstantView::Bool(a <= b)),
        BinOp::Ge => Some(ConstantView::Bool(a >= b)),
        BinOp::Gt => Some(ConstantView::Bool(a > b)),
        _ => None,
    }
}

/// Folds `a op b` for unsigned operands: the operation is done on 128
/// bits and fails where that overflows.
pub open spec fn fold_unsigned(op: BinOp, a: u128, b: u128) -> Option<ConstantView> {
    match op {
        BinOp::Add => if a + b <= u128::MAX { Some(ConstantView::Int((a + b) as u128)) } else { None },
        BinOp::Sub => if a >= b { Some(ConstantView::Int((a - b) as u128)) } else { None },
        BinOp::Mul => if a * b <= u128::MAX { Some(ConstantView::Int((a * b) as u128)) } else { None },
        BinOp::Div => if b != 0 { Some(ConstantView::Int(a / b)) } else { None },
        BinOp::Rem => if b != 0 { Some(ConstantView::Int(a % b)) } else { None },
        BinOp::Shr => if shift_amount(b as int) < 128 {
            Some(ConstantView::Int(a >> (shift_amount(b as int) as u32)))
        } else {
            None
        },
        BinOp::Shl => if shift_amount(b as int) < 128 {
            Some(ConstantView::Int(a << (shift_amount(b as int) as u32)))
        } else {
            None
        },
        BinOp::BitXor => Some(ConstantView::Int(a ^ b)),
        BinOp::BitOr => Some(ConstantView::Int(a | b)),
        BinOp::BitAnd => Some(ConstantView::Int(a & b)),
        BinOp::Eq => Some(ConstantView::Bool(a == b)),
        BinOp::Ne => Some(ConstantView::Bool(a != b)),
        BinOp::Lt => Some(ConstantView::Bool(a < b)),
        BinOp::Le => Some(ConstantView::Bool(a <= b)),
        BinOp::Ge => Some(ConstantView::Bool(a >= b)),
        BinOp::Gt => Some(ConstantView::Bool(a > b)),
        _ => None,
    }
}

/// Folds `l op r` where the operands are not both integers: the logical
/// operators short-circuit on their left operand, and the bit operators
/// combine two booleans.
pub open spec fn fold_other(op: BinOp, l: ConstantView, r: Option<ConstantView>) -> Option<ConstantView> {
    match (op, l) {
        (BinOp::And, ConstantView::Bool(false)) => Some(ConstantView::Bool(false)),
        (BinOp::Or, ConstantView::Bool(true)) => Some(ConstantView::Bool(true)),
        (BinOp::And, ConstantView::Bool(true)) => r,
        (BinOp::Or, ConstantView::Bool(false)) => r,
        (BinOp::BitXor, ConstantView::Bool(a)) => match r {
            Some(ConstantView::Bool(b)) => Some(ConstantView::Bool(a != b)),
            _ => None,
        },
        (BinOp::BitAnd, ConstantView::Bool(a)) => match r {
            Some(ConstantView::Bool(b)) => Some(ConstantView::Bool(a && b)),
            _ => None,
        },
        (BinOp::BitOr, ConstantView::Bool(a)) => match r {
            Some(ConstantView::Bool(b)) => Some(ConstantView::Bool(a || b)),
            _ => None,
        },
        _ => None,
    }
}

/// Folds `l op r`, where `l` has type `ty` and `r` may not be constant.
pub open spec fn spec_binop(op: BinOp, l: ConstantView, r: Option<ConstantView>, ty: Ty, pointer_bits: u32) -> Option<
    ConstantView,
> {
    match (l, r) {
        (ConstantView::Int(a), Some(ConstantView::Int(b))) => match ty {
            Ty::Int(t) => {
                let bits = spec_int_bits(t, pointer_bits);
                fold_signed(op, spec_sext(a, bits), spec_sext(b, bits), bits)
            },
            Ty::Uint(_) => fold_unsigned(op, a, b),
            Ty::Other => None,
        },
        _ => fold_other(op, l, r),
    }
}

/// Folds `!o` where the expression has type `ty`.
pub open spec fn spec_not(o: ConstantView, ty: Ty, pointer_bits: u32) -> Option<ConstantView> {
    match o {
        ConstantView::Bool(b) => Some(ConstantView::Bool(!b)),
        ConstantView::Int(v) => match ty {
            Ty::Int(t) => Some(int_of(u128::MAX - v, spec_int_bits(t, pointer_bits))),
            Ty::Uint(t) => Some(
                ConstantView::Int(((u128::MAX - v) % modulus(spec_uint_bits(t, pointer_bits))) as u128),
            ),
            Ty::Other => None,
        },
        _ => None,
    }
}

/// Folds `-o` where the expression has type `ty`: only signed integers negate.
pub open spec fn spec_negate(o: ConstantView, ty: Ty, pointer_bits: u32) -> Option<ConstantView> {
    match (o, ty) {
        (ConstantView::Int(v), Ty::Int(t)) => {
            let bits = spec_int_bits(t, pointer_bits);
            let a = spec_sext(v, bits);
            if a == i128::MIN {
                None
            } else {
                Some(int_of(-a, bits))
            }
        },
        _ => None,
    }
}

/// Folds a unary operation on `o`.
pub open spec fn spec_unop(op: UnOp, o: ConstantView, ty: Ty, pointer_bits: u32) -> Option<ConstantView> {
    match op {
        UnOp::Not => spec_not(o, ty, pointer_bits),
        UnOp::Neg => spec_negate(o, ty, pointer_bits),
        UnOp::Deref => Some(o),
    }
}

/// What an expression folds to, and whether folding it read the value of a
/// named constant. Operands are folded left to right, and folding stops at
/// the first that is not constant.
pub open spec fn eval(e: Expr, pointer_bits: u32) -> (Option<ConstantView>, bool)
    decreases e, 0nat,
{
    match e {
        Expr::Lit(l) => (Some(lit_view(l)), false),
        Expr::Path(c) => match c {
            Some(k) => (Some(k@), true),
            None => (None, false),
        },
        Expr::Block(has_statements, x) => if has_statements {
            (None, false)
        } else {
            match x {
                Some(b) => eval(*b, pointer_bits),
                None => (None, false),
            }
        },
        Expr::If(c, t, o) => {
            let (cv, f0) = eval(*c, pointer_bits);
            match cv {
                Some(ConstantView::Bool(true)) => {
                    let (r, f1) = eval(*t, pointer_bits);
                    (r, f0 || f1)
                },
                Some(ConstantView::Bool(false)) => match o {
                    Some(x) => {
                        let (r, f1) = eval(*x, pointer_bits);
                        (r, f0 || f1)
                    },
                    None => (None, f0),
                },
                _ => (None, f0),
            }
        },
        Expr::Array(v) => {
            let (cs, f) = eval_all(v@, pointer_bits);
            match cs {
                Some(s) => (Some(ConstantView::Vec(s)), f),
                None => (None, f),
            }
        },
        Expr::Tup(v) => {
            let (cs, f) = eval_all(v@, pointer_bits);
            match cs {
                Some(s) => (Some(ConstantView::Tuple(s)), f),
                None => (None, f),
            }
        },
        Expr::Repeat(x, n) => {
            let (c, f) = eval(*x, pointer_bits);
            match c {
                Some(k) => (Some(ConstantView::Repeat(Box::new(k), n)), f),
                None => (None, f),
            }
        },
        Expr::Unary(op, x, ty) => {
            let (c, f) = eval(*x, pointer_bits);
            match c {
                Some(k) => (spec_unop(op, k, ty, pointer_bits), f),
                None => (None, f),
            }
        },
        Expr::Binary(op, l, r, ty) => {
            let (lc, f0) = eval(*l, pointer_bits);
            match lc {
                Some(lv) => {
                    let (rc, f1) = eval(*r, pointer_bits);
                    (spec_binop(op, lv, rc, ty, pointer_bits), f0 || f1)
                },
                None => (None, f0),
            }
        },
        Expr::Other => (None, false),
    }
}

/// Folds expressions left to right, stopping at the first that is not constant.
pub open spec fn eval_all(es: Seq<Expr>, pointer_bits: u32) -> (Option<Seq<ConstantView>>, bool)
    decreases es, 1nat,
{
    if es.len() == 0 {
        (Some(Seq::empty()), false)
    } else {
        let (p, f) = eval_all(es.drop_last(), pointer_bits);
        match p {
            None => (None, f),
            Some(cs) => {
                let (c, g) = eval(es.last(), pointer_bits);
                match c {
                    Some(k) => (Some(cs.push(k)), f || g),
                    None => (None, f || g),
                }
            },
        }
    }
}

/// The low `bits` bits of `u`.
fn low_bits(u: u128, bits: u32) -> (r: u128)
    requires
        bits == 8 || bits == 16 || bits == 32 || bits == 64 || bits == 128,
    ensures
        r == u as int % modulus(bits),
{
    if bits == 128 {
        u
    } else {
        u % small_modulus(bits)
    }
}

/// The shift amount a signed right operand gives.
fn signed_shift_amount(b: i128) -> (s: u32)
    ensures
        s == shift_amount(b as int),
{
    if b >= 0 {
        (b % 0x1_0000_0000) as u32
    } else {
        let a = -(b + 1);
        proof {
            lemma_negative_mod(b as int, 0x1_0000_0000);
        }
        (0xFFFF_FFFFi128 - (a % 0x1_0000_0000)) as u32
    }
}

/// The constant a literal is.
pub fn lit_to_constant(lit: &LitKind) -> (r: Constant)
    ensures
        r@ == lit_view(*lit),
{
    match lit {
        LitKind::Str(s) => Constant::Str(s.clone()),
        LitKind::Byte(b) => Constant::Int(*b as u128),
        LitKind::ByteStr(b) => {
            let c = b.clone();
            proof {
                assert(c@ =~= b@);
            }
            Constant::Binary(c)
        },
        LitKind::Char(c) => Constant::Char(*c),
        LitKind::Int(n) => Constant::Int(*n),
        LitKind::Bool(b) => Constant::Bool(*b),
    }
}

/// A copy of a constant.
pub fn clone_constant(c: &Constant) -> (r: Constant)
    ensures
        r@ == c@,
    decreases c,
{
    match c {
        Constant::Str(s) => Constant::Str(s.clone()),
        Constant::Binary(b) => {
            let d = b.clone();
            proof {
                assert(d@ =~= b@);
            }
            Constant::Binary(d)
        },
        Constant::Char(ch) => Constant::Char(*ch),
        Constant::Int(n) => Constant::Int(*n),
        Constant::Bool(b) => Constant::Bool(*b),
        Constant::Vec(v) => Constant::Vec(clone_constants(v)),
        Constant::Repeat(b, n) => Constant::Repeat(Box::new(clone_constant(&**b)), *n),
        Constant::Tuple(v) => Constant::Tuple(clone_constants(v)),
    }
}

/// Copies of constants.
fn clone_constants(v: &Vec<Constant>) -> (r: Vec<Constant>)
    ensures
        cviews(r@) == cviews(v@),
    decreases v@, 0nat,
{
    let mut out: Vec<Constant> = Vec::new();
    let mut i: usize = 0;
    while i < v.len()
        invariant
            i <= v@.len(),
            cviews(out@) == cviews(v@.take(i as int)),
        decreases v@.len() - i,
    {
        proof {
            assert(decreases_to!(v@ => v@[i as int]));
        }
        let c = clone_constant(&v[i]);
        let ghost before = out@;
        out.push(c);
        proof {
            assert(out@.drop_last() =~= before);
            assert(v@.take(i + 1).drop_last() =~= v@.take(i as int));
        }
        i = i + 1;
    }
    proof {
        assert(v@.take(v@.len() as int) =~= v@);
    }
    out
}

/// Folds `a op b` for signed operands of type `t`.
fn fold_signed_exec(op: BinOp, a: i128, b: i128, pointer_bits: u32, t: IntTy) -> (r: Option<Constant>)
    requires
        pointer_bits_wf(pointer_bits),
    ensures
        option_view(r) == fold_signed(op, a as int, b as int, spec_int_bits(t, pointer_bits)),
{
    match op {
        BinOp::Add => match a.checked_add(b) {
            Some(v) => Some(Constant::Int(unsext(pointer_bits, v, t))),
            None => None,
        },
        BinOp::Sub => match a.checked_sub(b) {
            Some(v) => Some(Constant::Int(unsext(pointer_bits, v, t))),
            None => None,
        },
        BinOp::Mul => match a.checked_mul(b) {
            Some(v) => Some(Constant::Int(unsext(pointer_bits, v, t))),
            None => None,
        },
        BinOp::Div => if b != 0 {
            match a.checked_div(b) {
                Some(v) => Some(Constant::Int(unsext(pointer_bits, v, t))),
                None => None,
            }
        } else {
            None
        },
        BinOp::Rem => if b != 0 {
            match a.checked_rem(b) {
                Some(v) => Some(Constant::Int(unsext(pointer_bits, v, t))),
                None => None,
            }
        } else {
            None
        },
        BinOp::Shr => {
            let s = signed_shift_amount(b);
            if s < 128 {
                Some(Constant::Int(unsext(pointer_bits, a >> s, t)))
            } else {
                None
            }
        },
        BinOp::Shl => {
            let s = signed_shift_amount(b);
            if s < 128 {
                Some(Constant::Int(unsext(pointer_bits, a << s, t)))
            } else {
                None
            }
        },
        BinOp::BitXor => Some(Constant::Int(unsext(pointer_bits, a ^ b, t))),
        BinOp::BitOr => Some(Constant::Int(unsext(pointer_bits, a | b, t))),
        BinOp::BitAnd => Some(Constant::Int(unsext(pointer_bits, a & b, t))),
        BinOp::Eq => Some(Constant::Bool(a == b)),
        BinOp::Ne => Some(Constant::Bool(a != b)),
        BinOp::Lt => Some(Constant::Bool(a < b)),
        BinOp::Le => Some(Constant::Bool(a <= b)),
        BinOp::Ge => Some(Constant::Bool(a >= b)),
        BinOp::Gt => Some(Constant::Bool(a > b)),
        _ => None,
    }
}

/// Folds `a op b` for unsigned operands.
fn fold_unsigned_exec(op: BinOp, a: u128, b: u128) -> (r: Option<Constant>)
    ensures
        option_view(r) == fold_unsigned(op, a, b),
{
    match op {
        BinOp::Add => match a.checked_add(b) {
            Some(v) => Some(Constant::Int(v)),
            None => None,
        },
        BinOp::Sub => match a.checked_sub(b) {
            Some(v) => Some(Constant::Int(v)),
            None => None,
        },
        BinOp::Mul => match a.checked_mul(b) {
            Some(v) => Some(Constant::Int(v)),
            None => None,
        },
        BinOp::Div => match a.checked_div(b) {
            Some(v) => Some(Constant::Int(v)),
            None => None,
        },
        BinOp::Rem => match a.checked_rem(b) {
            Some(v) => Some(Constant::Int(v)),
            None => None,
        },
        BinOp::Shr => {
            let s = (b % 0x1_0000_0000) as u32;
            if s < 128 {
                Some(Constant::Int(a >> s))
            } else {
                None
            }
        },
        BinOp::Shl => {
            let s = (b % 0x1_0000_0000) as u32;
            if s < 128 {
                Some(Constant::Int(a << s))
            } else {
                None
            }
        },
        BinOp::BitXor => Some(Constant::Int(a ^ b)),
        BinOp::BitOr => Some(Constant::Int(a | b)),
        BinOp::BitAnd => Some(Constant::Int(a & b)),
        BinOp::Eq => Some(Constant::Bool(a == b)),
        BinOp::Ne => Some(Constant::Bool(a != b)),
        BinOp::Lt => Some(Constant::Bool(a < b)),
        BinOp::Le => Some(Constant::Bool(a <= b)),
        BinOp::Ge => Some(Constant::Bool(a >= b)),
        BinOp::Gt => Some(Constant::Bool(a > b)),
        _ => None,
    }
}

/// Folds `l op r` where the operands are not both integers.
fn fold_other_exec(op: BinOp, l: Constant, r: Option<Constant>) -> (res: Option<Constant>)
    ensures
        option_view(res) == fold_other(op, l@, option_view(r)),
{
    match op {
        BinOp::And => match l {
            Constant::Bool(false) => Some(Constant::Bool(false)),
            Constant::Bool(true) => r,
            _ => None,
        },
        BinOp::Or => match l {
            Constant::Bool(true) => Some(Constant::Bool(true)),
            Constant::Bool(false) => r,
            _ => None,
        },
        BinOp::BitXor | BinOp::BitAnd | BinOp::BitOr => match (l, r) {
            (Constant::Bool(a), Some(Constant::Bool(b))) => Some(
                Constant::Bool(
                    match op {
                        BinOp::BitXor => a != b,
                        BinOp::BitAnd => a && b,
                        _ => a || b,
                    },
                ),
            ),
            _ => None,
        },
        _ => None,
    }
}

/// Folds `l op r`, where `l` has type `ty` and `r` may not be constant.
pub fn binop(op: BinOp, l: Constant, r: Option<Constant>, ty: Ty, pointer_bits: u32) -> (res: Option<Constant>)
    requires
        pointer_bits_wf(pointer_bits),
    ensures
        option_view(res) == spec_binop(op, l@, option_view(r), ty, pointer_bits),
{
    if let Constant::Int(a) = l {
        if let Some(Constant::Int(b)) = r {
            return match ty {
                Ty::Int(t) => {
                    let x = sext(pointer_bits, a, t);
                    let y = sext(pointer_bits, b, t);
                    fold_signed_exec(op, x, y, pointer_bits, t)
                },
                Ty::Uint(_) => fold_unsigned_exec(op, a, b),
                Ty::Other => None,
            };
        }
    }
    fold_other_exec(op, l, r)
}

/// Folds `!o` where the expression has type `ty`.
pub fn constant_not(o: &Constant, ty: Ty, pointer_bits: u32) -> (r: Option<Constant>)
    requires
        pointer_bits_wf(pointer_bits),
    ensures
        option_view(r) == spec_not(o@, ty, pointer_bits),
{
    match o {
        Constant::Bool(b) => Some(Constant::Bool(!*b)),
        Constant::Int(v) => {
            let value = !*v;
            proof {
                let w = *v;
                assert(!w == u128::MAX - w) by (bit_vector);
            }
            match ty {
                Ty::Int(t) => Some(Constant::Int(low_bits(value, int_bits(pointer_bits, t)))),
                Ty::Uint(t) => Some(Constant::Int(low_bits(value, uint_bits(pointer_bits, t)))),
                Ty::Other => None,
            }
        },
        _ => None,
    }
}

/// Folds `-o` where the expression has type `ty`.
pub fn constant_negate(o: &Constant, ty: Ty, pointer_bits: u32) -> (r: Option<Constant>)
    requires
        pointer_bits_wf(pointer_bits),
    ensures
        option_view(r) == spec_negate(o@, ty, pointer_bits),
{
    match (o, ty) {
        (Constant::Int(v), Ty::Int(t)) => {
            let value = sext(pointer_bits, *v, t);
            if value == i128::MIN {
                None
            } else {
                Some(Constant::Int(unsext(pointer_bits, -value, t)))
            }
        },
        _ => None,
    }
}

/// The state of a folding: the target's pointer width, and whether the
/// value of a named constant was read.
pub struct ConstEvalLateContext {
    pub pointer_bits: u32,
    pub needed_resolution: bool,
}

impl ConstEvalLateContext {
    /// Folds an expression into a constant, if it is one.
    pub fn expr(&mut self, e: &Expr) -> (r: Option<Constant>)
        requires
            pointer_bits_wf(old(self).pointer_bits),
        ensures
            final(self).pointer_bits == old(self).pointer_bits,
            final(self).needed_resolution == (old(self).needed_resolution || eval(
                *e,
                old(self).pointer_bits,
            ).1),
            option_view(r) == eval(*e, old(self).pointer_bits).0,
        decreases e, 1nat,
    {
        let pb = self.pointer_bits;
        match e {
            Expr::Lit(l) => Some(lit_to_constant(l)),
            Expr::Path(value) => self.fetch_path(value),
            Expr::Block(has_statements, x) => {
                if *has_statements {
                    None
                } else {
                    match x {
                        Some(b) => self.expr(&**b),
                        None => None,
                    }
                }
            },
            Expr::If(c, t, o) => {
                let cv = self.expr(&**c);
                match cv {
                    Some(Constant::Bool(b)) => {
                        if b {
                            self.expr(&**t)
                        } else {
                            match o {
                                Some(x) => self.expr(&**x),
                                None => None,
                            }
                        }
                    },
                    _ => None,
                }
            },
            Expr::Array(v) => match self.multi(v) {
                Some(cs) => Some(Constant::Vec(cs)),
                None => None,
            },
            Expr::Tup(v) => match self.multi(v) {
                Some(cs) => Some(Constant::Tuple(cs)),
                None => None,
            },
            Expr::Repeat(x, n) => match self.expr(&**x) {
                Some(c) => Some(Constant::Repeat(Box::new(c), *n)),
                None => None,
            },
            Expr::Unary(op, x, ty) => match self.expr(&**x) {
                Some(o) => match op {
                    UnOp::Not => constant_not(&o, *ty, pb),
                    UnOp::Neg => constant_negate(&o, *ty, pb),
                    UnOp::Deref => Some(o),
                },
                None => None,
            },
            Expr::Binary(op, l, r, ty) => {
                let lc = match self.expr(&**l) {
                    Some(c) => c,
                    None => {
                        return None;
                    },
                };
                let rc = self.expr(&**r);
                binop(*op, lc, rc, *ty, pb)
            },
            Expr::Other => None,
        }
    }

    /// Folds expressions left to right, stopping at the first that is not constant.
    fn multi(&mut self, v: &Vec<Expr>) -> (r: Option<Vec<Constant>>)
        requires
            pointer_bits_wf(old(self).pointer_bits),
        ensures
            final(self).pointer_bits == old(self).pointer_bits,
            final(self).needed_resolution == (old(self).needed_resolution || eval_all(
                v@,
                old(self).pointer_bits,
            ).1),
            match r {
                Some(cs) => eval_all(v@, old(self).pointer_bits).0 == Some(cviews(cs@)),
                None => eval_all(v@, old(self).pointer_bits).0 is None,
            },
        decreases v@, 0nat,
    {
        let ghost pb = self.pointer_bits;
        let ghost start = self.needed_resolution;
        let mut out: Vec<Constant> = Vec::new();
        let mut i: usize = 0;
        while i < v.len()
            invariant
                i <= v@.len(),
                self.pointer_bits == pb,
                pb == old(self).pointer_bits,
                start == old(self).needed_resolution,
                pointer_bits_wf(pb),
                eval_all(v@.take(i as int), pb).0 == Some(cviews(out@)),
                self.needed_resolution == (start || eval_all(v@.take(i as int), pb).1),
            decreases v@.len() - i,
        {
            proof {
                assert(decreases_to!(v@ => v@[i as int]));
                assert(v@.take(i + 1).drop_last() =~= v@.take(i as int));
                assert(v@.take(i + 1).last() == v@[i as int]);
            }
            match self.expr(&v[i]) {
                Some(c) => {
                    let ghost before = out@;
                    out.push(c);
                    proof {
                        assert(out@.drop_last() =~= before);
                    }
                },
                None => {
                    proof {
                        lemma_eval_all_stops(v@, i as int, pb);
                    }
                    return None;
                },
            }
            i = i + 1;
        }
        proof {
            assert(v@.take(v@.len() as int) =~= v@);
        }
        Some(out)
    }

    /// The value the compiler gave the constant a path names, if it names one.
    fn fetch_path(&mut self, value: &Option<Constant>) -> (r: Option<Constant>)
        ensures
            final(self).pointer_bits == old(self).pointer_bits,
            final(self).needed_resolution == (old(self).needed_resolution || value is Some),
            option_view(r) == option_view(*value),
    {
        match value {
            Some(c) => {
                self.needed_resolution = true;
                Some(clone_constant(c))
            },
            None => None,
        }
    }
}

/// Once one expression of a sequence does not fold, neither does the whole,
/// and the expressions after it are not looked at.
proof fn lemma_eval_all_stops(es: Seq<Expr>, i: int, pointer_bits: u32)
    requires
        0 <= i < es.len(),
        eval_all(es.take(i), pointer_bits).0 is Some,
        eval(es[i], pointer_bits).0 is None,
    ensures
        eval_all(es, pointer_bits).0 is None,
        eval_all(es, pointer_bits).1 == (eval_all(es.take(i), pointer_bits).1 || eval(
            es[i],
            pointer_bits,
        ).1),
    decreases es.len() - i,
{
    assert(es.take(i + 1).drop_last() =~= es.take(i));
    assert(es.take(i + 1).last() == es[i]);
    if i + 1 < es.len() {
        lemma_eval_all_none_extends(es, i + 1, pointer_bits);
    } else {
        assert(es.take(i + 1) =~= es);
    }
}

/// A prefix that does not fold keeps the whole from folding, with the same flag.
proof fn lemma_eval_all_none_extends(es: Seq<Expr>, k: int, pointer_bits: u32)
    requires
        0 <= k <= es.len(),
        eval_all(es.take(k), pointer_bits).0 is None,
    ensures
        eval_all(es, pointer_bits) == eval_all(es.take(k), pointer_bits),
    decreases es.len() - k,
{
    if k < es.len() {
        assert(es.take(k + 1).drop_last() =~= es.take(k));
        lemma_eval_all_none_extends(es, k + 1, pointer_bits);
    } else {
        assert(es.take(k) =~= es);
    }
}

/// Folds an expression for a target with `pointer_bits`-bit pointers: the
/// constant, and whether the value of a named constant was read.
pub fn constant(pointer_bits: u32, e: &Expr) -> (r: Option<(Constant, bool)>)
    requires
        pointer_bits_wf(pointer_bits),
    ensures
        match r {
            Some((c, resolved)) => eval(*e, pointer_bits).0 == Some(c@) && resolved == eval(
                *e,
                pointer_bits,
            ).1,
            None => eval(*e, pointer_bits).0 is None,
        },
{
    let mut cx = ConstEvalLateContext { pointer_bits, needed_resolution: false };
    match cx.expr(e) {
        Some(c) => Some((c, cx.needed_resolution)),
        None => None,
    }
}

/// Folds an expression that needs no named constant's value.
pub fn constant_simple(pointer_bits: u32, e: &Expr) -> (r: Option<Constant>)
    requires
        pointer_bits_wf(pointer_bits),
    ensures
        match r {
            Some(c) => eval(*e, pointer_bits) == (Some(c@), false),
            None => eval(*e, pointer_bits).0 is None || eval(*e, pointer_bits).1,
        },
{
    match constant(pointer_bits, e) {
        Some((c, resolved)) => if resolved {
            None
        } else {
            Some(c)
        },
        None => None,
    }
}

/// A fresh folding state for a target with `pointer_bits`-bit pointers.
pub fn constant_context(pointer_bits: u32) -> (r: ConstEvalLateContext)
    ensures
        r.pointer_bits == pointer_bits,
        !r.needed_resolution,
{
    ConstEvalLateContext { pointer_bits, needed_resolution: false }
}

/// The compiler's type of an evaluated constant, as far as reading it goes.
#[derive(Copy, Clone, Debug, PartialEq, Eq, Structural)]
pub enum ConstTy {
    Bool,
    /// A signed or unsigned integer type.
    Int,
    Float32,
    Float64,
    /// A reference to `str`.
    StrRef,
    /// Any other type.
    Other,
}

/// The value the compiler's evaluation gave a constant.
#[derive(Debug)]
pub enum ConstValue {
    /// A value held in bits.
    Bytes(u128),
    /// A pointer into an allocation with a length: the allocation's bytes,
    /// the pointer's offset, and the length.
    Slice(Vec<u8>, u64, u128),
    /// Any other value.
    Other,
}

/// A constant read from the compiler's evaluation: a folded constant, or
/// the bits of a float, which the caller turns into the float.
#[derive(Debug)]
pub enum EvaluatedConst {
    Const(Constant),
    F32Bits(u32),
    F64Bits(u64),
}

/// The value of an [`EvaluatedConst`].
pub enum EvaluatedView {
    Const(ConstantView),
    F32Bits(u32),
    F64Bits(u64),
}

/// The text that UTF-8 decoding makes of `bytes`, where they are valid UTF-8.
pub uninterp spec fn utf8_text(bytes: Seq<u8>) -> Option<Seq<char>>;

/// An optional string's text.
pub open spec fn opt_string_view(s: Option<String>) -> Option<Seq<char>> {
    match s {
        Some(t) => Some(t@),
        None => None,
    }
}

/// Decodes `bytes` as UTF-8 with `String::from_utf8`; the contract names
/// the result, which depends on the bytes alone, and says nothing of which
/// byte sequences decode or to what.
#[verifier::external_body]
fn decode_utf8(bytes: Vec<u8>) -> (r: Option<String>)
    ensures
        opt_string_view(r) == utf8_text(bytes@),
{
    String::from_utf8(bytes).ok()
}

/// Whether reading a slice value does not run past its allocation.
pub open spec fn slice_in_bounds(val: ConstValue) -> bool {
    val matches ConstValue::Slice(bytes, offset, len) ==> offset + len <= bytes@.len()
}

/// The constant the compiler's evaluation `val` of type `ty` stands for:
/// a boolean is the bit 1, an integer its bits, a float the low bits of
/// its width, a `&str` the UTF-8 text of the bytes its pointer and length
/// cover; anything else, or text that is not UTF-8, is none.
pub open spec fn evaluated(val: ConstValue, ty: ConstTy) -> Option<EvaluatedView> {
    match val {
        ConstValue::Bytes(b) => match ty {
            ConstTy::Bool => Some(EvaluatedView::Const(ConstantView::Bool(b == 1))),
            ConstTy::Int => Some(EvaluatedView::Const(ConstantView::Int(b))),
            ConstTy::Float32 => Some(EvaluatedView::F32Bits(b as u32)),
            ConstTy::Float64 => Some(EvaluatedView::F64Bits(b as u64)),
            _ => None,
        },
        ConstValue::Slice(bytes, offset, len) => match ty {
            ConstTy::StrRef => match utf8_text(bytes@.subrange(offset as int, offset + len)) {
                Some(t) => Some(EvaluatedView::Const(ConstantView::Str(t))),
                None => None,
            },
            _ => None,
        },
        ConstValue::Other => None,
    }
}

/// The value of an optional evaluated constant.
pub open spec fn evaluated_view(c: Option<EvaluatedConst>) -> Option<EvaluatedView> {
    match c {
        Some(EvaluatedConst::Const(k)) => Some(EvaluatedView::Const(k@)),
        Some(EvaluatedConst::F32Bits(b)) => Some(EvaluatedView::F32Bits(b)),
        Some(EvaluatedConst::F64Bits(b)) => Some(EvaluatedView::F64Bits(b)),
        None => None,
    }
}

/// Reads the compiler's evaluation `val` of a constant of type `ty`; a
/// slice must lie within its allocation.
pub fn miri_to_const(val: &ConstValue, ty: ConstTy) -> (r: Option<EvaluatedConst>)
    requires
        slice_in_bounds(*val),
    ensures
        evaluated_view(r) == evaluated(*val, ty),
{
    match val {
        ConstValue::Bytes(b) => match ty {
            ConstTy::Bool => Some(EvaluatedConst::Const(Constant::Bool(*b == 1))),
            ConstTy::Int => Some(EvaluatedConst::Const(Constant::Int(*b))),
            ConstTy::Float32 => Some(EvaluatedConst::F32Bits(*b as u32)),
            ConstTy::Float64 => Some(EvaluatedConst::F64Bits(*b as u64)),
            _ => None,
        },
        ConstValue::Slice(bytes, offset, len) => match ty {
            ConstTy::StrRef => {
                let n = bytes.len();
                assert(*offset + *len <= n);
                let start = *offset as usize;
                let end = start + *len as usize;
                let mut piece: Vec<u8> = Vec::new();
                let mut i = start;
                while i < end
                    invariant
                        start <= i <= end,
                        end <= bytes@.len(),
                        start == *offset,
                        end == *offset + *len,
                        piece@ == bytes@.subrange(start as int, i as int),
                    decreases end - i,
                {
                    piece.push(bytes[i]);
                    proof {
                        assert(piece@ =~= bytes@.subrange(start as int, i + 1));
                    }
                    i = i + 1;
                }
                match decode_utf8(piece) {
                    Some(t) => Some(EvaluatedConst::Const(Constant::Str(t))),
                    None => None,
                }
            },
            _ => None,
        },
        ConstValue::Other => None,
    }
}

/// Folding a comparison of two unsigned integers gives the truth of that
/// comparison: `<` and `==` are the order and equality of the operands,
/// `>` and `>=` are `<` and `<=` with the operands swapped, `!=` is the
/// negation of `==`, and an operand is `<=` and `>=` itself but not `<` or `>`.
pub proof fn law_unsigned_comparisons(a: u128, b: u128)
    ensures
        fold_unsigned(BinOp::Lt, a, b) == Some(ConstantView::Bool(a < b)),
        fold_unsigned(BinOp::Eq, a, b) == Some(ConstantView::Bool(a == b)),
        fold_unsigned(BinOp::Gt, a, b) == fold_unsigned(BinOp::Lt, b, a),
        fold_unsigned(BinOp::Ge, a, b) == fold_unsigned(BinOp::Le, b, a),
        fold_unsigned(BinOp::Le, a, b) == Some(ConstantView::Bool(a < b || a == b)),
        fold_unsigned(BinOp::Ne, a, b) == Some(ConstantView::Bool(!(a == b))),
        fold_unsigned(BinOp::Ge, a, a) == Some(ConstantView::Bool(true)),
        fold_unsigned(BinOp::Le, a, a) == Some(ConstantView::Bool(true)),
        fold_unsigned(BinOp::Gt, a, a) == Some(ConstantView::Bool(false)),
        fold_unsigned(BinOp::Lt, a, a) == Some(ConstantView::Bool(false)),
{
}

/// Folding a comparison of two signed integers gives the truth of that
/// comparison, in the same way as for unsigned ones.
pub proof fn law_signed_comparisons(a: int, b: int, bits: u32)
    ensures
        fold_signed(BinOp::Lt, a, b, bits) == Some(ConstantView::Bool(a < b)),
        fold_signed(BinOp::Eq, a, b, bits) == Some(ConstantView::Bool(a == b)),
        fold_signed(BinOp::Gt, a, b, bits) == fold_signed(BinOp::Lt, b, a, bits),
        fold_signed(BinOp::Ge, a, b, bits) == fold_signed(BinOp::Le, b, a, bits),
        fold_signed(BinOp::Le, a, b, bits) == Some(ConstantView::Bool(a < b || a == b)),
        fold_signed(BinOp::Ne, a, b, bits) == Some(ConstantView::Bool(!(a == b))),
        fold_signed(BinOp::Ge, a, a, bits) == Some(ConstantView::Bool(true)),
        fold_signed(BinOp::Le, a, a, bits) == Some(ConstantView::Bool(true)),
        fold_signed(BinOp::Gt, a, a, bits) == Some(ConstantView::Bool(false)),
        fold_signed(BinOp::Lt, a, a, bits) == Some(ConstantView::Bool(false)),
{
}

/// Folding unsigned arithmetic computes it: `+`, `*`, `&`, `|` and `^` do
/// not depend on the order of the operands; `+` succeeds exactly when the sum
/// fits, and subtracting the second operand from it gives the first back;
/// `-` succeeds exactly when it does not go below zero; `*` exactly when
/// the product fits; `/` and `%` fail on zero and otherwise give a quotient
/// and a remainder below the divisor that make up the dividend.
pub proof fn law_unsigned_arithmetic(a: u128, b: u128)
    ensures
        fold_unsigned(BinOp::Add, a, b) == fold_unsigned(BinOp::Add, b, a),
        fold_unsigned(BinOp::Mul, a, b) == fold_unsigned(BinOp::Mul, b, a),
        fold_unsigned(BinOp::BitAnd, a, b) == fold_unsigned(BinOp::BitAnd, b, a),
        fold_unsigned(BinOp::BitOr, a, b) == fold_unsigned(BinOp::BitOr, b, a),
        fold_unsigned(BinOp::BitXor, a, b) == fold_unsigned(BinOp::BitXor, b, a),
        fold_unsigned(BinOp::Add, a, b) is Some <==> a + b <= u128::MAX,
        fold_unsigned(BinOp::Add, a, b) matches Some(ConstantView::Int(c)) ==> fold_unsigned(
            BinOp::Sub,
            c,
            b,
        ) == Some(ConstantView::Int(a)),
        fold_unsigned(BinOp::Sub, a, b) is Some <==> a >= b,
        fold_unsigned(BinOp::Mul, a, b) is Some <==> a * b <= u128::MAX,
        b == 0 ==> fold_unsigned(BinOp::Div, a, b) is None && fold_unsigned(BinOp::Rem, a, b) is None,
        b != 0 ==> (fold_unsigned(BinOp::Div, a, b) matches Some(ConstantView::Int(q)) && fold_unsigned(
            BinOp::Rem,
            a,
            b,
        ) matches Some(ConstantView::Int(r)) && q * b + r == a && r < b),
{
    assert(a & b == b & a && a | b == b | a && a ^ b == b ^ a) by (bit_vector);
    assert(a * b == b * a) by (nonlinear_arith);
    if b != 0 {
        vstd::arithmetic::div_mod::lemma_fundamental_div_mod(a as int, b as int);
        assert((a / b) * b == b * (a / b)) by (nonlinear_arith);
    }
}

} // verus!
