use rust_tools::mutex_atomic::{get_atomic_name, AtomicName, MutexAtomic, MutexLint, MutexParam};
use rust_tools::bit_mask::{check_bit_mask, check_ineffective_gt, check_ineffective_lt, invert_cmp, is_power_of_two, BitMask, BitMaskLint, Relation};
use rust_tools::consts::{binop, clip, constant, constant_negate, constant_not, constant_simple, sext, unsext, BinOp, Constant, Expr, IntTy, LitKind, Ty, UintTy, UnOp};
use rust_tools::int_plus_one::{AstExpr, AstExprKind, AstLit, IntPlusOne, Side};

fn lit_int(n: u128) -> Expr {
    Expr::Lit(LitKind::Int(n))
}

fn bin(op: BinOp, l: Expr, r: Expr, ty: Ty) -> Expr {
    Expr::Binary(op, Box::new(l), Box::new(r), ty)
}

fn folded_int(e: &Expr) -> Option<u128> {
    match constant(64, e) {
        Some((Constant::Int(n), _)) => Some(n),
        _ => None,
    }
}

fn folded_bool(e: &Expr) -> Option<bool> {
    match constant(64, e) {
        Some((Constant::Bool(b), _)) => Some(b),
        _ => None,
    }
}

#[test]
fn sign_extension_helpers() {
    assert_eq!(sext(64, 0xff, IntTy::I8), -1);
    assert_eq!(sext(64, 0x7f, IntTy::I8), 127);
    assert_eq!(sext(64, 0x1_80, IntTy::I8), -128);
    assert_eq!(sext(32, 0xffff_ffff, IntTy::Isize), -1);
    assert_eq!(sext(64, u128::MAX, IntTy::I128), -1);
    assert_eq!(unsext(64, -1, IntTy::I16), 0xffff);
    assert_eq!(unsext(64, -1, IntTy::I128), u128::MAX);
    assert_eq!(unsext(64, 300, IntTy::I8), 44);
    assert_eq!(clip(64, 0x1_23, UintTy::U8), 0x23);
    assert_eq!(clip(16, 0x12_3456, UintTy::Usize), 0x3456);
}

#[test]
fn integer_folding_follows_the_type() {
    let i8t = Ty::Int(IntTy::I8);
    let u8t = Ty::Uint(UintTy::U8);
    assert_eq!(folded_int(&bin(BinOp::Add, lit_int(1), lit_int(2), i8t)), Some(3));
    assert_eq!(folded_int(&bin(BinOp::Add, lit_int(127), lit_int(1), i8t)), Some(0x80));
    assert_eq!(folded_int(&bin(BinOp::Sub, lit_int(0), lit_int(1), i8t)), Some(0xff));
    assert_eq!(folded_int(&bin(BinOp::Add, lit_int(255), lit_int(1), u8t)), Some(256));
    assert_eq!(folded_int(&bin(BinOp::Sub, lit_int(0), lit_int(1), u8t)), None);
    assert_eq!(folded_int(&bin(BinOp::Div, lit_int(7), lit_int(0), u8t)), None);
    assert_eq!(folded_int(&bin(BinOp::Div, lit_int(0xf9), lit_int(2), i8t)), Some(0xfd));
    assert_eq!(folded_int(&bin(BinOp::Rem, lit_int(0xf9), lit_int(2), i8t)), Some(0xff));
    assert_eq!(folded_int(&bin(BinOp::Shl, lit_int(1), lit_int(3), u8t)), Some(8));
    assert_eq!(folded_int(&bin(BinOp::Shr, lit_int(0x80), lit_int(7), i8t)), Some(0xff));
    assert_eq!(folded_int(&bin(BinOp::Shr, lit_int(1), lit_int(200), u8t)), None);
    assert_eq!(folded_int(&bin(BinOp::BitAnd, lit_int(0b1100), lit_int(0b1010), u8t)), Some(0b1000));
    assert_eq!(folded_bool(&bin(BinOp::Lt, lit_int(0xff), lit_int(0), i8t)), Some(true));
    assert_eq!(folded_bool(&bin(BinOp::Lt, lit_int(0xff), lit_int(0), u8t)), Some(false));
    assert_eq!(folded_int(&bin(BinOp::Add, lit_int(1), lit_int(2), Ty::Other)), None);
}

#[test]
fn boolean_folding_short_circuits() {
    let t = Expr::Lit(LitKind::Bool(true));
    let f = Expr::Lit(LitKind::Bool(false));
    assert_eq!(folded_bool(&bin(BinOp::And, Expr::Lit(LitKind::Bool(false)), Expr::Other, Ty::Other)), Some(false));
    assert_eq!(folded_bool(&bin(BinOp::Or, t, Expr::Other, Ty::Other)), Some(true));
    assert_eq!(folded_bool(&bin(BinOp::Or, f, Expr::Other, Ty::Other)), None);
    assert_eq!(
        folded_int(&bin(BinOp::And, Expr::Lit(LitKind::Bool(true)), lit_int(5), Ty::Other)),
        Some(5)
    );
    assert_eq!(
        folded_bool(&bin(BinOp::BitXor, Expr::Lit(LitKind::Bool(true)), Expr::Lit(LitKind::Bool(true)), Ty::Other)),
        Some(false)
    );
}

#[test]
fn unary_folding() {
    let not_i8 = Expr::Unary(UnOp::Not, Box::new(lit_int(0)), Ty::Int(IntTy::I8));
    assert_eq!(folded_int(&not_i8), Some(0xff));
    let not_u16 = Expr::Unary(UnOp::Not, Box::new(lit_int(1)), Ty::Uint(UintTy::U16));
    assert_eq!(folded_int(&not_u16), Some(0xfffe));
    let neg = Expr::Unary(UnOp::Neg, Box::new(lit_int(5)), Ty::Int(IntTy::I32));
    assert_eq!(folded_int(&neg), Some(0xffff_fffb));
    let neg_u = Expr::Unary(UnOp::Neg, Box::new(lit_int(5)), Ty::Uint(UintTy::U32));
    assert_eq!(folded_int(&neg_u), None);
    let neg_min = Expr::Unary(UnOp::Neg, Box::new(lit_int(1u128 << 127)), Ty::Int(IntTy::I128));
    assert_eq!(folded_int(&neg_min), None);
    assert!(matches!(constant_not(&Constant::Bool(true), Ty::Other, 64), Some(Constant::Bool(false))));
    assert!(constant_negate(&Constant::Int(1), Ty::Other, 64).is_none());
    assert!(matches!(binop(BinOp::Mul, Constant::Int(6), Some(Constant::Int(7)), Ty::Uint(UintTy::U64), 64), Some(Constant::Int(42))));
}

#[test]
fn structured_folding() {
    let arr = Expr::Array(vec![lit_int(1), lit_int(2)]);
    match constant(64, &arr) {
        Some((Constant::Vec(v), false)) => assert_eq!(v.len(), 2),
        other => panic!("unexpected {:?}", other),
    }
    assert!(constant(64, &Expr::Array(vec![lit_int(1), Expr::Other])).is_none());
    let cond = Expr::If(
        Box::new(Expr::Lit(LitKind::Bool(false))),
        Box::new(lit_int(1)),
        Some(Box::new(lit_int(2))),
    );
    assert_eq!(folded_int(&cond), Some(2));
    let block = Expr::Block(false, Some(Box::new(lit_int(9))));
    assert_eq!(folded_int(&block), Some(9));
    assert!(constant(64, &Expr::Block(true, Some(Box::new(lit_int(9))))).is_none());
    let named = Expr::Path(Some(Constant::Int(4)));
    assert!(matches!(constant(64, &named), Some((Constant::Int(4), true))));
    assert!(constant_simple(64, &named).is_none());
    assert!(matches!(constant_simple(64, &lit_int(4)), Some(Constant::Int(4))));
    let rep = Expr::Repeat(Box::new(Expr::Lit(LitKind::Char('x'))), 3);
    assert!(matches!(constant(64, &rep), Some((Constant::Repeat(_, 3), false))));
    assert!(matches!(constant(64, &Expr::Lit(LitKind::Byte(7))), Some((Constant::Int(7), false))));
    match constant(64, &Expr::Lit(LitKind::Str("abc".to_string()))) {
        Some((Constant::Str(s), false)) => assert_eq!(s, "abc"),
        other => panic!("unexpected {:?}", other),
    }
}

#[test]
fn bit_mask_table() {
    let lint = |bit_op, cmp_op, m, c| check_bit_mask(bit_op, cmp_op, m, c);
    assert_eq!(
        lint(BinOp::BitAnd, BinOp::Eq, 2, 3),
        Some(BitMaskLint::Incompatible { bit_op: BinOp::BitAnd, mask: 2, value: 3, relation: Relation::NeverEqual })
    );
    assert_eq!(
        lint(BinOp::BitAnd, BinOp::Lt, 2, 3),
        Some(BitMaskLint::Incompatible { bit_op: BinOp::BitAnd, mask: 2, value: 3, relation: Relation::AlwaysLower })
    );
    assert_eq!(
        lint(BinOp::BitAnd, BinOp::Gt, 1, 1),
        Some(BitMaskLint::Incompatible { bit_op: BinOp::BitAnd, mask: 1, value: 1, relation: Relation::NeverHigher })
    );
    assert_eq!(
        lint(BinOp::BitOr, BinOp::Eq, 1, 0),
        Some(BitMaskLint::Incompatible { bit_op: BinOp::BitOr, mask: 1, value: 0, relation: Relation::NeverEqual })
    );
    assert_eq!(
        lint(BinOp::BitOr, BinOp::Lt, 1, 1),
        Some(BitMaskLint::Incompatible { bit_op: BinOp::BitOr, mask: 1, value: 1, relation: Relation::NeverLower })
    );
    assert_eq!(
        lint(BinOp::BitOr, BinOp::Gt, 1, 0),
        Some(BitMaskLint::Incompatible { bit_op: BinOp::BitOr, mask: 1, value: 0, relation: Relation::AlwaysHigher })
    );
    assert_eq!(lint(BinOp::BitAnd, BinOp::Eq, 0, 0), Some(BitMaskLint::AndWithZero));
    assert_eq!(lint(BinOp::BitAnd, BinOp::Eq, 3, 0), None);
    assert_eq!(lint(BinOp::BitAnd, BinOp::Eq, 3, 1), None);
    assert_eq!(
        lint(BinOp::BitOr, BinOp::Gt, 2, 3),
        Some(BitMaskLint::Ineffective { bit_op: BinOp::BitOr, mask: 2, value: 3 })
    );
    assert_eq!(
        lint(BinOp::BitXor, BinOp::Lt, 1, 4),
        Some(BitMaskLint::Ineffective { bit_op: BinOp::BitXor, mask: 1, value: 4 })
    );
    assert_eq!(lint(BinOp::BitOr, BinOp::Ge, 1, 7), None);
    assert_eq!(check_ineffective_lt(7, 8, BinOp::BitOr), Some(BitMaskLint::Ineffective { bit_op: BinOp::BitOr, mask: 7, value: 8 }));
    assert_eq!(check_ineffective_gt(8, 7, BinOp::BitOr), None);
}

#[test]
fn comparisons_invert() {
    assert_eq!(invert_cmp(BinOp::Lt), BinOp::Gt);
    assert_eq!(invert_cmp(BinOp::Ge), BinOp::Le);
    assert_eq!(invert_cmp(BinOp::Eq), BinOp::Eq);
    assert_eq!(invert_cmp(BinOp::Add), BinOp::Or);
}

#[test]
fn powers_of_two() {
    assert!(is_power_of_two(1));
    assert!(is_power_of_two(1u128 << 127));
    assert!(!is_power_of_two(0));
    assert!(!is_power_of_two(6));
}

#[test]
fn bit_mask_on_expressions() {
    let lints = BitMask::new(1);
    let u32t = Ty::Uint(UintTy::U32);
    let x = || Expr::Other;
    let masked = bin(BinOp::BitAnd, x(), lit_int(2), u32t);
    assert_eq!(
        lints.check_expr(64, &bin(BinOp::Eq, masked, lit_int(3), u32t)),
        vec![BitMaskLint::Incompatible { bit_op: BinOp::BitAnd, mask: 2, value: 3, relation: Relation::NeverEqual }]
    );
    let masked = bin(BinOp::BitOr, x(), lit_int(1), u32t);
    assert_eq!(
        lints.check_expr(64, &bin(BinOp::Gt, lit_int(0), masked, u32t)),
        vec![BitMaskLint::Incompatible { bit_op: BinOp::BitOr, mask: 1, value: 0, relation: Relation::NeverLower }]
    );
    let masked = bin(BinOp::BitAnd, x(), lit_int(15), u32t);
    assert_eq!(lints.check_expr(64, &bin(BinOp::Eq, masked, lit_int(0), u32t)), vec![BitMaskLint::Verbose { ones: 4 }]);
    let masked = bin(BinOp::BitAnd, x(), lit_int(1), u32t);
    assert_eq!(lints.check_expr(64, &bin(BinOp::Eq, masked, lit_int(0), u32t)), vec![]);
    let masked = bin(BinOp::BitAnd, x(), lit_int(0x1111), u32t);
    assert_eq!(lints.check_expr(64, &bin(BinOp::Eq, masked, lit_int(0), u32t)), vec![]);
    assert_eq!(lints.check_expr(64, &bin(BinOp::Add, x(), lit_int(0), u32t)), vec![]);
}

fn lit(n: u128) -> AstExpr {
    AstExpr { kind: AstExprKind::Lit(AstLit::Int(n)), snippet: Some(n.to_string()) }
}

fn var(name: &str) -> AstExpr {
    AstExpr { kind: AstExprKind::Other, snippet: Some(name.to_string()) }
}

fn ast_bin(op: BinOp, l: AstExpr, r: AstExpr) -> AstExpr {
    AstExpr { kind: AstExprKind::Binary(op, Box::new(l), Box::new(r)), snippet: None }
}

#[test]
fn int_plus_one_recommendations() {
    let lint = IntPlusOne;
    let e = ast_bin(BinOp::Ge, var("x"), ast_bin(BinOp::Add, var("y"), lit(1)));
    assert_eq!(lint.check_expr(&e), Some("x > y".to_string()));
    let e = ast_bin(BinOp::Ge, var("x"), ast_bin(BinOp::Add, lit(1), var("y")));
    assert_eq!(lint.check_expr(&e), Some("x > y".to_string()));
    let e = ast_bin(BinOp::Ge, ast_bin(BinOp::Sub, var("x"), lit(1)), var("y"));
    assert_eq!(lint.check_expr(&e), Some("x > y".to_string()));
    let e = ast_bin(BinOp::Le, ast_bin(BinOp::Add, var("x"), lit(1)), var("y"));
    assert_eq!(lint.check_expr(&e), Some("x < y".to_string()));
    let e = ast_bin(BinOp::Le, var("x"), ast_bin(BinOp::Sub, var("y"), lit(1)));
    assert_eq!(lint.check_expr(&e), Some("x < y".to_string()));
    let e = ast_bin(BinOp::Ge, ast_bin(BinOp::Add, var("x"), lit(1)), ast_bin(BinOp::Add, var("y"), lit(1)));
    assert_eq!(lint.check_expr(&e), None);
    let e = ast_bin(BinOp::Gt, var("x"), ast_bin(BinOp::Add, var("y"), lit(1)));
    assert_eq!(lint.check_expr(&e), None);
    let e = ast_bin(BinOp::Ge, var("x"), ast_bin(BinOp::Add, var("y"), lit(2)));
    assert_eq!(lint.check_expr(&e), None);
    let hidden = AstExpr { kind: AstExprKind::Other, snippet: None };
    let e = ast_bin(BinOp::Ge, hidden, ast_bin(BinOp::Add, var("y"), lit(1)));
    assert_eq!(lint.check_expr(&e), None);
    assert!(lint.check_lit(&AstLit::Int(u128::MAX), -1));
    assert!(!lint.check_lit(&AstLit::Other, 1));
    assert_eq!(lint.generate_recommendation(BinOp::Le, &var("a"), &var("b"), Side::RHS), Some("b < a".to_string()));
    assert_eq!(lint.generate_recommendation(BinOp::Eq, &var("a"), &var("b"), Side::LHS), None);
}

#[test]
fn mutexes_of_atomic_types() {
    let lint = MutexAtomic;
    assert_eq!(lint.check_mutex(MutexParam::Bool), Some(MutexLint::MutexAtomic(AtomicName::AtomicBool)));
    assert_eq!(lint.check_mutex(MutexParam::Uint(UintTy::Usize)), Some(MutexLint::MutexInteger(AtomicName::AtomicUsize)));
    assert_eq!(lint.check_mutex(MutexParam::Int(IntTy::Isize)), Some(MutexLint::MutexInteger(AtomicName::AtomicIsize)));
    assert_eq!(lint.check_mutex(MutexParam::Uint(UintTy::U8)), Some(MutexLint::MutexInteger(AtomicName::AtomicUsize)));
    assert_eq!(lint.check_mutex(MutexParam::Int(IntTy::I64)), Some(MutexLint::MutexInteger(AtomicName::AtomicIsize)));
    assert_eq!(lint.check_mutex(MutexParam::RawPtr), Some(MutexLint::MutexAtomic(AtomicName::AtomicPtr)));
    assert_eq!(lint.check_mutex(MutexParam::Other), None);
    assert_eq!(get_atomic_name(MutexParam::Int(IntTy::Isize)), Some(AtomicName::AtomicIsize));
}
