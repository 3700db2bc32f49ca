use rust_tools::consts::{miri_to_const, ConstTy, ConstValue, Constant, EvaluatedConst};

#[test]
fn evaluated_scalars() {
    assert!(matches!(miri_to_const(&ConstValue::Bytes(1), ConstTy::Bool), Some(EvaluatedConst::Const(Constant::Bool(true)))));
    assert!(matches!(miri_to_const(&ConstValue::Bytes(0), ConstTy::Bool), Some(EvaluatedConst::Const(Constant::Bool(false)))));
    assert!(matches!(miri_to_const(&ConstValue::Bytes(42), ConstTy::Int), Some(EvaluatedConst::Const(Constant::Int(42)))));
    match miri_to_const(&ConstValue::Bytes(1.5f32.to_bits() as u128), ConstTy::Float32) {
        Some(EvaluatedConst::F32Bits(b)) => assert_eq!(f32::from_bits(b), 1.5),
        _ => panic!("expected the bits of an f32"),
    }
    match miri_to_const(&ConstValue::Bytes((-2.25f64).to_bits() as u128), ConstTy::Float64) {
        Some(EvaluatedConst::F64Bits(b)) => assert_eq!(f64::from_bits(b), -2.25),
        _ => panic!("expected the bits of an f64"),
    }
    assert!(miri_to_const(&ConstValue::Bytes(3), ConstTy::StrRef).is_none());
    assert!(miri_to_const(&ConstValue::Other, ConstTy::Int).is_none());
}

#[test]
fn evaluated_strings() {
    let hello = ConstValue::Slice(b"hello world".to_vec(), 6, 5);
    match miri_to_const(&hello, ConstTy::StrRef) {
        Some(EvaluatedConst::Const(Constant::Str(s))) => assert_eq!(s, "world"),
        _ => panic!("expected a string"),
    }
    let accented = ConstValue::Slice("héllo".as_bytes().to_vec(), 0, 6);
    match miri_to_const(&accented, ConstTy::StrRef) {
        Some(EvaluatedConst::Const(Constant::Str(s))) => assert_eq!(s, "héllo"),
        _ => panic!("expected a string"),
    }
    assert!(miri_to_const(&ConstValue::Slice(vec![0xff, 0xfe], 0, 2), ConstTy::StrRef).is_none());
    assert!(miri_to_const(&ConstValue::Slice(b"abc".to_vec(), 0, 3), ConstTy::Int).is_none());
}
