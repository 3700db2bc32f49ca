use rust_tools::map_unit_fn::{
    is_unit_function, is_unit_type, let_binding_name, reduce_unit_expression, snippet, suggestion_msg, BodyExpr,
    BodyNode, BodyStmt, Closure, FnTy, MapCall, MapFn, MapReceiver, MapStmt, MapTy, MapUnitKind, Pass,
    ReceiverKind, UnitTy,
};

fn source(entries: &[(u32, &str)]) -> Vec<(u32, String)> {
    entries.iter().map(|(s, t)| (*s, t.to_string())).collect()
}

fn unit_body(span: u32, node: BodyNode) -> BodyExpr {
    BodyExpr { span, ty: UnitTy::Tuple(0), node }
}

fn map_stmt(recv: MapReceiver, func: MapFn) -> MapStmt {
    MapStmt { in_macro: false, semi: true, call: Some(MapCall { method: "map".to_string(), receiver: recv, func }) }
}

#[test]
fn map_unit_fn_function_on_option() {
    let src = source(&[(1, "x"), (2, "do_nothing")]);
    let recv = MapReceiver { span: 1, ty: MapTy::Option, kind: ReceiverKind::Path };
    let func = MapFn { span: 2, ty: FnTy::FnDef(Some(UnitTy::Tuple(0))), closure: None };
    let l = Pass.check_stmt(&src, &map_stmt(recv, func)).expect("lint");
    assert_eq!(l.lint, MapUnitKind::OptionMapUnitFn);
    assert_eq!(l.message, "called `map(f)` on an Option value where `f` is a unit function");
    assert_eq!(l.suggestion, "if let Some(_x) = x { do_nothing(...) }");
    assert!(l.unspecified);
}

#[test]
fn map_unit_fn_closure_on_result() {
    let src = source(&[(1, "x.field"), (3, "value"), (5, "do_nothing(value);")]);
    let recv = MapReceiver { span: 1, ty: MapTy::Result, kind: ReceiverKind::Field };
    let body = unit_body(4, BodyNode::Block(vec![BodyStmt::Semi(5)], None));
    let func = MapFn { span: 2, ty: FnTy::Other, closure: Some(Closure { params: vec![3], body }) };
    let l = Pass.check_stmt(&src, &map_stmt(recv, func)).expect("lint");
    assert_eq!(l.lint, MapUnitKind::ResultMapUnitFn);
    assert_eq!(l.message, "called `map(f)` on an Result value where `f` is a unit closure");
    assert_eq!(l.suggestion, "if let Ok(value) = x.field { do_nothing(value); }");
    assert!(!l.unspecified);
}

#[test]
fn map_unit_fn_closure_with_statements() {
    let src = source(&[(1, "x"), (3, "v")]);
    let recv = MapReceiver { span: 1, ty: MapTy::Option, kind: ReceiverKind::Path };
    let body = unit_body(4, BodyNode::Block(vec![BodyStmt::Semi(5), BodyStmt::Semi(6)], None));
    let func = MapFn { span: 2, ty: FnTy::Other, closure: Some(Closure { params: vec![3], body }) };
    let l = Pass.check_stmt(&src, &map_stmt(recv, func)).expect("lint");
    assert_eq!(l.suggestion, "if let Some(v) = x { ... }");
    assert!(l.unspecified);
}

#[test]
fn map_unit_fn_not_reported() {
    let src = source(&[(1, "x")]);
    let recv = MapReceiver { span: 1, ty: MapTy::Option, kind: ReceiverKind::Path };
    let valued = MapFn { span: 2, ty: FnTy::FnDef(Some(UnitTy::Other)), closure: None };
    assert!(Pass.check_stmt(&src, &map_stmt(recv, valued)).is_none());
    let two_params = MapFn {
        span: 2,
        ty: FnTy::Other,
        closure: Some(Closure { params: vec![3, 4], body: unit_body(5, BodyNode::Call) }),
    };
    assert!(Pass.check_stmt(&src, &map_stmt(recv, two_params)).is_none());
    let unit = || MapFn { span: 2, ty: FnTy::FnDef(Some(UnitTy::Never)), closure: None };
    let vec_recv = MapReceiver { span: 1, ty: MapTy::Other, kind: ReceiverKind::Path };
    assert!(Pass.check_stmt(&src, &map_stmt(vec_recv, unit())).is_none());
    let mut in_macro = map_stmt(recv, unit());
    in_macro.in_macro = true;
    assert!(Pass.check_stmt(&src, &in_macro).is_none());
    let mut no_semi = map_stmt(recv, unit());
    no_semi.semi = false;
    assert!(Pass.check_stmt(&src, &no_semi).is_none());
    let other_method = MapStmt {
        in_macro: false,
        semi: true,
        call: Some(MapCall { method: "and_then".to_string(), receiver: recv, func: unit() }),
    };
    assert!(Pass.check_stmt(&src, &other_method).is_none());
    assert!(Pass.check_stmt(&src, &map_stmt(recv, unit())).is_some());
}

#[test]
fn map_unit_fn_helpers() {
    assert!(is_unit_type(&UnitTy::Tuple(0)));
    assert!(is_unit_type(&UnitTy::Never));
    assert!(!is_unit_type(&UnitTy::Tuple(2)));
    assert!(!is_unit_function(&FnTy::FnDef(None)));
    assert!(!is_unit_function(&FnTy::Other));
    assert_eq!(suggestion_msg("closure", "Option"), "called `map(f)` on an Option value where `f` is a unit closure");
    let src = source(&[(1, "a.b.c"), (2, "y"), (1, "ignored")]);
    assert_eq!(snippet(&src, 1, "_"), "a.b.c");
    assert_eq!(snippet(&src, 9, "_"), "_");
    assert_eq!(let_binding_name(&src, &MapReceiver { span: 1, ty: MapTy::Option, kind: ReceiverKind::Field }), "a_b_c");
    assert_eq!(let_binding_name(&src, &MapReceiver { span: 2, ty: MapTy::Option, kind: ReceiverKind::Path }), "_y");
    assert_eq!(let_binding_name(&src, &MapReceiver { span: 9, ty: MapTy::Option, kind: ReceiverKind::Path }), "_");
    assert_eq!(let_binding_name(&src, &MapReceiver { span: 2, ty: MapTy::Option, kind: ReceiverKind::Other }), "_");
    let nested = unit_body(1, BodyNode::Block(vec![], Some(Box::new(unit_body(2, BodyNode::Block(vec![], Some(Box::new(unit_body(3, BodyNode::MethodCall)))))))));
    assert_eq!(reduce_unit_expression(&nested), Some(3));
    let typed = BodyExpr { span: 1, ty: UnitTy::Other, node: BodyNode::Call };
    assert_eq!(reduce_unit_expression(&typed), None);
    let tail_and_stmt = unit_body(1, BodyNode::Block(vec![BodyStmt::Decl(7)], Some(Box::new(unit_body(2, BodyNode::Call)))));
    assert_eq!(reduce_unit_expression(&tail_and_stmt), None);
    assert_eq!(reduce_unit_expression(&unit_body(1, BodyNode::Block(vec![BodyStmt::Expr(8)], None))), Some(8));
    assert_eq!(reduce_unit_expression(&unit_body(1, BodyNode::Block(vec![], None))), None);
}
