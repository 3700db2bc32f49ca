use rust_tools::hir::{Block as HirBlock, Def, Expr as HirExpr, ExprKind as HirKind, Lit, Path, QPath};
use rust_tools::panic_params::{brace_pair, Pass as PanicPass, PanicFacts};
use rust_tools::serde_api::{ImplItemRef, Serde};
use rust_tools::unit_expr::{
    check_last_stmt_in_block, is_unit_expr, Arm, Block, Expr, ExprKind, Local, Stmt, StmtKind, UnitExpr, UnitNote,
};

fn e(span: u32, node: ExprKind) -> Expr {
    Expr { span, node }
}

fn semi(span: u32, x: Expr) -> Stmt {
    Stmt { span, node: StmtKind::Semi(Box::new(x)) }
}

fn tail(span: u32, x: Expr) -> Stmt {
    Stmt { span, node: StmtKind::Expr(Box::new(x)) }
}

fn block(stmts: Vec<Stmt>) -> Block {
    Block { stmts }
}

#[test]
fn unit_expr_let_of_block_with_semicolon() {
    let init = e(10, ExprKind::Block(block(vec![semi(11, e(12, ExprKind::Other))])));
    let s = Stmt { span: 1, node: StmtKind::Local(Local { pat_is_wild: false, init: Some(Box::new(init)) }) };
    assert_eq!(UnitExpr.check_stmt(&s), vec![UnitNote { span: 10, note: 11 }]);
}

#[test]
fn unit_expr_wild_binding_and_value_blocks() {
    let init = e(10, ExprKind::Block(block(vec![semi(11, e(12, ExprKind::Other))])));
    let s = Stmt { span: 1, node: StmtKind::Local(Local { pat_is_wild: true, init: Some(Box::new(init)) }) };
    assert_eq!(UnitExpr.check_stmt(&s), vec![]);
    let value = e(10, ExprKind::Block(block(vec![tail(11, e(12, ExprKind::Other))])));
    let s2 = Stmt { span: 1, node: StmtKind::Local(Local { pat_is_wild: false, init: Some(Box::new(value)) }) };
    assert_eq!(UnitExpr.check_stmt(&s2), vec![]);
    let diverging = e(10, ExprKind::Block(block(vec![semi(11, e(12, ExprKind::Ret(None)))])));
    assert_eq!(is_unit_expr(&diverging), None);
}

#[test]
fn unit_expr_if_prefers_else() {
    let then = block(vec![semi(21, e(22, ExprKind::Other))]);
    let else_ = e(30, ExprKind::Block(block(vec![semi(31, e(32, ExprKind::Other))])));
    let x = e(20, ExprKind::If(Box::new(e(2, ExprKind::Other)), then, Some(Box::new(else_))));
    assert_eq!(is_unit_expr(&x), Some(31));
    let then2 = block(vec![semi(21, e(22, ExprKind::Other))]);
    let value_else = e(30, ExprKind::Block(block(vec![tail(31, e(32, ExprKind::Other))])));
    let y = e(20, ExprKind::If(Box::new(e(2, ExprKind::Other)), then2, Some(Box::new(value_else))));
    assert_eq!(is_unit_expr(&y), Some(20));
    let then3 = block(vec![tail(21, e(22, ExprKind::Other))]);
    let z = e(20, ExprKind::If(Box::new(e(2, ExprKind::Other)), then3, None));
    assert_eq!(is_unit_expr(&z), None);
}

#[test]
fn unit_expr_match_first_arm() {
    let arms = vec![
        Arm { body: e(40, ExprKind::Other) },
        Arm { body: e(41, ExprKind::Block(block(vec![semi(42, e(43, ExprKind::Other))]))) },
        Arm { body: e(44, ExprKind::Block(block(vec![semi(45, e(46, ExprKind::Other))]))) },
    ];
    let m = e(50, ExprKind::Match(Box::new(e(1, ExprKind::Other)), arms));
    assert_eq!(is_unit_expr(&m), Some(42));
}

#[test]
fn unit_expr_calls_and_assignments() {
    let unit_arg = || e(60, ExprKind::Block(block(vec![semi(61, e(62, ExprKind::Other))])));
    let call = e(70, ExprKind::Call(Box::new(e(71, ExprKind::Other)), vec![e(72, ExprKind::Other), unit_arg(), unit_arg()]));
    assert_eq!(
        UnitExpr.check_expr(&call),
        vec![UnitNote { span: 70, note: 61 }, UnitNote { span: 70, note: 61 }]
    );
    let method = e(80, ExprKind::MethodCall("push".to_string(), vec![e(81, ExprKind::Other), unit_arg()]));
    assert_eq!(UnitExpr.check_expr(&method), vec![UnitNote { span: 80, note: 61 }]);
    let assign = e(90, ExprKind::Assign(Box::new(e(91, ExprKind::Other)), Box::new(unit_arg())));
    assert_eq!(UnitExpr.check_expr(&assign), vec![UnitNote { span: 90, note: 61 }]);
    assert_eq!(UnitExpr.check_expr(&e(1, ExprKind::Other)), vec![]);
}

#[test]
fn unit_expr_last_statement() {
    assert!(check_last_stmt_in_block(&block(vec![Stmt { span: 1, node: StmtKind::Item }])));
    assert!(!check_last_stmt_in_block(&block(vec![semi(1, e(2, ExprKind::Continue))])));
    assert!(!check_last_stmt_in_block(&block(vec![semi(1, e(2, ExprKind::Break))])));
    assert!(check_last_stmt_in_block(&block(vec![tail(3, e(4, ExprKind::Other)), semi(1, e(2, ExprKind::Other))])));
}

fn item(name: &str, span: u32) -> ImplItemRef {
    ImplItemRef { name: name.to_string(), span }
}

#[test]
fn serde_visit_string_without_visit_str() {
    assert_eq!(Serde.check_item(true, &vec![item("expecting", 1), item("visit_string", 2)]), Some(2));
    assert_eq!(Serde.check_item(true, &vec![item("visit_string", 2), item("visit_str", 3)]), None);
    assert_eq!(Serde.check_item(false, &vec![item("visit_string", 2)]), None);
    assert_eq!(Serde.check_item(true, &vec![item("visit_string", 2), item("visit_string", 5)]), Some(5));
    assert_eq!(Serde.check_item(true, &vec![]), None);
}

fn hx(id: u32, node: HirKind) -> HirExpr {
    HirExpr { id, node, attrs: vec![] }
}

fn panic_block(text: &str) -> HirExpr {
    let call = hx(
        2,
        HirKind::Call(
            Box::new(hx(3, HirKind::Path(QPath::Resolved(None, Path { segments: vec!["begin_panic".to_string()], def: Def::Other })))),
            vec![hx(4, HirKind::Lit(Lit::Str(text.to_string()))), hx(5, HirKind::Closure)],
        ),
    );
    hx(1, HirKind::Block(HirBlock { stmts: vec![], expr: Some(Box::new(call)) }))
}

const FACTS: PanicFacts =
    PanicFacts { calls_begin_panic: true, from_panic_macro: true, literal_from_callee: false, literal_span_empty: false };

#[test]
fn panic_params_missing_parameter() {
    assert_eq!(PanicPass.check_expr(&panic_block("This `panic!` is probably missing a parameter there: {}"), FACTS), Some(4));
    assert_eq!(PanicPass.check_expr(&panic_block("no braces"), FACTS), None);
    assert_eq!(PanicPass.check_expr(&panic_block("} before {"), FACTS), None);
    let other = PanicFacts { calls_begin_panic: false, ..FACTS };
    assert_eq!(PanicPass.check_expr(&panic_block("{}"), other), None);
    let from_callee = PanicFacts { literal_from_callee: true, ..FACTS };
    assert_eq!(PanicPass.check_expr(&panic_block("{}"), from_callee), None);
}

#[test]
fn panic_params_brace_pairs() {
    assert!(brace_pair("{}"));
    assert!(brace_pair("a{b}c"));
    assert!(brace_pair("}{ }"));
    assert!(!brace_pair("}{"));
    assert!(!brace_pair(""));
}
