use rust_tools::author::{desugaring_name, loop_desugaring_name, print_path, Pass, PrintVisitor};
use rust_tools::hir::{
    Arm, Attribute, BinOpKind, BindingAnnotation, Block, Decl, Def, Expr, ExprKind, Lit, Local, LoopSource,
    MatchSource, Mutability, NestedMeta, Pat, Path, QPath, RangeEnd, Stmt, Ty, UnOpKind,
};
use rust_tools::loops::{
    contains_continue_block, extract_expr_from_first_stmt, extract_first_expr, is_break_expr,
    is_conditional, is_loop, loop_exit_expr, never_loop, path_name, IterFacts, LoopLint, Pass as LoopPass,
};

const NO_FACTS: IterFacts = IterFacts { iterator_next: false, refutable: false, used_after: false, nested: false };

fn ex(node: ExprKind) -> Expr {
    Expr { id: 0, node, attrs: vec![] }
}

fn marked(node: ExprKind) -> Expr {
    Expr { id: 0, node, attrs: vec![author_attr()] }
}

fn author_attr() -> Attribute {
    Attribute { name: "clippy".to_string(), list: Some(vec![NestedMeta::MetaItem("author".to_string())]) }
}

fn lit_int(i: u128) -> Expr {
    ex(ExprKind::Lit(Lit::Int(i)))
}

fn path(names: &[&str]) -> QPath {
    QPath::Resolved(None, Path { segments: names.iter().map(|n| n.to_string()).collect(), def: Def::Other })
}

fn var(name: &str) -> Expr {
    ex(ExprKind::Path(path(&[name])))
}

fn arm(pat: Pat, body: Expr) -> Arm {
    Arm { attrs: vec![], pats: vec![pat], guard: None, body: Box::new(body) }
}

fn binding(name: &str) -> Pat {
    Pat::Binding(BindingAnnotation::Unannotated, name.to_string(), None)
}

fn let_stmt(name: &str, init: Expr) -> Stmt {
    Stmt::Decl(Decl::Local(Local { pat_id: 0, pat: binding(name), init: Some(Box::new(init)), attrs: vec![] }))
}

const DONE: &str = "    then {\n        // report your lint here\n    }\n}\n";

#[test]
fn author_matches_scenario() {
    let block = Block { stmts: vec![let_stmt("x", lit_int(3))], expr: Some(Box::new(var("x"))) };
    let m = ex(ExprKind::Match(
        Box::new(lit_int(42)),
        vec![
            arm(Pat::Lit(Box::new(lit_int(16))), lit_int(5)),
            arm(Pat::Lit(Box::new(lit_int(17))), ex(ExprKind::Block(block))),
            arm(Pat::Wild, lit_int(1)),
        ],
        MatchSource::Normal,
    ));
    let stmt = Stmt::Decl(Decl::Local(Local {
        pat_id: 0,
        pat: binding("a"),
        init: Some(Box::new(m)),
        attrs: vec![author_attr()],
    }));
    let expected = String::from("if_chain! {\n")
        + "    if let Stmt_::StmtDecl(ref decl, _) = stmt.node\n"
        + "    if let Decl_::DeclLocal(ref local) = decl.node,\n"
        + "    if let Some(ref init) = local.init\n"
        + "    if let Expr_::ExprMatch(ref expr, ref arms, MatchSource::Normal) = init.node,\n"
        + "    if let Expr_::ExprLit(ref lit) = expr.node,\n"
        + "    if let LitKind::Int(42, _) = lit.node,\n"
        + "    if arms.len() == 3,\n"
        + "    if let Expr_::ExprLit(ref lit1) = arms[0].body.node,\n"
        + "    if let LitKind::Int(5, _) = lit1.node,\n"
        + "    if arms[0].pats.len() == 1,\n"
        + "    if let PatKind::Lit(ref lit_expr) = arms[0].pats[0].node\n"
        + "    if let Expr_::ExprLit(ref lit2) = lit_expr.node,\n"
        + "    if let LitKind::Int(16, _) = lit2.node,\n"
        + "    if let Expr_::ExprBlock(ref block) = arms[1].body.node,\n"
        + "    if let Stmt_::StmtDecl(ref decl1, _) = block.node\n"
        + "    if let Decl_::DeclLocal(ref local1) = decl1.node,\n"
        + "    if let Some(ref init1) = local1.init\n"
        + "    if let Expr_::ExprLit(ref lit3) = init1.node,\n"
        + "    if let LitKind::Int(3, _) = lit3.node,\n"
        + "    if let PatKind::Binding(BindingAnnotation::Unannotated, _, name, None) = local1.pat.node,\n"
        + "    if name.node.as_str() == \"x\",\n"
        + "    if let Expr_::ExprPath(ref path) = local1.pat.node,\n"
        + "    if arms[1].pats.len() == 1,\n"
        + "    if let PatKind::Lit(ref lit_expr1) = arms[1].pats[0].node\n"
        + "    if let Expr_::ExprLit(ref lit4) = lit_expr1.node,\n"
        + "    if let LitKind::Int(17, _) = lit4.node,\n"
        + "    if let Expr_::ExprLit(ref lit5) = arms[2].body.node,\n"
        + "    if let LitKind::Int(1, _) = lit5.node,\n"
        + "    if arms[2].pats.len() == 1,\n"
        + "    if let PatKind::Wild = arms[2].pats[0].node,\n"
        + "    if let PatKind::Binding(BindingAnnotation::Unannotated, _, name1, None) = local.pat.node,\n"
        + "    if name1.node.as_str() == \"a\",\n"
        + DONE;
    assert_eq!(Pass.check_stmt(&stmt), expected);
}

#[test]
fn author_binary_comparison() {
    let e = marked(ExprKind::Binary(BinOpKind::BiEq, Box::new(var("x")), Box::new(lit_int(42))));
    let expected = String::from("if_chain! {\n")
        + "    if let Expr_::ExprBinary(BinOp::Eq, ref left, ref right) = expr.node,\n"
        + "    if let Expr_::ExprPath(ref path) = left.node,\n"
        + "    if let Expr_::ExprLit(ref lit) = right.node,\n"
        + "    if let LitKind::Int(42, _) = lit.node,\n"
        + DONE;
    assert_eq!(Pass.check_expr(&e), expected);
}

#[test]
fn author_unmarked_writes_nothing() {
    let e = ex(ExprKind::Binary(BinOpKind::BiEq, Box::new(var("x")), Box::new(lit_int(42))));
    assert_eq!(Pass.check_expr(&e), "");
    let other = Expr {
        id: 0,
        node: ExprKind::Closure,
        attrs: vec![Attribute { name: "clippy".to_string(), list: Some(vec![NestedMeta::Literal]) }],
    };
    assert_eq!(Pass.check_expr(&other), "");
    let two = Expr {
        id: 0,
        node: ExprKind::Closure,
        attrs: vec![Attribute {
            name: "clippy".to_string(),
            list: Some(vec![NestedMeta::MetaItem("author".to_string()), NestedMeta::Literal]),
        }],
    };
    assert_eq!(Pass.check_expr(&two), "");
    assert_eq!(Pass.check_item(&vec![]), "");
}

#[test]
fn author_item_is_the_frame() {
    assert_eq!(Pass.check_item(&vec![author_attr()]), String::from("if_chain! {\n") + DONE);
}

#[test]
fn author_names_are_numbered() {
    let inner = ex(ExprKind::Binary(BinOpKind::BiAdd, Box::new(lit_int(1)), Box::new(lit_int(2))));
    let e = marked(ExprKind::Binary(BinOpKind::BiMul, Box::new(inner), Box::new(lit_int(3))));
    let out = Pass.check_expr(&e);
    assert!(out.contains("    if let Expr_::ExprBinary(BinOp::Add, ref left1, ref right1) = left.node,\n"));
    assert!(out.contains("    if let Expr_::ExprLit(ref lit2) = right.node,\n"));
    assert!(out.contains("    if let LitKind::Int(3, _) = lit2.node,\n"));
}

#[test]
fn author_debug_texts() {
    let field = marked(ExprKind::Field(Box::new(var("s")), "a\"b".to_string()));
    let out = Pass.check_expr(&field);
    assert!(out.contains("    if field_name.node.as_str() == \"a\\\"b\"\n"));
    let c = marked(ExprKind::Lit(Lit::Char('\'')));
    assert!(Pass.check_expr(&c).contains("    if let LitKind::Char('\\'') = lit.node,\n"));
    let s = marked(ExprKind::Lit(Lit::Str("hi\n".to_string())));
    let out = Pass.check_expr(&s);
    assert!(out.contains("    if let LitKind::Str(ref s) = lit.node,\n"));
    assert!(out.contains("    if s.as_str() == \"hi\\n\"\n"));
    let b = marked(ExprKind::Lit(Lit::ByteStr(vec![1, 2, 255])));
    let out = Pass.check_expr(&b);
    assert!(out.contains("    if let LitKind::ByteStr(ref vec) = lit.node,\n"));
    assert!(out.contains("    if let [[1, 2, 255]] = **vec,\n"));
    let t = marked(ExprKind::Lit(Lit::Bool(true)));
    assert!(Pass.check_expr(&t).contains("    if let LitKind::Bool(true) = lit.node,\n"));
}

#[test]
fn author_if_else_and_cast() {
    let e = marked(ExprKind::If(
        Box::new(var("c")),
        Box::new(ex(ExprKind::Block(Block { stmts: vec![], expr: None }))),
        Some(Box::new(ex(ExprKind::Cast(Box::new(lit_int(1)), Ty::Path(path(&["u8"])))))),
    ));
    let expected = String::from("if_chain! {\n")
        + "    if let Expr_::ExprIf(ref cond, ref then, Some(ref else_)) = expr.node,\n"
        + "    if let Expr_::ExprCast(ref expr, ref cast_ty) = else_.node,\n"
        + "    if let Ty_::TyPath(ref qp) = cast_ty.node,\n"
        + "    if match_qpath(qp, &[\"u8\"]),\n"
        + "    if let Expr_::ExprLit(ref lit) = expr.node,\n"
        + "    if let LitKind::Int(1, _) = lit.node,\n"
        + "    if let Expr_::ExprPath(ref path) = cond.node,\n"
        + "    if let Expr_::ExprBlock(ref block) = then.node,\n"
        + DONE;
    assert_eq!(Pass.check_expr(&e), expected);
}

#[test]
fn author_patterns() {
    let arm = Arm {
        attrs: vec![author_attr()],
        pats: vec![
            Pat::Ref(Box::new(Pat::Range(Box::new(lit_int(1)), Box::new(lit_int(9)), RangeEnd::Included)), Mutability::MutImmutable),
            Pat::TupleStruct(path(&["Some"]), vec![Pat::Wild], Some(1)),
            Pat::Slice(vec![Pat::Wild], None, vec![]),
        ],
        guard: None,
        body: Box::new(ex(ExprKind::Unary(UnOpKind::UnNeg, Box::new(lit_int(1))))),
    };
    let expected = String::from("if_chain! {\n")
        + "    if let PatKind::Ref(ref pat, Mutability::MutImmutable) = arm.node,\n"
        + "    if let PatKind::Range(ref start, ref end, RangeEnd::Included) = pat.node,\n"
        + "    if let Expr_::ExprLit(ref lit) = start.node,\n"
        + "    if let LitKind::Int(1, _) = lit.node,\n"
        + "    if let Expr_::ExprLit(ref lit1) = end.node,\n"
        + "    if let LitKind::Int(9, _) = lit1.node,\n"
        + "    if let PatKind::TupleStruct(ref path, ref fields, Some(1)) = end.node,\n"
        + "    if match_qpath(path, &[\"Some\"]),\n"
        + "    if fields.len() == 1,\n"
        + "    // unimplemented: field checks\n"
        + "    if let PatKind::Slice(ref start1, None, ref end1) = path.node,\n"
        + "    if start1.len() == 1,\n"
        + "    if let PatKind::Wild = start1[0].node,\n"
        + "    if end1.len() == 0,\n"
        + "    if let Expr_::ExprUnary(UnOp::UnNeg, ref inner) = start1[0].node,\n"
        + "    if let Expr_::ExprLit(ref lit2) = inner.node,\n"
        + "    if let LitKind::Int(1, _) = lit2.node,\n"
        + DONE;
    assert_eq!(Pass.check_arm(&arm), expected);
}

#[test]
fn author_source_names() {
    assert_eq!(
        desugaring_name(MatchSource::IfLetDesugar { contains_else_clause: true }),
        "MatchSource::IfLetDesugar { contains_else_clause: true }"
    );
    assert_eq!(desugaring_name(MatchSource::TryDesugar), "MatchSource::TryDesugar");
    assert_eq!(loop_desugaring_name(LoopSource::WhileLet), "LoopSource::WhileLet");
}

#[test]
fn author_path_text() {
    let p = QPath::TypeRelative(Box::new(Ty::Path(path(&["std", "vec", "Vec"]))), "new".to_string());
    let mut first = true;
    let mut out = String::new();
    print_path(&p, &mut first, &mut out);
    assert_eq!(out, "\"std\", \"vec\", \"Vec\", \"new\"");
    assert!(!first);
    let q = QPath::TypeRelative(Box::new(Ty::Other("TyTup([])".to_string())), "x".to_string());
    let mut first = true;
    let mut out = String::new();
    print_path(&q, &mut first, &mut out);
    assert_eq!(out, "/* unimplemented: TyTup([])*/");
    assert!(first);
}

#[test]
fn author_visitor_state() {
    let mut v = PrintVisitor::new("item");
    let a = v.next(rust_tools::author::Slot::Inner);
    let b = v.next(rust_tools::author::Slot::Inner);
    let c = v.next(rust_tools::author::Slot::Inner);
    assert_eq!((a.as_str(), b.as_str(), c.as_str()), ("inner", "inner1", "inner2"));
    v.visit_expr(&ex(ExprKind::Again(None)));
    assert_eq!(v.out, "    if let Expr_::ExprAgain(ref destination) = item.node,\n");
}

fn loop_expr(id: u32, stmts: Vec<Stmt>, tail: Option<Expr>, src: LoopSource) -> Expr {
    Expr { id, node: ExprKind::Loop(Block { stmts, expr: tail.map(Box::new) }, src), attrs: vec![] }
}

fn brk() -> Expr {
    ex(ExprKind::Break(None, None))
}

#[test]
fn loops_never_loop() {
    let l = loop_expr(7, vec![Stmt::Semi(Box::new(brk()))], None, LoopSource::Loop);
    assert_eq!(LoopPass.check_expr(&l, NO_FACTS), vec![LoopLint::NeverLoop]);
    let cont = ex(ExprKind::If(
        Box::new(var("c")),
        Box::new(ex(ExprKind::Again(Some(7)))),
        None,
    ));
    let l2 = loop_expr(7, vec![Stmt::Semi(Box::new(cont)), Stmt::Semi(Box::new(brk()))], None, LoopSource::Loop);
    assert_eq!(LoopPass.check_expr(&l2, NO_FACTS), vec![]);
    let other = ex(ExprKind::If(Box::new(var("c")), Box::new(ex(ExprKind::Again(Some(3)))), None));
    let l3 = loop_expr(7, vec![Stmt::Semi(Box::new(other)), Stmt::Semi(Box::new(brk()))], None, LoopSource::Loop);
    assert_eq!(LoopPass.check_expr(&l3, NO_FACTS), vec![LoopLint::NeverLoop]);
    let w = Expr {
        id: 9,
        node: ExprKind::While(Box::new(var("c")), Block { stmts: vec![], expr: Some(Box::new(ex(ExprKind::Ret(None)))) }),
        attrs: vec![],
    };
    assert_eq!(LoopPass.check_expr(&w, NO_FACTS), vec![LoopLint::NeverLoop]);
}

#[test]
fn loops_empty_loop() {
    let l = loop_expr(1, vec![], None, LoopSource::Loop);
    assert_eq!(LoopPass.check_expr(&l, NO_FACTS), vec![LoopLint::EmptyLoop]);
    let f = loop_expr(1, vec![], None, LoopSource::ForLoop);
    assert_eq!(LoopPass.check_expr(&f, NO_FACTS), vec![]);
}

#[test]
fn loops_while_let_loop() {
    let m = ex(ExprKind::Match(
        Box::new(var("it")),
        vec![
            arm(Pat::TupleStruct(path(&["Some"]), vec![binding("x")], None), var("x")),
            arm(Pat::Wild, ex(ExprKind::Block(Block { stmts: vec![Stmt::Semi(Box::new(brk()))], expr: None }))),
        ],
        MatchSource::Normal,
    ));
    let l = loop_expr(1, vec![], Some(m), LoopSource::Loop);
    assert_eq!(LoopPass.check_expr(&l, NO_FACTS), vec![LoopLint::WhileLetLoop]);
    let labelled = ex(ExprKind::Break(Some("'outer".to_string()), None));
    assert!(!is_break_expr(&labelled));
    let m2 = ex(ExprKind::Match(
        Box::new(var("it")),
        vec![arm(Pat::Wild, var("x")), arm(Pat::Wild, labelled)],
        MatchSource::Normal,
    ));
    let l2 = loop_expr(1, vec![], Some(m2), LoopSource::Loop);
    assert_eq!(LoopPass.check_expr(&l2, NO_FACTS), vec![]);
}

#[test]
fn loops_exits() {
    let both = ex(ExprKind::If(Box::new(var("c")), Box::new(brk()), Some(Box::new(ex(ExprKind::Ret(None))))));
    assert!(loop_exit_expr(&both));
    let one = ex(ExprKind::If(Box::new(var("c")), Box::new(brk()), None));
    assert!(!loop_exit_expr(&one));
    let m = ex(ExprKind::Match(Box::new(var("c")), vec![arm(Pat::Wild, brk()), arm(Pat::Wild, var("y"))], MatchSource::Normal));
    assert!(!loop_exit_expr(&m));
    let call = ex(ExprKind::Call(Box::new(var("f")), vec![lit_int(1), brk()]));
    assert!(loop_exit_expr(&call));
    let b = Block { stmts: vec![let_stmt("x", brk())], expr: None };
    assert!(never_loop(&b, 4));
    assert!(!contains_continue_block(&b, 4));
}

#[test]
fn loops_block_heads() {
    let b = Block { stmts: vec![let_stmt("x", lit_int(3))], expr: Some(Box::new(var("x"))) };
    assert!(matches!(extract_expr_from_first_stmt(&b).map(|e| &e.node), Some(ExprKind::Lit(Lit::Int(3)))));
    assert!(extract_first_expr(&b).is_none());
    let b2 = Block { stmts: vec![Stmt::Expr(Box::new(lit_int(5)))], expr: None };
    assert!(matches!(extract_first_expr(&b2).map(|e| &e.node), Some(ExprKind::Lit(Lit::Int(5)))));
    assert!(extract_expr_from_first_stmt(&b2).is_none());
    assert!(is_loop(&loop_expr(1, vec![], None, LoopSource::Loop)));
    assert!(!is_loop(&lit_int(1)));
    assert!(is_conditional(&ex(ExprKind::If(Box::new(var("c")), Box::new(lit_int(1)), None))));
    assert_eq!(path_name(&var("abc")), Some("abc".to_string()));
    assert_eq!(path_name(&ex(ExprKind::Path(path(&["a", "b"])))), None);
}

use rust_tools::consts::IntTy;
use rust_tools::loops::{
    check_for_loop_over_map_kv, check_for_loop_reverse_range, is_len_call, match_var, pat_is_wild, uses_var, Bound,
    ForRange, Integral, KvKind, RefTarget, ReverseRange,
};

fn bound(v: i128, text: &str) -> Option<Bound> {
    Some(Bound { value: Some(Integral::Int(IntTy::I32, v)), snippet: text.to_string() })
}

#[test]
fn loops_reverse_range() {
    let r = ForRange { start: bound(10, "10"), end: bound(0, "0"), closed: false };
    match check_for_loop_reverse_range(&r) {
        Some(ReverseRange::Reversed(s)) => assert_eq!(s, "(0..10).rev()"),
        other => panic!("unexpected {:?}", other),
    }
    let c = ForRange { start: bound(10, "MAX"), end: bound(0, "MIN"), closed: true };
    match check_for_loop_reverse_range(&c) {
        Some(ReverseRange::Reversed(s)) => assert_eq!(s, "(MIN...MAX).rev()"),
        other => panic!("unexpected {:?}", other),
    }
    let eq = ForRange { start: bound(3, "3"), end: bound(3, "3"), closed: false };
    assert!(matches!(check_for_loop_reverse_range(&eq), Some(ReverseRange::Empty)));
    let eq_closed = ForRange { start: bound(3, "3"), end: bound(3, "3"), closed: true };
    assert!(check_for_loop_reverse_range(&eq_closed).is_none());
    let up = ForRange { start: bound(0, "0"), end: bound(10, "10"), closed: false };
    assert!(check_for_loop_reverse_range(&up).is_none());
    let mixed = ForRange {
        start: Some(Bound { value: Some(Integral::Int(IntTy::I64, 10)), snippet: "10".to_string() }),
        end: bound(0, "0"),
        closed: false,
    };
    assert!(check_for_loop_reverse_range(&mixed).is_none());
    let open = ForRange { start: bound(10, "10"), end: None, closed: false };
    assert!(check_for_loop_reverse_range(&open).is_none());
}

#[test]
fn loops_uses_and_wild_patterns() {
    let body = ex(ExprKind::Block(Block {
        stmts: vec![let_stmt("y", ex(ExprKind::Binary(BinOpKind::BiAdd, Box::new(var("_k")), Box::new(lit_int(1)))))],
        expr: None,
    }));
    assert!(uses_var(&body, "_k"));
    assert!(!uses_var(&body, "_v"));
    assert!(match_var(&var("x"), "x"));
    assert!(!match_var(&var("x"), "y"));
    assert!(pat_is_wild(&Pat::Wild, &body));
    assert!(pat_is_wild(&binding("_v"), &body));
    assert!(!pat_is_wild(&binding("_k"), &body));
    assert!(!pat_is_wild(&binding("v"), &body));
    let in_pattern = ex(ExprKind::Match(
        Box::new(lit_int(1)),
        vec![arm(Pat::Lit(Box::new(var("_c"))), lit_int(2))],
        MatchSource::Normal,
    ));
    assert!(uses_var(&in_pattern, "_c"));
    let len = ex(ExprKind::MethodCall("len".to_string(), vec![var("v")]));
    assert!(is_len_call(&len, "v"));
    assert!(!is_len_call(&len, "w"));
}

#[test]
fn loops_for_kv_map() {
    let pat = Pat::Tuple(vec![binding("_k"), binding("v")], None);
    let arg = Expr { id: 5, node: ExprKind::AddrOf(Mutability::MutMutable, Box::new(Expr { id: 6, node: ExprKind::Path(path(&["m"])), attrs: vec![] })), attrs: vec![] };
    let body = var("v");
    let t = Some(RefTarget { mutbl: Mutability::MutMutable, is_map: true });
    let l = check_for_loop_over_map_kv(&pat, &arg, &body, t).expect("values");
    assert_eq!((l.kind, l.kept, l.method.as_str(), l.receiver), (KvKind::Value, 1, "values_mut", 6));
    let pat2 = Pat::Tuple(vec![binding("k"), Pat::Wild], None);
    let l2 = check_for_loop_over_map_kv(&pat2, &arg, &var("k"), t).expect("keys");
    assert_eq!((l2.kind, l2.kept, l2.method.as_str()), (KvKind::Key, 0, "keys"));
    let not_map = Some(RefTarget { mutbl: Mutability::MutImmutable, is_map: false });
    assert!(check_for_loop_over_map_kv(&pat2, &arg, &var("k"), not_map).is_none());
    assert!(check_for_loop_over_map_kv(&pat2, &arg, &var("k"), None).is_none());
    let both_used = Pat::Tuple(vec![binding("k"), binding("v")], None);
    assert!(check_for_loop_over_map_kv(&both_used, &arg, &body, t).is_none());
}

#[test]
fn loops_unused_collect() {
    let collect = Stmt::Semi(Box::new(ex(ExprKind::MethodCall("collect".to_string(), vec![var("it")]))));
    assert!(LoopPass.check_stmt(&collect, true));
    assert!(!LoopPass.check_stmt(&collect, false));
    let kept = Stmt::Expr(Box::new(ex(ExprKind::MethodCall("collect".to_string(), vec![var("it")]))));
    assert!(!LoopPass.check_stmt(&kept, true));
    let other = Stmt::Semi(Box::new(ex(ExprKind::MethodCall("count".to_string(), vec![var("it")]))));
    assert!(!LoopPass.check_stmt(&other, true));
}

fn while_let_next(receiver_id: u32) -> Expr {
    let next = ex(ExprKind::MethodCall(
        "next".to_string(),
        vec![Expr { id: receiver_id, node: ExprKind::Path(path(&["it"])), attrs: vec![] }],
    ));
    ex(ExprKind::Match(
        Box::new(next),
        vec![
            arm(Pat::TupleStruct(path(&["std", "option", "Option", "Some"]), vec![binding("x")], None), var("x")),
            arm(Pat::Wild, ex(ExprKind::Break(None, None))),
        ],
        MatchSource::WhileLetDesugar,
    ))
}

#[test]
fn loops_while_let_on_iterator() {
    let facts = IterFacts { iterator_next: true, refutable: false, used_after: false, nested: false };
    assert_eq!(LoopPass.check_expr(&while_let_next(12), facts), vec![LoopLint::WhileLetOnIterator(12)]);
    assert_eq!(LoopPass.check_expr(&while_let_next(12), NO_FACTS), vec![]);
    let used = IterFacts { used_after: true, ..facts };
    assert_eq!(LoopPass.check_expr(&while_let_next(12), used), vec![]);
    let refutable = IterFacts { refutable: true, ..facts };
    assert_eq!(LoopPass.check_expr(&while_let_next(12), refutable), vec![]);
}

use rust_tools::loops::{check_arg_type, check_for_loop_arg, is_iterable_array, is_ref_iterable_type, ForArgFacts, ForArgLint, TyKind};

fn call_on(method: &str, receiver_id: u32) -> Expr {
    ex(ExprKind::MethodCall(
        method.to_string(),
        vec![Expr { id: receiver_id, node: ExprKind::Path(path(&["v"])), attrs: vec![] }],
    ))
}

fn arg_facts(receiver_ty: TyKind, arg_ty: TyKind) -> ForArgFacts {
    ForArgFacts { receiver_ty, arg_ty, into_iter_trait: true, into_iter_by_ref: false, next_is_iterator: true }
}

#[test]
fn loops_for_loop_arg() {
    assert_eq!(
        check_for_loop_arg(&call_on("iter", 3), arg_facts(TyKind::Vec, TyKind::Other)),
        vec![ForArgLint::ExplicitIterLoop { mutable: false, object: 3 }]
    );
    assert_eq!(
        check_for_loop_arg(&call_on("iter_mut", 3), arg_facts(TyKind::Array(4), TyKind::Other)),
        vec![ForArgLint::ExplicitIterLoop { mutable: true, object: 3 }]
    );
    assert_eq!(check_for_loop_arg(&call_on("iter", 3), arg_facts(TyKind::Array(40), TyKind::Other)), vec![]);
    assert_eq!(
        check_for_loop_arg(&call_on("into_iter", 3), arg_facts(TyKind::Vec, TyKind::Other)),
        vec![ForArgLint::ExplicitIntoIterLoop { object: 3 }]
    );
    let by_ref = ForArgFacts { into_iter_by_ref: true, ..arg_facts(TyKind::Vec, TyKind::Other) };
    assert_eq!(
        check_for_loop_arg(&call_on("into_iter", 3), by_ref),
        vec![ForArgLint::ExplicitIterLoop { mutable: false, object: 3 }]
    );
    assert_eq!(check_for_loop_arg(&call_on("next", 3), arg_facts(TyKind::Other, TyKind::Option)), vec![ForArgLint::IterNextLoop]);
    assert_eq!(check_for_loop_arg(&var("o"), arg_facts(TyKind::Other, TyKind::Option)), vec![ForArgLint::OverOption]);
    assert_eq!(check_for_loop_arg(&var("r"), arg_facts(TyKind::Other, TyKind::Result)), vec![ForArgLint::OverResult]);
    assert_eq!(check_arg_type(TyKind::Vec), None);
    assert!(is_iterable_array(TyKind::Array(32)));
    assert!(!is_iterable_array(TyKind::Array(33)));
    assert!(is_ref_iterable_type(TyKind::BTreeSet));
    assert!(!is_ref_iterable_type(TyKind::Option));
}

use rust_tools::loops::{check_for_loop_range, RangeStrings};

fn local(name: &str, def: u32) -> Expr {
    ex(ExprKind::Path(QPath::Resolved(None, Path { segments: vec![name.to_string()], def: Def::Local(def) })))
}

fn index(seq: Expr, idx: Expr) -> Expr {
    ex(ExprKind::Index(Box::new(seq), Box::new(idx)))
}

fn body_of(stmts: Vec<Stmt>) -> Expr {
    ex(ExprKind::Block(Block { stmts, expr: None }))
}

fn texts(start: &str, end: &str, plus: &str) -> RangeStrings {
    RangeStrings { start: start.to_string(), end: end.to_string(), end_plus_one: plus.to_string() }
}

#[test]
fn loops_needless_range_loop_only_index() {
    let body = body_of(vec![Stmt::Semi(Box::new(ex(ExprKind::AssignOp(
        BinOpKind::BiAdd,
        Box::new(local("sum", 20)),
        Box::new(index(local("v", 30), local("i", 10))),
    ))))]);
    let end = ex(ExprKind::MethodCall("len".to_string(), vec![local("v", 30)]));
    let l = check_for_loop_range(&binding("i"), 10, &lit_int(0), Some(&end), false, &body, &texts("0", "v.len()", "v.len() + 1"), &vec![])
        .expect("lint");
    assert_eq!(l.message, "the loop variable `i` is only used to index `v`.");
    assert_eq!(l.pat_sugg, "<item>");
    assert_eq!(l.arg_sugg, "&v");
    let closed = check_for_loop_range(&binding("i"), 10, &lit_int(0), Some(&var("n")), true, &body, &texts("0", "n", "n + 1"), &vec![])
        .expect("lint");
    assert_eq!(closed.arg_sugg, "v.iter().take(n + 1)");
}

#[test]
fn loops_needless_range_loop_also_value() {
    let body = body_of(vec![Stmt::Semi(Box::new(ex(ExprKind::Assign(
        Box::new(index(local("v", 30), local("i", 10))),
        Box::new(local("i", 10)),
    ))))]);
    let l = check_for_loop_range(&binding("i"), 10, &lit_int(2), Some(&lit_int(10)), false, &body, &texts("2", "10", "10 + 1"), &vec![])
        .expect("lint");
    assert_eq!(l.message, "the loop variable `i` is used to index `v`");
    assert_eq!(l.pat_sugg, "(i, <item>)");
    assert_eq!(l.arg_sugg, "v.iter().enumerate().take(10).skip(2)");
}

#[test]
fn loops_needless_range_loop_not_reported() {
    let uses_v = body_of(vec![
        Stmt::Semi(Box::new(ex(ExprKind::Call(Box::new(var("f")), vec![local("v", 30)])))),
        Stmt::Semi(Box::new(index(local("v", 30), local("i", 10)))),
    ]);
    assert!(check_for_loop_range(&binding("i"), 10, &lit_int(0), None, false, &uses_v, &texts("0", "", ""), &vec![]).is_none());
    let one = body_of(vec![Stmt::Semi(Box::new(index(local("v", 30), local("i", 10))))]);
    assert!(check_for_loop_range(&binding("i"), 10, &lit_int(0), None, false, &one, &texts("0", "", ""), &vec![30]).is_none());
    let two = body_of(vec![
        Stmt::Semi(Box::new(index(local("v", 30), local("i", 10)))),
        Stmt::Semi(Box::new(index(local("w", 31), local("i", 10)))),
    ]);
    assert!(check_for_loop_range(&binding("i"), 10, &lit_int(0), None, false, &two, &texts("0", "", ""), &vec![]).is_none());
    assert!(check_for_loop_range(&Pat::Wild, 10, &lit_int(0), None, false, &one, &texts("0", "", ""), &vec![]).is_none());
    let open = check_for_loop_range(&binding("i"), 10, &lit_int(3), None, false, &one, &texts("3", "", ""), &vec![]).expect("lint");
    assert_eq!(open.arg_sugg, "v.iter().skip(3)");
}

use rust_tools::counter_loop::check_for_loop_explicit_counter;

fn counter_let(name: &str, def: u32, start: u128) -> Stmt {
    Stmt::Decl(Decl::Local(Local { pat_id: def, pat: binding(name), init: Some(Box::new(lit_int(start))), attrs: vec![] }))
}

fn bump(name: &str, def: u32, by: u128) -> Stmt {
    Stmt::Semi(Box::new(ex(ExprKind::AssignOp(BinOpKind::BiAdd, Box::new(local(name, def)), Box::new(lit_int(by))))))
}

fn for_loop(id: u32, body: Expr) -> Stmt {
    Stmt::Semi(Box::new(Expr { id, node: ExprKind::Loop(Block { stmts: vec![Stmt::Expr(Box::new(body))], expr: None }, LoopSource::ForLoop), attrs: vec![] }))
}

#[test]
fn loops_explicit_counter_reported() {
    let body = || body_of(vec![bump("count", 50, 1)]);
    let block = Block { stmts: vec![counter_let("count", 50, 0), for_loop(99, body())], expr: None };
    assert_eq!(check_for_loop_explicit_counter(&body(), 99, Some(&block)), vec!["count".to_string()]);
    assert!(check_for_loop_explicit_counter(&body(), 99, None).is_empty());
}

#[test]
fn loops_explicit_counter_not_reported() {
    let twice = || body_of(vec![bump("count", 50, 1), bump("count", 50, 1)]);
    let block = Block { stmts: vec![counter_let("count", 50, 0), for_loop(99, twice())], expr: None };
    assert!(check_for_loop_explicit_counter(&twice(), 99, Some(&block)).is_empty());

    let by_two = || body_of(vec![bump("count", 50, 2)]);
    let block = Block { stmts: vec![counter_let("count", 50, 0), for_loop(99, by_two())], expr: None };
    assert!(check_for_loop_explicit_counter(&by_two(), 99, Some(&block)).is_empty());

    let once = || body_of(vec![bump("count", 50, 1)]);
    let from_one = Block { stmts: vec![counter_let("count", 50, 1), for_loop(99, once())], expr: None };
    assert!(check_for_loop_explicit_counter(&once(), 99, Some(&from_one)).is_empty());

    let used_after = Block {
        stmts: vec![counter_let("count", 50, 0), for_loop(99, once())],
        expr: Some(Box::new(local("count", 50))),
    };
    assert!(check_for_loop_explicit_counter(&once(), 99, Some(&used_after)).is_empty());

    let in_if = || body_of(vec![Stmt::Expr(Box::new(ex(ExprKind::If(
        Box::new(var("c")),
        Box::new(body_of(vec![bump("count", 50, 1)])),
        None,
    ))))]);
    let block = Block { stmts: vec![counter_let("count", 50, 0), for_loop(99, in_if())], expr: None };
    assert!(check_for_loop_explicit_counter(&in_if(), 99, Some(&block)).is_empty());
}

use rust_tools::used_after::is_iterator_used_after_while_let;

fn with_id(id: u32, mut e: Expr) -> Expr {
    e.id = id;
    e
}

#[test]
fn loops_iterator_used_after_while_let() {
    let iter = || with_id(7, local("it", 40));
    let while_let = || Stmt::Semi(Box::new(ex(ExprKind::MethodCall("next".to_string(), vec![iter()]))));
    let after = Block {
        stmts: vec![while_let(), Stmt::Semi(Box::new(ex(ExprKind::MethodCall("count".to_string(), vec![local("it", 40)]))))],
        expr: None,
    };
    assert!(is_iterator_used_after_while_let(&iter(), Some(&after)));
    let before = Block {
        stmts: vec![Stmt::Semi(Box::new(local("it", 40))), while_let(), Stmt::Semi(Box::new(local("other", 41)))],
        expr: None,
    };
    assert!(!is_iterator_used_after_while_let(&iter(), Some(&before)));
    let in_tail = Block { stmts: vec![while_let()], expr: Some(Box::new(local("it", 40))) };
    assert!(is_iterator_used_after_while_let(&iter(), Some(&in_tail)));
    assert!(!is_iterator_used_after_while_let(&iter(), None));
    assert!(!is_iterator_used_after_while_let(&with_id(7, var("it")), Some(&after)));
}

use rust_tools::loop_nest::{is_loop_nested, is_nested, Ancestor, Parent};

fn the_loop() -> Expr {
    with_id(10, ex(ExprKind::Loop(Block { stmts: vec![], expr: None }, LoopSource::WhileLet)))
}

#[test]
fn loops_loop_nested_in_outer_loop() {
    let parents = vec![
        Ancestor { id: 11, node: Parent::Stmt },
        Ancestor { id: 12, node: Parent::Block(Block { stmts: vec![Stmt::Semi(Box::new(the_loop()))], expr: None }, Some(0)) },
        Ancestor { id: 13, node: Parent::Expr(true) },
    ];
    assert!(is_loop_nested(10, &var("it"), &parents));
    assert!(is_nested(Some(10), &var("it"), &parents));
    assert!(!is_nested(None, &var("it"), &parents));
    let not_a_name = ex(ExprKind::MethodCall("iter".to_string(), vec![var("v")]));
    assert!(is_loop_nested(10, &not_a_name, &vec![]));
}

#[test]
fn loops_loop_nested_ruled_out() {
    let bound_first = Block { stmts: vec![let_stmt("it", var("x"))], expr: Some(Box::new(the_loop())) };
    let parents = vec![
        Ancestor { id: 12, node: Parent::Block(bound_first, None) },
        Ancestor { id: 13, node: Parent::Expr(true) },
    ];
    assert!(!is_loop_nested(10, &var("it"), &parents));
    let assigned_first = Block {
        stmts: vec![Stmt::Semi(Box::new(ex(ExprKind::Assign(Box::new(var("it")), Box::new(var("y"))))))],
        expr: Some(Box::new(the_loop())),
    };
    let parents = vec![
        Ancestor { id: 12, node: Parent::Block(assigned_first, None) },
        Ancestor { id: 13, node: Parent::Expr(true) },
    ];
    assert!(!is_loop_nested(10, &var("it"), &parents));
    let other_first = Block { stmts: vec![let_stmt("other", var("x"))], expr: Some(Box::new(the_loop())) };
    let parents = vec![
        Ancestor { id: 12, node: Parent::Block(other_first, None) },
        Ancestor { id: 13, node: Parent::Expr(false) },
        Ancestor { id: 14, node: Parent::Expr(true) },
    ];
    assert!(is_loop_nested(10, &var("it"), &parents));
    let top = vec![Ancestor { id: 11, node: Parent::Stmt }, Ancestor { id: 12, node: Parent::Other }];
    assert!(!is_loop_nested(10, &var("it"), &top));
    assert!(!is_loop_nested(10, &var("it"), &vec![]));
}

#[test]
fn author_documented_example() {
    let cond = ex(ExprKind::Binary(BinOpKind::BiEq, Box::new(var("x")), Box::new(lit_int(42))));
    let then = ex(ExprKind::Block(Block { stmts: vec![], expr: None }));
    let e = ex(ExprKind::If(Box::new(cond), Box::new(then), None));
    let mut v = PrintVisitor::new("item");
    v.visit_expr(&e);
    let expected = String::from("    if let Expr_::ExprIf(ref cond, ref then, None) = item.node,\n")
        + "    if let Expr_::ExprBinary(BinOp::Eq, ref left, ref right) = cond.node,\n"
        + "    if let Expr_::ExprPath(ref path) = left.node,\n"
        + "    if let Expr_::ExprLit(ref lit) = right.node,\n"
        + "    if let LitKind::Int(42, _) = lit.node,\n";
    assert!(v.out.starts_with(&expected), "{}", v.out);
}
