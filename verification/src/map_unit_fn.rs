//! The `option_map_unit_fn` and `result_map_unit_fn` lints: `x.map(f)` as a
//! statement, where `f` is a function or closure that returns `()`, reads
//! better as `if let Some(..) = x { f(..) }`.
use vstd::prelude::*;
use vstd::string::*;
use crate::cargo_clippy::same_text;
use crate::text::{replace, replace_all};

verus! {

broadcast use vstd::string::group_string_axioms;

/// The types the lints tell apart.
#[derive(Copy, Clone, Debug, PartialEq, Eq, Structural)]
pub enum UnitTy {
    /// A tuple type with this many elements; `()` has none.
    Tuple(usize),
    /// The never type `!`.
    Never,
    /// Any other type.
    Other,
}

/// Whether `t` is `()` or `!`.
pub open spec fn unit_ty(t: UnitTy) -> bool {
    t == UnitTy::Tuple(0) || t == UnitTy::Never
}

/// Whether `t` is `()` or `!`.
pub fn is_unit_type(t: &UnitTy) -> (r: bool)
    ensures
        r == unit_ty(*t),
{
    match t {
        UnitTy::Tuple(n) => *n == 0,
        UnitTy::Never => true,
        UnitTy::Other => false,
    }
}

/// The type of the function handed to `map`.
#[derive(Copy, Clone, Debug, PartialEq, Eq, Structural)]
pub enum FnTy {
    /// A function item, with the output type of its signature where the
    /// signature has no late-bound regions.
    FnDef(Option<UnitTy>),
    /// Anything else, closures among them.
    Other,
}

/// Whether `t` is a function item that returns `()` or `!`.
pub open spec fn unit_fn(t: FnTy) -> bool {
    t matches FnTy::FnDef(Some(o)) && unit_ty(o)
}

/// Whether `t` is a function item that returns `()` or `!`.
pub fn is_unit_function(t: &FnTy) -> (r: bool)
    ensures
        r == unit_fn(*t),
{
    match t {
        FnTy::FnDef(Some(o)) => is_unit_type(o),
        _ => false,
    }
}

/// An expression in a closure's body: the span of its source, its type,
/// and as much of its form as the suggestion needs.
#[derive(Debug)]
pub struct BodyExpr {
    pub span: u32,
    pub ty: UnitTy,
    pub node: BodyNode,
}

/// The forms of a closure's body expression.
#[derive(Debug)]
pub enum BodyNode {
    /// A function call.
    Call,
    /// A method call.
    MethodCall,
    /// A block: its statements and its final expression.
    Block(Vec<BodyStmt>, Option<Box<BodyExpr>>),
    /// Anything else.
    Other,
}

/// A statement of a block, with the span the suggestion takes of it.
#[derive(Copy, Clone, Debug, PartialEq, Eq, Structural)]
pub enum BodyStmt {
    /// A declaration, with the span of the declaration.
    Decl(u32),
    /// An expression without a semicolon, with the span of the expression.
    Expr(u32),
    /// An expression with a semicolon, with the span of the statement.
    Semi(u32),
}

/// The span the suggestion takes of a statement.
pub open spec fn stmt_span(s: BodyStmt) -> u32 {
    match s {
        BodyStmt::Decl(sp) => sp,
        BodyStmt::Expr(sp) => sp,
        BodyStmt::Semi(sp) => sp,
    }
}

/// Whether `e` has type `()` or `!`.
pub fn is_unit_expression(e: &BodyExpr) -> (r: bool)
    ensures
        r == unit_ty(e.ty),
{
    is_unit_type(&e.ty)
}

/// The span that the suggestion writes for a closure body `e` of type `()`
/// or `!`: a call stands for itself, `{ x }` for what `x` reduces to,
/// `{ s }` with one statement for that statement; anything else, or a body
/// of another type, has none.
pub open spec fn reduced_span(e: BodyExpr) -> Option<u32>
    decreases e,
{
    if !unit_ty(e.ty) {
        None
    } else {
        match e.node {
            BodyNode::Call => Some(e.span),
            BodyNode::MethodCall => Some(e.span),
            BodyNode::Block(stmts, x) => {
                if stmts@.len() == 0 {
                    match x {
                        Some(inner) => reduced_span(*inner),
                        None => None,
                    }
                } else if stmts@.len() == 1 && x is None {
                    Some(stmt_span(stmts@[0]))
                } else {
                    None
                }
            },
            BodyNode::Other => None,
        }
    }
}

/// The span that the suggestion writes for the closure body `e`: braces and
/// semicolons around a unit expression are taken off.
pub fn reduce_unit_expression(e: &BodyExpr) -> (r: Option<u32>)
    ensures
        r == reduced_span(*e),
    decreases e,
{
    if !is_unit_expression(e) {
        return None;
    }
    match &e.node {
        BodyNode::Call => Some(e.span),
        BodyNode::MethodCall => Some(e.span),
        BodyNode::Block(stmts, x) => {
            if stmts.len() == 0 {
                match x {
                    Some(inner) => reduce_unit_expression(inner),
                    None => None,
                }
            } else if stmts.len() == 1 && x.is_none() {
                match stmts[0] {
                    BodyStmt::Decl(sp) => Some(sp),
                    BodyStmt::Expr(sp) => Some(sp),
                    BodyStmt::Semi(sp) => Some(sp),
                }
            } else {
                None
            }
        },
        BodyNode::Other => None,
    }
}

/// A closure: the spans of its parameters' patterns, and its body.
#[derive(Debug)]
pub struct Closure {
    pub params: Vec<u32>,
    pub body: BodyExpr,
}

/// Whether `c` takes one parameter and its body has type `()` or `!`.
pub open spec fn unit_closure_spec(c: Closure) -> bool {
    c.params@.len() == 1 && unit_ty(c.body.ty)
}

/// The span of the parameter's pattern and the body of a closure `c` that
/// takes one parameter and whose body has type `()` or `!`.
pub fn unit_closure(c: &Closure) -> (r: Option<(u32, &BodyExpr)>)
    ensures
        r matches Some((sp, body)) ==> unit_closure_spec(*c) && sp == c.params@[0] && *body == c.body,
        r is None ==> !unit_closure_spec(*c),
{
    if c.params.len() == 1 && is_unit_expression(&c.body) {
        Some((c.params[0], &c.body))
    } else {
        None
    }
}

/// The source text of `span` in `src`, the first entry for it, or
/// `default` where `src` has none.
pub open spec fn snippet_text(src: Seq<(u32, String)>, span: u32, default: Seq<char>) -> Seq<char>
    decreases src.len(),
{
    if src.len() == 0 {
        default
    } else if src[0].0 == span {
        src[0].1@
    } else {
        snippet_text(src.drop_first(), span, default)
    }
}

/// The source text of `span`, or `default` where the source map has none.
pub fn snippet(src: &Vec<(u32, String)>, span: u32, default: &str) -> (r: String)
    ensures
        r@ == snippet_text(src@, span, default@),
{
    let mut i: usize = 0;
    proof {
        assert(src@.skip(0) =~= src@);
    }
    while i < src.len()
        invariant
            i <= src@.len(),
            snippet_text(src@, span, default@) == snippet_text(src@.skip(i as int), span, default@),
        decreases src@.len() - i,
    {
        proof {
            assert(src@.skip(i as int).drop_first() =~= src@.skip(i + 1));
        }
        if src[i].0 == span {
            return src[i].1.clone();
        }
        i = i + 1;
    }
    String::from_str(default)
}

/// What `map` is called on.
#[derive(Copy, Clone, Debug, PartialEq, Eq, Structural)]
pub enum MapTy {
    Option,
    Result,
    Other,
}

/// The form of the receiver of `map`.
#[derive(Copy, Clone, Debug, PartialEq, Eq, Structural)]
pub enum ReceiverKind {
    /// A field access `x.field`.
    Field,
    /// A path `y`.
    Path,
    /// Anything else.
    Other,
}

/// The receiver of `map`: its span, its type and its form.
#[derive(Copy, Clone, Debug, PartialEq, Eq, Structural)]
pub struct MapReceiver {
    pub span: u32,
    pub ty: MapTy,
    pub kind: ReceiverKind,
}

/// The function handed to `map`: its span, its type, and what it is where
/// it is a closure.
#[derive(Debug)]
pub struct MapFn {
    pub span: u32,
    pub ty: FnTy,
    pub closure: Option<Closure>,
}

/// The name of the binding in the suggestion: `x.field` gives `x_field`,
/// `y` gives `_y`, anything else `_`.
pub open spec fn binding_name(src: Seq<(u32, String)>, recv: MapReceiver) -> Seq<char> {
    match recv.kind {
        ReceiverKind::Field => replace_all(snippet_text(src, recv.span, "_"@), "."@, "_"@),
        ReceiverKind::Path => "_"@ + snippet_text(src, recv.span, ""@),
        ReceiverKind::Other => "_"@,
    }
}

/// Builds the name of the binding in the suggestion.
pub fn let_binding_name(src: &Vec<(u32, String)>, recv: &MapReceiver) -> (r: String)
    ensures
        r@ == binding_name(src@, *recv),
{
    match recv.kind {
        ReceiverKind::Field => {
            let text = snippet(src, recv.span, "_");
            proof {
                reveal_strlit(".");
            }
            replace(text.as_str(), ".", "_")
        },
        ReceiverKind::Path => {
            let text = snippet(src, recv.span, "");
            let mut r = String::from_str("_");
            r.append(text.as_str());
            r
        },
        ReceiverKind::Other => String::from_str("_"),
    }
}

/// The message of both lints.
pub open spec fn message_text(function_type: Seq<char>, map_type: Seq<char>) -> Seq<char> {
    "called `map(f)` on an "@ + map_type + " value where `f` is a unit "@ + function_type
}

/// The message of both lints: `function_type` is "function" or "closure",
/// `map_type` "Option" or "Result".
pub fn suggestion_msg(function_type: &str, map_type: &str) -> (r: String)
    ensures
        r@ == message_text(function_type@, map_type@),
{
    let mut r = String::from_str("called `map(f)` on an ");
    r.append(map_type);
    r.append(" value where `f` is a unit ");
    r.append(function_type);
    r
}

/// Which of the two lints reports.
#[derive(Copy, Clone, Debug, PartialEq, Eq, Structural)]
pub enum MapUnitKind {
    OptionMapUnitFn,
    ResultMapUnitFn,
}

/// A report: the lint, its message, the statement's replacement, and
/// whether the suggestion is marked of unspecified applicability.
#[derive(Debug)]
pub struct MapUnitLint {
    pub lint: MapUnitKind,
    pub message: String,
    pub suggestion: String,
    pub unspecified: bool,
}

/// The lint, type name and variant that go with what `map` is called on.
pub open spec fn map_kind(t: MapTy) -> Option<(MapUnitKind, Seq<char>, Seq<char>)> {
    match t {
        MapTy::Option => Some((MapUnitKind::OptionMapUnitFn, "Option"@, "Some"@)),
        MapTy::Result => Some((MapUnitKind::ResultMapUnitFn, "Result"@, "Ok"@)),
        MapTy::Other => None,
    }
}

/// What the lints report on the statement `recv.map(f);`: on an `Option`
/// or a `Result`, where `f` is a function item returning `()` or `!`, a
/// call of it under `if let`; where `f` is a closure of one parameter whose
/// body has such a type, its reduced body under `if let`, or `...` where
/// the body does not reduce; nothing otherwise.
pub open spec fn map_unit_report(src: Seq<(u32, String)>, recv: MapReceiver, f: MapFn) -> Option<
    (MapUnitKind, Seq<char>, Seq<char>, bool),
> {
    match map_kind(recv.ty) {
        None => None,
        Some((kind, map_type, variant)) => {
            let head = "if let "@ + variant + "("@;
            let value = snippet_text(src, recv.span, "_"@);
            if unit_fn(f.ty) {
                Some(
                    (
                        kind,
                        message_text("function"@, map_type),
                        head + binding_name(src, recv) + ") = "@ + value + " { "@ + snippet_text(src, f.span, "_"@)
                            + "(...) }"@,
                        true,
                    ),
                )
            } else {
                match f.closure {
                    Some(c) => if unit_closure_spec(c) {
                        let lead = head + snippet_text(src, c.params@[0], "_"@) + ") = "@ + value;
                        match reduced_span(c.body) {
                            Some(sp) => Some(
                                (
                                    kind,
                                    message_text("closure"@, map_type),
                                    lead + " { "@ + snippet_text(src, sp, "_"@) + " }"@,
                                    false,
                                ),
                            ),
                            None => Some((kind, message_text("closure"@, map_type), lead + " { ... }"@, true)),
                        }
                    } else {
                        None
                    },
                    None => None,
                }
            }
        },
    }
}

/// A report as plain values.
pub open spec fn lint_view(r: Option<MapUnitLint>) -> Option<(MapUnitKind, Seq<char>, Seq<char>, bool)> {
    match r {
        Some(l) => Some((l.lint, l.message@, l.suggestion@, l.unspecified)),
        None => None,
    }
}

/// The lints on the statement `recv.map(f);`, with the source map `src`.
pub fn lint_map_unit_fn(src: &Vec<(u32, String)>, recv: &MapReceiver, f: &MapFn) -> (r: Option<MapUnitLint>)
    ensures
        lint_view(r) == map_unit_report(src@, *recv, *f),
{
    let (lint, map_type, variant) = match recv.ty {
        MapTy::Option => (MapUnitKind::OptionMapUnitFn, "Option", "Some"),
        MapTy::Result => (MapUnitKind::ResultMapUnitFn, "Result", "Ok"),
        MapTy::Other => {
            return None;
        },
    };
    proof {
        reveal_strlit("Option");
        reveal_strlit("Some");
        reveal_strlit("Result");
        reveal_strlit("Ok");
    }
    let mut head = String::from_str("if let ");
    head.append(variant);
    head.append("(");
    let value = snippet(src, recv.span, "_");
    if is_unit_function(&f.ty) {
        let message = suggestion_msg("function", map_type);
        let mut suggestion = head;
        let name = let_binding_name(src, recv);
        suggestion.append(name.as_str());
        suggestion.append(") = ");
        suggestion.append(value.as_str());
        suggestion.append(" { ");
        let callee = snippet(src, f.span, "_");
        suggestion.append(callee.as_str());
        suggestion.append("(...) }");
        return Some(MapUnitLint { lint, message, suggestion, unspecified: true });
    }
    let c = match &f.closure {
        Some(c) => c,
        None => {
            return None;
        },
    };
    match unit_closure(c) {
        Some((binding, body)) => {
            let message = suggestion_msg("closure", map_type);
            let mut suggestion = head;
            let pat = snippet(src, binding, "_");
            suggestion.append(pat.as_str());
            suggestion.append(") = ");
            suggestion.append(value.as_str());
            match reduce_unit_expression(body) {
                Some(sp) => {
                    suggestion.append(" { ");
                    let reduced = snippet(src, sp, "_");
                    suggestion.append(reduced.as_str());
                    suggestion.append(" }");
                    Some(MapUnitLint { lint, message, suggestion, unspecified: false })
                },
                None => {
                    suggestion.append(" { ... }");
                    Some(MapUnitLint { lint, message, suggestion, unspecified: true })
                },
            }
        },
        None => None,
    }
}

/// A method call with one argument: the method's name, its receiver and
/// the argument.
#[derive(Debug)]
pub struct MapCall {
    pub method: String,
    pub receiver: MapReceiver,
    pub func: MapFn,
}

/// A statement: whether it comes from a macro's expansion, whether it is an
/// expression with a semicolon, and the method call that expression is,
/// where it is one with one argument.
#[derive(Debug)]
pub struct MapStmt {
    pub in_macro: bool,
    pub semi: bool,
    pub call: Option<MapCall>,
}

/// What the lints report on a statement.
pub open spec fn stmt_report(src: Seq<(u32, String)>, stmt: MapStmt) -> Option<
    (MapUnitKind, Seq<char>, Seq<char>, bool),
> {
    if stmt.in_macro || !stmt.semi {
        None
    } else {
        match stmt.call {
            Some(c) => if c.method@ == "map"@ {
                map_unit_report(src, c.receiver, c.func)
            } else {
                None
            },
            None => None,
        }
    }
}

/// The pass of the two lints.
pub struct Pass;

impl Pass {
    /// Checks a statement `x.map(f);` outside macros.
    pub fn check_stmt(&self, src: &Vec<(u32, String)>, stmt: &MapStmt) -> (r: Option<MapUnitLint>)
        ensures
            lint_view(r) == stmt_report(src@, *stmt),
    {
        if stmt.in_macro || !stmt.semi {
            return None;
        }
        match &stmt.call {
            Some(c) => if same_text(c.method.as_str(), "map") {
                lint_map_unit_fn(src, &c.receiver, &c.func)
            } else {
                None
            },
            None => None,
        }
    }
}

} // verus!
