use std::collections::HashMap;

use prql_reporting::annotate::{annotation_labels, label_references, RenderError};
use prql_reporting::ast::{
    Expr, ExprKind, Frame, FrameColumn, Ident, Span, Stmt, StmtKind, TransformKind, Ty,
};
use prql_reporting::context::{Category, Context, Decl, DeclKind, Module, NS_DEFAULT_DB};
use prql_reporting::frames::collect_frames;
use prql_reporting::text::{append_decimal, location_suffix};

// from db.orders
// filter amount > 10
// orders: amount, id, status
const SOURCE: &str = "from db.orders\nfilter amount > 10\norders: amount, id, status\n";

fn span(start: usize, end: usize) -> Span {
    Span { start, end }
}

fn ident(path: &[&str], name: &str) -> Ident {
    Ident {
        path: path.iter().map(|p| p.to_string()).collect(),
        name: name.to_string(),
    }
}

fn ident_expr(path: &[&str], name: &str, at: Option<Span>, target_id: Option<usize>) -> Expr {
    Expr { kind: ExprKind::Ident(ident(path, name)), span: at, ty: None, target_id }
}

fn literal(text: &str) -> Expr {
    Expr { kind: ExprKind::Literal(text.to_string()), span: None, ty: None, target_id: None }
}

fn orders_frame() -> Frame {
    Frame {
        columns: ["amount", "id", "status"]
            .iter()
            .map(|n| FrameColumn { name: n.to_string(), ty: "int".to_string() })
            .collect(),
    }
}

fn transform(kind: TransformKind, at: Option<Span>, ty: Option<Ty>) -> Expr {
    Expr { kind: ExprKind::TransformCall(Box::new(kind)), span: at, ty, target_id: None }
}

fn module(names: Vec<(&str, Decl)>) -> Module {
    Module { names: names.into_iter().map(|(n, d)| (n.to_string(), d)).collect() }
}

fn decl(kind: DeclKind, declared_at: Option<usize>) -> Decl {
    Decl { kind, declared_at }
}

/// `db.orders` is a base table declared on line 3 of SOURCE.
fn orders_context() -> Context {
    let orders = decl(DeclKind::TableDef { frame: orders_frame(), expr: None }, Some(1));
    let db = decl(DeclKind::Namespace(module(vec![("orders", orders)])), None);
    let mut span_map = HashMap::new();
    span_map.insert(1, span(34, 60));
    Context { root_mod: module(vec![("db", db)]), span_map }
}

/// `from db.orders | filter amount > 10`
fn orders_query() -> Vec<Stmt> {
    let from = transform(
        TransformKind::From(ident_expr(&["db"], "orders", Some(span(5, 14)), None)),
        Some(span(0, 14)),
        Some(Ty::Table(orders_frame())),
    );
    let cond = Expr {
        kind: ExprKind::Binary {
            left: Box::new(ident_expr(&[], "amount", Some(span(22, 28)), None)),
            op: ">".to_string(),
            right: Box::new(literal("10")),
        },
        span: Some(span(22, 33)),
        ty: None,
        target_id: None,
    };
    let filter = transform(
        TransformKind::Filter { filter: cond, tbl: from },
        Some(span(0, 33)),
        Some(Ty::Table(orders_frame())),
    );
    vec![Stmt { kind: StmtKind::Main(filter), span: Some(span(0, 33)) }]
}

fn names(f: &Frame) -> Vec<String> {
    f.columns.iter().map(|c| c.name.clone()).collect()
}

#[test]
fn table_reference_is_labelled_with_frame_and_line() {
    let labels = annotation_labels(&orders_query(), &orders_context(), &SOURCE.to_string());
    assert_eq!(labels.len(), 2);
    // the filter's condition is visited before the relation it reads from
    assert_eq!(labels[1].span, span(5, 14));
    assert_eq!(labels[1].message, "[db.orders] table [amount, id, status] at line 3");
    assert_eq!(labels[1].category, Category::TableRef);
}

#[test]
fn transforms_yield_anchor_spans_and_frames() {
    let frames = collect_frames(orders_query());
    assert_eq!(frames.len(), 2);
    // the filter is visited before the relation it reads from
    assert_eq!(frames[0].0, span(0, 14));
    assert_eq!(names(&frames[0].1), vec!["amount", "id", "status"]);
    assert_eq!(frames[1].0, span(5, 14));
    assert_eq!(names(&frames[1].1), vec!["amount", "id", "status"]);
}

#[test]
fn unresolved_identifier_has_empty_body() {
    let labels = annotation_labels(&orders_query(), &orders_context(), &SOURCE.to_string());
    assert_eq!(labels[0].span, span(22, 28));
    assert_eq!(labels[0].message, "[amount] ");
    assert_eq!(labels[0].category, Category::Unknown);

    let stmts = vec![Stmt {
        kind: StmtKind::Main(ident_expr(&[], "x", Some(span(0, 1)), None)),
        span: None,
    }];
    let ctx = Context { root_mod: module(vec![]), span_map: HashMap::new() };
    let labels = annotation_labels(&stmts, &ctx, &"x\n".to_string());
    assert_eq!(labels.len(), 1);
    assert_eq!(labels[0].message, "[x] ");
    assert_eq!(labels[0].category, Category::Unknown);
}

#[test]
fn target_id_fallback_reads_variable() {
    let source = "let a = 1\n  + 2\nfrom t | select a\n";
    let mut span_map = HashMap::new();
    span_map.insert(9, span(0, 15));
    let ctx = Context { root_mod: module(vec![]), span_map };
    let stmts = vec![Stmt {
        kind: StmtKind::Main(ident_expr(&[], "a", Some(span(32, 33)), Some(9))),
        span: None,
    }];
    let labels = annotation_labels(&stmts, &ctx, &source.to_string());
    assert_eq!(labels.len(), 1);
    assert_eq!(labels[0].message, "[a] variable at lines 1-2");
    assert_eq!(labels[0].category, Category::ColumnRef);

    // a link whose position is unknown gives no location
    let stmts = vec![Stmt {
        kind: StmtKind::Main(ident_expr(&[], "a", Some(span(32, 33)), Some(4))),
        span: None,
    }];
    let labels = annotation_labels(&stmts, &ctx, &source.to_string());
    assert_eq!(labels[0].message, "[a] variable");
    assert_eq!(labels[0].category, Category::ColumnRef);
}

#[test]
fn location_suffix_names_one_line_or_a_range() {
    assert_eq!(location_suffix(2, 3), " at line 3");
    assert_eq!(location_suffix(4, 4), " at line 5");
    assert_eq!(location_suffix(0, 2), " at lines 1-2");
    assert_eq!(location_suffix(9, 120), " at lines 10-120");
    assert_eq!(location_suffix(usize::MAX, 0), format!(" at line {}", usize::MAX as u128 + 1));
}

#[test]
fn decimal_digits() {
    let mut s = String::from("n=");
    append_decimal(&mut s, 0);
    assert_eq!(s, "n=0");
    let mut s = String::new();
    append_decimal(&mut s, 1070);
    assert_eq!(s, "1070");
    let mut s = String::new();
    append_decimal(&mut s, u128::MAX);
    assert_eq!(s, u128::MAX.to_string());
}

#[test]
fn default_database_views_are_labelled() {
    let body = ident_expr(&[], "price", Some(span(20, 25)), None);
    let view = decl(
        DeclKind::TableDef { frame: orders_frame(), expr: Some(Box::new(body)) },
        None,
    );
    let base = decl(DeclKind::TableDef { frame: orders_frame(), expr: None }, None);
    let db = decl(DeclKind::Namespace(module(vec![("base", base), ("v", view)])), None);
    let ctx = Context { root_mod: module(vec![(NS_DEFAULT_DB, db)]), span_map: HashMap::new() };
    let labels = annotation_labels(&vec![], &ctx, &"table v = (from base | select price)\n".to_string());
    assert_eq!(labels.len(), 1);
    assert_eq!(labels[0].span, span(20, 25));
    assert_eq!(labels[0].message, "[price] ");
}

#[test]
fn transform_without_frame_is_skipped() {
    let from = transform(
        TransformKind::From(ident_expr(&["db"], "orders", Some(span(5, 14)), None)),
        Some(span(0, 14)),
        None,
    );
    let take = transform(
        TransformKind::Take { count: literal("3"), tbl: from },
        Some(span(0, 22)),
        Some(Ty::Scalar("int".to_string())),
    );
    let sorted = transform(
        TransformKind::Sort { by: vec![], tbl: take },
        Some(span(0, 30)),
        Some(Ty::Table(orders_frame())),
    );
    let frames = collect_frames(vec![Stmt { kind: StmtKind::Main(sorted), span: None }]);
    assert_eq!(frames.len(), 1);
    assert_eq!(frames[0].0, span(0, 22));
}

#[test]
fn both_passes_are_deterministic() {
    let a = annotation_labels(&orders_query(), &orders_context(), &SOURCE.to_string());
    let b = annotation_labels(&orders_query(), &orders_context(), &SOURCE.to_string());
    assert_eq!(a.len(), b.len());
    for (x, y) in a.iter().zip(b.iter()) {
        assert_eq!(x.span, y.span);
        assert_eq!(x.message, y.message);
        assert_eq!(x.category, y.category);
    }
    let f = collect_frames(orders_query());
    let g = collect_frames(orders_query());
    assert_eq!(f.len(), g.len());
    for (x, y) in f.iter().zip(g.iter()) {
        assert_eq!(x.0, y.0);
        assert_eq!(names(&x.1), names(&y.1));
    }
    let r1 = label_references(orders_query(), &orders_context(), "q.prql".to_string(), SOURCE.to_string());
    let r2 = label_references(orders_query(), &orders_context(), "q.prql".to_string(), SOURCE.to_string());
    assert_eq!(r1.unwrap().0, r2.unwrap().0);
}

#[test]
fn report_draws_labels_and_returns_statements() {
    let (bytes, stmts) =
        label_references(orders_query(), &orders_context(), "q.prql".to_string(), SOURCE.to_string())
            .unwrap();
    let text = String::from_utf8_lossy(&bytes);
    assert!(text.contains("[db.orders] table [amount, id, status] at line 3"));
    assert!(text.contains("q.prql"));
    assert_eq!(stmts.len(), 1);
    match &stmts[0].kind {
        StmtKind::Main(e) => assert!(matches!(e.kind, ExprKind::TransformCall(_))),
        _ => panic!("statement kind changed"),
    }
}

#[test]
fn categories_and_bodies_follow_the_declaration() {
    let cases: Vec<(&str, DeclKind, &str, Category)> = vec![
        ("a", DeclKind::ValueAlias(Box::new(literal("1"))), "[a] Expr", Category::ValueAlias),
        ("c", DeclKind::Column(7), "[c] Column (target 7)", Category::ColumnRef),
        ("f", DeclKind::FuncDef("f x y".to_string()), "[f] FuncDef: f x y", Category::FunctionRef),
        ("m", DeclKind::Namespace(module(vec![])), "[m] Module", Category::NamespaceRef),
        ("l", DeclKind::LayeredNamespace(vec![]), "[l] LayeredModules", Category::NamespaceRef),
        ("n", DeclKind::Unresolved, "[n] NoResolve", Category::Unknown),
        ("w", DeclKind::Wildcard("t".to_string()), "[w] Wildcard (default: t)", Category::Unknown),
    ];
    for (name, kind, message, category) in cases {
        let ctx = Context { root_mod: module(vec![(name, decl(kind, None))]), span_map: HashMap::new() };
        let stmts = vec![Stmt {
            kind: StmtKind::Main(ident_expr(&[], name, Some(span(0, 1)), None)),
            span: None,
        }];
        let labels = annotation_labels(&stmts, &ctx, &"x\n".to_string());
        assert_eq!(labels.len(), 1);
        assert_eq!(labels[0].message, message);
        assert_eq!(labels[0].category, category);
    }
}

#[test]
fn lookup_descends_only_through_namespaces() {
    let ctx = orders_context();
    assert!(ctx.root_mod.get(&ident(&["db"], "orders")).is_some());
    assert!(ctx.root_mod.get(&ident(&["db"], "missing")).is_none());
    assert!(ctx.root_mod.get(&ident(&["db", "orders"], "amount")).is_none());
    assert!(ctx.root_mod.get(&ident(&[], "db")).is_some());
}

#[test]
fn unspanned_identifiers_get_no_label() {
    let stmts = vec![Stmt {
        kind: StmtKind::Main(Expr {
            kind: ExprKind::List(vec![
                ident_expr(&[], "p", None, None),
                ident_expr(&[], "q", Some(span(2, 3)), None),
            ]),
            span: None,
            ty: None,
            target_id: None,
        }),
        span: None,
    }];
    let ctx = Context { root_mod: module(vec![]), span_map: HashMap::new() };
    let labels = annotation_labels(&stmts, &ctx, &"p, q\n".to_string());
    assert_eq!(labels.len(), 1);
    assert_eq!(labels[0].message, "[q] ");
}

#[test]
fn empty_source_gives_no_location() {
    let mut span_map = HashMap::new();
    span_map.insert(1, span(0, 0));
    let ctx = Context { root_mod: module(vec![("c", decl(DeclKind::Column(2), Some(1)))]), span_map };
    let stmts = vec![Stmt {
        kind: StmtKind::Main(ident_expr(&[], "c", Some(span(0, 0)), None)),
        span: None,
    }];
    let labels = annotation_labels(&stmts, &ctx, &String::new());
    assert_eq!(labels[0].message, "[c] Column (target 2)");
}

#[test]
fn textual_forms() {
    assert_eq!(ident(&["a", "b"], "c").to_text(), "a.b.c");
    assert_eq!(ident(&[], "c").to_text(), "c");
    assert_eq!(orders_frame().to_text(), "[amount, id, status]");
    assert_eq!(Frame { columns: vec![] }.to_text(), "[]");
    let copy = orders_frame().duplicate();
    assert_eq!(names(&copy), vec!["amount", "id", "status"]);
}

#[test]
fn empty_source_with_labels_is_refused() {
    let stmts = vec![Stmt {
        kind: StmtKind::Main(ident_expr(&[], "x", Some(span(0, 0)), None)),
        span: None,
    }];
    let ctx = Context { root_mod: module(vec![]), span_map: HashMap::new() };
    let r = label_references(stmts, &ctx, "q.prql".to_string(), String::new());
    assert_eq!(r.err(), Some(RenderError::EmptySource));
}

#[test]
fn empty_source_without_labels_is_drawn() {
    let stmts = vec![Stmt { kind: StmtKind::Main(literal("1")), span: None }];
    let ctx = Context { root_mod: module(vec![]), span_map: HashMap::new() };
    let (_, back) = label_references(stmts, &ctx, "q.prql".to_string(), String::new()).unwrap();
    assert_eq!(back.len(), 1);
}
