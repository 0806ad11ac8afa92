//! The tree walk that every pass builds on, and its order: statements left
//! to right, each node before its children (outer before inner), children
//! left to right. A pass says what it records at a single node (`Visitor`);
//! the walk visits every node, so no pass can leave a subtree out.
use vstd::prelude::*;
use crate::ast::{Expr, ExprKind, Stmt, StmtKind, TransformKind};

verus! {

broadcast use vstd::std_specs::vec::group_vec_axioms;

/// Every expression node of `e`, in pre-order.
pub open spec fn preorder(e: Expr) -> Seq<Expr>
    decreases e,
{
    seq![e] + match e.kind {
        ExprKind::Ident(_) => Seq::empty(),
        ExprKind::Literal(_) => Seq::empty(),
        ExprKind::Binary { left, right, .. } => preorder(*left) + preorder(*right),
        ExprKind::FuncCall { name, args } => preorder(*name) + preorder_items(args@),
        ExprKind::List(items) => preorder_items(items@),
        ExprKind::TransformCall(t) => preorder_transform(*t),
    }
}

/// The nodes of a transform's arguments, then those of its upstream relation.
pub open spec fn preorder_transform(t: TransformKind) -> Seq<Expr>
    decreases t,
{
    match t {
        TransformKind::From(e) => preorder(e),
        TransformKind::Derive { assigns, tbl } => preorder_items(assigns@) + preorder(tbl),
        TransformKind::Select { assigns, tbl } => preorder_items(assigns@) + preorder(tbl),
        TransformKind::Filter { filter, tbl } => preorder(filter) + preorder(tbl),
        TransformKind::Aggregate { assigns, tbl } => preorder_items(assigns@) + preorder(tbl),
        TransformKind::Sort { by, tbl } => preorder_items(by@) + preorder(tbl),
        TransformKind::Take { count, tbl } => preorder(count) + preorder(tbl),
        TransformKind::Join { with, filter, tbl } => preorder(with) + preorder(filter) + preorder(
            tbl,
        ),
        TransformKind::Group { by, pipeline, tbl } => preorder_items(by@) + preorder(pipeline)
            + preorder(tbl),
        TransformKind::Window { pipeline, tbl } => preorder(pipeline) + preorder(tbl),
    }
}

/// The nodes of a list of expressions, list order first.
pub open spec fn preorder_items(s: Seq<Expr>) -> Seq<Expr>
    decreases s,
{
    if s.len() == 0 {
        Seq::empty()
    } else {
        preorder_items(s.drop_last()) + preorder(s.last())
    }
}

pub open spec fn stmt_root(s: Stmt) -> Expr {
    match s.kind {
        StmtKind::Main(e) => e,
        StmtKind::VarDef { value, .. } => value,
    }
}

/// Every expression node of a statement list, in traversal order.
pub open spec fn preorder_stmts(s: Seq<Stmt>) -> Seq<Expr>
    decreases s.len(),
{
    if s.len() == 0 {
        Seq::empty()
    } else {
        preorder_stmts(s.drop_last()) + preorder(stmt_root(s.last()))
    }
}

/// A pass over the tree. It records items at single nodes; `walk_stmts`
/// and its helpers visit every node in the traversal order and record, in
/// that order, what each node contributes. An implementation says what a
/// node contributes in `node_records`, over the items' views.
pub trait Visitor: Sized {
    type Item;

    type Record;

    spec fn record_of(&self, item: Self::Item) -> Self::Record;

    /// What node `e` contributes.
    spec fn node_records(&self, e: Expr) -> Seq<Self::Record>;

    /// The nodes this pass can visit; any other node breaks what the tree's
    /// producer guarantees.
    spec fn admits(&self, e: Expr) -> bool;

    fn visit_node(&self, e: &Expr, out: &mut Vec<Self::Item>)
        requires
            self.admits(*e),
        ensures
            final(out)@.map_values(|i: Self::Item| self.record_of(i)) == old(out)@.map_values(
                |i: Self::Item| self.record_of(i),
            ) + self.node_records(*e),
    ;
}

pub open spec fn records<V: Visitor>(v: &V, items: Seq<V::Item>) -> Seq<V::Record> {
    items.map_values(|i: V::Item| v.record_of(i))
}

/// What `nodes` contribute, in their order.
pub open spec fn records_of<V: Visitor>(v: &V, nodes: Seq<Expr>) -> Seq<V::Record>
    decreases nodes.len(),
{
    if nodes.len() == 0 {
        Seq::empty()
    } else {
        records_of(v, nodes.drop_last()) + v.node_records(nodes.last())
    }
}

/// The pass admits every node of `nodes`.
pub open spec fn admits_all<V: Visitor>(v: &V, nodes: Seq<Expr>) -> bool
    decreases nodes.len(),
{
    nodes.len() == 0 || (admits_all(v, nodes.drop_last()) && v.admits(nodes.last()))
}

pub broadcast proof fn lemma_admits_concat<V: Visitor>(v: &V, a: Seq<Expr>, b: Seq<Expr>)
    ensures
        #[trigger] admits_all(v, a + b) == (admits_all(v, a) && admits_all(v, b)),
    decreases b.len(),
{
    if b.len() == 0 {
        assert(a + b =~= a);
    } else {
        lemma_admits_concat(v, a, b.drop_last());
        assert((a + b).drop_last() =~= a + b.drop_last());
    }
}

pub proof fn lemma_preorder_stmts_concat(a: Seq<Stmt>, b: Seq<Stmt>)
    ensures
        preorder_stmts(a + b) == preorder_stmts(a) + preorder_stmts(b),
    decreases b.len(),
{
    if b.len() == 0 {
        assert(a + b =~= a);
        assert(preorder_stmts(a) + Seq::empty() =~= preorder_stmts(a));
    } else {
        lemma_preorder_stmts_concat(a, b.drop_last());
        assert((a + b).drop_last() =~= a + b.drop_last());
        assert(preorder_stmts(a + b.drop_last()) + preorder(stmt_root(b.last())) =~= preorder_stmts(
            a,
        ) + preorder_stmts(b));
    }
}

pub broadcast proof fn lemma_records_concat<V: Visitor>(v: &V, a: Seq<Expr>, b: Seq<Expr>)
    ensures
        #[trigger] records_of(v, a + b) == records_of(v, a) + records_of(v, b),
    decreases b.len(),
{
    if b.len() == 0 {
        assert(a + b =~= a);
    } else {
        lemma_records_concat(v, a, b.drop_last());
        assert((a + b).drop_last() =~= a + b.drop_last());
    }
}

proof fn lemma_admits_single<V: Visitor>(v: &V, e: Expr)
    ensures
        admits_all(v, seq![e]) == v.admits(e),
{
    let s = seq![e];
    assert(s.drop_last() =~= Seq::<Expr>::empty());
    assert(s.last() == e);
    assert(admits_all(v, s.drop_last()));
}

proof fn lemma_records_single<V: Visitor>(v: &V, e: Expr)
    ensures
        records_of(v, seq![e]) == v.node_records(e),
{
    let s = seq![e];
    assert(s.drop_last() =~= Seq::<Expr>::empty());
    assert(s.last() == e);
    assert(records_of(v, s.drop_last()) =~= Seq::empty());
    assert(Seq::<V::Record>::empty() + v.node_records(e) =~= v.node_records(e));
}

pub proof fn lemma_preorder_items_concat(a: Seq<Expr>, b: Seq<Expr>)
    ensures
        preorder_items(a + b) == preorder_items(a) + preorder_items(b),
    decreases b.len(),
{
    if b.len() == 0 {
        assert(a + b =~= a);
        assert(preorder_items(a) + Seq::empty() =~= preorder_items(a));
    } else {
        lemma_preorder_items_concat(a, b.drop_last());
        assert((a + b).drop_last() =~= a + b.drop_last());
        assert(preorder_items(a + b.drop_last()) + preorder(b.last()) =~= preorder_items(a)
            + preorder_items(b));
    }
}

/// Visits `e` and every node below it, each before its children.
pub fn walk_expr<V: Visitor>(v: &V, e: &Expr, out: &mut Vec<V::Item>)
    requires
        admits_all(v, preorder(*e)),
    ensures
        records(v, final(out)@) == records(v, old(out)@) + records_of(v, preorder(*e)),
    decreases e,
{
    broadcast use lemma_records_concat, lemma_admits_concat;

    proof {
        lemma_records_single(v, *e);
        lemma_admits_single(v, *e);
        lemma_admits_concat(v, seq![*e], preorder(*e).subrange(1, preorder(*e).len() as int));
        assert(preorder(*e) =~= seq![*e] + preorder(*e).subrange(1, preorder(*e).len() as int));
    }
    v.visit_node(e, out);
    match &e.kind {
        ExprKind::Ident(_) => {},
        ExprKind::Literal(_) => {},
        ExprKind::Binary { left, right, .. } => {
            walk_expr(v, left, out);
            walk_expr(v, right, out);
        },
        ExprKind::FuncCall { name, args } => {
            walk_expr(v, name, out);
            walk_items(v, args, out);
        },
        ExprKind::List(items) => {
            walk_items(v, items, out);
        },
        ExprKind::TransformCall(t) => {
            walk_transform(v, t, out);
        },
    }
    assert(records(v, final(out)@) =~= records(v, old(out)@) + records_of(v, preorder(*e)));
}

#[verifier::rlimit(40)]
pub fn walk_transform<V: Visitor>(v: &V, t: &TransformKind, out: &mut Vec<V::Item>)
    requires
        admits_all(v, preorder_transform(*t)),
    ensures
        records(v, final(out)@) == records(v, old(out)@) + records_of(v, preorder_transform(*t)),
    decreases t,
{
    broadcast use lemma_records_concat, lemma_admits_concat;

    match t {
        TransformKind::From(e) => {
            walk_expr(v, e, out);
        },
        TransformKind::Derive { assigns, tbl } | TransformKind::Select { assigns, tbl }
        | TransformKind::Aggregate { assigns, tbl } => {
            walk_items(v, assigns, out);
            walk_expr(v, tbl, out);
        },
        TransformKind::Sort { by, tbl } => {
            walk_items(v, by, out);
            walk_expr(v, tbl, out);
        },
        TransformKind::Filter { filter, tbl } => {
            walk_expr(v, filter, out);
            walk_expr(v, tbl, out);
        },
        TransformKind::Take { count, tbl } => {
            walk_expr(v, count, out);
            walk_expr(v, tbl, out);
        },
        TransformKind::Join { with, filter, tbl } => {
            walk_expr(v, with, out);
            walk_expr(v, filter, out);
            walk_expr(v, tbl, out);
        },
        TransformKind::Group { by, pipeline, tbl } => {
            walk_items(v, by, out);
            walk_expr(v, pipeline, out);
            walk_expr(v, tbl, out);
        },
        TransformKind::Window { pipeline, tbl } => {
            walk_expr(v, pipeline, out);
            walk_expr(v, tbl, out);
        },
    }
    assert(records(v, final(out)@) =~= records(v, old(out)@) + records_of(
        v,
        preorder_transform(*t),
    ));
}

/// Visits the expressions of a list, in list order.
pub fn walk_items<V: Visitor>(v: &V, items: &Vec<Expr>, out: &mut Vec<V::Item>)
    requires
        admits_all(v, preorder_items(items@)),
    ensures
        records(v, final(out)@) == records(v, old(out)@) + records_of(v, preorder_items(items@)),
    decreases items,
{
    let mut i: usize = 0;
    assert(items@.subrange(0, 0) =~= Seq::<Expr>::empty());
    assert(records(v, out@) =~= records(v, old(out)@) + records_of(v, Seq::empty()));
    while i < items.len()
        invariant
            i <= items@.len(),
            admits_all(v, preorder_items(items@)),
            records(v, out@) == records(v, old(out)@) + records_of(
                v,
                preorder_items(items@.subrange(0, i as int)),
            ),
        decreases items@.len() - i,
    {
        proof {
            let rest = items@.subrange(i + 1, items@.len() as int);
            let upto = items@.subrange(0, i + 1);
            assert(items@ =~= upto + rest);
            lemma_preorder_items_concat(upto, rest);
            lemma_admits_concat(v, preorder_items(upto), preorder_items(rest));
            assert(upto.drop_last() =~= items@.subrange(0, i as int));
            lemma_admits_concat(v, preorder_items(items@.subrange(0, i as int)), preorder(items@[i as int]));
        }
        walk_expr(v, &items[i], out);
        proof {
            let next = items@.subrange(0, i + 1);
            assert(next.drop_last() =~= items@.subrange(0, i as int));
            assert(next.last() == items@[i as int]);
            lemma_records_concat(
                v,
                preorder_items(items@.subrange(0, i as int)),
                preorder(items@[i as int]),
            );
            assert(records(v, out@) =~= records(v, old(out)@) + records_of(
                v,
                preorder_items(next),
            ));
        }
        i = i + 1;
    }
    assert(items@.subrange(0, i as int) =~= items@);
}

/// Visits the statements in order, each from its root expression.
pub fn walk_stmts<V: Visitor>(v: &V, stmts: &Vec<Stmt>, out: &mut Vec<V::Item>)
    requires
        admits_all(v, preorder_stmts(stmts@)),
    ensures
        records(v, final(out)@) == records(v, old(out)@) + records_of(v, preorder_stmts(stmts@)),
{
    let mut i: usize = 0;
    assert(stmts@.subrange(0, 0) =~= Seq::<Stmt>::empty());
    assert(records(v, out@) =~= records(v, old(out)@) + records_of(v, Seq::empty()));
    while i < stmts.len()
        invariant
            i <= stmts@.len(),
            admits_all(v, preorder_stmts(stmts@)),
            records(v, out@) == records(v, old(out)@) + records_of(
                v,
                preorder_stmts(stmts@.subrange(0, i as int)),
            ),
        decreases stmts@.len() - i,
    {
        let root = match &stmts[i].kind {
            StmtKind::Main(e) => e,
            StmtKind::VarDef { value, .. } => value,
        };
        assert(*root == stmt_root(stmts@[i as int]));
        proof {
            let rest = stmts@.subrange(i + 1, stmts@.len() as int);
            let upto = stmts@.subrange(0, i + 1);
            assert(stmts@ =~= upto + rest);
            lemma_preorder_stmts_concat(upto, rest);
            lemma_admits_concat(v, preorder_stmts(upto), preorder_stmts(rest));
            assert(upto.drop_last() =~= stmts@.subrange(0, i as int));
            lemma_admits_concat(
                v,
                preorder_stmts(stmts@.subrange(0, i as int)),
                preorder(stmt_root(stmts@[i as int])),
            );
        }
        walk_expr(v, root, out);
        proof {
            let next = stmts@.subrange(0, i + 1);
            assert(next.drop_last() =~= stmts@.subrange(0, i as int));
            assert(next.last() == stmts@[i as int]);
            lemma_records_concat(
                v,
                preorder_stmts(stmts@.subrange(0, i as int)),
                preorder(stmt_root(stmts@[i as int])),
            );
            assert(records(v, out@) =~= records(v, old(out)@) + records_of(
                v,
                preorder_stmts(next),
            ));
        }
        i = i + 1;
    }
    assert(stmts@.subrange(0, i as int) =~= stmts@);
}

} // verus!
