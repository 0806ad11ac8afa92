//! Collects, for every relational transform, the span that stands for the
//! stage and the frame it outputs.
use vstd::prelude::*;
use crate::ast::{Expr, ExprKind, Frame, Span, Stmt, Ty};
use crate::fold::{admits_all, preorder_stmts, records, records_of, walk_stmts, Visitor};

verus! {

broadcast use vstd::std_specs::vec::group_vec_axioms;

pub open spec fn is_transform(e: Expr) -> bool {
    e.kind is TransformCall
}

/// The frame carried by the resolved type of `e`, if any.
pub open spec fn frame_of(e: Expr) -> Option<Frame> {
    match e.ty {
        Some(Ty::Table(f)) => Some(f),
        _ => None,
    }
}

/// The pair that node `e` contributes: a transform whose type carries a
/// frame gives the span of its anchor and that frame.
pub open spec fn frame_entry(e: Expr) -> Seq<(Span, Seq<(Seq<char>, Seq<char>)>)> {
    match e.kind {
        ExprKind::TransformCall(t) => match (t.anchor().span, frame_of(e)) {
            (Some(s), Some(f)) => seq![(s, f@)],
            _ => Seq::empty(),
        },
        _ => Seq::empty(),
    }
}

/// The pairs of `nodes`, in their order.
pub open spec fn frames_of(nodes: Seq<Expr>) -> Seq<(Span, Seq<(Seq<char>, Seq<char>)>)>
    decreases nodes.len(),
{
    if nodes.len() == 0 {
        Seq::empty()
    } else {
        frames_of(nodes.drop_last()) + frame_entry(nodes.last())
    }
}

/// Every transform among `nodes` has a span on its anchor.
pub open spec fn anchors_spanned(nodes: Seq<Expr>) -> bool {
    forall|i: int|
        0 <= i < nodes.len() && is_transform(#[trigger] nodes[i]) ==> (
        nodes[i].kind->TransformCall_0).anchor().span is Some
}

pub open spec fn frames_view(s: Seq<(Span, Frame)>) -> Seq<(Span, Seq<(Seq<char>, Seq<char>)>)> {
    s.map_values(|p: (Span, Frame)| (p.0, p.1@))
}

/// The frame-collecting pass: records the pair of each transform node.
pub struct FrameCollector;

impl Visitor for FrameCollector {
    type Item = (Span, Frame);

    type Record = (Span, Seq<(Seq<char>, Seq<char>)>);

    open spec fn record_of(&self, item: (Span, Frame)) -> (Span, Seq<(Seq<char>, Seq<char>)>) {
        (item.0, item.1@)
    }

    open spec fn node_records(&self, e: Expr) -> Seq<(Span, Seq<(Seq<char>, Seq<char>)>)> {
        frame_entry(e)
    }

    /// A transform whose anchor has no span is not admitted.
    open spec fn admits(&self, e: Expr) -> bool {
        is_transform(e) ==> (e.kind->TransformCall_0).anchor().span is Some
    }

    fn visit_node(&self, e: &Expr, out: &mut Vec<(Span, Frame)>) {
    if let ExprKind::TransformCall(t) = &e.kind {
        if let Some(span) = t.anchor_span() {
            if let Some(Ty::Table(frame)) = &e.ty {
                out.push((span, frame.duplicate()));
                assert(final(out)@.map_values(|i: (Span, Frame)| self.record_of(i)) =~= old(
                    out,
                )@.map_values(|i: (Span, Frame)| self.record_of(i)) + frame_entry(*e));
                return ;
            }
        }
    }
    assert(final(out)@.map_values(|i: (Span, Frame)| self.record_of(i)) =~= old(
        out,
    )@.map_values(|i: (Span, Frame)| self.record_of(i)) + frame_entry(*e));
}
}

proof fn lemma_collector_admits(c: &FrameCollector, nodes: Seq<Expr>)
    requires
        anchors_spanned(nodes),
    ensures
        admits_all(c, nodes),
    decreases nodes.len(),
{
    if nodes.len() > 0 {
        let rest = nodes.drop_last();
        assert forall|i: int| 0 <= i < rest.len() && is_transform(#[trigger] rest[i]) implies (
        rest[i].kind->TransformCall_0).anchor().span is Some by {
            assert(rest[i] == nodes[i]);
        }
        lemma_collector_admits(c, rest);
        assert(nodes.last() == nodes[nodes.len() - 1]);
    }
}

proof fn lemma_collector_records(c: &FrameCollector, nodes: Seq<Expr>)
    ensures
        records_of(c, nodes) == frames_of(nodes),
    decreases nodes.len(),
{
    if nodes.len() > 0 {
        lemma_collector_records(c, nodes.drop_last());
    }
}

/// How many transform nodes `nodes` holds.
pub open spec fn transform_count(nodes: Seq<Expr>) -> nat
    decreases nodes.len(),
{
    if nodes.len() == 0 {
        0
    } else {
        transform_count(nodes.drop_last()) + if is_transform(nodes.last()) {
            1nat
        } else {
            0nat
        }
    }
}

/// A transform whose resolved type carries no frame contributes no pair,
/// and no node contributes more than one, so there are at most as many
/// pairs as transform nodes.
pub proof fn frames_need_a_frame(nodes: Seq<Expr>)
    ensures
        forall|i: int|
            0 <= i < nodes.len() && frame_of(#[trigger] nodes[i]) is None ==> frame_entry(
                nodes[i],
            ).len() == 0,
        frames_of(nodes).len() <= transform_count(nodes),
    decreases nodes.len(),
{
    if nodes.len() > 0 {
        frames_need_a_frame(nodes.drop_last());
    }
}

/// Two collections over the same statements give the same pairs.
pub proof fn collection_is_deterministic(
    stmts: Seq<Stmt>,
    first: Seq<(Span, Frame)>,
    second: Seq<(Span, Frame)>,
)
    requires
        frames_view(first) == frames_of(preorder_stmts(stmts)),
        frames_view(second) == frames_of(preorder_stmts(stmts)),
    ensures
        frames_view(first) == frames_view(second),
{
}

/// The (span, frame) pair of every transform whose resolved type carries a
/// frame, in pre-order over the statements. The span is that of the source
/// relation for `From` and of the upstream relation for every other stage.
pub fn collect_frames(stmts: Vec<Stmt>) -> (r: Vec<(Span, Frame)>)
    requires
        anchors_spanned(preorder_stmts(stmts@)),
    ensures
        frames_view(r@) == frames_of(preorder_stmts(stmts@)),
{
    let collector = FrameCollector;
    let mut out: Vec<(Span, Frame)> = Vec::new();
    proof {
        lemma_collector_admits(&collector, preorder_stmts(stmts@));
    }
    walk_stmts(&collector, &stmts, &mut out);
    proof {
        lemma_collector_records(&collector, preorder_stmts(stmts@));
        assert(records(&collector, out@) =~= frames_view(out@));
        assert(records(&collector, Seq::<(Span, Frame)>::empty()) =~= Seq::empty());
    }
    out
}

} // verus!
