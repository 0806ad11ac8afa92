//! Labels every identifier reference with what it resolved to and where
//! that was declared.
use vstd::prelude::*;
use vstd::string::StringExecFns;
use crate::ast::{Expr, ExprKind, Span, Stmt};
use crate::context::{
    body_text, category_of, find, lookup, Category, Context, Decl, DeclKind,
    NS_DEFAULT_DB,
};
use crate::fold::{
    admits_all, lemma_preorder_items_concat, preorder, preorder_items, preorder_stmts, records, records_of,
    walk_expr, walk_stmts, Visitor,
};
use crate::render::{labels_view, line_range, line_range_of, render, ReportLabel};
use crate::text::location_text;

verus! {

broadcast use vstd::std_specs::vec::group_vec_axioms;

/// Suffix that places declaration `id`: empty where its position is not
/// known, or where there is no text to count lines in.
pub open spec fn location_of(ctx: Context, text: Seq<char>, id: Option<usize>) -> Seq<char> {
    match id {
        Some(i) => if ctx.span_map@.contains_key(i) && text.len() > 0 {
            let s = ctx.span_map@[i];
            let lines = line_range_of(text, s.start as nat, s.end as nat);
            location_text(lines.0, lines.1)
        } else {
            Seq::empty()
        },
        None => Seq::empty(),
    }
}

/// Is `e` an identifier with a span, the nodes that get a label.
pub open spec fn is_labelled(e: Expr) -> bool {
    e.kind is Ident && e.span is Some
}

/// What the label of identifier node `e` says after `[name] `, and its category.
pub open spec fn resolution(ctx: Context, text: Seq<char>, e: Expr) -> (Seq<char>, Category)
    recommends
        e.kind is Ident,
{
    let id = e.kind->Ident_0;
    match lookup(ctx.root_mod, id.path@.map_values(|p: String| p@), id.name@) {
        Some(d) => (body_text(d.kind) + location_of(ctx, text, d.declared_at), category_of(d.kind)),
        None => match e.target_id {
            Some(t) => ("variable"@ + location_of(ctx, text, Some(t)), Category::ColumnRef),
            None => (Seq::empty(), Category::Unknown),
        },
    }
}

/// The label of node `e`, if it gets one.
pub open spec fn node_label(ctx: Context, text: Seq<char>, e: Expr) -> Seq<
    (Span, Seq<char>, Category),
> {
    if is_labelled(e) {
        let id = e.kind->Ident_0;
        let (body, cat) = resolution(ctx, text, e);
        seq![(e.span->Some_0, "["@ + id.text() + "] "@ + body, cat)]
    } else {
        Seq::empty()
    }
}

/// The labels of `nodes`, in their order.
pub open spec fn labels_of(ctx: Context, text: Seq<char>, nodes: Seq<Expr>) -> Seq<
    (Span, Seq<char>, Category),
>
    decreases nodes.len(),
{
    if nodes.len() == 0 {
        Seq::empty()
    } else {
        labels_of(ctx, text, nodes.drop_last()) + node_label(ctx, text, nodes.last())
    }
}

/// The view expressions of the default database's relations, in entry order.
pub open spec fn view_exprs(entries: Seq<(String, Decl)>) -> Seq<Expr>
    decreases entries.len(),
{
    if entries.len() == 0 {
        Seq::empty()
    } else {
        view_exprs(entries.drop_last()) + match entries.last().1.kind {
            DeclKind::TableDef { expr: Some(e), .. } => seq![*e],
            _ => Seq::empty(),
        }
    }
}

/// The default database's entry, where there is one, is a plain namespace.
pub open spec fn default_db_is_namespace(ctx: Context) -> bool {
    match find(ctx.root_mod.names@, NS_DEFAULT_DB@) {
        Some(d) => d.kind is Namespace,
        None => true,
    }
}

/// Every identifier node with a span among `nodes` has a span that runs
/// forward and ends within a text of `len` characters.
pub open spec fn spans_within(nodes: Seq<Expr>, len: nat) -> bool {
    forall|i: int|
        0 <= i < labelled_nodes(nodes).len() ==> #[trigger] labelled_nodes(nodes)[i].span->Some_0.start
            <= labelled_nodes(nodes)[i].span->Some_0.end <= len
}

pub open spec fn default_views(ctx: Context) -> Seq<Expr> {
    match find(ctx.root_mod.names@, NS_DEFAULT_DB@) {
        Some(Decl { kind: DeclKind::Namespace(m), .. }) => view_exprs(m.names@),
        _ => Seq::empty(),
    }
}

/// Every node that the annotation visits: the default database's views,
/// then the statements.
pub open spec fn annotated_nodes(ctx: Context, stmts: Seq<Stmt>) -> Seq<Expr> {
    preorder_items(default_views(ctx)) + preorder_stmts(stmts)
}

pub broadcast proof fn lemma_labels_concat(ctx: Context, text: Seq<char>, a: Seq<Expr>, b: Seq<Expr>)
    ensures
        #[trigger] labels_of(ctx, text, a + b) == labels_of(ctx, text, a) + labels_of(ctx, text, b),
    decreases b.len(),
{
    if b.len() == 0 {
        assert(a + b =~= a);
    } else {
        lemma_labels_concat(ctx, text, a, b.drop_last());
        assert((a + b).drop_last() =~= a + b.drop_last());
    }
}

/// The annotation pass: labels each identifier node that has a span.
struct Labeler<'a> {
    context: &'a Context,
    source: &'a String,
}

impl<'a> Labeler<'a> {
    fn location(&self, id: Option<usize>) -> (r: String)
        ensures
            r@ == location_of(*self.context, self.source@, id),
    {
        match id {
            Some(i) => match self.context.location(i) {
                Some(span) => {
                    if self.source.as_str().is_empty() {
                        return String::new();
                    }
                    let (first, end) = line_range(self.source, span.start, span.end);
                    crate::text::location_suffix(first, end)
                },
                None => String::new(),
            },
            None => String::new(),
        }
    }
}

impl<'a> Visitor for Labeler<'a> {
    type Item = ReportLabel;

    type Record = (Span, Seq<char>, Category);

    closed spec fn record_of(&self, item: ReportLabel) -> (Span, Seq<char>, Category) {
        item.view()
    }

    closed spec fn node_records(&self, e: Expr) -> Seq<(Span, Seq<char>, Category)> {
        node_label(*self.context, self.source@, e)
    }

    closed spec fn admits(&self, e: Expr) -> bool {
        true
    }

    fn visit_node(&self, e: &Expr, out: &mut Vec<ReportLabel>) {
        proof {
            reveal_strlit("[");
            reveal_strlit("] ");
            reveal_strlit("variable");
        }
        if let ExprKind::Ident(ident) = &e.kind {
            if let Some(span) = e.span {
                let (body, category) = match self.context.root_mod.get(ident) {
                    Some(decl) => {
                        let mut body = decl.kind.body();
                        let loc = self.location(decl.declared_at);
                        body.append(loc.as_str());
                        (body, decl.kind.category())
                    },
                    None => match e.target_id {
                        Some(t) => {
                            let mut body = String::from_str("variable");
                            let loc = self.location(Some(t));
                            body.append(loc.as_str());
                            (body, Category::ColumnRef)
                        },
                        None => (String::new(), Category::Unknown),
                    },
                };
                let mut message = String::from_str("[");
                let name = ident.to_text();
                message.append(name.as_str());
                message.append("] ");
                message.append(body.as_str());
                out.push(ReportLabel { span, message, category });
                assert(final(out)@.map_values(|i: ReportLabel| self.record_of(i)) =~= old(
                    out,
                )@.map_values(|i: ReportLabel| self.record_of(i)) + node_label(
                    *self.context,
                    self.source@,
                    *e,
                ));
                return ;
            }
        }
        assert(final(out)@.map_values(|i: ReportLabel| self.record_of(i)) =~= old(
            out,
        )@.map_values(|i: ReportLabel| self.record_of(i)) + node_label(
            *self.context,
            self.source@,
            *e,
        ));
    }
}

proof fn lemma_labeler_records(l: &Labeler, nodes: Seq<Expr>)
    ensures
        records_of(l, nodes) == labels_of(*l.context, l.source@, nodes),
    decreases nodes.len(),
{
    if nodes.len() > 0 {
        lemma_labeler_records(l, nodes.drop_last());
    }
}

proof fn lemma_labeler_admits(l: &Labeler, nodes: Seq<Expr>)
    ensures
        admits_all(l, nodes),
    decreases nodes.len(),
{
    if nodes.len() > 0 {
        lemma_labeler_admits(l, nodes.drop_last());
    }
}

proof fn lemma_labeler_view(l: &Labeler, s: Seq<ReportLabel>)
    ensures
        records(l, s) == labels_view(s),
{
    assert(records(l, s) =~= labels_view(s));
}

impl<'a> Labeler<'a> {
    /// Labels the identifiers inside the default database's views.
    fn label_default_views(&self, out: &mut Vec<ReportLabel>)
        requires
            default_db_is_namespace(*self.context),
        ensures
            labels_view(final(out)@) == labels_view(old(out)@) + labels_of(
                *self.context,
                self.source@,
                preorder_items(default_views(*self.context)),
            ),
    {
        broadcast use lemma_labels_concat;

        let ghost ctx = *self.context;
        let ghost text = self.source@;
        let key = String::from_str(NS_DEFAULT_DB);
        let root = &self.context.root_mod;
        let i = match root.position(&key) {
            Some(i) => i,
            None => {
                assert(preorder_items(Seq::empty()) =~= Seq::empty());
                assert(labels_view(final(out)@) =~= labels_view(old(out)@) + labels_of(ctx, text, Seq::empty()));
                return ;
            },
        };
        let db = match &root.names[i].1.kind {
            DeclKind::Namespace(m) => m,
            _ => {
                assert(preorder_items(Seq::empty()) =~= Seq::empty());
                assert(labels_view(final(out)@) =~= labels_view(old(out)@) + labels_of(ctx, text, Seq::empty()));
                return ;
            },
        };
        let ghost entries = db.names@;
        let mut j: usize = 0;
        assert(entries.subrange(0, 0) =~= Seq::<(String, Decl)>::empty());
        assert(preorder_items(Seq::empty()) =~= Seq::empty());
        assert(labels_view(out@) =~= labels_view(old(out)@) + labels_of(ctx, text, Seq::empty()));
        while j < db.names.len()
            invariant
                j <= entries.len(),
                entries == db.names@,
                ctx == *self.context,
                text == self.source@,
                labels_view(out@) == labels_view(old(out)@) + labels_of(
                    ctx,
                    text,
                    preorder_items(view_exprs(entries.subrange(0, j as int))),
                ),
            decreases entries.len() - j,
        {
            let ghost before = view_exprs(entries.subrange(0, j as int));
            let ghost next = entries.subrange(0, j + 1);
            proof {
                assert(next.drop_last() =~= entries.subrange(0, j as int));
            }
            if let DeclKind::TableDef { expr: Some(e), .. } = &db.names[j].1.kind {
                let ghost mid = out@;
                proof {
                    lemma_labeler_admits(self, preorder(**e));
                }
                walk_expr(self, e, out);
                proof {
                    lemma_labeler_view(self, mid);
                    lemma_labeler_view(self, out@);
                    lemma_labeler_records(self, preorder(**e));
                    let vs = before + seq![**e];
                    assert(view_exprs(next) == vs);
                    assert(vs.drop_last() =~= before);
                    assert(preorder_items(vs) == preorder_items(before) + preorder(**e));
                    lemma_labels_concat(ctx, text, preorder_items(before), preorder(**e));
                    assert(labels_view(out@) =~= labels_view(old(out)@) + labels_of(
                        ctx,
                        text,
                        preorder_items(vs),
                    ));
                }
            } else {
                assert(view_exprs(next) =~= before);
            }
            j = j + 1;
        }
        assert(entries.subrange(0, j as int) =~= entries);
    }
}

/// The labels of a report over `source`: one for each identifier node with a
/// span, first those inside the default database's views, then those of the
/// statements, each in pre-order.
pub fn annotation_labels(stmts: &Vec<Stmt>, context: &Context, source: &String) -> (r: Vec<
    ReportLabel,
>)
    requires
        default_db_is_namespace(*context),
    ensures
        labels_view(r@) == labels_of(*context, source@, annotated_nodes(*context, stmts@)),
{
    broadcast use lemma_labels_concat;

    let labeler = Labeler { context, source };
    let mut out: Vec<ReportLabel> = Vec::new();
    labeler.label_default_views(&mut out);
    let ghost mid = out@;
    proof {
        lemma_labeler_admits(&labeler, preorder_stmts(stmts@));
    }
    walk_stmts(&labeler, stmts, &mut out);
    proof {
        lemma_labeler_view(&labeler, mid);
        lemma_labeler_view(&labeler, out@);
        lemma_labeler_records(&labeler, preorder_stmts(stmts@));
    }
    assert(labels_view(out@) =~= labels_of(*context, source@, annotated_nodes(*context, stmts@)));
    out
}

/// The identifier nodes with a span among `nodes`, in their order.
pub open spec fn labelled_nodes(nodes: Seq<Expr>) -> Seq<Expr>
    decreases nodes.len(),
{
    if nodes.len() == 0 {
        Seq::empty()
    } else if is_labelled(nodes.last()) {
        labelled_nodes(nodes.drop_last()).push(nodes.last())
    } else {
        labelled_nodes(nodes.drop_last())
    }
}

/// Each identifier node with a span gets exactly one label, at that span,
/// and no other node gets one: the labels and the identifier nodes with a
/// span correspond one to one, in order.
pub proof fn labels_match_spanned_idents(ctx: Context, text: Seq<char>, nodes: Seq<Expr>)
    ensures
        labels_of(ctx, text, nodes).len() == labelled_nodes(nodes).len(),
        forall|i: int|
            0 <= i < labelled_nodes(nodes).len() ==> (#[trigger] labels_of(ctx, text, nodes)[i]).0
                == labelled_nodes(nodes)[i].span->Some_0,
    decreases nodes.len(),
{
    if nodes.len() > 0 {
        labels_match_spanned_idents(ctx, text, nodes.drop_last());
    }
}

/// A name that resolves to a relation is labelled `table`, the frame's
/// textual form, then where the relation was declared.
pub proof fn table_label_shows_frame(ctx: Context, text: Seq<char>, e: Expr)
    requires
        is_labelled(e),
        lookup(
            ctx.root_mod,
            e.kind->Ident_0.path@.map_values(|p: String| p@),
            e.kind->Ident_0.name@,
        ) matches Some(d) && d.kind is TableDef,
    ensures
        ({
            let id = e.kind->Ident_0;
            let d = lookup(ctx.root_mod, id.path@.map_values(|p: String| p@), id.name@)->Some_0;
            node_label(ctx, text, e) == seq![
                (
                    e.span->Some_0,
                    "["@ + id.text() + "] "@ + "table "@ + d.kind->TableDef_frame.text()
                        + location_of(ctx, text, d.declared_at),
                    Category::TableRef,
                ),
            ]
        }),
{
    let id = e.kind->Ident_0;
    let d = lookup(ctx.root_mod, id.path@.map_values(|p: String| p@), id.name@)->Some_0;
    let body = "table "@ + d.kind->TableDef_frame.text();
    assert(("["@ + id.text() + "] "@ + (body + location_of(ctx, text, d.declared_at))) =~= ("["@
        + id.text() + "] "@ + "table "@ + d.kind->TableDef_frame.text() + location_of(
        ctx,
        text,
        d.declared_at,
    )));
}

/// A name with no declaration but with a location link is labelled as a
/// column reference whose body is `variable`, then where the link points.
pub proof fn fallback_label_is_variable(ctx: Context, text: Seq<char>, e: Expr)
    requires
        is_labelled(e),
        lookup(
            ctx.root_mod,
            e.kind->Ident_0.path@.map_values(|p: String| p@),
            e.kind->Ident_0.name@,
        ) is None,
        e.target_id is Some,
    ensures
        node_label(ctx, text, e) == seq![
            (
                e.span->Some_0,
                "["@ + e.kind->Ident_0.text() + "] "@ + "variable"@ + location_of(
                    ctx,
                    text,
                    e.target_id,
                ),
                Category::ColumnRef,
            ),
        ],
{
    let body = "variable"@ + location_of(ctx, text, e.target_id);
    assert(("["@ + e.kind->Ident_0.text() + "] "@ + body) =~= ("["@ + e.kind->Ident_0.text()
        + "] "@ + "variable"@ + location_of(ctx, text, e.target_id)));
}

proof fn lemma_view_exprs_split(entries: Seq<(String, Decl)>, j: int) -> (r: (Seq<Expr>, Seq<Expr>))
    requires
        0 <= j < entries.len(),
        entries[j].1.kind matches DeclKind::TableDef { expr: Some(_), .. },
    ensures
        view_exprs(entries) == r.0 + seq![*entries[j].1.kind->TableDef_expr->Some_0] + r.1,
    decreases entries.len(),
{
    let v = *entries[j].1.kind->TableDef_expr->Some_0;
    if j == entries.len() - 1 {
        let r = (view_exprs(entries.drop_last()), Seq::<Expr>::empty());
        assert(view_exprs(entries) =~= r.0 + seq![v] + r.1);
        r
    } else {
        let (x, y) = lemma_view_exprs_split(entries.drop_last(), j);
        let tail = match entries.last().1.kind {
            DeclKind::TableDef { expr: Some(e), .. } => seq![*e],
            _ => Seq::empty(),
        };
        assert(view_exprs(entries) =~= x + seq![v] + (y + tail));
        (x, y + tail)
    }
}

/// Every view of the default database is annotated, even where no
/// statement uses it: the labels of its own nodes stand, in order, among
/// the labels of the annotation.
pub proof fn default_views_are_annotated(
    ctx: Context,
    text: Seq<char>,
    stmts: Seq<Stmt>,
    j: int,
)
    requires
        find(ctx.root_mod.names@, NS_DEFAULT_DB@) matches Some(d) && d.kind is Namespace,
        ({
            let m = find(ctx.root_mod.names@, NS_DEFAULT_DB@)->Some_0.kind->Namespace_0;
            0 <= j < m.names@.len() && m.names@[j].1.kind matches DeclKind::TableDef {
                expr: Some(_),
                ..
            }
        }),
    ensures
        ({
            let m = find(ctx.root_mod.names@, NS_DEFAULT_DB@)->Some_0.kind->Namespace_0;
            let v = *m.names@[j].1.kind->TableDef_expr->Some_0;
            exists|before: Seq<(Span, Seq<char>, Category)>, after: Seq<(Span, Seq<char>, Category)>|
                labels_of(ctx, text, annotated_nodes(ctx, stmts)) == before + labels_of(
                    ctx,
                    text,
                    preorder(v),
                ) + after
        }),
{
    broadcast use lemma_labels_concat;

    let m = find(ctx.root_mod.names@, NS_DEFAULT_DB@)->Some_0.kind->Namespace_0;
    let v = *m.names@[j].1.kind->TableDef_expr->Some_0;
    let (x, y) = lemma_view_exprs_split(m.names@, j);
    lemma_preorder_items_concat(x + seq![v], y);
    lemma_preorder_items_concat(x, seq![v]);
    let one = seq![v];
    assert(one.drop_last() =~= Seq::<Expr>::empty());
    assert(one.last() == v);
    assert(preorder_items(one.drop_last()) =~= Seq::<Expr>::empty());
    assert(preorder_items(one) =~= preorder(v));
    let before = labels_of(ctx, text, preorder_items(x));
    let after = labels_of(ctx, text, preorder_items(y)) + labels_of(ctx, text, preorder_stmts(stmts));
    assert(labels_of(ctx, text, annotated_nodes(ctx, stmts)) =~= before + labels_of(
        ctx,
        text,
        preorder(v),
    ) + after);
}

/// Two annotations of the same statements, context and source give the
/// same labels.
pub proof fn annotation_is_deterministic(
    ctx: Context,
    text: Seq<char>,
    stmts: Seq<Stmt>,
    first: Seq<ReportLabel>,
    second: Seq<ReportLabel>,
)
    requires
        labels_view(first) == labels_of(ctx, text, annotated_nodes(ctx, stmts)),
        labels_view(second) == labels_of(ctx, text, annotated_nodes(ctx, stmts)),
    ensures
        labels_view(first) == labels_view(second),
{
}

/// Why a report could not be drawn.
#[derive(Clone, Copy, Debug, PartialEq, Eq, Structural)]
pub enum RenderError {
    /// There are labels but no source text to draw them over.
    EmptySource,
}

/// Draws the labels of `annotation_labels` over the source and hands the
/// statements back unchanged. Fails only where there are labels to draw and
/// the source is empty.
pub fn label_references(stmts: Vec<Stmt>, context: &Context, source_id: String, source: String) -> (r:
    Result<(Vec<u8>, Vec<Stmt>), RenderError>)
    requires
        default_db_is_namespace(*context),
        spans_within(annotated_nodes(*context, stmts@), source@.len()),
    ensures
        source@.len() == 0 && labelled_nodes(annotated_nodes(*context, stmts@)).len() > 0 ==> r
            == Err::<(Vec<u8>, Vec<Stmt>), RenderError>(RenderError::EmptySource),
        !(source@.len() == 0 && labelled_nodes(annotated_nodes(*context, stmts@)).len() > 0) ==> (r
            matches Ok((_, s)) && s == stmts),
{
    let labels = annotation_labels(&stmts, context, &source);
    let ghost nodes = annotated_nodes(*context, stmts@);
    proof {
        labels_match_spanned_idents(*context, source@, nodes);
        assert forall|i: int| 0 <= i < labels@.len() implies #[trigger] labels@[i].span.start
            <= labels@[i].span.end <= source@.len() by {
            assert(labels_view(labels@)[i].0 == labels@[i].span);
            assert(labelled_nodes(nodes)[i].span->Some_0.start <= labelled_nodes(
                nodes,
            )[i].span->Some_0.end <= source@.len());
        }
    }
    if source.as_str().is_empty() && labels.len() > 0 {
        return Err(RenderError::EmptySource);
    }
    let bytes = render(&source_id, &source, &labels).unwrap();
    Ok((bytes, stmts))
}

} // verus!
