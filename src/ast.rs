use vstd::prelude::*;
use vstd::string::StringExecFns;
use crate::text::joined;

verus! {

/// Half-open range `[start, end)` into the source text.
#[derive(Clone, Copy, Debug, PartialEq, Eq, Structural)]
pub struct Span {
    pub start: usize,
    pub end: usize,
}

/// A possibly qualified name: `path` holds the namespaces, `name` the last part.
#[derive(Clone, Debug)]
pub struct Ident {
    pub path: Vec<String>,
    pub name: String,
}

/// One column of a relation's schema.
#[derive(Clone, Debug)]
pub struct FrameColumn {
    pub name: String,
    pub ty: String,
}

/// The output schema of a relation at one pipeline stage.
#[derive(Clone, Debug)]
pub struct Frame {
    pub columns: Vec<FrameColumn>,
}

/// Resolved type of an expression.
#[derive(Clone, Debug)]
pub enum Ty {
    Scalar(String),
    Table(Frame),
}

#[derive(Debug)]
pub struct Expr {
    pub kind: ExprKind,
    pub span: Option<Span>,
    pub ty: Option<Ty>,
    /// Location link for a name that has no declaration of its own.
    pub target_id: Option<usize>,
}

#[derive(Debug)]
pub enum ExprKind {
    Ident(Ident),
    Literal(String),
    Binary { left: Box<Expr>, op: String, right: Box<Expr> },
    FuncCall { name: Box<Expr>, args: Vec<Expr> },
    List(Vec<Expr>),
    TransformCall(Box<TransformKind>),
}

/// A relational pipeline stage; `tbl` is the upstream relation.
#[derive(Debug)]
pub enum TransformKind {
    From(Expr),
    Derive { assigns: Vec<Expr>, tbl: Expr },
    Select { assigns: Vec<Expr>, tbl: Expr },
    Filter { filter: Expr, tbl: Expr },
    Aggregate { assigns: Vec<Expr>, tbl: Expr },
    Sort { by: Vec<Expr>, tbl: Expr },
    Take { count: Expr, tbl: Expr },
    Join { with: Expr, filter: Expr, tbl: Expr },
    Group { by: Vec<Expr>, pipeline: Expr, tbl: Expr },
    Window { pipeline: Expr, tbl: Expr },
}

#[derive(Debug)]
pub enum StmtKind {
    Main(Expr),
    VarDef { name: String, value: Expr },
}

#[derive(Debug)]
pub struct Stmt {
    pub kind: StmtKind,
    pub span: Option<Span>,
}

impl FrameColumn {
    pub open spec fn view(&self) -> (Seq<char>, Seq<char>) {
        (self.name@, self.ty@)
    }
}

impl View for Frame {
    type V = Seq<(Seq<char>, Seq<char>)>;

    open spec fn view(&self) -> Seq<(Seq<char>, Seq<char>)> {
        self.columns@.map_values(|c: FrameColumn| c.view())
    }
}

impl Frame {
    /// A copy of this frame with the same columns.
    pub fn duplicate(&self) -> (r: Frame)
        ensures
            r@ == self@,
    {
        let mut columns: Vec<FrameColumn> = Vec::new();
        let mut i: usize = 0;
        while i < self.columns.len()
            invariant
                i <= self.columns@.len(),
                columns@.len() == i,
                forall|j: int| 0 <= j < i ==> #[trigger] columns@[j].view() == self.columns@[j].view(),
            decreases self.columns@.len() - i,
        {
            let c = &self.columns[i];
            columns.push(FrameColumn { name: c.name.clone(), ty: c.ty.clone() });
            i = i + 1;
        }
        let r = Frame { columns };
        assert(r@ =~= self@);
        r
    }
}

impl Ident {
    /// The namespaces, then the name.
    pub open spec fn parts(&self) -> Seq<Seq<char>> {
        self.path@.map_values(|p: String| p@).push(self.name@)
    }

    /// Textual form: the parts joined by dots (`db.orders`).
    pub open spec fn text(&self) -> Seq<char> {
        joined(self.parts(), "."@)
    }

    pub fn to_text(&self) -> (r: String)
        ensures
            r@ == self.text(),
    {
        proof {
            reveal_strlit(".");
        }
        let ghost path = self.path@.map_values(|p: String| p@);
        let mut r = String::new();
        let mut i: usize = 0;
        while i < self.path.len()
            invariant
                i <= self.path@.len(),
                path == self.path@.map_values(|p: String| p@),
                r@ == joined(path.subrange(0, i as int), "."@),
            decreases self.path@.len() - i,
        {
            if i > 0 {
                r.append(".");
            }
            r.append(self.path[i].as_str());
            proof {
                let next = path.subrange(0, i + 1);
                assert(next.drop_last() =~= path.subrange(0, i as int));
            }
            i = i + 1;
        }
        if i > 0 {
            r.append(".");
        }
        r.append(self.name.as_str());
        proof {
            assert(path.subrange(0, i as int) =~= path);
            assert(self.parts().drop_last() =~= path);
        }
        r
    }
}

impl Frame {
    pub open spec fn names(&self) -> Seq<Seq<char>> {
        self.columns@.map_values(|c: FrameColumn| c.name@)
    }

    /// Textual form: the column names in order, `[amount, id, status]`.
    pub open spec fn text(&self) -> Seq<char> {
        "["@ + joined(self.names(), ", "@) + "]"@
    }

    pub fn to_text(&self) -> (r: String)
        ensures
            r@ == self.text(),
    {
        proof {
            reveal_strlit("[");
            reveal_strlit(", ");
            reveal_strlit("]");
        }
        let ghost names = self.names();
        let mut inner = String::new();
        let mut i: usize = 0;
        while i < self.columns.len()
            invariant
                i <= self.columns@.len(),
                names == self.names(),
                inner@ == joined(names.subrange(0, i as int), ", "@),
            decreases self.columns@.len() - i,
        {
            if i > 0 {
                inner.append(", ");
            }
            inner.append(self.columns[i].name.as_str());
            proof {
                let next = names.subrange(0, i + 1);
                assert(next.drop_last() =~= names.subrange(0, i as int));
            }
            i = i + 1;
        }
        proof {
            assert(names.subrange(0, i as int) =~= names);
        }
        let mut r = String::from_str("[");
        r.append(inner.as_str());
        r.append("]");
        r
    }
}

impl TransformKind {
    /// The expression whose span stands for this stage: the source relation
    /// of `From`, the upstream relation of every other stage.
    pub open spec fn anchor(&self) -> Expr {
        match self {
            TransformKind::From(e) => *e,
            TransformKind::Derive { tbl, .. } => *tbl,
            TransformKind::Select { tbl, .. } => *tbl,
            TransformKind::Filter { tbl, .. } => *tbl,
            TransformKind::Aggregate { tbl, .. } => *tbl,
            TransformKind::Sort { tbl, .. } => *tbl,
            TransformKind::Take { tbl, .. } => *tbl,
            TransformKind::Join { tbl, .. } => *tbl,
            TransformKind::Group { tbl, .. } => *tbl,
            TransformKind::Window { tbl, .. } => *tbl,
        }
    }

    pub fn anchor_span(&self) -> (r: Option<Span>)
        ensures
            r == self.anchor().span,
    {
        match self {
            TransformKind::From(e) => e.span,
            TransformKind::Derive { tbl, .. } => tbl.span,
            TransformKind::Select { tbl, .. } => tbl.span,
            TransformKind::Filter { tbl, .. } => tbl.span,
            TransformKind::Aggregate { tbl, .. } => tbl.span,
            TransformKind::Sort { tbl, .. } => tbl.span,
            TransformKind::Take { tbl, .. } => tbl.span,
            TransformKind::Join { tbl, .. } => tbl.span,
            TransformKind::Group { tbl, .. } => tbl.span,
            TransformKind::Window { tbl, .. } => tbl.span,
        }
    }
}

} // verus!
