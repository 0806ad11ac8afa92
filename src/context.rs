//! The symbol table: nested modules of declarations, and where each
//! declaration stands in the source.
use std::collections::HashMap;
use vstd::prelude::*;
use vstd::string::StringExecFns;
use crate::ast::{Expr, Frame, Ident, Span};
use crate::text::decimal;

verus! {

broadcast use vstd::std_specs::hash::group_hash_axioms;

/// Name of the namespace that holds the default database's relations.
pub const NS_DEFAULT_DB: &'static str = "default_db";

#[derive(Debug)]
pub enum DeclKind {
    /// A named value expression.
    ValueAlias(Box<Expr>),
    /// A column of a relation, with the id of the relation it belongs to.
    Column(usize),
    /// A relation; `expr` is present for a view and absent for a base table.
    TableDef { frame: Frame, expr: Option<Box<Expr>> },
    /// A function, with its signature.
    FuncDef(String),
    Namespace(Module),
    /// Namespaces searched in order.
    LayeredNamespace(Vec<Module>),
    /// A name that is left unresolved on purpose.
    Unresolved,
    /// A star expansion, with the namespace it expands by default.
    Wildcard(String),
}

#[derive(Debug)]
pub struct Decl {
    pub kind: DeclKind,
    /// Key into the context's location table.
    pub declared_at: Option<usize>,
}

/// A namespace. Names are looked up by first match; a well-formed module
/// holds each name once.
#[derive(Debug)]
pub struct Module {
    pub names: Vec<(String, Decl)>,
}

#[derive(Debug)]
pub struct Context {
    pub root_mod: Module,
    /// Where each declaration with a known position was declared.
    pub span_map: HashMap<usize, Span>,
}

/// Display category of a label; each one has its own colour in a report.
#[derive(Clone, Copy, Debug, PartialEq, Eq, Structural)]
pub enum Category {
    ValueAlias,
    ColumnRef,
    TableRef,
    FunctionRef,
    NamespaceRef,
    Unknown,
}

/// The first declaration named `name` among `entries`.
pub open spec fn find(entries: Seq<(String, Decl)>, name: Seq<char>) -> Option<Decl>
    decreases entries.len(),
{
    if entries.len() == 0 {
        None
    } else if entries[0].0@ == name {
        Some(entries[0].1)
    } else {
        find(entries.drop_first(), name)
    }
}

/// No two entries of `entries` share a name.
pub open spec fn names_unique(entries: Seq<(String, Decl)>) -> bool {
    forall|i: int, j: int|
        0 <= i < j < entries.len() ==> #[trigger] entries[i].0@ != #[trigger] entries[j].0@
}

/// In a module whose names are unique, each entry is what its name finds.
pub proof fn find_unique_entry(entries: Seq<(String, Decl)>, k: int)
    requires
        names_unique(entries),
        0 <= k < entries.len(),
    ensures
        find(entries, entries[k].0@) == Some(entries[k].1),
    decreases entries.len(),
{
    if k > 0 {
        let rest = entries.drop_first();
        assert(entries[0].0@ != entries[k].0@);
        assert forall|i: int, j: int| 0 <= i < j < rest.len() implies #[trigger] rest[i].0@
            != #[trigger] rest[j].0@ by {
            assert(rest[i] == entries[i + 1] && rest[j] == entries[j + 1]);
        }
        find_unique_entry(rest, k - 1);
        assert(rest[k - 1] == entries[k]);
    }
}

/// The declaration that `path` then `name` reach from `m`, descending
/// through nested namespaces.
pub open spec fn lookup(m: Module, path: Seq<Seq<char>>, name: Seq<char>) -> Option<Decl>
    decreases path.len(),
{
    if path.len() == 0 {
        find(m.names@, name)
    } else {
        match find(m.names@, path[0]) {
            Some(Decl { kind: DeclKind::Namespace(inner), .. }) => lookup(
                inner,
                path.drop_first(),
                name,
            ),
            _ => None,
        }
    }
}

pub open spec fn deref_decl(r: Option<&Decl>) -> Option<Decl> {
    match r {
        Some(d) => Some(*d),
        None => None,
    }
}

pub open spec fn category_of(k: DeclKind) -> Category {
    match k {
        DeclKind::ValueAlias(_) => Category::ValueAlias,
        DeclKind::Column(_) => Category::ColumnRef,
        DeclKind::TableDef { .. } => Category::TableRef,
        DeclKind::FuncDef(_) => Category::FunctionRef,
        DeclKind::Namespace(_) => Category::NamespaceRef,
        DeclKind::LayeredNamespace(_) => Category::NamespaceRef,
        DeclKind::Unresolved => Category::Unknown,
        DeclKind::Wildcard(_) => Category::Unknown,
    }
}

/// Default textual form of a declaration.
pub open spec fn kind_text(k: DeclKind) -> Seq<char> {
    match k {
        DeclKind::ValueAlias(_) => "Expr"@,
        DeclKind::Column(t) => "Column (target "@ + decimal(t as nat) + ")"@,
        DeclKind::TableDef { frame, .. } => "TableDef: "@ + frame.text(),
        DeclKind::FuncDef(sig) => "FuncDef: "@ + sig@,
        DeclKind::Namespace(_) => "Module"@,
        DeclKind::LayeredNamespace(_) => "LayeredModules"@,
        DeclKind::Unresolved => "NoResolve"@,
        DeclKind::Wildcard(d) => "Wildcard (default: "@ + d@ + ")"@,
    }
}

/// What a label says of a declaration: `table` and the frame for a
/// relation, the default textual form otherwise.
pub open spec fn body_text(k: DeclKind) -> Seq<char> {
    match k {
        DeclKind::TableDef { frame, .. } => "table "@ + frame.text(),
        _ => kind_text(k),
    }
}

impl DeclKind {
    pub fn category(&self) -> (r: Category)
        ensures
            r == category_of(*self),
    {
        match self {
            DeclKind::ValueAlias(_) => Category::ValueAlias,
            DeclKind::Column(_) => Category::ColumnRef,
            DeclKind::TableDef { .. } => Category::TableRef,
            DeclKind::FuncDef(_) => Category::FunctionRef,
            DeclKind::Namespace(_) => Category::NamespaceRef,
            DeclKind::LayeredNamespace(_) => Category::NamespaceRef,
            DeclKind::Unresolved => Category::Unknown,
            DeclKind::Wildcard(_) => Category::Unknown,
        }
    }

    pub fn to_text(&self) -> (r: String)
        ensures
            r@ == kind_text(*self),
    {
        proof {
            reveal_strlit("Expr");
            reveal_strlit("Column (target ");
            reveal_strlit(")");
            reveal_strlit("TableDef: ");
            reveal_strlit("FuncDef: ");
            reveal_strlit("Module");
            reveal_strlit("LayeredModules");
            reveal_strlit("NoResolve");
            reveal_strlit("Wildcard (default: ");
        }
        match self {
            DeclKind::ValueAlias(_) => String::from_str("Expr"),
            DeclKind::Column(t) => {
                let mut r = String::from_str("Column (target ");
                crate::text::append_decimal(&mut r, *t as u128);
                r.append(")");
                r
            },
            DeclKind::TableDef { frame, .. } => {
                let mut r = String::from_str("TableDef: ");
                let f = frame.to_text();
                r.append(f.as_str());
                r
            },
            DeclKind::FuncDef(sig) => {
                let mut r = String::from_str("FuncDef: ");
                r.append(sig.as_str());
                r
            },
            DeclKind::Namespace(_) => String::from_str("Module"),
            DeclKind::LayeredNamespace(_) => String::from_str("LayeredModules"),
            DeclKind::Unresolved => String::from_str("NoResolve"),
            DeclKind::Wildcard(d) => {
                let mut r = String::from_str("Wildcard (default: ");
                r.append(d.as_str());
                r.append(")");
                r
            },
        }
    }

    /// The body of a label for a name that resolves to this declaration.
    pub fn body(&self) -> (r: String)
        ensures
            r@ == body_text(*self),
    {
        proof {
            reveal_strlit("table ");
        }
        match self {
            DeclKind::TableDef { frame, .. } => {
                let mut r = String::from_str("table ");
                let f = frame.to_text();
                r.append(f.as_str());
                r
            },
            _ => self.to_text(),
        }
    }
}

impl Module {
    /// Well-formed: each name is held once.
    pub open spec fn wf(&self) -> bool {
        names_unique(self.names@)
    }

    /// Index of the first entry named `name`.
    pub fn position(&self, name: &String) -> (r: Option<usize>)
        ensures
            match r {
                Some(i) => i < self.names@.len() && find(self.names@, name@) == Some(
                    self.names@[i as int].1,
                ),
                None => find(self.names@, name@) == None::<Decl>,
            },
    {
        let mut i: usize = 0;
        assert(self.names@.subrange(0, self.names@.len() as int) =~= self.names@);
        while i < self.names.len()
            invariant
                i <= self.names@.len(),
                find(self.names@, name@) == find(self.names@.subrange(i as int, self.names@.len() as int), name@),
            decreases self.names@.len() - i,
        {
            let ghost rest = self.names@.subrange(i as int, self.names@.len() as int);
            if self.names[i].0 == *name {
                return Some(i);
            }
            assert(rest.drop_first() =~= self.names@.subrange(i + 1, self.names@.len() as int));
            i = i + 1;
        }
        None
    }

    /// The declaration that `ident` names, descending through namespaces.
    pub fn get(&self, ident: &Ident) -> (r: Option<&Decl>)
        ensures
            deref_decl(r) == lookup(*self, ident.path@.map_values(|p: String| p@), ident.name@),
    {
        let ghost path = ident.path@.map_values(|p: String| p@);
        let mut m: &Module = self;
        let mut k: usize = 0;
        assert(path.subrange(0, path.len() as int) =~= path);
        while k < ident.path.len()
            invariant
                k <= ident.path@.len(),
                path == ident.path@.map_values(|p: String| p@),
                lookup(*self, path, ident.name@) == lookup(
                    *m,
                    path.subrange(k as int, path.len() as int),
                    ident.name@,
                ),
            decreases ident.path@.len() - k,
        {
            let ghost rest = path.subrange(k as int, path.len() as int);
            assert(rest[0] == ident.path@[k as int]@);
            assert(rest.drop_first() =~= path.subrange(k + 1, path.len() as int));
            match m.position(&ident.path[k]) {
                Some(i) => match &m.names[i].1.kind {
                    DeclKind::Namespace(inner) => {
                        m = inner;
                    },
                    _ => {
                        return None;
                    },
                },
                None => {
                    return None;
                },
            }
            k = k + 1;
        }
        assert(path.subrange(k as int, path.len() as int) =~= Seq::<Seq<char>>::empty());
        match m.position(&ident.name) {
            Some(i) => Some(&m.names[i].1),
            None => None,
        }
    }
}

impl Context {
    /// Where declaration `id` stands, if its position is known.
    pub fn location(&self, id: usize) -> (r: Option<Span>)
        ensures
            r == (if self.span_map@.contains_key(id) {
                Some(self.span_map@[id])
            } else {
                None
            }),
    {
        match self.span_map.get(&id) {
            Some(s) => Some(*s),
            None => None,
        }
    }
}

} // verus!
