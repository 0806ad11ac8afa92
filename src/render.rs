//! The report itself is drawn by ariadne: line lookups and rendering.
use std::ops::Range;
use ariadne::{Color, Label, Report, ReportKind, Source};
use vstd::prelude::*;
use crate::ast::Span;
use crate::context::Category;

verus! {

/// One label of a report: where it points, what it says, how it is styled.
#[derive(Clone, Debug)]
pub struct ReportLabel {
    pub span: Span,
    pub message: String,
    pub category: Category,
}

impl ReportLabel {
    pub open spec fn view(&self) -> (Span, Seq<char>, Category) {
        (self.span, self.message@, self.category)
    }
}

pub open spec fn labels_view(s: Seq<ReportLabel>) -> Seq<(Span, Seq<char>, Category)> {
    s.map_values(|l: ReportLabel| l.view())
}

/// The zero-based lines that characters `start..end` of `text` run across,
/// first inclusive and last exclusive, as ariadne's `Source` counts lines.
pub uninterp spec fn line_range_of(text: Seq<char>, start: nat, end: nat) -> (nat, nat);

/// Relies on ariadne's `Source::from` and `Source::get_line_range`, which
/// depend on the text and the span alone. `get_offset_line` indexes the
/// first line unchecked, so the text must have one.
#[verifier::external_body]
pub(crate) fn line_range(text: &String, start: usize, end: usize) -> (r: (usize, usize))
    requires
        text@.len() > 0,
    ensures
        (r.0 as nat, r.1 as nat) == line_range_of(text@, start as nat, end as nat),
{
    let lines = Source::from(text).get_line_range(&Range { start, end });
    (lines.start, lines.end)
}

/// Relies on ariadne's `Report::build`, `add_label` and `write`: draws the
/// labels over the source into bytes. `write` fails only where its writer
/// does, and a `Vec<u8>` never does; the one source is found by its id for
/// every label. Looking up a line indexes the first line unchecked, so the
/// source must have one where there is a label, and a span must not run
/// backwards. Colours come from yansi, whose global switch any code in the
/// process may flip, so nothing is stated of the bytes themselves.
#[verifier::external_body]
pub(crate) fn render(source_id: &String, source: &String, labels: &Vec<ReportLabel>) -> (r: Option<Vec<u8>>)
    requires
        source@.len() > 0 || labels@.len() == 0,
        forall|i: int|
            0 <= i < labels@.len() ==> #[trigger] labels@[i].span.start <= labels@[i].span.end
                <= source@.len(),
    ensures
        r is Some,
{
    let mut report = Report::build(ReportKind::Custom("Info", Color::Blue), source_id.clone(), 0);
    for l in labels {
        let color = match l.category {
            Category::ValueAlias => Color::Blue,
            Category::ColumnRef => Color::Yellow,
            Category::TableRef => Color::Red,
            Category::FunctionRef => Color::Magenta,
            Category::NamespaceRef => Color::Cyan,
            Category::Unknown => Color::White,
        };
        let label = Label::new((source_id.clone(), l.span.start..l.span.end));
        report.add_label(label.with_message(l.message.clone()).with_color(color));
    }
    let mut out = Vec::new();
    report.finish().write((source_id.clone(), Source::from(source)), &mut out).ok().map(|_| out)
}

} // verus!
