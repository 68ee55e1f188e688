//! What holds of every text: statements that relate the definitions, the
//! references and the labels to each other.

use crate::extract::{
    definitions_of, lemma_candidate_stands_in_line, lemma_definition_comes_from_its_line,
    lemma_first_defining, line_definition,
};
use crate::references::{
    is_definition_line, lemma_count_adds_over_lines, lemma_no_reference_exactly_when,
    lemma_references_are_whole_words, references_of,
};
use crate::scan::{label_of, labels_of, labels_upto, ZeroCountPolicy};
use crate::source::{
    lemma_lines_of_ended, lemma_lines_of_joined, lemma_lines_of_line_feed, lines_of,
};
use crate::symbol::{LabelView, SymbolKind};
use crate::text::{
    lemma_contains_in_part, lemma_keyword_in_part, lemma_trim_span, trim, trim_span,
};
use vstd::prelude::*;

verus! {

/// A line that defines a symbol counts as a definition line for it.
pub proof fn lemma_defining_line_counts_as_definition(line: Seq<char>)
    requires
        line_definition(line) is Some,
    ensures
        ({
            let (name, kind) = line_definition(line)->0;
            is_definition_line(line, name, kind)
        }),
{
    let t = trim(line);
    let (name, kind) = line_definition(line)->0;
    let span = trim_span(line, 0, line.len() as int);
    lemma_trim_span(line, 0, line.len() as int);
    lemma_first_defining(t, 0);
    lemma_candidate_stands_in_line(t, kind);
    lemma_keyword_in_part(line, span.0, span.1, kind.keyword());
    lemma_contains_in_part(line, span.0, span.1, name);
    if kind == SymbolKind::Function {
        let q = choose|q: int| 0 <= q < t.len() && t[q] == '(';
        assert(line[span.0 + q] == '(');
    }
}

/// The line that defines a symbol is never a reference to it: no reference
/// to the symbol of a definition stands in the line of that definition.
pub proof fn lemma_definition_is_no_reference(lines: Seq<Seq<char>>, d: int, k: int)
    requires
        0 <= d < definitions_of(lines).len(),
        0 <= k < references_of(
            lines,
            definitions_of(lines)[d].name,
            definitions_of(lines)[d].kind,
        ).len(),
    ensures
        references_of(lines, definitions_of(lines)[d].name, definitions_of(lines)[d].kind)[k].line
            != definitions_of(lines)[d].line,
{
    let def = definitions_of(lines)[d];
    lemma_definition_comes_from_its_line(lines, d);
    lemma_defining_line_counts_as_definition(lines[def.line - 1]);
    lemma_references_are_whole_words(lines, def.name, def.kind, k);
}

/// Under `Show` every definition has its label: there are as many labels
/// as definitions, in the same order.
pub proof fn lemma_one_label_for_each_definition(lines: Seq<Seq<char>>, k: int)
    requires
        0 <= k < definitions_of(lines).len(),
    ensures
        labels_of(lines, ZeroCountPolicy::Show).len() == definitions_of(lines).len(),
        labels_of(lines, ZeroCountPolicy::Show)[k] == label_of(lines, definitions_of(lines)[k]),
{
    lemma_labels_upto_show(lines, definitions_of(lines).len() as int);
}

/// Under `Show` the first `n` definitions have `n` labels, each its own.
proof fn lemma_labels_upto_show(lines: Seq<Seq<char>>, n: int)
    requires
        0 <= n <= definitions_of(lines).len(),
    ensures
        labels_upto(lines, ZeroCountPolicy::Show, n).len() == n,
        forall|k: int|
            0 <= k < n ==> #[trigger] labels_upto(lines, ZeroCountPolicy::Show, n)[k] == label_of(
                lines,
                definitions_of(lines)[k],
            ),
    decreases n,
{
    if n > 0 {
        lemma_labels_upto_show(lines, n - 1);
    }
}

/// A scan depends on the text alone: two lists of labels that are each
/// what a scan of the same text under the same policy gives are the same
/// list.
pub proof fn lemma_scan_is_repeatable(
    text: Seq<char>,
    policy: ZeroCountPolicy,
    first: Seq<LabelView>,
    second: Seq<LabelView>,
)
    requires
        first == labels_of(lines_of(text), policy),
        second == labels_of(lines_of(text), policy),
    ensures
        first == second,
{
}

/// The count of two texts joined by a line feed is the sum of their
/// counts, unless the first text ends with a carriage return: that
/// carriage return then becomes part of a line end and leaves its line.
pub proof fn lemma_count_of_joined_texts(
    a: Seq<char>,
    b: Seq<char>,
    name: Seq<char>,
    kind: SymbolKind,
)
    requires
        a.len() == 0 || a.last() != '\r',
    ensures
        references_of(lines_of(a + seq!['\n'] + b), name, kind).len() == references_of(
            lines_of(a),
            name,
            kind,
        ).len() + references_of(lines_of(b), name, kind).len(),
{
    let feed = seq!['\n'];
    let ended = a + feed;
    lemma_lines_of_joined(ended, b);
    lemma_count_adds_over_lines(lines_of(ended), lines_of(b), name, kind);
    lemma_lines_of_line_feed();
    let blank = seq![Seq::<char>::empty()];
    assert(references_of(blank, name, kind).len() == 0) by {
        lemma_no_reference_exactly_when(blank, name, kind);
    }
    if a.len() > 0 {
        if a.last() == '\n' {
            lemma_lines_of_joined(a, feed);
            lemma_count_adds_over_lines(lines_of(a), blank, name, kind);
        } else {
            lemma_lines_of_ended(a);
        }
    }
}

} // verus!
