//! The scan of a whole text: one label for each definition.

use crate::extract::{definitions_of, extract};
use crate::label::label_text;
use crate::language::{get_language_from_extension, language_of};
use crate::references::{count_symbol_references, references_of};
use crate::source::{lines_of, SourceText};
use crate::symbol::{CodeLensLabel, DefinitionView, LabelView};
use crate::text::same_text;
use vstd::prelude::*;

verus! {

/// What becomes of a definition that nothing refers to.
#[derive(Clone, Copy, Debug, PartialEq, Eq, Structural)]
pub enum ZeroCountPolicy {
    /// It gets a label like every other definition.
    Show,
    /// It gets no label.
    Hide,
}

/// The number of references to the symbol that `def` defines.
pub open spec fn reference_count(lines: Seq<Seq<char>>, def: DefinitionView) -> nat {
    references_of(lines, def.name, def.kind).len()
}

/// The label of the definition `def`: it is anchored at the line of the
/// definition and tells the number of references to its symbol.
pub open spec fn label_of(lines: Seq<Seq<char>>, def: DefinitionView) -> LabelView {
    LabelView { line: def.line, text: label_text(reference_count(lines, def)) }
}

/// The labels of the first `n` definitions in `lines`, in their order.
pub open spec fn labels_upto(
    lines: Seq<Seq<char>>,
    policy: ZeroCountPolicy,
    n: int,
) -> Seq<LabelView>
    decreases n,
{
    if n <= 0 {
        Seq::empty()
    } else {
        let before = labels_upto(lines, policy, n - 1);
        let def = definitions_of(lines)[n - 1];
        if policy == ZeroCountPolicy::Hide && reference_count(lines, def) == 0 {
            before
        } else {
            before.push(label_of(lines, def))
        }
    }
}

/// The labels of the definitions in `lines`, in the order of the
/// definitions. Under `Hide`, a definition without references has none.
pub open spec fn labels_of(lines: Seq<Seq<char>>, policy: ZeroCountPolicy) -> Seq<LabelView> {
    labels_upto(lines, policy, definitions_of(lines).len() as int)
}

/// Scans `text`: finds its definitions, counts the references to each and
/// labels them as `policy` says.
pub fn scan_source(text: &SourceText, policy: ZeroCountPolicy) -> (labels: Vec<CodeLensLabel>)
    ensures
        labels.deep_view() == labels_of(text.lines(), policy),
{
    let defs = extract(text);
    let mut labels: Vec<CodeLensLabel> = Vec::new();
    let mut i: usize = 0;
    while i < defs.len()
        invariant
            i <= defs.len(),
            defs.deep_view() == definitions_of(text.lines()),
            defs.deep_view().len() == defs@.len(),
            labels.deep_view() == labels_upto(text.lines(), policy, i as int),
        decreases defs.len() - i,
    {
        let def = &defs[i];
        let count = count_symbol_references(text, def.name.as_str(), def.kind);
        let hidden = match policy {
            ZeroCountPolicy::Hide => count == 0,
            ZeroCountPolicy::Show => false,
        };
        if !hidden {
            let label = CodeLensLabel { line: def.line, text: crate::label::format(count) };
            labels.push(label);
        }
        i += 1;
    }
    labels
}

/// Scans the text of one file and gives the labels that `policy` asks for.
pub fn scan_with(file_content: &str, policy: ZeroCountPolicy) -> (labels: Vec<CodeLensLabel>)
    ensures
        labels.deep_view() == labels_of(lines_of(file_content@), policy),
{
    let text = SourceText::new(file_content);
    scan_source(&text, policy)
}

/// Scans the text of one file: one label for each definition, in the order
/// of the definitions, anchored at the line of the definition and telling
/// the number of references to its symbol.
pub fn scan(file_content: &str) -> (labels: Vec<CodeLensLabel>)
    ensures
        labels.deep_view() == labels_of(lines_of(file_content@), ZeroCountPolicy::Show),
{
    scan_with(file_content, ZeroCountPolicy::Show)
}

/// Whether the scanner knows how `language` writes its definitions. It
/// knows `rust`.
pub open spec fn is_scanned_language(language: Seq<char>) -> bool {
    language == "rust"@
}

/// The labels of a file with the text `content`, written in `language`: a
/// file in a language that the scanner does not know has none.
pub open spec fn labels_in_language(
    content: Seq<char>,
    language: Seq<char>,
    policy: ZeroCountPolicy,
) -> Seq<LabelView> {
    if is_scanned_language(language) {
        labels_of(lines_of(content), policy)
    } else {
        Seq::empty()
    }
}

/// The labels of a file named `path` with the text `content`: a file whose
/// name stands for no language, or for one that the scanner does not know,
/// has none.
pub open spec fn labels_of_file(
    path: Seq<char>,
    content: Seq<char>,
    policy: ZeroCountPolicy,
) -> Seq<LabelView> {
    match language_of(path) {
        Some(language) => labels_in_language(content, language, policy),
        None => Seq::empty(),
    }
}

/// Scans the text of one file written in `language`. A file in a language
/// that the scanner does not know gets no label.
pub fn scan_in_language(
    file_content: &str,
    language: &str,
    policy: ZeroCountPolicy,
) -> (labels: Vec<CodeLensLabel>)
    ensures
        labels.deep_view() == labels_in_language(file_content@, language@, policy),
{
    if same_text(language, "rust") {
        scan_with(file_content, policy)
    } else {
        let labels: Vec<CodeLensLabel> = Vec::new();
        labels
    }
}

/// Scans the text of the file named `file_path`, in the language that the
/// extension of the name stands for.
pub fn scan_file(
    file_path: &str,
    file_content: &str,
    policy: ZeroCountPolicy,
) -> (labels: Vec<CodeLensLabel>)
    ensures
        labels.deep_view() == labels_of_file(file_path@, file_content@, policy),
{
    match get_language_from_extension(file_path) {
        Some(language) => scan_in_language(file_content, language, policy),
        None => {
            let labels: Vec<CodeLensLabel> = Vec::new();
            labels
        },
    }
}

} // verus!
