//! Labels for the symbols that a language server reports: which kinds of
//! symbols get one, and what it says of the text that defines the symbol.

use crate::extract::{definition_named, find_definition};
use crate::label::label_text;
use crate::references::count_symbol_references;
use crate::scan::reference_count;
use crate::source::SourceText;
use crate::symbol::SymbolDefinition;
use vstd::prelude::*;
use vstd::string::StringExecFns;

verus! {

/// The kind of a symbol, as a language server reports it.
#[derive(Clone, Copy, Debug, PartialEq, Eq, Structural)]
pub enum LspSymbolKind {
    File,
    Module,
    Namespace,
    Package,
    Class,
    Method,
    Property,
    Field,
    Constructor,
    Enum,
    Interface,
    Function,
    Variable,
    Constant,
    String,
    Number,
    Boolean,
    Array,
    Object,
    Key,
    Null,
    EnumMember,
    Struct,
    Event,
    Operator,
    TypeParameter,
    Other(i32),
}

/// Whether symbols of `kind` get a label: classes, methods, functions,
/// variables, constants, structs, enums, interfaces and constructors do.
pub open spec fn shows_codelens(kind: LspSymbolKind) -> bool {
    ||| kind is Class
    ||| kind is Method
    ||| kind is Function
    ||| kind is Variable
    ||| kind is Constant
    ||| kind is Struct
    ||| kind is Enum
    ||| kind is Interface
    ||| kind is Constructor
}

/// Tests whether symbols of `kind` get a label.
pub fn should_show_codelens_for_symbol_kind(kind: LspSymbolKind) -> (show: bool)
    ensures
        show == shows_codelens(kind),
{
    match kind {
        LspSymbolKind::Class => true,
        LspSymbolKind::Method => true,
        LspSymbolKind::Function => true,
        LspSymbolKind::Variable => true,
        LspSymbolKind::Constant => true,
        LspSymbolKind::Struct => true,
        LspSymbolKind::Enum => true,
        LspSymbolKind::Interface => true,
        LspSymbolKind::Constructor => true,
        _ => false,
    }
}

/// A piece of literal text in a label, with the name of its highlight.
#[derive(Clone, Debug, PartialEq, Eq)]
pub struct LabelSpan {
    pub text: String,
    pub highlight_name: Option<String>,
}

/// A label for a symbol: its code, the spans to display, and the range of
/// the label that filtering looks at.
#[derive(Clone, Debug, PartialEq, Eq)]
pub struct SymbolLabel {
    pub code: String,
    pub spans: Vec<LabelSpan>,
    pub filter_start: u32,
    pub filter_end: u32,
}

/// Whether `label` is the label that tells of `count` references: its code
/// is the label text, which its one span shows highlighted as a comment,
/// and its filter range is empty.
pub open spec fn is_reference_label(label: SymbolLabel, count: nat) -> bool {
    &&& label.code@ == label_text(count)
    &&& label.spans@.len() == 1
    &&& label.spans@[0].text@ == label_text(count)
    &&& label.spans@[0].highlight_name matches Some(name) && name@ == "comment"@
    &&& label.filter_start == 0
    &&& label.filter_end == 0
}

/// The label that tells of `count` references.
fn reference_label(count: usize) -> (label: SymbolLabel)
    ensures
        is_reference_label(label, count as nat),
{
    let mut spans: Vec<LabelSpan> = Vec::new();
    spans.push(
        LabelSpan {
            text: crate::label::format(count),
            highlight_name: Some(String::from_str("comment")),
        },
    );
    SymbolLabel { code: crate::label::format(count), spans, filter_start: 0, filter_end: 0 }
}

/// The label for the symbol that `def` defines, in `text`, where a
/// language server reports the symbol as one of `kind`. There is a label
/// exactly when symbols of that kind get one and `text` holds at least one
/// reference to the symbol. It comes with the line of the definition, and
/// tells the number of references.
pub fn label_for_definition(
    text: &SourceText,
    def: &SymbolDefinition,
    kind: LspSymbolKind,
) -> (label: Option<(usize, SymbolLabel)>)
    ensures
        label is Some <==> shows_codelens(kind) && reference_count(text.lines(), def@) > 0,
        label matches Some((line, l)) ==> line == def.line && is_reference_label(
            l,
            reference_count(text.lines(), def@),
        ),
{
    if !should_show_codelens_for_symbol_kind(kind) {
        return None;
    }
    let count = count_symbol_references(text, def.name.as_str(), def.kind);
    if count == 0 {
        return None;
    }
    Some((def.line, reference_label(count)))
}

/// Whether the symbol `name`, reported as one of `kind`, gets a label in
/// `lines`: symbols of that kind get one, `lines` define the symbol, and
/// they hold at least one reference to it.
pub open spec fn gets_label(lines: Seq<Seq<char>>, name: Seq<char>, kind: LspSymbolKind) -> bool {
    &&& shows_codelens(kind)
    &&& definition_named(lines, name) matches Some(def)
    &&& reference_count(lines, def) > 0
}

/// The label for the symbol `symbol_name` in `text`, where a language
/// server reports it as one of `kind`. The symbol is looked up among the
/// definitions of `text`; its first definition counts. There is a label
/// exactly when symbols of that kind get one, `text` defines the symbol and
/// holds at least one reference to it. The label comes with the line of
/// the definition, and tells the number of references in `text`.
pub fn label_for_symbol(
    text: &SourceText,
    symbol_name: &str,
    kind: LspSymbolKind,
) -> (label: Option<(usize, SymbolLabel)>)
    ensures
        label is Some <==> gets_label(text.lines(), symbol_name@, kind),
        label matches Some((line, l)) ==> ({
            let def = definition_named(text.lines(), symbol_name@)->0;
            &&& line == def.line
            &&& is_reference_label(l, reference_count(text.lines(), def))
        }),
{
    if !should_show_codelens_for_symbol_kind(kind) {
        return None;
    }
    match find_definition(text, symbol_name) {
        Some(def) => label_for_definition(text, &def, kind),
        None => None,
    }
}

} // verus!
