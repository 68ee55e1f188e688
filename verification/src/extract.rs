//! The definition extractor: which line defines which symbol.

use crate::chars::{digit, is_digit, is_word_char, word_char};
use crate::source::SourceText;
use crate::symbol::{DefinitionView, NameShape, SymbolDefinition, SymbolKind};
use crate::text::{
    contains, find_first, find_keyword, first_keyword, first_of, has_keyword,
    lemma_first_keyword, lemma_first_of, lemma_trim_span, occurs_at, same_text, to_chars, trim,
    trim_range, trim_span, trimmed, CharClass,
};
use vstd::math::min;
use vstd::prelude::*;
use vstd::slice::slice_subrange;

verus! {

/// Whether `name` can be the name of a symbol: it is not empty, holds only
/// letters, digits and `_`, and does not start with a digit.
pub open spec fn valid_identifier(name: Seq<char>) -> bool {
    &&& name.len() > 0
    &&& !digit(name[0])
    &&& forall|i: int| 0 <= i < name.len() ==> word_char(#[trigger] name[i])
}

/// Tests whether the characters `name` can be the name of a symbol.
pub(crate) fn is_identifier(name: &[char]) -> (b: bool)
    ensures
        b == valid_identifier(name@),
{
    if name.len() == 0 || is_digit(name[0]) {
        return false;
    }
    let mut i: usize = 0;
    while i < name.len()
        invariant
            i <= name.len(),
            forall|j: int| 0 <= j < i ==> word_char(#[trigger] name@[j]),
        decreases name.len() - i,
    {
        if !is_word_char(name[i]) {
            return false;
        }
        i += 1;
    }
    true
}

/// Tests whether `name` can be the name of a symbol.
pub fn is_valid_identifier(name: &str) -> (b: bool)
    ensures
        b == valid_identifier(name@),
{
    let chars = to_chars(name);
    is_identifier(chars.as_slice())
}

/// The text between `after` and the first `stop` that follows, without the
/// whitespace around it; `None` where no `stop` follows.
pub open spec fn delimited_name(t: Seq<char>, after: int, stop: char) -> Option<Seq<char>> {
    let q = first_of(t, after, CharClass::Exactly(stop));
    if q >= t.len() {
        None
    } else {
        Some(trimmed(t, after, q))
    }
}

/// The first token at or after `after`, up to its first `{` or `<`. A token
/// is a longest run of characters that are not whitespace.
pub open spec fn token_name(t: Seq<char>, after: int) -> Seq<char> {
    let a = first_of(t, after, CharClass::Visible);
    let e = first_of(t, a, CharClass::Whitespace);
    let brace = first_of(t, a, CharClass::Exactly('{'));
    let angle = first_of(t, a, CharClass::Exactly('<'));
    t.subrange(a, min(e, min(brace, angle)))
}

/// The text that stands in the trimmed line `t` where a definition of
/// `kind` has its name. The keyword of `kind`, followed by whitespace, must
/// stand in `t` (for an anchored kind: at its start); only its first
/// occurrence counts.
pub open spec fn candidate_name(t: Seq<char>, kind: SymbolKind) -> Option<Seq<char>> {
    let kw = kind.keyword();
    let p = first_keyword(t, kw, 0);
    if p >= t.len() || (kind.anchored() && p != 0) {
        None
    } else {
        match kind.shape() {
            NameShape::BeforeParen => delimited_name(t, p + kw.len(), '('),
            NameShape::BeforeColon => delimited_name(t, p + kw.len(), ':'),
            NameShape::FirstToken => Some(token_name(t, p + kw.len())),
        }
    }
}

/// Whether the trimmed line `t` defines a symbol of `kind`.
pub open spec fn defines(t: Seq<char>, kind: SymbolKind) -> bool {
    candidate_name(t, kind) matches Some(name) && valid_identifier(name)
}

/// The order in which the kinds are tried on a line. The first kind that the
/// line defines a symbol of is the kind of its definition.
pub open spec fn priority() -> Seq<SymbolKind> {
    seq![
        SymbolKind::Function,
        SymbolKind::Struct,
        SymbolKind::Enum,
        SymbolKind::Trait,
        SymbolKind::Module,
        SymbolKind::TypeAlias,
        SymbolKind::Impl,
        SymbolKind::Constant,
        SymbolKind::Static,
    ]
}

/// The first kind, from position `from` of the priority order on, that the
/// trimmed line `t` defines a symbol of.
pub open spec fn first_defining(t: Seq<char>, from: int) -> Option<SymbolKind>
    decreases priority().len() - from,
{
    if from < 0 || from >= priority().len() {
        None
    } else if defines(t, priority()[from]) {
        Some(priority()[from])
    } else {
        first_defining(t, from + 1)
    }
}

/// The name and kind of the symbol that `line` defines, if it defines one.
pub open spec fn line_definition(line: Seq<char>) -> Option<(Seq<char>, SymbolKind)> {
    match first_defining(trim(line), 0) {
        Some(kind) => Some((candidate_name(trim(line), kind)->0, kind)),
        None => None,
    }
}

/// The definitions in the first `n` lines, in the order of the lines.
pub open spec fn definitions_upto(lines: Seq<Seq<char>>, n: int) -> Seq<DefinitionView>
    decreases n,
{
    if n <= 0 {
        Seq::empty()
    } else {
        let before = definitions_upto(lines, n - 1);
        match line_definition(lines[n - 1]) {
            Some((name, kind)) => before.push(DefinitionView { name, kind, line: n as nat }),
            None => before,
        }
    }
}

/// The definitions in `lines`, in the order of the lines.
pub open spec fn definitions_of(lines: Seq<Seq<char>>) -> Seq<DefinitionView> {
    definitions_upto(lines, lines.len() as int)
}

/// Where a trimmed line has a candidate name for `kind`, it holds the
/// keyword of `kind` followed by whitespace, it holds the name, and for a
/// name that ends before a `(` it holds a `(`.
pub proof fn lemma_candidate_stands_in_line(t: Seq<char>, kind: SymbolKind)
    requires
        candidate_name(t, kind) is Some,
    ensures
        has_keyword(t, kind.keyword()),
        contains(t, candidate_name(t, kind)->0),
        kind.shape() == NameShape::BeforeParen ==> t.contains('('),
{
    let kw = kind.keyword();
    let p = first_keyword(t, kw, 0);
    let after = p + kw.len();
    let name = candidate_name(t, kind)->0;
    lemma_first_keyword(t, kw, 0);
    match kind.shape() {
        NameShape::BeforeParen => {
            lemma_delimited_stands_in_line(t, after, '(');
        },
        NameShape::BeforeColon => {
            lemma_delimited_stands_in_line(t, after, ':');
        },
        NameShape::FirstToken => {
            let a = first_of(t, after, CharClass::Visible);
            lemma_first_of(t, after, CharClass::Visible);
            lemma_first_of(t, a, CharClass::Whitespace);
            lemma_first_of(t, a, CharClass::Exactly('{'));
            lemma_first_of(t, a, CharClass::Exactly('<'));
            assert(occurs_at(t, name, a));
        },
    }
}

/// A delimited name stands in the line, and so does the character that
/// ends it.
pub proof fn lemma_delimited_stands_in_line(t: Seq<char>, after: int, stop: char)
    requires
        0 <= after <= t.len(),
        delimited_name(t, after, stop) is Some,
    ensures
        contains(t, delimited_name(t, after, stop)->0),
        t.contains(stop),
{
    let q = first_of(t, after, CharClass::Exactly(stop));
    lemma_first_of(t, after, CharClass::Exactly(stop));
    lemma_trim_span(t, after, q);
    assert(occurs_at(t, delimited_name(t, after, stop)->0, trim_span(t, after, q).0));
}

/// What `first_defining` finds is a kind that the line defines a symbol of,
/// and the line defines none of a kind that stands before it in the
/// priority order, from `from` on.
pub proof fn lemma_first_defining(t: Seq<char>, from: int)
    requires
        0 <= from,
    ensures
        first_defining(t, from) matches Some(kind) ==> defines(t, kind),
        first_defining(t, from) is None ==> forall|i: int|
            from <= i < priority().len() ==> !defines(t, #[trigger] priority()[i]),
    decreases priority().len() - from,
{
    if from < priority().len() && !defines(t, priority()[from]) {
        lemma_first_defining(t, from + 1);
    }
}

/// The definition that the line at the 0-based position `line` gives.
pub open spec fn definition_at(lines: Seq<Seq<char>>, line: int) -> DefinitionView {
    let (name, kind) = line_definition(lines[line])->0;
    DefinitionView { name, kind, line: (line + 1) as nat }
}

/// Each definition names a line of the text, and that line defines the
/// symbol; the definitions stand in the order of their lines, one for a
/// line at most; and each line that defines a symbol has its definition.
pub proof fn lemma_definitions_upto(lines: Seq<Seq<char>>, n: int)
    requires
        n <= lines.len(),
    ensures
        forall|line: int|
            0 <= line < n && (#[trigger] line_definition(lines[line])) is Some
                ==> definitions_upto(lines, n).contains(definition_at(lines, line)),
        forall|k: int|
            0 <= k < definitions_upto(lines, n).len() ==> ({
                let d = #[trigger] definitions_upto(lines, n)[k];
                &&& 1 <= d.line <= n
                &&& line_definition(lines[d.line - 1]) == Some((d.name, d.kind))
            }),
        forall|j: int, k: int|
            0 <= j < k < definitions_upto(lines, n).len() ==> (#[trigger] definitions_upto(
                lines,
                n,
            )[j]).line < (#[trigger] definitions_upto(lines, n)[k]).line,
    decreases n,
{
    if n > 0 {
        lemma_definitions_upto(lines, n - 1);
        let before = definitions_upto(lines, n - 1);
        let all = definitions_upto(lines, n);
        assert forall|line: int|
            0 <= line < n && (#[trigger] line_definition(lines[line])) is Some implies all.contains(
            definition_at(lines, line),
        ) by {
            if line < n - 1 {
                let k = choose|k: int| 0 <= k < before.len() && before[k] == definition_at(lines, line);
                assert(all[k] == definition_at(lines, line));
            } else {
                assert(all[all.len() - 1] == definition_at(lines, line));
            }
        }
    }
}

/// Each definition of a text names one of its lines, and that line defines
/// the symbol.
pub proof fn lemma_definition_comes_from_its_line(lines: Seq<Seq<char>>, k: int)
    requires
        0 <= k < definitions_of(lines).len(),
    ensures
        1 <= definitions_of(lines)[k].line <= lines.len(),
        line_definition(lines[definitions_of(lines)[k].line - 1]) == Some(
            (definitions_of(lines)[k].name, definitions_of(lines)[k].kind),
        ),
{
    lemma_definitions_upto(lines, lines.len() as int);
}

/// Each line that defines a symbol has its definition among the
/// definitions of the text.
pub proof fn lemma_defining_line_is_found(lines: Seq<Seq<char>>, line: int)
    requires
        0 <= line < lines.len(),
        line_definition(lines[line]) is Some,
    ensures
        definitions_of(lines).contains(definition_at(lines, line)),
{
    lemma_definitions_upto(lines, lines.len() as int);
}

/// The definitions stand in the order of their lines, and no line has two.
pub proof fn lemma_definitions_in_text_order(lines: Seq<Seq<char>>, j: int, k: int)
    requires
        0 <= j < k < definitions_of(lines).len(),
    ensures
        definitions_of(lines)[j].line < definitions_of(lines)[k].line,
{
    lemma_definitions_upto(lines, lines.len() as int);
}

/// A line that defines a symbol gives it a valid name.
pub proof fn lemma_defined_name_is_valid(line: Seq<char>)
    requires
        line_definition(line) is Some,
    ensures
        ({
            let (name, kind) = line_definition(line)->0;
            valid_identifier(name)
        }),
{
    lemma_first_defining(trim(line), 0);
}

/// The bounds of `delimited_name` in `t`.
fn delimited_range(t: &[char], after: usize, stop: char) -> (r: Option<(usize, usize)>)
    requires
        after <= t.len(),
    ensures
        r is Some <==> delimited_name(t@, after as int, stop) is Some,
        r matches Some((a, b)) ==> a <= b <= t.len() && t@.subrange(a as int, b as int)
            == delimited_name(t@, after as int, stop)->0,
{
    let q = find_first(t, after, CharClass::Exactly(stop));
    if q >= t.len() {
        None
    } else {
        Some(trim_range(t, after, q))
    }
}

/// The bounds of `token_name` in `t`.
fn token_range(t: &[char], after: usize) -> (r: (usize, usize))
    requires
        after <= t.len(),
    ensures
        r.0 <= r.1 <= t.len(),
        t@.subrange(r.0 as int, r.1 as int) == token_name(t@, after as int),
{
    let a = find_first(t, after, CharClass::Visible);
    let e = find_first(t, a, CharClass::Whitespace);
    let brace = find_first(t, a, CharClass::Exactly('{'));
    let angle = find_first(t, a, CharClass::Exactly('<'));
    let b: usize = if brace < e && brace <= angle {
        brace
    } else if angle < e {
        angle
    } else {
        e
    };
    (a, b)
}

/// The bounds of `candidate_name` in `t`; `kw` holds the keyword of `kind`.
fn candidate_range(t: &[char], kind: SymbolKind, kw: &[char]) -> (r: Option<(usize, usize)>)
    requires
        kw@ == kind.keyword(),
    ensures
        r is Some <==> candidate_name(t@, kind) is Some,
        r matches Some((a, b)) ==> a <= b <= t.len() && t@.subrange(a as int, b as int)
            == candidate_name(t@, kind)->0,
{
    let p = find_keyword(t, kw, 0);
    if p >= t.len() || (kind.is_anchored() && p != 0) {
        return None;
    }
    proof {
        lemma_first_keyword(t@, kw@, 0);
    }
    let after: usize = p + kw.len();
    match kind.name_shape() {
        NameShape::BeforeParen => delimited_range(t, after, '('),
        NameShape::BeforeColon => delimited_range(t, after, ':'),
        NameShape::FirstToken => Some(token_range(t, after)),
    }
}

/// A kind together with the characters of its keyword.
pub(crate) struct Pattern {
    pub kind: SymbolKind,
    pub keyword: Vec<char>,
}

/// Whether `table` holds the kinds in priority order, each with its keyword.
pub(crate) open spec fn is_pattern_table(table: Seq<Pattern>) -> bool {
    &&& table.len() == priority().len()
    &&& forall|i: int|
        0 <= i < table.len() ==> (#[trigger] table[i]).kind == priority()[i] && table[i].keyword@
            == priority()[i].keyword()
}

/// The kinds in priority order.
pub(crate) fn priority_kinds() -> (kinds: Vec<SymbolKind>)
    ensures
        kinds@ == priority(),
{
    let mut kinds: Vec<SymbolKind> = Vec::new();
    kinds.push(SymbolKind::Function);
    kinds.push(SymbolKind::Struct);
    kinds.push(SymbolKind::Enum);
    kinds.push(SymbolKind::Trait);
    kinds.push(SymbolKind::Module);
    kinds.push(SymbolKind::TypeAlias);
    kinds.push(SymbolKind::Impl);
    kinds.push(SymbolKind::Constant);
    kinds.push(SymbolKind::Static);
    kinds
}

/// The table of the kinds in priority order, each with its keyword.
pub(crate) fn pattern_table() -> (table: Vec<Pattern>)
    ensures
        is_pattern_table(table@),
{
    let kinds = priority_kinds();
    let mut table: Vec<Pattern> = Vec::new();
    let mut i: usize = 0;
    while i < kinds.len()
        invariant
            i <= kinds.len(),
            kinds@ == priority(),
            table@.len() == i,
            forall|j: int|
                0 <= j < i ==> (#[trigger] table@[j]).kind == priority()[j] && table@[j].keyword@
                    == priority()[j].keyword(),
        decreases kinds.len() - i,
    {
        let kind = kinds[i];
        table.push(Pattern { kind, keyword: to_chars(kind.keyword_text()) });
        i += 1;
    }
    table
}

/// Finds what `line` defines: the bounds of the name in `line`, and the kind.
pub(crate) fn define_line(line: &[char], table: &Vec<Pattern>) -> (r: Option<(usize, usize, SymbolKind)>)
    requires
        is_pattern_table(table@),
    ensures
        r is Some <==> line_definition(line@) is Some,
        r matches Some((a, b, kind)) ==> ({
            &&& a <= b <= line.len()
            &&& line_definition(line@) == Some((line@.subrange(a as int, b as int), kind))
        }),
{
    let span = trim_range(line, 0, line.len());
    let t = slice_subrange(line, span.0, span.1);
    let mut i: usize = 0;
    while i < table.len()
        invariant
            i <= table.len(),
            is_pattern_table(table@),
            span.0 <= span.1 <= line.len(),
            t@ == trim(line@),
            t@ == line@.subrange(span.0 as int, span.1 as int),
            first_defining(t@, 0) == first_defining(t@, i as int),
        decreases table.len() - i,
    {
        let kind = table[i].kind;
        match candidate_range(t, kind, table[i].keyword.as_slice()) {
            Some((a, b)) => {
                if is_identifier(slice_subrange(t, a, b)) {
                    return Some((span.0 + a, span.0 + b, kind));
                }
            },
            None => {},
        }
        i += 1;
    }
    None
}

/// Finds the definitions in `text`, one for each line that defines a
/// symbol, in the order of the lines.
pub fn extract(text: &SourceText) -> (defs: Vec<SymbolDefinition>)
    ensures
        defs.deep_view() == definitions_of(text.lines()),
{
    let table = pattern_table();
    let mut defs: Vec<SymbolDefinition> = Vec::new();
    let count = text.line_count();
    let mut i: usize = 0;
    while i < count
        invariant
            i <= count,
            count == text.lines().len(),
            is_pattern_table(table@),
            defs.deep_view() == definitions_upto(text.lines(), i as int),
        decreases count - i,
    {
        let line = text.line_at(i);
        match define_line(line, &table) {
            Some((a, b, kind)) => {
                let d = SymbolDefinition { name: text.excerpt(i, a, b), kind, line: i + 1 };
                defs.push(d);
            },
            None => {},
        }
        i += 1;
    }
    defs
}

/// The first of the definitions `defs`, from position `from` on, that has
/// the name `name`.
pub open spec fn first_named(
    defs: Seq<DefinitionView>,
    name: Seq<char>,
    from: int,
) -> Option<DefinitionView>
    decreases defs.len() - from,
{
    if from < 0 || from >= defs.len() {
        None
    } else if defs[from].name == name {
        Some(defs[from])
    } else {
        first_named(defs, name, from + 1)
    }
}

/// The definition of the symbol `name` in `lines`: the first definition in
/// the order of the text that has this name.
pub open spec fn definition_named(
    lines: Seq<Seq<char>>,
    name: Seq<char>,
) -> Option<DefinitionView> {
    first_named(definitions_of(lines), name, 0)
}

/// What `first_named` finds is the earliest definition, from `from` on,
/// that has the name; it finds none only where none has the name.
pub proof fn lemma_first_named(defs: Seq<DefinitionView>, name: Seq<char>, from: int)
    requires
        0 <= from,
    ensures
        first_named(defs, name, from) matches Some(d) ==> exists|k: int|
            from <= k < defs.len() && #[trigger] defs[k] == d && d.name == name && forall|j: int|
                from <= j < k ==> (#[trigger] defs[j]).name != name,
        first_named(defs, name, from) is None ==> forall|j: int|
            from <= j < defs.len() ==> (#[trigger] defs[j]).name != name,
    decreases defs.len() - from,
{
    if from < defs.len() {
        if defs[from].name == name {
        } else {
            lemma_first_named(defs, name, from + 1);
        }
    }
}

/// Finds the definition of the symbol `symbol_name` in `text`: the first
/// line that defines a symbol of this name.
pub fn find_definition(text: &SourceText, symbol_name: &str) -> (def: Option<SymbolDefinition>)
    ensures
        def is Some <==> definition_named(text.lines(), symbol_name@) is Some,
        def matches Some(d) ==> definition_named(text.lines(), symbol_name@) == Some(d@),
{
    let defs = extract(text);
    let mut i: usize = 0;
    while i < defs.len()
        invariant
            i <= defs.len(),
            defs.deep_view() == definitions_of(text.lines()),
            defs.deep_view().len() == defs@.len(),
            definition_named(text.lines(), symbol_name@) == first_named(
                definitions_of(text.lines()),
                symbol_name@,
                i as int,
            ),
        decreases defs.len() - i,
    {
        let d = &defs[i];
        if same_text(d.name.as_str(), symbol_name) {
            return Some(SymbolDefinition { name: d.name.clone(), kind: d.kind, line: d.line });
        }
        i += 1;
    }
    None
}

} // verus!
