//! The reference counter: where in a text a name is referred to.

use crate::chars::{is_word_char, word_char};
use crate::source::SourceText;
use crate::symbol::{LocationView, ReferenceLocation, SymbolKind};
use crate::text::{
    contains, contains_text, find_first, find_keyword, has_keyword, lemma_first_of,
    lemma_has_keyword, matches_at, occurs_at, to_chars, CharClass,
};
use vstd::prelude::*;

verus! {

/// Whether `name` stands in `line` at index `at` as a whole word: neither
/// the character before it nor the one after it, where there is one, is a
/// letter, a digit or `_`. The empty name stands nowhere.
pub open spec fn whole_word_at(line: Seq<char>, name: Seq<char>, at: int) -> bool {
    &&& name.len() > 0
    &&& occurs_at(line, name, at)
    &&& (at > 0 ==> !word_char(line[at - 1]))
    &&& (at + name.len() < line.len() ==> !word_char(line[at + name.len()]))
}

/// Whether `line` counts as a line that defines `name` as a symbol of
/// `kind`: it holds the keyword of `kind` followed by whitespace, it holds
/// `name`, and for a function it holds a `(`. Where in the line they stand
/// is not looked at.
pub open spec fn is_definition_line(line: Seq<char>, name: Seq<char>, kind: SymbolKind) -> bool {
    &&& has_keyword(line, kind.keyword())
    &&& contains(line, name)
    &&& (kind == SymbolKind::Function ==> line.contains('('))
}

/// The location of the 0-based index `at` in the line at the 0-based
/// position `line`.
pub open spec fn location_of(line: int, at: int) -> LocationView {
    LocationView { line: (line + 1) as nat, column: (at + 1) as nat }
}

/// The places in the line with number `number` where `name` stands as a
/// whole word at a 0-based index below `upto`, in ascending order.
pub open spec fn line_references(
    line: Seq<char>,
    name: Seq<char>,
    number: nat,
    upto: int,
) -> Seq<LocationView>
    decreases upto,
{
    if upto <= 0 {
        Seq::empty()
    } else {
        let before = line_references(line, name, number, upto - 1);
        if whole_word_at(line, name, upto - 1) {
            before.push(LocationView { line: number, column: upto as nat })
        } else {
            before
        }
    }
}

/// The references to `name` in the first `n` lines: the places where it
/// stands as a whole word in a line that does not count as a definition
/// line for it, in the order of the text.
pub open spec fn references_upto(
    lines: Seq<Seq<char>>,
    name: Seq<char>,
    kind: SymbolKind,
    n: int,
) -> Seq<LocationView>
    decreases n,
{
    if n <= 0 {
        Seq::empty()
    } else {
        let before = references_upto(lines, name, kind, n - 1);
        if is_definition_line(lines[n - 1], name, kind) {
            before
        } else {
            before + line_references(lines[n - 1], name, n as nat, lines[n - 1].len() as int)
        }
    }
}

/// The references to `name`, a symbol of `kind`, in `lines`.
pub open spec fn references_of(
    lines: Seq<Seq<char>>,
    name: Seq<char>,
    kind: SymbolKind,
) -> Seq<LocationView> {
    references_upto(lines, name, kind, lines.len() as int)
}

/// Where `name` stands nowhere from `from` on, `line_references` gains
/// nothing after `from`.
pub proof fn lemma_line_references_rest(
    line: Seq<char>,
    name: Seq<char>,
    number: nat,
    from: int,
    upto: int,
)
    requires
        from <= upto,
        forall|j: int| from <= j < upto ==> !whole_word_at(line, name, j),
    ensures
        line_references(line, name, number, upto) == line_references(line, name, number, from),
    decreases upto - from,
{
    if from < upto {
        lemma_line_references_rest(line, name, number, from, upto - 1);
    }
}

/// Each entry of `line_references` names the line `number` and a column at
/// which `name` stands as a whole word; the columns ascend.
pub proof fn lemma_line_references(line: Seq<char>, name: Seq<char>, number: nat, upto: int)
    ensures
        forall|k: int|
            0 <= k < line_references(line, name, number, upto).len() ==> ({
                let r = #[trigger] line_references(line, name, number, upto)[k];
                &&& r.line == number
                &&& 1 <= r.column <= upto
                &&& whole_word_at(line, name, r.column - 1)
            }),
        forall|j: int, k: int|
            0 <= j < k < line_references(line, name, number, upto).len() ==> (
            #[trigger] line_references(line, name, number, upto)[j]).column < (
            #[trigger] line_references(line, name, number, upto)[k]).column,
        forall|at: int|
            0 <= at < upto && whole_word_at(line, name, at) ==> line_references(
                line,
                name,
                number,
                upto,
            ).contains(location_of(number - 1, at)),
    decreases upto,
{
    if upto > 0 {
        lemma_line_references(line, name, number, upto - 1);
        let before = line_references(line, name, number, upto - 1);
        let all = line_references(line, name, number, upto);
        assert forall|at: int| 0 <= at < upto && whole_word_at(line, name, at) implies all.contains(
            location_of(number - 1, at),
        ) by {
            let target = location_of(number - 1, at);
            if at < upto - 1 {
                let k = choose|k: int| 0 <= k < before.len() && before[k] == target;
                assert(all[k] == target);
            } else {
                assert(all[all.len() - 1] == target);
            }
        }
    }
}

/// Every reference stands in a line of the text that does not count as a
/// definition line for the name, at a column where the name is a whole
/// word.
pub proof fn lemma_references_upto(
    lines: Seq<Seq<char>>,
    name: Seq<char>,
    kind: SymbolKind,
    n: int,
)
    requires
        n <= lines.len(),
    ensures
        forall|k: int|
            0 <= k < references_upto(lines, name, kind, n).len() ==> ({
                let r = #[trigger] references_upto(lines, name, kind, n)[k];
                &&& 1 <= r.line <= n
                &&& 1 <= r.column
                &&& whole_word_at(lines[r.line - 1], name, r.column - 1)
                &&& !is_definition_line(lines[r.line - 1], name, kind)
            }),
    decreases n,
{
    if n > 0 {
        lemma_references_upto(lines, name, kind, n - 1);
        lemma_line_references(lines[n - 1], name, n as nat, lines[n - 1].len() as int);
        let before = references_upto(lines, name, kind, n - 1);
        let here = line_references(lines[n - 1], name, n as nat, lines[n - 1].len() as int);
        let all = references_upto(lines, name, kind, n);
        assert forall|k: int| 0 <= k < all.len() implies {
            let r = #[trigger] all[k];
            &&& 1 <= r.line <= n
            &&& 1 <= r.column
            &&& whole_word_at(lines[r.line - 1], name, r.column - 1)
            &&& !is_definition_line(lines[r.line - 1], name, kind)
        } by {
            if k < before.len() {
            } else {
            }
        }
    }
}

/// A reference is always a whole word: every place that `references_of`
/// names lies in the text, in a line that does not count as a definition
/// line for the name, and the name stands there with no letter, digit or
/// `_` directly before or after it. So a name that is only a part of a
/// longer identifier is not counted.
pub proof fn lemma_references_are_whole_words(
    lines: Seq<Seq<char>>,
    name: Seq<char>,
    kind: SymbolKind,
    k: int,
)
    requires
        0 <= k < references_of(lines, name, kind).len(),
    ensures
        ({
            let r = references_of(lines, name, kind)[k];
            &&& 1 <= r.line <= lines.len()
            &&& 1 <= r.column
            &&& whole_word_at(lines[r.line - 1], name, r.column - 1)
            &&& !is_definition_line(lines[r.line - 1], name, kind)
        }),
{
    lemma_references_upto(lines, name, kind, lines.len() as int);
}

/// Where `name` stands in a line directly after or directly before a
/// letter, a digit or `_`, that place is not among the references.
pub proof fn lemma_part_of_identifier_is_no_reference(
    lines: Seq<Seq<char>>,
    name: Seq<char>,
    kind: SymbolKind,
    line: int,
    at: int,
)
    requires
        0 <= line < lines.len(),
        occurs_at(lines[line], name, at),
        (at > 0 && word_char(lines[line][at - 1])) || (at + name.len() < lines[line].len()
            && word_char(lines[line][at + name.len()])),
    ensures
        !references_of(lines, name, kind).contains(
            location_of(line, at),
        ),
{
    let refs = references_of(lines, name, kind);
    let target = location_of(line, at);
    if refs.contains(target) {
        let k = choose|k: int| 0 <= k < refs.len() && refs[k] == target;
        lemma_references_are_whole_words(lines, name, kind, k);
    }
}

/// A place that counts is among the references to `name` in the first `n`
/// lines, and these stand in the order of the text.
pub proof fn lemma_references_upto_hold_all(
    lines: Seq<Seq<char>>,
    name: Seq<char>,
    kind: SymbolKind,
    n: int,
)
    requires
        n <= lines.len(),
    ensures
        forall|line: int, at: int|
            0 <= line < n && #[trigger] whole_word_at(lines[line], name, at) && !is_definition_line(
                lines[line],
                name,
                kind,
            ) ==> references_upto(lines, name, kind, n).contains(
                location_of(line, at),
            ),
        forall|j: int, k: int|
            0 <= j < k < references_upto(lines, name, kind, n).len() ==> ({
                let a = #[trigger] references_upto(lines, name, kind, n)[j];
                let b = #[trigger] references_upto(lines, name, kind, n)[k];
                a.line < b.line || (a.line == b.line && a.column < b.column)
            }),
    decreases n,
{
    if n > 0 {
        lemma_references_upto_hold_all(lines, name, kind, n - 1);
        lemma_references_upto(lines, name, kind, n - 1);
        lemma_line_references(lines[n - 1], name, n as nat, lines[n - 1].len() as int);
        let before = references_upto(lines, name, kind, n - 1);
        let here = line_references(lines[n - 1], name, n as nat, lines[n - 1].len() as int);
        let all = references_upto(lines, name, kind, n);
        assert forall|line: int, at: int|
            0 <= line < n && #[trigger] whole_word_at(lines[line], name, at) && !is_definition_line(
                lines[line],
                name,
                kind,
            ) implies all.contains(
            location_of(line, at),
        ) by {
            let target = location_of(line, at);
            if line < n - 1 {
                let k = choose|k: int| 0 <= k < before.len() && before[k] == target;
                assert(all[k] == target);
            } else {
                let k = choose|k: int| 0 <= k < here.len() && here[k] == target;
                assert(all[before.len() + k] == target);
            }
        }
        assert forall|j: int, k: int| 0 <= j < k < all.len() implies {
            let a = #[trigger] all[j];
            let b = #[trigger] all[k];
            a.line < b.line || (a.line == b.line && a.column < b.column)
        } by {
            if k < before.len() {
            } else if j < before.len() {
            } else {
            }
        }
    }
}

/// Every whole word counts: where `name` stands as a whole word in a line
/// of the text that does not count as a definition line for it, that place
/// is among the references.
pub proof fn lemma_whole_words_are_references(
    lines: Seq<Seq<char>>,
    name: Seq<char>,
    kind: SymbolKind,
    line: int,
    at: int,
)
    requires
        0 <= line < lines.len(),
        whole_word_at(lines[line], name, at),
        !is_definition_line(lines[line], name, kind),
    ensures
        references_of(lines, name, kind).contains(
            location_of(line, at),
        ),
{
    lemma_references_upto_hold_all(lines, name, kind, lines.len() as int);
}

/// The references stand in the order of the text: by line, and within a
/// line by column. So no place is named twice.
pub proof fn lemma_references_in_text_order(
    lines: Seq<Seq<char>>,
    name: Seq<char>,
    kind: SymbolKind,
    j: int,
    k: int,
)
    requires
        0 <= j < k < references_of(lines, name, kind).len(),
    ensures
        ({
            let a = references_of(lines, name, kind)[j];
            let b = references_of(lines, name, kind)[k];
            a.line < b.line || (a.line == b.line && a.column < b.column)
        }),
{
    lemma_references_upto_hold_all(lines, name, kind, lines.len() as int);
}

/// There is no reference exactly where every whole word stands in a line
/// that counts as a definition line. So a name that stands only inside
/// longer identifiers, or only in definition lines, has the count 0.
pub proof fn lemma_no_reference_exactly_when(
    lines: Seq<Seq<char>>,
    name: Seq<char>,
    kind: SymbolKind,
)
    ensures
        references_of(lines, name, kind).len() == 0 <==> forall|line: int, at: int|
            0 <= line < lines.len() && #[trigger] whole_word_at(lines[line], name, at)
                ==> is_definition_line(lines[line], name, kind),
{
    let refs = references_of(lines, name, kind);
    lemma_references_upto_hold_all(lines, name, kind, lines.len() as int);
    if refs.len() > 0 {
        lemma_references_are_whole_words(lines, name, kind, 0);
    }
}

/// How many references a line holds does not depend on its number.
proof fn lemma_line_references_len(
    line: Seq<char>,
    name: Seq<char>,
    first: nat,
    second: nat,
    upto: int,
)
    ensures
        line_references(line, name, first, upto).len() == line_references(
            line,
            name,
            second,
            upto,
        ).len(),
    decreases upto,
{
    if upto > 0 {
        lemma_line_references_len(line, name, first, second, upto - 1);
    }
}

/// The references in the first lines of a text do not depend on the lines
/// that follow.
proof fn lemma_references_upto_of_prefix(
    a: Seq<Seq<char>>,
    b: Seq<Seq<char>>,
    name: Seq<char>,
    kind: SymbolKind,
    n: int,
)
    requires
        n <= a.len(),
    ensures
        references_upto(a + b, name, kind, n) == references_upto(a, name, kind, n),
    decreases n,
{
    if n > 0 {
        lemma_references_upto_of_prefix(a, b, name, kind, n - 1);
    }
}

/// The number of references in `a` followed by the first `n` lines of `b`.
proof fn lemma_references_upto_of_joined(
    a: Seq<Seq<char>>,
    b: Seq<Seq<char>>,
    name: Seq<char>,
    kind: SymbolKind,
    n: int,
)
    requires
        0 <= n <= b.len(),
    ensures
        references_upto(a + b, name, kind, a.len() + n).len() == references_of(a, name, kind).len()
            + references_upto(b, name, kind, n).len(),
    decreases n,
{
    if n == 0 {
        lemma_references_upto_of_prefix(a, b, name, kind, a.len() as int);
    } else {
        lemma_references_upto_of_joined(a, b, name, kind, n - 1);
        let line = b[n - 1];
        lemma_line_references_len(line, name, (a.len() + n) as nat, n as nat, line.len() as int);
    }
}

/// Each line counts for itself: the number of references in lines put one
/// after the other is the sum of the numbers of references in each part.
pub proof fn lemma_count_adds_over_lines(
    a: Seq<Seq<char>>,
    b: Seq<Seq<char>>,
    name: Seq<char>,
    kind: SymbolKind,
)
    ensures
        references_of(a + b, name, kind).len() == references_of(a, name, kind).len()
            + references_of(b, name, kind).len(),
{
    lemma_references_upto_of_joined(a, b, name, kind, b.len() as int);
}

/// Tests whether `name` stands in `line` at index `at` as a whole word.
pub fn is_whole_word_at(line: &[char], name: &[char], at: usize) -> (b: bool)
    ensures
        b == whole_word_at(line@, name@, at as int),
{
    if name.len() == 0 || !matches_at(line, name, at) {
        return false;
    }
    if at > 0 && is_word_char(line[at - 1]) {
        return false;
    }
    let end: usize = at + name.len();
    if end < line.len() && is_word_char(line[end]) {
        return false;
    }
    true
}

/// Tests whether `line` counts as a line that defines `name` as a symbol of
/// `kind`; `kw` holds the keyword of `kind`.
pub(crate) fn counts_as_definition(
    line: &[char],
    name: &[char],
    kind: SymbolKind,
    kw: &[char],
) -> (b: bool)
    requires
        kw@ == kind.keyword(),
    ensures
        b == is_definition_line(line@, name@, kind),
{
    proof {
        lemma_has_keyword(line@, kw@);
        lemma_first_of(line@, 0, CharClass::Exactly('('));
    }
    if find_keyword(line, kw, 0) >= line.len() {
        return false;
    }
    if !contains_text(line, name) {
        return false;
    }
    match kind {
        SymbolKind::Function => {
            let paren = find_first(line, 0, CharClass::Exactly('('));
            if paren < line.len() {
                assert(line@[paren as int] == '(');
                true
            } else {
                false
            }
        },
        _ => true,
    }
}

/// Appends to `refs` the places in `line` where `name` stands as a whole
/// word.
fn push_line_references(
    line: &[char],
    name: &[char],
    number: usize,
    refs: &mut Vec<ReferenceLocation>,
)
    ensures
        final(refs).deep_view() == old(refs).deep_view() + line_references(
            line@,
            name@,
            number as nat,
            line@.len() as int,
        ),
{
    let ghost base = refs.deep_view();
    if name.len() == 0 || name.len() > line.len() {
        proof {
            lemma_line_references_rest(line@, name@, number as nat, 0, line@.len() as int);
        }
        return ;
    }
    let last: usize = line.len() - name.len();
    let mut at: usize = 0;
    while at <= last
        invariant
            at <= last + 1,
            0 < name.len() <= line.len(),
            last == line.len() - name.len(),
            refs.deep_view() == base + line_references(line@, name@, number as nat, at as int),
        decreases last + 1 - at,
    {
        if is_whole_word_at(line, name, at) {
            let ghost before = refs.deep_view();
            let r = ReferenceLocation { line: number, column: at + 1 };
            refs.push(r);
            proof {
                assert(refs.deep_view() =~= before.push(r.deep_view()));
            }
        }
        at += 1;
    }
    proof {
        lemma_line_references_rest(
            line@,
            name@,
            number as nat,
            last + 1,
            line@.len() as int,
        );
    }
}

/// Finds the references to `name`, a symbol of `kind`, in `text`.
pub fn references_in(
    text: &SourceText,
    name: &[char],
    kind: SymbolKind,
) -> (refs: Vec<ReferenceLocation>)
    ensures
        refs.deep_view() == references_of(text.lines(), name@, kind),
{
    let kw = to_chars(kind.keyword_text());
    let mut refs: Vec<ReferenceLocation> = Vec::new();
    let count = text.line_count();
    let mut i: usize = 0;
    while i < count
        invariant
            i <= count,
            count == text.lines().len(),
            kw@ == kind.keyword(),
            refs.deep_view() == references_upto(text.lines(), name@, kind, i as int),
        decreases count - i,
    {
        let line = text.line_at(i);
        if !counts_as_definition(line, name, kind, kw.as_slice()) {
            push_line_references(line, name, i + 1, &mut refs);
        }
        i += 1;
    }
    refs
}

/// Finds the references to `name`, a symbol of `kind`, in `text`: every
/// place where `name` stands as a whole word in a line that does not count
/// as a definition line for it, in the order of the text.
pub fn find_references(
    text: &SourceText,
    name: &str,
    kind: SymbolKind,
) -> (refs: Vec<ReferenceLocation>)
    ensures
        refs.deep_view() == references_of(text.lines(), name@, kind),
{
    let name_chars = to_chars(name);
    references_in(text, name_chars.as_slice(), kind)
}

/// Counts the references to `symbol_name`, a symbol of `kind`, in `text`:
/// the places where the name stands as a whole word in a line that does not
/// count as a definition line for it.
pub fn count_symbol_references(
    text: &SourceText,
    symbol_name: &str,
    kind: SymbolKind,
) -> (count: usize)
    ensures
        count == references_of(text.lines(), symbol_name@, kind).len(),
{
    let refs = find_references(text, symbol_name, kind);
    refs.len()
}

} // verus!
