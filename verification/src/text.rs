//! Plain text as sequences of characters: conversion from `str`, searching
//! for characters and substrings, and trimming.

use crate::chars::{is_whitespace, whitespace};
use vstd::prelude::*;

verus! {

/// The characters of `s`, in order.
pub fn to_chars(s: &str) -> (v: Vec<char>)
    ensures
        v@ == s@,
{
    let mut v: Vec<char> = Vec::new();
    for c in it: s.chars()
        invariant
            v@ == it.seq().take(it.index() as int),
            it.seq() == s@,
    {
        v.push(c);
    }
    v
}

/// A set of characters that a forward search stops at.
#[derive(Clone, Copy, Debug)]
pub enum CharClass {
    /// The one given character.
    Exactly(char),
    /// Any whitespace character.
    Whitespace,
    /// Any character that is not whitespace.
    Visible,
}

impl CharClass {
    /// Whether `c` belongs to the class.
    pub open spec fn has(self, c: char) -> bool {
        match self {
            CharClass::Exactly(x) => c == x,
            CharClass::Whitespace => whitespace(c),
            CharClass::Visible => !whitespace(c),
        }
    }

    /// Whether `c` belongs to the class.
    pub fn holds(&self, c: char) -> (b: bool)
        ensures
            b == self.has(c),
    {
        match self {
            CharClass::Exactly(x) => c == *x,
            CharClass::Whitespace => is_whitespace(c),
            CharClass::Visible => !is_whitespace(c),
        }
    }
}

/// The index of the first character of `class` in `s` at or after `from`,
/// or `s.len()` where there is none.
pub open spec fn first_of(s: Seq<char>, from: int, class: CharClass) -> int
    recommends
        0 <= from <= s.len(),
    decreases s.len() - from,
{
    if from < 0 || from >= s.len() {
        s.len() as int
    } else if class.has(s[from]) {
        from
    } else {
        first_of(s, from + 1, class)
    }
}

/// `first_of` finds the least index at or after `from` that holds a
/// character of the class.
pub proof fn lemma_first_of(s: Seq<char>, from: int, class: CharClass)
    requires
        0 <= from <= s.len(),
    ensures
        from <= first_of(s, from, class) <= s.len(),
        first_of(s, from, class) < s.len() ==> class.has(s[first_of(s, from, class)]),
        forall|j: int| from <= j < first_of(s, from, class) ==> !class.has(#[trigger] s[j]),
    decreases s.len() - from,
{
    if from < s.len() && !class.has(s[from]) {
        lemma_first_of(s, from + 1, class);
    }
}

/// Finds the first character of `class` in `s` at or after `from`; gives
/// `s.len()` where there is none.
pub fn find_first(s: &[char], from: usize, class: CharClass) -> (at: usize)
    ensures
        at == first_of(s@, from as int, class),
        at <= s.len(),
        from <= s.len() ==> from <= at,
{
    if from >= s.len() {
        return s.len();
    }
    let mut i: usize = from;
    while i < s.len() && !class.holds(s[i])
        invariant
            from <= i <= s.len(),
            first_of(s@, from as int, class) == first_of(s@, i as int, class),
        decreases s.len() - i,
    {
        i += 1;
    }
    i
}

/// The end of the part of `s[from..to]` that is left when trailing
/// whitespace is dropped: the least `e` in `from..=to` with only whitespace
/// in `s[e..to]`.
pub open spec fn trim_end_at(s: Seq<char>, from: int, to: int) -> int
    recommends
        0 <= from <= to <= s.len(),
    decreases to - from,
{
    if to <= from {
        from
    } else if !whitespace(s[to - 1]) {
        to
    } else {
        trim_end_at(s, from, to - 1)
    }
}

/// The bounds of `s[from..to]` without its leading and trailing whitespace.
pub open spec fn trim_span(s: Seq<char>, from: int, to: int) -> (int, int)
    recommends
        0 <= from <= to <= s.len(),
{
    let v = first_of(s, from, CharClass::Visible);
    let a = if v < to {
        v
    } else {
        to
    };
    (a, trim_end_at(s, a, to))
}

/// `s[from..to]` without its leading and trailing whitespace.
pub open spec fn trimmed(s: Seq<char>, from: int, to: int) -> Seq<char>
    recommends
        0 <= from <= to <= s.len(),
{
    s.subrange(trim_span(s, from, to).0, trim_span(s, from, to).1)
}

/// `s` without its leading and trailing whitespace.
pub open spec fn trim(s: Seq<char>) -> Seq<char> {
    trimmed(s, 0, s.len() as int)
}

/// The trimmed span lies inside the given one, and neither starts nor ends
/// with whitespace.
pub proof fn lemma_trim_span(s: Seq<char>, from: int, to: int)
    requires
        0 <= from <= to <= s.len(),
    ensures
        from <= trim_span(s, from, to).0 <= trim_span(s, from, to).1 <= to,
        trim_span(s, from, to).0 < trim_span(s, from, to).1 ==> ({
            &&& !whitespace(s[trim_span(s, from, to).0])
            &&& !whitespace(s[trim_span(s, from, to).1 - 1])
        }),
        forall|j: int|
            from <= j < trim_span(s, from, to).0 || trim_span(s, from, to).1 <= j < to
                ==> whitespace(#[trigger] s[j]),
{
    lemma_first_of(s, from, CharClass::Visible);
    let a = trim_span(s, from, to).0;
    lemma_trim_end_at(s, a, to);
}

/// `trim_end_at` stays inside the span and drops exactly the trailing
/// whitespace.
pub proof fn lemma_trim_end_at(s: Seq<char>, from: int, to: int)
    requires
        0 <= from <= to <= s.len(),
    ensures
        from <= trim_end_at(s, from, to) <= to,
        from < trim_end_at(s, from, to) ==> !whitespace(s[trim_end_at(s, from, to) - 1]),
        forall|j: int| trim_end_at(s, from, to) <= j < to ==> whitespace(#[trigger] s[j]),
    decreases to - from,
{
    if to > from && whitespace(s[to - 1]) {
        lemma_trim_end_at(s, from, to - 1);
    }
}

/// Computes the bounds of `s[from..to]` without its leading and trailing
/// whitespace.
pub fn trim_range(s: &[char], from: usize, to: usize) -> (span: (usize, usize))
    requires
        from <= to <= s.len(),
    ensures
        (span.0 as int, span.1 as int) == trim_span(s@, from as int, to as int),
        from <= span.0 <= span.1 <= to,
{
    let v = find_first(s, from, CharClass::Visible);
    let a: usize = if v < to {
        v
    } else {
        to
    };
    let mut b: usize = to;
    while b > a && is_whitespace(s[b - 1])
        invariant
            a <= b <= to <= s.len(),
            trim_end_at(s@, a as int, to as int) == trim_end_at(s@, a as int, b as int),
        decreases b - a,
    {
        b -= 1;
    }
    (a, b)
}

/// Whether `needle` stands in `hay` at index `at`.
pub open spec fn occurs_at(hay: Seq<char>, needle: Seq<char>, at: int) -> bool {
    &&& 0 <= at
    &&& at + needle.len() <= hay.len()
    &&& hay.subrange(at, at + needle.len()) == needle
}

/// Whether `needle` is a substring of `hay`.
pub open spec fn contains(hay: Seq<char>, needle: Seq<char>) -> bool {
    exists|at: int| occurs_at(hay, needle, at)
}

/// Whether `hay` ends with `suffix`.
pub open spec fn ends_with(hay: Seq<char>, suffix: Seq<char>) -> bool {
    occurs_at(hay, suffix, hay.len() - suffix.len())
}

/// What stands in a part of a text stands in the text, further on by the
/// start of the part.
pub proof fn lemma_occurs_in_part(s: Seq<char>, from: int, to: int, needle: Seq<char>, at: int)
    requires
        0 <= from <= to <= s.len(),
        occurs_at(s.subrange(from, to), needle, at),
    ensures
        occurs_at(s, needle, from + at),
{
    assert(s.subrange(from + at, from + at + needle.len()) =~= s.subrange(from, to).subrange(
        at,
        at + needle.len(),
    ));
}

/// Tests whether `needle` stands in `hay` at index `at`.
pub fn matches_at(hay: &[char], needle: &[char], at: usize) -> (b: bool)
    ensures
        b == occurs_at(hay@, needle@, at as int),
{
    if needle.len() > hay.len() || at > hay.len() - needle.len() {
        return false;
    }
    let mut k: usize = 0;
    while k < needle.len()
        invariant
            k <= needle.len(),
            at + needle.len() <= hay.len(),
            forall|j: int| 0 <= j < k ==> hay@[at + j] == #[trigger] needle@[j],
        decreases needle.len() - k,
    {
        if hay[at + k] != needle[k] {
            return false;
        }
        k += 1;
    }
    assert(hay@.subrange(at as int, at + needle@.len()) =~= needle@);
    true
}

/// Tests whether `needle` is a substring of `hay`.
pub fn contains_text(hay: &[char], needle: &[char]) -> (b: bool)
    ensures
        b == contains(hay@, needle@),
{
    if needle.len() > hay.len() {
        return false;
    }
    let last: usize = hay.len() - needle.len();
    let mut i: usize = 0;
    while i < last
        invariant
            i <= last,
            last == hay.len() - needle.len(),
            forall|j: int| 0 <= j < i ==> !occurs_at(hay@, needle@, j),
        decreases last - i,
    {
        if matches_at(hay, needle, i) {
            return true;
        }
        i += 1;
    }
    matches_at(hay, needle, last)
}

/// Tests whether `hay` ends with `suffix`.
pub fn has_suffix(hay: &[char], suffix: &[char]) -> (b: bool)
    ensures
        b == ends_with(hay@, suffix@),
{
    if suffix.len() > hay.len() {
        return false;
    }
    matches_at(hay, suffix, hay.len() - suffix.len())
}

/// Tests whether `a` and `b` hold the same text.
pub fn same_text(a: &str, b: &str) -> (same: bool)
    ensures
        same == (a@ == b@),
{
    let x = to_chars(a);
    let y = to_chars(b);
    if x.len() != y.len() {
        return false;
    }
    let same = matches_at(x.as_slice(), y.as_slice(), 0);
    assert(x@.subrange(0, x@.len() as int) =~= x@);
    same
}

/// Whether `kw` stands in `line` at index `at` and is followed by a
/// whitespace character.
pub open spec fn keyword_at(line: Seq<char>, kw: Seq<char>, at: int) -> bool {
    &&& occurs_at(line, kw, at)
    &&& at + kw.len() < line.len()
    &&& whitespace(line[at + kw.len()])
}

/// Whether `kw`, followed by whitespace, stands somewhere in `line`.
pub open spec fn has_keyword(line: Seq<char>, kw: Seq<char>) -> bool {
    exists|at: int| keyword_at(line, kw, at)
}

/// A keyword that a part of a line holds, the line holds.
pub proof fn lemma_keyword_in_part(line: Seq<char>, from: int, to: int, kw: Seq<char>)
    requires
        0 <= from <= to <= line.len(),
        has_keyword(line.subrange(from, to), kw),
    ensures
        has_keyword(line, kw),
{
    let part = line.subrange(from, to);
    let at = choose|at: int| keyword_at(part, kw, at);
    lemma_occurs_in_part(line, from, to, kw, at);
    assert(keyword_at(line, kw, from + at));
}

/// A text that a part of a line holds, the line holds.
pub proof fn lemma_contains_in_part(line: Seq<char>, from: int, to: int, needle: Seq<char>)
    requires
        0 <= from <= to <= line.len(),
        contains(line.subrange(from, to), needle),
    ensures
        contains(line, needle),
{
    let at = choose|at: int| occurs_at(line.subrange(from, to), needle, at);
    lemma_occurs_in_part(line, from, to, needle, at);
}

/// The least index at or after `from` where `kw` stands in `line` followed
/// by whitespace, or `line.len()` where there is none.
pub open spec fn first_keyword(line: Seq<char>, kw: Seq<char>, from: int) -> int
    recommends
        0 <= from <= line.len(),
    decreases line.len() - from,
{
    if from < 0 || from >= line.len() {
        line.len() as int
    } else if keyword_at(line, kw, from) {
        from
    } else {
        first_keyword(line, kw, from + 1)
    }
}

/// `first_keyword` finds the least such index at or after `from`.
pub proof fn lemma_first_keyword(line: Seq<char>, kw: Seq<char>, from: int)
    requires
        0 <= from <= line.len(),
    ensures
        from <= first_keyword(line, kw, from) <= line.len(),
        first_keyword(line, kw, from) < line.len() ==> keyword_at(
            line,
            kw,
            first_keyword(line, kw, from),
        ),
        forall|j: int| from <= j < first_keyword(line, kw, from) ==> !keyword_at(line, kw, j),
    decreases line.len() - from,
{
    if from < line.len() && !keyword_at(line, kw, from) {
        lemma_first_keyword(line, kw, from + 1);
    }
}

/// A line has a keyword exactly when the search from its start finds one.
pub proof fn lemma_has_keyword(line: Seq<char>, kw: Seq<char>)
    ensures
        has_keyword(line, kw) <==> first_keyword(line, kw, 0) < line.len(),
{
    lemma_first_keyword(line, kw, 0);
}

/// Finds the first place at or after `from` where `kw` stands in `line`
/// followed by whitespace; gives `line.len()` where there is none.
pub fn find_keyword(line: &[char], kw: &[char], from: usize) -> (at: usize)
    ensures
        at == first_keyword(line@, kw@, from as int),
        at <= line.len(),
        from <= line.len() ==> from <= at,
{
    if from >= line.len() {
        return line.len();
    }
    let mut i: usize = from;
    while i < line.len()
        invariant
            from <= i <= line.len(),
            first_keyword(line@, kw@, from as int) == first_keyword(line@, kw@, i as int),
        decreases line.len() - i,
    {
        if matches_at(line, kw, i) && kw.len() < line.len() - i && is_whitespace(
            line[i + kw.len()],
        ) {
            return i;
        }
        i += 1;
    }
    i
}

/// A search in the second of two joined texts finds what the search in
/// that text alone finds, further on by the length of the first.
pub proof fn lemma_first_of_shifted(s: Seq<char>, t: Seq<char>, k: int, class: CharClass)
    requires
        0 <= k <= t.len(),
    ensures
        first_of(s + t, s.len() + k, class) == s.len() + first_of(t, k, class),
    decreases t.len() - k,
{
    if k < t.len() && !class.has(t[k]) {
        lemma_first_of_shifted(s, t, k + 1, class);
    }
}

/// A search in two joined texts that starts in the first finds what the
/// search in the first alone finds, if that finds anything, and else what
/// the search in the second finds.
pub proof fn lemma_first_of_joined(s: Seq<char>, t: Seq<char>, from: int, class: CharClass)
    requires
        0 <= from <= s.len(),
    ensures
        first_of(s, from, class) < s.len() ==> first_of(s + t, from, class) == first_of(
            s,
            from,
            class,
        ),
        first_of(s, from, class) >= s.len() ==> first_of(s + t, from, class) == s.len()
            + first_of(t, 0, class),
    decreases s.len() - from,
{
    if from < s.len() {
        if !class.has(s[from]) {
            lemma_first_of_joined(s, t, from + 1, class);
        }
    } else {
        lemma_first_of_shifted(s, t, 0, class);
    }
}

} // verus!
