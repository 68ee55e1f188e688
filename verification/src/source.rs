//! The text of one source file, split into lines.

use crate::text::{
    find_first, first_of, lemma_first_of, lemma_first_of_joined, lemma_first_of_shifted, to_chars,
    CharClass,
};
use vstd::prelude::*;
use vstd::slice::slice_subrange;
use vstd::string::StringExecFns;
use vstd::utf8::is_ascii_chars;

verus! {

/// The index of the line feed that ends the line starting at `from`, or
/// `s.len()` where the line runs to the end of the text.
pub open spec fn line_end(s: Seq<char>, from: int) -> int {
    first_of(s, from, CharClass::Exactly('\n'))
}

/// The end of the content of the line starting at `from`: its line feed is
/// not part of it, nor is a carriage return directly before that line feed.
pub open spec fn content_end(s: Seq<char>, from: int) -> int {
    let e = line_end(s, from);
    if from < e < s.len() && s[e - 1] == '\r' {
        e - 1
    } else {
        e
    }
}

/// The lines of the text `s[from..]`, where `from` is the start of a line.
pub open spec fn lines_from(s: Seq<char>, from: int) -> Seq<Seq<char>>
    decreases s.len() + 1 - from,
{
    if from < 0 || from >= s.len() {
        Seq::empty()
    } else {
        proof {
            lemma_first_of(s, from, CharClass::Exactly('\n'));
        }
        seq![s.subrange(from, content_end(s, from))] + lines_from(s, line_end(s, from) + 1)
    }
}

/// The lines of a text. A line ends at a line feed or at a carriage return
/// followed by a line feed, neither of which belongs to the line; the last
/// line may end with the text. The empty text has no line.
pub open spec fn lines_of(s: Seq<char>) -> Seq<Seq<char>> {
    lines_from(s, 0)
}

/// The parts of `s` that the spans cut out.
spec fn span_lines(s: Seq<char>, spans: Seq<(usize, usize)>) -> Seq<Seq<char>> {
    Seq::new(spans.len(), |k: int| s.subrange(spans[k].0 as int, spans[k].1 as int))
}

/// Whether each span lies inside a text of length `len`.
spec fn spans_within(spans: Seq<(usize, usize)>, len: nat) -> bool {
    forall|k: int| 0 <= k < spans.len() ==> (#[trigger] spans[k]).0 <= spans[k].1 <= len
}

/// Cuts `chars` into the spans of its lines.
fn split_spans(chars: &Vec<char>) -> (spans: Vec<(usize, usize)>)
    ensures
        spans_within(spans@, chars@.len()),
        span_lines(chars@, spans@) == lines_of(chars@),
{
    let mut spans: Vec<(usize, usize)> = Vec::new();
    let mut pos: usize = 0;
    let len = chars.len();
    while pos < len
        invariant
            len == chars.len(),
            spans_within(spans@, chars@.len()),
            pos <= len,
            lines_of(chars@) == span_lines(chars@, spans@) + lines_from(chars@, pos as int),
        decreases len - pos,
    {
        let e = find_first(chars.as_slice(), pos, CharClass::Exactly('\n'));
        let end: usize = if pos < e && e < len && chars[e - 1] == '\r' {
            e - 1
        } else {
            e
        };
        spans.push((pos, end));
        if e == len {
            proof {
                assert(lines_from(chars@, e + 1) =~= lines_from(chars@, len as int));
            }
            pos = len;
        } else {
            pos = e + 1;
        }
    }
    spans
}

/// The text of one source file, held together with the spans of its lines.
/// It does not change after it has been made.
pub struct SourceText {
    raw: String,
    ascii: bool,
    chars: Vec<char>,
    spans: Vec<(usize, usize)>,
}

impl View for SourceText {
    type V = Seq<char>;

    /// The characters of the text.
    closed spec fn view(&self) -> Seq<char> {
        self.raw@
    }
}

impl SourceText {
    #[verifier::type_invariant]
    spec fn well_formed(&self) -> bool {
        &&& self.chars@ == self.raw@
        &&& self.ascii ==> is_ascii_chars(self.raw@)
        &&& spans_within(self.spans@, self.chars@.len())
        &&& span_lines(self.chars@, self.spans@) == lines_of(self.raw@)
    }

    /// The lines of the text; line number `n` is `self.lines()[n - 1]`.
    pub open spec fn lines(&self) -> Seq<Seq<char>> {
        lines_of(self@)
    }

    /// Takes a copy of `text` and splits it into lines.
    pub fn new(text: &str) -> (source: SourceText)
        ensures
            source@ == text@,
    {
        let chars = to_chars(text);
        let spans = split_spans(&chars);
        SourceText { raw: String::from_str(text), ascii: text.is_ascii(), chars, spans }
    }

    /// The number of lines.
    pub fn line_count(&self) -> (n: usize)
        ensures
            n == self.lines().len(),
    {
        proof {
            use_type_invariant(self);
        }
        self.spans.len()
    }

    /// The line at the 0-based position `index`.
    pub(crate) fn line_at(&self, index: usize) -> (line: &[char])
        requires
            index < self.lines().len(),
        ensures
            line@ == self.lines()[index as int],
    {
        proof {
            use_type_invariant(self);
        }
        let span = self.spans[index];
        slice_subrange(self.chars.as_slice(), span.0, span.1)
    }

    /// The line with the 1-based number `number`, if the text has one.
    pub fn line(&self, number: usize) -> (line: Option<&[char]>)
        ensures
            line is Some <==> 1 <= number <= self.lines().len(),
            line matches Some(l) ==> l@ == self.lines()[number - 1],
    {
        if 1 <= number && number <= self.line_count() {
            Some(self.line_at(number - 1))
        } else {
            None
        }
    }

    /// A copy of the characters `from..to` of the line at the 0-based
    /// position `index`.
    pub(crate) fn excerpt(&self, index: usize, from: usize, to: usize) -> (text: String)
        requires
            index < self.lines().len(),
            from <= to <= self.lines()[index as int].len(),
        ensures
            text@ == self.lines()[index as int].subrange(from as int, to as int),
    {
        proof {
            use_type_invariant(self);
        }
        let span = self.spans[index];
        let raw = self.raw.as_str();
        if self.ascii {
            String::from_str(raw.substring_ascii(span.0 + from, span.0 + to))
        } else {
            String::from_str(raw.substring_char(span.0 + from, span.0 + to))
        }
    }
}

/// The lines that start in the second of two joined texts are the lines of
/// the second text.
proof fn lemma_lines_from_shifted(s: Seq<char>, t: Seq<char>, k: int)
    requires
        0 <= k,
    ensures
        lines_from(s + t, s.len() + k) == lines_from(t, k),
    decreases t.len() + 1 - k,
{
    if k < t.len() {
        let c = CharClass::Exactly('\n');
        lemma_first_of_shifted(s, t, k, c);
        lemma_first_of(t, k, c);
        let e = line_end(t, k);
        assert((s + t).subrange(s.len() + k, s.len() + content_end(t, k)) =~= t.subrange(
            k,
            content_end(t, k),
        ));
        lemma_lines_from_shifted(s, t, e + 1);
    }
}

/// Where the first of two joined texts ends with a line feed, the lines
/// from a line start in the first are its own lines and then the lines of
/// the second.
proof fn lemma_lines_from_joined(s: Seq<char>, t: Seq<char>, from: int)
    requires
        s.len() > 0,
        s.last() == '\n',
        0 <= from <= s.len(),
    ensures
        lines_from(s + t, from) == lines_from(s, from) + lines_from(t, 0),
    decreases s.len() - from,
{
    if from < s.len() {
        let c = CharClass::Exactly('\n');
        lemma_first_of(s, from, c);
        lemma_first_of_joined(s, t, from, c);
        let e = line_end(s, from);
        assert((s + t).subrange(from, content_end(s, from)) =~= s.subrange(
            from,
            content_end(s, from),
        ));
        lemma_lines_from_joined(s, t, e + 1);
    } else {
        lemma_lines_from_shifted(s, t, 0);
    }
}

/// Where a text is empty or ends with a line feed, the lines of that text
/// joined with another are the lines of the one and then the lines of the
/// other.
pub proof fn lemma_lines_of_joined(s: Seq<char>, t: Seq<char>)
    requires
        s.len() == 0 || s.last() == '\n',
    ensures
        lines_of(s + t) == lines_of(s) + lines_of(t),
{
    if s.len() > 0 {
        lemma_lines_from_joined(s, t, 0);
    }
}

/// A line feed behind a text whose last line is open ends that line and
/// changes no line, unless the text ends with a carriage return.
proof fn lemma_lines_from_ended(a: Seq<char>, from: int)
    requires
        0 <= from < a.len(),
        a.last() != '\n',
        a.last() != '\r',
    ensures
        lines_from(a + seq!['\n'], from) == lines_from(a, from),
    decreases a.len() - from,
{
    let c = CharClass::Exactly('\n');
    let t = seq!['\n'];
    lemma_first_of(a, from, c);
    lemma_first_of_joined(a, t, from, c);
    let e = line_end(a, from);
    if e < a.len() {
        assert((a + t).subrange(from, content_end(a, from)) =~= a.subrange(
            from,
            content_end(a, from),
        ));
        lemma_lines_from_ended(a, e + 1);
    } else {
        assert((a + t).subrange(from, a.len() as int) =~= a.subrange(from, a.len() as int));
        assert(lines_from(a + t, (a.len() + 1) as int) =~= Seq::<Seq<char>>::empty());
        assert(lines_from(a, (a.len() + 1) as int) =~= Seq::<Seq<char>>::empty());
    }
}

/// A line feed behind a text that ends neither with a line feed nor with a
/// carriage return changes none of its lines.
pub proof fn lemma_lines_of_ended(a: Seq<char>)
    requires
        a.len() > 0,
        a.last() != '\n',
        a.last() != '\r',
    ensures
        lines_of(a + seq!['\n']) == lines_of(a),
{
    lemma_lines_from_ended(a, 0);
}

/// The text that is one line feed has one line, which is empty.
pub proof fn lemma_lines_of_line_feed()
    ensures
        lines_of(seq!['\n']) == seq![Seq::<char>::empty()],
{
    let t = seq!['\n'];
    assert(t.subrange(0, 0) =~= Seq::<char>::empty());
    assert(lines_from(t, 1) =~= Seq::<Seq<char>>::empty());
}

} // verus!
