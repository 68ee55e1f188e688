//! What a host needs to know of a file before it scans it: the language that
//! its name stands for, and whether the file exports a symbol.

use crate::text::{contains, contains_text, ends_with, has_suffix, same_text, to_chars};
use vstd::prelude::*;

verus! {

/// The language that the extension of a file path stands for.
pub open spec fn language_of(path: Seq<char>) -> Option<Seq<char>> {
    if ends_with(path, ".rs"@) {
        Some("rust"@)
    } else if ends_with(path, ".js"@) || ends_with(path, ".jsx"@) || ends_with(path, ".mjs"@)
        || ends_with(path, ".cjs"@) {
        Some("javascript"@)
    } else if ends_with(path, ".ts"@) || ends_with(path, ".tsx"@) || ends_with(path, ".mts"@)
        || ends_with(path, ".cts"@) {
        Some("typescript"@)
    } else {
        None
    }
}

/// Tests whether `hay` ends with `suffix`.
fn path_ends_with(hay: &[char], suffix: &str) -> (b: bool)
    ensures
        b == ends_with(hay@, suffix@),
{
    let s = to_chars(suffix);
    has_suffix(hay, s.as_slice())
}

/// The language that the extension of `file_path` stands for: `rust`,
/// `javascript` or `typescript`; `None` for any other extension.
pub fn get_language_from_extension(file_path: &str) -> (language: Option<&'static str>)
    ensures
        language is Some <==> language_of(file_path@) is Some,
        language matches Some(name) ==> language_of(file_path@) == Some(name@),
{
    let path = to_chars(file_path);
    let p = path.as_slice();
    if path_ends_with(p, ".rs") {
        Some("rust")
    } else if path_ends_with(p, ".js") || path_ends_with(p, ".jsx") || path_ends_with(p, ".mjs")
        || path_ends_with(p, ".cjs") {
        Some("javascript")
    } else if path_ends_with(p, ".ts") || path_ends_with(p, ".tsx") || path_ends_with(p, ".mts")
        || path_ends_with(p, ".cts") {
        Some("typescript")
    } else {
        None
    }
}

/// Whether `content` holds `name` between `before` and `after`.
pub open spec fn holds_phrase(
    content: Seq<char>,
    before: Seq<char>,
    name: Seq<char>,
    after: Seq<char>,
) -> bool {
    contains(content, before + name + after)
}

/// Whether a file in `language` with the text `content` exports the symbol
/// `name`: in `rust`, by `pub` before its keyword; in `javascript` and
/// `typescript`, by an `export` statement. No other language exports
/// anything.
pub open spec fn exported_in(name: Seq<char>, content: Seq<char>, language: Seq<char>) -> bool {
    if language == "rust"@ {
        ||| holds_phrase(content, "pub fn "@, name, ""@)
        ||| holds_phrase(content, "pub struct "@, name, ""@)
        ||| holds_phrase(content, "pub enum "@, name, ""@)
        ||| holds_phrase(content, "pub trait "@, name, ""@)
    } else if language == "javascript"@ || language == "typescript"@ {
        ||| holds_phrase(content, "export { "@, name, " }"@)
        ||| holds_phrase(content, "export function "@, name, ""@)
        ||| holds_phrase(content, "export class "@, name, ""@)
        ||| holds_phrase(content, "export const "@, name, ""@)
        ||| holds_phrase(content, "export let "@, name, ""@)
        ||| holds_phrase(content, "export var "@, name, ""@)
        ||| holds_phrase(content, "export default "@, name, ""@)
    } else {
        false
    }
}

/// Tests whether `content` holds `name` between `before` and `after`.
fn has_phrase(content: &[char], before: &str, name: &str, after: &str) -> (b: bool)
    ensures
        b == holds_phrase(content@, before@, name@, after@),
{
    let mut phrase = to_chars(before);
    let mut middle = to_chars(name);
    let mut end = to_chars(after);
    phrase.append(&mut middle);
    phrase.append(&mut end);
    contains_text(content, phrase.as_slice())
}

/// Tests whether a file in `language` with the text `file_content` exports
/// the symbol `symbol_name`.
pub fn is_exported_symbol(
    symbol_name: &str,
    file_content: &str,
    language: &str,
) -> (exported: bool)
    ensures
        exported == exported_in(symbol_name@, file_content@, language@),
{
    let content = to_chars(file_content);
    let c = content.as_slice();
    if same_text(language, "rust") {
        has_phrase(c, "pub fn ", symbol_name, "") || has_phrase(c, "pub struct ", symbol_name, "")
            || has_phrase(c, "pub enum ", symbol_name, "") || has_phrase(
            c,
            "pub trait ",
            symbol_name,
            "",
        )
    } else if same_text(language, "javascript") || same_text(language, "typescript") {
        has_phrase(c, "export { ", symbol_name, " }") || has_phrase(
            c,
            "export function ",
            symbol_name,
            "",
        ) || has_phrase(c, "export class ", symbol_name, "") || has_phrase(
            c,
            "export const ",
            symbol_name,
            "",
        ) || has_phrase(c, "export let ", symbol_name, "") || has_phrase(
            c,
            "export var ",
            symbol_name,
            "",
        ) || has_phrase(c, "export default ", symbol_name, "")
    } else {
        false
    }
}

} // verus!
