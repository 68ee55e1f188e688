//! A line-oriented scanner that finds the definitions of symbols in the text
//! of a source file and counts, for each of them, the places in the same
//! file where its name is referred to.
//!
//! The scanner reads text, not syntax: it knows nothing of scopes, comments
//! or string literals. A line defines a symbol where it holds the keyword of
//! a kind of symbol and a valid name in the place where that kind has its
//! name. A name is referred to wherever it stands as a whole word in a line
//! that does not count as a definition line for it.
//!
//! - `source` splits a text into lines,
//! - `extract` finds the definitions,
//! - `references` finds the references to a name,
//! - `label` says a number of references in words,
//! - `scan` does all of it for a whole file,
//! - `laws` states what holds of every text,
//! - `language` and `lsp` serve hosts that work with file names and with the
//!   symbols of a language server,
//! - `chars`, `text` and `symbol` hold what the others build on, and `demo`
//!   a sample program.
//!
//! Letters, digits and whitespace are the ASCII ones throughout.

pub mod chars;
pub mod text;
pub mod source;
pub mod symbol;
pub mod extract;
pub mod references;
pub mod label;
pub mod scan;
pub mod language;
pub mod lsp;
pub mod laws;
pub mod demo;
