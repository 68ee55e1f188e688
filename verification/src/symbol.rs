//! The data model: kinds of symbols, definitions, reference locations and
//! labels, each with its mathematical view.

use vstd::prelude::*;

verus! {

/// The kinds of symbols that the scanner recognises.
#[derive(Clone, Copy, Debug, PartialEq, Eq, Structural)]
pub enum SymbolKind {
    Function,
    Struct,
    Enum,
    Trait,
    Module,
    TypeAlias,
    Impl,
    Constant,
    Static,
}

/// Where the name stands in a definition, after the keyword.
#[derive(Clone, Copy, Debug, PartialEq, Eq, Structural)]
pub enum NameShape {
    /// The name is what stands between the keyword and the next `(`.
    BeforeParen,
    /// The name is the first token after the keyword, up to a `{` or `<`.
    FirstToken,
    /// The name is what stands between the keyword and the next `:`.
    BeforeColon,
}

impl SymbolKind {
    /// The keyword that introduces a definition of this kind.
    pub open spec fn keyword(self) -> Seq<char> {
        match self {
            SymbolKind::Function => "fn"@,
            SymbolKind::Struct => "struct"@,
            SymbolKind::Enum => "enum"@,
            SymbolKind::Trait => "trait"@,
            SymbolKind::Module => "mod"@,
            SymbolKind::TypeAlias => "type"@,
            SymbolKind::Impl => "impl"@,
            SymbolKind::Constant => "const"@,
            SymbolKind::Static => "static"@,
        }
    }

    /// Where the name stands in a definition of this kind.
    pub open spec fn shape(self) -> NameShape {
        match self {
            SymbolKind::Function => NameShape::BeforeParen,
            SymbolKind::Constant | SymbolKind::Static => NameShape::BeforeColon,
            _ => NameShape::FirstToken,
        }
    }

    /// Whether the keyword must stand at the very start of the trimmed line.
    pub open spec fn anchored(self) -> bool {
        self == SymbolKind::Impl
    }

    /// The keyword that introduces a definition of this kind.
    pub fn keyword_text(self) -> (kw: &'static str)
        ensures
            kw@ == self.keyword(),
    {
        match self {
            SymbolKind::Function => "fn",
            SymbolKind::Struct => "struct",
            SymbolKind::Enum => "enum",
            SymbolKind::Trait => "trait",
            SymbolKind::Module => "mod",
            SymbolKind::TypeAlias => "type",
            SymbolKind::Impl => "impl",
            SymbolKind::Constant => "const",
            SymbolKind::Static => "static",
        }
    }

    /// Where the name stands in a definition of this kind.
    pub fn name_shape(self) -> (shape: NameShape)
        ensures
            shape == self.shape(),
    {
        match self {
            SymbolKind::Function => NameShape::BeforeParen,
            SymbolKind::Constant | SymbolKind::Static => NameShape::BeforeColon,
            _ => NameShape::FirstToken,
        }
    }

    /// Whether the keyword must stand at the very start of the trimmed line.
    pub fn is_anchored(self) -> (b: bool)
        ensures
            b == self.anchored(),
    {
        match self {
            SymbolKind::Impl => true,
            _ => false,
        }
    }
}

/// A definition found in a text.
#[derive(Clone, Debug, PartialEq, Eq)]
pub struct SymbolDefinition {
    /// The name of the symbol.
    pub name: String,
    /// Its kind.
    pub kind: SymbolKind,
    /// The 1-based number of the line that defines it.
    pub line: usize,
}

/// The mathematical view of a `SymbolDefinition`.
pub struct DefinitionView {
    pub name: Seq<char>,
    pub kind: SymbolKind,
    pub line: nat,
}

impl View for SymbolDefinition {
    type V = DefinitionView;

    open spec fn view(&self) -> DefinitionView {
        DefinitionView { name: self.name@, kind: self.kind, line: self.line as nat }
    }
}

impl DeepView for SymbolDefinition {
    type V = DefinitionView;

    open spec fn deep_view(&self) -> DefinitionView {
        self@
    }
}

/// A place in a text where a name is referred to.
#[derive(Clone, Copy, Debug, PartialEq, Eq, Structural)]
pub struct ReferenceLocation {
    /// The 1-based number of the line.
    pub line: usize,
    /// The 1-based number of the column, counted in characters.
    pub column: usize,
}

/// The mathematical view of a `ReferenceLocation`.
pub struct LocationView {
    pub line: nat,
    pub column: nat,
}

impl View for ReferenceLocation {
    type V = LocationView;

    open spec fn view(&self) -> LocationView {
        LocationView { line: self.line as nat, column: self.column as nat }
    }
}

impl DeepView for ReferenceLocation {
    type V = LocationView;

    open spec fn deep_view(&self) -> LocationView {
        self@
    }
}

/// A label shown at the line of a definition.
#[derive(Clone, Debug, PartialEq, Eq)]
pub struct CodeLensLabel {
    /// The 1-based number of the line that the label is anchored at.
    pub line: usize,
    /// The text of the label.
    pub text: String,
}

/// The mathematical view of a `CodeLensLabel`.
pub struct LabelView {
    pub line: nat,
    pub text: Seq<char>,
}

impl View for CodeLensLabel {
    type V = LabelView;

    open spec fn view(&self) -> LabelView {
        LabelView { line: self.line as nat, text: self.text@ }
    }
}

impl DeepView for CodeLensLabel {
    type V = LabelView;

    open spec fn deep_view(&self) -> LabelView {
        self@
    }
}

} // verus!
