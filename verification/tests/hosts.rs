use codelens_references::language::{get_language_from_extension, is_exported_symbol};
use codelens_references::scan::{scan, scan_file, scan_in_language, ZeroCountPolicy};
use codelens_references::extract::{extract, find_definition};
use codelens_references::lsp::{
    label_for_definition, label_for_symbol, should_show_codelens_for_symbol_kind, LabelSpan,
    LspSymbolKind, SymbolLabel,
};
use codelens_references::references::{count_symbol_references, find_references};
use codelens_references::source::SourceText;
use codelens_references::symbol::{SymbolDefinition, SymbolKind};

#[test]
fn extensions_stand_for_languages() {
    assert_eq!(get_language_from_extension("src/lib.rs"), Some("rust"));
    for path in ["a.js", "a.jsx", "a.mjs", "a.cjs", "dir.ts/a.js"] {
        assert_eq!(get_language_from_extension(path), Some("javascript"));
    }
    for path in ["a.ts", "a.tsx", "a.mts", "a.cts", "types.d.ts"] {
        assert_eq!(get_language_from_extension(path), Some("typescript"));
    }
    assert_eq!(get_language_from_extension(".rs"), Some("rust"));
}

#[test]
fn other_extensions_stand_for_no_language() {
    for path in ["", "rs", "a.py", "a.RS", "a.rs.bak", "a.rs ", "a.j", "ats", "Makefile"] {
        assert_eq!(get_language_from_extension(path), None);
    }
}

#[test]
fn rust_exports_with_pub() {
    assert!(is_exported_symbol("area", "pub fn area() {}", "rust"));
    assert!(is_exported_symbol("Rect", "x\npub struct Rect {", "rust"));
    assert!(is_exported_symbol("Shape", "pub enum Shape {", "rust"));
    assert!(is_exported_symbol("Draw", "pub trait Draw {", "rust"));
    assert!(is_exported_symbol("are", "pub fn area() {}", "rust"));
    assert!(!is_exported_symbol("area", "fn area() {}", "rust"));
    assert!(!is_exported_symbol("area", "pub  fn area() {}", "rust"));
    assert!(!is_exported_symbol("PI", "pub const PI: f64", "rust"));
    assert!(!is_exported_symbol("area", "export function area", "rust"));
}

#[test]
fn javascript_and_typescript_export_with_export() {
    for language in ["javascript", "typescript"] {
        assert!(is_exported_symbol("a", "export { a }", language));
        assert!(is_exported_symbol("a", "export function a() {}", language));
        assert!(is_exported_symbol("A", "export class A {}", language));
        assert!(is_exported_symbol("a", "export const a = 1", language));
        assert!(is_exported_symbol("a", "export let a = 1", language));
        assert!(is_exported_symbol("a", "export var a = 1", language));
        assert!(is_exported_symbol("a", "x;\nexport default a;", language));
        assert!(!is_exported_symbol("a", "export {a}", language));
        assert!(!is_exported_symbol("a", "export { a, b }", language));
        assert!(!is_exported_symbol("a", "function a() {}", language));
        assert!(!is_exported_symbol("a", "pub fn a", language));
    }
}

#[test]
fn unknown_languages_export_nothing() {
    assert!(!is_exported_symbol("a", "pub fn a", "Rust"));
    assert!(!is_exported_symbol("a", "export function a", "python"));
    assert!(!is_exported_symbol("a", "pub fn a export function a", ""));
}

#[test]
fn nine_kinds_of_symbols_get_a_label() {
    let shown = [
        LspSymbolKind::Class,
        LspSymbolKind::Method,
        LspSymbolKind::Function,
        LspSymbolKind::Variable,
        LspSymbolKind::Constant,
        LspSymbolKind::Struct,
        LspSymbolKind::Enum,
        LspSymbolKind::Interface,
        LspSymbolKind::Constructor,
    ];
    for kind in shown {
        assert!(should_show_codelens_for_symbol_kind(kind));
    }
    let hidden = [
        LspSymbolKind::File,
        LspSymbolKind::Module,
        LspSymbolKind::Namespace,
        LspSymbolKind::Package,
        LspSymbolKind::Property,
        LspSymbolKind::Field,
        LspSymbolKind::String,
        LspSymbolKind::Number,
        LspSymbolKind::Boolean,
        LspSymbolKind::Array,
        LspSymbolKind::Object,
        LspSymbolKind::Key,
        LspSymbolKind::Null,
        LspSymbolKind::EnumMember,
        LspSymbolKind::Event,
        LspSymbolKind::Operator,
        LspSymbolKind::TypeParameter,
        LspSymbolKind::Other(0),
        LspSymbolKind::Other(12),
        LspSymbolKind::Other(-1),
    ];
    for kind in hidden {
        assert!(!should_show_codelens_for_symbol_kind(kind));
    }
}

fn reference_label(text: &str) -> SymbolLabel {
    SymbolLabel {
        code: text.to_string(),
        spans: vec![LabelSpan {
            text: text.to_string(),
            highlight_name: Some("comment".to_string()),
        }],
        filter_start: 0,
        filter_end: 0,
    }
}

const ADD: &str = "fn add(a,b){a+b}\nadd(1,2);\nadd(3,4);";
const RECTANGLE: &str = "struct Rectangle { w: f64 }\nlet r = Rectangle::new(1.0);\nimpl Drawable for Rectangle {}\nlet s = Shape::Rectangle(r);";
const PI: &str = "const PI: f64 = 3.14159;\nlet c = 2.0 * PI;";

#[test]
fn references_are_counted_in_the_text() {
    assert_eq!(
        count_symbol_references(&SourceText::new(ADD), "add", SymbolKind::Function),
        2
    );
    assert_eq!(
        count_symbol_references(&SourceText::new(RECTANGLE), "Rectangle", SymbolKind::Struct),
        3
    );
    assert_eq!(
        count_symbol_references(&SourceText::new(PI), "PI", SymbolKind::Constant),
        1
    );
}

#[test]
fn count_depends_on_the_text_alone() {
    for name in ["Rectangle", "PI", "add", "calculate_area", ""] {
        for kind in [SymbolKind::Function, SymbolKind::Struct, SymbolKind::Constant] {
            assert_eq!(count_symbol_references(&SourceText::new(""), name, kind), 0);
            assert_eq!(count_symbol_references(&SourceText::new("\n\n"), name, kind), 0);
        }
    }
    assert_eq!(
        count_symbol_references(&SourceText::new(PI), "Rectangle", SymbolKind::Struct),
        0
    );
    assert_eq!(
        count_symbol_references(&SourceText::new(RECTANGLE), "PI", SymbolKind::Constant),
        0
    );
}

#[test]
fn name_inside_longer_identifiers_is_not_counted_at_all() {
    let text = "let a = calculate_area(2, 3);\nlet area2 = _area + area_of(x) + xarea;\n";
    assert_eq!(
        count_symbol_references(&SourceText::new(text), "area", SymbolKind::Function),
        0
    );
    let text = "MyRectangle Rectangle2 _Rectangle Rectangle_\n";
    assert_eq!(
        count_symbol_references(&SourceText::new(text), "Rectangle", SymbolKind::Struct),
        0
    );
}

#[test]
fn occurrences_on_a_definition_line_are_not_counted() {
    assert_eq!(
        count_symbol_references(
            &SourceText::new("struct Rectangle { inner: Rectangle }"),
            "Rectangle",
            SymbolKind::Struct
        ),
        0
    );
    assert_eq!(
        count_symbol_references(
            &SourceText::new("fn add(a, b) { add(a, b) + add(b, a) }\nadd(1, 2)"),
            "add",
            SymbolKind::Function
        ),
        1
    );
}

#[test]
fn count_is_the_number_of_places_found() {
    let texts = [ADD, RECTANGLE, PI, "", "add add\nadd", "fn add\nadd"];
    for text in texts {
        let source = SourceText::new(text);
        for (name, kind) in [
            ("add", SymbolKind::Function),
            ("Rectangle", SymbolKind::Struct),
            ("PI", SymbolKind::Constant),
        ] {
            let places = find_references(&source, name, kind);
            assert_eq!(count_symbol_references(&source, name, kind), places.len());
            for pair in places.windows(2) {
                assert!((pair[0].line, pair[0].column) < (pair[1].line, pair[1].column));
            }
            for p in &places {
                assert!(1 <= p.line && p.line <= source.line_count());
                let line: String = source.line(p.line).unwrap().iter().collect();
                let rest: String = line.chars().skip(p.column - 1).collect();
                assert!(p.column >= 1 && rest.starts_with(name));
            }
        }
    }
}

#[test]
fn counts_of_joined_texts_add_up() {
    let texts = [ADD, RECTANGLE, PI, "", "add\n", "\nadd", "add add\nPI", "fn add(\n"];
    for a in texts {
        for b in texts {
            let joined = format!("{}\n{}", a, b);
            for (name, kind) in [
                ("add", SymbolKind::Function),
                ("Rectangle", SymbolKind::Struct),
                ("PI", SymbolKind::Constant),
            ] {
                assert_eq!(
                    count_symbol_references(&SourceText::new(&joined), name, kind),
                    count_symbol_references(&SourceText::new(a), name, kind)
                        + count_symbol_references(&SourceText::new(b), name, kind)
                );
            }
        }
    }
}

#[test]
fn carriage_return_before_the_joint_belongs_to_the_line_end() {
    let name = "=\r";
    assert_eq!(
        count_symbol_references(&SourceText::new("=\r"), name, SymbolKind::Function),
        1
    );
    assert_eq!(
        count_symbol_references(&SourceText::new("=\r\n"), name, SymbolKind::Function),
        0
    );
}

#[test]
fn definition_is_looked_up_by_name() {
    let source = SourceText::new(RECTANGLE);
    assert_eq!(
        find_definition(&source, "Rectangle"),
        Some(SymbolDefinition {
            name: "Rectangle".to_string(),
            kind: SymbolKind::Struct,
            line: 1
        })
    );
    assert_eq!(
        find_definition(&source, "Drawable"),
        Some(SymbolDefinition {
            name: "Drawable".to_string(),
            kind: SymbolKind::Impl,
            line: 3
        })
    );
    assert_eq!(find_definition(&source, "Shape"), None);
    assert_eq!(find_definition(&source, ""), None);
    let twice = SourceText::new("impl Point {\nstruct Point {\n");
    assert_eq!(
        find_definition(&twice, "Point"),
        Some(SymbolDefinition {
            name: "Point".to_string(),
            kind: SymbolKind::Impl,
            line: 1
        })
    );
}

#[test]
fn function_called_twice_gets_its_label_at_its_line() {
    let source = SourceText::new(ADD);
    let defs = extract(&source);
    assert_eq!(defs.len(), 1);
    assert_eq!(defs[0].name, "add");
    assert_eq!(defs[0].kind, SymbolKind::Function);
    assert_eq!(defs[0].line, 1);
    assert_eq!(
        label_for_symbol(&source, "add", LspSymbolKind::Function),
        Some((1, reference_label("2 references")))
    );
    assert_eq!(
        label_for_definition(&source, &defs[0], LspSymbolKind::Function),
        Some((1, reference_label("2 references")))
    );
}

#[test]
fn constant_used_once_gets_its_label() {
    let source = SourceText::new(PI);
    let label = label_for_symbol(&source, "PI", LspSymbolKind::Constant);
    assert!(label.is_some());
    let (line, label) = label.unwrap();
    assert_eq!(line, 1);
    assert_eq!(label.code, "1 reference");
    assert_eq!(label, reference_label("1 reference"));
}

#[test]
fn struct_gets_its_label_from_the_text() {
    let source = SourceText::new(RECTANGLE);
    assert_eq!(
        label_for_symbol(&source, "Rectangle", LspSymbolKind::Struct),
        Some((1, reference_label("3 references")))
    );
    assert_eq!(
        label_for_symbol(&source, "Rectangle", LspSymbolKind::Class),
        Some((1, reference_label("3 references")))
    );
    let later = SourceText::new("\n\nfn area() {}\narea();\n");
    assert_eq!(
        label_for_symbol(&later, "area", LspSymbolKind::Method),
        Some((3, reference_label("1 reference")))
    );
}

#[test]
fn symbol_without_references_gets_no_label() {
    let source = SourceText::new("fn unused_function() {\n    1\n}\n");
    assert_eq!(
        count_symbol_references(&source, "unused_function", SymbolKind::Function),
        0
    );
    assert_eq!(label_for_symbol(&source, "unused_function", LspSymbolKind::Function), None);
    let def = find_definition(&source, "unused_function").unwrap();
    assert_eq!(label_for_definition(&source, &def, LspSymbolKind::Function), None);
}

#[test]
fn undefined_symbol_or_hidden_kind_gets_no_label() {
    let source = SourceText::new(RECTANGLE);
    assert_eq!(label_for_symbol(&source, "Shape", LspSymbolKind::Enum), None);
    assert_eq!(label_for_symbol(&source, "r", LspSymbolKind::Variable), None);
    assert_eq!(label_for_symbol(&source, "", LspSymbolKind::Class), None);
    assert_eq!(label_for_symbol(&source, "Rectangle", LspSymbolKind::Module), None);
    assert_eq!(label_for_symbol(&source, "Rectangle", LspSymbolKind::Other(5)), None);
    assert_eq!(label_for_symbol(&SourceText::new(""), "Rectangle", LspSymbolKind::Struct), None);
    let def = find_definition(&source, "Rectangle").unwrap();
    assert_eq!(label_for_definition(&source, &def, LspSymbolKind::File), None);
}

#[test]
fn only_rust_files_are_scanned() {
    let text = "fn add(a,b){a+b}\nadd(1, 2)\nfn unused() {}\n";
    let all = scan(text);
    assert_eq!(all.len(), 2);
    assert_eq!(scan_in_language(text, "rust", ZeroCountPolicy::Show), all);
    assert_eq!(scan_in_language(text, "rust", ZeroCountPolicy::Hide).len(), 1);
    assert!(scan_in_language(text, "javascript", ZeroCountPolicy::Show).is_empty());
    assert!(scan_in_language(text, "typescript", ZeroCountPolicy::Show).is_empty());
    assert!(scan_in_language(text, "Rust", ZeroCountPolicy::Show).is_empty());
    assert!(scan_in_language(text, "", ZeroCountPolicy::Show).is_empty());
    assert_eq!(scan_file("src/main.rs", text, ZeroCountPolicy::Show), all);
    assert_eq!(scan_file("src/main.rs", text, ZeroCountPolicy::Hide).len(), 1);
    assert!(scan_file("src/main.js", text, ZeroCountPolicy::Show).is_empty());
    assert!(scan_file("src/main.ts", text, ZeroCountPolicy::Show).is_empty());
    assert!(scan_file("src/main.py", text, ZeroCountPolicy::Show).is_empty());
    assert!(scan_file("main", text, ZeroCountPolicy::Show).is_empty());
}
