use codelens_references::extract::extract;
use codelens_references::references::find_references;
use codelens_references::scan::{scan, scan_with, ZeroCountPolicy};
use codelens_references::source::SourceText;
use codelens_references::symbol::{CodeLensLabel, ReferenceLocation, SymbolDefinition, SymbolKind};

fn def(name: &str, kind: SymbolKind, line: usize) -> SymbolDefinition {
    SymbolDefinition { name: name.to_string(), kind, line }
}

fn label(line: usize, text: &str) -> CodeLensLabel {
    CodeLensLabel { line, text: text.to_string() }
}

fn at(line: usize, column: usize) -> ReferenceLocation {
    ReferenceLocation { line, column }
}

// The samples carry comments that name their symbols. The scanner reads
// comments like code, so the names in them count as references too.

const CALCULATOR: &str = "// Demo file for CodeLens References Extension
// This file demonstrates the extension's capability to show reference counts

// This function should show \"3 references\"
fn add_numbers(a: i32, b: i32) -> i32 {
    a + b
}

// This struct should show \"2 references\"
struct Calculator {
    name: String,
}

// This implementation should show \"1 reference\"
impl Calculator {
    fn new(name: String) -> Self {
        Calculator { name }
    }
    
    fn calculate(&self, x: i32, y: i32) -> i32 {
        add_numbers(x, y)  // Reference 1 to add_numbers
    }
}

// This enum should show \"1 reference\"
enum Operation {
    Add,
    Subtract,
    Multiply,
}

// This trait should show \"1 reference\"
trait Compute {
    fn compute(&self, op: Operation) -> i32;
}

// This implementation should show \"0 references\"
impl Compute for Calculator {  // Reference 1 to Calculator
    fn compute(&self, op: Operation) -> i32 {  // Reference 1 to Operation
        match op {
            Operation::Add => 42,
            Operation::Subtract => 0,
            Operation::Multiply => 1,
        }
    }
}

fn main() {
    let calc = Calculator::new(\"Demo Calculator\".to_string());  // Reference 2 to Calculator
    
    let result1 = calc.calculate(10, 20);  // Uses add_numbers internally
    let result2 = add_numbers(5, 15);      // Reference 2 to add_numbers
    let result3 = add_numbers(1, 2);       // Reference 3 to add_numbers
    
    println!(\"Results: {}, {}, {}\", result1, result2, result3);
}

// This function should show \"0 references\"
fn unused_function() {
    println!(\"This function is never called\");
}

// This constant should show \"1 reference\"
const MAX_VALUE: i32 = 100;

fn use_constant() {
    println!(\"Max value: {}\", MAX_VALUE);  // Reference 1 to MAX_VALUE
}
";

#[test]
fn calculator_sample_definitions() {
    let source = SourceText::new(CALCULATOR);
    let expected = vec![
        def("add_numbers", SymbolKind::Function, 5),
        def("should", SymbolKind::Struct, 9),
        def("Calculator", SymbolKind::Struct, 10),
        def("Calculator", SymbolKind::Impl, 15),
        def("new", SymbolKind::Function, 16),
        def("calculate", SymbolKind::Function, 20),
        def("should", SymbolKind::Enum, 25),
        def("Operation", SymbolKind::Enum, 26),
        def("should", SymbolKind::Trait, 32),
        def("Compute", SymbolKind::Trait, 33),
        def("compute", SymbolKind::Function, 34),
        def("Compute", SymbolKind::Impl, 38),
        def("compute", SymbolKind::Function, 39),
        def("main", SymbolKind::Function, 48),
        def("unused_function", SymbolKind::Function, 59),
        def("MAX_VALUE", SymbolKind::Constant, 64),
        def("use_constant", SymbolKind::Function, 66),
    ];
    assert_eq!(extract(&source), expected);
}

#[test]
fn calculator_sample_labels() {
    let expected = vec![
        label(5, "7 references"),
        label(9, "7 references"),
        label(10, "7 references"),
        label(15, "5 references"),
        label(16, "1 reference"),
        label(20, "1 reference"),
        label(25, "7 references"),
        label(26, "6 references"),
        label(32, "7 references"),
        label(33, "1 reference"),
        label(34, "0 references"),
        label(38, "1 reference"),
        label(39, "0 references"),
        label(48, "0 references"),
        label(59, "0 references"),
        label(64, "2 references"),
        label(66, "0 references"),
    ];
    assert_eq!(scan(CALCULATOR), expected);
}

#[test]
fn calculator_sample_labels_without_unreferenced() {
    let expected = vec![
        label(5, "7 references"),
        label(9, "7 references"),
        label(10, "7 references"),
        label(15, "5 references"),
        label(16, "1 reference"),
        label(20, "1 reference"),
        label(25, "7 references"),
        label(26, "6 references"),
        label(32, "7 references"),
        label(33, "1 reference"),
        label(38, "1 reference"),
        label(64, "2 references"),
    ];
    assert_eq!(scan_with(CALCULATOR, ZeroCountPolicy::Hide), expected);
}

#[test]
fn calculator_sample_references() {
    let source = SourceText::new(CALCULATOR);
    assert_eq!(
        find_references(&source, "add_numbers", SymbolKind::Function),
        vec![at(21, 9), at(21, 46), at(51, 52), at(52, 19), at(52, 62), at(53, 19), at(53, 62)]
    );
    assert_eq!(
        find_references(&source, "should", SymbolKind::Struct),
        vec![at(4, 18), at(14, 24), at(25, 14), at(32, 15), at(37, 24), at(58, 18), at(63, 18)]
    );
    assert_eq!(
        find_references(&source, "Calculator", SymbolKind::Struct),
        vec![at(15, 6), at(17, 9), at(38, 18), at(38, 50), at(49, 16), at(49, 38), at(49, 83)]
    );
    assert_eq!(
        find_references(&source, "Calculator", SymbolKind::Impl),
        vec![at(10, 8), at(17, 9), at(49, 16), at(49, 38), at(49, 83)]
    );
    assert_eq!(
        find_references(&source, "new", SymbolKind::Function),
        vec![at(49, 28)]
    );
    assert_eq!(
        find_references(&source, "calculate", SymbolKind::Function),
        vec![at(51, 24)]
    );
    assert_eq!(
        find_references(&source, "should", SymbolKind::Enum),
        vec![at(4, 18), at(9, 16), at(14, 24), at(32, 15), at(37, 24), at(58, 18), at(63, 18)]
    );
    assert_eq!(
        find_references(&source, "Operation", SymbolKind::Enum),
        vec![at(34, 27), at(39, 27), at(39, 66), at(41, 13), at(42, 13), at(43, 13)]
    );
    assert_eq!(
        find_references(&source, "should", SymbolKind::Trait),
        vec![at(4, 18), at(9, 16), at(14, 24), at(25, 14), at(37, 24), at(58, 18), at(63, 18)]
    );
    assert_eq!(
        find_references(&source, "Compute", SymbolKind::Trait),
        vec![at(38, 6)]
    );
    assert!(find_references(&source, "compute", SymbolKind::Function).is_empty());
    assert_eq!(
        find_references(&source, "Compute", SymbolKind::Impl),
        vec![at(33, 7)]
    );
    assert!(find_references(&source, "main", SymbolKind::Function).is_empty());
    assert!(find_references(&source, "unused_function", SymbolKind::Function).is_empty());
    assert_eq!(
        find_references(&source, "MAX_VALUE", SymbolKind::Constant),
        vec![at(67, 31), at(67, 62)]
    );
    assert!(find_references(&source, "use_constant", SymbolKind::Function).is_empty());
}

const SHAPES: &str = "// Sample Rust file to test the CodeLens extension

// This function should show \"2 references\"
fn calculate_area(width: f64, height: f64) -> f64 {
    width * height
}

// This struct should show \"3 references\"
struct Rectangle {
    width: f64,
    height: f64,
}

// This implementation should show \"1 reference\"
impl Rectangle {
    fn new(width: f64, height: f64) -> Self {
        Rectangle { width, height }
    }
    
    fn area(&self) -> f64 {
        calculate_area(self.width, self.height)  // Reference 1 to calculate_area
    }
    
    fn perimeter(&self) -> f64 {
        2.0 * (self.width + self.height)
    }
}

// This enum should show \"2 references\"
enum Shape {
    Circle(f64),
    Rectangle(Rectangle),  // Reference 1 to Rectangle
    Triangle(f64, f64, f64),
}

// This trait should show \"1 reference\"
trait Drawable {
    fn draw(&self);
}

// This implementation should show \"0 references\"
impl Drawable for Rectangle {  // Reference 2 to Rectangle
    fn draw(&self) {
        println!(\"Drawing rectangle: {}x{}\", self.width, self.height);
    }
}

fn main() {
    let rect = Rectangle::new(10.0, 5.0);  // Reference 3 to Rectangle
    let area = rect.area();
    let perimeter = rect.perimeter();
    
    println!(\"Rectangle area: {}\", area);
    println!(\"Rectangle perimeter: {}\", perimeter);
    
    let shape = Shape::Circle(5.0);  // Reference 1 to Shape
    let rect_shape = Shape::Rectangle(rect);  // Reference 2 to Shape
    
    let manual_area = calculate_area(8.0, 6.0);  // Reference 2 to calculate_area
    println!(\"Manual area calculation: {}\", manual_area);
}

// This function should show \"0 references\"
fn unused_function() {
    println!(\"This function is never called\");
}

// This constant should show \"1 reference\"
const PI: f64 = 3.14159;

// This static should show \"1 reference\"
static GLOBAL_COUNTER: std::sync::atomic::AtomicUsize = std::sync::atomic::AtomicUsize::new(0);

fn use_constants() {
    println!(\"PI value: {}\", PI);  // Reference 1 to PI
    GLOBAL_COUNTER.fetch_add(1, std::sync::atomic::Ordering::SeqCst);  // Reference 1 to GLOBAL_COUNTER
}
";

#[test]
fn shapes_sample_definitions() {
    let source = SourceText::new(SHAPES);
    let expected = vec![
        def("calculate_area", SymbolKind::Function, 4),
        def("should", SymbolKind::Struct, 8),
        def("Rectangle", SymbolKind::Struct, 9),
        def("Rectangle", SymbolKind::Impl, 15),
        def("new", SymbolKind::Function, 16),
        def("area", SymbolKind::Function, 20),
        def("perimeter", SymbolKind::Function, 24),
        def("should", SymbolKind::Enum, 29),
        def("Shape", SymbolKind::Enum, 30),
        def("should", SymbolKind::Trait, 36),
        def("Drawable", SymbolKind::Trait, 37),
        def("draw", SymbolKind::Function, 38),
        def("Drawable", SymbolKind::Impl, 42),
        def("draw", SymbolKind::Function, 43),
        def("main", SymbolKind::Function, 48),
        def("unused_function", SymbolKind::Function, 64),
        def("PI", SymbolKind::Constant, 69),
        def("GLOBAL_COUNTER", SymbolKind::Static, 72),
        def("use_constants", SymbolKind::Function, 74),
    ];
    assert_eq!(extract(&source), expected);
}

#[test]
fn shapes_sample_labels() {
    let expected = vec![
        label(4, "4 references"),
        label(8, "8 references"),
        label(9, "12 references"),
        label(15, "10 references"),
        label(16, "2 references"),
        label(20, "5 references"),
        label(24, "4 references"),
        label(29, "8 references"),
        label(30, "4 references"),
        label(36, "8 references"),
        label(37, "1 reference"),
        label(38, "0 references"),
        label(42, "1 reference"),
        label(43, "0 references"),
        label(48, "0 references"),
        label(64, "0 references"),
        label(69, "3 references"),
        label(72, "2 references"),
        label(74, "0 references"),
    ];
    assert_eq!(scan(SHAPES), expected);
}

#[test]
fn shapes_sample_labels_without_unreferenced() {
    let expected = vec![
        label(4, "4 references"),
        label(8, "8 references"),
        label(9, "12 references"),
        label(15, "10 references"),
        label(16, "2 references"),
        label(20, "5 references"),
        label(24, "4 references"),
        label(29, "8 references"),
        label(30, "4 references"),
        label(36, "8 references"),
        label(37, "1 reference"),
        label(42, "1 reference"),
        label(69, "3 references"),
        label(72, "2 references"),
    ];
    assert_eq!(scan_with(SHAPES, ZeroCountPolicy::Hide), expected);
}

#[test]
fn shapes_sample_references() {
    let source = SourceText::new(SHAPES);
    assert_eq!(
        find_references(&source, "calculate_area", SymbolKind::Function),
        vec![at(21, 9), at(21, 68), at(59, 23), at(59, 68)]
    );
    assert_eq!(
        find_references(&source, "should", SymbolKind::Struct),
        vec![at(3, 18), at(14, 24), at(29, 14), at(36, 15), at(41, 24), at(63, 18), at(68, 18), at(71, 16)]
    );
    assert_eq!(
        find_references(&source, "Rectangle", SymbolKind::Struct),
        vec![at(15, 6), at(17, 9), at(32, 5), at(32, 15), at(32, 46), at(42, 19), at(42, 50), at(49, 16), at(49, 62), at(53, 15), at(54, 15), at(57, 29)]
    );
    assert_eq!(
        find_references(&source, "Rectangle", SymbolKind::Impl),
        vec![at(9, 8), at(17, 9), at(32, 5), at(32, 15), at(32, 46), at(49, 16), at(49, 62), at(53, 15), at(54, 15), at(57, 29)]
    );
    assert_eq!(
        find_references(&source, "new", SymbolKind::Function),
        vec![at(49, 27), at(72, 89)]
    );
    assert_eq!(
        find_references(&source, "area", SymbolKind::Function),
        vec![at(50, 9), at(50, 21), at(53, 25), at(53, 36), at(60, 22)]
    );
    assert_eq!(
        find_references(&source, "perimeter", SymbolKind::Function),
        vec![at(51, 9), at(51, 26), at(54, 25), at(54, 41)]
    );
    assert_eq!(
        find_references(&source, "should", SymbolKind::Enum),
        vec![at(3, 18), at(8, 16), at(14, 24), at(36, 15), at(41, 24), at(63, 18), at(68, 18), at(71, 16)]
    );
    assert_eq!(
        find_references(&source, "Shape", SymbolKind::Enum),
        vec![at(56, 17), at(56, 56), at(57, 22), at(57, 65)]
    );
    assert_eq!(
        find_references(&source, "should", SymbolKind::Trait),
        vec![at(3, 18), at(8, 16), at(14, 24), at(29, 14), at(41, 24), at(63, 18), at(68, 18), at(71, 16)]
    );
    assert_eq!(
        find_references(&source, "Drawable", SymbolKind::Trait),
        vec![at(42, 6)]
    );
    assert!(find_references(&source, "draw", SymbolKind::Function).is_empty());
    assert_eq!(
        find_references(&source, "Drawable", SymbolKind::Impl),
        vec![at(37, 7)]
    );
    assert!(find_references(&source, "main", SymbolKind::Function).is_empty());
    assert!(find_references(&source, "unused_function", SymbolKind::Function).is_empty());
    assert_eq!(
        find_references(&source, "PI", SymbolKind::Constant),
        vec![at(75, 15), at(75, 30), at(75, 54)]
    );
    assert_eq!(
        find_references(&source, "GLOBAL_COUNTER", SymbolKind::Static),
        vec![at(76, 5), at(76, 90)]
    );
    assert!(find_references(&source, "use_constants", SymbolKind::Function).is_empty());
}
