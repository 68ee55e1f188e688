//! A small calculator: the sample program whose text serves as an example
//! of what the scanner reads.

use vstd::prelude::*;

verus! {

/// The greatest value that the sample program prints.
pub const MAX_VALUE: i32 = 100;

/// The sum of `a` and `b`.
pub fn add_numbers(a: i32, b: i32) -> (sum: i32)
    requires
        i32::MIN <= a + b <= i32::MAX,
    ensures
        sum == a + b,
{
    a + b
}

/// A calculator with a name.
pub struct Calculator {
    pub name: String,
}

/// An operation that a calculator knows.
#[derive(Clone, Copy, Debug, PartialEq, Eq, Structural)]
pub enum Operation {
    Add,
    Subtract,
    Multiply,
}

/// The number that stands for an operation.
pub open spec fn operation_code(op: Operation) -> int {
    match op {
        Operation::Add => 42,
        Operation::Subtract => 0,
        Operation::Multiply => 1,
    }
}

/// What computes a number for an operation.
pub trait Compute {
    /// The number that stands for `op`.
    fn compute(&self, op: Operation) -> (code: i32)
        ensures
            code == operation_code(op),
    ;
}

impl Calculator {
    /// A calculator with the given name.
    pub fn new(name: String) -> (calculator: Calculator)
        ensures
            calculator.name == name,
    {
        Calculator { name }
    }

    /// The sum of `x` and `y`.
    pub fn calculate(&self, x: i32, y: i32) -> (sum: i32)
        requires
            i32::MIN <= x + y <= i32::MAX,
        ensures
            sum == x + y,
    {
        add_numbers(x, y)
    }
}

impl Compute for Calculator {
    fn compute(&self, op: Operation) -> (code: i32) {
        match op {
            Operation::Add => 42,
            Operation::Subtract => 0,
            Operation::Multiply => 1,
        }
    }
}

} // verus!
