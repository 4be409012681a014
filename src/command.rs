use vstd::prelude::*;

verus! {

/// A memory segment of the stack machine together with the offset or value that selects a cell.
#[derive(Debug, PartialEq)]
pub enum Segment {
    Argument(i16),
    Local(i16),
    /// The static cell `offset` of the named source unit.
    Static(String, i16),
    Constant(i16),
    This(i16),
    That(i16),
    /// 0 selects the `THIS` pointer cell, 1 the `THAT` pointer cell.
    Pointer(i16),
    Temp(i16),
    /// The cell at a raw symbolic address.
    Named(String),
    /// The address of a symbol itself, as a value.
    NamedPtr(String),
}

/// The mathematical value of a segment.
pub ghost enum SegModel {
    Argument(int),
    Local(int),
    Static(Seq<char>, int),
    Constant(int),
    This(int),
    That(int),
    Pointer(int),
    Temp(int),
    Named(Seq<char>),
    NamedPtr(Seq<char>),
}

impl View for Segment {
    type V = SegModel;

    open spec fn view(&self) -> SegModel {
        match self {
            Segment::Argument(o) => SegModel::Argument(*o as int),
            Segment::Local(o) => SegModel::Local(*o as int),
            Segment::Static(f, o) => SegModel::Static(f@, *o as int),
            Segment::Constant(v) => SegModel::Constant(*v as int),
            Segment::This(o) => SegModel::This(*o as int),
            Segment::That(o) => SegModel::That(*o as int),
            Segment::Pointer(v) => SegModel::Pointer(*v as int),
            Segment::Temp(o) => SegModel::Temp(*o as int),
            Segment::Named(n) => SegModel::Named(n@),
            Segment::NamedPtr(n) => SegModel::NamedPtr(n@),
        }
    }
}

/// An operation on the values at the top of the stack.
#[derive(Debug, PartialEq, Eq, Clone, Copy, Structural)]
pub enum ArithmeticOp {
    Add,
    Subtract,
    Negate,
    Equal,
    GreaterThan,
    LessThan,
    And,
    Or,
    Not,
}

/// One command of the stack machine.
#[derive(Debug, PartialEq)]
pub enum Command {
    Arithmetic(ArithmeticOp),
    Push(Segment),
    Pop(Segment),
    Label(String),
    Goto(String),
    IfGoto(String),
    /// A function declaration with its number of local variables.
    Function(String, usize),
    Return,
    /// A call with the number of arguments already pushed.
    Call(String, usize),
}

} // verus!
