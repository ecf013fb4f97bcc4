use vstd::prelude::*;

verus! {

/// A string rendering of an operator, carried by errors for diagnostics.
#[derive(Debug, Clone, PartialEq)]
pub struct OperatorDesc(pub String);

impl View for OperatorDesc {
    type V = Seq<char>;

    open spec fn view(&self) -> Seq<char> {
        self.0@
    }
}

/// Every way an evaluation can fail.
#[derive(Debug, Clone, PartialEq)]
pub enum ExprError {
    /// The operator sequence is empty.
    EmptyExpression,
    /// An operator was reached with fewer operands than its arity.
    MissingOperands(OperatorDesc),
    /// An operand was resolved but yielded no value.
    NoneOperand(OperatorDesc),
    /// A variable was evaluated without a context.
    MissingContext(OperatorDesc),
    /// An operator stood where an operand was expected.
    UnmatchedOperator(OperatorDesc),
    /// The operands have shapes that the operation does not accept.
    TypeMismatch,
    /// Integer division or remainder by zero.
    DivisionByZero,
    /// An integer result does not fit in 64 bits.
    Overflow,
    /// An integer power with a negative exponent, whose result is fractional.
    NegativeExponent,
    /// The sequence does not reduce to exactly one value.
    InvalidExpression,
    /// An operator that is reserved but not implemented.
    Unimplemented(OperatorDesc),
}

/// The mathematical model of an `ExprError`: descriptions as character sequences.
pub enum Fault {
    EmptyExpression,
    MissingOperands(Seq<char>),
    NoneOperand(Seq<char>),
    MissingContext(Seq<char>),
    UnmatchedOperator(Seq<char>),
    TypeMismatch,
    DivisionByZero,
    Overflow,
    NegativeExponent,
    InvalidExpression,
    Unimplemented(Seq<char>),
}

impl View for ExprError {
    type V = Fault;

    open spec fn view(&self) -> Fault {
        match self {
            ExprError::EmptyExpression => Fault::EmptyExpression,
            ExprError::MissingOperands(d) => Fault::MissingOperands(d@),
            ExprError::NoneOperand(d) => Fault::NoneOperand(d@),
            ExprError::MissingContext(d) => Fault::MissingContext(d@),
            ExprError::UnmatchedOperator(d) => Fault::UnmatchedOperator(d@),
            ExprError::TypeMismatch => Fault::TypeMismatch,
            ExprError::DivisionByZero => Fault::DivisionByZero,
            ExprError::Overflow => Fault::Overflow,
            ExprError::NegativeExponent => Fault::NegativeExponent,
            ExprError::InvalidExpression => Fault::InvalidExpression,
            ExprError::Unimplemented(d) => Fault::Unimplemented(d@),
        }
    }
}

/// Every way decoding a compiled operator sequence can fail.
#[derive(Debug, Clone, PartialEq, Eq)]
pub enum ParseError {
    /// A required field of the compiled form is missing.
    EmptyValue,
    /// An operator code outside the known logical operators.
    UnknownLogical(i32),
    /// An operator code outside the known arithmetic operators.
    UnknownArithmetic(i32),
    /// A constant of an array kind, which expressions do not support.
    UnsupportedArray,
}

} // verus!
