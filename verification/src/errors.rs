use vstd::prelude::*;
use vstd::string::StringExecFns;

verus! {

/// Everything that can go wrong between reading an expression and printing
/// its value. Each condition is detected where it occurs and handed back as
/// a value; no input makes the pipeline panic.
#[derive(Clone, Copy, PartialEq, Eq, Structural, Debug)]
pub enum CalcError {
    /// The tokenizer produced no tokens at all.
    EmptyInput,
    /// A number literal could not be parsed (for instance two decimal points,
    /// or a lone minus sign).
    InvalidNumber,
    /// A close parenthesis had no matching open parenthesis, or an open
    /// parenthesis was never closed.
    UnbalancedParenthesis,
    /// An operator was applied with fewer than two operands on the stack.
    UnbalancedOperands,
    /// Evaluation finished with no value on the operand stack.
    EmptyResult,
    /// Evaluation finished with more than one value on the operand stack.
    MalformedResult,
    /// A division (or a negative power of zero) had divisor zero.
    DivisionByZero,
    /// A power had an exponent that is not a whole number.
    NonIntegerExponent,
    /// A value or an intermediate product left the 64-bit range.
    Overflow,
}

/// The message that `calculate` returns for each error.
pub open spec fn spec_message(e: CalcError) -> Seq<char> {
    match e {
        CalcError::EmptyInput => "Empty or invalid input string."@,
        CalcError::InvalidNumber => "could not parse a number literal"@,
        CalcError::UnbalancedParenthesis => "could not evaluate equation due to unbalanced parentheses"@,
        CalcError::UnbalancedOperands => "could not evaluate equation due to unbalanced operands"@,
        CalcError::EmptyResult => "expression produced no result"@,
        CalcError::MalformedResult => "malformed expression: more than one result"@,
        CalcError::DivisionByZero => "division by zero"@,
        CalcError::NonIntegerExponent => "exponent must be a whole number"@,
        CalcError::Overflow => "arithmetic overflow"@,
    }
}

impl CalcError {
    /// The human-readable message for this error.
    pub fn message(&self) -> (s: String)
        ensures
            s@ == spec_message(*self),
    {
        match self {
            CalcError::EmptyInput => String::from_str("Empty or invalid input string."),
            CalcError::InvalidNumber => String::from_str("could not parse a number literal"),
            CalcError::UnbalancedParenthesis => String::from_str(
                "could not evaluate equation due to unbalanced parentheses",
            ),
            CalcError::UnbalancedOperands => String::from_str(
                "could not evaluate equation due to unbalanced operands",
            ),
            CalcError::EmptyResult => String::from_str("expression produced no result"),
            CalcError::MalformedResult => String::from_str(
                "malformed expression: more than one result",
            ),
            CalcError::DivisionByZero => String::from_str("division by zero"),
            CalcError::NonIntegerExponent => String::from_str("exponent must be a whole number"),
            CalcError::Overflow => String::from_str("arithmetic overflow"),
        }
    }
}

} // verus!
