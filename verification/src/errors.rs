use vstd::prelude::*;

verus! {

/// The static types of the language: a four-element lattice with no
/// subtyping; `as` is the only conversion between any two of them.
#[derive(Clone, Copy, PartialEq, Eq, Structural, Debug)]
pub enum TypesCheck {
    Number,
    Float,
    String,
    Boolean,
}

impl View for TypesCheck {
    type V = TypesCheck;

    open spec fn view(&self) -> TypesCheck {
        *self
    }
}

/// Every diagnostic the pipeline can raise, lexical to runtime.
/// `code_text` gives the catalogue line that is shown to the user.
#[derive(Clone, Copy, PartialEq, Eq, Structural, Debug)]
pub enum ErrorKind {
    NumericParseFail,
    UnknownIdent,
    ExpectedAssignOperator,
    InvalidName,
    ConstReassign,
    UnbalancedParen,
    InvalidExpression,
    BadArithType,
    TopLevelOnlyInProc,
    UnclosedString,
    NoMainProc,
    UnknownProc,
    MissingExitCode,
    ArityMismatch,
    ConstDelete,
    DivisionByZero,
    ForStepInvalid,
    ForDirectionInvalid,
    BadBooleanValue,
    DuplicateDecl,
    DuplicateProc,
    BadLogicType,
    RedundantCast,
    BadTransCastDomain,
    TypeMismatch,
    DeclTypeMismatch,
    StackUnderflow,
}

/// Non-fatal diagnostics: printed as warnings, execution continues.
#[derive(Clone, Copy, PartialEq, Eq, Structural, Debug)]
pub enum WarningKind {
    RedundantConversion,
    InputReadFailure,
}

/// The catalogue text of each fatal diagnostic.
pub open spec fn spec_code_text(k: ErrorKind) -> Seq<char> {
    match k {
        ErrorKind::NumericParseFail => "A02: Cannot convert value to numeric type."@,
        ErrorKind::UnknownIdent => "A03: Requested variable does not exist."@,
        ErrorKind::ExpectedAssignOperator => "A04: Expected assignment operator '=' after variable name."@,
        ErrorKind::InvalidName => "A05: Invalid variable name."@,
        ErrorKind::ConstReassign => "A07: Cannot modify a constant variable."@,
        ErrorKind::UnbalancedParen => "A10: Unclosed bracket."@,
        ErrorKind::InvalidExpression => "A15: Invalid expression."@,
        ErrorKind::BadArithType => "A16: Invalid type for arithmetic operation."@,
        ErrorKind::TopLevelOnlyInProc => "A20: Statements are only allowed inside procedures"@,
        ErrorKind::UnclosedString => "A21: Unclosed string."@,
        ErrorKind::NoMainProc => "A22: Entry point procedure `main` not found."@,
        ErrorKind::UnknownProc => "A24: Requested procedure does not exist."@,
        ErrorKind::MissingExitCode => "A26: Expected code for exit."@,
        ErrorKind::ArityMismatch => "A27: Arguments count do not match."@,
        ErrorKind::ConstDelete => "A28: Cannot delete a constant variable."@,
        ErrorKind::DivisionByZero => "A31: Division by zero."@,
        ErrorKind::ForStepInvalid => "A32: Loop step must not be zero."@,
        ErrorKind::ForDirectionInvalid => "A33: Loop bounds and step must share one numeric type."@,
        ErrorKind::BadBooleanValue => "A35: Cannot convert value to boolean type."@,
        ErrorKind::DuplicateDecl => "A37: Constant with this name is already declared."@,
        ErrorKind::DuplicateProc => "A38: Procedure with this name is already declared."@,
        ErrorKind::BadLogicType => "A39: Invalid type for logical operation."@,
        ErrorKind::RedundantCast => "A40: Value is already of the target type."@,
        ErrorKind::BadTransCastDomain => "A41: This function is only defined for floats."@,
        ErrorKind::TypeMismatch => "A42: Argument type does not match parameter type."@,
        ErrorKind::DeclTypeMismatch => "A43: Expression type does not match the declared type."@,
        ErrorKind::StackUnderflow => "A15: Invalid expression."@,
    }
}

/// The catalogue text of each warning.
pub open spec fn spec_warning_text(k: WarningKind) -> Seq<char> {
    match k {
        WarningKind::RedundantConversion => "C01: Variable is already of the target type."@,
        WarningKind::InputReadFailure => "C02: Failed to read input"@,
    }
}

impl ErrorKind {
    pub fn code_text(&self) -> (r: String)
        ensures
            r@ == spec_code_text(*self),
    {
        match self {
            ErrorKind::NumericParseFail => "A02: Cannot convert value to numeric type.".to_owned(),
            ErrorKind::UnknownIdent => "A03: Requested variable does not exist.".to_owned(),
            ErrorKind::ExpectedAssignOperator => "A04: Expected assignment operator '=' after variable name.".to_owned(),
            ErrorKind::InvalidName => "A05: Invalid variable name.".to_owned(),
            ErrorKind::ConstReassign => "A07: Cannot modify a constant variable.".to_owned(),
            ErrorKind::UnbalancedParen => "A10: Unclosed bracket.".to_owned(),
            ErrorKind::InvalidExpression => "A15: Invalid expression.".to_owned(),
            ErrorKind::BadArithType => "A16: Invalid type for arithmetic operation.".to_owned(),
            ErrorKind::TopLevelOnlyInProc => "A20: Statements are only allowed inside procedures".to_owned(),
            ErrorKind::UnclosedString => "A21: Unclosed string.".to_owned(),
            ErrorKind::NoMainProc => "A22: Entry point procedure `main` not found.".to_owned(),
            ErrorKind::UnknownProc => "A24: Requested procedure does not exist.".to_owned(),
            ErrorKind::MissingExitCode => "A26: Expected code for exit.".to_owned(),
            ErrorKind::ArityMismatch => "A27: Arguments count do not match.".to_owned(),
            ErrorKind::ConstDelete => "A28: Cannot delete a constant variable.".to_owned(),
            ErrorKind::DivisionByZero => "A31: Division by zero.".to_owned(),
            ErrorKind::ForStepInvalid => "A32: Loop step must not be zero.".to_owned(),
            ErrorKind::ForDirectionInvalid => "A33: Loop bounds and step must share one numeric type.".to_owned(),
            ErrorKind::BadBooleanValue => "A35: Cannot convert value to boolean type.".to_owned(),
            ErrorKind::DuplicateDecl => "A37: Constant with this name is already declared.".to_owned(),
            ErrorKind::DuplicateProc => "A38: Procedure with this name is already declared.".to_owned(),
            ErrorKind::BadLogicType => "A39: Invalid type for logical operation.".to_owned(),
            ErrorKind::RedundantCast => "A40: Value is already of the target type.".to_owned(),
            ErrorKind::BadTransCastDomain => "A41: This function is only defined for floats.".to_owned(),
            ErrorKind::TypeMismatch => "A42: Argument type does not match parameter type.".to_owned(),
            ErrorKind::DeclTypeMismatch => "A43: Expression type does not match the declared type.".to_owned(),
            ErrorKind::StackUnderflow => "A15: Invalid expression.".to_owned(),
        }
    }
}

impl WarningKind {
    pub fn code_text(&self) -> (r: String)
        ensures
            r@ == spec_warning_text(*self),
    {
        match self {
            WarningKind::RedundantConversion => "C01: Variable is already of the target type.".to_owned(),
            WarningKind::InputReadFailure => "C02: Failed to read input".to_owned(),
        }
    }
}

/// A fatal diagnostic together with the index of the source line
/// (into the preprocessed file) that raised it.
#[derive(Clone, Copy, PartialEq, Eq, Structural, Debug)]
pub struct Diag {
    pub line: usize,
    pub kind: ErrorKind,
}

} // verus!
