//! Diagnostics: their kinds, their positions and their one-line rendering.

use crate::text::{decimal, push_decimal};
use vstd::prelude::*;

verus! {

/// The four kinds of diagnostic the language front end and evaluator emit.
#[derive(Debug, Clone, Copy, PartialEq, Eq, Structural)]
pub enum ErrorType {
    LexicalError,
    ParsingError,
    RuntimeError,
    TypeError,
}

impl ErrorType {
    /// The heading a diagnostic of this kind starts with.
    pub open spec fn spec_label(self) -> Seq<char> {
        match self {
            ErrorType::LexicalError => "Lexical error"@,
            ErrorType::ParsingError => "Syntax error"@,
            ErrorType::RuntimeError => "Runtime error"@,
            ErrorType::TypeError => "Type error"@,
        }
    }

    /// The heading a diagnostic of this kind starts with, as text.
    pub fn label(&self) -> (r: String)
        ensures
            r@ == self.spec_label(),
    {
        match self {
            ErrorType::LexicalError => "Lexical error".to_string(),
            ErrorType::ParsingError => "Syntax error".to_string(),
            ErrorType::RuntimeError => "Runtime error".to_string(),
            ErrorType::TypeError => "Type error".to_string(),
        }
    }
}

/// One diagnostic: what went wrong, and where in the source.
#[derive(Debug)]
pub struct ErrorDetails {
    error_type: ErrorType,
    message: String,
    line: i64,
    column: i64,
}

/// The mathematical content of an [`ErrorDetails`].
pub struct ErrorDetailsView {
    pub error_type: ErrorType,
    pub message: Seq<char>,
    pub line: int,
    pub column: int,
}

impl View for ErrorDetails {
    type V = ErrorDetailsView;

    closed spec fn view(&self) -> ErrorDetailsView {
        ErrorDetailsView {
            error_type: self.error_type,
            message: self.message@,
            line: self.line as int,
            column: self.column as int,
        }
    }
}

impl ErrorDetails {
    /// A diagnostic of `error_type` with `message`, at `line` and `column`.
    pub fn new(error_type: ErrorType, message: String, line: i64, column: i64) -> (r: Self)
        ensures
            r@ == (ErrorDetailsView {
                error_type,
                message: message@,
                line: line as int,
                column: column as int,
            }),
    {
        Self { error_type, message, line, column }
    }

    /// The kind of the diagnostic.
    pub fn error_type(&self) -> (r: ErrorType)
        ensures
            r == self@.error_type,
    {
        self.error_type
    }

    /// What went wrong.
    pub fn message(&self) -> (r: &str)
        ensures
            r@ == self@.message,
    {
        self.message.as_str()
    }

    /// The line of the source that the diagnostic is about.
    pub fn line(&self) -> (r: i64)
        ensures
            r as int == self@.line,
    {
        self.line
    }

    /// The column of the source that the diagnostic is about.
    pub fn column(&self) -> (r: i64)
        ensures
            r as int == self@.column,
    {
        self.column
    }
}

/// The line a diagnostic is reported as:
/// `<Kind> error at line <L>, column <C>: <message>.`
pub open spec fn report_line(details: ErrorDetailsView) -> Seq<char> {
    details.error_type.spec_label() + " at line "@ + decimal(details.line) + ", column "@
        + decimal(details.column) + ": "@ + details.message + "."@
}

/// Renders a diagnostic as the single line the host prints.
pub fn report_error(error_details: ErrorDetails) -> (r: String)
    ensures
        r@ == report_line(error_details@),
{
    let mut out = error_details.error_type.label();
    out.append(" at line ");
    push_decimal(&mut out, error_details.line);
    out.append(", column ");
    push_decimal(&mut out, error_details.column);
    out.append(": ");
    out.append(error_details.message.as_str());
    out.append(".");
    out
}

} // verus!
