use std::ops::Range;
use vstd::prelude::*;

verus! {

/// A diagnostic of the macro parser: the source text it was parsing, what
/// went wrong, and where (the start and end offsets of the offending token).
#[derive(Debug, PartialEq, Eq)]
pub struct ParserError {
    pub input: String,
    pub message: String,
    pub line: usize,
    pub column: usize,
}

/// The mathematical content of a [`ParserError`].
pub struct ParserErrorView {
    pub input: Seq<char>,
    pub message: Seq<char>,
    pub line: usize,
    pub column: usize,
}

impl View for ParserError {
    type V = ParserErrorView;

    open spec fn view(&self) -> ParserErrorView {
        ParserErrorView {
            input: self.input@,
            message: self.message@,
            line: self.line,
            column: self.column,
        }
    }
}

/// The contents of a list of parser diagnostics, in order.
pub open spec fn error_views(errors: Seq<ParserError>) -> Seq<ParserErrorView> {
    errors.map_values(|e: ParserError| e@)
}

/// The diagnostic that the parser records for the token at `span`.
pub open spec fn parser_error_at(
    input: Seq<char>,
    message: Seq<char>,
    span: Range<usize>,
) -> ParserErrorView {
    ParserErrorView { input, message, line: span.start, column: span.end }
}

/// A diagnostic of the directive pass: the file and span of the offending
/// token, and what went wrong.
#[derive(Debug, PartialEq, Eq)]
pub struct DirectiveError {
    pub filename: String,
    pub span: Range<usize>,
    pub message: String,
}

/// The mathematical content of a [`DirectiveError`].
pub struct DirectiveErrorView {
    pub filename: Seq<char>,
    pub span: Range<usize>,
    pub message: Seq<char>,
}

impl View for DirectiveError {
    type V = DirectiveErrorView;

    open spec fn view(&self) -> DirectiveErrorView {
        DirectiveErrorView { filename: self.filename@, span: self.span, message: self.message@ }
    }
}

/// The contents of a list of directive diagnostics, in order.
pub open spec fn directive_error_views(errors: Seq<DirectiveError>) -> Seq<DirectiveErrorView> {
    errors.map_values(|e: DirectiveError| e@)
}

} // verus!
