//! The two kinds of failure, and what each carries.
use crate::text::decimal;
use crate::text::push_decimal;
use vstd::prelude::*;
use vstd::string::StringExecFns;

verus! {

/// What went wrong, and where: a line, the text it happened at, a message.
#[derive(Debug, Clone)]
pub struct Error {
    line: u32,
    message: String,
    where_: String,
}

/// What an [`Error`] stands for.
pub struct ErrorValue {
    pub line: u32,
    pub place: Seq<char>,
    pub message: Seq<char>,
}

impl View for Error {
    type V = ErrorValue;

    closed spec fn view(&self) -> ErrorValue {
        ErrorValue { line: self.line, place: self.where_@, message: self.message@ }
    }
}

/// The one-line report of an error: the message in quotes, the line, the place.
pub open spec fn report_text(e: ErrorValue) -> Seq<char> {
    seq!['"'] + e.message + "\" at line: "@ + decimal(e.line as nat) + " in "@ + e.place
}

impl Error {
    /// An error on `line`, at the text `where_`, with `message`.
    pub fn new(line: u32, where_: String, message: String) -> (r: Self)
        ensures
            r@ == (ErrorValue { line, place: where_@, message: message@ }),
    {
        Self { line, message, where_ }
    }

    /// The line the error was found on.
    pub fn line(&self) -> (r: u32)
        ensures
            r == self@.line,
    {
        self.line
    }

    /// The message.
    pub fn message(&self) -> (r: &str)
        ensures
            r@ == self@.message,
    {
        self.message.as_str()
    }

    /// The text at which the error was found.
    pub fn place(&self) -> (r: &str)
        ensures
            r@ == self@.place,
    {
        self.where_.as_str()
    }

    /// The one-line report of the error.
    pub fn to_string(&self) -> (r: String)
        ensures
            r@ == report_text(self@),
    {
        let mut s = String::new();
        s.push('"');
        s.append(self.message.as_str());
        s.append("\" at line: ");
        push_decimal(&mut s, self.line);
        s.append(" in ");
        s.append(self.where_.as_str());
        assert(s@ == report_text(self@));
        s
    }
}

/// A failure of the parser or of the interpreter.
#[derive(Debug, Clone)]
pub enum JBreadErrors {
    /// The tokens do not match the grammar.
    ParseError(Error),
    /// A well-formed program did what its values do not allow.
    RunTimeException(Error),
}

/// What a [`JBreadErrors`] stands for.
pub enum Failure {
    ParseError(ErrorValue),
    RunTimeException(ErrorValue),
}

impl Failure {
    /// What the failure carries.
    pub open spec fn error(self) -> ErrorValue {
        match self {
            Failure::ParseError(e) => e,
            Failure::RunTimeException(e) => e,
        }
    }
}

impl View for JBreadErrors {
    type V = Failure;

    open spec fn view(&self) -> Failure {
        match self {
            JBreadErrors::ParseError(e) => Failure::ParseError(e@),
            JBreadErrors::RunTimeException(e) => Failure::RunTimeException(e@),
        }
    }
}

impl JBreadErrors {
    /// The one-line report of the failure.
    pub fn to_string(&self) -> (r: String)
        ensures
            r@ == report_text(self@.error()),
    {
        match self {
            JBreadErrors::ParseError(error) => error.to_string(),
            JBreadErrors::RunTimeException(error) => error.to_string(),
        }
    }
}

/// What the parser and the interpreter return.
pub type JBreadResult<T> = Result<T, JBreadErrors>;

} // verus!
