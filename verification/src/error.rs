use vstd::prelude::*;

use crate::position::Position;

verus! {

/// The kinds of error that the lexer and the parser report.
#[derive(Debug)]
pub enum ErrorType {
    ExpectArguments(usize, usize),
    ExpectToken(String, String),
    ExpectType(String, String),
    Lexical(String),
    NameInUse(String, Position),
    UnknownIdentifier(String),
    UnknownPosition(Position),
    UnknownToken,
}

/// The mathematical value of an error kind: its texts as sequences of
/// characters.
pub enum ErrorTypeView {
    ExpectArguments(usize, usize),
    ExpectToken(Seq<char>, Seq<char>),
    ExpectType(Seq<char>, Seq<char>),
    Lexical(Seq<char>),
    NameInUse(Seq<char>, Position),
    UnknownIdentifier(Seq<char>),
    UnknownPosition(Position),
    UnknownToken,
}

impl View for ErrorType {
    type V = ErrorTypeView;

    open spec fn view(&self) -> ErrorTypeView {
        match self {
            ErrorType::ExpectArguments(expect, got) => ErrorTypeView::ExpectArguments(*expect, *got),
            ErrorType::ExpectToken(expect, got) => ErrorTypeView::ExpectToken(expect@, got@),
            ErrorType::ExpectType(expect, got) => ErrorTypeView::ExpectType(expect@, got@),
            ErrorType::Lexical(message) => ErrorTypeView::Lexical(message@),
            ErrorType::NameInUse(name, last) => ErrorTypeView::NameInUse(name@, *last),
            ErrorType::UnknownIdentifier(name) => ErrorTypeView::UnknownIdentifier(name@),
            ErrorType::UnknownPosition(position) => ErrorTypeView::UnknownPosition(*position),
            ErrorType::UnknownToken => ErrorTypeView::UnknownToken,
        }
    }
}

impl Clone for ErrorType {
    fn clone(&self) -> (t: Self)
        ensures
            t@ == self@,
    {
        match self {
            ErrorType::ExpectArguments(expect, got) => ErrorType::ExpectArguments(*expect, *got),
            ErrorType::ExpectToken(expect, got) => ErrorType::ExpectToken(expect.clone(), got.clone()),
            ErrorType::ExpectType(expect, got) => ErrorType::ExpectType(expect.clone(), got.clone()),
            ErrorType::Lexical(message) => ErrorType::Lexical(message.clone()),
            ErrorType::NameInUse(name, last) => ErrorType::NameInUse(name.clone(), *last),
            ErrorType::UnknownIdentifier(name) => ErrorType::UnknownIdentifier(name.clone()),
            ErrorType::UnknownPosition(position) => ErrorType::UnknownPosition(*position),
            ErrorType::UnknownToken => ErrorType::UnknownToken,
        }
    }
}

/// An error: what went wrong, and where in the source.
#[derive(Debug)]
pub struct Error {
    /// Position object.
    position: Position,
    // Error type object.
    error_type: ErrorType,
}

/// The mathematical value of an error.
pub struct ErrorView {
    pub position: Position,
    pub error_type: ErrorTypeView,
}

impl View for Error {
    type V = ErrorView;

    closed spec fn view(&self) -> ErrorView {
        ErrorView { position: self.position, error_type: self.error_type@ }
    }
}

impl Clone for Error {
    fn clone(&self) -> (e: Self)
        ensures
            e@ == self@,
    {
        Error { position: self.position, error_type: self.error_type.clone() }
    }
}

impl Error {
    /// Create a new error object using a position and an error type.
    pub fn new(position: Position, error_type: ErrorType) -> (e: Self)
        ensures
            e@ == (ErrorView { position, error_type: error_type@ }),
    {
        Error { position, error_type }
    }

    /// An error for a call that was given `got` arguments where `expect`
    /// were expected.
    pub fn new_expect_arguments(position: Position, expect: usize, got: usize) -> (e: Self)
        ensures
            e@ == (ErrorView { position, error_type: ErrorTypeView::ExpectArguments(expect, got) }),
    {
        Self::new(position, ErrorType::ExpectArguments(expect, got))
    }

    /// An error for a token `got` where the token `expect` was expected.
    pub fn new_expect_token(position: Position, expect: &str, got: &str) -> (e: Self)
        ensures
            e@ == (ErrorView { position, error_type: ErrorTypeView::ExpectToken(expect@, got@) }),
    {
        Self::new(position, ErrorType::ExpectToken(String::from_str(expect), String::from_str(got)))
    }

    /// An error for a value of data type `got` where the data type `expect`
    /// was expected.
    pub fn new_expect_type(position: Position, expect: &str, got: &str) -> (e: Self)
        ensures
            e@ == (ErrorView { position, error_type: ErrorTypeView::ExpectType(expect@, got@) }),
    {
        Self::new(position, ErrorType::ExpectType(String::from_str(expect), String::from_str(got)))
    }

    /// Create a new lexical error object using a position and a message.
    pub fn new_lexical(position: Position, message: &str) -> (e: Self)
        ensures
            e@ == (ErrorView { position, error_type: ErrorTypeView::Lexical(message@) }),
    {
        Self::new(position, ErrorType::Lexical(String::from_str(message)))
    }

    /// An error for a name that is not declared in the scope.
    pub fn new_unknown_identifier(position: Position, name: String) -> (e: Self)
        ensures
            e@ == (ErrorView { position, error_type: ErrorTypeView::UnknownIdentifier(name@) }),
    {
        Self::new(position, ErrorType::UnknownIdentifier(name))
    }

    /// An error for a position that cannot be recognized. The error itself
    /// stands at the start of the source (line 1, column 1); the position is
    /// kept in its kind.
    pub fn new_unknown_position(position: Position) -> (e: Self)
        ensures
            e@ == (ErrorView {
                position: Position { start_position: 0, end_position: 0, line: 1, column: 1 },
                error_type: ErrorTypeView::UnknownPosition(position),
            }),
    {
        Self::new(Position::new(0, 0, 1, 1), ErrorType::UnknownPosition(position))
    }

    /// An error for a token that cannot be recognized.
    pub fn new_unknown_token(position: Position) -> (e: Self)
        ensures
            e@ == (ErrorView { position, error_type: ErrorTypeView::UnknownToken }),
    {
        Self::new(position, ErrorType::UnknownToken)
    }

    /// Get the position object of the error.
    pub fn get_position(&self) -> (p: Position)
        ensures
            p == self@.position,
    {
        self.position
    }

    /// Get the error type object of the error.
    pub fn get_error_type(&self) -> (t: ErrorType)
        ensures
            t@ == self@.error_type,
    {
        self.error_type.clone()
    }
}

} // verus!
