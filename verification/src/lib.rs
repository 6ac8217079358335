//! Lexing of the source language into positioned tokens, and the errors that
//! the lexer and the parser report, with a verified account of both.

pub mod diagnostic;
pub mod error;
pub mod laws;
pub mod lexer;
pub mod position;
pub mod scan;
pub mod text;
pub mod token;

pub use position::Position;
pub use token::{Tok, Token};
pub use error::{Error, ErrorType};
pub use lexer::Lexer;
