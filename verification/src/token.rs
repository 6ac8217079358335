use vstd::prelude::*;

use crate::position::Position;

verus! {

/// A token of the source language.
///
/// A number is kept as the text of its decimal digits, exactly as it stands
/// in the source, not as a floating-point value: numbers of equal value that
/// are written differently, such as `007` and `7`, are different tokens.
#[derive(Debug, PartialEq)]
pub enum Token {
    Num(String),
    Str(String),
    Identifier(String),
    Let,
    Const,
    Func,
    Return,
    If,
    Else,
    Dot,
    Comma,
    Colon,
    Semicolon,
    Equal,
    DoubleEqual,
    Not,
    NotEqual,
    Plus,
    PlusEqual,
    Minus,
    MinusEqual,
    Star,
    StarEqual,
    DoubleStar,
    DoubleStarEqual,
    Slash,
    SlashEqual,
    Percent,
    PercentEqual,
    Less,
    LessEqual,
    Greater,
    GreaterEqual,
    LeftParentheses,
    RightParentheses,
    LeftBrace,
    RightBrace,
    LeftBracket,
    RightBracket,
    DoubleVBar,
    DoubleAmper,
    EndOfLine,
    EndOfFile,
}

/// The mathematical value of a token: its text, where it has one, as a
/// sequence of characters.
pub enum TokenView {
    Num(Seq<char>),
    Str(Seq<char>),
    Identifier(Seq<char>),
    Let,
    Const,
    Func,
    Return,
    If,
    Else,
    Dot,
    Comma,
    Colon,
    Semicolon,
    Equal,
    DoubleEqual,
    Not,
    NotEqual,
    Plus,
    PlusEqual,
    Minus,
    MinusEqual,
    Star,
    StarEqual,
    DoubleStar,
    DoubleStarEqual,
    Slash,
    SlashEqual,
    Percent,
    PercentEqual,
    Less,
    LessEqual,
    Greater,
    GreaterEqual,
    LeftParentheses,
    RightParentheses,
    LeftBrace,
    RightBrace,
    LeftBracket,
    RightBracket,
    DoubleVBar,
    DoubleAmper,
    EndOfLine,
    EndOfFile,
}

impl View for Token {
    type V = TokenView;

    open spec fn view(&self) -> TokenView {
        match self {
            Token::Num(s) => TokenView::Num(s@),
            Token::Str(s) => TokenView::Str(s@),
            Token::Identifier(s) => TokenView::Identifier(s@),
            Token::Let => TokenView::Let,
            Token::Const => TokenView::Const,
            Token::Func => TokenView::Func,
            Token::Return => TokenView::Return,
            Token::If => TokenView::If,
            Token::Else => TokenView::Else,
            Token::Dot => TokenView::Dot,
            Token::Comma => TokenView::Comma,
            Token::Colon => TokenView::Colon,
            Token::Semicolon => TokenView::Semicolon,
            Token::Equal => TokenView::Equal,
            Token::DoubleEqual => TokenView::DoubleEqual,
            Token::Not => TokenView::Not,
            Token::NotEqual => TokenView::NotEqual,
            Token::Plus => TokenView::Plus,
            Token::PlusEqual => TokenView::PlusEqual,
            Token::Minus => TokenView::Minus,
            Token::MinusEqual => TokenView::MinusEqual,
            Token::Star => TokenView::Star,
            Token::StarEqual => TokenView::StarEqual,
            Token::DoubleStar => TokenView::DoubleStar,
            Token::DoubleStarEqual => TokenView::DoubleStarEqual,
            Token::Slash => TokenView::Slash,
            Token::SlashEqual => TokenView::SlashEqual,
            Token::Percent => TokenView::Percent,
            Token::PercentEqual => TokenView::PercentEqual,
            Token::Less => TokenView::Less,
            Token::LessEqual => TokenView::LessEqual,
            Token::Greater => TokenView::Greater,
            Token::GreaterEqual => TokenView::GreaterEqual,
            Token::LeftParentheses => TokenView::LeftParentheses,
            Token::RightParentheses => TokenView::RightParentheses,
            Token::LeftBrace => TokenView::LeftBrace,
            Token::RightBrace => TokenView::RightBrace,
            Token::LeftBracket => TokenView::LeftBracket,
            Token::RightBracket => TokenView::RightBracket,
            Token::DoubleVBar => TokenView::DoubleVBar,
            Token::DoubleAmper => TokenView::DoubleAmper,
            Token::EndOfLine => TokenView::EndOfLine,
            Token::EndOfFile => TokenView::EndOfFile,
        }
    }
}

impl Clone for Token {
    fn clone(&self) -> (t: Self)
        ensures
            t@ == self@,
    {
        match self {
            Token::Num(s) => Token::Num(s.clone()),
            Token::Str(s) => Token::Str(s.clone()),
            Token::Identifier(s) => Token::Identifier(s.clone()),
            Token::Let => Token::Let,
            Token::Const => Token::Const,
            Token::Func => Token::Func,
            Token::Return => Token::Return,
            Token::If => Token::If,
            Token::Else => Token::Else,
            Token::Dot => Token::Dot,
            Token::Comma => Token::Comma,
            Token::Colon => Token::Colon,
            Token::Semicolon => Token::Semicolon,
            Token::Equal => Token::Equal,
            Token::DoubleEqual => Token::DoubleEqual,
            Token::Not => Token::Not,
            Token::NotEqual => Token::NotEqual,
            Token::Plus => Token::Plus,
            Token::PlusEqual => Token::PlusEqual,
            Token::Minus => Token::Minus,
            Token::MinusEqual => Token::MinusEqual,
            Token::Star => Token::Star,
            Token::StarEqual => Token::StarEqual,
            Token::DoubleStar => Token::DoubleStar,
            Token::DoubleStarEqual => Token::DoubleStarEqual,
            Token::Slash => Token::Slash,
            Token::SlashEqual => Token::SlashEqual,
            Token::Percent => Token::Percent,
            Token::PercentEqual => Token::PercentEqual,
            Token::Less => Token::Less,
            Token::LessEqual => Token::LessEqual,
            Token::Greater => Token::Greater,
            Token::GreaterEqual => Token::GreaterEqual,
            Token::LeftParentheses => Token::LeftParentheses,
            Token::RightParentheses => Token::RightParentheses,
            Token::LeftBrace => Token::LeftBrace,
            Token::RightBrace => Token::RightBrace,
            Token::LeftBracket => Token::LeftBracket,
            Token::RightBracket => Token::RightBracket,
            Token::DoubleVBar => Token::DoubleVBar,
            Token::DoubleAmper => Token::DoubleAmper,
            Token::EndOfLine => Token::EndOfLine,
            Token::EndOfFile => Token::EndOfFile,
        }
    }
}

/// How a token other than a string and the end of the file is written in
/// the source.
pub open spec fn spelling(t: TokenView) -> Seq<char> {
    match t {
        TokenView::Num(digits) => digits,
        TokenView::Identifier(word) => word,
        TokenView::Let => "let"@,
        TokenView::Const => "const"@,
        TokenView::Func => "func"@,
        TokenView::Return => "return"@,
        TokenView::If => "if"@,
        TokenView::Else => "else"@,
        TokenView::Dot => seq!['.'],
        TokenView::Comma => seq![','],
        TokenView::Colon => seq![':'],
        TokenView::Semicolon => seq![';'],
        TokenView::Equal => seq!['='],
        TokenView::DoubleEqual => seq!['=', '='],
        TokenView::Not => seq!['!'],
        TokenView::NotEqual => seq!['!', '='],
        TokenView::Plus => seq!['+'],
        TokenView::PlusEqual => seq!['+', '='],
        TokenView::Minus => seq!['-'],
        TokenView::MinusEqual => seq!['-', '='],
        TokenView::Star => seq!['*'],
        TokenView::StarEqual => seq!['*', '='],
        TokenView::DoubleStar => seq!['*', '*'],
        TokenView::DoubleStarEqual => seq!['*', '*', '='],
        TokenView::Slash => seq!['/'],
        TokenView::SlashEqual => seq!['/', '='],
        TokenView::Percent => seq!['%'],
        TokenView::PercentEqual => seq!['%', '='],
        TokenView::Less => seq!['<'],
        TokenView::LessEqual => seq!['<', '='],
        TokenView::Greater => seq!['>'],
        TokenView::GreaterEqual => seq!['>', '='],
        TokenView::LeftParentheses => seq!['('],
        TokenView::RightParentheses => seq![')'],
        TokenView::LeftBrace => seq!['{'],
        TokenView::RightBrace => seq!['}'],
        TokenView::LeftBracket => seq!['['],
        TokenView::RightBracket => seq![']'],
        TokenView::DoubleVBar => seq!['|', '|'],
        TokenView::DoubleAmper => seq!['&', '&'],
        TokenView::EndOfLine => seq!['\n'],
        TokenView::Str(_) => Seq::empty(),
        TokenView::EndOfFile => Seq::empty(),
    }
}

/// The token that a word of letters, digits and underscores stands for: a
/// keyword where the word is one, else an identifier.
pub open spec fn word_token(word: Seq<char>) -> TokenView {
    if word == "let"@ {
        TokenView::Let
    } else if word == "const"@ {
        TokenView::Const
    } else if word == "func"@ {
        TokenView::Func
    } else if word == "return"@ {
        TokenView::Return
    } else if word == "if"@ {
        TokenView::If
    } else if word == "else"@ {
        TokenView::Else
    } else {
        TokenView::Identifier(word)
    }
}

impl Token {
    /// The keyword token that a word stands for, or an identifier token that
    /// holds the word.
    pub fn get_identifier_or_keyword(value: String) -> (t: Token)
        ensures
            t@ == word_token(value@),
    {
        if value.eq(&String::from_str("let")) {
            Token::Let
        } else if value.eq(&String::from_str("const")) {
            Token::Const
        } else if value.eq(&String::from_str("func")) {
            Token::Func
        } else if value.eq(&String::from_str("return")) {
            Token::Return
        } else if value.eq(&String::from_str("if")) {
            Token::If
        } else if value.eq(&String::from_str("else")) {
            Token::Else
        } else {
            Token::Identifier(value)
        }
    }

    /// Whether the token marks the end of the file.
    pub fn is_end_of_file(&self) -> (b: bool)
        ensures
            b <==> self@ is EndOfFile,
    {
        match self {
            Token::EndOfFile => true,
            _ => false,
        }
    }
}

/// A token together with the span of the source that it was read from.
#[derive(Debug, PartialEq)]
pub struct Tok {
    position: Position,
    token: Token,
}

/// The mathematical value of a positioned token.
pub struct TokView {
    pub position: Position,
    pub token: TokenView,
}

impl View for Tok {
    type V = TokView;

    closed spec fn view(&self) -> TokView {
        TokView { position: self.position, token: self.token@ }
    }
}

impl Clone for Tok {
    fn clone(&self) -> (t: Self)
        ensures
            t@ == self@,
    {
        Tok { position: self.position, token: self.token.clone() }
    }
}

impl Tok {
    /// Create a positioned token from a position and a token.
    pub fn new(position: &Position, token: &Token) -> (t: Self)
        ensures
            t@ == (TokView { position: *position, token: token@ }),
    {
        Tok { position: *position, token: token.clone() }
    }

    /// Create a positioned token, taking the token itself.
    pub(crate) fn from_parts(position: Position, token: Token) -> (t: Self)
        ensures
            t@ == (TokView { position, token: token@ }),
    {
        Tok { position, token }
    }

    /// The span of the token.
    pub fn get_position(&self) -> (p: Position)
        ensures
            p == self@.position,
    {
        self.position
    }

    /// The token itself.
    pub fn get_token(&self) -> (t: Token)
        ensures
            t@ == self@.token,
    {
        self.token.clone()
    }

    /// Whether the token marks the end of the file.
    pub fn is_end_of_file(&self) -> (b: bool)
        ensures
            b <==> self@.token is EndOfFile,
    {
        self.token.is_end_of_file()
    }
}

} // verus!
