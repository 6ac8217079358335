use vstd::prelude::*;

use crate::error::{Error, ErrorTypeView, ErrorView};
use crate::position::Position;
use crate::scan::{
    char_at, column_of, is_blank, is_decimal_digits, is_number_char, is_quote, is_word_char,
    is_word_start, lemma_lex_stop, lemma_line_bounds, lemma_line_step, lemma_next_token_progress, lemma_run_end,
    lex_from, line_of, msg_invalid_number, msg_open_quote, next_token, number_end, prepend,
    skip_blanks, span, string_end, word_end,
};
use crate::text::{is_alphabetic, is_numeric, push_char};
use crate::token::{word_token, Tok, TokView, Token, TokenView};

verus! {

/// The lexer: it reads the source one character at a time, looking one
/// character ahead, and keeps the line and the column of the character it
/// stands at.
#[derive(Clone, Debug)]
pub struct Lexer {
    content: Vec<char>,
    current_line: usize,
    current_column: usize,
    current_position: usize,
    current_character: Option<char>,
    next_position: usize,
    next_character: Option<char>,
}

/// The outcome of one step of lexing, as a value.
pub open spec fn tok_result_view(r: Result<Tok, Error>) -> Result<TokView, ErrorView> {
    match r {
        Ok(t) => Ok(t@),
        Err(e) => Err(e@),
    }
}

/// The outcome of lexing, as a value.
pub open spec fn tokens_view(r: Result<Vec<Tok>, Error>) -> Result<Seq<TokView>, ErrorView> {
    match r {
        Ok(v) => Ok(v@.map_values(|t: Tok| t@)),
        Err(e) => Err(e@),
    }
}

impl Lexer {
    /// The source that the lexer reads.
    pub closed spec fn source(&self) -> Seq<char> {
        self.content@
    }

    /// The index of the character that the lexer stands at.
    pub closed spec fn offset(&self) -> nat {
        self.current_position as nat
    }

    /// The character it stands at, and the next one, are those of the source.
    closed spec fn reading(&self) -> bool {
        &&& self.content@.len() + 8 < usize::MAX
        &&& self.next_position == self.current_position + 2
        &&& self.current_character == char_at(self.content@, self.current_position as int)
        &&& self.next_character == char_at(self.content@, self.current_position + 1int)
    }

    /// The lexer is well formed: besides reading the source, it keeps the
    /// line and the column of the character it stands at.
    pub closed spec fn wf(&self) -> bool {
        &&& self.reading()
        &&& self.current_line == line_of(self.content@, self.current_position as nat)
        &&& self.current_column == column_of(self.content@, self.current_position as nat)
        &&& self.current_line <= self.current_position + 1
        &&& self.current_column <= self.current_position + 1
    }

    /// Read the next character of the content and return the current character.
    fn read_next_character(&mut self) -> (c: Option<char>)
        requires
            old(self).current_position < usize::MAX,
            old(self).next_position < usize::MAX,
            old(self).current_column < usize::MAX,
        ensures
            final(self).content == old(self).content,
            c == old(self).current_character,
            final(self).current_character == old(self).next_character,
            final(self).next_character == char_at(old(self).content@, old(self).next_position as int),
            final(self).current_position == old(self).current_position + 1,
            final(self).next_position == old(self).next_position + 1,
            final(self).current_column == old(self).current_column + 1,
            final(self).current_line == old(self).current_line,
            old(self).wf() && old(self).current_character != Some('\n') ==> final(self).wf(),
            old(self).reading() && old(self).current_character == Some('\n')
                && old(self).current_line == line_of(
                old(self).content@,
                old(self).current_position as nat,
            ) + 1 && old(self).current_column == 0 ==> final(self).wf(),
    {
        proof {
            lemma_line_step(self.content@, self.current_position as nat);
            lemma_line_bounds(self.content@, (self.current_position + 1) as nat);
        }
        // Get the current character.
        let current_character = self.current_character;

        // Replace the current character with the next character.
        self.current_character = self.next_character;

        // Get the character of the next position and replace the next character with it.
        self.next_character = if self.next_position < self.content.len() {
            Some(self.content[self.next_position])
        } else {
            None
        };

        // Append one to the current position.
        self.current_position += 1;

        // Append one to the next position.
        self.next_position += 1;

        // Append one to the current column.
        self.current_column += 1;

        // Return the current character copy.
        current_character
    }

    /// Ignore the whitespaces of the content.
    fn skip_whitespaces(&mut self)
        requires
            old(self).wf(),
            old(self).offset() + 4 < usize::MAX,
        ensures
            final(self).wf(),
            final(self).source() == old(self).source(),
            final(self).offset() == skip_blanks(old(self).source(), old(self).offset()),
    {
        let ghost s = self.content@;
        let ghost start = self.current_position as nat;
        proof {
            lemma_run_end(s, start, |c: Option<char>| is_blank(c));
        }
        // Check if the current character is a whitespace.
        while matches!(self.current_character, Some(' ') | Some('\t'))
            invariant
                self.wf(),
                self.content@ == s,
                start <= self.current_position <= skip_blanks(s, start),
                skip_blanks(s, self.current_position as nat) == skip_blanks(s, start),
                self.current_position + 4 < usize::MAX,
            decreases s.len() - self.current_position,
        {
            proof {
                lemma_run_end(s, self.current_position as nat, |c: Option<char>| is_blank(c));
                lemma_line_bounds(s, self.current_position as nat);
            }
            // Read the next character.
            self.read_next_character();
        }
    }

    /// Check if the current character is a number.
    fn is_number_begin(&self) -> (b: bool)
        ensures
            b == is_number_char(self.current_character),
            b ==> self.current_character != Some('\n'),
    {
        // Check if the current character exists and is a number.
        match self.current_character {
            Some(c) => is_numeric(c),
            None => false,
        }
    }

    /// Check if the current character is a letter or an underscore.
    fn is_identifier_begin(&self) -> (b: bool)
        ensures
            b == is_word_start(self.current_character),
            b ==> self.current_character != Some('\n'),
    {
        match self.current_character {
            // Check if the current character exists and is a letter, or is an underscore.
            Some(c) => is_alphabetic(c) || c == '_',
            None => false,
        }
    }

    /// Check if the current character is a single quote or a double quote.
    fn is_string_begin(&self) -> (b: bool)
        ensures
            b == is_quote(self.current_character),
    {
        matches!(self.current_character, Some('\'') | Some('"'))
    }

    /// Whether the current character is `c`.
    fn current_is(&self, c: char) -> (b: bool)
        ensures
            b == (self.current_character == Some(c)),
    {
        match self.current_character {
            Some(d) => d == c,
            None => false,
        }
    }

    /// Read a number: the longest run of numeric characters. It is a number
    /// token where the run is made of decimal digits, and an error otherwise.
    fn read_number(&mut self) -> (r: Result<Token, Error>)
        requires
            old(self).wf(),
            old(self).offset() + 4 < usize::MAX,
            is_number_char(old(self).current_character),
        ensures
            final(self).wf(),
            final(self).source() == old(self).source(),
            ({
                let s = old(self).source();
                let p = old(self).offset();
                let e = number_end(s, p);
                &&& final(self).offset() == e
                &&& if is_decimal_digits(s.subrange(p as int, e as int)) {
                    r matches Ok(t) && t@ == TokenView::Num(s.subrange(p as int, e as int))
                } else {
                    r matches Err(err) && err@ == (ErrorView {
                        position: span(s, p, e),
                        error_type: ErrorTypeView::Lexical(msg_invalid_number()),
                    })
                }
            }),
    {
        let ghost s = self.content@;
        let ghost p = self.current_position as nat;
        proof {
            lemma_run_end(s, p, |c: Option<char>| is_number_char(c));
            lemma_line_bounds(s, p);
        }
        let mut position = Position::new(
            self.current_position,
            self.current_position,
            self.current_line,
            self.current_column,
        );

        // Initialize an empty value.
        let mut value = String::new();
        let mut digits = true;

        while self.is_number_begin()
            invariant
                self.wf(),
                self.content@ == s,
                p <= self.current_position <= number_end(s, p),
                number_end(s, self.current_position as nat) == number_end(s, p),
                number_end(s, p) <= s.len(),
                value@ == s.subrange(p as int, self.current_position as int),
                digits == (forall|i: int| 0 <= i < value@.len() ==> '0' <= #[trigger] value@[i] <= '9'),
                position == span(s, p, p),
            decreases s.len() - self.current_position,
        {
            proof {
                lemma_run_end(s, self.current_position as nat, |c: Option<char>| is_number_char(c));
                lemma_line_bounds(s, self.current_position as nat);
            }
            // Append the current character to the value and read the next character.
            let c = self.read_next_character().unwrap();
            digits = digits && '0' <= c && c <= '9';
            let ghost before = value@;
            push_char(&mut value, c);
            assert(value@ =~= s.subrange(p as int, self.current_position as int));
            assert(digits == (forall|i: int| 0 <= i < value@.len() ==> '0' <= #[trigger] value@[i] <= '9')) by {
                if digits {
                    assert forall|i: int| 0 <= i < value@.len() implies '0' <= #[trigger] value@[i] <= '9' by {
                        if i < before.len() {
                            assert(value@[i] == before[i]);
                        }
                    }
                } else {
                    if '0' <= c && c <= '9' {
                        let i = choose|i: int| 0 <= i < before.len() && !('0' <= #[trigger] before[i] <= '9');
                        assert(value@[i] == before[i]);
                    } else {
                        assert(value@[before.len() as int] == c);
                    }
                }
            }
        }
        proof {
            lemma_run_end(s, self.current_position as nat, |c: Option<char>| is_number_char(c));
        }

        if digits {
            // Return the number.
            return Ok(Token::Num(value));
        }

        // Set the end position of the initial position as the current position.
        position.set_end_position(self.current_position);

        // Return an error.
        Err(Error::new_lexical(position, "Invalid number expression."))
    }

    /// Read a word: the longest run of letters, underscores and numeric
    /// characters. It is a keyword where it is one, else an identifier.
    fn read_identifier_or_keyword(&mut self) -> (t: Token)
        requires
            old(self).wf(),
            old(self).offset() + 4 < usize::MAX,
            is_word_start(old(self).current_character),
        ensures
            final(self).wf(),
            final(self).source() == old(self).source(),
            final(self).offset() == word_end(old(self).source(), old(self).offset()),
            t@ == word_token(
                old(self).source().subrange(
                    old(self).offset() as int,
                    word_end(old(self).source(), old(self).offset()) as int,
                ),
            ),
    {
        let ghost s = self.content@;
        let ghost p = self.current_position as nat;
        proof {
            lemma_run_end(s, p, |c: Option<char>| is_word_char(c));
        }
        // Initialize an empty value.
        let mut value = String::new();

        // Check if the current character is the begin of an identifier or a number.
        while self.is_identifier_begin() || self.is_number_begin()
            invariant
                self.wf(),
                self.content@ == s,
                p <= self.current_position <= word_end(s, p),
                word_end(s, self.current_position as nat) == word_end(s, p),
                word_end(s, p) <= s.len(),
                value@ == s.subrange(p as int, self.current_position as int),
            decreases s.len() - self.current_position,
        {
            proof {
                lemma_run_end(s, self.current_position as nat, |c: Option<char>| is_word_char(c));
                lemma_line_bounds(s, self.current_position as nat);
            }
            // Append the current character to the value and read the next character.
            let c = self.read_next_character().unwrap();
            push_char(&mut value, c);
            assert(value@ =~= s.subrange(p as int, self.current_position as int));
        }
        proof {
            lemma_run_end(s, self.current_position as nat, |c: Option<char>| is_word_char(c));
        }

        // Get the identifier or keyword token.
        Token::get_identifier_or_keyword(value)
    }

    /// Read a string: the characters between the quote at the current
    /// character and the next same quote on the line. It is an error where
    /// the line or the source ends first.
    fn read_string(&mut self, quote: char) -> (r: Result<Token, Error>)
        requires
            old(self).wf(),
            old(self).offset() + 4 < usize::MAX,
            old(self).current_character == Some(quote),
            is_quote(Some(quote)),
        ensures
            final(self).wf(),
            final(self).source() == old(self).source(),
            ({
                let s = old(self).source();
                let p = old(self).offset();
                let e = string_end(s, p + 1, quote);
                &&& final(self).offset() == e
                &&& if char_at(s, e as int) == Some(quote) {
                    r matches Ok(t) && t@ == TokenView::Str(s.subrange(p + 1int, e as int))
                } else {
                    r matches Err(err) && err@ == (ErrorView {
                        position: span(s, p, p),
                        error_type: ErrorTypeView::Lexical(msg_open_quote()),
                    })
                }
            }),
    {
        let ghost s = self.content@;
        let ghost p = self.current_position as nat;
        proof {
            lemma_run_end(s, p + 1, |c: Option<char>| c != Some(quote) && c != Some('\n'));
            lemma_line_bounds(s, p);
        }
        let position = Position::new(
            self.current_position,
            self.current_position,
            self.current_line,
            self.current_column,
        );

        // Initialize an empty value.
        let mut value = String::new();

        // Read the next character.
        self.read_next_character();

        // Check if the current character is not the initial quote.
        while !self.current_is(quote)
            invariant
                self.wf(),
                self.content@ == s,
                p + 1 <= self.current_position <= string_end(s, p + 1, quote),
                string_end(s, self.current_position as nat, quote) == string_end(s, p + 1, quote),
                string_end(s, p + 1, quote) <= s.len(),
                value@ == s.subrange(p + 1int, self.current_position as int),
                position == span(s, p, p),
                s == old(self).source(),
                p == old(self).offset(),
            decreases s.len() - self.current_position,
        {
            proof {
                lemma_run_end(
                    s,
                    self.current_position as nat,
                    |c: Option<char>| c != Some(quote) && c != Some('\n'),
                );
                lemma_line_bounds(s, self.current_position as nat);
            }
            // Check if the current character is an end of line or does not exist.
            if matches!(self.current_character, Some('\n') | None) {
                // Return an error.
                return Err(Error::new_lexical(position, "You need to close the quote."));
            }
            // Append the current character and read the next character.
            let c = self.read_next_character().unwrap();
            push_char(&mut value, c);
            assert(value@ =~= s.subrange(p + 1int, self.current_position as int));
        }
        proof {
            lemma_run_end(
                s,
                self.current_position as nat,
                |c: Option<char>| c != Some(quote) && c != Some('\n'),
            );
        }

        // Return the str token.
        Ok(Token::Str(value))
    }

    /// Read the next token, after the spaces and tabs that stand before it.
    fn get_next_token(&mut self) -> (r: Result<Tok, Error>)
        requires
            old(self).wf(),
            old(self).offset() + 4 < usize::MAX,
        ensures
            final(self).wf(),
            final(self).source() == old(self).source(),
            tok_result_view(r) == next_token(old(self).source(), old(self).offset()).0,
            final(self).offset() == next_token(old(self).source(), old(self).offset()).1,
    {
        let ghost s = self.content@;
        proof {
            lemma_run_end(s, self.current_position as nat, |c: Option<char>| is_blank(c));
        }
        // Ignore the whitespaces.
        self.skip_whitespaces();

        // Initialize the position of the token.
        let mut position = Position::new(
            self.current_position,
            self.current_position,
            self.current_line,
            self.current_column,
        );

        let mut read_before = true;

        // Get the current character.
        let token = match self.current_character {
            // Check if the current character is a dot.
            Some('.') => Token::Dot,
            // Check if the current character is a comma.
            Some(',') => Token::Comma,
            // Check if the current character is a colon.
            Some(':') => Token::Colon,
            // Check if the current character is a semicolon.
            Some(';') => Token::Semicolon,
            // Check if the current character is a equal and get the next character.
            Some('=') => match self.next_character {
                // Check if the next character is an equal.
                Some('=') => {
                    // Read the next character.
                    self.read_next_character();
                    Token::DoubleEqual
                },
                // Is other character.
                _ => Token::Equal,
            },
            // Check if the current character is a not and get the next character.
            Some('!') => match self.next_character {
                // Check if the next character is an equal.
                Some('=') => {
                    // Read the next character.
                    self.read_next_character();
                    Token::NotEqual
                },
                // Is other character.
                _ => Token::Not,
            },
            // Check if the current character is a plus and get the next character.
            Some('+') => match self.next_character {
                // Check if the next character is an equal.
                Some('=') => {
                    // Read the next character.
                    self.read_next_character();
                    Token::PlusEqual
                },
                // Is other character.
                _ => Token::Plus,
            },
            // Check if the current character is a minus and get the next character.
            Some('-') => match self.next_character {
                // Check if the next character is an equal.
                Some('=') => {
                    // Read the next character.
                    self.read_next_character();
                    Token::MinusEqual
                },
                // Is other character.
                _ => Token::Minus,
            },
            // Check if the current character is a star and get the next character.
            Some('*') => match self.next_character {
                // Check if the next character is an equal.
                Some('=') => {
                    // Read the next character.
                    self.read_next_character();
                    Token::StarEqual
                },
                // Check if the next character is a star.
                Some('*') => {
                    // Read the next character.
                    self.read_next_character();
                    // Get the next character.
                    match self.next_character {
                        // Check if the next character is an equal.
                        Some('=') => {
                            // Read the next character.
                            self.read_next_character();
                            Token::DoubleStarEqual
                        },
                        // Is other character.
                        _ => Token::DoubleStar,
                    }
                },
                // Is other character.
                _ => Token::Star,
            },
            // Check if the current character is a slash and get the next character.
            Some('/') => match self.next_character {
                // Check if the next character is an equal.
                Some('=') => {
                    // Read the next character.
                    self.read_next_character();
                    Token::SlashEqual
                },
                // Is other character.
                _ => Token::Slash,
            },
            // Check if the current character is a percent and get the next character.
            Some('%') => match self.next_character {
                // Check if the next character is an equal.
                Some('=') => {
                    // Read the next character.
                    self.read_next_character();
                    Token::PercentEqual
                },
                // Is other character.
                _ => Token::Percent,
            },
            // Check if the current character is a less and get the next character.
            Some('<') => match self.next_character {
                // Check if the next character is an equal.
                Some('=') => {
                    // Read the next character.
                    self.read_next_character();
                    Token::LessEqual
                },
                // Is other character.
                _ => Token::Less,
            },
            // Check if the current character is a greater and get the next character.
            Some('>') => match self.next_character {
                // Check if the next character is an equal.
                Some('=') => {
                    // Read the next character.
                    self.read_next_character();
                    Token::GreaterEqual
                },
                // Is other character.
                _ => Token::Greater,
            },
            // Check if the current character is a left parentheses.
            Some('(') => Token::LeftParentheses,
            // Check if the current character is a right parentheses.
            Some(')') => Token::RightParentheses,
            // Check if the current character is a left brace.
            Some('{') => Token::LeftBrace,
            // Check if the current character is a right brace.
            Some('}') => Token::RightBrace,
            // Check if the current character is a left bracket.
            Some('[') => Token::LeftBracket,
            // Check if the current character is a right bracket.
            Some(']') => Token::RightBracket,
            // Check if the current character is a vertical bar and get the next character.
            Some('|') => match self.next_character {
                // Check if the next character is a vertical bar.
                Some('|') => {
                    // Read the next character.
                    self.read_next_character();
                    Token::DoubleVBar
                },
                // Is other character.
                _ => {
                    return Err(
                        Error::new_lexical(position, "Maybe do you wish to use `||` instead of `|`?"),
                    );
                },
            },
            // Check if the current character is an amper and get the next character.
            Some('&') => match self.next_character {
                // Check if the next character is an amper.
                Some('&') => {
                    // Read the next character.
                    self.read_next_character();
                    Token::DoubleAmper
                },
                // Is other character.
                _ => {
                    return Err(
                        Error::new_lexical(position, "Maybe do you wish to use `&&` instead of `&`?"),
                    );
                },
            },
            // Check if the current character is an end of line.
            Some('\n') => {
                // Append one to the current line.
                self.current_line += 1;
                // Set the current column to zero.
                self.current_column = 0;
                Token::EndOfLine
            },
            // Check if the current character is none.
            None => Token::EndOfFile,
            // Is not a sign.
            _ => {
                // Check if the current character is the begin of a number.
                if self.is_number_begin() {
                    read_before = false;
                    match self.read_number() {
                        Ok(token) => token,
                        Err(error) => {
                            return Err(error);
                        },
                    }
                }
                // Check if the current character is the begin of an identifier.
                 else if self.is_identifier_begin() {
                    read_before = false;
                    self.read_identifier_or_keyword()
                }
                // Check if the current character is the begin of a string.
                 else if self.is_string_begin() {
                    let quote = self.current_character.unwrap();
                    match self.read_string(quote) {
                        Ok(token) => token,
                        Err(error) => {
                            return Err(error);
                        },
                    }
                }
                // Is not a valid character.
                 else {
                    return Err(Error::new_lexical(position, "Unknown character."));
                }
            },
        };

        if read_before {
            // Read the next character.
            self.read_next_character();
        }

        // Set the end position of the initial position as the current position.
        position.set_end_position(self.current_position);

        // Return the tok object.
        Ok(Tok::from_parts(position, token))
    }

    /// # Lexing
    /// Get the tokens of the file or an error: the tokens up to and including
    /// the end of the file, or the first lexical error.
    pub fn run(&mut self) -> (r: Result<Vec<Tok>, Error>)
        requires
            old(self).wf(),
            old(self).offset() + 4 < usize::MAX,
        ensures
            final(self).wf(),
            final(self).source() == old(self).source(),
            tokens_view(r) == lex_from(old(self).source(), old(self).offset()).0,
            final(self).offset() == lex_from(old(self).source(), old(self).offset()).1,
            final(self).offset() <= if old(self).offset() <= old(self).source().len() {
                old(self).source().len() + 1
            } else {
                old(self).offset() + 1
            },
    {
        let ghost s = self.content@;
        let ghost start = self.current_position as nat;
        proof {
            lemma_lex_stop(s, start);
        }

        // Initialize the tokens list.
        let mut tokens: Vec<Tok> = Vec::new();

        loop
            invariant_except_break
                self.wf(),
                self.content@ == s,
                s == old(self).source(),
                start == old(self).offset(),
                self.current_position + 4 < usize::MAX,
                lex_from(s, start).1 <= if start <= s.len() {
                    s.len() + 1
                } else {
                    start + 1
                },
                prepend(tokens@.map_values(|t: Tok| t@), lex_from(s, self.current_position as nat))
                    == lex_from(s, start),
            ensures
                self.wf(),
                self.content@ == s,
                lex_from(s, start) == (
                    Ok::<Seq<TokView>, ErrorView>(tokens@.map_values(|t: Tok| t@)),
                    self.current_position as nat,
                ),
            decreases s.len() - self.current_position,
        {
            let ghost cp = self.current_position as nat;
            let ghost before = tokens@.map_values(|t: Tok| t@);
            proof {
                lemma_next_token_progress(s, cp);
            }
            // Get the next token or an error.
            let token = match self.get_next_token() {
                Ok(token) => token,
                Err(error) => {
                    return Err(error);
                },
            };
            let is_end = token.is_end_of_file();
            let ghost t = token@;

            // Append the token to the tokens list.
            tokens.push(token);
            assert(tokens@.map_values(|t: Tok| t@) =~= before.push(t));

            // Check if the token is the end of file.
            if is_end {
                assert(before + seq![t] =~= before.push(t));
                break;
            }
            assert(before + (seq![t] + lex_from(s, self.current_position as nat).0->Ok_0)
                =~= before.push(t) + lex_from(s, self.current_position as nat).0->Ok_0);
        }

        // Return the tokens list.
        Ok(tokens)
    }

    /// Create a new lexer object and read the first two characters.
    pub fn new(content: String) -> (lexer: Self)
        requires
            content@.len() + 8 < usize::MAX,
        ensures
            lexer.wf(),
            lexer.source() == content@,
            lexer.offset() == 0,
    {
        // Create a new mutable lexer object.
        let mut lexer = Self {
            content: chars_of(&content),
            current_line: 1,
            current_column: 1,
            current_position: 0,
            current_character: None,
            next_position: 0,
            next_character: None,
        };

        // Read the next character.
        lexer.read_next_character();

        // Read the next character.
        lexer.read_next_character();

        // Set the current position to zero.
        lexer.current_position = 0;

        // Set the current column to one.
        lexer.current_column = 1;

        // Return the lexer object.
        lexer
    }
}

/// The characters of a string, in order.
fn chars_of(s: &String) -> (v: Vec<char>)
    ensures
        v@ == s@,
{
    let text = s.as_str();
    let n = text.unicode_len();
    let mut v: Vec<char> = Vec::new();
    for i in 0..n
        invariant
            n == text@.len(),
            text@ == s@,
            v@ == text@.take(i as int),
    {
        v.push(text.get_char(i));
        assert(v@ =~= text@.take(i + 1));
    }
    assert(text@.take(n as int) =~= text@);
    v
}

} // verus!
