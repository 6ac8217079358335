use codespan_reporting::files::SimpleFile;
use parser::{Error, ErrorType, Lexer, Position, Tok, Token};

fn lex(source: &str) -> Result<Vec<Tok>, Error> {
    let mut lexer = Lexer::new(source.to_string());
    lexer.run()
}

fn tok(start: usize, length: usize, line: usize, column: usize, token: Token) -> Tok {
    let position = Position::new(start, start + length, line, column);
    Tok::new(&position, &token)
}

fn lexical_message(error: &Error) -> String {
    match error.get_error_type() {
        ErrorType::Lexical(message) => message,
        other => panic!("not a lexical error: {:?}", other),
    }
}

#[test]
fn lexer_text() {
    let file = SimpleFile::new(
        "<<Test>>".to_string(),
        format!(
            "{}\n{}",
            "identifier 'string' \"string\" 10 let const func return if else",
            ". , : ; = == ! != + += - -= * *= ** **= / /= % %= < <= > >= () {} [] || &&"
        ),
    );

    let mut lexer = Lexer::new(file.source().to_string());
    let lexer_run = lexer.run();

    // Get the tokens of an example file.
    match lexer_run {
        Ok(tokens) => {
            let is_valid_token = |i: usize,
                                  start_position: usize,
                                  length: usize,
                                  line: usize,
                                  column: usize,
                                  token: Token| {
                let expected = tok(start_position, length, line, column, token);
                if tokens[i] != expected {
                    panic!(
                        "The tokens are not equal:\nLexer Tok: {:?}\nCompare Tok: {:?}\n",
                        tokens[i], expected
                    );
                }
            };

            is_valid_token(0, 0, 10, 1, 1, Token::Identifier(String::from("identifier")));
            is_valid_token(1, 11, 8, 1, 12, Token::Str(String::from("string")));
            is_valid_token(2, 20, 8, 1, 21, Token::Str(String::from("string")));
            // A number keeps the text of its digits; its value is 10.0.
            is_valid_token(3, 29, 2, 1, 30, Token::Num(String::from("10")));
            match tokens[3].get_token() {
                Token::Num(text) => assert_eq!(text.parse::<f64>().unwrap(), 10.0),
                other => panic!("not a number: {:?}", other),
            }
            is_valid_token(4, 32, 3, 1, 33, Token::Let);
            is_valid_token(5, 36, 5, 1, 37, Token::Const);
            is_valid_token(6, 42, 4, 1, 43, Token::Func);
            is_valid_token(7, 47, 6, 1, 48, Token::Return);
            is_valid_token(8, 54, 2, 1, 55, Token::If);
            is_valid_token(9, 57, 4, 1, 58, Token::Else);

            is_valid_token(10, 61, 1, 1, 62, Token::EndOfLine);
            is_valid_token(11, 62, 1, 2, 1, Token::Dot);
            is_valid_token(12, 64, 1, 2, 3, Token::Comma);
            is_valid_token(13, 66, 1, 2, 5, Token::Colon);
            is_valid_token(14, 68, 1, 2, 7, Token::Semicolon);
            is_valid_token(15, 70, 1, 2, 9, Token::Equal);
            is_valid_token(16, 72, 2, 2, 11, Token::DoubleEqual);
            is_valid_token(17, 75, 1, 2, 14, Token::Not);
            is_valid_token(18, 77, 2, 2, 16, Token::NotEqual);
            is_valid_token(19, 80, 1, 2, 19, Token::Plus);
            is_valid_token(20, 82, 2, 2, 21, Token::PlusEqual);
            is_valid_token(21, 85, 1, 2, 24, Token::Minus);
            is_valid_token(22, 87, 2, 2, 26, Token::MinusEqual);
            is_valid_token(23, 90, 1, 2, 29, Token::Star);
            is_valid_token(24, 92, 2, 2, 31, Token::StarEqual);
            is_valid_token(25, 95, 2, 2, 34, Token::DoubleStar);
            is_valid_token(26, 98, 3, 2, 37, Token::DoubleStarEqual);
            is_valid_token(27, 102, 1, 2, 41, Token::Slash);
            is_valid_token(28, 104, 2, 2, 43, Token::SlashEqual);
            is_valid_token(29, 107, 1, 2, 46, Token::Percent);
            is_valid_token(30, 109, 2, 2, 48, Token::PercentEqual);
            is_valid_token(31, 112, 1, 2, 51, Token::Less);
            is_valid_token(32, 114, 2, 2, 53, Token::LessEqual);
            is_valid_token(33, 117, 1, 2, 56, Token::Greater);
            is_valid_token(34, 119, 2, 2, 58, Token::GreaterEqual);
            is_valid_token(35, 122, 1, 2, 61, Token::LeftParentheses);
            is_valid_token(36, 123, 1, 2, 62, Token::RightParentheses);
            is_valid_token(37, 125, 1, 2, 64, Token::LeftBrace);
            is_valid_token(38, 126, 1, 2, 65, Token::RightBrace);
            is_valid_token(39, 128, 1, 2, 67, Token::LeftBracket);
            is_valid_token(40, 129, 1, 2, 68, Token::RightBracket);
            is_valid_token(41, 131, 2, 2, 70, Token::DoubleVBar);
            is_valid_token(42, 134, 2, 2, 73, Token::DoubleAmper);
            is_valid_token(43, 136, 1, 2, 75, Token::EndOfFile);
        }
        // Does not have tokens.
        Err(error) => {
            panic!("The file does not have tokens: {:?}", error);
        }
    }
}

#[test]
fn empty_source_is_only_the_end_of_file() {
    let tokens = lex("").unwrap();
    assert_eq!(tokens, vec![tok(0, 1, 1, 1, Token::EndOfFile)]);
}

#[test]
fn blanks_only_give_the_end_of_file_after_them() {
    let tokens = lex(" \t ").unwrap();
    assert_eq!(tokens, vec![tok(3, 1, 1, 4, Token::EndOfFile)]);
}

#[test]
fn tabs_separate_tokens() {
    let tokens = lex("\t1\tx").unwrap();
    assert_eq!(
        tokens,
        vec![
            tok(1, 1, 1, 2, Token::Num(String::from("1"))),
            tok(3, 1, 1, 4, Token::Identifier(String::from("x"))),
            tok(4, 1, 1, 5, Token::EndOfFile),
        ]
    );
}

#[test]
fn lines_and_columns_follow_line_feeds() {
    let tokens = lex("a\n  b\n\nc").unwrap();
    assert_eq!(
        tokens,
        vec![
            tok(0, 1, 1, 1, Token::Identifier(String::from("a"))),
            tok(1, 1, 1, 2, Token::EndOfLine),
            tok(4, 1, 2, 3, Token::Identifier(String::from("b"))),
            tok(5, 1, 2, 4, Token::EndOfLine),
            tok(6, 1, 3, 1, Token::EndOfLine),
            tok(7, 1, 4, 1, Token::Identifier(String::from("c"))),
            tok(8, 1, 4, 2, Token::EndOfFile),
        ]
    );
}

#[test]
fn words_that_are_not_keywords_are_identifiers() {
    let tokens = lex("lets let_ _x x1 été ifelse").unwrap();
    let words: Vec<Token> = tokens.iter().map(|t| t.get_token()).collect();
    assert_eq!(
        words,
        vec![
            Token::Identifier(String::from("lets")),
            Token::Identifier(String::from("let_")),
            Token::Identifier(String::from("_x")),
            Token::Identifier(String::from("x1")),
            Token::Identifier(String::from("été")),
            Token::Identifier(String::from("ifelse")),
            Token::EndOfFile,
        ]
    );
    // Positions count characters, not bytes.
    assert_eq!(tokens[4].get_position(), Position::new(16, 19, 1, 17));
}

#[test]
fn a_number_runs_into_a_word() {
    let tokens = lex("12ab").unwrap();
    assert_eq!(
        tokens,
        vec![
            tok(0, 2, 1, 1, Token::Num(String::from("12"))),
            tok(2, 2, 1, 3, Token::Identifier(String::from("ab"))),
            tok(4, 1, 1, 5, Token::EndOfFile),
        ]
    );
}

#[test]
fn a_dot_ends_a_number() {
    let tokens = lex("1.5").unwrap();
    assert_eq!(
        tokens,
        vec![
            tok(0, 1, 1, 1, Token::Num(String::from("1"))),
            tok(1, 1, 1, 2, Token::Dot),
            tok(2, 1, 1, 3, Token::Num(String::from("5"))),
            tok(3, 1, 1, 4, Token::EndOfFile),
        ]
    );
}

#[test]
fn strings_take_either_quote() {
    let tokens = lex("'a \"b\"' \"c 'd'\" ''").unwrap();
    assert_eq!(
        tokens,
        vec![
            tok(0, 7, 1, 1, Token::Str(String::from("a \"b\""))),
            tok(8, 7, 1, 9, Token::Str(String::from("c 'd'"))),
            tok(16, 2, 1, 17, Token::Str(String::new())),
            tok(18, 1, 1, 19, Token::EndOfFile),
        ]
    );
}

#[test]
fn a_single_vertical_bar_is_an_error() {
    let error = lex("a | b").unwrap_err();
    assert_eq!(error.get_position(), Position::new(2, 2, 1, 3));
    assert_eq!(lexical_message(&error), "Maybe do you wish to use `||` instead of `|`?");
}

#[test]
fn a_single_ampersand_is_an_error() {
    let error = lex("\n&").unwrap_err();
    assert_eq!(error.get_position(), Position::new(1, 1, 2, 1));
    assert_eq!(lexical_message(&error), "Maybe do you wish to use `&&` instead of `&`?");
}

#[test]
fn an_unknown_character_is_an_error() {
    let error = lex("x = @").unwrap_err();
    assert_eq!(error.get_position(), Position::new(4, 4, 1, 5));
    assert_eq!(lexical_message(&error), "Unknown character.");
}

#[test]
fn a_quote_left_open_at_the_end_is_an_error() {
    let error = lex("  'abc").unwrap_err();
    assert_eq!(error.get_position(), Position::new(2, 2, 1, 3));
    assert_eq!(lexical_message(&error), "You need to close the quote.");
}

#[test]
fn a_quote_left_open_at_a_line_feed_is_an_error() {
    let error = lex("\"ab\ncd\"").unwrap_err();
    assert_eq!(error.get_position(), Position::new(0, 0, 1, 1));
    assert_eq!(lexical_message(&error), "You need to close the quote.");
}

#[test]
fn numeric_characters_that_are_not_digits_are_an_invalid_number() {
    let error = lex("x 12²").unwrap_err();
    assert_eq!(error.get_position(), Position::new(2, 5, 1, 3));
    assert_eq!(lexical_message(&error), "Invalid number expression.");

    let error = lex("١٢").unwrap_err();
    assert_eq!(error.get_position(), Position::new(0, 2, 1, 1));
    assert_eq!(lexical_message(&error), "Invalid number expression.");
}

#[test]
fn lexing_again_after_the_end_gives_the_end_of_file_again() {
    let mut lexer = Lexer::new("ab".to_string());
    let first = lexer.run().unwrap();
    assert_eq!(first.last().unwrap(), &tok(2, 1, 1, 3, Token::EndOfFile));
    let second = lexer.run().unwrap();
    assert_eq!(second, vec![tok(3, 1, 1, 4, Token::EndOfFile)]);
}

#[test]
fn tokens_tile_the_source() {
    let source = "let x = 'a b' ** 2 != y\n\tif x >= 10 { return x }";
    let chars: Vec<char> = source.chars().collect();
    let tokens = lex(source).unwrap();
    let mut at = 0;
    for t in &tokens {
        let p = t.get_position();
        // Only blanks stand between one token and the next.
        for c in &chars[at..p.start_position] {
            assert!(*c == ' ' || *c == '\t');
        }
        assert!(p.start_position < p.end_position);
        at = p.end_position;
    }
    assert_eq!(tokens.last().unwrap().get_token(), Token::EndOfFile);
    assert_eq!(at, chars.len() + 1);
}

#[test]
fn keywords_are_recognized_from_their_words() {
    assert_eq!(Token::get_identifier_or_keyword("return".to_string()), Token::Return);
    assert_eq!(Token::get_identifier_or_keyword("else".to_string()), Token::Else);
    assert_eq!(
        Token::get_identifier_or_keyword("Return".to_string()),
        Token::Identifier("Return".to_string())
    );
    assert!(Token::EndOfFile.is_end_of_file());
    assert!(!Token::EndOfLine.is_end_of_file());
}

#[test]
fn a_positioned_token_gives_back_its_parts() {
    let position = Position::new(3, 5, 2, 1);
    let t = Tok::new(&position, &Token::Str("hi".to_string()));
    assert_eq!(t.get_position(), position);
    assert_eq!(t.get_token(), Token::Str("hi".to_string()));
    assert_eq!(t.clone(), t);
    assert!(!t.is_end_of_file());
}
