//! The lexical grammar: which token, or which error, the source holds at each
//! place, and where in the source each token stands.
use vstd::prelude::*;

use crate::error::{ErrorTypeView, ErrorView};
use crate::position::Position;
use crate::text::{char_is_alphabetic, char_is_numeric};
use crate::token::{word_token, TokView, TokenView};

verus! {

/// The character at index `i` of the source, if there is one.
pub open spec fn char_at(s: Seq<char>, i: int) -> Option<char> {
    if 0 <= i < s.len() {
        Some(s[i])
    } else {
        None
    }
}

/// A space or a tab, which separate tokens.
pub open spec fn is_blank(c: Option<char>) -> bool {
    c == Some(' ') || c == Some('\t')
}

/// An ASCII character.
pub open spec fn is_ascii(c: char) -> bool {
    (c as u32) < 128
}

/// A numeric character: in ASCII, a digit `0` to `9`; beyond ASCII, one in
/// the Unicode general categories for numbers.
pub open spec fn is_numeric_char(c: char) -> bool {
    if is_ascii(c) {
        '0' <= c && c <= '9'
    } else {
        char_is_numeric(c)
    }
}

/// An alphabetic character: in ASCII, a letter `a` to `z` or `A` to `Z`;
/// beyond ASCII, one with the Unicode `Alphabetic` property.
pub open spec fn is_alphabetic_char(c: char) -> bool {
    if is_ascii(c) {
        ('a' <= c && c <= 'z') || ('A' <= c && c <= 'Z')
    } else {
        char_is_alphabetic(c)
    }
}

/// A character that begins, and continues, a number.
pub open spec fn is_number_char(c: Option<char>) -> bool {
    match c {
        Some(c) => is_numeric_char(c),
        None => false,
    }
}

/// A character that begins a word: a letter or an underscore.
pub open spec fn is_word_start(c: Option<char>) -> bool {
    match c {
        Some(c) => is_alphabetic_char(c) || c == '_',
        None => false,
    }
}

/// A character that continues a word: a letter, an underscore or a number.
pub open spec fn is_word_char(c: Option<char>) -> bool {
    is_word_start(c) || is_number_char(c)
}

/// A single or a double quote, which begin a string.
pub open spec fn is_quote(c: Option<char>) -> bool {
    c == Some('\'') || c == Some('"')
}

/// The end of the longest run of characters, from index `i` on, that `keep`
/// accepts.
pub open spec fn run_end(s: Seq<char>, i: nat, keep: spec_fn(Option<char>) -> bool) -> nat
    decreases s.len() - i,
{
    if i < s.len() && keep(char_at(s, i as int)) {
        run_end(s, i + 1, keep)
    } else {
        i
    }
}

/// Where the spaces and tabs that begin at `i` end.
pub open spec fn skip_blanks(s: Seq<char>, i: nat) -> nat {
    run_end(s, i, |c: Option<char>| is_blank(c))
}

/// Where the number that begins at `i` ends.
pub open spec fn number_end(s: Seq<char>, i: nat) -> nat {
    run_end(s, i, |c: Option<char>| is_number_char(c))
}

/// Where the word that begins at `i` ends.
pub open spec fn word_end(s: Seq<char>, i: nat) -> nat {
    run_end(s, i, |c: Option<char>| is_word_char(c))
}

/// Where the text of a string, which begins at `i`, stops: at the closing
/// quote `q`, at a line feed, or at the end of the source.
pub open spec fn string_end(s: Seq<char>, i: nat, q: char) -> nat {
    run_end(s, i, |c: Option<char>| c != Some(q) && c != Some('\n'))
}

/// A non-empty text of ASCII decimal digits: the texts of numeric
/// characters that denote a number.
pub open spec fn is_decimal_digits(w: Seq<char>) -> bool {
    &&& w.len() > 0
    &&& forall|i: int| 0 <= i < w.len() ==> '0' <= #[trigger] w[i] <= '9'
}

/// The number of line feeds before index `k`.
pub open spec fn newlines_before(s: Seq<char>, k: nat) -> nat
    decreases k,
{
    if k == 0 {
        0
    } else {
        newlines_before(s, (k - 1) as nat) + if char_at(s, k - 1) == Some('\n') {
            1nat
        } else {
            0nat
        }
    }
}

/// The index at which the line that holds index `k` begins.
pub open spec fn line_start(s: Seq<char>, k: nat) -> nat
    decreases k,
{
    if k == 0 {
        0
    } else if char_at(s, k - 1) == Some('\n') {
        k
    } else {
        line_start(s, (k - 1) as nat)
    }
}

/// The line of index `k`, counted from one.
pub open spec fn line_of(s: Seq<char>, k: nat) -> nat {
    1 + newlines_before(s, k)
}

/// The column of index `k`, counted from one.
pub open spec fn column_of(s: Seq<char>, k: nat) -> nat {
    (k + 1 - line_start(s, k)) as nat
}

/// The span from `start` to `end`, at the line and column of `start`.
pub open spec fn span(s: Seq<char>, start: nat, end: nat) -> Position {
    Position {
        start_position: start as usize,
        end_position: end as usize,
        line: line_of(s, start) as usize,
        column: column_of(s, start) as usize,
    }
}

/// The message for a `|` that is not doubled.
pub open spec fn msg_vertical_bar() -> Seq<char> {
    "Maybe do you wish to use `||` instead of `|`?"@
}

/// The message for a `&` that is not doubled.
pub open spec fn msg_ampersand() -> Seq<char> {
    "Maybe do you wish to use `&&` instead of `&`?"@
}

/// The message for numeric characters that are not decimal digits.
pub open spec fn msg_invalid_number() -> Seq<char> {
    "Invalid number expression."@
}

/// The message for a string whose quote is not closed on its line.
pub open spec fn msg_open_quote() -> Seq<char> {
    "You need to close the quote."@
}

/// The message for a character that begins no token.
pub open spec fn msg_unknown_character() -> Seq<char> {
    "Unknown character."@
}

/// What the source holds at the index where a token begins.
pub enum Scan {
    /// A token, and the index where it ends.
    Token(TokenView, nat),
    /// A lexical error: its message, the end of its span, and the index at
    /// which the lexer stopped.
    Failure(Seq<char>, nat, nat),
}

/// An operator that is followed by `=` in its longer form.
pub open spec fn with_equal(s: Seq<char>, p: nat, long: TokenView, short: TokenView) -> Scan {
    if char_at(s, p + 1int) == Some('=') {
        Scan::Token(long, p + 2)
    } else {
        Scan::Token(short, p + 1)
    }
}

/// An operator that is written with its character twice, where the
/// character alone is an error.
pub open spec fn doubled(s: Seq<char>, p: nat, c: char, token: TokenView, message: Seq<char>) -> Scan {
    if char_at(s, p + 1int) == Some(c) {
        Scan::Token(token, p + 2)
    } else {
        Scan::Failure(message, p, p)
    }
}

/// A token that begins with a number, a letter, an underscore or a quote.
pub open spec fn scan_literal(s: Seq<char>, p: nat) -> Scan {
    let c = char_at(s, p as int);
    if is_number_char(c) {
        let e = number_end(s, p);
        if is_decimal_digits(s.subrange(p as int, e as int)) {
            Scan::Token(TokenView::Num(s.subrange(p as int, e as int)), e)
        } else {
            Scan::Failure(msg_invalid_number(), e, e)
        }
    } else if is_word_start(c) {
        let e = word_end(s, p);
        Scan::Token(word_token(s.subrange(p as int, e as int)), e)
    } else if is_quote(c) {
        let q = c->0;
        let e = string_end(s, p + 1, q);
        if char_at(s, e as int) == Some(q) {
            Scan::Token(TokenView::Str(s.subrange(p + 1int, e as int)), e + 1)
        } else {
            Scan::Failure(msg_open_quote(), p, e)
        }
    } else {
        Scan::Failure(msg_unknown_character(), p, p)
    }
}

/// The token, or the lexical error, at index `p` of the source.
pub open spec fn scan(s: Seq<char>, p: nat) -> Scan {
    match char_at(s, p as int) {
        None => Scan::Token(TokenView::EndOfFile, p + 1),
        Some(c) => if c == '.' {
            Scan::Token(TokenView::Dot, p + 1)
        } else if c == ',' {
            Scan::Token(TokenView::Comma, p + 1)
        } else if c == ':' {
            Scan::Token(TokenView::Colon, p + 1)
        } else if c == ';' {
            Scan::Token(TokenView::Semicolon, p + 1)
        } else if c == '=' {
            with_equal(s, p, TokenView::DoubleEqual, TokenView::Equal)
        } else if c == '!' {
            with_equal(s, p, TokenView::NotEqual, TokenView::Not)
        } else if c == '+' {
            with_equal(s, p, TokenView::PlusEqual, TokenView::Plus)
        } else if c == '-' {
            with_equal(s, p, TokenView::MinusEqual, TokenView::Minus)
        } else if c == '*' {
            if char_at(s, p + 1int) == Some('*') {
                with_equal(s, p + 1, TokenView::DoubleStarEqual, TokenView::DoubleStar)
            } else {
                with_equal(s, p, TokenView::StarEqual, TokenView::Star)
            }
        } else if c == '/' {
            with_equal(s, p, TokenView::SlashEqual, TokenView::Slash)
        } else if c == '%' {
            with_equal(s, p, TokenView::PercentEqual, TokenView::Percent)
        } else if c == '<' {
            with_equal(s, p, TokenView::LessEqual, TokenView::Less)
        } else if c == '>' {
            with_equal(s, p, TokenView::GreaterEqual, TokenView::Greater)
        } else if c == '(' {
            Scan::Token(TokenView::LeftParentheses, p + 1)
        } else if c == ')' {
            Scan::Token(TokenView::RightParentheses, p + 1)
        } else if c == '{' {
            Scan::Token(TokenView::LeftBrace, p + 1)
        } else if c == '}' {
            Scan::Token(TokenView::RightBrace, p + 1)
        } else if c == '[' {
            Scan::Token(TokenView::LeftBracket, p + 1)
        } else if c == ']' {
            Scan::Token(TokenView::RightBracket, p + 1)
        } else if c == '|' {
            doubled(s, p, '|', TokenView::DoubleVBar, msg_vertical_bar())
        } else if c == '&' {
            doubled(s, p, '&', TokenView::DoubleAmper, msg_ampersand())
        } else if c == '\n' {
            Scan::Token(TokenView::EndOfLine, p + 1)
        } else {
            scan_literal(s, p)
        },
    }
}

/// The next token, or a lexical error, after the lexer stands at `cp`, and
/// the index at which the lexer stands afterwards.
pub open spec fn next_token(s: Seq<char>, cp: nat) -> (Result<TokView, ErrorView>, nat) {
    let p = skip_blanks(s, cp);
    match scan(s, p) {
        Scan::Token(t, end) => (Ok(TokView { position: span(s, p, end), token: t }), end),
        Scan::Failure(message, end, stop) => (
            Err(ErrorView { position: span(s, p, end), error_type: ErrorTypeView::Lexical(message) }),
            stop,
        ),
    }
}

/// Put tokens in front of the outcome of lexing the rest of the source.
pub open spec fn prepend(
    ts: Seq<TokView>,
    rest: (Result<Seq<TokView>, ErrorView>, nat),
) -> (Result<Seq<TokView>, ErrorView>, nat) {
    match rest.0 {
        Ok(more) => (Ok(ts + more), rest.1),
        Err(e) => (Err(e), rest.1),
    }
}

/// The tokens from index `cp` up to and including the end of the file, or
/// the first lexical error; and the index at which the lexer stops.
pub open spec fn lex_from(s: Seq<char>, cp: nat) -> (Result<Seq<TokView>, ErrorView>, nat)
    decreases s.len() - cp,
{
    match next_token(s, cp).0 {
        Err(e) => (Err(e), next_token(s, cp).1),
        Ok(t) => if t.token is EndOfFile {
            (Ok(seq![t]), next_token(s, cp).1)
        } else {
            proof {
                lemma_next_token_progress(s, cp);
            }
            prepend(seq![t], lex_from(s, next_token(s, cp).1))
        },
    }
}

/// The tokens of a whole source, or its first lexical error.
pub open spec fn lex(s: Seq<char>) -> Result<Seq<TokView>, ErrorView> {
    lex_from(s, 0).0
}

// ---------------------------------------------------------------------------
// Facts about the grammar.

/// What a run is: every character in it is kept, and the character after it
/// is not.
pub proof fn lemma_run_end(s: Seq<char>, i: nat, keep: spec_fn(Option<char>) -> bool)
    ensures
        i <= run_end(s, i, keep),
        i <= s.len() ==> run_end(s, i, keep) <= s.len(),
        i >= s.len() ==> run_end(s, i, keep) == i,
        forall|j: int| i <= j < run_end(s, i, keep) ==> keep(#[trigger] char_at(s, j)),
        run_end(s, i, keep) < s.len() ==> !keep(char_at(s, run_end(s, i, keep) as int)),
    decreases s.len() - i,
{
    if i < s.len() && keep(char_at(s, i as int)) {
        lemma_run_end(s, i + 1, keep);
    }
}

/// A token other than the end of the file covers at least one character of
/// the source, and no character beyond it.
pub proof fn lemma_scan_progress(s: Seq<char>, p: nat)
    ensures
        scan(s, p) matches Scan::Token(t, e) ==> (!(t is EndOfFile) ==> p < e <= s.len()),
        scan(s, p) matches Scan::Token(t, e) ==> (t is EndOfFile ==> p >= s.len() && e == p + 1),
        scan(s, p) matches Scan::Failure(_, e, stop) ==> p <= e <= stop <= s.len(),
{
    let c = char_at(s, p as int);
    if c is Some && !(c == Some('.') || c == Some(',') || c == Some(':') || c == Some(';')
        || c == Some('=') || c == Some('!') || c == Some('+') || c == Some('-') || c == Some('*')
        || c == Some('/') || c == Some('%') || c == Some('<') || c == Some('>') || c == Some('(')
        || c == Some(')') || c == Some('{') || c == Some('}') || c == Some('[') || c == Some(']')
        || c == Some('|') || c == Some('&') || c == Some('\n')) {
        lemma_run_end(s, p, |c: Option<char>| is_number_char(c));
        lemma_run_end(s, p, |c: Option<char>| is_word_char(c));
        if is_quote(c) {
            let q = c->0;
            lemma_run_end(s, p + 1, |c: Option<char>| c != Some(q) && c != Some('\n'));
        }
    }
}

/// Lexing goes forward: after a token other than the end of the file, the
/// lexer stands further on, and still inside the source.
pub proof fn lemma_next_token_progress(s: Seq<char>, cp: nat)
    ensures
        next_token(s, cp).0 matches Ok(t) ==> (!(t.token is EndOfFile) ==> cp < next_token(s, cp).1
            <= s.len()),
{
    lemma_run_end(s, cp, |c: Option<char>| is_blank(c));
    lemma_scan_progress(s, skip_blanks(s, cp));
}

/// Reading one character moves the line and the column on: a line feed
/// starts the next line at column one, any other character moves one column
/// to the right.
pub proof fn lemma_line_step(s: Seq<char>, k: nat)
    ensures
        char_at(s, k as int) == Some('\n') ==> line_of(s, k + 1) == line_of(s, k) + 1 && column_of(
            s,
            k + 1,
        ) == 1,
        char_at(s, k as int) != Some('\n') ==> line_of(s, k + 1) == line_of(s, k) && column_of(
            s,
            k + 1,
        ) == column_of(s, k) + 1,
{
    lemma_line_bounds(s, k);
}

/// A line and a column are never larger than one more than the index.
pub proof fn lemma_line_bounds(s: Seq<char>, k: nat)
    ensures
        newlines_before(s, k) <= k,
        line_start(s, k) <= k,
        1 <= line_of(s, k) <= k + 1,
        1 <= column_of(s, k) <= k + 1,
    decreases k,
{
    if k > 0 {
        lemma_line_bounds(s, (k - 1) as nat);
    }
}

/// Where lexing stops: no further than one past the end of the source, or,
/// where it began beyond the source, one past where it began.
pub proof fn lemma_lex_stop(s: Seq<char>, cp: nat)
    ensures
        lex_from(s, cp).1 <= if cp <= s.len() {
            s.len() + 1
        } else {
            cp + 1
        },
    decreases s.len() - cp,
{
    lemma_run_end(s, cp, |c: Option<char>| is_blank(c));
    lemma_scan_progress(s, skip_blanks(s, cp));
    lemma_next_token_progress(s, cp);
    match next_token(s, cp).0 {
        Ok(t) => {
            if !(t.token is EndOfFile) {
                lemma_lex_stop(s, next_token(s, cp).1);
            }
        },
        Err(_) => {},
    }
}

} // verus!
