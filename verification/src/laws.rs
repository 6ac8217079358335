//! What lexing promises of every source: the tokens come in order, each
//! stands where its text stands in the source, blanks alone separate them,
//! and the end of the file comes last.
use vstd::prelude::*;

use crate::error::{ErrorTypeView, ErrorView};
use crate::scan::{
    char_at, column_of, is_blank, is_decimal_digits, is_number_char, is_quote, is_word_char, lemma_next_token_progress,
    lemma_run_end, lex, lex_from, line_of, prepend, msg_ampersand, msg_invalid_number, msg_open_quote,
    msg_unknown_character, msg_vertical_bar, next_token, scan, skip_blanks, span, Scan,
};
use crate::position::Position;
use crate::token::{spelling, TokView, TokenView};

verus! {

/// Where a token starts in the source.
pub open spec fn start_of(t: TokView) -> int {
    t.position.start_position as int
}

/// Where a token ends in the source.
pub open spec fn end_of(t: TokView) -> int {
    t.position.end_position as int
}

/// A token stands in the source where its text is: its span is not empty,
/// its line and column are those of its start, a string is its text between
/// two equal quotes, with neither that quote nor a line feed inside, the end
/// of the file stands after the source, and any other token is spelled out
/// by the source over its span.
pub open spec fn stands_in(s: Seq<char>, t: TokView) -> bool {
    let a = start_of(t);
    let b = end_of(t);
    &&& 0 <= a < b
    &&& t.position.line == line_of(s, a as nat)
    &&& t.position.column == column_of(s, a as nat)
    &&& match t.token {
        TokenView::EndOfFile => a >= s.len() && b == a + 1,
        TokenView::Str(text) => {
            &&& b <= s.len()
            &&& is_quote(char_at(s, a))
            &&& char_at(s, b - 1) == char_at(s, a)
            &&& text == s.subrange(a + 1, b - 1)
            &&& forall|k: int| 0 <= k < text.len() ==> #[trigger] text[k] != s[a] && text[k] != '\n'
        },
        _ => b <= s.len() && s.subrange(a, b) == spelling(t.token),
    }
    &&& t.token matches TokenView::Num(digits) ==> is_decimal_digits(digits)
    &&& longest(s, t)
}

/// A token is the longest one that the source spells at its place: an
/// operator is not followed by the character that would make a longer one,
/// and a number or a word is not followed by a character that would continue
/// it.
pub open spec fn longest(s: Seq<char>, t: TokView) -> bool {
    let next = char_at(s, end_of(t));
    let k = t.token;
    &&& (k is Equal || k is Not || k is Plus || k is Minus || k is Slash || k is Percent || k is Less
        || k is Greater || k is DoubleStar) ==> next != Some('=')
    &&& k is Star ==> next != Some('=') && next != Some('*')
    &&& k is Num ==> !is_number_char(next)
    &&& (k is Identifier || k is Let || k is Const || k is Func || k is Return || k is If || k is Else)
        ==> !is_word_char(next)
}

/// The lexer's positions fit in its integers.
pub open spec fn fits(s: Seq<char>, cp: nat) -> bool {
    s.len() + 4 < usize::MAX && cp + 4 < usize::MAX
}

/// A single token stands where its text is, right after the blanks that
/// precede it.
pub proof fn lemma_next_token_stands(s: Seq<char>, cp: nat)
    requires
        fits(s, cp),
    ensures
        next_token(s, cp).0 matches Ok(t) ==> {
            &&& stands_in(s, t)
            &&& start_of(t) == skip_blanks(s, cp)
            &&& end_of(t) == next_token(s, cp).1
        },
{
    let p = skip_blanks(s, cp);
    lemma_run_end(s, cp, |c: Option<char>| is_blank(c));
    crate::scan::lemma_scan_progress(s, p);
    crate::scan::lemma_line_bounds(s, p);
    match scan(s, p) {
        Scan::Token(t, e) => {
            if !(t is EndOfFile) {
                if e == p + 1 {
                    assert(s.subrange(p as int, e as int) =~= seq![s[p as int]]);
                } else if e == p + 2 {
                    assert(s.subrange(p as int, e as int) =~= seq![s[p as int], s[p + 1int]]);
                } else if e == p + 3 {
                    assert(s.subrange(p as int, e as int) =~= seq![s[p as int], s[p + 1int], s[p + 2int]]);
                }
                let c = char_at(s, p as int);
                lemma_run_end(s, p, |c: Option<char>| is_number_char(c));
                lemma_run_end(s, p, |c: Option<char>| is_word_char(c));
                if is_quote(c) {
                    let q = c->0;
                    lemma_run_end(s, p + 1, |c: Option<char>| c != Some(q) && c != Some('\n'));
                }
            }
            if let TokenView::Str(text) = t {
                assert forall|k: int| 0 <= k < text.len() implies #[trigger] text[k] != s[p as int]
                    && text[k] != '\n' by {
                    assert(char_at(s, p + 1 + k) == Some(text[k]));
                }
            }
        },
        Scan::Failure(..) => {},
    }
}

/// The outcome of lexing from `cp`, when it is a list of tokens: the first
/// token stands right after the blanks at `cp`, each token stands where its
/// text is, each next token starts right after the blanks that follow the
/// one before, the end of the file comes last and nowhere before, and the
/// lexer stops right after it.
pub open spec fn well_lexed(s: Seq<char>, cp: nat, ts: Seq<TokView>, stop: nat) -> bool {
    &&& ts.len() >= 1
    &&& start_of(ts[0]) == skip_blanks(s, cp)
    &&& ts.last().token is EndOfFile
    &&& stop == end_of(ts.last())
    &&& forall|i: int| 0 <= i < ts.len() ==> stands_in(s, #[trigger] ts[i])
    &&& forall|i: int| 0 <= i < ts.len() - 1 ==> !(#[trigger] ts[i].token is EndOfFile)
    &&& forall|i: int|
        0 <= i < ts.len() - 1 ==> start_of(ts[i + 1]) == skip_blanks(s, end_of(#[trigger] ts[i]) as nat)
}

/// Lexing lays the tokens over the source in order: see `well_lexed`.
pub proof fn lemma_lex_tokens(s: Seq<char>, cp: nat)
    requires
        fits(s, cp),
    ensures
        lex_from(s, cp).0 matches Ok(ts) ==> well_lexed(s, cp, ts, lex_from(s, cp).1),
    decreases s.len() - cp,
{
    lemma_next_token_stands(s, cp);
    lemma_next_token_progress(s, cp);
    match next_token(s, cp).0 {
        Ok(t) => {
            if !(t.token is EndOfFile) {
                let e = next_token(s, cp).1;
                lemma_lex_tokens(s, e);
                match lex_from(s, e).0 {
                    Ok(more) => {
                        let ts = seq![t] + more;
                        assert(lex_from(s, cp).0 == Ok::<Seq<TokView>, ErrorView>(ts));
                        assert forall|i: int| 0 <= i < ts.len() implies stands_in(s, #[trigger] ts[i]) by {
                            if i > 0 {
                                assert(ts[i] == more[i - 1]);
                            }
                        }
                        assert forall|i: int| 0 <= i < ts.len() - 1 implies !(#[trigger] ts[i].token is EndOfFile) by {
                            if i > 0 {
                                assert(ts[i] == more[i - 1]);
                            }
                        }
                        assert forall|i: int| 0 <= i < ts.len() - 1 implies start_of(ts[i + 1])
                            == skip_blanks(s, end_of(#[trigger] ts[i]) as nat) by {
                            if i > 0 {
                                assert(ts[i] == more[i - 1]);
                            }
                            assert(ts[i + 1] == more[i]);
                        }
                        assert(ts.last() == more.last());
                    },
                    Err(_) => {},
                }
            }
        },
        Err(_) => {},
    }
}

/// Index `j` of the source lies in the span of one of the tokens.
pub open spec fn in_some_token(ts: Seq<TokView>, j: int) -> bool {
    exists|i: int| 0 <= i < ts.len() && start_of(#[trigger] ts[i]) <= j < end_of(ts[i])
}

/// Lexing accounts for the whole source: every character from `cp` to the
/// end of the source is a blank or lies in the span of one of the tokens.
pub proof fn lemma_lex_covers(s: Seq<char>, cp: nat)
    requires
        fits(s, cp),
    ensures
        lex_from(s, cp).0 matches Ok(ts) ==> forall|j: int|
            cp <= j < s.len() ==> is_blank(char_at(s, j)) || in_some_token(ts, j),
    decreases s.len() - cp,
{
    lemma_next_token_stands(s, cp);
    lemma_next_token_progress(s, cp);
    lemma_run_end(s, cp, |c: Option<char>| is_blank(c));
    match next_token(s, cp).0 {
        Ok(t) => {
            let e = next_token(s, cp).1;
            if !(t.token is EndOfFile) {
                lemma_lex_covers(s, e);
                match lex_from(s, e).0 {
                    Ok(more) => {
                        let ts = seq![t] + more;
                        assert(lex_from(s, cp).0 == Ok::<Seq<TokView>, ErrorView>(ts));
                        assert forall|j: int| cp <= j < s.len() implies is_blank(char_at(s, j))
                            || in_some_token(ts, j) by {
                            if j < start_of(t) {
                                assert(is_blank(char_at(s, j)));
                            } else if start_of(t) <= j < e {
                                assert(ts[0] == t);
                            } else if j >= e {
                                if !is_blank(char_at(s, j)) {
                                    assert(in_some_token(more, j));
                                    let i = choose|i: int|
                                        0 <= i < more.len() && start_of(#[trigger] more[i]) <= j
                                            < end_of(more[i]);
                                    assert(ts[i + 1] == more[i]);
                                }
                            }
                        }
                    },
                    Err(_) => {},
                }
            } else {
                assert forall|j: int| cp <= j < s.len() implies is_blank(char_at(s, j)) by {
                    assert(j < start_of(t));
                }
            }
        },
        Err(_) => {},
    }
}

/// An ASCII letter.
pub open spec fn ascii_letter(c: char) -> bool {
    ('a' <= c && c <= 'z') || ('A' <= c && c <= 'Z')
}

/// An ASCII decimal digit.
pub open spec fn ascii_digit(c: char) -> bool {
    '0' <= c && c <= '9'
}

/// A lexical error stands at the line and column of where it starts, spans
/// no further than the source, and says one of the lexer's five messages.
/// It never starts at an ASCII letter or an underscore, a blank, a line feed,
/// or a character that an operator or a bracket begins with; at a `|` or an
/// `&` only where the same character does not follow. Where it starts at an
/// ASCII digit, the number is invalid: its span holds a character that is not
/// an ASCII digit. Where it starts at a quote, the quote is left open: the
/// same quote does not come again before the next line feed.
pub open spec fn lexical_error(s: Seq<char>, e: ErrorView) -> bool {
    let a = e.position.start_position as int;
    let b = e.position.end_position as int;
    let c = char_at(s, a);
    let message = e.error_type->Lexical_0;
    &&& 0 <= a <= b <= s.len()
    &&& e.position.line == line_of(s, a as nat)
    &&& e.position.column == column_of(s, a as nat)
    &&& e.error_type is Lexical
    &&& {
        ||| message == msg_vertical_bar()
        ||| message == msg_ampersand()
        ||| message == msg_invalid_number()
        ||| message == msg_open_quote()
        ||| message == msg_unknown_character()
    }
    &&& c matches Some(x) ==> !(ascii_letter(x) || x == '_')
    &&& c matches Some(x) ==> !(x == ' ' || x == '\t' || x == '\n')
    &&& c matches Some(x) ==> !(x == '.' || x == ',' || x == ':' || x == ';' || x == '=' || x == '!'
        || x == '+' || x == '-' || x == '*' || x == '/' || x == '%' || x == '<' || x == '>' || x == '('
        || x == ')' || x == '{' || x == '}' || x == '[' || x == ']')
    &&& c == Some('|') ==> char_at(s, a + 1) != Some('|') && message == msg_vertical_bar()
    &&& c == Some('&') ==> char_at(s, a + 1) != Some('&') && message == msg_ampersand()
    &&& c matches Some(x) ==> (ascii_digit(x) ==> {
        &&& message == msg_invalid_number()
        &&& a < b
        &&& exists|k: int| a <= k < b && !ascii_digit(#[trigger] s[k])
    })
    &&& c matches Some(q) ==> ((q == '\'' || q == '"') ==> {
        &&& message == msg_open_quote()
        &&& forall|k: int|
            a < k < s.len() && #[trigger] s[k] == q ==> exists|m: int| a < m < k && s[m] == '\n'
    })
}

/// One step of lexing fails only with a lexical error: see `lexical_error`.
pub proof fn lemma_next_token_error(s: Seq<char>, cp: nat)
    requires
        fits(s, cp),
    ensures
        next_token(s, cp).0 matches Err(e) ==> lexical_error(s, e),
{
    let p = skip_blanks(s, cp);
    lemma_run_end(s, cp, |c: Option<char>| is_blank(c));
    crate::scan::lemma_scan_progress(s, p);
    crate::scan::lemma_line_bounds(s, p);
    let c = char_at(s, p as int);
    lemma_run_end(s, p, |c: Option<char>| is_number_char(c));
    if let Scan::Failure(message, e, stop) = scan(s, p) {
        if c matches Some(x) && ascii_digit(x) {
            let w = s.subrange(p as int, e as int);
            assert(!is_decimal_digits(w));
            let i = choose|i: int| 0 <= i < w.len() && !('0' <= #[trigger] w[i] <= '9');
            assert(w[i] == s[p + i]);
        }
        if is_quote(c) {
            let q = c->0;
            let f = crate::scan::string_end(s, p + 1, q);
            lemma_run_end(s, p + 1, |c: Option<char>| c != Some(q) && c != Some('\n'));
            assert forall|k: int| p < k < s.len() && #[trigger] s[k] == q implies exists|m: int|
                p < m < k && s[m] == '\n' by {
                if k < f {
                    assert(char_at(s, k) == Some(q));
                }
                assert(s[f as int] == '\n');
            }
        }
    }
}

/// Lexing fails only with a lexical error: see `lexical_error`.
pub proof fn lemma_lex_error(s: Seq<char>, cp: nat)
    requires
        fits(s, cp),
    ensures
        lex_from(s, cp).0 matches Err(e) ==> lexical_error(s, e),
    decreases s.len() - cp,
{
    lemma_next_token_error(s, cp);
    lemma_next_token_progress(s, cp);
    match next_token(s, cp).0 {
        Ok(t) => {
            if !(t.token is EndOfFile) {
                lemma_lex_error(s, next_token(s, cp).1);
            }
        },
        Err(_) => {},
    }
}

/// Once lexing has reached the end of the file, lexing again from where it
/// stopped gives the end of the file once more, right there, and nothing
/// else.
pub proof fn lemma_lex_after_end(s: Seq<char>, cp: nat)
    requires
        fits(s, cp),
        fits(s, lex_from(s, cp).1),
        lex_from(s, cp).0 is Ok,
    ensures
        ({
            let f = lex_from(s, cp).1;
            lex_from(s, f) == (
                Ok::<Seq<TokView>, ErrorView>(
                    seq![TokView { position: span(s, f, f + 1), token: TokenView::EndOfFile }],
                ),
                f + 1,
            )
        }),
{
    lemma_lex_tokens(s, cp);
    let f = lex_from(s, cp).1;
    lemma_run_end(s, f, |c: Option<char>| is_blank(c));
}

/// From a place inside the source, lexing gives at most one more token than
/// there are characters left, and the end of the file stands exactly at the
/// end of the source.
pub proof fn lemma_lex_count(s: Seq<char>, cp: nat)
    requires
        fits(s, cp),
        cp <= s.len(),
    ensures
        lex_from(s, cp).0 matches Ok(ts) ==> {
            &&& ts.len() <= s.len() - cp + 1
            &&& start_of(ts.last()) == s.len()
            &&& end_of(ts.last()) == s.len() + 1
        },
    decreases s.len() - cp,
{
    lemma_next_token_stands(s, cp);
    lemma_next_token_progress(s, cp);
    lemma_run_end(s, cp, |c: Option<char>| is_blank(c));
    match next_token(s, cp).0 {
        Ok(t) => {
            if !(t.token is EndOfFile) {
                let e = next_token(s, cp).1;
                lemma_lex_count(s, e);
                match lex_from(s, e).0 {
                    Ok(more) => {
                        let ts = seq![t] + more;
                        assert(lex_from(s, cp).0 == Ok::<Seq<TokView>, ErrorView>(ts));
                        assert(ts.last() == more.last());
                    },
                    Err(_) => {},
                }
            }
        },
        Err(_) => {},
    }
}

/// What lexing a whole source gives: either tokens laid over the source in
/// order that account for every character of it, at most one more than its
/// characters, with the end of the file last, right at the end of the source,
/// or a lexical error.
pub proof fn lemma_lex_source(s: Seq<char>)
    requires
        s.len() + 4 < usize::MAX,
    ensures
        lex(s) matches Ok(ts) ==> {
            &&& well_lexed(s, 0, ts, lex_from(s, 0).1)
            &&& ts.len() <= s.len() + 1
            &&& start_of(ts.last()) == s.len()
            &&& end_of(ts.last()) == s.len() + 1
            &&& forall|j: int| 0 <= j < s.len() ==> is_blank(char_at(s, j)) || in_some_token(ts, j)
        },
        lex(s) matches Err(e) ==> lexical_error(s, e),
{
    lemma_lex_tokens(s, 0);
    lemma_lex_count(s, 0);
    lemma_lex_covers(s, 0);
    lemma_lex_error(s, 0);
}

/// A run ends at `j` where every character from `i` to `j` is kept and the
/// one at `j`, if any, is not.
proof fn lemma_run_end_exact(s: Seq<char>, i: nat, j: nat, keep: spec_fn(Option<char>) -> bool)
    requires
        i <= j <= s.len(),
        forall|k: int| i <= k < j ==> keep(#[trigger] char_at(s, k)),
        j == s.len() || !keep(char_at(s, j as int)),
    ensures
        crate::scan::run_end(s, i, keep) == j,
    decreases j - i,
{
    if i < j {
        assert(keep(char_at(s, i as int)));
        lemma_run_end_exact(s, i + 1, j, keep);
    }
}

/// Before the first line feed, every index stands on line 1, at the column
/// one more than the index.
proof fn lemma_first_line(s: Seq<char>, k: nat)
    requires
        forall|i: int| 0 <= i < k ==> #[trigger] char_at(s, i) != Some('\n'),
    ensures
        line_of(s, k) == 1,
        crate::scan::line_start(s, k) == 0,
        column_of(s, k) == k + 1,
    decreases k,
{
    if k > 0 {
        lemma_first_line(s, (k - 1) as nat);
        assert(char_at(s, k - 1) != Some('\n'));
    }
}

/// A word of the source: an ASCII letter or an underscore, then ASCII
/// letters, digits and underscores.
pub open spec fn ascii_word(w: Seq<char>) -> bool {
    &&& w.len() > 0
    &&& ascii_letter(w[0]) || w[0] == '_'
    &&& forall|i: int| 0 <= i < w.len() ==> ascii_letter(#[trigger] w[i]) || ascii_digit(w[i]) || w[i] == '_'
}

/// The six keywords of the language.
pub open spec fn is_keyword(w: Seq<char>) -> bool {
    ||| w == "let"@
    ||| w == "const"@
    ||| w == "func"@
    ||| w == "return"@
    ||| w == "if"@
    ||| w == "else"@
}

/// The end of the file right after a source of one line.
pub open spec fn end_after_line(n: nat) -> TokView {
    TokView {
        position: Position { start_position: n as usize, end_position: (n + 1) as usize, line: 1, column: (n + 1) as usize },
        token: TokenView::EndOfFile,
    }
}

/// A word standing alone is the one token that the word stands for, over the
/// whole source, followed by the end of the file.
proof fn lemma_lex_word(w: Seq<char>)
    requires
        w.len() + 8 < usize::MAX,
        ascii_word(w),
    ensures
        lex(w) == Ok::<Seq<TokView>, ErrorView>(
            seq![
                TokView {
                    position: Position { start_position: 0, end_position: w.len() as usize, line: 1, column: 1 },
                    token: crate::token::word_token(w),
                },
                end_after_line(w.len()),
            ],
        ),
{
    let n = w.len();
    assert forall|k: int| 0 <= k < n implies is_word_char(#[trigger] char_at(w, k)) by {
        assert(ascii_letter(w[k]) || ascii_digit(w[k]) || w[k] == '_');
    }
    assert forall|i: int| 0 <= i < n implies #[trigger] char_at(w, i) != Some('\n') by {
        assert(ascii_letter(w[i]) || ascii_digit(w[i]) || w[i] == '_');
    }
    lemma_run_end_exact(w, 0, n, |c: Option<char>| is_word_char(c));
    lemma_run_end_exact(w, 0, 0, |c: Option<char>| is_blank(c));
    lemma_run_end_exact(w, n, n, |c: Option<char>| is_blank(c));
    lemma_first_line(w, 0);
    lemma_first_line(w, n);
    assert(w.subrange(0, n as int) =~= w);
    lemma_next_token_progress(w, 0);
    let first = TokView {
        position: Position { start_position: 0, end_position: n as usize, line: 1, column: 1 },
        token: crate::token::word_token(w),
    };
    assert(next_token(w, 0) == (Ok::<TokView, ErrorView>(first), n));
    assert(next_token(w, n) == (Ok::<TokView, ErrorView>(end_after_line(n)), n + 1));
    assert(lex_from(w, n).0 == Ok::<Seq<TokView>, ErrorView>(seq![end_after_line(n)]));
    assert(seq![first] + seq![end_after_line(n)] =~= seq![first, end_after_line(n)]);
}

/// A word that is not a keyword, standing alone, is one identifier over the
/// whole source, at line 1 and column 1, followed by the end of the file;
/// upper- and lower-case letters alike.
pub proof fn lemma_lex_identifier(w: Seq<char>)
    requires
        w.len() + 8 < usize::MAX,
        ascii_word(w),
        !is_keyword(w),
    ensures
        lex(w) == Ok::<Seq<TokView>, ErrorView>(
            seq![
                TokView {
                    position: Position { start_position: 0, end_position: w.len() as usize, line: 1, column: 1 },
                    token: TokenView::Identifier(w),
                },
                end_after_line(w.len()),
            ],
        ),
{
    lemma_lex_word(w);
}

/// A keyword standing alone is one token over the whole source, at line 1
/// and column 1, that is not an identifier and is spelled as the keyword,
/// followed by the end of the file.
pub proof fn lemma_lex_keyword(w: Seq<char>)
    requires
        is_keyword(w),
    ensures
        lex(w) matches Ok(ts) && {
            &&& ts.len() == 2
            &&& ts[0].position == (Position { start_position: 0, end_position: w.len() as usize, line: 1, column: 1 })
            &&& !(ts[0].token is Identifier)
            &&& spelling(ts[0].token) == w
            &&& ts[1] == end_after_line(w.len())
        },
{
    reveal_strlit("let");
    reveal_strlit("const");
    reveal_strlit("func");
    reveal_strlit("return");
    reveal_strlit("if");
    reveal_strlit("else");
    assert(ascii_word(w));
    lemma_lex_word(w);
}

/// A run of ASCII digits, standing alone, whatever its first digit, is one
/// number over the whole source, at line 1 and column 1, followed by the end
/// of the file.
pub proof fn lemma_lex_number(d: Seq<char>)
    requires
        d.len() + 8 < usize::MAX,
        d.len() > 0,
        forall|i: int| 0 <= i < d.len() ==> ascii_digit(#[trigger] d[i]),
    ensures
        lex(d) == Ok::<Seq<TokView>, ErrorView>(
            seq![
                TokView {
                    position: Position { start_position: 0, end_position: d.len() as usize, line: 1, column: 1 },
                    token: TokenView::Num(d),
                },
                end_after_line(d.len()),
            ],
        ),
{
    let n = d.len();
    assert forall|k: int| 0 <= k < n implies is_number_char(#[trigger] char_at(d, k)) by {
        assert(ascii_digit(d[k]));
    }
    assert forall|i: int| 0 <= i < n implies #[trigger] char_at(d, i) != Some('\n') by {
        assert(ascii_digit(d[i]));
    }
    lemma_run_end_exact(d, 0, n, |c: Option<char>| is_number_char(c));
    lemma_run_end_exact(d, 0, 0, |c: Option<char>| is_blank(c));
    lemma_run_end_exact(d, n, n, |c: Option<char>| is_blank(c));
    lemma_first_line(d, 0);
    lemma_first_line(d, n);
    assert(d.subrange(0, n as int) =~= d);
    assert(is_decimal_digits(d));
    lemma_next_token_progress(d, 0);
    let first = TokView {
        position: Position { start_position: 0, end_position: n as usize, line: 1, column: 1 },
        token: TokenView::Num(d),
    };
    assert(next_token(d, 0) == (Ok::<TokView, ErrorView>(first), n));
    assert(next_token(d, n) == (Ok::<TokView, ErrorView>(end_after_line(n)), n + 1));
    assert(lex_from(d, n).0 == Ok::<Seq<TokView>, ErrorView>(seq![end_after_line(n)]));
    assert(seq![first] + seq![end_after_line(n)] =~= seq![first, end_after_line(n)]);
}

/// A string at the start of the source: a quote, a text with neither that
/// quote nor a line feed in it, and the same quote again, is one string token
/// over both quotes, whatever follows; lexing then goes on right after the
/// closing quote.
pub proof fn lemma_lex_string(q: char, text: Seq<char>, rest: Seq<char>)
    requires
        q == '\'' || q == '"',
        forall|i: int| 0 <= i < text.len() ==> #[trigger] text[i] != q && text[i] != '\n',
        text.len() + rest.len() + 10 < usize::MAX,
    ensures
        ({
            let s = seq![q] + text + seq![q] + rest;
            lex_from(s, 0) == prepend(
                seq![
                    TokView {
                        position: Position {
                            start_position: 0,
                            end_position: (text.len() + 2) as usize,
                            line: 1,
                            column: 1,
                        },
                        token: TokenView::Str(text),
                    },
                ],
                lex_from(s, text.len() + 2),
            )
        }),
{
    let s = seq![q] + text + seq![q] + rest;
    let n = text.len();
    assert(s[0] == q);
    assert(s[n + 1int] == q);
    assert forall|k: int| 1 <= k < n + 1 implies (|c: Option<char>| c != Some(q) && c != Some('\n'))(
        #[trigger] char_at(s, k),
    ) by {
        assert(s[k] == text[k - 1]);
    }
    lemma_run_end_exact(s, 1, n + 1, |c: Option<char>| c != Some(q) && c != Some('\n'));
    lemma_run_end_exact(s, 0, 0, |c: Option<char>| is_blank(c));
    lemma_first_line(s, 0);
    assert(s.subrange(1, n + 1int) =~= text);
    lemma_next_token_progress(s, 0);
}

/// Lines and columns count from one at the start of the source; a line feed
/// moves to column one of the next line, and any other character moves one
/// column to the right on the same line.
pub proof fn lemma_lines_and_columns(s: Seq<char>, k: nat)
    ensures
        line_of(s, 0) == 1,
        column_of(s, 0) == 1,
        char_at(s, k as int) == Some('\n') ==> line_of(s, k + 1) == line_of(s, k) + 1 && column_of(
            s,
            k + 1,
        ) == 1,
        char_at(s, k as int) != Some('\n') ==> line_of(s, k + 1) == line_of(s, k) && column_of(
            s,
            k + 1,
        ) == column_of(s, k) + 1,
{
    crate::scan::lemma_line_step(s, k);
}

} // verus!
