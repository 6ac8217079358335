# parser

The lexer of a small scripting language, and the errors that its lexer and
parser report, written in Verus with their behaviour proved.

- `src/scan.rs` states the lexical grammar: which token, or which lexical
  error, stands at each place of a source, and the line and column of each
  place.
- `src/lexer.rs` is the lexer itself; `Lexer::run` is proved to give exactly
  the tokens, or the first error, that the grammar describes.
- `src/laws.rs` proves what lexing promises of every source: the tokens are in
  order, each is spelled by the source over its span, only blanks lie between
  them, the end of the file comes last, and errors are lexical ones.
- `src/token.rs`, `src/position.rs` and `src/error.rs` hold the tokens, the
  positions and the errors; `src/diagnostic.rs` turns an error into a
  `codespan_reporting` diagnostic.
- `app/` shows errors on a terminal and turns number tokens into `f64`.
