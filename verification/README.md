# Envlang front end, verified

Envlang is an interpreted language in which everything is an environment. This crate holds
its front end — Unicode segmentation, lexing and parsing — written in Verus, with each
function's behaviour stated as a contract and proved.

## Layout

- `src/unicodesegmenters.rs`, `src/unicodeparser.rs`: splitting source text into extended
  grapheme clusters (through `unicode-segmentation`), dropping whitespace clusters, joining
  runs of integer clusters; the law `joining_keeps_the_text` says that joining loses no
  text when no whitespace stands in a run.
- `src/lexer/`: the lexer. Its behaviour is the spec function `lex_from`; the laws
  `lexing_ends_with_eof` and `symbol_text_lexes_back` stand beside it.
- `src/parser/`: the parser. `syntax.rs` states every parsing step as a spec function,
  `mod.rs` holds the parser proved against them, `progress.rs` proves that every program
  parses, to a tree or an error, and `lines.rs` that the line counter
  counts the line breaks read.
- `src/lenient_lexer.rs`, `src/value_parser.rs`, `src/environment.rs`: the older lexer that
  skips what it does not recognise, and the value parser that reads literals into an
  environment.
- `src/symbols.rs`, `src/chars.rs`, `src/numerals.rs`: symbol tables, character classes and
  decimal numerals.
- `src/io.rs`: the check made on source file names.
- `app/main.rs`: the command-line program, which reads an `.envl` file.
