# proc_macro_workshop

Three procedural macros, `seq!`, `#[derive(Builder)]` and
`#[derive(CustomDebug)]`, whose logic is written as functions on a model of
token trees and of the annotated struct, with contracts proved by Verus.

- `src/tokens.rs`: token trees (`Token`) and their mathematical value (`TokenV`).
- `src/decimal.rs`: the decimal text of a counter value.
- `src/syn_calls.rs`: what is asked of `syn` (is this text an identifier; what
  integer literal is this text; what item, type, attribute or attribute item
  does this text hold), as trusted wrappers.
- `src/source_text.rs`: the source text of token trees, for the parser.
- `src/lexing.rs`: which token trees lex back from that text as themselves,
  with no literal of a kind `syn` does not know (a C string).
- `src/expand.rs`: finding repetitions `#( ... )*` and expanding a body for
  one counter value.
- `src/seq_macro.rs`: reading `N in a..b { body }` the way `syn` reads it, and
  `seq` / `eseq`.
- `src/seq_laws.rs`: what holds of every expansion (identity on untouched
  tokens, one block per counter value and its length, `a..=b` as `a..b+1`).
- `src/derive_input.rs`, `src/builder.rs`, `src/debug.rs`: what the two derives
  read of the item's token trees and what they write for each field.
- `src/procs.rs`: the process table of the example program.

The functions named after the original macros (`seq`, `eseq`, the two
`derive`s) leave out by `requires` the inputs on which the macros panic; the
`check_*` functions take any input, name the panic as an error value, and call
them only where it does not arise.

`app/` holds what stays outside the proofs: converting `proc_macro2` token
streams to and from the model, writing the derived code with `quote!`, and the
example program.
