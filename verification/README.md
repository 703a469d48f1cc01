# quickcheck-arbitrary-derive

Generation of `quickcheck::Arbitrary` implementations (`arbitrary` and
`shrink`), verified with Verus.

- `src/model.rs` — the description of a type: fields, variants, attributes,
  type parameters; the error types.
- `src/attrs.rs` — reading `#[quickcheck(recursive = None | Linear | Exponential)]`.
- `src/shrink.rs` — the body of `shrink` for structs and variants.
- `src/arbitrary.rs` — the bodies for structs and enums; the order of enum arms
  and its laws.
- `src/arbitrary_derive.rs` — the whole impl, with generics.
- `src/derive_macros.rs` — the simpler impl, which reads no attributes and
  does not shrink enums.
- `src/syntax.rs` — reading an item's tokens with `syn` into the description.
- `src/tokens.rs` — the entry points from tokens to tokens: parse, check,
  generate, lex.
- `src/text.rs` — joining and decimal text.
- `src/tree.rs` — a rose tree with `flip` and `size`, and their laws.
- `app/lib.rs` — the entry points that a `proc-macro` crate wraps: they hand
  back the library's tokens, or fail the derive with the message of a refused
  attribute.
