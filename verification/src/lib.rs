//! Generation of `quickcheck::Arbitrary` implementations.
//!
//! A type is described by [`model::Item`]; [`arbitrary_derive::derive`]
//! gives the source text of an implementation of `quickcheck::Arbitrary` for it
//! (both `arbitrary` and `shrink`), honouring `#[quickcheck(recursive = None |
//! Linear | Exponential)]` on the variants of an enum, and
//! [`derive_macros::derive`] the simpler one, which reads no attributes and
//! does not shrink enums. [`tokens`] is the entry from tokens to tokens: it parses an item
//! with `syn` ([`syntax`]), checks it, and lexes the generated text. [`tree::Tree`] is a rose
//! tree, the kind of recursive type that the attribute is for.

pub mod arbitrary;
pub mod arbitrary_derive;
pub mod attrs;
pub mod derive_macros;
pub mod model;
pub mod shrink;
pub mod syntax;
pub mod text;
pub mod tokens;
pub mod tree;
