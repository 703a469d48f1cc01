use vstd::prelude::*;

use proc_macro2::{LexError, TokenStream};

use crate::arbitrary_derive;
use crate::arbitrary_derive::{check_attributes, derive_output};
use crate::derive_macros;
use crate::derive_macros::plain_derive_output;
use crate::model::{DeriveError, Item};
use crate::syntax::{describe, error_at_ident, error_tokens, parse_derive_input};

verus! {

#[verifier::external_type_specification]
#[verifier::external_body]
pub struct ExTokenStream(proc_macro2::TokenStream);

#[verifier::external_type_specification]
#[verifier::external_body]
pub struct ExLexError(proc_macro2::LexError);

/// Why no tokens come out of a derive.
#[derive(Clone, Copy, Debug, PartialEq, Eq, Structural)]
pub enum TokensError {
    /// The derive refuses the type.
    Derive(DeriveError),
    /// The generated source text did not lex.
    Lex,
}

/// `<proc_macro2::TokenStream as FromStr>::from_str`: the tokens of `text`, or
/// a lexing error. Nothing is claimed of the outcome: inside a procedural
/// macro the compiler's lexer decides it, outside one `proc_macro2`'s own.
#[verifier::external_body]
fn lex(text: &str) -> (r: Result<TokenStream, LexError>) {
    text.parse()
}

/// The tokens of generated source text.
fn tokens_of(text: &String) -> (r: Result<TokenStream, TokensError>)
    ensures
        r matches Err(e) ==> e == TokensError::Lex,
{
    match lex(text.as_str()) {
        Ok(tokens) => Ok(tokens),
        Err(_) => Err(TokensError::Lex),
    }
}

/// What a derive hands back to the compiler.
pub enum Expansion {
    /// The generated impl.
    Impl(TokenStream),
    /// A compile error in place of the impl: the input is not an item, or the
    /// type has lifetime parameters.
    CompileError(TokenStream),
}

/// `#[derive(QuickCheck)]` on the tokens of an item: the item's description,
/// where the tokens parse as one, and what to hand back.
///
/// Tokens that are not an item give its parse error as a compile error. Then
/// the attributes are checked: a refused one is returned as the error (the
/// derive fails with its message). A type with lifetime parameters gives a
/// compile error at its name. Otherwise the tokens of the generated impl
/// ([`arbitrary_derive::derive`]), or `Lex` where that text does not lex.
pub fn derive_entry(input: TokenStream) -> (r: (Option<Item>, Result<Expansion, TokensError>))
    ensures
        r.0 is None ==> r.1 matches Ok(Expansion::CompileError(_)),
        r.0 matches Some(d) ==> match derive_output(d) {
            Err(DeriveError::Lifetimes) => r.1 matches Ok(Expansion::CompileError(_)),
            Err(e) => r.1 == Err::<Expansion, TokensError>(TokensError::Derive(e)),
            Ok(_) => r.1 matches Ok(Expansion::Impl(_)) || r.1 == Err::<Expansion, TokensError>(
                TokensError::Lex,
            ),
        },
{
    let parsed = match parse_derive_input(input) {
        Err(e) => {
            return (None, Ok(Expansion::CompileError(error_tokens(e))));
        },
        Ok(parsed) => parsed,
    };
    let (d, _) = describe(&parsed);
    if let Err(e) = check_attributes(&d) {
        return (Some(d), Err(TokensError::Derive(DeriveError::Attribute(e))));
    }
    let r = match arbitrary_derive::derive(&d) {
        Err(DeriveError::Lifetimes) => Ok(
            Expansion::CompileError(error_at_ident(&parsed, DeriveError::Lifetimes.message())),
        ),
        Err(e) => Err(TokensError::Derive(e)),
        Ok(text) => match tokens_of(&text) {
            Ok(tokens) => Ok(Expansion::Impl(tokens)),
            Err(e) => Err(e),
        },
    };
    (Some(d), r)
}

/// The simpler `#[derive(QuickCheck)]` ([`derive_macros::derive`]) on the
/// tokens of an item: the item's description, where the tokens parse as one,
/// and what to hand back, as [`derive_entry`] says; it reads no attributes.
pub fn derive_entry_without_enum_shrinking(input: TokenStream) -> (r: (
    Option<Item>,
    Result<Expansion, TokensError>,
))
    ensures
        r.0 is None ==> r.1 matches Ok(Expansion::CompileError(_)),
        r.0 matches Some(d) ==> match plain_derive_output(d) {
            Err(DeriveError::Lifetimes) => r.1 matches Ok(Expansion::CompileError(_)),
            Err(e) => r.1 == Err::<Expansion, TokensError>(TokensError::Derive(e)),
            Ok(_) => r.1 matches Ok(Expansion::Impl(_)) || r.1 == Err::<Expansion, TokensError>(
                TokensError::Lex,
            ),
        },
{
    let parsed = match parse_derive_input(input) {
        Err(e) => {
            return (None, Ok(Expansion::CompileError(error_tokens(e))));
        },
        Ok(parsed) => parsed,
    };
    let (d, _) = describe(&parsed);
    let r = match derive_macros::derive(&d) {
        Err(DeriveError::Lifetimes) => Ok(
            Expansion::CompileError(error_at_ident(&parsed, DeriveError::Lifetimes.message())),
        ),
        Err(e) => Err(TokensError::Derive(e)),
        Ok(text) => match tokens_of(&text) {
            Ok(tokens) => Ok(Expansion::Impl(tokens)),
            Err(e) => Err(e),
        },
    };
    (Some(d), r)
}

} // verus!
