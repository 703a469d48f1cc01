use vstd::prelude::*;

use crate::arbitrary::{
    enum_arbitrary, impl_result, make_enum_arbitrary, read_variant_kinds, variant_kinds, make_named_struct_arbitrary,
    make_unnamed_struct_arbitrary, named_arbitrary_text, struct_moving, unnamed_arbitrary_text,
    ArbitraryImpl,
};
use crate::model::{AttrError, Data, DeriveError, Item, Fields, TypeParameter};
use crate::shrink::{product_shrink_text, text_result, Style};
use crate::text::{join, join_strings, texts};

verus! {

/// A type parameter with `::quickcheck::Arbitrary` added to its bounds.
pub open spec fn bound_text(tp: TypeParameter) -> Seq<char> {
    tp.tokens@ + (if tp.bound_count == 0 {
        " : "@
    } else {
        " + "@
    }) + "::quickcheck::Arbitrary"@
}

/// The parameters of the impl: every type parameter bound by `Arbitrary`.
pub open spec fn generics_arbitrary_text(tps: Seq<TypeParameter>) -> Seq<char> {
    if tps.len() == 0 {
        Seq::empty()
    } else {
        "<"@ + join(Seq::new(tps.len(), |i: int| bound_text(tps[i])), ", "@) + ">"@
    }
}

/// The arguments of the type: its type parameters' names.
pub open spec fn generics_unconstrained_text(tps: Seq<TypeParameter>) -> Seq<char> {
    if tps.len() == 0 {
        Seq::empty()
    } else {
        "<"@ + join(Seq::new(tps.len(), |i: int| tps[i].ident@), ", "@) + ">"@
    }
}

/// The impl of `::quickcheck::Arbitrary` for `ident`, where it is `Clone`, with
/// the bodies `arbitrary` and `shrink`.
pub open spec fn impl_text(
    ident: Seq<char>,
    params: Seq<char>,
    args: Seq<char>,
    arbitrary: Seq<char>,
    shrink: Seq<char>,
) -> Seq<char> {
    "impl"@ + params + " ::quickcheck::Arbitrary for "@ + ident + args + " where "@ + ident + args
        + " : ::core::clone::Clone { fn arbitrary(g: &mut ::quickcheck::Gen) -> Self { "@ + arbitrary
        + " } fn shrink(&self) -> Box<dyn Iterator<Item = Self>> { "@ + shrink + " } }"@
}

/// The body of `arbitrary` for a union: a compile error.
pub open spec fn union_arbitrary_text() -> Seq<char> {
    "::core::compile_error!{\"Cannot derive QuickCheck for a union yet\"}"@
}

/// A shrinker that gives nothing.
pub open spec fn empty_shrinker_text() -> Seq<char> {
    "::quickcheck::empty_shrinker()"@
}

/// The bodies of `arbitrary` and `shrink` for the type.
pub open spec fn arbitrary_impl(input: Item) -> Result<(Seq<char>, Seq<char>), DeriveError> {
    match input.data {
        Data::Struct(Fields::Named(fs)) => Ok(
            (named_arbitrary_text(fs@), product_shrink_text(fs@, Style::Named(struct_moving()))),
        ),
        Data::Struct(Fields::Unnamed(fs)) => Ok(
            (unnamed_arbitrary_text(fs@), product_shrink_text(fs@, Style::Tuple(struct_moving()))),
        ),
        Data::Struct(Fields::Unit) => Ok(("Self"@, empty_shrinker_text())),
        Data::Enum(vs) => enum_arbitrary(input.ident@, vs@),
        Data::Union => Ok((union_arbitrary_text(), empty_shrinker_text())),
    }
}

/// Whether the derive accepts the `quickcheck` attributes of the type: those of
/// every variant with fields of an enum.
pub open spec fn attributes_accepted(input: Item) -> bool {
    match input.data {
        Data::Enum(vs) => variant_kinds(vs@) is Ok,
        _ => true,
    }
}

/// The source text of the `Arbitrary` impl that the derive generates, or why it
/// is refused; the body is made before the lifetimes are looked at.
pub open spec fn derive_output(input: Item) -> Result<Seq<char>, DeriveError> {
    match arbitrary_impl(input) {
        Err(e) => Err(e),
        Ok((arbitrary, shrink)) => if input.lifetimes@.len() > 0 {
            Err(DeriveError::Lifetimes)
        } else {
            Ok(
                impl_text(
                    input.ident@,
                    generics_arbitrary_text(input.type_params@),
                    generics_unconstrained_text(input.type_params@),
                    arbitrary,
                    shrink,
                ),
            )
        },
    }
}

/// The impl of `::quickcheck::Arbitrary` for `ident`.
pub fn impl_string(ident: &String, params: &String, args: &String, body: &ArbitraryImpl) -> (r: String)
    ensures
        r@ == impl_text(ident@, params@, args@, body.arbitrary@, body.shrink@),
{
    let mut r = String::from_str("impl");
    r.append(params.as_str());
    r.append(" ::quickcheck::Arbitrary for ");
    r.append(ident.as_str());
    r.append(args.as_str());
    r.append(" where ");
    r.append(ident.as_str());
    r.append(args.as_str());
    r.append(" : ::core::clone::Clone { fn arbitrary(g: &mut ::quickcheck::Gen) -> Self { ");
    r.append(body.arbitrary.as_str());
    r.append(" } fn shrink(&self) -> Box<dyn Iterator<Item = Self>> { ");
    r.append(body.shrink.as_str());
    r.append(" } }");
    proof {
        assert(r@ =~= impl_text(ident@, params@, args@, body.arbitrary@, body.shrink@));
    }
    r
}

/// The type parameters, each bound by `::quickcheck::Arbitrary`, in angle brackets.
pub(crate) fn generics_arbitrary_string(tps: &Vec<TypeParameter>) -> (r: String)
    ensures
        r@ == generics_arbitrary_text(tps@),
{
    let n = tps.len();
    if n == 0 {
        return String::new();
    }
    let mut items: Vec<String> = Vec::new();
    let mut i: usize = 0;
    while i < n
        invariant
            n == tps@.len(),
            i <= n,
            items@.len() == i,
            forall|j: int| 0 <= j < i ==> (#[trigger] items@[j])@ == bound_text(tps@[j]),
        decreases n - i,
    {
        let mut item = tps[i].tokens.clone();
        if tps[i].bound_count == 0 {
            item.append(" : ");
        } else {
            item.append(" + ");
        }
        item.append("::quickcheck::Arbitrary");
        proof {
            assert(item@ =~= bound_text(tps@[i as int]));
        }
        items.push(item);
        i += 1;
    }
    proof {
        assert(texts(items@) =~= Seq::new(n as nat, |i: int| bound_text(tps@[i])));
    }
    let mut r = String::from_str("<");
    r.append(join_strings(&items, ", ").as_str());
    r.append(">");
    r
}

/// The names of the type parameters, in angle brackets.
pub(crate) fn generics_unconstrained_string(tps: &Vec<TypeParameter>) -> (r: String)
    ensures
        r@ == generics_unconstrained_text(tps@),
{
    let n = tps.len();
    if n == 0 {
        return String::new();
    }
    let mut items: Vec<String> = Vec::new();
    let mut i: usize = 0;
    while i < n
        invariant
            n == tps@.len(),
            i <= n,
            items@.len() == i,
            forall|j: int| 0 <= j < i ==> (#[trigger] items@[j])@ == tps@[j].ident@,
        decreases n - i,
    {
        items.push(tps[i].ident.clone());
        i += 1;
    }
    proof {
        assert(texts(items@) =~= Seq::new(n as nat, |i: int| tps@[i].ident@));
    }
    let mut r = String::from_str("<");
    r.append(join_strings(&items, ", ").as_str());
    r.append(">");
    r
}

/// The bodies of `arbitrary` and `shrink` for the type.
fn arbitrary_impl_of(input: &Item) -> (r: Result<ArbitraryImpl, DeriveError>)
    requires
        attributes_accepted(*input),
    ensures
        impl_result(r) == arbitrary_impl(*input),
{
    match &input.data {
        Data::Struct(Fields::Named(fs)) => Ok(make_named_struct_arbitrary(fs)),
        Data::Struct(Fields::Unnamed(fs)) => Ok(make_unnamed_struct_arbitrary(fs)),
        Data::Struct(Fields::Unit) => Ok(
            ArbitraryImpl {
                arbitrary: String::from_str("Self"),
                shrink: String::from_str("::quickcheck::empty_shrinker()"),
            },
        ),
        Data::Enum(vs) => Ok(make_enum_arbitrary(&input.ident, vs)),
        Data::Union => Ok(
            ArbitraryImpl {
                shrink: String::from_str("::quickcheck::empty_shrinker()"),
                arbitrary: String::from_str("::core::compile_error!{\"Cannot derive QuickCheck for a union yet\"}"),
            },
        ),
    }
}

/// The source text of an implementation of `quickcheck::Arbitrary` (both
/// `arbitrary` and `shrink`) for the type that `input` describes.
///
/// A struct draws each field with its own `Arbitrary`; an enum draws a variant
/// as [`make_enum_arbitrary`] says, honouring `#[quickcheck(recursive = None |
/// Linear | Exponential)]` on its variants. Every type parameter gets the bound
/// `::quickcheck::Arbitrary`, and the impl requires the type to be `Clone`. A
/// union gets an `arbitrary` that is a compile error.
///
/// The type's `quickcheck` attributes must be accepted ([`check_attributes`]
/// tells). Refused: a type with lifetime parameters.
pub fn derive(input: &Item) -> (r: Result<String, DeriveError>)
    requires
        attributes_accepted(*input),
    ensures
        text_result(r) == derive_output(*input),
{
    let body = match arbitrary_impl_of(input) {
        Err(e) => {
            return Err(e);
        },
        Ok(b) => b,
    };
    if input.lifetimes.len() > 0 {
        return Err(DeriveError::Lifetimes);
    }
    let params = generics_arbitrary_string(&input.type_params);
    let args = generics_unconstrained_string(&input.type_params);
    Ok(impl_string(&input.ident, &params, &args, &body))
}

/// Whether the derive accepts the type's `quickcheck` attributes: the first
/// refused attribute of a variant with fields, in order, if any.
pub fn check_attributes(input: &Item) -> (r: Result<(), AttrError>)
    ensures
        match input.data {
            Data::Enum(vs) => match variant_kinds(vs@) {
                Err(e) => r == Err::<(), AttrError>(e),
                Ok(_) => r is Ok,
            },
            _ => r is Ok,
        },
{
    match &input.data {
        Data::Enum(vs) => match read_variant_kinds(vs) {
            Err(e) => Err(e),
            Ok(_) => Ok(()),
        },
        _ => Ok(()),
    }
}

} // verus!
