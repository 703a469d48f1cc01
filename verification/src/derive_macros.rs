use vstd::prelude::*;

use crate::arbitrary::{
    arm_text, field_arbitrary_strings, named_arbitrary_text, unnamed_arbitrary_text,
    variant_constructor_string, ArbitraryImpl,
};
use crate::arbitrary_derive::{
    empty_shrinker_text, generics_arbitrary_string, generics_arbitrary_text, generics_unconstrained_string,
    generics_unconstrained_text, impl_string, impl_text, union_arbitrary_text,
};
use crate::model::{Data, DeriveError, Item, Fields, RecursiveKind, ItemVariant};
use crate::shrink::{generate_product_shrink, product_shrink_text, text_result, ShrinkStyle, Style};
use crate::text::{decimal, join, join_strings, push_decimal, texts};

verus! {

/// The closure parameter of the shrinkers of this derive.
pub open spec fn short_moving() -> Seq<char> {
    "e"@
}

/// The body of `arbitrary` for an enum: a number drawn from `g`, taken modulo
/// the number of variants, selects the variant in declaration order; every
/// field is drawn from `g`.
pub open spec fn plain_enum_arbitrary_text(vs: Seq<ItemVariant>) -> Seq<char> {
    "match <::core::primitive::usize as ::quickcheck::Arbitrary>::arbitrary(g) % "@ + decimal(vs.len())
        + "usize { "@ + join(
        Seq::new(vs.len(), |i: int| arm_text(i, vs[i], RecursiveKind::NotRecursive)),
        ", "@,
    ) + ", _ => ::core::unreachable!() }"@
}

/// The bodies of `arbitrary` and `shrink` for the type.
pub open spec fn plain_arbitrary_impl(input: Item) -> (Seq<char>, Seq<char>) {
    match input.data {
        Data::Struct(Fields::Named(fs)) => (named_arbitrary_text(fs@), product_shrink_text(fs@, Style::Named(short_moving()))),
        Data::Struct(Fields::Unnamed(fs)) => (unnamed_arbitrary_text(fs@), product_shrink_text(fs@, Style::Tuple(short_moving()))),
        Data::Struct(Fields::Unit) => ("Self"@, empty_shrinker_text()),
        Data::Enum(vs) => (plain_enum_arbitrary_text(vs@), empty_shrinker_text()),
        Data::Union => (union_arbitrary_text(), empty_shrinker_text()),
    }
}

/// The source text of the impl that this derive generates, with every type
/// parameter bound by `Arbitrary`; a type with lifetime parameters is refused.
pub open spec fn plain_derive_output(input: Item) -> Result<Seq<char>, DeriveError> {
    if input.lifetimes@.len() > 0 {
        Err(DeriveError::Lifetimes)
    } else {
        let (a, s) = plain_arbitrary_impl(input);
        Ok(
            impl_text(
                input.ident@,
                generics_arbitrary_text(input.type_params@),
                generics_unconstrained_text(input.type_params@),
                a,
                s,
            ),
        )
    }
}

/// The bodies of `arbitrary` and `shrink` for the type.
fn plain_arbitrary_impl_of(input: &Item) -> (r: ArbitraryImpl)
    ensures
        (r.arbitrary@, r.shrink@) == plain_arbitrary_impl(*input),
{
    match &input.data {
        Data::Struct(Fields::Named(fs)) => {
            let style = ShrinkStyle::Named { moving: String::from_str("e") };
            let shrink = generate_product_shrink(fs, &style);
            let mut arbitrary = String::from_str("Self { ");
            arbitrary.append(join_strings(&field_arbitrary_strings(fs, "g", true), ", ").as_str());
            arbitrary.append(" }");
            proof {
                assert(arbitrary@ =~= named_arbitrary_text(fs@));
            }
            ArbitraryImpl { arbitrary, shrink }
        },
        Data::Struct(Fields::Unnamed(fs)) => {
            let style = ShrinkStyle::Tuple { moving: String::from_str("e") };
            let shrink = generate_product_shrink(fs, &style);
            let mut arbitrary = String::from_str("Self(");
            arbitrary.append(join_strings(&field_arbitrary_strings(fs, "g", false), ", ").as_str());
            arbitrary.append(")");
            proof {
                assert(arbitrary@ =~= unnamed_arbitrary_text(fs@));
            }
            ArbitraryImpl { arbitrary, shrink }
        },
        Data::Struct(Fields::Unit) => ArbitraryImpl {
            shrink: String::from_str("::quickcheck::empty_shrinker()"),
            arbitrary: String::from_str("Self"),
        },
        Data::Enum(vs) => {
            let n = vs.len();
            let mut arms: Vec<String> = Vec::new();
            let mut i: usize = 0;
            while i < n
                invariant
                    n == vs@.len(),
                    i <= n,
                    arms@.len() == i,
                    forall|j: int| 0 <= j < i ==> (#[trigger] arms@[j])@ == arm_text(
                        j,
                        vs@[j],
                        RecursiveKind::NotRecursive,
                    ),
                decreases n - i,
            {
                let mut arm = String::new();
                push_decimal(&mut arm, i);
                arm.append("usize => ");
                arm.append(variant_constructor_string(&vs[i], RecursiveKind::NotRecursive).as_str());
                proof {
                    assert(arm@ =~= arm_text(i as int, vs@[i as int], RecursiveKind::NotRecursive));
                }
                arms.push(arm);
                i += 1;
            }
            proof {
                assert(texts(arms@) =~= Seq::new(
                    n as nat,
                    |i: int| arm_text(i, vs@[i], RecursiveKind::NotRecursive),
                ));
            }
            let mut arbitrary = String::from_str(
                "match <::core::primitive::usize as ::quickcheck::Arbitrary>::arbitrary(g) % ",
            );
            push_decimal(&mut arbitrary, n);
            arbitrary.append("usize { ");
            arbitrary.append(join_strings(&arms, ", ").as_str());
            arbitrary.append(", _ => ::core::unreachable!() }");
            proof {
                assert(arbitrary@ =~= plain_enum_arbitrary_text(vs@));
            }
            ArbitraryImpl { arbitrary, shrink: String::from_str("::quickcheck::empty_shrinker()") }
        },
        Data::Union => ArbitraryImpl {
            shrink: String::from_str("::quickcheck::empty_shrinker()"),
            arbitrary: String::from_str("::core::compile_error!{\"Cannot derive QuickCheck for a union yet\"}"),
        },
    }
}

/// The source text of an implementation of `quickcheck::Arbitrary` for the
/// type that `input` describes, every type parameter bound by `Arbitrary`: a
/// struct draws and shrinks each field (the shrunk value bound to `e`), an
/// enum draws one of its variants, each as likely, and does not shrink, a
/// union gets an `arbitrary` that is a compile error. Refused: a type with
/// lifetime parameters.
pub fn derive(input: &Item) -> (r: Result<String, DeriveError>)
    ensures
        text_result(r) == plain_derive_output(*input),
{
    if input.lifetimes.len() > 0 {
        return Err(DeriveError::Lifetimes);
    }
    let body = plain_arbitrary_impl_of(input);
    let params = generics_arbitrary_string(&input.type_params);
    let args = generics_unconstrained_string(&input.type_params);
    Ok(impl_string(&input.ident, &params, &args, &body))
}

} // verus!
