use vstd::prelude::*;

use proc_macro2::TokenStream;
use quote::ToTokens;
use syn::punctuated::Punctuated;
use syn::token::Comma;

use crate::model::{AttrArg, AttrValue, ItemAttribute, Data, Item, ItemField, Fields, TypeParameter, ItemVariant};

verus! {

#[verifier::external_type_specification]
#[verifier::external_body]
pub struct ExSynDeriveInput(syn::DeriveInput);

#[verifier::external_type_specification]
#[verifier::external_body]
pub struct ExSynError(syn::Error);

#[verifier::external_type_specification]
#[verifier::external_body]
pub struct ExSynField(syn::Field);

#[verifier::external_type_specification]
#[verifier::external_body]
pub struct ExSynVariant(syn::Variant);

#[verifier::external_type_specification]
#[verifier::external_body]
pub struct ExSynAttribute(syn::Attribute);

#[verifier::external_type_specification]
#[verifier::external_body]
pub struct ExSynMetaNameValue(syn::MetaNameValue);

#[verifier::external_type_specification]
#[verifier::external_body]
pub struct ExSynLifetimeParam(syn::LifetimeParam);

#[verifier::external_type_specification]
#[verifier::external_body]
pub struct ExSynTypeParam(syn::TypeParam);

/// Which body a parsed item has, as `syn::Data` and `syn::Fields` tell it.
pub enum ItemShape {
    NamedStruct,
    TupleStruct,
    UnitStruct,
    Enum,
    Union,
}

/// `syn::parse2::<syn::DeriveInput>`: the item that a derive is applied to, or
/// the parse error. Nothing is claimed of the outcome.
#[verifier::external_body]
pub(crate) fn parse_derive_input(input: TokenStream) -> (r: Result<syn::DeriveInput, syn::Error>) {
    syn::parse2(input)
}

/// `syn::Error::to_compile_error`: tokens that report the error where it was
/// found. Nothing is claimed of them.
#[verifier::external_body]
pub(crate) fn error_tokens(e: syn::Error) -> (r: TokenStream) {
    e.to_compile_error()
}

/// `syn::Error::new_spanned` on the item's name, then `to_compile_error`:
/// tokens that report `message` at the item's name. Nothing is claimed of them.
#[verifier::external_body]
pub(crate) fn error_at_ident(d: &syn::DeriveInput, message: &str) -> (r: TokenStream) {
    syn::Error::new_spanned(&d.ident, message).to_compile_error()
}

/// The item's name as text (`Ident::to_string`).
#[verifier::external_body]
fn item_ident(d: &syn::DeriveInput) -> (r: String) {
    d.ident.to_string()
}

/// The item's lifetime parameters (`Generics::lifetimes`).
#[verifier::external_body]
fn item_lifetimes(d: &syn::DeriveInput) -> (r: Vec<syn::LifetimeParam>) {
    d.generics.lifetimes().cloned().collect()
}

/// A lifetime parameter as source text.
#[verifier::external_body]
fn lifetime_text(l: &syn::LifetimeParam) -> (r: String) {
    l.to_token_stream().to_string()
}

/// The item's type parameters (`Generics::type_params`).
#[verifier::external_body]
fn item_type_params(d: &syn::DeriveInput) -> (r: Vec<syn::TypeParam>) {
    d.generics.type_params().cloned().collect()
}

/// A type parameter's name as text.
#[verifier::external_body]
fn type_param_ident(tp: &syn::TypeParam) -> (r: String) {
    tp.ident.to_string()
}

/// A type parameter, with its bounds, as source text.
#[verifier::external_body]
fn type_param_text(tp: &syn::TypeParam) -> (r: String) {
    tp.to_token_stream().to_string()
}

/// The number of a type parameter's bounds.
#[verifier::external_body]
fn type_param_bound_count(tp: &syn::TypeParam) -> (r: usize) {
    tp.bounds.len()
}

/// Which of `syn::Data` and, for a struct, `syn::Fields` the item's body is.
#[verifier::external_body]
fn item_shape(d: &syn::DeriveInput) -> (r: ItemShape) {
    match &d.data {
        syn::Data::Struct(s) => match &s.fields {
            syn::Fields::Named(_) => ItemShape::NamedStruct,
            syn::Fields::Unnamed(_) => ItemShape::TupleStruct,
            syn::Fields::Unit => ItemShape::UnitStruct,
        },
        syn::Data::Enum(_) => ItemShape::Enum,
        syn::Data::Union(_) => ItemShape::Union,
    }
}

/// The fields of a struct item (none for another item).
#[verifier::external_body]
fn item_fields(d: &syn::DeriveInput) -> (r: Vec<syn::Field>) {
    match &d.data {
        syn::Data::Struct(s) => s.fields.iter().cloned().collect(),
        syn::Data::Enum(_) | syn::Data::Union(_) => Vec::new(),
    }
}

/// The variants of an enum item (none for another item).
#[verifier::external_body]
fn item_variants(d: &syn::DeriveInput) -> (r: Vec<syn::Variant>) {
    match &d.data {
        syn::Data::Enum(e) => e.variants.iter().cloned().collect(),
        syn::Data::Struct(_) | syn::Data::Union(_) => Vec::new(),
    }
}

/// A field's name as text, if it has one.
#[verifier::external_body]
fn field_ident(f: &syn::Field) -> (r: Option<String>) {
    f.ident.as_ref().map(|i| i.to_string())
}

/// A field's type as source text.
#[verifier::external_body]
fn field_type(f: &syn::Field) -> (r: String) {
    f.ty.to_token_stream().to_string()
}

/// A variant's name as text.
#[verifier::external_body]
fn variant_ident(v: &syn::Variant) -> (r: String) {
    v.ident.to_string()
}

/// A variant's fields.
#[verifier::external_body]
fn variant_fields(v: &syn::Variant) -> (r: Vec<syn::Field>) {
    v.fields.iter().cloned().collect()
}

/// A variant's attributes.
#[verifier::external_body]
fn variant_attrs(v: &syn::Variant) -> (r: Vec<syn::Attribute>) {
    v.attrs.clone()
}

/// An attribute's path as text, where it is one identifier (`Path::get_ident`).
#[verifier::external_body]
fn attribute_path(a: &syn::Attribute) -> (r: Option<String>) {
    a.meta.path().get_ident().map(|i| i.to_string())
}

/// `Attribute::parse_args_with` of a comma-separated list of `key = value`:
/// the arguments, or `None` where they do not parse as such a list.
#[verifier::external_body]
fn attribute_args(a: &syn::Attribute) -> (r: Option<Vec<syn::MetaNameValue>>) {
    a.parse_args_with(Punctuated::<syn::MetaNameValue, Comma>::parse_terminated)
        .ok()
        .map(|args| args.into_iter().collect())
}

/// The key of `key = value` as text, where it is one identifier.
#[verifier::external_body]
fn arg_key(m: &syn::MetaNameValue) -> (r: Option<String>) {
    m.path.get_ident().map(|i| i.to_string())
}

/// The value of `key = value`: a one-identifier path with its text, another
/// path, or another expression.
#[verifier::external_body]
fn arg_value(m: &syn::MetaNameValue) -> (r: AttrValue) {
    match &m.value {
        syn::Expr::Path(v) => match v.path.get_ident() {
            Some(i) => AttrValue::Ident(i.to_string()),
            None => AttrValue::Path,
        },
        _ => AttrValue::Other,
    }
}

fn describe_fields(fs: &Vec<syn::Field>) -> (r: Vec<ItemField>)
    ensures
        r@.len() == fs@.len(),
{
    let mut out: Vec<ItemField> = Vec::new();
    let mut i: usize = 0;
    while i < fs.len()
        invariant
            i <= fs@.len(),
            out@.len() == i,
        decreases fs@.len() - i,
    {
        out.push(ItemField { ident: field_ident(&fs[i]), ty: field_type(&fs[i]) });
        i += 1;
    }
    out
}

fn describe_attribute(a: &syn::Attribute) -> (r: ItemAttribute) {
    let args = match attribute_args(a) {
        None => None,
        Some(list) => {
            let mut out: Vec<AttrArg> = Vec::new();
            let mut i: usize = 0;
            while i < list.len()
                invariant
                    i <= list@.len(),
                decreases list@.len() - i,
            {
                out.push(AttrArg { key: arg_key(&list[i]), value: arg_value(&list[i]) });
                i += 1;
            }
            Some(out)
        },
    };
    ItemAttribute { path: attribute_path(a), args }
}

fn describe_variant(v: &syn::Variant) -> (r: ItemVariant) {
    let attrs = variant_attrs(v);
    let mut described: Vec<ItemAttribute> = Vec::new();
    let mut i: usize = 0;
    while i < attrs.len()
        invariant
            i <= attrs@.len(),
        decreases attrs@.len() - i,
    {
        described.push(describe_attribute(&attrs[i]));
        i += 1;
    }
    ItemVariant { ident: variant_ident(v), fields: describe_fields(&variant_fields(v)), attrs: described }
}

/// Whether `data` is a body of the shape `shape`: a struct with named fields,
/// a tuple struct, a struct without fields, an enum or a union.
pub open spec fn has_shape(data: Data, shape: ItemShape) -> bool {
    match shape {
        ItemShape::NamedStruct => data matches Data::Struct(Fields::Named(_)),
        ItemShape::TupleStruct => data matches Data::Struct(Fields::Unnamed(_)),
        ItemShape::UnitStruct => data matches Data::Struct(Fields::Unit),
        ItemShape::Enum => data is Enum,
        ItemShape::Union => data is Union,
    }
}

/// The library's description of a parsed item: its name, lifetime and type
/// parameters, and its body, field by field and variant by variant; with the
/// shape that `syn` gives the item's body, which the description keeps.
pub(crate) fn describe(d: &syn::DeriveInput) -> (r: (Item, ItemShape))
    ensures
        has_shape(r.0.data, r.1),
{
    let shape = item_shape(d);
    let data = match shape {
        ItemShape::NamedStruct => Data::Struct(Fields::Named(describe_fields(&item_fields(d)))),
        ItemShape::TupleStruct => Data::Struct(Fields::Unnamed(describe_fields(&item_fields(d)))),
        ItemShape::UnitStruct => Data::Struct(Fields::Unit),
        ItemShape::Enum => {
            let vs = item_variants(d);
            let mut described: Vec<ItemVariant> = Vec::new();
            let mut i: usize = 0;
            while i < vs.len()
                invariant
                    i <= vs@.len(),
                decreases vs@.len() - i,
            {
                described.push(describe_variant(&vs[i]));
                i += 1;
            }
            Data::Enum(described)
        },
        ItemShape::Union => Data::Union,
    };
    let ls = item_lifetimes(d);
    let mut lifetimes: Vec<String> = Vec::new();
    let mut i: usize = 0;
    while i < ls.len()
        invariant
            i <= ls@.len(),
        decreases ls@.len() - i,
    {
        lifetimes.push(lifetime_text(&ls[i]));
        i += 1;
    }
    let tps = item_type_params(d);
    let mut type_params: Vec<TypeParameter> = Vec::new();
    let mut j: usize = 0;
    while j < tps.len()
        invariant
            j <= tps@.len(),
        decreases tps@.len() - j,
    {
        type_params.push(
            TypeParameter {
                ident: type_param_ident(&tps[j]),
                tokens: type_param_text(&tps[j]),
                bound_count: type_param_bound_count(&tps[j]),
            },
        );
        j += 1;
    }
    (Item { ident: item_ident(d), lifetimes, type_params, data }, shape)
}

} // verus!
