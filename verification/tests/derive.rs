use quickcheck_arbitrary_derive::arbitrary_derive;
use quickcheck_arbitrary_derive::derive_macros;
use quickcheck_arbitrary_derive::model::{
    AttrArg, AttrError, AttrValue, ItemAttribute, Data, DeriveError, Item, ItemField, Fields,
    TypeParameter, ItemVariant,
};
use quickcheck_arbitrary_derive::shrink::{generate_product_shrink, make_enum_puller, ShrinkStyle};
use quickcheck_arbitrary_derive::text::{decimal_string, join_strings};
use quickcheck_arbitrary_derive::tokens::{
    derive_entry, derive_entry_without_enum_shrinking, Expansion, TokensError,
};

const HEAD: &str = "impl";
const ARB: &str = " : ::core::clone::Clone { fn arbitrary(g: &mut ::quickcheck::Gen) -> Self { ";
const SHR: &str = " } fn shrink(&self) -> Box<dyn Iterator<Item = Self>> { ";
const MOV: &str = "__quickcheck_derive_moving";

fn unnamed(ty: &str) -> ItemField {
    ItemField { ident: None, ty: ty.to_string() }
}

fn named(name: &str, ty: &str) -> ItemField {
    ItemField { ident: Some(name.to_string()), ty: ty.to_string() }
}

fn input(ident: &str, data: Data) -> Item {
    Item { ident: ident.to_string(), lifetimes: vec![], type_params: vec![], data }
}

fn variant(ident: &str, fields: Vec<ItemField>, attrs: Vec<ItemAttribute>) -> ItemVariant {
    ItemVariant { ident: ident.to_string(), fields, attrs }
}

fn recursive(strategy: &str) -> ItemAttribute {
    ItemAttribute {
        path: Some("quickcheck".to_string()),
        args: Some(vec![AttrArg {
            key: Some("recursive".to_string()),
            value: AttrValue::Ident(strategy.to_string()),
        }]),
    }
}

fn full_impl(params: &str, ident_args: &str, arbitrary: &str, shrink: &str) -> String {
    format!(
        "{HEAD}{params} ::quickcheck::Arbitrary for {ident_args} where {ident_args}{ARB}{arbitrary}{SHR}{shrink} }} }}"
    )
}

fn arb(ty: &str, g: &str) -> String {
    format!("<{ty} as ::quickcheck::Arbitrary>::arbitrary({g})")
}

fn is_impl(text: &str) -> bool {
    syn::parse_str::<syn::ItemImpl>(text).is_ok()
}

#[test]
fn unit_struct() {
    let out = arbitrary_derive::derive(&input("Unit", Data::Struct(Fields::Unit))).unwrap();
    assert_eq!(out, full_impl("", "Unit", "Self", "::quickcheck::empty_shrinker()"));
    assert!(is_impl(&out));
}

#[test]
fn tuple_struct() {
    let out = arbitrary_derive::derive(&input(
        "Paired",
        Data::Struct(Fields::Unnamed(vec![unnamed("f32"), unnamed("f32")])),
    ))
    .unwrap();
    let c0 = format!(
        "::std::iter::Iterator::map(<f32 as ::quickcheck::Arbitrary>::shrink(&self.0), move |{MOV}| Self({MOV}, ::core::clone::Clone::clone(&self_0.1)))"
    );
    let c1 = format!(
        "::std::iter::Iterator::map(<f32 as ::quickcheck::Arbitrary>::shrink(&self.1), move |{MOV}| Self(::core::clone::Clone::clone(&self_1.0), {MOV}))"
    );
    let shrink = format!(
        "let self_0 = <Self as ::std::clone::Clone>::clone(&self); let self_1 = <Self as ::std::clone::Clone>::clone(&self); ::std::boxed::Box::new(::std::iter::Iterator::chain({c1}, {c0}))"
    );
    let arbitrary = format!("Self({}, {})", arb("f32", "g"), arb("f32", "g"));
    assert_eq!(out, full_impl("", "Paired", &arbitrary, &shrink));
    assert!(is_impl(&out));
}

#[test]
fn named_struct() {
    let out = arbitrary_derive::derive(&input(
        "Vector3",
        Data::Struct(Fields::Named(vec![named("x", "f32"), named("y", "i32"), named("z", "u32")])),
    ))
    .unwrap();
    let c = |f: &str, ty: &str, others: [&str; 2]| {
        format!(
            "::std::iter::Iterator::map(<{ty} as ::quickcheck::Arbitrary>::shrink(&self.{f}), move |{MOV}| Self {{ {f}: {MOV}, {a}: ::core::clone::Clone::clone(&self_{f}.{a}), {b}: ::core::clone::Clone::clone(&self_{f}.{b}) }})",
            a = others[0],
            b = others[1]
        )
    };
    let chain = format!(
        "::std::iter::Iterator::chain(::std::iter::Iterator::chain({}, {}), {})",
        c("z", "u32", ["x", "y"]),
        c("y", "i32", ["x", "z"]),
        c("x", "f32", ["y", "z"])
    );
    let copies = "let self_x = <Self as ::std::clone::Clone>::clone(&self); let self_y = <Self as ::std::clone::Clone>::clone(&self); let self_z = <Self as ::std::clone::Clone>::clone(&self);";
    let shrink = format!("{copies} ::std::boxed::Box::new({chain})");
    let arbitrary = format!(
        "Self {{ x: {}, y: {}, z: {} }}",
        arb("f32", "g"),
        arb("i32", "g"),
        arb("u32", "g")
    );
    assert_eq!(out, full_impl("", "Vector3", &arbitrary, &shrink));
    assert!(is_impl(&out));
}

#[test]
fn generic_struct_bounds_every_parameter() {
    let mut inp = input(
        "Generic",
        Data::Struct(Fields::Named(vec![named("a", "T"), named("b", "U")])),
    );
    inp.type_params = vec![
        TypeParameter { ident: "T".to_string(), tokens: "T : Clone".to_string(), bound_count: 1 },
        TypeParameter { ident: "U".to_string(), tokens: "U".to_string(), bound_count: 0 },
    ];
    let out = arbitrary_derive::derive(&inp).unwrap();
    assert!(out.starts_with(
        "impl<T : Clone + ::quickcheck::Arbitrary, U : ::quickcheck::Arbitrary> ::quickcheck::Arbitrary for Generic<T, U> where Generic<T, U> : ::core::clone::Clone {"
    ));
    assert!(is_impl(&out));
}

#[test]
fn plain_enum() {
    let out = arbitrary_derive::derive(&input(
        "Basic",
        Data::Enum(vec![variant("A", vec![], vec![]), variant("B", vec![], vec![])]),
    ))
    .unwrap();
    let arbitrary = "match <::core::primitive::usize as ::quickcheck::Arbitrary>::arbitrary(g) % (if ::quickcheck::Gen::size(g) > 1 { 2usize } else { 2usize - 0usize }) { 0usize => Self::A, 1usize => Self::B, _ => ::core::unreachable!() }";
    let shrink = "match &self { Basic::A => ::std::boxed::Box::new(::quickcheck::empty_shrinker()), Basic::B => ::std::boxed::Box::new(::quickcheck::empty_shrinker()) }";
    assert_eq!(out, full_impl("", "Basic", arbitrary, shrink));
    assert!(is_impl(&out));
}

#[test]
fn recursive_variants_come_last() {
    let mut inp = input(
        "Tree",
        Data::Enum(vec![
            variant("Branch", vec![unnamed("Vec<Tree<T>>")], vec![recursive("Exponential")]),
            variant("Leaf", vec![unnamed("T")], vec![]),
        ]),
    );
    inp.type_params =
        vec![TypeParameter { ident: "T".to_string(), tokens: "T".to_string(), bound_count: 0 }];
    let out = arbitrary_derive::derive(&inp).unwrap();
    let half = "&mut ::quickcheck::Gen::new(::std::cmp::max(::quickcheck::Gen::size(g) / 2, 1))";
    let arbitrary = format!(
        "match <::core::primitive::usize as ::quickcheck::Arbitrary>::arbitrary(g) % (if ::quickcheck::Gen::size(g) > 1 {{ 2usize }} else {{ 2usize - 1usize }}) {{ 0usize => Self::Leaf({}), 1usize => Self::Branch({}), _ => ::core::unreachable!() }}",
        arb("T", "g"),
        arb("Vec<Tree<T>>", half)
    );
    let pull = |src: &str| {
        format!("if let Self::{{}}(__quickcheck_derive_match_puller) = &{src} {{ __quickcheck_derive_match_puller }} else {{ ::core::unreachable!() }}")
    };
    let arm = |v: &str, ty: &str| {
        format!(
            "Tree::{v}(_) => {{let self_0 = <Self as ::std::clone::Clone>::clone(&self); ::std::boxed::Box::new(::std::iter::Iterator::map(<{ty} as ::quickcheck::Arbitrary>::shrink({}), move |{MOV}| Self::{v}({MOV})))}}",
            pull("self").replace("{}", v)
        )
    };
    let shrink = format!("match &self {{ {}, {} }}", arm("Branch", "Vec<Tree<T>>"), arm("Leaf", "T"));
    assert_eq!(out, full_impl("<T : ::quickcheck::Arbitrary>", "Tree<T>", &arbitrary, &shrink));
    assert!(is_impl(&out));
}

#[test]
fn linear_variant_draws_from_smaller_generator() {
    let out = arbitrary_derive::derive(&input(
        "List",
        Data::Enum(vec![
            variant("Node", vec![unnamed("T"), unnamed("Box<List<T>>")], vec![recursive("Linear")]),
            variant("Tail", vec![], vec![recursive("Exponential")]),
        ]),
    ))
    .unwrap();
    let less = "&mut ::quickcheck::Gen::new(::std::cmp::max(::quickcheck::Gen::size(g) - 1, 1))";
    assert!(out.contains(&format!(
        "{{ 0usize => Self::Tail, 1usize => Self::Node({}, {}), _ => ::core::unreachable!() }}",
        arb("T", less),
        arb("Box<List<T>>", less)
    )));
    assert!(out.contains("2usize - 1usize"));
    assert!(out.contains(
        "::core::clone::Clone::clone(if let Self::Node(_, __quickcheck_derive_match_puller) = &self_0 { __quickcheck_derive_match_puller } else { ::core::unreachable!() })"
    ));
    assert!(is_impl(&out));
}

#[test]
fn union_arbitrary_is_a_compile_error() {
    let out = arbitrary_derive::derive(&input("U", Data::Union)).unwrap();
    assert_eq!(
        out,
        full_impl(
            "",
            "U",
            "::core::compile_error!{\"Cannot derive QuickCheck for a union yet\"}",
            "::quickcheck::empty_shrinker()"
        )
    );
    assert!(is_impl(&out));
}

#[test]
fn lifetimes_are_refused() {
    let mut inp = input("Borrowed", Data::Struct(Fields::Unit));
    inp.lifetimes = vec!["'a".to_string()];
    assert_eq!(arbitrary_derive::derive(&inp), Err(DeriveError::Lifetimes));
    assert_eq!(
        DeriveError::Lifetimes.message(),
        "Cannot derive QuickCheck for a type with lifetimes yet"
    );
}

#[test]
fn attribute_errors_come_before_lifetimes() {
    let mut inp = input(
        "E",
        Data::Enum(vec![variant("V", vec![unnamed("u8")], vec![recursive("Sometimes")])]),
    );
    inp.lifetimes = vec!["'a".to_string()];
    assert_eq!(arbitrary_derive::check_attributes(&inp), Err(AttrError::UnknownStrategy));
    let (_, r) = derive_entry("enum E<'a> { #[quickcheck(recursive = Sometimes)] V(&'a u8) }".parse().unwrap());
    assert_eq!(
        r.err(),
        Some(TokensError::Derive(DeriveError::Attribute(AttrError::UnknownStrategy)))
    );
}

#[test]
fn attributes_of_unit_variants_are_not_read() {
    let out = arbitrary_derive::derive(&input("E", Data::Enum(vec![variant("V", vec![], vec![recursive("Sometimes")])])));
    assert!(out.is_ok());
}

#[test]
fn variants_with_named_fields() {
    let out = arbitrary_derive::derive(&input(
        "E",
        Data::Enum(vec![
            variant("V", vec![named("a", "u8"), named("b", "bool")], vec![]),
            variant("W", vec![], vec![]),
        ]),
    ))
    .unwrap();
    assert!(out.contains(&format!("0usize => Self::V {{ a: {}, b: {} }}", arb("u8", "g"), arb("bool", "g"))));
    let pull = |field: &str, src: &str| {
        format!(
            "if let Self::V {{ {field}: __quickcheck_derive_match_puller, .. }} = &{src} {{ __quickcheck_derive_match_puller }} else {{ ::core::unreachable!() }}"
        )
    };
    let ca = format!(
        "::std::iter::Iterator::map(<u8 as ::quickcheck::Arbitrary>::shrink({}), move |{MOV}| Self::V {{ a: {MOV}, b: ::core::clone::Clone::clone({}) }})",
        pull("a", "self"),
        pull("b", "self_a")
    );
    let cb = format!(
        "::std::iter::Iterator::map(<bool as ::quickcheck::Arbitrary>::shrink({}), move |{MOV}| Self::V {{ a: ::core::clone::Clone::clone({}), b: {MOV} }})",
        pull("b", "self"),
        pull("a", "self_b")
    );
    let arm = format!(
        "E::V {{ .. }} => {{let self_a = <Self as ::std::clone::Clone>::clone(&self); let self_b = <Self as ::std::clone::Clone>::clone(&self); ::std::boxed::Box::new(::std::iter::Iterator::chain({cb}, {ca}))}}"
    );
    assert!(out.contains(&format!(
        "match &self {{ {arm}, E::W => ::std::boxed::Box::new(::quickcheck::empty_shrinker()) }}"
    )));
    assert!(is_impl(&out));
}

#[test]
fn structs_without_fields_do_not_shrink() {
    let out = arbitrary_derive::derive(&input("S", Data::Struct(Fields::Named(vec![])))).unwrap();
    assert_eq!(out, full_impl("", "S", "Self {  }", "::quickcheck::empty_shrinker()"));
    assert!(is_impl(&out));
    let out = arbitrary_derive::derive(&input("T", Data::Struct(Fields::Unnamed(vec![])))).unwrap();
    assert_eq!(out, full_impl("", "T", "Self()", "::quickcheck::empty_shrinker()"));
    assert!(is_impl(&out));
}

#[test]
fn all_recursive_variants_keep_their_order() {
    let out = arbitrary_derive::derive(&input(
        "R",
        Data::Enum(vec![
            variant("A", vec![unnamed("u8")], vec![recursive("Exponential")]),
            variant("B", vec![unnamed("u8")], vec![recursive("Linear")]),
            variant("C", vec![unnamed("u8")], vec![]),
            variant("D", vec![unnamed("u8")], vec![recursive("Linear")]),
        ]),
    ))
    .unwrap();
    let pos = |s: &str| out.find(s).unwrap();
    assert!(pos("0usize => Self::C") < pos("1usize => Self::B"));
    assert!(pos("1usize => Self::B") < pos("2usize => Self::D"));
    assert!(pos("2usize => Self::D") < pos("3usize => Self::A"));
    assert!(out.contains("4usize - 3usize"));
}

#[test]
fn plain_derive_of_struct_and_enum() {
    let out = derive_macros::derive(&input(
        "Pair",
        Data::Struct(Fields::Named(vec![named("first", "T"), named("second", "T")])),
    ))
    .unwrap();
    assert!(out.starts_with("impl ::quickcheck::Arbitrary for Pair where Pair : ::core::clone::Clone {"));
    assert!(out.contains("move |e| Self { second: e, first: ::core::clone::Clone::clone(&self_second.first) }"));
    assert!(is_impl(&out));

    let out = derive_macros::derive(&input(
        "Something",
        Data::Enum(vec![
            variant("Int", vec![unnamed("i32")], vec![recursive("Exponential")]),
            variant("Empty", vec![], vec![]),
        ]),
    ))
    .unwrap();
    let arbitrary = format!(
        "match <::core::primitive::usize as ::quickcheck::Arbitrary>::arbitrary(g) % 2usize {{ 0usize => Self::Int({}), 1usize => Self::Empty, _ => ::core::unreachable!() }}",
        arb("i32", "g")
    );
    assert_eq!(out, full_impl("", "Something", &arbitrary, "::quickcheck::empty_shrinker()"));
    assert!(is_impl(&out));
}

#[test]
fn plain_derive_of_tuple_struct() {
    let out = derive_macros::derive(&input("P", Data::Struct(Fields::Unnamed(vec![unnamed("u8")])))).unwrap();
    assert!(out.contains("move |e| Self(e)"));
    assert!(is_impl(&out));
}

#[test]
fn shrink_of_product_without_fields() {
    let style = ShrinkStyle::Named { moving: "m".to_string() };
    assert_eq!(generate_product_shrink(&vec![], &style), "::quickcheck::empty_shrinker()");
}

#[test]
fn puller_pattern_places_the_binding() {
    let out = make_enum_puller(1, 3, &"V".to_string(), &"src".to_string());
    assert_eq!(
        out,
        "if let Self::V(_, __quickcheck_derive_match_puller, _, _) = &src { __quickcheck_derive_match_puller } else { ::core::unreachable!() }"
    );
    let out = make_enum_puller(2, 0, &"V".to_string(), &"s".to_string());
    assert!(out.starts_with("if let Self::V(_, _, __quickcheck_derive_match_puller) = &s"));
}

#[test]
fn decimal_and_join() {
    assert_eq!(decimal_string(0), "0");
    assert_eq!(decimal_string(7), "7");
    assert_eq!(decimal_string(120), "120");
    assert_eq!(decimal_string(usize::MAX), usize::MAX.to_string());
    assert_eq!(join_strings(&vec![], ", "), "");
    assert_eq!(join_strings(&vec!["a".to_string(), "b".to_string()], ", "), "a, b");
}

fn impl_tokens(r: Result<Expansion, TokensError>) -> proc_macro2::TokenStream {
    match r {
        Ok(Expansion::Impl(t)) => t,
        Ok(Expansion::CompileError(t)) => panic!("compile error: {}", t),
        Err(e) => panic!("refused: {:?}", e),
    }
}

fn error_tokens(r: Result<Expansion, TokensError>) -> String {
    match r {
        Ok(Expansion::CompileError(t)) => t.to_string(),
        Ok(Expansion::Impl(t)) => panic!("impl: {}", t),
        Err(e) => panic!("refused: {:?}", e),
    }
}

#[test]
fn entry_parses_and_derives() {
    let (d, r) = derive_entry("struct Unit;".parse().unwrap());
    let d = d.unwrap();
    assert_eq!(d.ident, "Unit");
    assert!(matches!(d.data, Data::Struct(Fields::Unit)));
    let item: syn::ItemImpl = syn::parse2(impl_tokens(r)).unwrap();
    assert_eq!(item.items.len(), 2);
    let (_, r) = derive_entry_without_enum_shrinking("struct Unit;".parse().unwrap());
    assert!(syn::parse2::<syn::ItemImpl>(impl_tokens(r)).is_ok());
}

#[test]
fn entry_describes_the_item() {
    let src = "enum Tree<T: Clone, U> { #[doc = \"x\"] #[quickcheck(recursive = Exponential)] Node(Box<Tree<T, U>>, u8), Leaf { value: T } }";
    let (d, r) = derive_entry(src.parse().unwrap());
    let d = d.unwrap();
    assert_eq!(d.ident, "Tree");
    assert!(d.lifetimes.is_empty());
    assert_eq!(d.type_params.len(), 2);
    assert_eq!(d.type_params[0].ident, "T");
    assert_eq!(d.type_params[0].bound_count, 1);
    assert_eq!(d.type_params[1].ident, "U");
    assert_eq!(d.type_params[1].bound_count, 0);
    match &d.data {
        Data::Enum(vs) => {
            assert_eq!(vs.len(), 2);
            assert_eq!(vs[0].ident, "Node");
            assert_eq!(vs[0].fields.len(), 2);
            assert!(vs[0].fields[0].ident.is_none());
            assert_eq!(vs[0].fields[1].ty, "u8");
            assert_eq!(vs[0].attrs.len(), 2);
            assert_eq!(vs[0].attrs[0].path.as_deref(), Some("doc"));
            assert_eq!(vs[0].attrs[1].path.as_deref(), Some("quickcheck"));
            let args = vs[0].attrs[1].args.as_ref().unwrap();
            assert_eq!(args.len(), 1);
            assert_eq!(args[0].key.as_deref(), Some("recursive"));
            assert!(matches!(&args[0].value, AttrValue::Ident(s) if s == "Exponential"));
            assert_eq!(vs[1].fields[0].ident.as_deref(), Some("value"));
        }
        _ => panic!("not an enum"),
    }
    assert!(syn::parse2::<syn::ItemImpl>(impl_tokens(r)).is_ok());
}

#[test]
fn entry_reports_what_is_not_an_item() {
    let (d, r) = derive_entry("fn f() {}".parse().unwrap());
    assert!(d.is_none());
    assert!(error_tokens(r).contains("compile_error"));
    let (d, r) = derive_entry_without_enum_shrinking("1 + 2".parse().unwrap());
    assert!(d.is_none());
    assert!(error_tokens(r).contains("compile_error"));
}

#[test]
fn entry_refuses_lifetimes_with_a_compile_error() {
    let (d, r) = derive_entry("struct Borrowed<'a>(&'a u8);".parse().unwrap());
    assert_eq!(d.unwrap().lifetimes, vec!["'a".to_string()]);
    let text = error_tokens(r);
    assert!(text.contains("compile_error"));
    assert!(text.contains("Cannot derive QuickCheck for a type with lifetimes yet"));
    let (_, r) = derive_entry_without_enum_shrinking("struct Borrowed<'a>(&'a u8);".parse().unwrap());
    assert!(error_tokens(r).contains("Cannot derive QuickCheck for a type with lifetimes yet"));
}

#[test]
fn entry_reads_malformed_attributes() {
    let (d, r) = derive_entry("enum E { #[quickcheck(recursive)] V(u8) }".parse().unwrap());
    match &d.unwrap().data {
        Data::Enum(vs) => assert!(vs[0].attrs[0].args.is_none()),
        _ => panic!("not an enum"),
    }
    assert_eq!(
        r.err(),
        Some(TokensError::Derive(DeriveError::Attribute(AttrError::MalformedArguments)))
    );
    let (_, r) = derive_entry("enum E { #[quickcheck(recursive = a::B)] V(u8) }".parse().unwrap());
    assert_eq!(
        r.err(),
        Some(TokensError::Derive(DeriveError::Attribute(AttrError::StrategyNotIdent)))
    );
    let (_, r) = derive_entry("enum E { #[quickcheck(recursive = 1)] V(u8) }".parse().unwrap());
    assert_eq!(r.err(), Some(TokensError::Derive(DeriveError::Attribute(AttrError::ValueNotPath))));
    let (_, r) =
        derive_entry_without_enum_shrinking("enum E { #[quickcheck(recursive = 1)] V(u8) }".parse().unwrap());
    assert!(syn::parse2::<syn::ItemImpl>(impl_tokens(r)).is_ok());
}

#[test]
fn plain_derive_keeps_type_parameters() {
    let mut inp = input(
        "Pair",
        Data::Struct(Fields::Named(vec![named("first", "T"), named("second", "T")])),
    );
    inp.type_params =
        vec![TypeParameter { ident: "T".to_string(), tokens: "T".to_string(), bound_count: 0 }];
    let out = derive_macros::derive(&inp).unwrap();
    assert!(out.starts_with(
        "impl<T : ::quickcheck::Arbitrary> ::quickcheck::Arbitrary for Pair<T> where Pair<T> : ::core::clone::Clone {"
    ));
    assert!(is_impl(&out));
    inp.lifetimes = vec!["'a".to_string()];
    assert_eq!(derive_macros::derive(&inp), Err(DeriveError::Lifetimes));
}
