use vstd::prelude::*;

use crate::attrs::{enum_attributes, read_enum_attrs};
use crate::model::{AttrError, DeriveError, ItemField, RecursiveKind, ItemVariant};
use crate::shrink::{any_named_field, generate_product_shrink, has_named_field, product_shrink_text, ShrinkStyle, Style};
use crate::text::{decimal, join, join_strings, push_decimal, texts};

verus! {

/// The bodies of the two methods of a generated `Arbitrary` impl.
pub struct ArbitraryImpl {
    /// The body of `arbitrary`.
    pub arbitrary: String,
    /// The body of `shrink`.
    pub shrink: String,
}

/// The characters of the two bodies.
pub open spec fn impl_result(r: Result<ArbitraryImpl, DeriveError>) -> Result<(Seq<char>, Seq<char>), DeriveError> {
    match r {
        Ok(a) => Ok((a.arbitrary@, a.shrink@)),
        Err(e) => Err(e),
    }
}

/// A value of type `ty` drawn from the generator `g`.
pub open spec fn arbitrary_call(ty: Seq<char>, g: Seq<char>) -> Seq<char> {
    "<"@ + ty + " as ::quickcheck::Arbitrary>::arbitrary("@ + g + ")"@
}

/// The name of a field, or nothing for a positional one.
pub open spec fn ident_text(f: ItemField) -> Seq<char> {
    match f.ident {
        Some(s) => s@,
        None => Seq::empty(),
    }
}

/// A field drawn from the generator `g`, preceded by its name where `named`.
pub open spec fn field_arbitrary(f: ItemField, g: Seq<char>, named: bool) -> Seq<char> {
    if named {
        ident_text(f) + ": "@ + arbitrary_call(f.ty@, g)
    } else {
        arbitrary_call(f.ty@, g)
    }
}

/// Every field drawn from the generator `g`.
pub open spec fn field_arbitraries(fields: Seq<ItemField>, g: Seq<char>, named: bool) -> Seq<Seq<char>> {
    Seq::new(fields.len(), |i: int| field_arbitrary(fields[i], g, named))
}

/// `Self { a: .., b: .. }` with every field drawn from `g`.
pub open spec fn named_arbitrary_text(fields: Seq<ItemField>) -> Seq<char> {
    "Self { "@ + join(field_arbitraries(fields, "g"@, true), ", "@) + " }"@
}

/// `Self(.., ..)` with every field drawn from `g`.
pub open spec fn unnamed_arbitrary_text(fields: Seq<ItemField>) -> Seq<char> {
    "Self("@ + join(field_arbitraries(fields, "g"@, false), ", "@) + ")"@
}

/// The moving parameter of the generated shrinkers of structs.
pub open spec fn struct_moving() -> Seq<char> {
    "__quickcheck_derive_moving"@
}

/// The generator that the fields of a variant are drawn from: `g` itself, or a
/// new generator of half the size, or of the size less one, never below 1.
pub open spec fn generator_text(kind: RecursiveKind) -> Seq<char> {
    match kind {
        RecursiveKind::Exponential => "&mut ::quickcheck::Gen::new(::std::cmp::max(::quickcheck::Gen::size(g) / 2, 1))"@,
        RecursiveKind::Linear => "&mut ::quickcheck::Gen::new(::std::cmp::max(::quickcheck::Gen::size(g) - 1, 1))"@,
        RecursiveKind::NotRecursive => "g"@,
    }
}

/// The value of variant `v` with its fields drawn as `kind` says.
pub open spec fn variant_constructor(v: ItemVariant, kind: RecursiveKind) -> Seq<char> {
    let fields = v.fields@;
    if fields.len() == 0 {
        "Self::"@ + v.ident@
    } else if has_named_field(fields) {
        "Self::"@ + v.ident@ + " { "@ + join(field_arbitraries(fields, generator_text(kind), true), ", "@) + " }"@
    } else {
        "Self::"@ + v.ident@ + "("@ + join(field_arbitraries(fields, generator_text(kind), false), ", "@) + ")"@
    }
}

/// The strategy of a variant: a variant without fields is not recursive
/// whatever its attributes say; the others are read from their attributes.
pub open spec fn variant_kind(v: ItemVariant) -> Result<RecursiveKind, AttrError> {
    if v.fields@.len() == 0 {
        Ok(RecursiveKind::NotRecursive)
    } else {
        match enum_attributes(v.attrs@) {
            Ok(a) => Ok(a.recursive),
            Err(e) => Err(e),
        }
    }
}

/// The strategies of all variants, or the first error met.
pub open spec fn variant_kinds(vs: Seq<ItemVariant>) -> Result<Seq<RecursiveKind>, AttrError>
    decreases vs.len(),
{
    if vs.len() == 0 {
        Ok(Seq::empty())
    } else {
        match variant_kinds(vs.drop_last()) {
            Err(e) => Err(e),
            Ok(ks) => match variant_kind(vs.last()) {
                Err(e) => Err(e),
                Ok(k) => Ok(ks.push(k)),
            },
        }
    }
}

/// The positions, in increasing order, of the variants whose strategy is `k`.
pub open spec fn indices_of(kinds: Seq<RecursiveKind>, k: RecursiveKind) -> Seq<int>
    decreases kinds.len(),
{
    if kinds.len() == 0 {
        Seq::empty()
    } else if kinds.last() == k {
        indices_of(kinds.drop_last(), k).push(kinds.len() - 1)
    } else {
        indices_of(kinds.drop_last(), k)
    }
}

/// The order of the arms of the generated `arbitrary`: the variants sorted by
/// strategy, `NotRecursive` before `Linear` before `Exponential`, each group in
/// declaration order.
pub open spec fn arm_order(kinds: Seq<RecursiveKind>) -> Seq<int> {
    indices_of(kinds, RecursiveKind::NotRecursive) + indices_of(kinds, RecursiveKind::Linear)
        + indices_of(kinds, RecursiveKind::Exponential)
}

/// The number of recursive variants.
pub open spec fn recursive_count(kinds: Seq<RecursiveKind>) -> nat {
    indices_of(kinds, RecursiveKind::Linear).len() + indices_of(kinds, RecursiveKind::Exponential).len()
}

/// The arm selected by `p`.
pub open spec fn arm_text(p: int, v: ItemVariant, kind: RecursiveKind) -> Seq<char> {
    decimal(p as nat) + "usize => "@ + variant_constructor(v, kind)
}

/// The body of `arbitrary` for an enum: a number drawn from `g`, taken modulo
/// the number of variants, or modulo the number of non-recursive variants
/// where the generator's size is at most 1, selects an arm; arm `p` builds
/// the variant at place `p` of [`arm_order`].
pub open spec fn enum_arbitrary_text(vs: Seq<ItemVariant>, kinds: Seq<RecursiveKind>) -> Seq<char> {
    let order = arm_order(kinds);
    "match <::core::primitive::usize as ::quickcheck::Arbitrary>::arbitrary(g) % (if ::quickcheck::Gen::size(g) > 1 { "@
        + decimal(vs.len()) + "usize } else { "@ + decimal(vs.len()) + "usize - "@ + decimal(
        recursive_count(kinds),
    ) + "usize }) { "@ + join(
        Seq::new(order.len(), |p: int| arm_text(p, vs[order[p]], kinds[order[p]])),
        ", "@,
    ) + ", _ => ::core::unreachable!() }"@
}

/// The pattern of the generated `shrink` that matches variant `v` of enum `e`.
pub open spec fn variant_pattern(e: Seq<char>, v: ItemVariant) -> Seq<char> {
    let fields = v.fields@;
    if has_named_field(fields) {
        e + "::"@ + v.ident@ + " { .. }"@
    } else {
        e + "::"@ + v.ident@ + "("@ + join(Seq::new(fields.len(), |j: int| "_"@), ", "@) + ")"@
    }
}

/// The arm of the generated `shrink` for variant `v` of the enum `e`: a variant
/// without fields does not shrink; the others shrink one field at a time.
pub open spec fn shrink_arm(e: Seq<char>, v: ItemVariant) -> Seq<char> {
    let fields = v.fields@;
    if fields.len() == 0 {
        e + "::"@ + v.ident@ + " => ::std::boxed::Box::new(::quickcheck::empty_shrinker())"@
    } else {
        variant_pattern(e, v) + " => {"@ + product_shrink_text(fields, Style::Variant(v.ident@)) + "}"@
    }
}

/// The arms of the generated `shrink`, one per variant.
pub open spec fn shrink_arms(e: Seq<char>, vs: Seq<ItemVariant>) -> Seq<Seq<char>> {
    Seq::new(vs.len(), |i: int| shrink_arm(e, vs[i]))
}

/// The bodies of `arbitrary` and `shrink` for an enum `e`, or the first
/// refused attribute.
pub open spec fn enum_arbitrary(e: Seq<char>, vs: Seq<ItemVariant>) -> Result<(Seq<char>, Seq<char>), DeriveError> {
    match variant_kinds(vs) {
        Err(a) => Err(DeriveError::Attribute(a)),
        Ok(kinds) => Ok(
            (enum_arbitrary_text(vs, kinds), "match &self { "@ + join(shrink_arms(e, vs), ", "@) + " }"@),
        ),
    }
}

/// `<ty as ::quickcheck::Arbitrary>::arbitrary(g)`, preceded by the field's
/// name where `named`, for every field.
pub(crate) fn field_arbitrary_strings(fields: &Vec<ItemField>, g: &str, named: bool) -> (r: Vec<String>)
    ensures
        texts(r@) =~= field_arbitraries(fields@, g@, named),
{
    let n = fields.len();
    let mut out: Vec<String> = Vec::new();
    let mut i: usize = 0;
    while i < n
        invariant
            n == fields@.len(),
            i <= n,
            out@.len() == i,
            forall|j: int| 0 <= j < i ==> (#[trigger] out@[j])@ == field_arbitrary(fields@[j], g@, named),
        decreases n - i,
    {
        let f = &fields[i];
        let mut item = String::new();
        if named {
            match &f.ident {
                Some(name) => item.append(name.as_str()),
                None => {},
            }
            item.append(": ");
        }
        item.append("<");
        item.append(f.ty.as_str());
        item.append(" as ::quickcheck::Arbitrary>::arbitrary(");
        item.append(g);
        item.append(")");
        proof {
            assert(item@ =~= field_arbitrary(fields@[i as int], g@, named));
        }
        out.push(item);
        i += 1;
    }
    out
}

/// The bodies for a struct with named fields: `Self { a: <A as
/// ::quickcheck::Arbitrary>::arbitrary(g), .. }`, and the shrinker that shrinks
/// one field at a time and keeps the others.
pub fn make_named_struct_arbitrary(fields: &Vec<ItemField>) -> (r: ArbitraryImpl)
    ensures
        r.arbitrary@ == named_arbitrary_text(fields@),
        r.shrink@ == product_shrink_text(fields@, Style::Named(struct_moving())),
{
    let style = ShrinkStyle::Named { moving: String::from_str("__quickcheck_derive_moving") };
    let shrink = generate_product_shrink(fields, &style);
    let mut arbitrary = String::from_str("Self { ");
    arbitrary.append(join_strings(&field_arbitrary_strings(fields, "g", true), ", ").as_str());
    arbitrary.append(" }");
    proof {
        assert(arbitrary@ =~= named_arbitrary_text(fields@));
    }
    ArbitraryImpl { arbitrary, shrink }
}

/// The bodies for a tuple struct: `Self(<A as ::quickcheck::Arbitrary>::arbitrary(g), ..)`,
/// and the shrinker that shrinks one field at a time and keeps the others.
pub fn make_unnamed_struct_arbitrary(fields: &Vec<ItemField>) -> (r: ArbitraryImpl)
    ensures
        r.arbitrary@ == unnamed_arbitrary_text(fields@),
        r.shrink@ == product_shrink_text(fields@, Style::Tuple(struct_moving())),
{
    let style = ShrinkStyle::Tuple { moving: String::from_str("__quickcheck_derive_moving") };
    let shrink = generate_product_shrink(fields, &style);
    let mut arbitrary = String::from_str("Self(");
    arbitrary.append(join_strings(&field_arbitrary_strings(fields, "g", false), ", ").as_str());
    arbitrary.append(")");
    proof {
        assert(arbitrary@ =~= unnamed_arbitrary_text(fields@));
    }
    ArbitraryImpl { arbitrary, shrink }
}

proof fn lemma_variant_kinds_error_sticks(vs: Seq<ItemVariant>, k: int)
    requires
        0 <= k <= vs.len(),
        variant_kinds(vs.take(k)) is Err,
    ensures
        variant_kinds(vs) == variant_kinds(vs.take(k)),
    decreases vs.len() - k,
{
    if k == vs.len() {
        assert(vs.take(k) =~= vs);
    } else {
        assert(vs.take(k + 1).drop_last() =~= vs.take(k));
        lemma_variant_kinds_error_sticks(vs, k + 1);
    }
}

/// The strategy of every variant, read from its attributes, or the first
/// refused attribute: what the derive checks before it makes an enum's bodies.
pub fn read_variant_kinds(variants: &Vec<ItemVariant>) -> (r: Result<Vec<RecursiveKind>, AttrError>)
    ensures
        match r {
            Ok(ks) => variant_kinds(variants@) == Ok::<Seq<RecursiveKind>, AttrError>(ks@),
            Err(e) => variant_kinds(variants@) == Err::<Seq<RecursiveKind>, AttrError>(e),
        },
{
    let n = variants.len();
    let mut kinds: Vec<RecursiveKind> = Vec::new();
    let mut i: usize = 0;
    while i < n
        invariant
            n == variants@.len(),
            i <= n,
            variant_kinds(variants@.take(i as int)) == Ok::<Seq<RecursiveKind>, AttrError>(kinds@),
        decreases n - i,
    {
        proof {
            assert(variants@.take(i + 1).drop_last() =~= variants@.take(i as int));
            assert(variants@.take(i + 1).last() == variants@[i as int]);
        }
        let v = &variants[i];
        let kind = if v.fields.len() == 0 {
            RecursiveKind::NotRecursive
        } else {
            match read_enum_attrs(&v.attrs) {
                Ok(a) => a.recursive,
                Err(e) => {
                    proof {
                        lemma_variant_kinds_error_sticks(variants@, i + 1);
                    }
                    return Err(e);
                },
            }
        };
        kinds.push(kind);
        i += 1;
    }
    proof {
        assert(variants@.take(n as int) =~= variants@);
    }
    Ok(kinds)
}

/// The positions as integers.
pub open spec fn as_ints(s: Seq<usize>) -> Seq<int> {
    s.map_values(|x: usize| x as int)
}

/// Appends the positions of the strategies equal to `k`.
fn push_indices_of(kinds: &Vec<RecursiveKind>, k: RecursiveKind, out: &mut Vec<usize>)
    ensures
        as_ints(final(out)@) =~= as_ints(old(out)@) + indices_of(kinds@, k),
{
    let n = kinds.len();
    let ghost start = as_ints(out@);
    let mut i: usize = 0;
    while i < n
        invariant
            n == kinds@.len(),
            i <= n,
            as_ints(out@) =~= start + indices_of(kinds@.take(i as int), k),
        decreases n - i,
    {
        proof {
            assert(kinds@.take(i + 1).drop_last() =~= kinds@.take(i as int));
            assert(kinds@.take(i + 1).last() == kinds@[i as int]);
        }
        let ghost before = out@;
        if kinds[i] == k {
            out.push(i);
            proof {
                assert(as_ints(out@) =~= as_ints(before).push(i as int));
                assert(indices_of(kinds@.take(i + 1), k) == indices_of(kinds@.take(i as int), k).push(i as int));
            }
        } else {
            proof {
                assert(indices_of(kinds@.take(i + 1), k) == indices_of(kinds@.take(i as int), k));
            }
        }
        i += 1;
    }
    proof {
        assert(kinds@.take(n as int) =~= kinds@);
    }
}

/// The variants sorted by strategy, `NotRecursive` first and `Exponential`
/// last, each group in declaration order: a stable sort.
pub fn order_by_recursion(kinds: &Vec<RecursiveKind>) -> (r: Vec<usize>)
    ensures
        as_ints(r@) =~= arm_order(kinds@),
{
    let mut out: Vec<usize> = Vec::new();
    push_indices_of(kinds, RecursiveKind::NotRecursive, &mut out);
    push_indices_of(kinds, RecursiveKind::Linear, &mut out);
    push_indices_of(kinds, RecursiveKind::Exponential, &mut out);
    out
}

/// Every position in `indices_of(kinds, k)` is a position of `kinds` that holds `k`.
pub proof fn lemma_indices_of_members(kinds: Seq<RecursiveKind>, k: RecursiveKind)
    ensures
        forall|p: int|
            0 <= p < indices_of(kinds, k).len() ==> 0 <= #[trigger] indices_of(kinds, k)[p] < kinds.len()
                && kinds[indices_of(kinds, k)[p]] == k,
    decreases kinds.len(),
{
    if kinds.len() > 0 {
        lemma_indices_of_members(kinds.drop_last(), k);
    }
}

/// The positions that [`arm_order`] lists are positions of `kinds`.
pub proof fn lemma_arm_order_members(kinds: Seq<RecursiveKind>)
    ensures
        forall|p: int| 0 <= p < arm_order(kinds).len() ==> 0 <= #[trigger] arm_order(kinds)[p] < kinds.len(),
{
    lemma_indices_of_members(kinds, RecursiveKind::NotRecursive);
    lemma_indices_of_members(kinds, RecursiveKind::Linear);
    lemma_indices_of_members(kinds, RecursiveKind::Exponential);
    let a = indices_of(kinds, RecursiveKind::NotRecursive);
    let b = indices_of(kinds, RecursiveKind::Linear);
    let c = indices_of(kinds, RecursiveKind::Exponential);
    assert forall|p: int| 0 <= p < arm_order(kinds).len() implies 0 <= #[trigger] arm_order(kinds)[p] < kinds.len() by {
        if p < a.len() {
            assert(arm_order(kinds)[p] == a[p]);
        } else if p < a.len() + b.len() {
            assert(arm_order(kinds)[p] == b[p - a.len()]);
        } else {
            assert(arm_order(kinds)[p] == c[p - a.len() - b.len()]);
        }
    }
}

/// The generator that the fields of a variant with strategy `kind` are drawn from.
fn generator_str(kind: RecursiveKind) -> (r: &'static str)
    ensures
        r@ == generator_text(kind),
{
    match kind {
        RecursiveKind::Exponential => "&mut ::quickcheck::Gen::new(::std::cmp::max(::quickcheck::Gen::size(g) / 2, 1))",
        RecursiveKind::Linear => "&mut ::quickcheck::Gen::new(::std::cmp::max(::quickcheck::Gen::size(g) - 1, 1))",
        RecursiveKind::NotRecursive => "g",
    }
}

/// The value of variant `v` with its fields drawn as `kind` says.
pub fn variant_constructor_string(v: &ItemVariant, kind: RecursiveKind) -> (r: String)
    ensures
        r@ == variant_constructor(*v, kind),
{
    let mut r = String::from_str("Self::");
    r.append(v.ident.as_str());
    if v.fields.len() > 0 {
        if any_named_field(&v.fields) {
            r.append(" { ");
            r.append(join_strings(&field_arbitrary_strings(&v.fields, generator_str(kind), true), ", ").as_str());
            r.append(" }");
        } else {
            r.append("(");
            r.append(join_strings(&field_arbitrary_strings(&v.fields, generator_str(kind), false), ", ").as_str());
            r.append(")");
        }
    }
    proof {
        assert(r@ =~= variant_constructor(*v, kind));
    }
    r
}

/// The arm of the generated `shrink` for variant `v` of the enum `e`.
fn shrink_arm_string(e: &String, v: &ItemVariant) -> (r: String)
    ensures
        r@ == shrink_arm(e@, *v),
{
    let n = v.fields.len();
    if n == 0 {
        let mut r = e.clone();
        r.append("::");
        r.append(v.ident.as_str());
        r.append(" => ::std::boxed::Box::new(::quickcheck::empty_shrinker())");
        proof {
            assert(r@ =~= shrink_arm(e@, *v));
        }
        return r;
    }
    let style = ShrinkStyle::Variant { variant: v.ident.clone() };
    let body = generate_product_shrink(&v.fields, &style);
    let mut r = e.clone();
    r.append("::");
    r.append(v.ident.as_str());
    if any_named_field(&v.fields) {
        r.append(" { .. }");
    } else {
        let mut underscores: Vec<String> = Vec::new();
        let mut j: usize = 0;
        while j < n
            invariant
                j <= n,
                underscores@.len() == j,
                forall|m: int| 0 <= m < j ==> (#[trigger] underscores@[m])@ == "_"@,
            decreases n - j,
        {
            underscores.push(String::from_str("_"));
            j += 1;
        }
        proof {
            assert(texts(underscores@) =~= Seq::new(n as nat, |j: int| "_"@));
        }
        r.append("(");
        r.append(join_strings(&underscores, ", ").as_str());
        r.append(")");
    }
    proof {
        assert(r@ =~= variant_pattern(e@, *v));
    }
    r.append(" => {");
    r.append(body.as_str());
    r.append("}");
    proof {
        assert(r@ =~= shrink_arm(e@, *v));
    }
    r
}

/// The bodies of `arbitrary` and `shrink` for the enum `ident`.
///
/// `arbitrary` draws a number from `g` and takes it modulo the number of
/// variants, or, where the size of `g` is at most 1, modulo the number of
/// variants that are not recursive; the number selects an arm, and the arms
/// list the variants sorted by strategy (see [`arm_order`]), so that a small
/// generator only builds variants that are not recursive. The fields of a
/// `Linear` variant are drawn from a generator of the size less one, those of
/// an `Exponential` variant from one of half the size (never below 1).
///
/// `shrink` matches on the variant and shrinks one field at a time, keeping the
/// others; a variant without fields does not shrink.
///
/// The attributes of the variants with fields must be accepted
/// ([`read_variant_kinds`] tells which are refused); those of variants without
/// fields are not read.
pub fn make_enum_arbitrary(ident: &String, variants: &Vec<ItemVariant>) -> (r: ArbitraryImpl)
    requires
        variant_kinds(variants@) is Ok,
    ensures
        enum_arbitrary(ident@, variants@) == Ok::<(Seq<char>, Seq<char>), DeriveError>((r.arbitrary@, r.shrink@)),
{
    let kinds = match read_variant_kinds(variants) {
        Err(_) => {
            proof {
                assert(false);
            }
            Vec::new()
        },
        Ok(ks) => ks,
    };
    proof {
        lemma_variant_kinds_len(variants@);
    }
    let arbitrary = enum_arbitrary_string(variants, &kinds);
    let shrink = enum_shrink_string(ident, variants);
    ArbitraryImpl { arbitrary, shrink }
}

/// The body of `arbitrary` for an enum whose variants have strategies `kinds`.
fn enum_arbitrary_string(variants: &Vec<ItemVariant>, kinds: &Vec<RecursiveKind>) -> (r: String)
    requires
        kinds@.len() == variants@.len(),
    ensures
        r@ == enum_arbitrary_text(variants@, kinds@),
{
    let n = variants.len();
    proof {
        lemma_arm_order_members(kinds@);
    }
    let order = order_by_recursion(kinds);
    let mut recursive: Vec<usize> = Vec::new();
    push_indices_of(kinds, RecursiveKind::Linear, &mut recursive);
    push_indices_of(kinds, RecursiveKind::Exponential, &mut recursive);
    let ghost order_s = arm_order(kinds@);
    let mut arms: Vec<String> = Vec::new();
    let m = order.len();
    let mut p: usize = 0;
    while p < m
        invariant
            m == order@.len(),
            n == variants@.len(),
            kinds@.len() == n,
            as_ints(order@) =~= order_s,
            order_s == arm_order(kinds@),
            forall|q: int| 0 <= q < order_s.len() ==> 0 <= #[trigger] order_s[q] < n,
            p <= m,
            arms@.len() == p,
            forall|q: int| 0 <= q < p ==> (#[trigger] arms@[q])@ == arm_text(
                q,
                variants@[order_s[q]],
                kinds@[order_s[q]],
            ),
        decreases m - p,
    {
        let idx = order[p];
        proof {
            assert(as_ints(order@)[p as int] == idx as int);
            assert(0 <= order_s[p as int] < n);
        }
        let mut arm = String::new();
        push_decimal(&mut arm, p);
        arm.append("usize => ");
        arm.append(variant_constructor_string(&variants[idx], kinds[idx]).as_str());
        proof {
            assert(arm@ =~= arm_text(p as int, variants@[order_s[p as int]], kinds@[order_s[p as int]]));
        }
        arms.push(arm);
        p += 1;
    }
    proof {
        assert(texts(arms@) =~= Seq::new(
            order_s.len(),
            |q: int| arm_text(q, variants@[order_s[q]], kinds@[order_s[q]]),
        ));
    }
    let mut arbitrary = String::from_str(
        "match <::core::primitive::usize as ::quickcheck::Arbitrary>::arbitrary(g) % (if ::quickcheck::Gen::size(g) > 1 { ",
    );
    push_decimal(&mut arbitrary, n);
    arbitrary.append("usize } else { ");
    push_decimal(&mut arbitrary, n);
    arbitrary.append("usize - ");
    push_decimal(&mut arbitrary, recursive.len());
    arbitrary.append("usize }) { ");
    arbitrary.append(join_strings(&arms, ", ").as_str());
    arbitrary.append(", _ => ::core::unreachable!() }");
    proof {
        assert(as_ints(recursive@).len() == recursive@.len());
        assert(recursive@.len() == recursive_count(kinds@));
        assert(arbitrary@ =~= enum_arbitrary_text(variants@, kinds@));
    }
    arbitrary
}

/// The body of `shrink` for the enum `ident`: one arm per variant.
fn enum_shrink_string(ident: &String, variants: &Vec<ItemVariant>) -> (r: String)
    ensures
        r@ == "match &self { "@ + join(shrink_arms(ident@, variants@), ", "@) + " }"@,
{
    let n = variants.len();
    let mut arms: Vec<String> = Vec::new();
    let mut i: usize = 0;
    while i < n
        invariant
            n == variants@.len(),
            i <= n,
            arms@.len() == i,
            forall|m: int| 0 <= m < i ==> (#[trigger] arms@[m])@ == shrink_arm(ident@, variants@[m]),
        decreases n - i,
    {
        arms.push(shrink_arm_string(ident, &variants[i]));
        i += 1;
    }
    proof {
        assert(texts(arms@) =~= shrink_arms(ident@, variants@));
    }
    let mut shrink = String::from_str("match &self { ");
    shrink.append(join_strings(&arms, ", ").as_str());
    shrink.append(" }");
    shrink
}

/// The place of a strategy in the order of the arms.
pub open spec fn rank(k: RecursiveKind) -> int {
    match k {
        RecursiveKind::NotRecursive => 0,
        RecursiveKind::Linear => 1,
        RecursiveKind::Exponential => 2,
    }
}

proof fn lemma_indices_of_increasing(kinds: Seq<RecursiveKind>, k: RecursiveKind)
    ensures
        forall|p: int, q: int|
            0 <= p < q < indices_of(kinds, k).len() ==> #[trigger] indices_of(kinds, k)[p]
                < #[trigger] indices_of(kinds, k)[q],
    decreases kinds.len(),
{
    if kinds.len() > 0 {
        lemma_indices_of_increasing(kinds.drop_last(), k);
        lemma_indices_of_members(kinds.drop_last(), k);
    }
}

proof fn lemma_indices_of_lens(kinds: Seq<RecursiveKind>)
    ensures
        indices_of(kinds, RecursiveKind::NotRecursive).len() + indices_of(kinds, RecursiveKind::Linear).len()
            + indices_of(kinds, RecursiveKind::Exponential).len() == kinds.len(),
    decreases kinds.len(),
{
    if kinds.len() > 0 {
        lemma_indices_of_lens(kinds.drop_last());
    }
}

/// The strategy of the variant at each place of [`arm_order`]: the places hold
/// the `NotRecursive` variants, then the `Linear` ones, then the `Exponential` ones.
proof fn lemma_arm_order_blocks(kinds: Seq<RecursiveKind>)
    ensures
        arm_order(kinds).len() == kinds.len(),
        forall|p: int|
            0 <= p < arm_order(kinds).len() ==> {
                &&& 0 <= #[trigger] arm_order(kinds)[p] < kinds.len()
                &&& rank(kinds[arm_order(kinds)[p]]) == (if p < indices_of(kinds, RecursiveKind::NotRecursive).len() {
                    0int
                } else if p < kinds.len() - indices_of(kinds, RecursiveKind::Exponential).len() {
                    1int
                } else {
                    2int
                })
            },
{
    let a = indices_of(kinds, RecursiveKind::NotRecursive);
    let b = indices_of(kinds, RecursiveKind::Linear);
    let c = indices_of(kinds, RecursiveKind::Exponential);
    lemma_indices_of_lens(kinds);
    lemma_indices_of_members(kinds, RecursiveKind::NotRecursive);
    lemma_indices_of_members(kinds, RecursiveKind::Linear);
    lemma_indices_of_members(kinds, RecursiveKind::Exponential);
    assert forall|p: int| 0 <= p < arm_order(kinds).len() implies {
        &&& 0 <= #[trigger] arm_order(kinds)[p] < kinds.len()
        &&& rank(kinds[arm_order(kinds)[p]]) == (if p < a.len() {
            0int
        } else if p < kinds.len() - c.len() {
            1int
        } else {
            2int
        })
    } by {
        if p < a.len() {
            assert(arm_order(kinds)[p] == a[p]);
        } else if p < a.len() + b.len() {
            assert(arm_order(kinds)[p] == b[p - a.len()]);
        } else {
            assert(arm_order(kinds)[p] == c[p - a.len() - b.len()]);
        }
    }
}

/// The arms of the generated `arbitrary` list every variant exactly once,
/// sorted by strategy (`NotRecursive`, then `Linear`, then `Exponential`), and
/// variants of the same strategy keep their declaration order: a stable sort.
pub proof fn law_arm_order_is_stable_sort(kinds: Seq<RecursiveKind>)
    ensures
        arm_order(kinds).len() == kinds.len(),
        forall|p: int| 0 <= p < kinds.len() ==> 0 <= #[trigger] arm_order(kinds)[p] < kinds.len(),
        forall|p: int, q: int|
            0 <= p < q < kinds.len() ==> #[trigger] arm_order(kinds)[p] != #[trigger] arm_order(kinds)[q],
        forall|p: int, q: int|
            0 <= p < q < kinds.len() ==> rank(kinds[#[trigger] arm_order(kinds)[p]]) <= rank(
                kinds[#[trigger] arm_order(kinds)[q]],
            ),
        forall|p: int, q: int|
            0 <= p < q < kinds.len() && kinds[#[trigger] arm_order(kinds)[p]] == kinds[#[trigger] arm_order(
                kinds,
            )[q]] ==> arm_order(kinds)[p] < arm_order(kinds)[q],
{
    let a = indices_of(kinds, RecursiveKind::NotRecursive);
    let b = indices_of(kinds, RecursiveKind::Linear);
    let c = indices_of(kinds, RecursiveKind::Exponential);
    let o = arm_order(kinds);
    lemma_arm_order_blocks(kinds);
    lemma_indices_of_increasing(kinds, RecursiveKind::NotRecursive);
    lemma_indices_of_increasing(kinds, RecursiveKind::Linear);
    lemma_indices_of_increasing(kinds, RecursiveKind::Exponential);
    assert forall|p: int, q: int|
        0 <= p < q < kinds.len() && kinds[#[trigger] o[p]] == kinds[#[trigger] o[q]] implies o[p] < o[q] by {
        if p < a.len() {
            assert(q < a.len());
            assert(o[p] == a[p] && o[q] == a[q]);
        } else if p < a.len() + b.len() {
            assert(q < a.len() + b.len());
            assert(o[p] == b[p - a.len()] && o[q] == b[q - a.len()]);
        } else {
            assert(o[p] == c[p - a.len() - b.len()] && o[q] == c[q - a.len() - b.len()]);
        }
    }
    assert forall|p: int, q: int| 0 <= p < q < kinds.len() implies #[trigger] o[p] != #[trigger] o[q] by {
        if kinds[o[p]] == kinds[o[q]] {
            assert(o[p] < o[q]);
        }
    }
}

/// Where the generator's size is at most 1, the generated `arbitrary` takes
/// the drawn number `x` modulo the number of non-recursive variants: the arm it
/// selects builds a variant that is not recursive, so that generation ends.
pub proof fn law_small_generator_builds_non_recursive(kinds: Seq<RecursiveKind>, x: nat)
    requires
        recursive_count(kinds) < kinds.len(),
    ensures
        ({
            let p = (x % ((kinds.len() - recursive_count(kinds)) as nat)) as int;
            &&& 0 <= p < arm_order(kinds).len()
            &&& kinds[arm_order(kinds)[p]] == RecursiveKind::NotRecursive
        }),
{
    lemma_arm_order_blocks(kinds);
    let p = (x % ((kinds.len() - recursive_count(kinds)) as nat)) as int;
    assert(rank(kinds[arm_order(kinds)[p]]) == 0);
}

/// The `arbitrary` of a struct draws every field from `g`, each at its own
/// place: the part at place `j` of the constructor is field `j` (its name and
/// then its value, for named fields).
pub proof fn law_struct_arbitrary_keeps_field_places(fields: Seq<ItemField>)
    ensures
        named_arbitrary_text(fields) == "Self { "@ + join(
            Seq::new(
                fields.len(),
                |j: int|
                    match fields[j].ident {
                        Some(s) => s@,
                        None => Seq::empty(),
                    } + ": "@ + ("<"@ + fields[j].ty@ + " as ::quickcheck::Arbitrary>::arbitrary("@ + "g"@ + ")"@),
            ),
            ", "@,
        ) + " }"@,
        unnamed_arbitrary_text(fields) == "Self("@ + join(
            Seq::new(
                fields.len(),
                |j: int| "<"@ + fields[j].ty@ + " as ::quickcheck::Arbitrary>::arbitrary("@ + "g"@ + ")"@,
            ),
            ", "@,
        ) + ")"@,
{
    let n = fields.len();
    assert(field_arbitraries(fields, "g"@, true) =~= Seq::new(
        n,
        |j: int|
            match fields[j].ident {
                Some(s) => s@,
                None => Seq::empty(),
            } + ": "@ + ("<"@ + fields[j].ty@ + " as ::quickcheck::Arbitrary>::arbitrary("@ + "g"@ + ")"@),
    ));
    assert(field_arbitraries(fields, "g"@, false) =~= Seq::new(
        n,
        |j: int| "<"@ + fields[j].ty@ + " as ::quickcheck::Arbitrary>::arbitrary("@ + "g"@ + ")"@,
    ));
}

/// Every position of `kinds` that holds `k` is listed in `indices_of(kinds, k)`.
proof fn lemma_indices_of_complete(kinds: Seq<RecursiveKind>, k: RecursiveKind, i: int)
    requires
        0 <= i < kinds.len(),
        kinds[i] == k,
    ensures
        exists|q: int| 0 <= q < indices_of(kinds, k).len() && #[trigger] indices_of(kinds, k)[q] == i,
    decreases kinds.len(),
{
    if i == kinds.len() - 1 {
        let q = indices_of(kinds.drop_last(), k).len() as int;
        assert(indices_of(kinds, k)[q] == i);
    } else {
        lemma_indices_of_complete(kinds.drop_last(), k, i);
        let q = choose|q: int|
            0 <= q < indices_of(kinds.drop_last(), k).len() && #[trigger] indices_of(kinds.drop_last(), k)[q] == i;
        assert(indices_of(kinds, k)[q] == i);
    }
}

/// Every variant has a place in [`arm_order`].
proof fn lemma_arm_order_complete(kinds: Seq<RecursiveKind>, i: int)
    requires
        0 <= i < kinds.len(),
    ensures
        exists|p: int| 0 <= p < arm_order(kinds).len() && #[trigger] arm_order(kinds)[p] == i,
{
    let a = indices_of(kinds, RecursiveKind::NotRecursive);
    let b = indices_of(kinds, RecursiveKind::Linear);
    let c = indices_of(kinds, RecursiveKind::Exponential);
    let o = arm_order(kinds);
    lemma_indices_of_complete(kinds, kinds[i], i);
    match kinds[i] {
        RecursiveKind::NotRecursive => {
            let q = choose|q: int| 0 <= q < a.len() && #[trigger] a[q] == i;
            assert(o[q] == i);
        },
        RecursiveKind::Linear => {
            let q = choose|q: int| 0 <= q < b.len() && #[trigger] b[q] == i;
            assert(o[a.len() + q] == i);
        },
        RecursiveKind::Exponential => {
            let q = choose|q: int| 0 <= q < c.len() && #[trigger] c[q] == i;
            assert(o[a.len() + b.len() + q] == i);
        },
    }
}

/// Where the generator's size exceeds 1, the generated `arbitrary` takes the
/// drawn number modulo the number of variants, and the arms are numbered
/// `0, 1, ..` up to that number less one, so that every variant of the enum
/// has an arm, selected by the number of its place.
pub proof fn law_every_variant_can_be_drawn(vs: Seq<ItemVariant>, kinds: Seq<RecursiveKind>)
    requires
        kinds.len() == vs.len(),
    ensures
        exists|arms: Seq<Seq<char>>|
            {
                &&& arms.len() == vs.len()
                &&& #[trigger] enum_arbitrary_text(vs, kinds)
                    == "match <::core::primitive::usize as ::quickcheck::Arbitrary>::arbitrary(g) % (if ::quickcheck::Gen::size(g) > 1 { "@
                    + decimal(vs.len()) + "usize } else { "@ + decimal(vs.len()) + "usize - "@ + decimal(
                    recursive_count(kinds),
                ) + "usize }) { "@ + join(arms, ", "@) + ", _ => ::core::unreachable!() }"@
                &&& forall|i: int|
                    #![trigger vs[i]]
                    0 <= i < vs.len() ==> exists|p: int|
                        0 <= p < vs.len() && #[trigger] arms[p] == decimal(p as nat) + "usize => "@
                            + variant_constructor(vs[i], kinds[i])
            },
{
    let order = arm_order(kinds);
    lemma_arm_order_blocks(kinds);
    let arms = Seq::new(order.len(), |p: int| arm_text(p, vs[order[p]], kinds[order[p]]));
    assert forall|i: int| #![trigger vs[i]] 0 <= i < vs.len() implies exists|p: int|
        0 <= p < vs.len() && #[trigger] arms[p] == decimal(p as nat) + "usize => "@ + variant_constructor(
            vs[i],
            kinds[i],
        ) by {
        lemma_arm_order_complete(kinds, i);
        let p = choose|p: int| 0 <= p < order.len() && #[trigger] order[p] == i;
        assert(arms[p] == arm_text(p, vs[i], kinds[i]));
    }
    assert(enum_arbitrary_text(vs, kinds)
        == "match <::core::primitive::usize as ::quickcheck::Arbitrary>::arbitrary(g) % (if ::quickcheck::Gen::size(g) > 1 { "@
        + decimal(vs.len()) + "usize } else { "@ + decimal(vs.len()) + "usize - "@ + decimal(recursive_count(kinds))
        + "usize }) { "@ + join(arms, ", "@) + ", _ => ::core::unreachable!() }"@);
}

/// One strategy per variant.
proof fn lemma_variant_kinds_len(vs: Seq<ItemVariant>)
    ensures
        variant_kinds(vs) matches Ok(ks) ==> ks.len() == vs.len(),
    decreases vs.len(),
{
    if vs.len() > 0 {
        lemma_variant_kinds_len(vs.drop_last());
    }
}

} // verus!
