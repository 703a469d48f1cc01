use vstd::prelude::*;

use crate::model::{DeriveError, ItemField};
use crate::text::{decimal, join, push_decimal, texts, join_strings};

verus! {

/// How the shrunk values of a product are put back together.
pub enum ShrinkStyle {
    /// A struct with named fields, `Self { a: .., b: .. }`; `moving` names the
    /// closure's parameter that carries the shrunk field.
    Named { moving: String },
    /// A tuple struct, `Self(.., ..)`, with fields addressed by position.
    Tuple { moving: String },
    /// A variant `Self::variant(.., ..)` or `Self::variant { a: .., .. }` of an
    /// enum, whose fields are read out of `self` by pattern matching.
    Variant { variant: String },
}

/// The mathematical value of a [`ShrinkStyle`], its names taken as text.
pub enum Style {
    Named(Seq<char>),
    Tuple(Seq<char>),
    Variant(Seq<char>),
}

impl View for ShrinkStyle {
    type V = Style;

    open spec fn view(&self) -> Style {
        match self {
            ShrinkStyle::Named { moving } => Style::Named(moving@),
            ShrinkStyle::Tuple { moving } => Style::Tuple(moving@),
            ShrinkStyle::Variant { variant } => Style::Variant(variant@),
        }
    }
}

/// The name of the closure parameter that carries the shrunk field, in the
/// code that shrinks a variant.
pub open spec fn variant_moving() -> Seq<char> {
    "__quickcheck_derive_moving"@
}

/// The name bound to the field that a pattern pulls out of a variant.
pub open spec fn puller_name() -> Seq<char> {
    "__quickcheck_derive_match_puller"@
}

/// The key of a field: its name, or else its position.
pub open spec fn key_text(f: ItemField, idx: int) -> Seq<char> {
    match f.ident {
        Some(s) => s@,
        None => decimal(idx as nat),
    }
}

/// Whether some field has a name.
pub open spec fn has_named_field(fields: Seq<ItemField>) -> bool {
    exists|j: int| 0 <= j < fields.len() && (#[trigger] fields[j]).ident is Some
}

/// The tuple pattern `(_, .., puller, _, ..)` that binds the field at `pull`,
/// followed by as many `_` as `others` exceeds `pull`.
pub open spec fn puller_pattern(pull: nat, others: nat) -> Seq<Seq<char>> {
    let len = if others >= pull { others + 1 } else { pull + 1 };
    Seq::new(len, |k: int| if k == pull { puller_name() } else { "_"@ })
}

/// An expression that yields a reference to the field at `pull` of the
/// variant `variant`, read out of `source`.
pub open spec fn puller_text(pull: nat, others: nat, variant: Seq<char>, source: Seq<char>) -> Seq<char> {
    "if let Self::"@ + variant + "("@ + join(puller_pattern(pull, others), ", "@) + ") = &"@ + source
        + " { __quickcheck_derive_match_puller } else { ::core::unreachable!() }"@
}

/// An expression that yields a reference to the field `key` of the variant
/// `variant` with named fields, read out of `source`.
pub open spec fn named_puller_text(key: Seq<char>, variant: Seq<char>, source: Seq<char>) -> Seq<char> {
    "if let Self::"@ + variant + " { "@ + key + ": __quickcheck_derive_match_puller, .. } = &"@ + source
        + " { __quickcheck_derive_match_puller } else { ::core::unreachable!() }"@
}

/// An expression that yields a reference to field `j` of the variant
/// `variant`, read out of `source`: by name where the variant has named
/// fields, by position otherwise.
pub open spec fn field_puller(fields: Seq<ItemField>, variant: Seq<char>, j: int, source: Seq<char>) -> Seq<char> {
    if has_named_field(fields) {
        named_puller_text(key_text(fields[j], j), variant, source)
    } else {
        puller_text(j as nat, (fields.len() - 1) as nat, variant, source)
    }
}

/// In a variant with unnamed fields, the tuple pattern that pulls field `j`
/// out has one entry per field: the binding at place `j` and `_` at every
/// other place.
pub proof fn law_tuple_puller_has_an_entry_per_field(
    fields: Seq<ItemField>,
    variant: Seq<char>,
    j: int,
    source: Seq<char>,
)
    requires
        !has_named_field(fields),
        0 <= j < fields.len(),
    ensures
        field_puller(fields, variant, j, source) == "if let Self::"@ + variant + "("@ + join(
            Seq::new(
                fields.len(),
                |k: int|
                    if k == j {
                        "__quickcheck_derive_match_puller"@
                    } else {
                        "_"@
                    },
            ),
            ", "@,
        ) + ") = &"@ + source + " { __quickcheck_derive_match_puller } else { ::core::unreachable!() }"@,
{
    assert(puller_pattern(j as nat, (fields.len() - 1) as nat) =~= Seq::new(
        fields.len(),
        |k: int|
            if k == j {
                "__quickcheck_derive_match_puller"@
            } else {
                "_"@
            },
    ));
}

/// In a variant with named fields, the pattern that pulls field `j` out binds
/// the field of that name and ignores the others.
pub proof fn law_named_puller_binds_the_field_by_name(
    fields: Seq<ItemField>,
    variant: Seq<char>,
    j: int,
    source: Seq<char>,
    name: String,
)
    requires
        has_named_field(fields),
        0 <= j < fields.len(),
        fields[j].ident == Some(name),
    ensures
        field_puller(fields, variant, j, source) == "if let Self::"@ + variant + " { "@ + name@
            + ": __quickcheck_derive_match_puller, .. } = &"@ + source
            + " { __quickcheck_derive_match_puller } else { ::core::unreachable!() }"@,
{
}

/// The positions of the fields whose key differs from `key`, among the first `m`.
pub open spec fn other_positions(fields: Seq<ItemField>, key: Seq<char>, m: int) -> Seq<int>
    decreases m,
{
    if m <= 0 {
        Seq::empty()
    } else if key_text(fields[m - 1], m - 1) != key {
        other_positions(fields, key, m - 1).push(m - 1)
    } else {
        other_positions(fields, key, m - 1)
    }
}

/// The positions below `m` other than `i`, in increasing order.
pub open spec fn positions_except(m: int, i: int) -> Seq<int> {
    Seq::new(
        (if 0 <= i < m {
            m - 1
        } else {
            m
        }) as nat,
        |k: int|
            if k < i {
                k
            } else {
                k + 1
            },
    )
}

/// Whether no two fields have the same key.
pub open spec fn distinct_keys(fields: Seq<ItemField>) -> bool {
    forall|j: int, k: int|
        0 <= j < fields.len() && 0 <= k < fields.len() && j != k ==> key_text(fields[j], j) != key_text(
            fields[k],
            k,
        )
}

proof fn lemma_other_positions_prefix(fields: Seq<ItemField>, i: int, m: int)
    requires
        distinct_keys(fields),
        0 <= i < fields.len(),
        0 <= m <= fields.len(),
    ensures
        other_positions(fields, key_text(fields[i], i), m) =~= positions_except(m, i),
    decreases m,
{
    if m > 0 {
        lemma_other_positions_prefix(fields, i, m - 1);
    }
}

/// Where the fields' keys are distinct (as the fields of a struct are), the
/// candidates that shrink field `i` of a struct with named fields keep every
/// other field, in declaration order, each read from the copy of `self`.
pub proof fn law_named_candidates_keep_other_fields(fields: Seq<ItemField>, i: int)
    requires
        distinct_keys(fields),
        0 <= i < fields.len(),
    ensures
        other_positions(fields, key_text(fields[i], i), fields.len() as int) == positions_except(
            fields.len() as int,
            i,
        ),
{
    lemma_other_positions_prefix(fields, i, fields.len() as int);
}

/// The name of the copy of `self` that the candidates of field `i` read from.
pub open spec fn self_copy(fields: Seq<ItemField>, i: int) -> Seq<char> {
    "self_"@ + key_text(fields[i], i)
}

/// Field `j` taken from the copy of `self` made for field `i`, as the
/// constructor of a struct reads it.
pub open spec fn struct_clone_of(fields: Seq<ItemField>, i: int, j: int) -> Seq<char> {
    "::core::clone::Clone::clone(&"@ + self_copy(fields, i) + "."@ + key_text(fields[j], j) + ")"@
}

/// The initialiser `key: value` of field `p` when field `i` of a struct with
/// named fields is shrunk.
pub open spec fn named_item(fields: Seq<ItemField>, i: int, p: int) -> Seq<char> {
    key_text(fields[p], p) + ": "@ + struct_clone_of(fields, i, p)
}

/// The initialisers of the fields at positions `ps`.
pub open spec fn named_items(fields: Seq<ItemField>, i: int, ps: Seq<int>) -> Seq<Seq<char>> {
    ps.map_values(|p: int| named_item(fields, i, p))
}

proof fn lemma_named_items_push(fields: Seq<ItemField>, i: int, ps: Seq<int>, p: int)
    ensures
        named_items(fields, i, ps.push(p)) =~= named_items(fields, i, ps).push(named_item(fields, i, p)),
{
}

/// The value given to field `j` when field `i` is shrunk.
pub open spec fn positional_value(fields: Seq<ItemField>, style: Style, i: int, j: int) -> Seq<char> {
    match style {
        Style::Named(moving) => moving,
        Style::Tuple(moving) => if j == i {
            moving
        } else {
            struct_clone_of(fields, i, j)
        },
        Style::Variant(variant) => if j == i {
            variant_moving()
        } else {
            "::core::clone::Clone::clone("@ + field_puller(fields, variant, j, self_copy(fields, i)) + ")"@
        },
    }
}

/// The candidates that shrink field `i` of a tuple struct rebuild it with the
/// shrunk value at place `i` and, at every other place `j`, a clone of field
/// `j` of the copy of `self` made for field `i`: each field keeps its place.
pub proof fn law_tuple_candidates_keep_other_fields(fields: Seq<ItemField>, moving: Seq<char>, i: int)
    requires
        forall|j: int| 0 <= j < fields.len() ==> (#[trigger] fields[j]).ident is None,
        0 <= i < fields.len(),
    ensures
        constructor_text(fields, Style::Tuple(moving), i) == "Self("@ + join(
            Seq::new(
                fields.len(),
                |j: int|
                    if j == i {
                        moving
                    } else {
                        "::core::clone::Clone::clone(&"@ + ("self_"@ + decimal(i as nat)) + "."@ + decimal(
                            j as nat,
                        ) + ")"@
                    },
            ),
            ", "@,
        ) + ")"@,
{
    let n = fields.len();
    let a = Seq::new(n, |j: int| positional_value(fields, Style::Tuple(moving), i, j));
    let b = Seq::new(
        n,
        |j: int|
            if j == i {
                moving
            } else {
                "::core::clone::Clone::clone(&"@ + ("self_"@ + decimal(i as nat)) + "."@ + decimal(j as nat)
                    + ")"@
            },
    );
    assert forall|j: int| 0 <= j < n implies a[j] == b[j] by {
        assert(fields[i].ident is None);
        assert(fields[j].ident is None);
    }
    assert(a =~= b);
}

/// The candidates that shrink field `i` of a variant with unnamed fields
/// rebuild the variant with the shrunk value at place `i` and, at every other
/// place `j`, a clone of field `j` pulled out of the copy of `self` made for
/// field `i`: each field keeps its place.
pub proof fn law_tuple_variant_candidates_keep_other_fields(fields: Seq<ItemField>, variant: Seq<char>, i: int)
    requires
        forall|j: int| 0 <= j < fields.len() ==> (#[trigger] fields[j]).ident is None,
        0 <= i < fields.len(),
    ensures
        constructor_text(fields, Style::Variant(variant), i) == "Self::"@ + variant + "("@ + join(
            Seq::new(
                fields.len(),
                |j: int|
                    if j == i {
                        "__quickcheck_derive_moving"@
                    } else {
                        "::core::clone::Clone::clone("@ + field_puller(
                            fields,
                            variant,
                            j,
                            "self_"@ + decimal(i as nat),
                        ) + ")"@
                    },
            ),
            ", "@,
        ) + ")"@,
{
    let n = fields.len();
    assert(!has_named_field(fields));
    let a = Seq::new(n, |j: int| variant_item(fields, Style::Variant(variant), i, j));
    let b = Seq::new(
        n,
        |j: int|
            if j == i {
                "__quickcheck_derive_moving"@
            } else {
                "::core::clone::Clone::clone("@ + field_puller(fields, variant, j, "self_"@ + decimal(i as nat))
                    + ")"@
            },
    );
    assert(key_text(fields[i], i) == decimal(i as nat)) by {
        assert(fields[i].ident is None);
    }
    assert(self_copy(fields, i) == "self_"@ + decimal(i as nat));
    assert forall|j: int| 0 <= j < n implies a[j] == b[j] by {
        assert(!has_named_field(fields));
        if j != i {
            assert(positional_value(fields, Style::Variant(variant), i, j) == b[j]);
        }
    }
    assert(a =~= b);
}

/// Field `j` of a variant with the fields `fields`, in the code that shrinks
/// field `i`: `key: value` for a variant with named fields, the bare value for
/// a tuple variant.
pub open spec fn variant_item(fields: Seq<ItemField>, style: Style, i: int, j: int) -> Seq<char> {
    if has_named_field(fields) {
        key_text(fields[j], j) + ": "@ + positional_value(fields, style, i, j)
    } else {
        positional_value(fields, style, i, j)
    }
}

/// The value that rebuilds the product from the shrunk field `i`.
pub open spec fn constructor_text(fields: Seq<ItemField>, style: Style, i: int) -> Seq<char> {
    let n = fields.len();
    match style {
        Style::Named(moving) => {
            let key = key_text(fields[i], i);
            "Self { "@ + key + ": "@ + moving + ", "@ + join(
                named_items(fields, i, other_positions(fields, key, n as int)),
                ", "@,
            ) + " }"@
        },
        Style::Tuple(moving) => "Self("@ + join(
            Seq::new(n, |j: int| positional_value(fields, style, i, j)),
            ", "@,
        ) + ")"@,
        Style::Variant(variant) => if has_named_field(fields) {
            "Self::"@ + variant + " { "@ + join(Seq::new(n, |j: int| variant_item(fields, style, i, j)), ", "@)
                + " }"@
        } else {
            "Self::"@ + variant + "("@ + join(Seq::new(n, |j: int| variant_item(fields, style, i, j)), ", "@)
                + ")"@
        },
    }
}

/// What the candidates of field `i` shrink: the field itself, read from `self`.
pub open spec fn shrunk_field_text(fields: Seq<ItemField>, style: Style, i: int) -> Seq<char> {
    match style {
        Style::Variant(variant) => field_puller(fields, variant, i, "self"@),
        _ => "&self."@ + key_text(fields[i], i),
    }
}

/// The name of the closure parameter in the candidates.
pub open spec fn moving_text(style: Style) -> Seq<char> {
    match style {
        Style::Named(moving) => moving,
        Style::Tuple(moving) => moving,
        Style::Variant(_) => variant_moving(),
    }
}

/// The iterator of the values that shrink field `i` and keep the others.
pub open spec fn candidate_text(fields: Seq<ItemField>, style: Style, i: int) -> Seq<char> {
    "::std::iter::Iterator::map(<"@ + fields[i].ty@ + " as ::quickcheck::Arbitrary>::shrink("@
        + shrunk_field_text(fields, style, i) + "), move |"@ + moving_text(style) + "| "@
        + constructor_text(fields, style, i) + ")"@
}

/// The iterators `cs[k..]` chained, the last one first.
pub open spec fn chain_from(cs: Seq<Seq<char>>, k: int) -> Seq<char>
    decreases cs.len() - k,
{
    if k >= cs.len() - 1 {
        cs.last()
    } else {
        "::std::iter::Iterator::chain("@ + chain_from(cs, k + 1) + ", "@ + cs[k] + ")"@
    }
}

/// All the iterators chained, the last one first; nothing where there is none.
pub open spec fn chain_text(cs: Seq<Seq<char>>) -> Seq<char> {
    if cs.len() == 0 {
        Seq::empty()
    } else {
        chain_from(cs, 0)
    }
}

/// The statement that copies `self` for the candidates of field `i`.
pub open spec fn copy_statement(fields: Seq<ItemField>, i: int) -> Seq<char> {
    "let "@ + self_copy(fields, i) + " = <Self as ::std::clone::Clone>::clone(&self);"@
}

/// The body of a `shrink` for a product: a copy of `self` per field, then the
/// boxed chain of the candidates of every field; a product without fields
/// does not shrink.
pub open spec fn product_shrink_text(fields: Seq<ItemField>, style: Style) -> Seq<char> {
    let n = fields.len();
    if n == 0 {
        "::quickcheck::empty_shrinker()"@
    } else {
        join(Seq::new(n, |i: int| copy_statement(fields, i)), " "@) + " ::std::boxed::Box::new("@
            + chain_text(Seq::new(n, |i: int| candidate_text(fields, style, i))) + ")"@
    }
}

/// The characters of a result's text.
pub open spec fn text_result(r: Result<String, DeriveError>) -> Result<Seq<char>, DeriveError> {
    match r {
        Ok(s) => Ok(s@),
        Err(e) => Err(e),
    }
}

/// An expression that yields a reference to the field at `pull` of a
/// `variant` value held in `source`, matched with a pattern of
/// `max(pull, others) + 1` fields.
pub fn make_enum_puller(pull: usize, others: usize, variant: &String, source: &String) -> (r: String)
    ensures
        r@ == puller_text(pull as nat, others as nat, variant@, source@),
{
    let mut pattern: Vec<String> = Vec::new();
    let mut k: usize = 0;
    while k < pull
        invariant
            k <= pull,
            pattern@.len() == k,
            forall|m: int| 0 <= m < k ==> (#[trigger] pattern@[m])@ == "_"@,
        decreases pull - k,
    {
        pattern.push(String::from_str("_"));
        k += 1;
    }
    pattern.push(String::from_str("__quickcheck_derive_match_puller"));
    let mut k: usize = pull;
    while k < others
        invariant
            pull <= k,
            k <= others || k == pull,
            pattern@.len() == k + 1,
            forall|m: int| 0 <= m < k + 1 && m != pull ==> (#[trigger] pattern@[m])@ == "_"@,
            pattern@[pull as int]@ == puller_name(),
        decreases others - k,
    {
        pattern.push(String::from_str("_"));
        k += 1;
    }
    proof {
        assert(texts(pattern@) =~= puller_pattern(pull as nat, others as nat));
    }
    let mut r = String::from_str("if let Self::");
    r.append(variant.as_str());
    r.append("(");
    r.append(join_strings(&pattern, ", ").as_str());
    r.append(") = &");
    r.append(source.as_str());
    r.append(" { __quickcheck_derive_match_puller } else { ::core::unreachable!() }");
    proof {
        assert(r@ =~= puller_text(pull as nat, others as nat, variant@, source@));
    }
    r
}

/// An expression that yields a reference to the field `key` of a `variant`
/// value with named fields, held in `source`.
pub fn make_named_puller(key: &String, variant: &String, source: &String) -> (r: String)
    ensures
        r@ == named_puller_text(key@, variant@, source@),
{
    let mut r = String::from_str("if let Self::");
    r.append(variant.as_str());
    r.append(" { ");
    r.append(key.as_str());
    r.append(": __quickcheck_derive_match_puller, .. } = &");
    r.append(source.as_str());
    r.append(" { __quickcheck_derive_match_puller } else { ::core::unreachable!() }");
    proof {
        assert(r@ =~= named_puller_text(key@, variant@, source@));
    }
    r
}

/// The keys of the fields: their names, or their positions.
fn key_strings(fields: &Vec<ItemField>) -> (r: Vec<String>)
    ensures
        r@.len() == fields@.len(),
        forall|j: int| 0 <= j < fields@.len() ==> (#[trigger] r@[j])@ == key_text(fields@[j], j),
{
    let n = fields.len();
    let mut keys: Vec<String> = Vec::new();
    let mut j: usize = 0;
    while j < n
        invariant
            n == fields@.len(),
            j <= n,
            keys@.len() == j,
            forall|m: int| 0 <= m < j ==> (#[trigger] keys@[m])@ == key_text(fields@[m], m),
        decreases n - j,
    {
        let key = match &fields[j].ident {
            Some(name) => name.clone(),
            None => {
                let mut s = String::new();
                push_decimal(&mut s, j);
                proof {
                    assert(s@ =~= decimal(j as nat));
                }
                s
            },
        };
        keys.push(key);
        j += 1;
    }
    keys
}

/// Whether some field has a name.
pub fn any_named_field(fields: &Vec<ItemField>) -> (r: bool)
    ensures
        r == has_named_field(fields@),
{
    let n = fields.len();
    let mut j: usize = 0;
    while j < n
        invariant
            n == fields@.len(),
            j <= n,
            forall|m: int| 0 <= m < j ==> (#[trigger] fields@[m]).ident is None,
        decreases n - j,
    {
        if fields[j].ident.is_some() {
            assert(fields@[j as int].ident is Some);
            return true;
        }
        j += 1;
    }
    false
}

/// Field `j` taken from the copy of `self` named `copy`, as a struct
/// constructor reads it.
fn struct_clone_string(copy: &String, key: &String) -> (r: String)
    ensures
        r@ == "::core::clone::Clone::clone(&"@ + copy@ + "."@ + key@ + ")"@,
{
    let mut r = String::from_str("::core::clone::Clone::clone(&");
    r.append(copy.as_str());
    r.append(".");
    r.append(key.as_str());
    r.append(")");
    r
}

/// The value that rebuilds the product from the shrunk field `i`.
fn constructor_string(fields: &Vec<ItemField>, keys: &Vec<String>, style: &ShrinkStyle, i: usize) -> (r: String)
    requires
        i < fields@.len(),
        keys@.len() == fields@.len(),
        forall|j: int| 0 <= j < fields@.len() ==> (#[trigger] keys@[j])@ == key_text(fields@[j], j),
    ensures
        r@ == constructor_text(fields@, style@, i as int),
{
    let n = fields.len();
    let mut copy = String::from_str("self_");
    copy.append(keys[i].as_str());
    assert(copy@ == self_copy(fields@, i as int));
    match style {
        ShrinkStyle::Named { moving } => {
            let ghost key = key_text(fields@[i as int], i as int);
            let mut items: Vec<String> = Vec::new();
            let mut j: usize = 0;
            while j < n
                invariant
                    n == fields@.len(),
                    j <= n,
                    i < n,
                    keys@.len() == n,
                    forall|m: int| 0 <= m < n ==> (#[trigger] keys@[m])@ == key_text(fields@[m], m),
                    key == keys@[i as int]@,
                    copy@ == self_copy(fields@, i as int),
                    texts(items@) =~= named_items(fields@, i as int, other_positions(fields@, key, j as int)),
                decreases n - j,
            {
                let differs = !keys[j].eq(&keys[i]);
                let ghost old_items = items@;
                proof {
                    if differs {
                        assert(other_positions(fields@, key, j + 1) == other_positions(fields@, key, j as int).push(j as int));
                    } else {
                        assert(other_positions(fields@, key, j + 1) == other_positions(fields@, key, j as int));
                    }
                }
                if differs {
                    let mut item = keys[j].clone();
                    item.append(": ");
                    item.append(struct_clone_string(&copy, &keys[j]).as_str());
                    items.push(item);
                    proof {
                        assert(item@ =~= named_item(fields@, i as int, j as int));
                        lemma_named_items_push(fields@, i as int, other_positions(fields@, key, j as int), j as int);
                        assert(texts(items@) =~= texts(old_items).push(item@));
                    }
                }
                j += 1;
            }
            let mut r = String::from_str("Self { ");
            r.append(keys[i].as_str());
            r.append(": ");
            r.append(moving.as_str());
            r.append(", ");
            r.append(join_strings(&items, ", ").as_str());
            r.append(" }");
            proof {
                assert(r@ =~= constructor_text(fields@, style@, i as int));
            }
            r
        },
        ShrinkStyle::Tuple { moving } => {
            let mut items: Vec<String> = Vec::new();
            let mut j: usize = 0;
            while j < n
                invariant
                    n == fields@.len(),
                    j <= n,
                    i < n,
                    keys@.len() == n,
                    forall|m: int| 0 <= m < n ==> (#[trigger] keys@[m])@ == key_text(fields@[m], m),
                    copy@ == self_copy(fields@, i as int),
                    *style == (ShrinkStyle::Tuple { moving: *moving }),
                    items@.len() == j,
                    forall|m: int| 0 <= m < j ==> (#[trigger] items@[m])@ == positional_value(fields@, style@, i as int, m),
                decreases n - j,
            {
                if j == i {
                    items.push(moving.clone());
                } else {
                    items.push(struct_clone_string(&copy, &keys[j]));
                }
                j += 1;
            }
            proof {
                assert(texts(items@) =~= Seq::new(n as nat, |m: int| positional_value(fields@, style@, i as int, m)));
            }
            let mut r = String::from_str("Self(");
            r.append(join_strings(&items, ", ").as_str());
            r.append(")");
            proof {
                assert(r@ =~= constructor_text(fields@, style@, i as int));
            }
            r
        },
        ShrinkStyle::Variant { variant } => {
            let braced = any_named_field(fields);
            let mut items: Vec<String> = Vec::new();
            let mut j: usize = 0;
            while j < n
                invariant
                    n == fields@.len(),
                    j <= n,
                    i < n,
                    braced == has_named_field(fields@),
                    keys@.len() == n,
                    forall|m: int| 0 <= m < n ==> (#[trigger] keys@[m])@ == key_text(fields@[m], m),
                    copy@ == self_copy(fields@, i as int),
                    *style == (ShrinkStyle::Variant { variant: *variant }),
                    items@.len() == j,
                    forall|m: int| 0 <= m < j ==> (#[trigger] items@[m])@ == variant_item(fields@, style@, i as int, m),
                decreases n - j,
            {
                let value = if j == i {
                    String::from_str("__quickcheck_derive_moving")
                } else {
                    let mut item = String::from_str("::core::clone::Clone::clone(");
                    item.append(field_puller_string(fields, keys, braced, variant, j, &copy).as_str());
                    item.append(")");
                    item
                };
                let item = if braced {
                    let mut item = keys[j].clone();
                    item.append(": ");
                    item.append(value.as_str());
                    item
                } else {
                    value
                };
                proof {
                    assert(item@ =~= variant_item(fields@, style@, i as int, j as int));
                }
                items.push(item);
                j += 1;
            }
            proof {
                assert(texts(items@) =~= Seq::new(n as nat, |m: int| variant_item(fields@, style@, i as int, m)));
            }
            let mut r = String::from_str("Self::");
            r.append(variant.as_str());
            if braced {
                r.append(" { ");
                r.append(join_strings(&items, ", ").as_str());
                r.append(" }");
            } else {
                r.append("(");
                r.append(join_strings(&items, ", ").as_str());
                r.append(")");
            }
            proof {
                assert(r@ =~= constructor_text(fields@, style@, i as int));
            }
            r
        },
    }
}

/// An expression that yields a reference to field `j` of a `variant` value held
/// in `source`.
fn field_puller_string(
    fields: &Vec<ItemField>,
    keys: &Vec<String>,
    braced: bool,
    variant: &String,
    j: usize,
    source: &String,
) -> (r: String)
    requires
        j < fields@.len(),
        braced == has_named_field(fields@),
        keys@.len() == fields@.len(),
        forall|m: int| 0 <= m < fields@.len() ==> (#[trigger] keys@[m])@ == key_text(fields@[m], m),
    ensures
        r@ == field_puller(fields@, variant@, j as int, source@),
{
    if braced {
        make_named_puller(&keys[j], variant, source)
    } else {
        make_enum_puller(j, fields.len() - 1, variant, source)
    }
}

/// The iterator of the values that shrink field `i` and keep the others.
fn candidate_string(fields: &Vec<ItemField>, keys: &Vec<String>, style: &ShrinkStyle, i: usize) -> (r: String)
    requires
        i < fields@.len(),
        keys@.len() == fields@.len(),
        forall|j: int| 0 <= j < fields@.len() ==> (#[trigger] keys@[j])@ == key_text(fields@[j], j),
    ensures
        r@ == candidate_text(fields@, style@, i as int),
{
    let n = fields.len();
    let shrunk = match style {
        ShrinkStyle::Variant { variant } => field_puller_string(
            fields,
            keys,
            any_named_field(fields),
            variant,
            i,
            &String::from_str("self"),
        ),
        _ => {
            let mut s = String::from_str("&self.");
            s.append(keys[i].as_str());
            s
        },
    };
    let moving = match style {
        ShrinkStyle::Named { moving } => moving.clone(),
        ShrinkStyle::Tuple { moving } => moving.clone(),
        ShrinkStyle::Variant { .. } => String::from_str("__quickcheck_derive_moving"),
    };
    let mut r = String::from_str("::std::iter::Iterator::map(<");
    r.append(fields[i].ty.as_str());
    r.append(" as ::quickcheck::Arbitrary>::shrink(");
    r.append(shrunk.as_str());
    r.append("), move |");
    r.append(moving.as_str());
    r.append("| ");
    r.append(constructor_string(fields, keys, style, i).as_str());
    r.append(")");
    proof {
        assert(r@ =~= candidate_text(fields@, style@, i as int));
    }
    r
}

/// The iterators chained, the last one first.
fn chain_strings(cs: &Vec<String>) -> (r: String)
    ensures
        r@ == chain_text(texts(cs@)),
{
    let n = cs.len();
    if n == 0 {
        return String::new();
    }
    let mut acc = cs[n - 1].clone();
    let mut k: usize = n - 1;
    while k > 0
        invariant
            n == cs@.len(),
            k < n,
            acc@ == chain_from(texts(cs@), k as int),
        decreases k,
    {
        k -= 1;
        let mut next = String::from_str("::std::iter::Iterator::chain(");
        next.append(acc.as_str());
        next.append(", ");
        next.append(cs[k].as_str());
        next.append(")");
        proof {
            assert(next@ =~= chain_from(texts(cs@), k as int));
        }
        acc = next;
    }
    acc
}

/// The body of a `shrink` for a product of `fields`: one copy of `self` per
/// field, then, boxed, the candidates of every field chained, those of the
/// last field first. Each candidate shrinks one field and keeps the others.
/// A product without fields gets the empty shrinker.
pub fn generate_product_shrink(fields: &Vec<ItemField>, style: &ShrinkStyle) -> (r: String)
    ensures
        r@ == product_shrink_text(fields@, style@),
{
    if fields.len() == 0 {
        return String::from_str("::quickcheck::empty_shrinker()");
    }
    let n = fields.len();
    let keys = key_strings(fields);
    let mut copies: Vec<String> = Vec::new();
    let mut candidates: Vec<String> = Vec::new();
    let mut i: usize = 0;
    while i < n
        invariant
            n == fields@.len(),
            i <= n,
            keys@.len() == n,
            forall|j: int| 0 <= j < n ==> (#[trigger] keys@[j])@ == key_text(fields@[j], j),
            copies@.len() == i,
            candidates@.len() == i,
            forall|j: int| 0 <= j < i ==> (#[trigger] copies@[j])@ == copy_statement(fields@, j),
            forall|j: int| 0 <= j < i ==> (#[trigger] candidates@[j])@ == candidate_text(fields@, style@, j),
        decreases n - i,
    {
        let mut copy = String::from_str("let ");
        copy.append("self_");
        copy.append(keys[i].as_str());
        copy.append(" = <Self as ::std::clone::Clone>::clone(&self);");
        proof {
            assert(copy@ =~= copy_statement(fields@, i as int));
        }
        copies.push(copy);
        candidates.push(candidate_string(fields, &keys, style, i));
        i += 1;
    }
    proof {
        assert(texts(copies@) =~= Seq::new(n as nat, |j: int| copy_statement(fields@, j)));
        assert(texts(candidates@) =~= Seq::new(n as nat, |j: int| candidate_text(fields@, style@, j)));
    }
    let mut r = join_strings(&copies, " ");
    r.append(" ::std::boxed::Box::new(");
    r.append(chain_strings(&candidates).as_str());
    r.append(")");
    proof {
        assert(r@ =~= product_shrink_text(fields@, style@));
    }
    r
}

} // verus!
