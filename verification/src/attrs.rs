use vstd::prelude::*;

use crate::model::{AttrArg, AttrError, AttrValue, ItemAttribute, EnumAttributes, RecursiveKind};

verus! {

/// Whether the key of `arg` is the identifier `name`.
pub open spec fn key_is(arg: AttrArg, name: Seq<char>) -> bool {
    arg.key matches Some(k) && k@ == name
}

/// What is wrong with one `key = value` argument, if anything: the key is
/// looked at first, then the value.
pub open spec fn arg_error(arg: AttrArg) -> Option<AttrError> {
    if arg.key is None {
        Some(AttrError::KeyNotIdent)
    } else {
        match arg.value {
            AttrValue::Ident(_) => None,
            AttrValue::Path => Some(AttrError::StrategyNotIdent),
            AttrValue::Other => Some(AttrError::ValueNotPath),
        }
    }
}

/// The error of the first argument that has one.
pub open spec fn first_arg_error(args: Seq<AttrArg>) -> Option<AttrError>
    decreases args.len(),
{
    if args.len() == 0 {
        None
    } else {
        match first_arg_error(args.drop_last()) {
            Some(e) => Some(e),
            None => arg_error(args.last()),
        }
    }
}

/// The identifier on the right of a value.
pub open spec fn value_text(v: AttrValue) -> Seq<char> {
    match v {
        AttrValue::Ident(s) => s@,
        _ => Seq::empty(),
    }
}

/// The value of the last `recursive = ..` argument: a later one overrides an
/// earlier one.
pub open spec fn recursive_value(args: Seq<AttrArg>) -> Option<Seq<char>>
    decreases args.len(),
{
    if args.len() == 0 {
        None
    } else if key_is(args.last(), "recursive"@) {
        Some(value_text(args.last().value))
    } else {
        recursive_value(args.drop_last())
    }
}

/// The strategy that a name stands for.
pub open spec fn kind_named(name: Seq<char>) -> Option<RecursiveKind> {
    if name == "None"@ {
        Some(RecursiveKind::NotRecursive)
    } else if name == "Linear"@ {
        Some(RecursiveKind::Linear)
    } else if name == "Exponential"@ {
        Some(RecursiveKind::Exponential)
    } else {
        None
    }
}

/// The strategy that one `quickcheck` attribute, with these arguments, sets.
pub open spec fn attribute_kind(args: Option<Seq<AttrArg>>) -> Result<RecursiveKind, AttrError> {
    match args {
        None => Err(AttrError::MalformedArguments),
        Some(a) => match first_arg_error(a) {
            Some(e) => Err(e),
            None => match recursive_value(a) {
                None => Ok(RecursiveKind::NotRecursive),
                Some(v) => match kind_named(v) {
                    Some(k) => Ok(k),
                    None => Err(AttrError::UnknownStrategy),
                },
            },
        },
    }
}

/// The arguments of a `quickcheck` attribute, as sequences.
pub open spec fn attribute_args(a: Option<Vec<AttrArg>>) -> Option<Seq<AttrArg>> {
    match a {
        Some(v) => Some(v@),
        None => None,
    }
}

/// Whether the attribute's path is the identifier `quickcheck`.
pub open spec fn is_quickcheck(a: ItemAttribute) -> bool {
    a.path matches Some(p) && p@ == "quickcheck"@
}

/// The `quickcheck` attributes among `attrs`, in order.
pub open spec fn quickcheck_attributes(attrs: Seq<ItemAttribute>) -> Seq<ItemAttribute>
    decreases attrs.len(),
{
    if attrs.len() == 0 {
        Seq::empty()
    } else if is_quickcheck(attrs.last()) {
        quickcheck_attributes(attrs.drop_last()).push(attrs.last())
    } else {
        quickcheck_attributes(attrs.drop_last())
    }
}

/// Reading the attributes in order: the first error met, or the number of
/// `quickcheck` attributes and the strategy that the first of them sets.
pub open spec fn scan_attributes(attrs: Seq<ItemAttribute>) -> Result<(nat, RecursiveKind), AttrError>
    decreases attrs.len(),
{
    if attrs.len() == 0 {
        Ok((0, RecursiveKind::NotRecursive))
    } else {
        match scan_attributes(attrs.drop_last()) {
            Err(e) => Err(e),
            Ok((count, kind)) => if is_quickcheck(attrs.last()) {
                match attribute_kind(attribute_args(attrs.last().args)) {
                    Err(e) => Err(e),
                    Ok(k) => Ok((count + 1, if count == 0 { k } else { kind })),
                }
            } else {
                Ok((count, kind))
            },
        }
    }
}

/// The settings of a variant with attributes `attrs`: none gives
/// `NotRecursive`, one gives its own strategy, more than one is refused.
pub open spec fn enum_attributes(attrs: Seq<ItemAttribute>) -> Result<EnumAttributes, AttrError> {
    match scan_attributes(attrs) {
        Err(e) => Err(e),
        Ok((count, kind)) => if count == 0 {
            Ok(EnumAttributes { recursive: RecursiveKind::NotRecursive })
        } else if count == 1 {
            Ok(EnumAttributes { recursive: kind })
        } else {
            Err(AttrError::Repeated)
        },
    }
}

/// The strategy that one `quickcheck` attribute sets.
pub fn quickcheck_attribute_kind(args: &Option<Vec<AttrArg>>) -> (r: Result<RecursiveKind, AttrError>)
    ensures
        r == attribute_kind(attribute_args(*args)),
{
    match args {
        None => Err(AttrError::MalformedArguments),
        Some(list) => {
            let n = list.len();
            let recursive_key = String::from_str("recursive");
            let mut found: Option<usize> = None;
            let mut i: usize = 0;
            while i < n
                invariant
                    n == list@.len(),
                    *args == Some(*list),
                    i <= n,
                    recursive_key@ == "recursive"@,
                    first_arg_error(list@.take(i as int)) is None,
                    forall|k: int| 0 <= k < i ==> (#[trigger] list@[k]).value is Ident,
                    match found {
                        None => recursive_value(list@.take(i as int)) is None,
                        Some(j) => j < i && recursive_value(list@.take(i as int)) == Some(
                            value_text(list@[j as int].value),
                        ),
                    },
                decreases n - i,
            {
                proof {
                    assert(list@.take(i + 1).drop_last() =~= list@.take(i as int));
                    assert(list@.take(i + 1).last() == list@[i as int]);
                }
                let arg = &list[i];
                match &arg.key {
                    None => {
                        proof {
                            lemma_arg_error_sticks(list@, i as int + 1);
                        }
                        return Err(AttrError::KeyNotIdent);
                    },
                    Some(k) => {
                        match &arg.value {
                            AttrValue::Ident(_) => {},
                            AttrValue::Path => {
                                proof {
                                    lemma_arg_error_sticks(list@, i as int + 1);
                                }
                                return Err(AttrError::StrategyNotIdent);
                            },
                            AttrValue::Other => {
                                proof {
                                    lemma_arg_error_sticks(list@, i as int + 1);
                                }
                                return Err(AttrError::ValueNotPath);
                            },
                        }
                        if k.eq(&recursive_key) {
                            found = Some(i);
                        }
                    },
                }
                i += 1;
            }
            proof {
                assert(list@.take(n as int) =~= list@);
            }
            match found {
                None => Ok(RecursiveKind::NotRecursive),
                Some(j) => match &list[j].value {
                    AttrValue::Ident(v) => {
                        if v.eq(&String::from_str("None")) {
                            Ok(RecursiveKind::NotRecursive)
                        } else if v.eq(&String::from_str("Linear")) {
                            Ok(RecursiveKind::Linear)
                        } else if v.eq(&String::from_str("Exponential")) {
                            Ok(RecursiveKind::Exponential)
                        } else {
                            Err(AttrError::UnknownStrategy)
                        }
                    },
                    _ => Err(AttrError::UnknownStrategy),
                },
            }
        },
    }
}

/// The settings of an enum variant, read from attributes that the derive
/// accepts (see [`read_enum_attrs`], which tells which it refuses): at most one
/// `quickcheck` attribute, whose `recursive` argument names the strategy.
pub fn get_enum_attrs(attrs: &Vec<ItemAttribute>) -> (r: EnumAttributes)
    requires
        enum_attributes(attrs@) is Ok,
    ensures
        enum_attributes(attrs@) == Ok::<EnumAttributes, AttrError>(r),
{
    match read_enum_attrs(attrs) {
        Ok(a) => a,
        Err(_) => {
            proof {
                assert(false);
            }
            EnumAttributes { recursive: RecursiveKind::NotRecursive }
        },
    }
}

/// The settings of an enum variant read from its attributes, or why the derive
/// refuses them: at most one `quickcheck` attribute, whose `recursive`
/// argument names the strategy; the first error met in reading order.
pub fn read_enum_attrs(attrs: &Vec<ItemAttribute>) -> (r: Result<EnumAttributes, AttrError>)
    ensures
        r == enum_attributes(attrs@),
{
    let n = attrs.len();
    let quickcheck = String::from_str("quickcheck");
    let mut count: usize = 0;
    let mut kind = RecursiveKind::NotRecursive;
    let mut i: usize = 0;
    while i < n
        invariant
            n == attrs@.len(),
            i <= n,
            count <= i,
            quickcheck@ == "quickcheck"@,
            scan_attributes(attrs@.take(i as int)) == Ok::<(nat, RecursiveKind), AttrError>(
                (count as nat, kind),
            ),
        decreases n - i,
    {
        proof {
            assert(attrs@.take(i + 1).drop_last() =~= attrs@.take(i as int));
            assert(attrs@.take(i + 1).last() == attrs@[i as int]);
        }
        let attr = &attrs[i];
        let is_qc = match &attr.path {
            Some(p) => p.eq(&quickcheck),
            None => false,
        };
        if is_qc {
            match quickcheck_attribute_kind(&attr.args) {
                Err(e) => {
                    proof {
                        lemma_scan_error_sticks(attrs@, i as int + 1);
                    }
                    return Err(e);
                },
                Ok(k) => {
                    if count == 0 {
                        kind = k;
                    }
                    count = count + 1;
                },
            }
        }
        i += 1;
    }
    proof {
        assert(attrs@.take(n as int) =~= attrs@);
    }
    if count == 0 {
        Ok(EnumAttributes { recursive: RecursiveKind::NotRecursive })
    } else if count == 1 {
        Ok(EnumAttributes { recursive: kind })
    } else {
        Err(AttrError::Repeated)
    }
}

/// Once an argument has an error, later arguments do not change which error is reported.
proof fn lemma_arg_error_sticks(args: Seq<AttrArg>, k: int)
    requires
        0 <= k <= args.len(),
        first_arg_error(args.take(k)) is Some,
    ensures
        first_arg_error(args) == first_arg_error(args.take(k)),
    decreases args.len() - k,
{
    if k == args.len() {
        assert(args.take(k) =~= args);
    } else {
        assert(args.take(k + 1).drop_last() =~= args.take(k));
        lemma_arg_error_sticks(args, k + 1);
    }
}

proof fn lemma_scan_only_quickcheck(attrs: Seq<ItemAttribute>)
    ensures
        scan_attributes(attrs) == scan_attributes(quickcheck_attributes(attrs)),
    decreases attrs.len(),
{
    if attrs.len() > 0 {
        lemma_scan_only_quickcheck(attrs.drop_last());
        if is_quickcheck(attrs.last()) {
            let q = quickcheck_attributes(attrs.drop_last()).push(attrs.last());
            assert(q.drop_last() =~= quickcheck_attributes(attrs.drop_last()));
        }
    }
}

/// Attributes whose path is not `quickcheck` do not matter: two lists of
/// attributes with the same `quickcheck` attributes, in the same order, give
/// the same settings or the same error, wherever the other attributes stand.
pub proof fn law_other_attributes_ignored(attrs1: Seq<ItemAttribute>, attrs2: Seq<ItemAttribute>)
    requires
        quickcheck_attributes(attrs1) == quickcheck_attributes(attrs2),
    ensures
        enum_attributes(attrs1) == enum_attributes(attrs2),
{
    lemma_scan_only_quickcheck(attrs1);
    lemma_scan_only_quickcheck(attrs2);
}

/// Once reading the attributes has met an error, reading more of them keeps it.
proof fn lemma_scan_error_sticks(attrs: Seq<ItemAttribute>, k: int)
    requires
        0 <= k <= attrs.len(),
        scan_attributes(attrs.take(k)) is Err,
    ensures
        scan_attributes(attrs) == scan_attributes(attrs.take(k)),
    decreases attrs.len() - k,
{
    if k == attrs.len() {
        assert(attrs.take(k) =~= attrs);
    } else {
        assert(attrs.take(k + 1).drop_last() =~= attrs.take(k));
        lemma_scan_error_sticks(attrs, k + 1);
    }
}

} // verus!
