use vstd::prelude::*;

verus! {

/// How fast a variant's values grow with their depth, as a
/// `#[quickcheck(recursive = ..)]` attribute declares it.
#[derive(Clone, Copy, Debug, PartialEq, Eq, Structural)]
pub enum RecursiveKind {
    /// `recursive = None`, or no `recursive` setting at all.
    NotRecursive,
    Linear,
    Exponential,
}

/// The settings that the `quickcheck` attribute of an enum variant gives.
#[derive(Clone, Copy, Debug, PartialEq, Eq, Structural)]
pub struct EnumAttributes {
    pub recursive: RecursiveKind,
}

/// The value on the right of `key = value` in a `quickcheck` attribute.
pub enum AttrValue {
    /// A path made of one identifier, such as `Exponential`.
    Ident(String),
    /// A path that is not a single identifier, such as `a::B`.
    Path,
    /// An expression that is not a path, such as `3`.
    Other,
}

/// One `key = value` argument of a `quickcheck` attribute.
pub struct AttrArg {
    /// The key, where the left side is a single identifier.
    pub key: Option<String>,
    pub value: AttrValue,
}

/// An attribute on an enum variant.
pub struct ItemAttribute {
    /// The attribute's path, where it is a single identifier, as in `#[quickcheck(..)]`.
    pub path: Option<String>,
    /// The attribute's arguments read as a comma-separated list of `key = value`,
    /// or `None` where they are not one.
    pub args: Option<Vec<AttrArg>>,
}

/// Why the attributes of a variant are refused.
#[derive(Clone, Copy, Debug, PartialEq, Eq, Structural)]
pub enum AttrError {
    /// The arguments are not a comma-separated list of `key = value`.
    MalformedArguments,
    /// The key of an argument is not a single identifier.
    KeyNotIdent,
    /// The value of an argument is a path of more than one identifier.
    StrategyNotIdent,
    /// The value of an argument is not a path.
    ValueNotPath,
    /// `recursive` names none of `None`, `Linear`, `Exponential`.
    UnknownStrategy,
    /// More than one `quickcheck` attribute on one variant.
    Repeated,
}

pub open spec fn attr_error_message(e: AttrError) -> Seq<char> {
    match e {
        AttrError::MalformedArguments => "quickcheck attribute must have comma seperated arguments"@,
        AttrError::KeyNotIdent => "quickcheck arguments must be of the form `ident = value`"@,
        AttrError::StrategyNotIdent => "quickcheck recursive strategies must be one of None, Linear, Exponential"@,
        AttrError::ValueNotPath => "quickcheck values must be literals"@,
        AttrError::UnknownStrategy => "quickcheck recursive strategies must be one of None, Linear, Exponential"@,
        AttrError::Repeated => "quickcheck attribute may only be applied once to each field"@,
    }
}

impl AttrError {
    /// The text with which the derive reports this error.
    pub fn message(&self) -> (r: &'static str)
        ensures
            r@ == attr_error_message(*self),
    {
        match self {
            AttrError::MalformedArguments => "quickcheck attribute must have comma seperated arguments",
            AttrError::KeyNotIdent => "quickcheck arguments must be of the form `ident = value`",
            AttrError::StrategyNotIdent => "quickcheck recursive strategies must be one of None, Linear, Exponential",
            AttrError::ValueNotPath => "quickcheck values must be literals",
            AttrError::UnknownStrategy => "quickcheck recursive strategies must be one of None, Linear, Exponential",
            AttrError::Repeated => "quickcheck attribute may only be applied once to each field",
        }
    }
}

/// A field of a struct or of an enum variant.
pub struct ItemField {
    /// The field's name; `None` for a positional field.
    pub ident: Option<String>,
    /// The field's type, as source text.
    pub ty: String,
}

/// The fields of a struct.
pub enum Fields {
    Named(Vec<ItemField>),
    Unnamed(Vec<ItemField>),
    Unit,
}

/// A variant of an enum.
pub struct ItemVariant {
    pub ident: String,
    pub fields: Vec<ItemField>,
    pub attrs: Vec<ItemAttribute>,
}

/// The body of the type that the derive is applied to.
pub enum Data {
    Struct(Fields),
    Enum(Vec<ItemVariant>),
    Union,
}

/// A type parameter of the type that the derive is applied to.
pub struct TypeParameter {
    /// The parameter's name.
    pub ident: String,
    /// The whole parameter as source text, its bounds included.
    pub tokens: String,
    /// The number of bounds that the parameter declares.
    pub bound_count: usize,
}

/// The type that the derive is applied to.
pub struct Item {
    pub ident: String,
    /// The lifetime parameters, as source text.
    pub lifetimes: Vec<String>,
    pub type_params: Vec<TypeParameter>,
    pub data: Data,
}

/// Why a derive is refused.
#[derive(Clone, Copy, Debug, PartialEq, Eq, Structural)]
pub enum DeriveError {
    /// The `quickcheck` attributes of a variant are refused.
    Attribute(AttrError),
    /// The type has lifetime parameters.
    Lifetimes,
}

pub open spec fn derive_error_message(e: DeriveError) -> Seq<char> {
    match e {
        DeriveError::Attribute(a) => attr_error_message(a),
        DeriveError::Lifetimes => "Cannot derive QuickCheck for a type with lifetimes yet"@,
    }
}

impl DeriveError {
    /// The text with which the derive reports this error.
    pub fn message(&self) -> (r: &'static str)
        ensures
            r@ == derive_error_message(*self),
    {
        match self {
            DeriveError::Attribute(a) => a.message(),
            DeriveError::Lifetimes => "Cannot derive QuickCheck for a type with lifetimes yet",
        }
    }
}

} // verus!
