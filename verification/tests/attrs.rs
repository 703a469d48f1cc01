use quickcheck_arbitrary_derive::attrs::{get_enum_attrs, quickcheck_attribute_kind, read_enum_attrs};
use quickcheck_arbitrary_derive::model::{
    AttrArg, AttrError, AttrValue, ItemAttribute, EnumAttributes, RecursiveKind,
};

fn arg(key: &str, value: &str) -> AttrArg {
    AttrArg {
        key: Some(key.to_string()),
        value: AttrValue::Ident(value.to_string()),
    }
}

fn qc(args: Vec<AttrArg>) -> ItemAttribute {
    ItemAttribute { path: Some("quickcheck".to_string()), args: Some(args) }
}

fn other(path: Option<&str>) -> ItemAttribute {
    ItemAttribute { path: path.map(|p| p.to_string()), args: None }
}

fn kind(r: Result<EnumAttributes, AttrError>) -> Result<RecursiveKind, AttrError> {
    r.map(|a| a.recursive)
}

#[test]
fn no_attribute_is_not_recursive() {
    assert_eq!(kind(read_enum_attrs(&vec![])), Ok(RecursiveKind::NotRecursive));
    assert_eq!(
        kind(read_enum_attrs(&vec![other(Some("doc")), other(None)])),
        Ok(RecursiveKind::NotRecursive)
    );
}

#[test]
fn recursive_names_the_strategy() {
    for (name, expected) in [
        ("None", RecursiveKind::NotRecursive),
        ("Linear", RecursiveKind::Linear),
        ("Exponential", RecursiveKind::Exponential),
    ] {
        let attrs = vec![other(Some("doc")), qc(vec![arg("recursive", name)])];
        assert_eq!(kind(read_enum_attrs(&attrs)), Ok(expected));
    }
}

#[test]
fn other_keys_are_ignored() {
    let attrs = vec![qc(vec![arg("weight", "Heavy")])];
    assert_eq!(kind(read_enum_attrs(&attrs)), Ok(RecursiveKind::NotRecursive));
}

#[test]
fn later_recursive_overrides_earlier() {
    let args = Some(vec![arg("recursive", "Linear"), arg("recursive", "Exponential")]);
    assert_eq!(quickcheck_attribute_kind(&args), Ok(RecursiveKind::Exponential));
}

#[test]
fn unknown_strategy_is_refused() {
    let attrs = vec![qc(vec![arg("recursive", "Quadratic")])];
    assert_eq!(read_enum_attrs(&attrs), Err(AttrError::UnknownStrategy));
    assert_eq!(
        AttrError::UnknownStrategy.message(),
        "quickcheck recursive strategies must be one of None, Linear, Exponential"
    );
}

#[test]
fn malformed_arguments_are_refused() {
    let attrs = vec![ItemAttribute { path: Some("quickcheck".to_string()), args: None }];
    assert_eq!(read_enum_attrs(&attrs), Err(AttrError::MalformedArguments));
    assert_eq!(
        AttrError::MalformedArguments.message(),
        "quickcheck attribute must have comma seperated arguments"
    );
}

#[test]
fn key_must_be_an_identifier() {
    let args = Some(vec![AttrArg { key: None, value: AttrValue::Other }]);
    assert_eq!(quickcheck_attribute_kind(&args), Err(AttrError::KeyNotIdent));
}

#[test]
fn value_must_be_a_path() {
    let args = Some(vec![AttrArg { key: Some("recursive".to_string()), value: AttrValue::Other }]);
    assert_eq!(quickcheck_attribute_kind(&args), Err(AttrError::ValueNotPath));
    assert_eq!(AttrError::ValueNotPath.message(), "quickcheck values must be literals");
}

#[test]
fn value_must_be_one_identifier() {
    let args = Some(vec![AttrArg { key: Some("recursive".to_string()), value: AttrValue::Path }]);
    assert_eq!(quickcheck_attribute_kind(&args), Err(AttrError::StrategyNotIdent));
}

#[test]
fn first_error_is_reported() {
    let args = Some(vec![
        arg("recursive", "Linear"),
        AttrArg { key: Some("x".to_string()), value: AttrValue::Other },
        AttrArg { key: None, value: AttrValue::Path },
    ]);
    assert_eq!(quickcheck_attribute_kind(&args), Err(AttrError::ValueNotPath));
}

#[test]
fn attribute_applies_once() {
    let attrs = vec![
        qc(vec![arg("recursive", "Linear")]),
        qc(vec![arg("recursive", "Linear")]),
    ];
    assert_eq!(read_enum_attrs(&attrs), Err(AttrError::Repeated));
    assert_eq!(
        AttrError::Repeated.message(),
        "quickcheck attribute may only be applied once to each field"
    );
}

#[test]
fn errors_of_later_attributes_come_before_repetition() {
    let attrs = vec![
        qc(vec![arg("recursive", "Linear")]),
        qc(vec![arg("recursive", "Sideways")]),
    ];
    assert_eq!(read_enum_attrs(&attrs), Err(AttrError::UnknownStrategy));
}

#[test]
fn other_attributes_do_not_matter() {
    let look_alike = ItemAttribute {
        path: Some("quickcheck_extra".to_string()),
        args: Some(vec![arg("recursive", "Nonsense")]),
    };
    let with_others = vec![
        other(Some("doc")),
        look_alike,
        qc(vec![arg("recursive", "Linear")]),
        other(None),
    ];
    let alone = vec![qc(vec![arg("recursive", "Linear")])];
    assert_eq!(read_enum_attrs(&with_others), read_enum_attrs(&alone));
    assert_eq!(kind(read_enum_attrs(&alone)), Ok(RecursiveKind::Linear));
}

#[test]
fn accepted_attributes_give_their_settings() {
    let attrs = vec![other(Some("doc")), qc(vec![arg("recursive", "Exponential")])];
    assert_eq!(get_enum_attrs(&attrs).recursive, RecursiveKind::Exponential);
    assert_eq!(get_enum_attrs(&vec![]).recursive, RecursiveKind::NotRecursive);
}
