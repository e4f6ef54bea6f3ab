use baml_core::field_type::{BamlMediaType, FieldType, TypeValue};

fn prim(tv: TypeValue) -> FieldType {
    FieldType::Primitive(tv)
}

#[test]
fn from_str_recognizes_every_primitive_name() {
    assert_eq!(TypeValue::from_str("string"), Some(TypeValue::String));
    assert_eq!(TypeValue::from_str("int"), Some(TypeValue::Int));
    assert_eq!(TypeValue::from_str("float"), Some(TypeValue::Float));
    assert_eq!(TypeValue::from_str("bool"), Some(TypeValue::Bool));
    assert_eq!(TypeValue::from_str("null"), Some(TypeValue::Null));
    assert_eq!(
        TypeValue::from_str("image"),
        Some(TypeValue::Media(BamlMediaType::Image))
    );
    assert_eq!(
        TypeValue::from_str("audio"),
        Some(TypeValue::Media(BamlMediaType::Audio))
    );
}

#[test]
fn from_str_rejects_unknown_names() {
    assert_eq!(TypeValue::from_str("str"), None);
    assert_eq!(TypeValue::from_str("String"), None);
    assert_eq!(TypeValue::from_str(""), None);
}

#[test]
fn is_primitive_allows_exactly_one_wrapping_layer() {
    assert!(prim(TypeValue::Int).is_primitive());
    assert!(FieldType::Optional(Box::new(prim(TypeValue::Int))).is_primitive());
    assert!(FieldType::List(Box::new(prim(TypeValue::Int))).is_primitive());
    let list_of_lists = FieldType::List(Box::new(FieldType::List(Box::new(prim(
        TypeValue::Int,
    )))));
    assert!(!list_of_lists.is_primitive());
    let opt_list = FieldType::Optional(Box::new(FieldType::List(Box::new(prim(
        TypeValue::Int,
    )))));
    assert!(!opt_list.is_primitive());
    assert!(!FieldType::Class("Foo".to_string()).is_primitive());
    assert!(!FieldType::Union(vec![prim(TypeValue::Int)]).is_primitive());
}

#[test]
fn is_optional_sees_null_optional_and_union_members() {
    assert!(FieldType::Optional(Box::new(prim(TypeValue::Int))).is_optional());
    assert!(prim(TypeValue::Null).is_optional());
    let u = FieldType::Union(vec![
        prim(TypeValue::Int),
        FieldType::Optional(Box::new(prim(TypeValue::String))),
    ]);
    assert!(u.is_optional());
    let u2 = FieldType::Union(vec![prim(TypeValue::Int), prim(TypeValue::String)]);
    assert!(!u2.is_optional());
    assert!(!prim(TypeValue::Int).is_optional());
}

#[test]
fn is_null_ignores_union_members() {
    assert!(prim(TypeValue::Null).is_null());
    assert!(FieldType::Optional(Box::new(prim(TypeValue::Null))).is_null());
    assert!(!FieldType::Optional(Box::new(prim(TypeValue::Int))).is_null());
    let u = FieldType::Union(vec![prim(TypeValue::Null)]);
    assert!(!u.is_null());
}

#[test]
fn null_types_are_optional_on_samples() {
    let samples = vec![
        prim(TypeValue::Null),
        FieldType::Optional(Box::new(prim(TypeValue::Null))),
        FieldType::Optional(Box::new(FieldType::Optional(Box::new(prim(
            TypeValue::Null,
        ))))),
    ];
    for t in &samples {
        assert!(t.is_null());
        assert!(t.is_optional());
    }
}

#[test]
fn display_renders_canonical_syntax() {
    let foo_opt = FieldType::Optional(Box::new(FieldType::Class("Foo".to_string())));
    assert_eq!(foo_opt.display(), "Foo?".to_string());
    let map = FieldType::Mapping(
        Box::new(prim(TypeValue::String)),
        Box::new(prim(TypeValue::Int)),
    );
    assert_eq!(map.display(), "map<string, int>".to_string());
    let union = FieldType::Union(vec![prim(TypeValue::String), prim(TypeValue::Int)]);
    assert_eq!(union.display(), "(string | int)".to_string());
    let tuple = FieldType::Tuple(vec![prim(TypeValue::Bool), prim(TypeValue::Float)]);
    assert_eq!(tuple.display(), "(bool, float)".to_string());
    let list = FieldType::List(Box::new(FieldType::Enum("Color".to_string())));
    assert_eq!(list.display(), "Color[]".to_string());
    assert_eq!(
        prim(TypeValue::Media(BamlMediaType::Image)).display(),
        "image".to_string()
    );
}

#[test]
fn to_ruby_renders_sorbet_types() {
    assert_eq!(
        FieldType::Class("Resume".to_string()).to_ruby(),
        "Baml::Types::Resume".to_string()
    );
    assert_eq!(
        FieldType::Enum("Color".to_string()).to_ruby(),
        "T.any(Baml::Types::Color, String)".to_string()
    );
    assert_eq!(
        FieldType::List(Box::new(prim(TypeValue::Int))).to_ruby(),
        "T::Array[Integer]".to_string()
    );
    assert_eq!(
        FieldType::Mapping(
            Box::new(prim(TypeValue::String)),
            Box::new(prim(TypeValue::Bool))
        )
        .to_ruby(),
        "T::Hash[String, T::Boolean]".to_string()
    );
    assert_eq!(
        FieldType::Union(vec![prim(TypeValue::Int), prim(TypeValue::Null)]).to_ruby(),
        "T.any(Integer, NilClass)".to_string()
    );
    assert_eq!(
        FieldType::Tuple(vec![prim(TypeValue::Float), prim(TypeValue::String)]).to_ruby(),
        "[Float, String]".to_string()
    );
    assert_eq!(
        FieldType::Optional(Box::new(prim(TypeValue::Int))).to_ruby(),
        "T.nilable(Integer)".to_string()
    );
    assert_eq!(
        prim(TypeValue::Media(BamlMediaType::Audio)).to_ruby(),
        "Baml::Audio".to_string()
    );
}

#[test]
fn display_of_single_member_containers() {
    assert_eq!(
        FieldType::Union(vec![prim(TypeValue::Int)]).display(),
        "(int)".to_string()
    );
    assert_eq!(
        FieldType::Tuple(vec![prim(TypeValue::Int)]).display(),
        "(int)".to_string()
    );
    assert_eq!(FieldType::Union(vec![]).display(), "()".to_string());
}
