use attr_graph::derive::{container_field, find_attrs_field, DeriveError, FieldDecl, TypeBody, TypeDecl};

fn describe_field(field: &syn::Field) -> FieldDecl {
    FieldDecl {
        name: field.ident.as_ref().map(|ident| ident.to_string()).unwrap_or_default(),
        markers: field
            .attrs
            .iter()
            .map(|attr| attr.path.get_ident().map(|ident| ident.to_string()))
            .collect(),
    }
}

fn describe(source: &str) -> TypeDecl {
    let ast: syn::DeriveInput = syn::parse_str(source).expect("a declaration");
    let body = match &ast.data {
        syn::Data::Struct(syn::DataStruct {
            fields: syn::Fields::Named(fields),
            ..
        }) => TypeBody::NamedFields(fields.named.iter().map(describe_field).collect()),
        _ => TypeBody::Other,
    };
    TypeDecl { name: ast.ident.to_string(), body }
}

#[test]
fn a_parsed_struct_with_a_marked_field() {
    let decl = describe("struct Node { pub name: String, #[attributes] pub attrs: Attributes }");
    assert_eq!(decl.name, "Node");
    assert!(matches!(find_attrs_field(&decl), Ok(Some(1))));
    assert!(matches!(container_field(&decl), Ok(1)));
}

#[test]
fn a_parsed_struct_with_other_attributes_before_the_marker() {
    let decl = describe(
        "struct Graph { nodes: Vec<Node>, #[doc = \"the store\"] #[attributes] attrs: Attributes, #[attributes] more: Attributes }",
    );
    assert!(matches!(container_field(&decl), Ok(1)));
}

#[test]
fn a_marker_behind_a_longer_path_does_not_count() {
    let decl = describe("struct Edge { a: String, #[graph::attributes] attrs: Attributes }");
    assert!(matches!(find_attrs_field(&decl), Ok(None)));
    match container_field(&decl) {
        Err(DeriveError::MissingAttributesField { offender }) => assert_eq!(offender, "Edge"),
        other => panic!("unexpected: {:?}", other),
    }
}

#[test]
fn a_marker_with_arguments_counts() {
    let decl = describe("struct Edge { a: String, #[attributes(main)] attrs: Attributes }");
    assert!(matches!(container_field(&decl), Ok(1)));
}

#[test]
fn a_parsed_struct_without_marker_is_refused() {
    let decl = describe("struct Bare { name: String, attrs: Attributes }");
    match container_field(&decl) {
        Err(DeriveError::MissingAttributesField { offender }) => assert_eq!(offender, "Bare"),
        other => panic!("unexpected: {:?}", other),
    }
}

#[test]
fn parsed_declarations_without_named_fields_are_refused() {
    for source in [
        "struct Pair(String, Attributes);",
        "struct Unit;",
        "enum Choice { One { #[attributes] attrs: Attributes }, Two }",
        "union Bits { a: u32, b: f32 }",
    ] {
        let decl = describe(source);
        assert!(matches!(
            container_field(&decl),
            Err(DeriveError::ExpectedNamedStruct { .. })
        ));
        assert!(matches!(
            find_attrs_field(&decl),
            Err(DeriveError::ExpectedNamedStruct { .. })
        ));
    }
}
