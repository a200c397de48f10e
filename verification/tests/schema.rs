use std::collections::HashSet;

use cedar_schema::names::parse_namespace;
use cedar_schema::{
    ActionBehavior, ActionEntityUID, ActionId, ActionType, ApplySpec, Attributes, EntityType,
    EntityTypeRef, JsonValue, NamespaceDefinition, QualifiedName, SchemaError, SchemaFragment,
    SchemaType, SchemaTypeVariant, Type, TypeOfAttribute, ValidatorNamespaceDef, ValidatorSchema,
    ValidatorSchemaFragment,
};

fn s(text: &str) -> String {
    text.to_string()
}

fn name(text: &str) -> QualifiedName {
    let mut parts: Vec<String> = text.split("::").map(s).collect();
    let base = parts.pop().unwrap();
    QualifiedName::new(base, parts)
}

fn action_id(ty: &str, id: &str) -> ActionId {
    ActionId::from_components(name(ty), s(id))
}

fn strings(items: &[&str]) -> Vec<String> {
    items.iter().map(|x| s(x)).collect()
}

fn entity(member_of: &[&str]) -> EntityType {
    EntityType { member_of_types: strings(member_of), shape: SchemaType::empty_record() }
}

fn entity_with_shape(shape: SchemaType) -> EntityType {
    EntityType { member_of_types: vec![], shape }
}

fn record(attributes: Vec<(&str, SchemaType)>) -> SchemaType {
    SchemaType::Type(SchemaTypeVariant::Record {
        attributes: attributes
            .into_iter()
            .map(|(k, ty)| (s(k), TypeOfAttribute { ty, required: true }))
            .collect(),
        additional_attributes: false,
    })
}

fn long() -> SchemaType {
    SchemaType::Type(SchemaTypeVariant::Long)
}

fn type_def(text: &str) -> SchemaType {
    SchemaType::TypeDef { name: s(text) }
}

fn entity_ref(text: &str) -> SchemaType {
    SchemaType::Type(SchemaTypeVariant::Entity { name: s(text) })
}

fn plain_action() -> ActionType {
    ActionType { attributes: None, applies_to: None, member_of: None }
}

fn action_applies(principals: &[&str], resources: &[&str]) -> ActionType {
    ActionType {
        attributes: None,
        applies_to: Some(ApplySpec {
            resource_types: Some(strings(resources)),
            principal_types: Some(strings(principals)),
            context: SchemaType::empty_record(),
        }),
        member_of: None,
    }
}

fn action_member_of(parents: &[&str]) -> ActionType {
    ActionType {
        attributes: None,
        applies_to: None,
        member_of: Some(parents.iter().map(|p| ActionEntityUID::default_type(s(p))).collect()),
    }
}

fn ns_def(
    common_types: Vec<(&str, SchemaType)>,
    entity_types: Vec<(&str, EntityType)>,
    actions: Vec<(&str, ActionType)>,
) -> NamespaceDefinition {
    NamespaceDefinition {
        common_types: common_types.into_iter().map(|(k, v)| (s(k), v)).collect(),
        entity_types: entity_types.into_iter().map(|(k, v)| (s(k), v)).collect(),
        actions: actions.into_iter().map(|(k, v)| (s(k), v)).collect(),
    }
}

fn fragment(namespaces: Vec<(&str, NamespaceDefinition)>) -> SchemaFragment {
    SchemaFragment(namespaces.into_iter().map(|(k, v)| (s(k), v)).collect())
}

fn schema_of_def(def: NamespaceDefinition) -> Result<ValidatorSchema, SchemaError> {
    ValidatorSchema::from_namespace_definition(&def, ActionBehavior::default())
}

fn schema_of_fragment(f: SchemaFragment) -> Result<ValidatorSchema, SchemaError> {
    ValidatorSchema::from_schema_file(f, ActionBehavior::default())
}

fn set_of(items: &[String]) -> HashSet<String> {
    items.iter().cloned().collect()
}

fn required_long(attr: &str) -> Attributes {
    Attributes::with_required_attributes(vec![(s(attr), Type::primitive_long())])
}

// Well-formed schema
#[test]
fn test_from_schema_file() {
    let schema_file = ns_def(
        vec![],
        vec![
            ("User", entity(&["Group"])),
            ("Group", entity(&[])),
            ("Photo", entity(&["Album"])),
            ("Album", entity(&[])),
        ],
        vec![("view_photo", action_applies(&["User", "Group"], &["Photo"]))],
    );
    let schema = schema_of_def(schema_file);
    assert!(schema.is_ok());
}

// Undefined entity types "Grop", "Usr", "Phoot"
#[test]
fn test_from_schema_file_undefined_entities() {
    let schema_file = ns_def(
        vec![],
        vec![("User", entity(&["Grop"])), ("Group", entity(&[])), ("Photo", entity(&[]))],
        vec![("view_photo", action_applies(&["Usr", "Group"], &["Phoot"]))],
    );
    match schema_of_def(schema_file) {
        Ok(_) => panic!("from_schema_file should have failed"),
        Err(SchemaError::UndeclaredEntityTypes(v)) => {
            assert_eq!(v.len(), 3)
        }
        _ => panic!("Unexpected error from from_schema_file"),
    }
}

#[test]
fn undefined_entity_namespace_member_of() {
    let schema_file = fragment(vec![(
        "Foo",
        ns_def(
            vec![],
            vec![("User", entity(&["Foo::Group", "Bar::Group"])), ("Group", entity(&[]))],
            vec![],
        ),
    )]);
    match schema_of_fragment(schema_file) {
        Ok(_) => panic!("try_into should have failed"),
        Err(SchemaError::UndeclaredEntityTypes(v)) => {
            assert_eq!(set_of(&v), HashSet::from(["Bar::Group".to_string()]))
        }
        _ => panic!("Unexpected error from try_into"),
    }
}

#[test]
fn undefined_entity_namespace_applies_to() {
    let schema_file = fragment(vec![(
        "Foo",
        ns_def(
            vec![],
            vec![("User", entity(&[])), ("Photo", entity(&[]))],
            vec![(
                "view_photo",
                action_applies(&["Foo::User", "Bar::User"], &["Photo", "Bar::Photo"]),
            )],
        ),
    )]);
    match schema_of_fragment(schema_file) {
        Ok(_) => panic!("try_into should have failed"),
        Err(SchemaError::UndeclaredEntityTypes(v)) => {
            assert_eq!(
                set_of(&v),
                HashSet::from(["Bar::Photo".to_string(), "Bar::User".to_string()])
            )
        }
        _ => panic!("Unexpected error from try_into"),
    }
}

// Undefined action "photo_actions"
#[test]
fn test_from_schema_file_undefined_action() {
    let mut view_photo = action_applies(&["User", "Group"], &["Photo"]);
    view_photo.member_of = Some(vec![ActionEntityUID::default_type(s("photo_action"))]);
    let schema_file = ns_def(
        vec![],
        vec![("User", entity(&["Group"])), ("Group", entity(&[])), ("Photo", entity(&[]))],
        vec![("view_photo", view_photo)],
    );
    match schema_of_def(schema_file) {
        Ok(_) => panic!("from_schema_file should have failed"),
        Err(SchemaError::UndeclaredActions(v)) => assert_eq!(v.len(), 1),
        _ => panic!("Unexpected error from from_schema_file"),
    }
}

// Trivial cycle in action hierarchy
// view_photo -> view_photo
#[test]
fn test_from_schema_file_action_cycle1() {
    let schema_file = ns_def(vec![], vec![], vec![("view_photo", action_member_of(&["view_photo"]))]);
    match schema_of_def(schema_file) {
        Ok(_) => panic!("from_schema_file should have failed"),
        Err(SchemaError::CycleInActionHierarchy) => (), // expected result
        e => panic!("Unexpected error from from_schema_file: {:?}", e),
    }
}

// Slightly more complex cycle in action hierarchy
// view_photo -> edit_photo -> delete_photo -> view_photo
#[test]
fn test_from_schema_file_action_cycle2() {
    let schema_file = ns_def(
        vec![],
        vec![],
        vec![
            ("view_photo", action_member_of(&["edit_photo"])),
            ("edit_photo", action_member_of(&["delete_photo"])),
            ("delete_photo", action_member_of(&["view_photo"])),
            ("other_action", action_member_of(&["edit_photo"])),
        ],
    );
    match schema_of_def(schema_file) {
        Ok(x) => {
            println!("{:?}", x);
            panic!("from_schema_file should have failed");
        }
        Err(SchemaError::CycleInActionHierarchy) => (), // expected result
        e => panic!("Unexpected error from from_schema_file: {:?}", e),
    }
}

#[test]
fn namespaced_schema() {
    let schema_file = fragment(vec![(
        "N::S",
        ns_def(
            vec![],
            vec![("User", entity(&[])), ("Photo", entity(&[]))],
            vec![("view_photo", action_applies(&["User"], &["Photo"]))],
        ),
    )]);
    let schema = schema_of_fragment(schema_file).expect("Namespaced schema failed to convert.");
    let user_entity_type = name("N::S::User");
    let photo_entity_type = name("N::S::Photo");
    assert!(schema.is_known_entity_type(&user_entity_type), "Expected and entity type User.");
    assert!(schema.is_known_entity_type(&photo_entity_type), "Expected an entity type Photo.");
    assert_eq!(schema.entity_types().len(), 2, "Expected exactly 2 entity types.");
    assert!(
        schema.is_known_action_id(&action_id("N::S::Action", "view_photo")),
        "Expected an action \"view_photo\"."
    );
    assert_eq!(schema.action_ids().len(), 1, "Expected exactly 1 action.");

    let apply_spec = &schema.action_ids().iter().next().expect("Expected Action").1.applies_to;
    assert_eq!(
        apply_spec.applicable_principal_types().iter().collect::<Vec<_>>(),
        vec![&EntityTypeRef::Concrete(user_entity_type.clone())]
    );
    assert_eq!(
        apply_spec.applicable_resource_types().iter().collect::<Vec<_>>(),
        vec![&EntityTypeRef::Concrete(photo_entity_type.clone())]
    );
}

#[test]
fn cant_use_namespace_in_entity_type() {
    let schema_file = ns_def(vec![], vec![("NS::User", entity(&[]))], vec![]);
    assert!(
        matches!(schema_of_def(schema_file), Err(SchemaError::EntityTypeParseError(_))),
        "Expected that namespace in the entity type NS::User would cause a EntityType parse error."
    );
}

#[test]
fn entity_attribute_entity_type_with_namespace() {
    let schema_json = fragment(vec![(
        "A::B",
        ns_def(
            vec![],
            vec![("Foo", entity_with_shape(record(vec![("name", entity_ref("C::D::Foo"))])))],
            vec![],
        ),
    )]);
    match schema_of_fragment(schema_json) {
        Err(SchemaError::UndeclaredEntityTypes(tys)) => {
            assert_eq!(set_of(&tys), HashSet::from(["C::D::Foo".to_string()]))
        }
        _ => panic!("Schema construction should have failed due to undeclared entity type."),
    }
}

#[test]
fn entity_attribute_entity_type_with_declared_namespace() {
    let schema_json = fragment(vec![(
        "A::B",
        ns_def(
            vec![],
            vec![("Foo", entity_with_shape(record(vec![("name", entity_ref("A::B::Foo"))])))],
            vec![],
        ),
    )]);
    let schema =
        schema_of_fragment(schema_json).expect("Expected schema to construct without error.");

    let foo_name = name("A::B::Foo");
    let foo_type = schema.get_entity_type(&foo_name).expect("Expected to find entity");
    let name_type = foo_type.attr("name").expect("Expected attribute name").attr_type.clone();
    let expected_name_type = Type::named_entity_reference(foo_name);
    assert_eq!(name_type, expected_name_type);
}

#[test]
fn cannot_declare_action_type_when_prohibited() {
    let schema_json = ns_def(vec![], vec![("Action", entity(&[]))], vec![]);
    let schema = schema_of_def(schema_json);
    assert!(matches!(schema, Err(SchemaError::ActionEntityTypeDeclared)));
}

#[test]
fn can_declare_other_type_when_action_type_prohibited() {
    let schema_json = ns_def(vec![], vec![("Foo", entity(&[]))], vec![]);
    schema_of_def(schema_json).expect("Did not expect any errors.");
}

#[test]
fn cannot_declare_action_in_group_when_prohibited() {
    let with_id = || ActionType {
        attributes: Some(vec![(s("id"), JsonValue::String(s("universe")))]),
        applies_to: None,
        member_of: None,
    };
    let schema_json = fragment(vec![(
        "",
        ns_def(
            vec![],
            vec![],
            vec![
                ("universe", plain_action()),
                ("view_photo", with_id()),
                ("edit_photo", with_id()),
                ("delete_photo", with_id()),
            ],
        ),
    )]);

    let schema = ValidatorSchemaFragment::from_schema_fragment(
        schema_json,
        ActionBehavior::ProhibitAttributes,
    );
    match schema {
        Err(SchemaError::ActionEntityAttributes(actions)) => {
            assert_eq!(
                actions.into_iter().collect::<HashSet<_>>(),
                HashSet::from([
                    "view_photo".to_string(),
                    "edit_photo".to_string(),
                    "delete_photo".to_string(),
                ])
            )
        }
        _ => panic!("Did not see expected error."),
    }
}

#[test]
fn test_entity_type_no_namespace() {
    let schema_ty = entity_ref("Foo");
    assert_eq!(schema_ty, SchemaType::Type(SchemaTypeVariant::Entity { name: "Foo".into() }));
    let ty: Type = ValidatorNamespaceDef::try_schema_type_into_validator_type(
        &parse_namespace("NS").expect("Expected namespace."),
        &schema_ty,
    )
    .expect("Error converting schema type to type.")
    .resolve_type_defs(&Vec::new())
    .unwrap();
    assert_eq!(ty, Type::named_entity_reference(name("NS::Foo")));
}

#[test]
fn test_entity_type_namespace() {
    let schema_ty = entity_ref("NS::Foo");
    assert_eq!(schema_ty, SchemaType::Type(SchemaTypeVariant::Entity { name: "NS::Foo".into() }));
    let ty: Type = ValidatorNamespaceDef::try_schema_type_into_validator_type(
        &parse_namespace("NS").expect("Expected namespace."),
        &schema_ty,
    )
    .expect("Error converting schema type to type.")
    .resolve_type_defs(&Vec::new())
    .unwrap();
    assert_eq!(ty, Type::named_entity_reference(name("NS::Foo")));
}

#[test]
fn test_entity_type_namespace_parse_error() {
    let schema_ty = entity_ref("::Foo");
    assert_eq!(schema_ty, SchemaType::Type(SchemaTypeVariant::Entity { name: "::Foo".into() }));
    match ValidatorNamespaceDef::try_schema_type_into_validator_type(
        &parse_namespace("NS").expect("Expected namespace."),
        &schema_ty,
    ) {
        Err(SchemaError::EntityTypeParseError(_)) => (),
        _ => panic!("Did not see expected EntityTypeParseError."),
    }
}

#[test]
fn schema_type_record_is_validator_type_record() {
    let schema_ty = record(vec![]);
    assert_eq!(
        schema_ty,
        SchemaType::Type(SchemaTypeVariant::Record {
            attributes: Vec::new(),
            additional_attributes: false,
        }),
    );
    let ty: Type =
        ValidatorNamespaceDef::try_schema_type_into_validator_type(&Vec::new(), &schema_ty)
            .expect("Error converting schema type to type.")
            .resolve_type_defs(&Vec::new())
            .unwrap();
    assert_eq!(ty, Type::record_with_attributes(Attributes::with_attributes(vec![])));
}

#[test]
fn get_namespaces() {
    let fragment = fragment(vec![
        ("Foo::Bar::Baz", ns_def(vec![], vec![], vec![])),
        ("Foo", ns_def(vec![], vec![], vec![])),
        ("Bar", ns_def(vec![], vec![], vec![])),
    ]);

    let schema_fragment =
        ValidatorSchemaFragment::from_schema_fragment(fragment, ActionBehavior::default())
            .unwrap();
    assert_eq!(
        schema_fragment.namespaces().into_iter().collect::<HashSet<_>>(),
        HashSet::from([Some(name("Foo::Bar::Baz")), Some(name("Foo")), Some(name("Bar"))])
    );
}

#[test]
fn schema_no_fragments() {
    let schema = ValidatorSchema::from_schema_fragments(vec![]).unwrap();
    assert!(schema.entity_types().is_empty());
    assert!(schema.action_ids().is_empty());
}

#[test]
fn same_action_different_namespace() {
    let fragment = fragment(vec![
        ("Foo::Bar", ns_def(vec![], vec![], vec![("Baz", plain_action())])),
        ("Bar::Foo", ns_def(vec![], vec![], vec![("Baz", plain_action())])),
        ("Biz", ns_def(vec![], vec![], vec![("Baz", plain_action())])),
    ]);

    let schema = schema_of_fragment(fragment).unwrap();
    assert!(schema.get_action_id(&action_id("Foo::Bar::Action", "Baz")).is_some());
    assert!(schema.get_action_id(&action_id("Bar::Foo::Action", "Baz")).is_some());
    assert!(schema.get_action_id(&action_id("Biz::Action", "Baz")).is_some());
}

#[test]
fn same_type_different_namespace() {
    let fragment = fragment(vec![
        ("Foo::Bar", ns_def(vec![], vec![("Baz", entity(&[]))], vec![])),
        ("Bar::Foo", ns_def(vec![], vec![("Baz", entity(&[]))], vec![])),
        ("Biz", ns_def(vec![], vec![("Baz", entity(&[]))], vec![])),
    ]);
    let schema = schema_of_fragment(fragment).unwrap();

    assert!(schema.get_entity_type(&name("Foo::Bar::Baz")).is_some());
    assert!(schema.get_entity_type(&name("Bar::Foo::Baz")).is_some());
    assert!(schema.get_entity_type(&name("Biz::Baz")).is_some());
}

#[test]
fn member_of_different_namespace() {
    let fragment = fragment(vec![
        ("Bar", ns_def(vec![], vec![("Baz", entity(&["Foo::Buz"]))], vec![])),
        ("Foo", ns_def(vec![], vec![("Buz", entity(&[]))], vec![])),
    ]);
    let schema = schema_of_fragment(fragment).unwrap();

    let buz = schema.get_entity_type(&name("Foo::Buz")).unwrap();
    assert_eq!(
        buz.descendants.iter().cloned().collect::<HashSet<_>>(),
        HashSet::from([name("Bar::Baz")])
    );
}

#[test]
fn attribute_different_namespace() {
    let fragment = fragment(vec![
        (
            "Bar",
            ns_def(
                vec![],
                vec![("Baz", entity_with_shape(record(vec![("fiz", entity_ref("Foo::Buz"))])))],
                vec![],
            ),
        ),
        ("Foo", ns_def(vec![], vec![("Buz", entity(&[]))], vec![])),
    ]);

    let schema = schema_of_fragment(fragment).unwrap();
    let baz = schema.get_entity_type(&name("Bar::Baz")).unwrap();
    assert_eq!(
        baz.attr("fiz").unwrap().attr_type,
        Type::named_entity_reference(name("Foo::Buz")),
    );
}

#[test]
fn applies_to_different_namespace() {
    let fragment = fragment(vec![
        (
            "Foo::Bar",
            ns_def(vec![], vec![], vec![("Baz", action_applies(&["Fiz::Buz"], &["Fiz::Baz"]))]),
        ),
        ("Fiz", ns_def(vec![], vec![("Buz", entity(&[])), ("Baz", entity(&[]))], vec![])),
    ]);
    let schema = schema_of_fragment(fragment).unwrap();

    let baz = schema.get_action_id(&action_id("Foo::Bar::Action", "Baz")).unwrap();
    assert_eq!(
        baz.applies_to.applicable_principal_types().iter().collect::<HashSet<_>>(),
        HashSet::from([&EntityTypeRef::Concrete(name("Fiz::Buz"))])
    );
    assert_eq!(
        baz.applies_to.applicable_resource_types().iter().collect::<HashSet<_>>(),
        HashSet::from([&EntityTypeRef::Concrete(name("Fiz::Baz"))])
    );
}

#[test]
fn simple_defined_type() {
    let fragment = fragment(vec![(
        "",
        ns_def(
            vec![("MyLong", long())],
            vec![("User", entity_with_shape(record(vec![("a", type_def("MyLong"))])))],
            vec![],
        ),
    )]);
    let schema = schema_of_fragment(fragment).unwrap();
    assert_eq!(schema.entity_types().iter().next().unwrap().1.attributes, required_long("a"));
}

#[test]
fn defined_record_as_attrs() {
    let fragment = fragment(vec![(
        "",
        ns_def(
            vec![("MyRecord", record(vec![("a", long())]))],
            vec![("User", entity_with_shape(type_def("MyRecord")))],
            vec![],
        ),
    )]);
    let schema = schema_of_fragment(fragment).unwrap();
    assert_eq!(schema.entity_types().iter().next().unwrap().1.attributes, required_long("a"));
}

#[test]
fn cross_namespace_type() {
    let fragment = fragment(vec![
        ("A", ns_def(vec![("MyLong", long())], vec![], vec![])),
        (
            "B",
            ns_def(
                vec![],
                vec![("User", entity_with_shape(record(vec![("a", type_def("A::MyLong"))])))],
                vec![],
            ),
        ),
    ]);
    let schema = schema_of_fragment(fragment).unwrap();
    assert_eq!(schema.entity_types().iter().next().unwrap().1.attributes, required_long("a"));
}

#[test]
fn cross_fragment_type() {
    let fragment1 = ValidatorSchemaFragment::from_schema_fragment(
        fragment(vec![("A", ns_def(vec![("MyLong", long())], vec![], vec![]))]),
        ActionBehavior::default(),
    )
    .unwrap();
    let fragment2 = ValidatorSchemaFragment::from_schema_fragment(
        fragment(vec![(
            "A",
            ns_def(
                vec![],
                vec![("User", entity_with_shape(record(vec![("a", type_def("MyLong"))])))],
                vec![],
            ),
        )]),
        ActionBehavior::default(),
    )
    .unwrap();
    let schema = ValidatorSchema::from_schema_fragments(vec![fragment1, fragment2]).unwrap();

    assert_eq!(schema.entity_types().iter().next().unwrap().1.attributes, required_long("a"));
}

#[test]
#[should_panic]
fn cross_fragment_duplicate_type() {
    let fragment1 = ValidatorSchemaFragment::from_schema_fragment(
        fragment(vec![("A", ns_def(vec![("MyLong", long())], vec![], vec![]))]),
        ActionBehavior::default(),
    )
    .unwrap();
    let fragment2 = ValidatorSchemaFragment::from_schema_fragment(
        fragment(vec![("A", ns_def(vec![("MyLong", long())], vec![], vec![]))]),
        ActionBehavior::default(),
    )
    .unwrap();
    let schema = ValidatorSchema::from_schema_fragments(vec![fragment1, fragment2]).unwrap();

    assert_eq!(schema.entity_types().iter().next().unwrap().1.attributes, required_long("a"));
}

#[test]
fn undeclared_type_in_attr() {
    let fragment = fragment(vec![(
        "",
        ns_def(
            vec![],
            vec![("User", entity_with_shape(record(vec![("a", type_def("MyLong"))])))],
            vec![],
        ),
    )]);
    match schema_of_fragment(fragment) {
        Err(SchemaError::UndeclaredCommonType(_)) => (),
        s => panic!("Expected Err(SchemaError::UndeclaredCommonType), got {:?}", s),
    }
}

#[test]
fn undeclared_type_in_type_def() {
    let fragment = fragment(vec![("", ns_def(vec![("a", type_def("b"))], vec![], vec![]))]);
    match schema_of_fragment(fragment) {
        Err(SchemaError::UndeclaredCommonType(_)) => (),
        s => panic!("Expected Err(SchemaError::UndeclaredCommonType), got {:?}", s),
    }
}

#[test]
fn shape_not_record() {
    let fragment = fragment(vec![(
        "",
        ns_def(
            vec![("MyLong", long())],
            vec![("User", entity_with_shape(type_def("MyLong")))],
            vec![],
        ),
    )]);
    match schema_of_fragment(fragment) {
        Err(SchemaError::ContextOrShapeNotRecord) => (),
        s => panic!("Expected Err(SchemaError::ContextOrShapeNotRecord), got {:?}", s),
    }
}
