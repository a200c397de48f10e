#![allow(dead_code, unused_imports)]

use std::collections::HashSet;

use cedar_schema::{
    ActionBehavior, ActionEntityUID, ActionId, ActionType, ApplySpec, Attributes, EntityType,
    EntityTypeRef, JsonValue, NamespaceDefinition, QualifiedName, SchemaError, SchemaFragment,
    SchemaType, SchemaTypeVariant, Type, TypeOfAttribute, ValidatorNamespaceDef, ValidatorSchema,
    ValidatorSchemaFragment,
};

fn s(text: &str) -> String {
    text.to_string()
}

fn name(text: &str) -> QualifiedName {
    let mut parts: Vec<String> = text.split("::").map(s).collect();
    let base = parts.pop().unwrap();
    QualifiedName::new(base, parts)
}

fn action_id(ty: &str, id: &str) -> ActionId {
    ActionId::from_components(name(ty), s(id))
}

fn strings(items: &[&str]) -> Vec<String> {
    items.iter().map(|x| s(x)).collect()
}

fn entity(member_of: &[&str]) -> EntityType {
    EntityType { member_of_types: strings(member_of), shape: SchemaType::empty_record() }
}

fn entity_with_shape(shape: SchemaType) -> EntityType {
    EntityType { member_of_types: vec![], shape }
}

fn record(attributes: Vec<(&str, SchemaType)>) -> SchemaType {
    SchemaType::Type(SchemaTypeVariant::Record {
        attributes: attributes
            .into_iter()
            .map(|(k, ty)| (s(k), TypeOfAttribute { ty, required: true }))
            .collect(),
        additional_attributes: false,
    })
}

fn long() -> SchemaType {
    SchemaType::Type(SchemaTypeVariant::Long)
}

fn type_def(text: &str) -> SchemaType {
    SchemaType::TypeDef { name: s(text) }
}

fn entity_ref(text: &str) -> SchemaType {
    SchemaType::Type(SchemaTypeVariant::Entity { name: s(text) })
}

fn plain_action() -> ActionType {
    ActionType { attributes: None, applies_to: None, member_of: None }
}

fn action_applies(principals: &[&str], resources: &[&str]) -> ActionType {
    ActionType {
        attributes: None,
        applies_to: Some(ApplySpec {
            resource_types: Some(strings(resources)),
            principal_types: Some(strings(principals)),
            context: SchemaType::empty_record(),
        }),
        member_of: None,
    }
}

fn action_member_of(parents: &[&str]) -> ActionType {
    ActionType {
        attributes: None,
        applies_to: None,
        member_of: Some(parents.iter().map(|p| ActionEntityUID::default_type(s(p))).collect()),
    }
}

fn action_with_attributes(attributes: Vec<(&str, JsonValue)>) -> ActionType {
    ActionType {
        attributes: Some(attributes.into_iter().map(|(k, v)| (s(k), v)).collect()),
        applies_to: None,
        member_of: None,
    }
}

fn ns_def(
    common_types: Vec<(&str, SchemaType)>,
    entity_types: Vec<(&str, EntityType)>,
    actions: Vec<(&str, ActionType)>,
) -> NamespaceDefinition {
    NamespaceDefinition {
        common_types: common_types.into_iter().map(|(k, v)| (s(k), v)).collect(),
        entity_types: entity_types.into_iter().map(|(k, v)| (s(k), v)).collect(),
        actions: actions.into_iter().map(|(k, v)| (s(k), v)).collect(),
    }
}

fn fragment(namespaces: Vec<(&str, NamespaceDefinition)>) -> SchemaFragment {
    SchemaFragment(namespaces.into_iter().map(|(k, v)| (s(k), v)).collect())
}

fn schema_of_def(def: NamespaceDefinition) -> Result<ValidatorSchema, SchemaError> {
    ValidatorSchema::from_namespace_definition(&def, ActionBehavior::default())
}

fn schema_of_fragment(f: SchemaFragment) -> Result<ValidatorSchema, SchemaError> {
    ValidatorSchema::from_schema_file(f, ActionBehavior::default())
}

fn names_of(items: &[QualifiedName]) -> HashSet<String> {
    items.iter().map(|n| n.to_string()).collect()
}

fn set_of(items: &[&str]) -> HashSet<String> {
    items.iter().map(|x| s(x)).collect()
}

fn photo_app() -> NamespaceDefinition {
    ns_def(
        vec![],
        vec![
            ("User", entity(&["Group"])),
            ("Group", entity(&[])),
            ("Photo", entity(&["Album"])),
            ("Album", entity(&[])),
        ],
        vec![("view_photo", action_applies(&["User", "Group"], &["Photo"]))],
    )
}

fn action_names(items: &[ActionId]) -> HashSet<String> {
    items.iter().map(|a| a.to_string()).collect()
}

#[test]
fn basic_schema_has_the_declared_descendants() {
    let schema = schema_of_def(photo_app()).unwrap();
    assert_eq!(names_of(&schema.get_entity_type(&name("Group")).unwrap().descendants), set_of(&["User"]));
    assert_eq!(names_of(&schema.get_entity_type(&name("Album")).unwrap().descendants), set_of(&["Photo"]));
    assert!(schema.get_entity_type(&name("User")).unwrap().descendants.is_empty());
    assert!(schema.get_entity_type(&name("Photo")).unwrap().descendants.is_empty());
    let view = schema.get_action_id(&action_id("Action", "view_photo")).unwrap();
    assert_eq!(
        view.applies_to.applicable_principal_types(),
        &vec![EntityTypeRef::Concrete(name("User")), EntityTypeRef::Concrete(name("Group"))]
    );
    assert_eq!(
        view.applies_to.applicable_resource_types(),
        &vec![EntityTypeRef::Concrete(name("Photo"))]
    );
}

#[test]
fn no_entity_type_is_its_own_descendant_without_a_cycle() {
    let schema = schema_of_def(photo_app()).unwrap();
    for (n, et) in schema.entity_types() {
        assert!(!et.descendants.contains(n));
        assert_eq!(&et.name, n);
    }
}

#[test]
fn entity_types_in_a_membership_cycle_are_their_own_descendants() {
    let def = ns_def(vec![], vec![("A", entity(&["B"])), ("B", entity(&["A"]))], vec![]);
    let schema = schema_of_def(def).unwrap();
    assert_eq!(names_of(&schema.get_entity_type(&name("A")).unwrap().descendants), set_of(&["A", "B"]));
    assert_eq!(names_of(&schema.get_entity_type(&name("B")).unwrap().descendants), set_of(&["A", "B"]));
}

#[test]
fn descendants_are_transitively_closed() {
    let def = ns_def(
        vec![],
        vec![
            ("A", entity(&["B"])),
            ("B", entity(&["C"])),
            ("C", entity(&["D"])),
            ("D", entity(&[])),
            ("E", entity(&["B"])),
        ],
        vec![],
    );
    let schema = schema_of_def(def).unwrap();
    assert_eq!(names_of(&schema.get_entity_type(&name("D")).unwrap().descendants), set_of(&["A", "B", "C", "E"]));
    assert_eq!(names_of(&schema.get_entity_type(&name("C")).unwrap().descendants), set_of(&["A", "B", "E"]));
    assert_eq!(names_of(&schema.get_entity_type(&name("B")).unwrap().descendants), set_of(&["A", "E"]));
    assert!(schema.get_entity_type(&name("A")).unwrap().descendants.is_empty());
    for (_, et) in schema.entity_types() {
        assert_eq!(et.descendants.len(), names_of(&et.descendants).len());
        for b in &et.descendants {
            let middle = schema.get_entity_type(b).expect("a descendant is declared");
            for c in &middle.descendants {
                assert!(et.descendants.contains(c));
            }
        }
    }
}

#[test]
fn action_descendants_are_declared_and_closed() {
    let def = ns_def(
        vec![],
        vec![],
        vec![
            ("read", plain_action()),
            ("view", action_member_of(&["read"])),
            ("peek", action_member_of(&["view"])),
            ("glance", action_member_of(&["peek", "read"])),
        ],
    );
    let schema = schema_of_def(def).unwrap();
    let read = schema.get_action_id(&action_id("Action", "read")).unwrap();
    assert_eq!(
        action_names(&read.descendants),
        set_of(&["Action::\"view\"", "Action::\"peek\"", "Action::\"glance\""])
    );
    let view = schema.get_action_id(&action_id("Action", "view")).unwrap();
    assert_eq!(action_names(&view.descendants), set_of(&["Action::\"peek\"", "Action::\"glance\""]));
    for (id, a) in schema.action_ids() {
        assert_eq!(&a.name, id);
        assert!(!a.descendants.contains(id));
        for d in &a.descendants {
            let middle = schema.get_action_id(d).expect("a descendant is declared");
            for c in &middle.descendants {
                assert!(a.descendants.contains(c));
            }
        }
    }
}

#[test]
fn every_referenced_entity_type_is_declared() {
    let def = ns_def(
        vec![],
        vec![
            (
                "User",
                entity_with_shape(record(vec![(
                    "friends",
                    SchemaType::Type(SchemaTypeVariant::SetOf { element: Box::new(entity_ref("User")) }),
                )])),
            ),
            ("Photo", entity_with_shape(record(vec![("owner", entity_ref("User"))]))),
        ],
        vec![("view", action_applies(&["User"], &["Photo"]))],
    );
    let schema = schema_of_def(def).unwrap();
    let owner = schema.attr_type(&EntityTypeRef::Concrete(name("Photo")), "owner").unwrap();
    assert_eq!(owner, Type::named_entity_reference(name("User")));
    assert!(schema.is_known_entity_type(&name("User")));
    let view = schema.get_action_id(&action_id("Action", "view")).unwrap();
    for p in view.applies_to.applicable_principal_types() {
        match p {
            EntityTypeRef::Concrete(n) => assert!(schema.is_known_entity_type(n)),
            EntityTypeRef::Unspecified => panic!("the principals are listed"),
        }
    }
}

#[test]
fn compiling_twice_gives_the_same_schema() {
    let first = schema_of_def(photo_app()).unwrap();
    let second = schema_of_def(photo_app()).unwrap();
    assert_eq!(first.known_entity_types(), second.known_entity_types());
    assert_eq!(first.known_action_ids(), second.known_action_ids());
    for n in first.known_entity_types() {
        let a = first.get_entity_type(&n).unwrap();
        let b = second.get_entity_type(&n).unwrap();
        assert_eq!(a.descendants, b.descendants);
        assert_eq!(a.attributes, b.attributes);
    }
    for id in first.known_action_ids() {
        let a = first.get_action_id(&id).unwrap();
        let b = second.get_action_id(&id).unwrap();
        assert_eq!(a.descendants, b.descendants);
        assert_eq!(a.applies_to, b.applies_to);
        assert_eq!(first.get_context_schema(&id), second.get_context_schema(&id));
    }
}

#[test]
fn attributes_are_refused_where_prohibited() {
    let def = ns_def(
        vec![],
        vec![("User", entity(&[]))],
        vec![
            ("plain", plain_action()),
            ("tagged", action_with_attributes(vec![("level", JsonValue::Long(3))])),
            ("named", action_with_attributes(vec![])),
        ],
    );
    match ValidatorNamespaceDef::from_namespace_definition(None, &def, ActionBehavior::ProhibitAttributes) {
        Err(SchemaError::ActionEntityAttributes(names)) => {
            assert_eq!(names, vec![s("tagged"), s("named")])
        }
        other => panic!("expected the actions with attributes, got {:?}", other),
    }
    assert!(ValidatorNamespaceDef::from_namespace_definition(None, &def, ActionBehavior::PermitAttributes).is_ok());
}

#[test]
fn the_reserved_entity_type_is_reported_before_attributes() {
    let def = ns_def(
        vec![],
        vec![("Action", entity(&[]))],
        vec![("tagged", action_with_attributes(vec![("level", JsonValue::Long(3))]))],
    );
    assert!(matches!(
        ValidatorNamespaceDef::from_namespace_definition(None, &def, ActionBehavior::ProhibitAttributes),
        Err(SchemaError::ActionEntityTypeDeclared)
    ));
}

#[test]
fn the_reserved_entity_type_is_refused_in_any_namespace() {
    let f = fragment(vec![("Some::Where", ns_def(vec![], vec![("Action", entity(&[]))], vec![]))]);
    assert!(matches!(schema_of_fragment(f), Err(SchemaError::ActionEntityTypeDeclared)));
    let g = fragment(vec![("", ns_def(vec![], vec![("Action", entity(&[]))], vec![]))]);
    assert!(matches!(
        ValidatorSchema::from_schema_file(g, ActionBehavior::PermitAttributes),
        Err(SchemaError::ActionEntityTypeDeclared)
    ));
}

#[test]
fn an_attribute_of_a_common_type_has_the_type_it_stands_for() {
    let set_of_long = SchemaType::Type(SchemaTypeVariant::SetOf { element: Box::new(long()) });
    let f = fragment(vec![(
        "App",
        ns_def(
            vec![("Scores", set_of_long), ("Who", entity_ref("User"))],
            vec![(
                "User",
                entity_with_shape(record(vec![
                    ("scores", type_def("Scores")),
                    ("boss", type_def("App::Who")),
                    ("age", long()),
                ])),
            )],
            vec![],
        ),
    )]);
    let schema = schema_of_fragment(f).unwrap();
    let user = EntityTypeRef::Concrete(name("App::User"));
    assert_eq!(schema.attr_type(&user, "scores"), Some(Type::set(Type::primitive_long())));
    assert_eq!(schema.attr_type(&user, "boss"), Some(Type::named_entity_reference(name("App::User"))));
    assert_eq!(schema.attr_type(&user, "age"), Some(Type::primitive_long()));
}

#[test]
fn a_common_type_of_another_fragment_is_found() {
    let first = ValidatorSchemaFragment::from_schema_fragment(
        fragment(vec![("A", ns_def(vec![("MyLong", long())], vec![], vec![]))]),
        ActionBehavior::default(),
    )
    .unwrap();
    let second = ValidatorSchemaFragment::from_schema_fragment(
        fragment(vec![(
            "A",
            ns_def(vec![], vec![("User", entity_with_shape(record(vec![("a", type_def("MyLong"))])))], vec![]),
        )]),
        ActionBehavior::default(),
    )
    .unwrap();
    let schema = ValidatorSchema::from_schema_fragments(vec![second, first]).unwrap();
    let user = schema.get_entity_type(&name("A::User")).unwrap();
    assert_eq!(user.attr("a").unwrap().attr_type, Type::primitive_long());
    assert!(user.attr("a").unwrap().is_required);
    assert_eq!(
        user.attributes,
        Attributes::with_required_attributes(vec![(s("a"), Type::primitive_long())])
    );
}
