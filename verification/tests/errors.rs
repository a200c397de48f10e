#![allow(dead_code, unused_imports)]

use std::collections::HashSet;

use cedar_schema::{
    ActionBehavior, ActionEntityUID, ActionId, ActionType, ApplySpec, Attributes, EntityType,
    EntityTypeRef, JsonValue, NamespaceDefinition, QualifiedName, SchemaError, SchemaFragment,
    SchemaType, SchemaTypeVariant, Type, TypeOfAttribute, UnsupportedFeature,
    ValidatorNamespaceDef, ValidatorSchema, ValidatorSchemaFragment,
};

fn s(text: &str) -> String {
    text.to_string()
}

fn name(text: &str) -> QualifiedName {
    let mut parts: Vec<String> = text.split("::").map(s).collect();
    let base = parts.pop().unwrap();
    QualifiedName::new(base, parts)
}

fn action_id(ty: &str, id: &str) -> ActionId {
    ActionId::from_components(name(ty), s(id))
}

fn strings(items: &[&str]) -> Vec<String> {
    items.iter().map(|x| s(x)).collect()
}

fn entity(member_of: &[&str]) -> EntityType {
    EntityType { member_of_types: strings(member_of), shape: SchemaType::empty_record() }
}

fn entity_with_shape(shape: SchemaType) -> EntityType {
    EntityType { member_of_types: vec![], shape }
}

fn record(attributes: Vec<(&str, SchemaType)>) -> SchemaType {
    SchemaType::Type(SchemaTypeVariant::Record {
        attributes: attributes
            .into_iter()
            .map(|(k, ty)| (s(k), TypeOfAttribute { ty, required: true }))
            .collect(),
        additional_attributes: false,
    })
}

fn long() -> SchemaType {
    SchemaType::Type(SchemaTypeVariant::Long)
}

fn type_def(text: &str) -> SchemaType {
    SchemaType::TypeDef { name: s(text) }
}

fn entity_ref(text: &str) -> SchemaType {
    SchemaType::Type(SchemaTypeVariant::Entity { name: s(text) })
}

fn plain_action() -> ActionType {
    ActionType { attributes: None, applies_to: None, member_of: None }
}

fn action_applies(principals: &[&str], resources: &[&str]) -> ActionType {
    ActionType {
        attributes: None,
        applies_to: Some(ApplySpec {
            resource_types: Some(strings(resources)),
            principal_types: Some(strings(principals)),
            context: SchemaType::empty_record(),
        }),
        member_of: None,
    }
}

fn action_member_of(parents: &[&str]) -> ActionType {
    ActionType {
        attributes: None,
        applies_to: None,
        member_of: Some(parents.iter().map(|p| ActionEntityUID::default_type(s(p))).collect()),
    }
}

fn action_with_attributes(attributes: Vec<(&str, JsonValue)>) -> ActionType {
    ActionType {
        attributes: Some(attributes.into_iter().map(|(k, v)| (s(k), v)).collect()),
        applies_to: None,
        member_of: None,
    }
}

fn ns_def(
    common_types: Vec<(&str, SchemaType)>,
    entity_types: Vec<(&str, EntityType)>,
    actions: Vec<(&str, ActionType)>,
) -> NamespaceDefinition {
    NamespaceDefinition {
        common_types: common_types.into_iter().map(|(k, v)| (s(k), v)).collect(),
        entity_types: entity_types.into_iter().map(|(k, v)| (s(k), v)).collect(),
        actions: actions.into_iter().map(|(k, v)| (s(k), v)).collect(),
    }
}

fn fragment(namespaces: Vec<(&str, NamespaceDefinition)>) -> SchemaFragment {
    SchemaFragment(namespaces.into_iter().map(|(k, v)| (s(k), v)).collect())
}

fn schema_of_def(def: NamespaceDefinition) -> Result<ValidatorSchema, SchemaError> {
    ValidatorSchema::from_namespace_definition(&def, ActionBehavior::default())
}

fn schema_of_fragment(f: SchemaFragment) -> Result<ValidatorSchema, SchemaError> {
    ValidatorSchema::from_schema_file(f, ActionBehavior::default())
}

fn names_of(items: &[QualifiedName]) -> HashSet<String> {
    items.iter().map(|n| n.to_string()).collect()
}

fn set_of(items: &[&str]) -> HashSet<String> {
    items.iter().map(|x| s(x)).collect()
}

fn compile(def: &NamespaceDefinition, behavior: ActionBehavior) -> Result<ValidatorNamespaceDef, SchemaError> {
    ValidatorNamespaceDef::from_namespace_definition(None, def, behavior)
}

#[test]
fn an_entity_type_declared_twice_is_reported() {
    let def = ns_def(
        vec![],
        vec![("User", entity(&[])), ("Photo", entity(&["Album"])), ("Photo", entity(&[]))],
        vec![],
    );
    assert_eq!(schema_of_def(def).unwrap_err(), SchemaError::DuplicateEntityType(s("Photo")));
}

#[test]
fn an_action_declared_twice_is_reported() {
    let def = ns_def(
        vec![],
        vec![],
        vec![("view", plain_action()), ("edit", plain_action()), ("view", plain_action())],
    );
    assert_eq!(schema_of_def(def).unwrap_err(), SchemaError::DuplicateAction(s("view")));
}

#[test]
fn a_duplicate_entity_type_is_reported_before_a_duplicate_action() {
    let def = ns_def(
        vec![],
        vec![("User", entity(&[])), ("User", entity(&[]))],
        vec![("view", plain_action()), ("view", plain_action())],
    );
    assert_eq!(schema_of_def(def).unwrap_err(), SchemaError::DuplicateEntityType(s("User")));
}

#[test]
fn an_entity_type_declared_in_two_fragments_is_reported() {
    let one = || {
        ValidatorSchemaFragment::from_schema_fragment(
            fragment(vec![("N", ns_def(vec![], vec![("User", entity(&[]))], vec![]))]),
            ActionBehavior::default(),
        )
        .unwrap()
    };
    assert_eq!(
        ValidatorSchema::from_schema_fragments(vec![one(), one()]).unwrap_err(),
        SchemaError::DuplicateEntityType(s("N::User"))
    );
}

#[test]
fn an_action_declared_in_two_fragments_is_reported() {
    let one = || {
        ValidatorSchemaFragment::from_schema_fragment(
            fragment(vec![("N", ns_def(vec![], vec![], vec![("say \"hi\"", plain_action())]))]),
            ActionBehavior::default(),
        )
        .unwrap()
    };
    assert_eq!(
        ValidatorSchema::from_schema_fragments(vec![one(), one()]).unwrap_err(),
        SchemaError::DuplicateAction(s("N::Action::\"say \\\"hi\\\"\""))
    );
}

#[test]
fn a_common_type_defined_in_two_fragments_is_reported() {
    let one = || {
        ValidatorSchemaFragment::from_schema_fragment(
            fragment(vec![("A", ns_def(vec![("MyLong", long())], vec![], vec![]))]),
            ActionBehavior::default(),
        )
        .unwrap()
    };
    assert_eq!(
        ValidatorSchema::from_schema_fragments(vec![one(), one()]).unwrap_err(),
        SchemaError::DuplicateCommonType(s("A::MyLong"))
    );
}

#[test]
fn a_common_type_under_a_builtin_name_is_reported() {
    for builtin in ["String", "Long", "Boolean", "Set", "Record", "Entity", "Extension"] {
        let def = ns_def(vec![(builtin, long())], vec![], vec![]);
        assert_eq!(schema_of_def(def).unwrap_err(), SchemaError::DuplicateCommonType(s(builtin)));
    }
    let def = ns_def(vec![("Number", long())], vec![], vec![]);
    assert!(schema_of_def(def).is_ok());
}

#[test]
fn a_common_type_defined_twice_in_one_namespace_is_reported() {
    let def = ns_def(vec![("MyLong", long()), ("MyLong", long())], vec![], vec![]);
    assert_eq!(schema_of_def(def).unwrap_err(), SchemaError::DuplicateCommonType(s("MyLong")));
}

#[test]
fn ill_formed_names_are_reported_by_their_place() {
    let def = ns_def(vec![], vec![("User", entity(&["::Group"]))], vec![]);
    assert!(matches!(schema_of_def(def), Err(SchemaError::EntityTypeParseError(_))));

    let def = ns_def(vec![], vec![("User", entity(&["Group::"]))], vec![]);
    assert!(matches!(schema_of_def(def), Err(SchemaError::EntityTypeParseError(_))));

    let def = ns_def(vec![], vec![("User", entity(&["A::::B"]))], vec![]);
    assert!(matches!(schema_of_def(def), Err(SchemaError::EntityTypeParseError(_))));

    let def = ns_def(vec![], vec![("", entity(&[]))], vec![]);
    assert!(matches!(schema_of_def(def), Err(SchemaError::EntityTypeParseError(_))));

    let def = ns_def(vec![], vec![], vec![("view", action_applies(&["1User"], &[]))]);
    assert!(matches!(schema_of_def(def), Err(SchemaError::EntityTypeParseError(_))));

    let def = ns_def(vec![("My Long", long())], vec![], vec![]);
    assert!(matches!(schema_of_def(def), Err(SchemaError::CommonTypeParseError(_))));

    let def = ns_def(vec![], vec![("User", entity_with_shape(type_def("::T")))], vec![]);
    assert!(matches!(schema_of_def(def), Err(SchemaError::CommonTypeParseError(_))));

    let extension = SchemaType::Type(SchemaTypeVariant::Extension { name: s("ip addr") });
    let def = ns_def(vec![], vec![("User", entity_with_shape(record(vec![("ip", extension)])))], vec![]);
    assert!(matches!(schema_of_def(def), Err(SchemaError::ExtensionTypeParseError(_))));

    let f = fragment(vec![("::N", ns_def(vec![], vec![], vec![]))]);
    assert!(matches!(schema_of_fragment(f), Err(SchemaError::NamespaceParseError(_))));

    let mut member = plain_action();
    member.member_of = Some(vec![ActionEntityUID { id: s("all"), ty: Some(s("Not A Type")) }]);
    let def = ns_def(vec![], vec![], vec![("view", member)]);
    assert!(matches!(schema_of_def(def), Err(SchemaError::EntityTypeParseError(_))));
}

#[test]
fn an_open_record_is_not_supported() {
    let open = SchemaType::Type(SchemaTypeVariant::Record {
        attributes: vec![],
        additional_attributes: true,
    });
    let def = ns_def(vec![], vec![("User", entity_with_shape(open))], vec![]);
    assert_eq!(
        schema_of_def(def).unwrap_err(),
        SchemaError::UnsupportedSchemaFeature(UnsupportedFeature::OpenRecordsAndEntities)
    );
}

#[test]
fn an_undeclared_common_type_is_reported_as_written() {
    let def = ns_def(vec![], vec![("User", entity_with_shape(record(vec![("a", type_def("MyLong"))])))], vec![]);
    let f = fragment(vec![("N", def)]);
    assert_eq!(schema_of_fragment(f).unwrap_err(), SchemaError::UndeclaredCommonType(vec![s("MyLong")]));
}

#[test]
fn a_common_type_cannot_refer_to_a_common_type() {
    let def = ns_def(vec![("a", long()), ("b", type_def("a"))], vec![], vec![]);
    assert_eq!(schema_of_def(def).unwrap_err(), SchemaError::UndeclaredCommonType(vec![s("a")]));
}

#[test]
fn a_context_that_is_no_record_is_reported() {
    let mut view = action_applies(&[], &[]);
    view.applies_to = Some(ApplySpec { resource_types: None, principal_types: None, context: long() });
    let def = ns_def(vec![], vec![], vec![("view", view)]);
    assert_eq!(schema_of_def(def).unwrap_err(), SchemaError::ContextOrShapeNotRecord);
}

#[test]
fn undeclared_entity_types_are_all_reported_each_once() {
    let def = ns_def(
        vec![],
        vec![
            ("User", entity_with_shape(record(vec![("a", entity_ref("Ghost")), ("b", entity_ref("Ghost"))]))),
            ("Photo", entity(&["Missing", "Ghost"])),
        ],
        vec![("view", action_applies(&["Ghost", "User"], &["Nothing"]))],
    );
    match schema_of_def(def) {
        Err(SchemaError::UndeclaredEntityTypes(v)) => {
            assert_eq!(v.len(), 3);
            assert_eq!(v.iter().cloned().collect::<HashSet<_>>(), set_of(&["Ghost", "Missing", "Nothing"]));
        }
        other => panic!("expected undeclared entity types, got {:?}", other),
    }
}

#[test]
fn undeclared_entity_types_are_reported_before_undeclared_actions() {
    let mut view = action_applies(&["Nobody"], &[]);
    view.member_of = Some(vec![ActionEntityUID::default_type(s("all"))]);
    let def = ns_def(vec![], vec![], vec![("view", view)]);
    assert_eq!(schema_of_def(def).unwrap_err(), SchemaError::UndeclaredEntityTypes(vec![s("Nobody")]));
}

#[test]
fn an_undeclared_action_is_reported_by_its_text() {
    let def = ns_def(vec![], vec![], vec![("view", action_member_of(&["all"]))]);
    let f = fragment(vec![("N", def)]);
    assert_eq!(schema_of_fragment(f).unwrap_err(), SchemaError::UndeclaredActions(vec![s("N::Action::\"all\"")]));
}

#[test]
fn an_action_cycle_is_reported_before_undeclared_entity_types() {
    let mut view = action_applies(&["Nobody"], &[]);
    view.member_of = Some(vec![ActionEntityUID::default_type(s("view"))]);
    let def = ns_def(vec![], vec![], vec![("view", view)]);
    assert_eq!(schema_of_def(def).unwrap_err(), SchemaError::CycleInActionHierarchy);
}

#[test]
fn an_entity_membership_cycle_is_no_error() {
    let def = ns_def(vec![], vec![("A", entity(&["A"]))], vec![]);
    let schema = schema_of_def(def).unwrap();
    assert_eq!(schema.get_entity_type(&name("A")).unwrap().descendants, vec![name("A")]);
}

#[test]
fn an_attribute_with_an_empty_set_has_no_type() {
    let def = ns_def(vec![], vec![], vec![("view", action_with_attributes(vec![("tags", JsonValue::SetOf(vec![]))]))]);
    assert_eq!(
        compile(&def, ActionBehavior::PermitAttributes).unwrap_err(),
        SchemaError::ActionEntityAttributeEmptySet
    );
    let nested = JsonValue::Record(vec![(s("inner"), JsonValue::SetOf(vec![JsonValue::SetOf(vec![])]))]);
    let def = ns_def(vec![], vec![], vec![("view", action_with_attributes(vec![("tags", nested)]))]);
    assert_eq!(
        compile(&def, ActionBehavior::PermitAttributes).unwrap_err(),
        SchemaError::ActionEntityAttributeEmptySet
    );
}

#[test]
fn an_attribute_with_an_escaped_value_has_no_type() {
    let values = vec![
        JsonValue::ExprEscape { expr: s("1 + 1") },
        JsonValue::EntityEscape { entity_type: s("User"), id: s("alice") },
        JsonValue::ExtnEscape { function: s("ip"), arg: Box::new(JsonValue::String(s("10.0.0.1"))) },
    ];
    for v in values {
        let def = ns_def(vec![], vec![], vec![("view", action_with_attributes(vec![("x", v)]))]);
        assert_eq!(
            compile(&def, ActionBehavior::PermitAttributes).unwrap_err(),
            SchemaError::ActionEntityAttributeUnsupportedType
        );
    }
}

#[test]
fn the_first_failing_phase_decides_the_error() {
    let def = ns_def(
        vec![("Long", long())],
        vec![("Action", entity(&[]))],
        vec![("view", plain_action())],
    );
    assert_eq!(
        compile(&def, ActionBehavior::PermitAttributes).unwrap_err(),
        SchemaError::ActionEntityTypeDeclared
    );
    let def = ns_def(
        vec![("Long", long())],
        vec![("User", entity(&["::Bad"]))],
        vec![("view", action_applies(&["::Bad"], &[]))],
    );
    assert_eq!(
        compile(&def, ActionBehavior::PermitAttributes).unwrap_err(),
        SchemaError::DuplicateCommonType(s("Long"))
    );
}

#[test]
fn a_reserved_name_is_refused_however_it_is_written() {
    let def = ns_def(vec![], vec![("User", entity(&[])), (" Action ", entity(&[]))], vec![]);
    assert_eq!(schema_of_def(def).unwrap_err(), SchemaError::ActionEntityTypeDeclared);
    let f = fragment(vec![("N", ns_def(vec![], vec![("Action // kept", entity(&[]))], vec![]))]);
    assert_eq!(schema_of_fragment(f).unwrap_err(), SchemaError::ActionEntityTypeDeclared);

    let def = ns_def(vec![(" Long ", long())], vec![], vec![]);
    assert_eq!(schema_of_def(def).unwrap_err(), SchemaError::DuplicateCommonType(s(" Long ")));
    let def = ns_def(vec![(" MyLong ", long()), ("MyLong", long())], vec![], vec![]);
    assert_eq!(schema_of_def(def).unwrap_err(), SchemaError::DuplicateCommonType(s("MyLong")));
    let def = ns_def(vec![], vec![(" User", entity(&[])), ("User ", entity(&[]))], vec![]);
    assert_eq!(schema_of_def(def).unwrap_err(), SchemaError::DuplicateEntityType(s("User ")));
}
