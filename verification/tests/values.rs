#![allow(dead_code, unused_imports)]

use std::collections::HashSet;

use cedar_schema::names::{
    apply_default_namespace, is_action_entity_type, parse_namespace,
    parse_possibly_qualified_name_with_default_namespace, parse_unqualified_name_with_namespace,
};
use cedar_schema::transitive_closure::{compute_tc, TcError};
use cedar_schema::{
    ActionBehavior, ActionEntityUID, ActionHeadVar, ActionId, ActionType, ApplySpec,
    AttributeType, Attributes, EntityType, EntityTypeRef, EntityUID, HeadVar, JsonValue,
    NamespaceDefinition, PrincipalOrResourceHeadVar, QualifiedName, SchemaError, SchemaFragment,
    SchemaType, SchemaTypeVariant, Type, TypeOfAttribute, ValidatorApplySpec,
    ValidatorNamespaceDef, ValidatorSchema, ValidatorSchemaFragment, WithUnresolvedTypeDefs,
};

fn s(text: &str) -> String {
    text.to_string()
}

fn name(text: &str) -> QualifiedName {
    let mut parts: Vec<String> = text.split("::").map(s).collect();
    let base = parts.pop().unwrap();
    QualifiedName::new(base, parts)
}

fn action_id(ty: &str, id: &str) -> ActionId {
    ActionId::from_components(name(ty), s(id))
}

fn strings(items: &[&str]) -> Vec<String> {
    items.iter().map(|x| s(x)).collect()
}

fn entity(member_of: &[&str]) -> EntityType {
    EntityType { member_of_types: strings(member_of), shape: SchemaType::empty_record() }
}

fn entity_with_shape(shape: SchemaType) -> EntityType {
    EntityType { member_of_types: vec![], shape }
}

fn record(attributes: Vec<(&str, SchemaType)>) -> SchemaType {
    SchemaType::Type(SchemaTypeVariant::Record {
        attributes: attributes
            .into_iter()
            .map(|(k, ty)| (s(k), TypeOfAttribute { ty, required: true }))
            .collect(),
        additional_attributes: false,
    })
}

fn long() -> SchemaType {
    SchemaType::Type(SchemaTypeVariant::Long)
}

fn type_def(text: &str) -> SchemaType {
    SchemaType::TypeDef { name: s(text) }
}

fn entity_ref(text: &str) -> SchemaType {
    SchemaType::Type(SchemaTypeVariant::Entity { name: s(text) })
}

fn plain_action() -> ActionType {
    ActionType { attributes: None, applies_to: None, member_of: None }
}

fn action_applies(principals: &[&str], resources: &[&str]) -> ActionType {
    ActionType {
        attributes: None,
        applies_to: Some(ApplySpec {
            resource_types: Some(strings(resources)),
            principal_types: Some(strings(principals)),
            context: SchemaType::empty_record(),
        }),
        member_of: None,
    }
}

fn action_member_of(parents: &[&str]) -> ActionType {
    ActionType {
        attributes: None,
        applies_to: None,
        member_of: Some(parents.iter().map(|p| ActionEntityUID::default_type(s(p))).collect()),
    }
}

fn action_with_attributes(attributes: Vec<(&str, JsonValue)>) -> ActionType {
    ActionType {
        attributes: Some(attributes.into_iter().map(|(k, v)| (s(k), v)).collect()),
        applies_to: None,
        member_of: None,
    }
}

fn ns_def(
    common_types: Vec<(&str, SchemaType)>,
    entity_types: Vec<(&str, EntityType)>,
    actions: Vec<(&str, ActionType)>,
) -> NamespaceDefinition {
    NamespaceDefinition {
        common_types: common_types.into_iter().map(|(k, v)| (s(k), v)).collect(),
        entity_types: entity_types.into_iter().map(|(k, v)| (s(k), v)).collect(),
        actions: actions.into_iter().map(|(k, v)| (s(k), v)).collect(),
    }
}

fn fragment(namespaces: Vec<(&str, NamespaceDefinition)>) -> SchemaFragment {
    SchemaFragment(namespaces.into_iter().map(|(k, v)| (s(k), v)).collect())
}

fn schema_of_def(def: NamespaceDefinition) -> Result<ValidatorSchema, SchemaError> {
    ValidatorSchema::from_namespace_definition(&def, ActionBehavior::default())
}

fn schema_of_fragment(f: SchemaFragment) -> Result<ValidatorSchema, SchemaError> {
    ValidatorSchema::from_schema_file(f, ActionBehavior::default())
}

fn names_of(items: &[QualifiedName]) -> HashSet<String> {
    items.iter().map(|n| n.to_string()).collect()
}

fn set_of(items: &[&str]) -> HashSet<String> {
    items.iter().map(|x| s(x)).collect()
}

#[test]
fn the_text_of_a_name_joins_path_and_base() {
    assert_eq!(name("Foo::Bar::Baz").to_string(), "Foo::Bar::Baz");
    assert_eq!(name("Baz").to_string(), "Baz");
    assert_eq!(QualifiedName::unqualified_name(s("Baz")), name("Baz"));
    assert_eq!(name("Foo::Bar::Baz").basename(), "Baz");
}

#[test]
fn the_text_of_an_action_quotes_and_escapes_its_id() {
    assert_eq!(action_id("N::S::Action", "view_photo").to_string(), "N::S::Action::\"view_photo\"");
    assert_eq!(action_id("Action", "say \"hi\"\n").to_string(), "Action::\"say \\\"hi\\\"\\n\"");
    assert_eq!(action_id("Action", "back\\slash").to_string(), "Action::\"back\\\\slash\"");
}

#[test]
fn parsing_a_name_drops_what_is_no_part_of_it() {
    let none: Vec<String> = vec![];
    assert_eq!(
        parse_possibly_qualified_name_with_default_namespace(" A :: B ", &none).unwrap(),
        name("A::B")
    );
    assert_eq!(
        parse_possibly_qualified_name_with_default_namespace("A::B // the type", &none).unwrap(),
        name("A::B")
    );
    assert_eq!(parse_unqualified_name_with_namespace(" Foo ", strings(&["N"])).unwrap(), name("N::Foo"));
    assert!(parse_unqualified_name_with_namespace("N::Foo", vec![]).is_err());
    assert!(parse_unqualified_name_with_namespace("if", vec![]).is_err());
    assert!(parse_possibly_qualified_name_with_default_namespace("", &none).is_err());
}

#[test]
fn the_default_namespace_is_given_to_unqualified_names_only() {
    let ns = strings(&["N", "S"]);
    let none: Vec<String> = vec![];
    assert_eq!(parse_possibly_qualified_name_with_default_namespace("Foo", &ns).unwrap(), name("N::S::Foo"));
    assert_eq!(parse_possibly_qualified_name_with_default_namespace("A::Foo", &ns).unwrap(), name("A::Foo"));
    assert_eq!(parse_possibly_qualified_name_with_default_namespace("Foo", &none).unwrap(), name("Foo"));
    assert_eq!(apply_default_namespace(name("Foo"), &ns), name("N::S::Foo"));
    assert_eq!(apply_default_namespace(name("A::Foo"), &ns), name("A::Foo"));
    assert_eq!(apply_default_namespace(name("Foo"), &none), name("Foo"));
}

#[test]
fn the_text_of_a_namespace_gives_its_path() {
    assert_eq!(parse_namespace("").unwrap(), Vec::<String>::new());
    assert_eq!(parse_namespace("A").unwrap(), strings(&["A"]));
    assert_eq!(parse_namespace("A::B::C").unwrap(), strings(&["A", "B", "C"]));
    assert!(parse_namespace("::A").is_err());
    assert!(parse_namespace("A::").is_err());
}

#[test]
fn an_action_entity_type_is_known_by_its_base() {
    assert!(is_action_entity_type(&name("Action")));
    assert!(is_action_entity_type(&name("My::Namespace::Action")));
    assert!(!is_action_entity_type(&name("Action::User")));
    assert!(!is_action_entity_type(&name("action")));
}

#[test]
fn a_written_action_reference_is_qualified_by_the_namespace_or_by_its_type() {
    let plain = ActionEntityUID::default_type(s("view"));
    assert_eq!(
        ValidatorNamespaceDef::parse_action_id_with_namespace(&plain, strings(&["N"])).unwrap(),
        action_id("N::Action", "view")
    );
    assert_eq!(
        ValidatorNamespaceDef::parse_action_id_with_namespace(&plain, vec![]).unwrap(),
        action_id("Action", "view")
    );
    let typed = ActionEntityUID { id: s("view"), ty: Some(s("Other::Action")) };
    assert_eq!(
        ValidatorNamespaceDef::parse_action_id_with_namespace(&typed, strings(&["N"])).unwrap(),
        action_id("Other::Action", "view")
    );
    let unqualified = ActionEntityUID { id: s("view"), ty: Some(s("Action")) };
    assert_eq!(
        ValidatorNamespaceDef::parse_action_id_with_namespace(&unqualified, strings(&["N"])).unwrap(),
        action_id("Action", "view")
    );
}

#[test]
fn an_apply_spec_list_that_is_left_out_is_the_unspecified_entity_type() {
    let ns = strings(&["N"]);
    assert_eq!(
        ValidatorNamespaceDef::parse_apply_spec_type_list(&None, &ns).unwrap(),
        vec![EntityTypeRef::Unspecified]
    );
    assert_eq!(
        ValidatorNamespaceDef::parse_apply_spec_type_list(&Some(vec![]), &ns).unwrap(),
        Vec::<EntityTypeRef>::new()
    );
    assert_eq!(
        ValidatorNamespaceDef::parse_apply_spec_type_list(&Some(strings(&["User", "A::B", "User", "N::User"])), &ns)
            .unwrap(),
        vec![EntityTypeRef::Concrete(name("N::User")), EntityTypeRef::Concrete(name("A::B"))]
    );
}

#[test]
fn an_action_without_applies_to_applies_to_the_unspecified_entity_type() {
    let mut only_principals = action_applies(&["User"], &[]);
    only_principals.applies_to = Some(ApplySpec {
        resource_types: None,
        principal_types: Some(strings(&["User"])),
        context: SchemaType::empty_record(),
    });
    let def = ns_def(
        vec![],
        vec![("User", entity(&[]))],
        vec![("any", plain_action()), ("some", only_principals)],
    );
    let schema = schema_of_def(def).unwrap();
    let any = schema.get_action_id(&action_id("Action", "any")).unwrap();
    assert_eq!(
        any.applies_to,
        ValidatorApplySpec::new(vec![EntityTypeRef::Unspecified], vec![EntityTypeRef::Unspecified])
    );
    assert_eq!(any.context, Attributes::with_attributes(vec![]));
    assert_eq!(any.attributes, Attributes::with_attributes(vec![]));
    let some = schema.get_action_id(&action_id("Action", "some")).unwrap();
    assert_eq!(
        some.applies_to,
        ValidatorApplySpec::new(vec![EntityTypeRef::Concrete(name("User"))], vec![EntityTypeRef::Unspecified])
    );
}

#[test]
fn the_values_of_action_attributes_are_typed() {
    let typed = |v: JsonValue| ValidatorNamespaceDef::jsonval_to_type_helper(&v);
    assert_eq!(typed(JsonValue::Bool(true)).unwrap(), Type::primitive_boolean());
    assert_eq!(typed(JsonValue::Long(-7)).unwrap(), Type::primitive_long());
    assert_eq!(typed(JsonValue::String(s("x"))).unwrap(), Type::primitive_string());
    assert_eq!(
        typed(JsonValue::SetOf(vec![JsonValue::Long(1), JsonValue::String(s("two"))])).unwrap(),
        Type::set(Type::primitive_long())
    );
    assert_eq!(
        typed(JsonValue::Record(vec![
            (s("n"), JsonValue::Long(1)),
            (s("inner"), JsonValue::Record(vec![(s("ok"), JsonValue::Bool(false))])),
        ]))
        .unwrap(),
        Type::record_with_attributes(Attributes::with_required_attributes(vec![
            (s("n"), Type::primitive_long()),
            (
                s("inner"),
                Type::record_with_attributes(Attributes::with_required_attributes(vec![(
                    s("ok"),
                    Type::primitive_boolean()
                )]))
            ),
        ]))
    );
    assert_eq!(
        typed(JsonValue::SetOf(vec![JsonValue::ExprEscape { expr: s("1") }])).unwrap_err(),
        SchemaError::ActionEntityAttributeUnsupportedType
    );
}

#[test]
fn permitted_action_attributes_are_kept_with_their_types() {
    let def = ns_def(
        vec![],
        vec![],
        vec![(
            "view",
            action_with_attributes(vec![("level", JsonValue::Long(3)), ("tags", JsonValue::SetOf(vec![JsonValue::String(s("a"))]))]),
        )],
    );
    let schema = ValidatorSchema::from_namespace_definition(&def, ActionBehavior::PermitAttributes).unwrap();
    let view = schema.get_action_id(&action_id("Action", "view")).unwrap();
    assert_eq!(
        view.attributes,
        Attributes::with_required_attributes(vec![
            (s("level"), Type::primitive_long()),
            (s("tags"), Type::set(Type::primitive_string())),
        ])
    );
}

#[test]
fn an_attribute_that_is_listed_again_keeps_its_place_and_takes_the_last_type() {
    let attrs = Attributes::with_attributes(vec![
        (s("a"), AttributeType::new(Type::primitive_long(), true)),
        (s("b"), AttributeType::new(Type::primitive_string(), false)),
        (s("a"), AttributeType::new(Type::primitive_boolean(), false)),
    ]);
    assert_eq!(attrs.len(), 2);
    assert_eq!(attrs.get_index(0).0, "a");
    assert_eq!(attrs.get_attr("a"), Some(&AttributeType::new(Type::primitive_boolean(), false)));
    assert_eq!(attrs.get_attr("b"), Some(&AttributeType::new(Type::primitive_string(), false)));
    assert_eq!(attrs.get_attr("c"), None);
    assert_eq!(attrs.required_attrs(), Vec::<String>::new());
}

#[test]
fn written_types_are_lifted_and_resolved() {
    let ns = strings(&["N"]);
    let lift = |t: &SchemaType| ValidatorNamespaceDef::try_schema_type_into_validator_type(&ns, t).unwrap();
    let defs = vec![(name("N::T"), Type::primitive_boolean())];
    assert_eq!(
        lift(&SchemaType::Type(SchemaTypeVariant::String)).resolve_type_defs(&defs).unwrap(),
        Type::primitive_string()
    );
    assert_eq!(
        lift(&SchemaType::Type(SchemaTypeVariant::Boolean)).resolve_type_defs(&defs).unwrap(),
        Type::primitive_boolean()
    );
    let extension = SchemaType::Type(SchemaTypeVariant::Extension { name: s("ipaddr") });
    assert_eq!(lift(&extension).resolve_type_defs(&defs).unwrap(), Type::extension(s("ipaddr")));
    let set_of_t = SchemaType::Type(SchemaTypeVariant::SetOf { element: Box::new(type_def("T")) });
    assert_eq!(lift(&set_of_t).resolve_type_defs(&defs).unwrap(), Type::set(Type::primitive_boolean()));
    assert_eq!(
        lift(&set_of_t).resolve_type_defs(&vec![]).unwrap_err(),
        SchemaError::UndeclaredCommonType(vec![s("T")])
    );
    let optional = SchemaType::Type(SchemaTypeVariant::Record {
        attributes: vec![
            (s("t"), TypeOfAttribute { ty: type_def("N::T"), required: false }),
            (s("who"), TypeOfAttribute { ty: entity_ref("User"), required: true }),
        ],
        additional_attributes: false,
    });
    assert_eq!(
        lift(&optional).resolve_type_defs(&defs).unwrap(),
        Type::record_with_attributes(Attributes::with_attributes(vec![
            (s("t"), AttributeType::new(Type::primitive_boolean(), false)),
            (s("who"), AttributeType::new(Type::named_entity_reference(name("N::User")), true)),
        ]))
    );
    assert_eq!(
        WithUnresolvedTypeDefs::new(name("N::T"), s("T")).set_of().resolve_type_defs(&defs).unwrap(),
        Type::set(Type::primitive_boolean())
    );
}

#[test]
fn the_schema_answers_queries() {
    let shape = SchemaType::Type(SchemaTypeVariant::Record {
        attributes: vec![
            (s("age"), TypeOfAttribute { ty: long(), required: true }),
            (s("nick"), TypeOfAttribute { ty: SchemaType::Type(SchemaTypeVariant::String), required: false }),
            (s("id"), TypeOfAttribute { ty: long(), required: true }),
        ],
        additional_attributes: false,
    });
    let mut view = action_applies(&["User"], &["User"]);
    view.applies_to.as_mut().unwrap().context = record(vec![("ip", SchemaType::Type(SchemaTypeVariant::String))]);
    let def = ns_def(vec![], vec![("User", entity_with_shape(shape)), ("Team", entity(&[]))], vec![("view", view)]);
    let schema = schema_of_def(def).unwrap();
    let user = EntityTypeRef::Concrete(name("User"));
    assert_eq!(schema.known_entity_types(), vec![name("User"), name("Team")]);
    assert_eq!(schema.known_action_ids(), vec![action_id("Action", "view")]);
    assert_eq!(schema.attr_type(&user, "age"), Some(Type::primitive_long()));
    assert_eq!(schema.attr_type(&user, "nick"), Some(Type::primitive_string()));
    assert_eq!(schema.attr_type(&user, "missing"), None);
    assert_eq!(schema.attr_type(&EntityTypeRef::Unspecified, "age"), None);
    assert_eq!(schema.attr_type(&EntityTypeRef::Concrete(name("Nobody")), "age"), None);
    assert_eq!(schema.required_attrs(&user), strings(&["age", "id"]));
    assert_eq!(schema.required_attrs(&EntityTypeRef::Unspecified), Vec::<String>::new());
    assert_eq!(schema.required_attrs(&EntityTypeRef::Concrete(name("Nobody"))), Vec::<String>::new());
    assert_eq!(
        schema.get_context_schema(&action_id("Action", "view")),
        Some(Type::record_with_attributes(Attributes::with_required_attributes(vec![(
            s("ip"),
            Type::primitive_string()
        )])))
    );
    assert_eq!(schema.get_context_schema(&action_id("Action", "edit")), None);
    assert!(schema.get_entity_type(&name("Nobody")).is_none());
    assert!(!schema.is_known_action_id(&action_id("Other::Action", "view")));
    let empty = ValidatorSchema::empty();
    assert!(empty.known_entity_types().is_empty());
    assert!(empty.known_action_ids().is_empty());
}

#[test]
fn the_scope_variables_pick_their_part_of_an_identifier() {
    let def = ns_def(
        vec![],
        vec![("User", entity(&["Group"])), ("Group", entity(&["Org"])), ("Org", entity(&[]))],
        vec![("read", plain_action()), ("view", action_member_of(&["read"]))],
    );
    let schema = schema_of_def(def).unwrap();
    let por = PrincipalOrResourceHeadVar::PrincipalOrResource;
    let act = ActionHeadVar::Action;
    let org = EntityUID::from_components(EntityTypeRef::Concrete(name("Org")), s("acme"));
    let stranger = EntityUID::from_components(EntityTypeRef::Concrete(name("Nobody")), s("x"));
    let unspecified = EntityUID::from_components(EntityTypeRef::Unspecified, s("x"));
    let read = EntityUID::from_action_id(&action_id("Action", "read"));

    assert_eq!(por.get_known_vars(&schema), vec![name("User"), name("Group"), name("Org")]);
    assert_eq!(act.get_known_vars(&schema), vec![action_id("Action", "read"), action_id("Action", "view")]);
    assert_eq!(schema.get_entity_eq(por, &org), Some(name("Org")));
    assert_eq!(schema.get_entity_eq(por, &unspecified), None);
    assert_eq!(schema.get_entity_eq(act, &read), Some(action_id("Action", "read")));
    assert_eq!(por.get_euid_component_if_present(&schema, &stranger), None);
    assert_eq!(por.get_descendants_if_present(&schema, &stranger), None);

    assert_eq!(names_of(&schema.get_entities_in(por, &org)), set_of(&["User", "Group", "Org"]));
    assert_eq!(schema.get_entities_in(por, &stranger), Vec::<QualifiedName>::new());
    assert_eq!(schema.get_entities_in(por, &unspecified), Vec::<QualifiedName>::new());
    assert_eq!(
        schema.get_entities_in(act, &read),
        vec![action_id("Action", "view"), action_id("Action", "read")]
    );
    let group = EntityUID::from_components(EntityTypeRef::Concrete(name("Group")), s("g"));
    assert_eq!(
        names_of(&schema.get_entities_in_set(por, &vec![group, stranger, org])),
        set_of(&["User", "Group", "Org"])
    );
}

#[test]
fn the_closure_follows_edges_through_nodes_only() {
    let graph = vec![
        (1u8.to_string(), vec![2u8.to_string()]),
        (2u8.to_string(), vec![3u8.to_string(), 9u8.to_string()]),
        (3u8.to_string(), vec![]),
        (4u8.to_string(), vec![1u8.to_string(), 1u8.to_string()]),
    ];
    let rows = compute_tc(&graph, true).unwrap();
    let as_sets: Vec<HashSet<String>> = rows.iter().map(|r| r.iter().cloned().collect()).collect();
    assert_eq!(as_sets[0], set_of(&["2", "3", "9"]));
    assert_eq!(as_sets[1], set_of(&["3", "9"]));
    assert_eq!(as_sets[2], set_of(&[]));
    assert_eq!(as_sets[3], set_of(&["1", "2", "3", "9"]));
    for (row, set) in rows.iter().zip(as_sets.iter()) {
        assert_eq!(row.len(), set.len());
    }
}

#[test]
fn the_closure_refuses_a_cycle_only_when_asked() {
    let graph = vec![(s("a"), vec![s("b")]), (s("b"), vec![s("c")]), (s("c"), vec![s("a")]), (s("d"), vec![])];
    assert_eq!(compute_tc(&graph, true), Err(TcError::HasCycle));
    let rows = compute_tc(&graph, false).unwrap();
    for row in rows.iter().take(3) {
        assert_eq!(row.iter().cloned().collect::<HashSet<_>>(), set_of(&["a", "b", "c"]));
    }
    assert!(rows[3].is_empty());
    let absent = vec![(s("a"), vec![s("z")])];
    assert_eq!(compute_tc(&absent, true).unwrap(), vec![vec![s("z")]]);
}

#[test]
fn a_namespace_is_kept_with_its_definitions() {
    let f = fragment(vec![
        ("", ns_def(vec![], vec![], vec![])),
        ("A::B", ns_def(vec![], vec![], vec![])),
    ]);
    let compiled = ValidatorSchemaFragment::from_schema_fragment(f, ActionBehavior::default()).unwrap();
    assert_eq!(compiled.namespaces(), vec![None, Some(name("A::B"))]);
    let def = ValidatorNamespaceDef::from_namespace_definition(None, &ns_def(vec![], vec![], vec![]), ActionBehavior::default())
        .unwrap();
    assert_eq!(def.namespace(), &None);
    let whole = ValidatorSchemaFragment::from_namespaces(vec![def]);
    assert_eq!(whole.namespaces(), vec![None]);
    assert!(ValidatorNamespaceDef::is_builtin_type_name("Record"));
    assert!(!ValidatorNamespaceDef::is_builtin_type_name("record"));
}

#[test]
fn the_ancestors_of_an_entity_type_are_those_it_descends_from() {
    let def = ns_def(
        vec![],
        vec![
            ("User", entity(&["Group", "Team"])),
            ("Group", entity(&["Org"])),
            ("Team", entity(&[])),
            ("Org", entity(&[])),
        ],
        vec![],
    );
    let schema = schema_of_def(def).unwrap();
    assert_eq!(schema.get_ancestors(&name("User")), vec![name("Group"), name("Team"), name("Org")]);
    assert_eq!(schema.get_ancestors(&name("Group")), vec![name("Org")]);
    assert_eq!(schema.get_ancestors(&name("Org")), Vec::<QualifiedName>::new());
    assert_eq!(schema.get_ancestors(&name("Nobody")), Vec::<QualifiedName>::new());
}
