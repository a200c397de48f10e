//! From the written forms to the compiled ones: written types are lifted,
//! the values of action attributes are typed, and the names in an action's
//! `appliesTo` and `memberOf` are parsed.

use vstd::prelude::*;
use vstd::string::StringExecFns;
use crate::deferred::{outcome_is, set_of, UnresolvedSpec, WithUnresolvedTypeDefs};
use crate::err::{SchemaError, SchemaErrorSpec, UnsupportedFeature};
use crate::fold::{lemma_try_fold_all, lemma_try_fold_error, lemma_try_fold_next, try_fold};
use crate::keys::{insert_member, put, with_member};
use crate::names::{
    action_type_base, name_of_text, parse_possibly_qualified_name_with_default_namespace,
    with_default_namespace, ActionId, ActionIdSpec, EntityTypeRef, EntityTypeRefSpec, NameSpec,
    QualifiedName,
};
use crate::namespace_def::ValidatorNamespaceDef;
use crate::parse::{parse_ident, parse_name, parsed_ident};
use crate::schema_file_format::{
    is_builtin_type_text, lemma_json_record_view, lemma_json_set_view, lemma_record_view,
    ActionEntityUID, ActionEntityUIDSpec, JsonValue, JsonValueSpec, SchemaType, SchemaTypeSpec,
    SchemaTypeVariant, TypeOfAttribute, TypeOfAttributeSpec,
};
use crate::types::{
    names_in_attrs, names_in_type, AttributeType, AttributeTypeSpec, Attributes, AttributesSpec,
    Primitive, Type, TypeSpec,
};

verus! {

/// What the written type `t` lifts to in a namespace with the path `ns`.
///
/// Primitive, entity and extension types are resolved at once, an entity
/// type's name taking the namespace where it has none of its own. A
/// reference to a common type stays a reference to its qualified name. A
/// record that allows further attributes is not supported.
pub open spec fn lifted(ns: Seq<Seq<char>>, t: SchemaTypeSpec) -> Result<
    UnresolvedSpec,
    SchemaErrorSpec,
>
    decreases t,
{
    match t {
        SchemaTypeSpec::String => Ok(
            UnresolvedSpec::Resolved(TypeSpec::Primitive(Primitive::String)),
        ),
        SchemaTypeSpec::Long => Ok(UnresolvedSpec::Resolved(TypeSpec::Primitive(Primitive::Long))),
        SchemaTypeSpec::Boolean => Ok(
            UnresolvedSpec::Resolved(TypeSpec::Primitive(Primitive::Bool)),
        ),
        SchemaTypeSpec::SetOf(element) => match lifted(ns, *element) {
            Ok(u) => Ok(set_of(u)),
            Err(e) => Err(e),
        },
        SchemaTypeSpec::Record { attributes, additional_attributes } => {
            if additional_attributes {
                Err(
                    SchemaErrorSpec::UnsupportedSchemaFeature(
                        UnsupportedFeature::OpenRecordsAndEntities,
                    ),
                )
            } else {
                match lifted_attrs(ns, attributes) {
                    Ok(a) => Ok(UnresolvedSpec::Record(a)),
                    Err(e) => Err(e),
                }
            }
        },
        SchemaTypeSpec::Entity(name) => match name_of_text(name) {
            Some(n) => Ok(
                UnresolvedSpec::Resolved(TypeSpec::Entity(seq![with_default_namespace(n, ns)])),
            ),
            None => Err(SchemaErrorSpec::EntityTypeParseError),
        },
        SchemaTypeSpec::Extension(name) => match parsed_ident(name) {
            Some(id) => Ok(UnresolvedSpec::Resolved(TypeSpec::Extension(id))),
            None => Err(SchemaErrorSpec::ExtensionTypeParseError),
        },
        SchemaTypeSpec::TypeDef(name) => match name_of_text(name) {
            Some(n) => Ok(
                UnresolvedSpec::TypeDef { name: with_default_namespace(n, ns), written: name },
            ),
            None => Err(SchemaErrorSpec::CommonTypeParseError),
        },
    }
}

/// What the written attributes lift to: the error of the first whose type
/// does not lift, else each name with its lifted type and whether it is
/// required.
pub open spec fn lifted_attrs(ns: Seq<Seq<char>>, attrs: Seq<(Seq<char>, TypeOfAttributeSpec)>) -> Result<
    Seq<(Seq<char>, UnresolvedSpec, bool)>,
    SchemaErrorSpec,
>
    decreases attrs,
{
    if attrs.len() == 0 {
        Ok(Seq::empty())
    } else {
        match lifted_attrs(ns, attrs.drop_last()) {
            Err(e) => Err(e),
            Ok(acc) => match lifted(ns, attrs.last().1.ty) {
                Err(e) => Err(e),
                Ok(u) => Ok(acc.push((attrs.last().0, u, attrs.last().1.required))),
            },
        }
    }
}

/// The type of the value `v` of an action's attribute: a set has the type
/// of its first element, a record requires each of its attributes, and
/// an empty set or an escaped value has no type.
pub open spec fn json_type(v: JsonValueSpec) -> Result<TypeSpec, SchemaErrorSpec>
    decreases v,
{
    match v {
        JsonValueSpec::Bool(_) => Ok(TypeSpec::Primitive(Primitive::Bool)),
        JsonValueSpec::Long(_) => Ok(TypeSpec::Primitive(Primitive::Long)),
        JsonValueSpec::String(_) => Ok(TypeSpec::Primitive(Primitive::String)),
        JsonValueSpec::Record(r) => match json_attrs(r) {
            Ok(a) => Ok(TypeSpec::Record(a)),
            Err(e) => Err(e),
        },
        JsonValueSpec::SetOf(elements) => {
            if elements.len() == 0 {
                Err(SchemaErrorSpec::ActionEntityAttributeEmptySet)
            } else {
                match json_type(elements[0]) {
                    Ok(t) => Ok(TypeSpec::SetOf(Some(Box::new(t)))),
                    Err(e) => Err(e),
                }
            }
        },
        _ => Err(SchemaErrorSpec::ActionEntityAttributeUnsupportedType),
    }
}

/// The attributes that the members of a record of values stand for: the
/// error of the first value that has no type, else each name with the
/// type of its value, required.
pub open spec fn json_attrs(r: Seq<(Seq<char>, JsonValueSpec)>) -> Result<
    AttributesSpec,
    SchemaErrorSpec,
>
    decreases r,
{
    if r.len() == 0 {
        Ok(Seq::empty())
    } else {
        match json_attrs(r.drop_last()) {
            Err(e) => Err(e),
            Ok(acc) => match json_type(r.last().1) {
                Err(e) => Err(e),
                Ok(t) => Ok(
                    put(acc, r.last().0, AttributeTypeSpec { attr_type: t, is_required: true }),
                ),
            },
        }
    }
}

/// One step of reading a list of entity type names: the name is parsed,
/// qualified, and made a member.
pub open spec fn apply_list_step(ns: Seq<Seq<char>>) -> spec_fn(
    Seq<EntityTypeRefSpec>,
    Seq<char>,
) -> Result<Seq<EntityTypeRefSpec>, SchemaErrorSpec> {
    |acc: Seq<EntityTypeRefSpec>, s: Seq<char>|
        match name_of_text(s) {
            Some(n) => Ok(with_member(acc, EntityTypeRefSpec::Concrete(with_default_namespace(n, ns)))),
            None => Err(SchemaErrorSpec::EntityTypeParseError),
        }
}

/// The entity types that a list of an action's `appliesTo` stands for: the
/// unspecified entity type alone where the list is left out, else the
/// listed names, parsed and qualified, each once.
pub open spec fn apply_list(ns: Seq<Seq<char>>, types: Option<Seq<Seq<char>>>) -> Result<
    Seq<EntityTypeRefSpec>,
    SchemaErrorSpec,
> {
    match types {
        None => Ok(seq![EntityTypeRefSpec::Unspecified]),
        Some(list) => try_fold(list, Seq::empty(), apply_list_step(ns)),
    }
}

/// The action that a written reference stands for in a namespace with the
/// path `ns`: of the written type where there is one, else of the
/// namespace's action type.
pub open spec fn action_id_of(ns: Seq<Seq<char>>, a: ActionEntityUIDSpec) -> Result<
    ActionIdSpec,
    SchemaErrorSpec,
> {
    match a.ty {
        Some(t) => match name_of_text(t) {
            Some(n) => Ok(ActionIdSpec { ty: n, id: a.id }),
            None => Err(SchemaErrorSpec::EntityTypeParseError),
        },
        None => Ok(action_in_namespace(ns, a.id)),
    }
}

/// The action `id` of the action type of the namespace with the path `ns`.
pub open spec fn action_in_namespace(ns: Seq<Seq<char>>, id: Seq<char>) -> ActionIdSpec {
    ActionIdSpec { ty: NameSpec { path: ns, base: action_type_base() }, id }
}

/// The type of a value names no entity type.
pub proof fn lemma_json_type_names(v: JsonValueSpec)
    ensures
        json_type(v) matches Ok(t) ==> names_in_type(t) == Set::<NameSpec>::empty(),
    decreases v,
{
    match v {
        JsonValueSpec::Record(r) => {
            lemma_json_attrs_names(r);
        },
        JsonValueSpec::SetOf(elements) => {
            if elements.len() > 0 {
                lemma_json_type_names(elements[0]);
            }
        },
        _ => {},
    }
}

/// The types of the values of a record name no entity type.
pub proof fn lemma_json_attrs_names(r: Seq<(Seq<char>, JsonValueSpec)>)
    ensures
        json_attrs(r) matches Ok(a) ==> names_in_attrs(a) == Set::<NameSpec>::empty(),
    decreases r,
{
    if r.len() > 0 {
        lemma_json_attrs_names(r.drop_last());
        lemma_json_type_names(r.last().1);
        if let Ok(acc) = json_attrs(r.drop_last()) {
            if let Ok(t) = json_type(r.last().1) {
                let v = AttributeTypeSpec { attr_type: t, is_required: true };
                crate::types::lemma_names_in_put(acc, r.last().0, v);
                assert(names_in_attrs(put(acc, r.last().0, v)) =~= Set::<NameSpec>::empty());
            }
        }
    }
}

/// Once the first attributes fail to lift, all of them fail with the same error.
proof fn lemma_lifted_attrs_error(
    ns: Seq<Seq<char>>,
    attrs: Seq<(Seq<char>, TypeOfAttributeSpec)>,
    n: int,
)
    requires
        0 <= n <= attrs.len(),
        lifted_attrs(ns, attrs.take(n)) is Err,
    ensures
        lifted_attrs(ns, attrs) == lifted_attrs(ns, attrs.take(n)),
    decreases attrs.len() - n,
{
    if n == attrs.len() {
        assert(attrs.take(n) =~= attrs);
    } else {
        let t = attrs.take(n + 1);
        assert(t.drop_last() =~= attrs.take(n));
        lemma_lifted_attrs_error(ns, attrs, n + 1);
    }
}

/// Once the first members have no type, the record has none, with the same error.
proof fn lemma_json_attrs_error(r: Seq<(Seq<char>, JsonValueSpec)>, n: int)
    requires
        0 <= n <= r.len(),
        json_attrs(r.take(n)) is Err,
    ensures
        json_attrs(r) == json_attrs(r.take(n)),
    decreases r.len() - n,
{
    if n == r.len() {
        assert(r.take(n) =~= r);
    } else {
        let t = r.take(n + 1);
        assert(t.drop_last() =~= r.take(n));
        lemma_json_attrs_error(r, n + 1);
    }
}

impl ValidatorNamespaceDef {
    /// Whether `name` is the name of a built-in form of a written type.
    pub fn is_builtin_type_name(name: &str) -> (r: bool)
        ensures
            r == is_builtin_type_text(name@),
    {
        let n = String::from_str(name);
        n == String::from_str("String") || n == String::from_str("Long") || n == String::from_str(
            "Boolean",
        ) || n == String::from_str("Set") || n == String::from_str("Record") || n
            == String::from_str("Entity") || n == String::from_str("Extension")
    }

    /// Lifts a written type to the form in which its references to common
    /// types can be resolved.
    pub fn try_schema_type_into_validator_type(
        default_namespace: &Vec<String>,
        schema_ty: &SchemaType,
    ) -> (r: Result<WithUnresolvedTypeDefs, SchemaError>)
        ensures
            outcome_is(r, lifted(default_namespace.deep_view(), schema_ty@)),
        decreases *schema_ty,
    {
        match schema_ty {
            SchemaType::Type(SchemaTypeVariant::String) => Ok(
                WithUnresolvedTypeDefs::WithoutUnresolved(Type::primitive_string()),
            ),
            SchemaType::Type(SchemaTypeVariant::Long) => Ok(
                WithUnresolvedTypeDefs::WithoutUnresolved(Type::primitive_long()),
            ),
            SchemaType::Type(SchemaTypeVariant::Boolean) => Ok(
                WithUnresolvedTypeDefs::WithoutUnresolved(Type::primitive_boolean()),
            ),
            SchemaType::Type(SchemaTypeVariant::SetOf { element }) => {
                match Self::try_schema_type_into_validator_type(default_namespace, element) {
                    Ok(u) => Ok(u.set_of()),
                    Err(e) => Err(e),
                }
            },
            SchemaType::Type(SchemaTypeVariant::Record { attributes, additional_attributes }) => {
                if *additional_attributes {
                    Err(
                        SchemaError::UnsupportedSchemaFeature(
                            UnsupportedFeature::OpenRecordsAndEntities,
                        ),
                    )
                } else {
                    proof {
                        lemma_record_view(*attributes, *additional_attributes);
                    }
                    match Self::parse_record_attributes(default_namespace, attributes) {
                        Ok(attrs) => {
                            let r = WithUnresolvedTypeDefs::Record(attrs);
                            assert(r@->Record_0 =~= attrs.deep_view());
                            Ok(r)
                        },
                        Err(e) => Err(e),
                    }
                }
            },
            SchemaType::Type(SchemaTypeVariant::Entity { name }) => {
                match parse_possibly_qualified_name_with_default_namespace(
                    name.as_str(),
                    default_namespace,
                ) {
                    Ok(n) => Ok(
                        WithUnresolvedTypeDefs::WithoutUnresolved(Type::named_entity_reference(n)),
                    ),
                    Err(e) => Err(SchemaError::EntityTypeParseError(e)),
                }
            },
            SchemaType::Type(SchemaTypeVariant::Extension { name }) => {
                match parse_ident(name.as_str()) {
                    Ok(id) => Ok(WithUnresolvedTypeDefs::WithoutUnresolved(Type::extension(id))),
                    Err(e) => Err(SchemaError::ExtensionTypeParseError(e)),
                }
            },
            SchemaType::TypeDef { name } => {
                match parse_possibly_qualified_name_with_default_namespace(
                    name.as_str(),
                    default_namespace,
                ) {
                    Ok(n) => Ok(WithUnresolvedTypeDefs::new(n, name.clone())),
                    Err(e) => Err(SchemaError::CommonTypeParseError(e)),
                }
            },
        }
    }

    /// Lifts the types of the written attributes of a record.
    pub fn parse_record_attributes(
        schema_namespace: &Vec<String>,
        attrs: &Vec<(String, TypeOfAttribute)>,
    ) -> (r: Result<Vec<(String, WithUnresolvedTypeDefs, bool)>, SchemaError>)
        ensures
            outcome_is(r, lifted_attrs(schema_namespace.deep_view(), attrs.deep_view())),
        decreases *attrs,
    {
        let ghost items = attrs.deep_view();
        let mut out: Vec<(String, WithUnresolvedTypeDefs, bool)> = Vec::new();
        assert(out.deep_view() =~= Seq::empty());
        assert(items.take(0) =~= Seq::empty());
        let mut i: usize = 0;
        while i < attrs.len()
            invariant
                i <= attrs.len(),
                items == attrs.deep_view(),
                lifted_attrs(schema_namespace.deep_view(), items.take(i as int)) == Ok::<
                    Seq<(Seq<char>, UnresolvedSpec, bool)>,
                    SchemaErrorSpec,
                >(out.deep_view()),
            decreases attrs.len() - i,
        {
            let ghost before = out.deep_view();
            proof {
                let t = items.take(i + 1);
                assert(t.drop_last() =~= items.take(i as int));
                assert(t.last() == (attrs[i as int].0@, attrs[i as int].1@));
            }
            match Self::try_schema_type_into_validator_type(schema_namespace, &attrs[i].1.ty) {
                Ok(u) => {
                    out.push((attrs[i].0.clone(), u, attrs[i].1.required));
                    assert(out.deep_view() =~= before.push(
                        (attrs[i as int].0@, u@, attrs[i as int].1.required),
                    ));
                },
                Err(e) => {
                    proof {
                        lemma_lifted_attrs_error(schema_namespace.deep_view(), items, i + 1);
                    }
                    return Err(e);
                },
            }
            i += 1;
        }
        assert(items.take(attrs.len() as int) =~= items);
        Ok(out)
    }

    /// The type of the value of an action's attribute.
    pub fn jsonval_to_type_helper(v: &JsonValue) -> (r: Result<Type, SchemaError>)
        ensures
            outcome_is(r, json_type(v@)),
        decreases *v,
    {
        match v {
            JsonValue::Bool(_) => Ok(Type::primitive_boolean()),
            JsonValue::Long(_) => Ok(Type::primitive_long()),
            JsonValue::String(_) => Ok(Type::primitive_string()),
            JsonValue::Record(r) => {
                proof {
                    lemma_json_record_view(*r);
                }
                match Self::convert_attr_jsonval_map_to_attributes(r) {
                    Ok(attrs) => Ok(Type::record_with_attributes(attrs)),
                    Err(e) => Err(e),
                }
            },
            JsonValue::SetOf(elements) => {
                proof {
                    lemma_json_set_view(*elements);
                }
                if elements.len() == 0 {
                    Err(SchemaError::ActionEntityAttributeEmptySet)
                } else {
                    assert(elements.deep_view()[0] == elements[0]@);
                    match Self::jsonval_to_type_helper(&elements[0]) {
                        Ok(t) => Ok(Type::set(t)),
                        Err(e) => Err(e),
                    }
                }
            },
            _ => Err(SchemaError::ActionEntityAttributeUnsupportedType),
        }
    }

    /// The attributes that a record of values stands for.
    pub fn convert_attr_jsonval_map_to_attributes(m: &Vec<(String, JsonValue)>) -> (r: Result<
        Attributes,
        SchemaError,
    >)
        ensures
            outcome_is(r, json_attrs(m.deep_view())),
        decreases *m,
    {
        let ghost items = m.deep_view();
        let mut out = Attributes { attrs: Vec::new() };
        assert(out@ =~= Seq::empty());
        assert(items.take(0) =~= Seq::empty());
        let mut i: usize = 0;
        while i < m.len()
            invariant
                i <= m.len(),
                items == m.deep_view(),
                json_attrs(items.take(i as int)) == Ok::<AttributesSpec, SchemaErrorSpec>(out@),
            decreases m.len() - i,
        {
            proof {
                let t = items.take(i + 1);
                assert(t.drop_last() =~= items.take(i as int));
                assert(t.last() == (m[i as int].0@, m[i as int].1@));
            }
            match Self::jsonval_to_type_helper(&m[i].1) {
                Ok(t) => {
                    out.insert(m[i].0.clone(), AttributeType::new(t, true));
                },
                Err(e) => {
                    proof {
                        lemma_json_attrs_error(items, i + 1);
                    }
                    return Err(e);
                },
            }
            i += 1;
        }
        assert(items.take(m.len() as int) =~= items);
        Ok(out)
    }

    /// The entity types that a list of an action's `appliesTo` stands for.
    pub fn parse_apply_spec_type_list(types: &Option<Vec<String>>, namespace: &Vec<String>) -> (r:
        Result<Vec<EntityTypeRef>, SchemaError>)
        ensures
            outcome_is(r, apply_list(namespace.deep_view(), types.deep_view())),
    {
        match types {
            None => {
                let mut out: Vec<EntityTypeRef> = Vec::new();
                out.push(EntityTypeRef::Unspecified);
                assert(out.deep_view() =~= seq![EntityTypeRefSpec::Unspecified]);
                Ok(out)
            },
            Some(list) => {
                let ghost step = apply_list_step(namespace.deep_view());
                let ghost items = list.deep_view();
                let mut out: Vec<EntityTypeRef> = Vec::new();
                assert(out.deep_view() =~= Seq::empty());
                let mut i: usize = 0;
                while i < list.len()
                    invariant
                        i <= list.len(),
                        *types == Some(*list),
                        items == list.deep_view(),
                        step == apply_list_step(namespace.deep_view()),
                        try_fold(items.take(i as int), Seq::empty(), step) == Ok::<
                            Seq<EntityTypeRefSpec>,
                            SchemaErrorSpec,
                        >(out.deep_view()),
                    decreases list.len() - i,
                {
                    proof {
                        lemma_try_fold_next(items, Seq::empty(), step, i as int);
                        assert(items[i as int] == list[i as int]@);
                    }
                    match parse_possibly_qualified_name_with_default_namespace(
                        list[i].as_str(),
                        namespace,
                    ) {
                        Ok(n) => {
                            insert_member(&mut out, EntityTypeRef::Concrete(n));
                        },
                        Err(e) => {
                            proof {
                                lemma_try_fold_error(items, Seq::empty(), step, i + 1);
                            }
                            return Err(SchemaError::EntityTypeParseError(e));
                        },
                    }
                    i += 1;
                }
                proof {
                    lemma_try_fold_all(items, Seq::empty(), step);
                }
                Ok(out)
            },
        }
    }

    /// The action that a written reference stands for.
    pub fn parse_action_id_with_namespace(action_id: &ActionEntityUID, namespace: Vec<String>) -> (r:
        Result<ActionId, SchemaError>)
        ensures
            outcome_is(r, action_id_of(namespace.deep_view(), action_id@)),
    {
        match &action_id.ty {
            Some(t) => {
                match parse_name(t.as_str()) {
                    Ok(n) => Ok(ActionId::from_components(n, action_id.id.clone())),
                    Err(e) => Err(SchemaError::EntityTypeParseError(e)),
                }
            },
            None => Ok(
                ActionId::from_components(
                    QualifiedName::new(String::from_str("Action"), namespace),
                    action_id.id.clone(),
                ),
            ),
        }
    }
}

} // verus!
