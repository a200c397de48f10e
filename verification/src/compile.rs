//! Compiling one namespace of a schema fragment.

use vstd::prelude::*;
use vstd::string::StringExecFns;
use crate::conversion::{
    action_id_of, action_in_namespace, apply_list, json_attrs, lemma_json_attrs_names, lifted,
};
use crate::deferred::{outcome_is, resolved, UnresolvedSpec, WithUnresolvedTypeDefs};
use crate::err::{SchemaError, SchemaErrorSpec};
use crate::fold::{lemma_try_fold_all, lemma_try_fold_error, lemma_try_fold_next, try_fold};
use crate::keys::{
    add_child, clone_keys, contains, distinct_keys, find, has_key, insert_child,
    lemma_add_child_members,
};
use crate::names::{
    action_type_base, is_action_entity_type, namespace_of_text, parse_namespace,
    parse_possibly_qualified_name_with_default_namespace, parse_unqualified_name_with_namespace,
    name_of_text, with_default_namespace, ActionId, ActionIdSpec, NameSpec, QualifiedName,
};
use crate::namespace_def::{
    attributes_name_nothing, avoids_builtin_names, declares_no_action_type, ActionBehavior, ActionsDef, ActionsDefSpec, ApplySpecSpec,
    EntityTypesDef, EntityTypesDefSpec, NamespaceDefSpec, TypeDefs, ValidatorApplySpec,
    ValidatorNamespaceDef,
};
use crate::parse::parsed_ident;
use crate::schema_file_format::{
    is_builtin_type_text, ActionEntityUIDSpec, ActionType, ActionTypeSpec, EntityType,
    EntityTypeSpec, NamespaceDefinition, NamespaceDefinitionSpec, SchemaType, SchemaTypeSpec,
};
use crate::types::{names_in_attrs, Attributes, AttributesSpec, Type, TypeSpec};

verus! {

/// The names under which the entries are listed.
pub open spec fn entry_names<X>(entries: Seq<(Seq<char>, X)>) -> Seq<Seq<char>> {
    entries.map_values(|e: (Seq<char>, X)| e.0)
}

/// The first name that repeats a name before it, where there is one.
pub open spec fn first_duplicate(names: Seq<Seq<char>>) -> Option<Seq<char>>
    decreases names.len(),
{
    if names.len() == 0 {
        None
    } else {
        match first_duplicate(names.drop_last()) {
            Some(d) => Some(d),
            None => if names.drop_last().contains(names.last()) {
                Some(names.last())
            } else {
                None
            },
        }
    }
}

/// An entity type is declared under the name that is kept for actions.
pub open spec fn declares_action_type(entity_types: Seq<(Seq<char>, EntityTypeSpec)>) -> bool {
    exists|i: int|
        0 <= i < entity_types.len() && (#[trigger] entity_types[i]).0 == action_type_base()
}

/// The names of the actions that declare attributes, in order.
pub open spec fn names_with_attributes(actions: Seq<(Seq<char>, ActionTypeSpec)>) -> Seq<
    Seq<char>,
>
    decreases actions.len(),
{
    if actions.len() == 0 {
        Seq::empty()
    } else if actions.last().1.attributes is Some {
        names_with_attributes(actions.drop_last()).push(actions.last().0)
    } else {
        names_with_attributes(actions.drop_last())
    }
}

/// What the declarations are refused for before anything is converted: an
/// entity type with the name that is kept for actions, or, where actions may
/// carry no attributes, the actions that declare some.
pub open spec fn behavior_error(def: NamespaceDefinitionSpec, behavior: ActionBehavior) -> Option<
    SchemaErrorSpec,
> {
    if declares_action_type(def.entity_types) {
        Some(SchemaErrorSpec::ActionEntityTypeDeclared)
    } else if behavior == ActionBehavior::ProhibitAttributes && names_with_attributes(
        def.actions,
    ).len() > 0 {
        Some(SchemaErrorSpec::ActionEntityAttributes(names_with_attributes(def.actions)))
    } else {
        None
    }
}

/// One step of compiling the common types: neither the name as written
/// nor the identifier that it parses to may be a built-in name, the type
/// must lift and must resolve with no common type known, and the qualified
/// name must be new.
pub open spec fn type_def_step(ns: Seq<Seq<char>>) -> spec_fn(
    Seq<(NameSpec, TypeSpec)>,
    (Seq<char>, SchemaTypeSpec),
) -> Result<Seq<(NameSpec, TypeSpec)>, SchemaErrorSpec> {
    |acc: Seq<(NameSpec, TypeSpec)>, e: (Seq<char>, SchemaTypeSpec)|
        if is_builtin_type_text(e.0) {
            Err(SchemaErrorSpec::DuplicateCommonType(e.0))
        } else {
            match parsed_ident(e.0) {
                None => Err(SchemaErrorSpec::CommonTypeParseError),
                Some(id) => if is_builtin_type_text(id) {
                    Err(SchemaErrorSpec::DuplicateCommonType(e.0))
                } else {
                    match lifted(ns, e.1) {
                        Err(x) => Err(x),
                        Ok(u) => match resolved(u, Seq::empty()) {
                            Err(x) => Err(x),
                            Ok(t) => if has_key(acc, NameSpec { path: ns, base: id }) {
                                Err(SchemaErrorSpec::DuplicateCommonType(e.0))
                            } else {
                                Ok(acc.push((NameSpec { path: ns, base: id }, t)))
                            },
                        },
                    }
                },
            }
        }
}

/// The common types that the written definitions `common` compile to in a
/// namespace with the path `ns`.
pub open spec fn type_defs_of(ns: Seq<Seq<char>>, common: Seq<(Seq<char>, SchemaTypeSpec)>) -> Result<
    Seq<(NameSpec, TypeSpec)>,
    SchemaErrorSpec,
> {
    try_fold(common, Seq::empty(), type_def_step(ns))
}

/// Appending an entry under a new key keeps the keys distinct.
pub proof fn lemma_push_distinct<A, B>(s: Seq<(A, B)>, k: A, v: B)
    requires
        distinct_keys(s),
        !has_key(s, k),
    ensures
        distinct_keys(s.push((k, v))),
        forall|x: A| has_key(s.push((k, v)), x) <==> x == k || has_key(s, x),
{
    let t = s.push((k, v));
    assert forall|a: int, b: int| 0 <= a < b < t.len() implies (#[trigger] t[a]).0 != (
    #[trigger] t[b]).0 by {
        if b < s.len() {
            assert(s[a].0 != s[b].0);
        } else {
            assert(s[a].0 != k);
        }
    }
    assert forall|x: A| has_key(t, x) <==> x == k || has_key(s, x) by {
        if has_key(t, x) && x != k {
            let j = choose|j: int| 0 <= j < t.len() && (#[trigger] t[j]).0 == x;
            assert(s[j].0 == x);
        }
        if has_key(s, x) {
            let j = choose|j: int| 0 <= j < s.len() && (#[trigger] s[j]).0 == x;
            assert(t[j].0 == x);
        }
        if x == k {
            assert(t[s.len() as int].0 == k);
        }
    }
}

/// The first name among the entries that repeats a name before it.
pub fn find_duplicate<X: DeepView>(entries: &Vec<(String, X)>) -> (r: Option<String>)
    ensures
        r.deep_view() == first_duplicate(entry_names(entries.deep_view())),
{
    let mut seen: Vec<String> = Vec::new();
    assert(seen.deep_view() =~= entry_names(entries.deep_view()).take(0));
    let mut i: usize = 0;
    while i < entries.len()
        invariant
            i <= entries.len(),
            seen.deep_view() == entry_names(entries.deep_view()).take(i as int),
            first_duplicate(entry_names(entries.deep_view()).take(i as int)) is None,
        decreases entries.len() - i,
    {
        let ghost names = entry_names(entries.deep_view());
        proof {
            let t = names.take(i + 1);
            assert(t.drop_last() =~= names.take(i as int));
            assert(t.last() == entries[i as int].0@);
        }
        if contains(&seen, &entries[i].0) {
            proof {
                lemma_first_duplicate_prefix(names, i + 1);
            }
            return Some(entries[i].0.clone());
        }
        let ghost before = seen.deep_view();
        seen.push(entries[i].0.clone());
        assert(seen.deep_view() =~= before.push(entries[i as int].0@));
        assert(seen.deep_view() =~= names.take(i + 1));
        i += 1;
    }
    assert(entry_names(entries.deep_view()).take(entries.len() as int) =~= entry_names(entries.deep_view()));
    None
}

/// The first duplicate of a prefix is the first duplicate of the whole.
pub proof fn lemma_first_duplicate_prefix(names: Seq<Seq<char>>, n: int)
    requires
        0 <= n <= names.len(),
        first_duplicate(names.take(n)) is Some,
    ensures
        first_duplicate(names) == first_duplicate(names.take(n)),
    decreases names.len() - n,
{
    if n == names.len() {
        assert(names.take(n) =~= names);
    } else {
        let t = names.take(n + 1);
        assert(t.drop_last() =~= names.take(n));
        lemma_first_duplicate_prefix(names, n + 1);
    }
}

impl ValidatorNamespaceDef {
    /// Refuses an entity type with the name that is kept for actions, and,
    /// where actions may carry no attributes, actions that declare some.
    pub fn check_action_behavior(schema_file: &NamespaceDefinition, action_behavior: ActionBehavior) -> (r:
        Result<(), SchemaError>)
        ensures
            match behavior_error(schema_file@, action_behavior) {
                Some(e) => r is Err && r->Err_0@ == e && r->Err_0.wf(),
                None => r is Ok,
            },
    {
        let action = String::from_str("Action");
        let mut i: usize = 0;
        while i < schema_file.entity_types.len()
            invariant
                i <= schema_file.entity_types.len(),
                action@ == action_type_base(),
                forall|j: int| 0 <= j < i ==> (#[trigger] schema_file.entity_types[j]).0@ != action_type_base(),
            decreases schema_file.entity_types.len() - i,
        {
            if schema_file.entity_types[i].0 == action {
                assert(schema_file@.entity_types[i as int].0 == action_type_base());
                return Err(SchemaError::ActionEntityTypeDeclared);
            }
            i += 1;
        }
        match action_behavior {
            ActionBehavior::ProhibitAttributes => {
                let mut actions_with_attributes: Vec<String> = Vec::new();
                assert(actions_with_attributes.deep_view() =~= Seq::empty());
                let mut k: usize = 0;
                while k < schema_file.actions.len()
                    invariant
                        k <= schema_file.actions.len(),
                        actions_with_attributes.deep_view() == names_with_attributes(
                            schema_file@.actions.take(k as int),
                        ),
                    decreases schema_file.actions.len() - k,
                {
                    proof {
                        let t = schema_file@.actions.take(k + 1);
                        assert(t.drop_last() =~= schema_file@.actions.take(k as int));
                        assert(t.last() == (
                            schema_file.actions[k as int].0@,
                            schema_file.actions[k as int].1@,
                        ));
                    }
                    let ghost before = actions_with_attributes.deep_view();
                    if schema_file.actions[k].1.attributes.is_some() {
                        actions_with_attributes.push(schema_file.actions[k].0.clone());
                        assert(actions_with_attributes.deep_view() =~= before.push(
                            schema_file.actions[k as int].0@,
                        ));
                    }
                    k += 1;
                }
                assert(schema_file@.actions.take(schema_file.actions.len() as int)
                    =~= schema_file@.actions);
                if actions_with_attributes.len() > 0 {
                    return Err(SchemaError::ActionEntityAttributes(actions_with_attributes));
                }
                Ok(())
            },
            ActionBehavior::PermitAttributes => Ok(()),
        }
    }

    /// Compiles the common types that a namespace defines.
    pub fn build_type_defs(
        schema_file_type_def: &Vec<(String, SchemaType)>,
        schema_namespace: &Vec<String>,
    ) -> (r: Result<TypeDefs, SchemaError>)
        ensures
            outcome_is(
                r,
                type_defs_of(schema_namespace.deep_view(), schema_file_type_def.deep_view()),
            ),
    {
        let ghost ns = schema_namespace.deep_view();
        let ghost step = type_def_step(ns);
        let ghost items = schema_file_type_def.deep_view();
        let nothing: Vec<(QualifiedName, Type)> = Vec::new();
        assert(nothing.deep_view() =~= Seq::empty());
        let mut out: Vec<(QualifiedName, Type)> = Vec::new();
        assert(out.deep_view() =~= Seq::empty());
        let mut i: usize = 0;
        while i < schema_file_type_def.len()
            invariant
                i <= schema_file_type_def.len(),
                ns == schema_namespace.deep_view(),
                step == type_def_step(ns),
                items == schema_file_type_def.deep_view(),
                nothing.deep_view() == Seq::<(NameSpec, TypeSpec)>::empty(),
                distinct_keys(out.deep_view()),
                avoids_builtin_names(out.deep_view()),
                try_fold(items.take(i as int), Seq::empty(), step) == Ok::<
                    Seq<(NameSpec, TypeSpec)>,
                    SchemaErrorSpec,
                >(out.deep_view()),
            decreases schema_file_type_def.len() - i,
        {
            proof {
                lemma_try_fold_next(items, Seq::empty(), step, i as int);
                lemma_try_fold_error(items, Seq::empty(), step, i + 1);
                assert(items[i as int] == (
                    schema_file_type_def[i as int].0@,
                    schema_file_type_def[i as int].1@,
                ));
            }
            let name_str = &schema_file_type_def[i].0;
            if Self::is_builtin_type_name(name_str.as_str()) {
                return Err(SchemaError::DuplicateCommonType(name_str.clone()));
            }
            let name = match parse_unqualified_name_with_namespace(
                name_str.as_str(),
                clone_keys(schema_namespace),
            ) {
                Ok(n) => n,
                Err(e) => {
                    return Err(SchemaError::CommonTypeParseError(e));
                },
            };
            if Self::is_builtin_type_name(name.base.as_str()) {
                return Err(SchemaError::DuplicateCommonType(name_str.clone()));
            }
            let lifted_ty = match Self::try_schema_type_into_validator_type(
                schema_namespace,
                &schema_file_type_def[i].1,
            ) {
                Ok(u) => u,
                Err(e) => {
                    return Err(e);
                },
            };
            let ty = match lifted_ty.resolve_type_defs(&nothing) {
                Ok(t) => t,
                Err(e) => {
                    return Err(e);
                },
            };
            if find(&out, &name).is_some() {
                return Err(SchemaError::DuplicateCommonType(name_str.clone()));
            }
            let ghost before = out.deep_view();
            proof {
                lemma_push_distinct(before, name@, ty@);
            }
            out.push((name, ty));
            proof {
                assert(out.deep_view() =~= before.push((name@, ty@)));
                assert forall|k: int| 0 <= k < out.len() implies !is_builtin_type_text(
                    (#[trigger] out.deep_view()[k]).0.base,
                ) by {
                    if k < before.len() {
                        assert(out.deep_view()[k] == before[k]);
                    }
                }
            }
            i += 1;
        }
        proof {
            lemma_try_fold_all(items, Seq::empty(), step);
        }
        Ok(TypeDefs::from_entries(out))
    }
}

/// The name that the identifier `text` has in the namespace with the path `ns`.
pub open spec fn qualified_ident(ns: Seq<Seq<char>>, text: Seq<char>) -> Option<NameSpec> {
    match parsed_ident(text) {
        Some(id) => Some(NameSpec { path: ns, base: id }),
        None => None,
    }
}

/// One step of listing the children of entity types: the entity type that
/// is declared as `name` becomes a child of the parent that `parent` names.
pub open spec fn entity_parent_step(ns: Seq<Seq<char>>, name: Seq<char>) -> spec_fn(
    Seq<(NameSpec, Seq<NameSpec>)>,
    Seq<char>,
) -> Result<Seq<(NameSpec, Seq<NameSpec>)>, SchemaErrorSpec> {
    |acc: Seq<(NameSpec, Seq<NameSpec>)>, parent: Seq<char>|
        match name_of_text(parent) {
            None => Err(SchemaErrorSpec::EntityTypeParseError),
            Some(p) => match qualified_ident(ns, name) {
                None => Err(SchemaErrorSpec::EntityTypeParseError),
                Some(c) => Ok(add_child(acc, with_default_namespace(p, ns), c)),
            },
        }
}

/// One step of listing the children of entity types: a declared entity
/// type becomes a child of each of its parents.
pub open spec fn entity_children_step(ns: Seq<Seq<char>>) -> spec_fn(
    Seq<(NameSpec, Seq<NameSpec>)>,
    (Seq<char>, EntityTypeSpec),
) -> Result<Seq<(NameSpec, Seq<NameSpec>)>, SchemaErrorSpec> {
    |acc: Seq<(NameSpec, Seq<NameSpec>)>, e: (Seq<char>, EntityTypeSpec)|
        try_fold(e.1.member_of_types, acc, entity_parent_step(ns, e.0))
}

/// One step of compiling the declarations of entity types: the name must
/// parse, to another identifier than the one that is kept for actions, and
/// be new, and the shape must lift.
pub open spec fn entity_attributes_step(ns: Seq<Seq<char>>) -> spec_fn(
    Seq<(NameSpec, UnresolvedSpec)>,
    (Seq<char>, EntityTypeSpec),
) -> Result<Seq<(NameSpec, UnresolvedSpec)>, SchemaErrorSpec> {
    |acc: Seq<(NameSpec, UnresolvedSpec)>, e: (Seq<char>, EntityTypeSpec)|
        match qualified_ident(ns, e.0) {
            None => Err(SchemaErrorSpec::EntityTypeParseError),
            Some(n) => if n.base == action_type_base() {
                Err(SchemaErrorSpec::ActionEntityTypeDeclared)
            } else {
                match lifted(ns, e.1.shape) {
                    Err(x) => Err(x),
                    Ok(u) => if has_key(acc, n) {
                        Err(SchemaErrorSpec::DuplicateEntityType(e.0))
                    } else {
                        Ok(acc.push((n, u)))
                    },
                }
            },
        }
}

/// What the declarations of entity types compile to in a namespace with the
/// path `ns`: the lists of children first, then the declarations.
pub open spec fn entity_types_of(
    ns: Seq<Seq<char>>,
    declared: Seq<(Seq<char>, EntityTypeSpec)>,
) -> Result<
    EntityTypesDefSpec,
    SchemaErrorSpec,
> {
    match try_fold(declared, Seq::empty(), entity_children_step(ns)) {
        Err(e) => Err(e),
        Ok(children) => match try_fold(declared, Seq::empty(), entity_attributes_step(ns)) {
            Err(e) => Err(e),
            Ok(attributes) => Ok(EntityTypesDefSpec { attributes, children }),
        },
    }
}

/// One step of listing the children of actions: the action that is
/// declared as `name` becomes a child of the action that `parent` refers to.
pub open spec fn action_parent_step(ns: Seq<Seq<char>>, name: Seq<char>) -> spec_fn(
    Seq<(ActionIdSpec, Seq<ActionIdSpec>)>,
    ActionEntityUIDSpec,
) -> Result<Seq<(ActionIdSpec, Seq<ActionIdSpec>)>, SchemaErrorSpec> {
    |acc: Seq<(ActionIdSpec, Seq<ActionIdSpec>)>, parent: ActionEntityUIDSpec|
        match action_id_of(ns, parent) {
            Err(e) => Err(e),
            Ok(p) => Ok(add_child(acc, p, action_in_namespace(ns, name))),
        }
}

/// One step of listing the children of actions: a declared action becomes
/// a child of each action that it is a member of.
pub open spec fn action_children_step(ns: Seq<Seq<char>>) -> spec_fn(
    Seq<(ActionIdSpec, Seq<ActionIdSpec>)>,
    (Seq<char>, ActionTypeSpec),
) -> Result<Seq<(ActionIdSpec, Seq<ActionIdSpec>)>, SchemaErrorSpec> {
    |acc: Seq<(ActionIdSpec, Seq<ActionIdSpec>)>, e: (Seq<char>, ActionTypeSpec)|
        match e.1.member_of {
            None => Ok(acc),
            Some(parents) => try_fold(parents, acc, action_parent_step(ns, e.0)),
        }
}

/// The principals that an action applies to.
pub open spec fn principals_of(ns: Seq<Seq<char>>, a: ActionTypeSpec) -> Result<
    Seq<crate::names::EntityTypeRefSpec>,
    SchemaErrorSpec,
> {
    match a.applies_to {
        Some(ap) => apply_list(ns, ap.principal_types),
        None => apply_list(ns, None),
    }
}

/// The resources that an action applies to.
pub open spec fn resources_of(ns: Seq<Seq<char>>, a: ActionTypeSpec) -> Result<
    Seq<crate::names::EntityTypeRefSpec>,
    SchemaErrorSpec,
> {
    match a.applies_to {
        Some(ap) => apply_list(ns, ap.resource_types),
        None => apply_list(ns, None),
    }
}

/// The context of an action, lifted; the record without attributes where
/// the action declares none.
pub open spec fn context_of(ns: Seq<Seq<char>>, a: ActionTypeSpec) -> Result<
    UnresolvedSpec,
    SchemaErrorSpec,
> {
    match a.applies_to {
        Some(ap) => lifted(ns, ap.context),
        None => Ok(UnresolvedSpec::Record(Seq::empty())),
    }
}

/// One step of compiling the declarations of actions: the principals, the
/// resources and the context must convert, in this order, and the action
/// must be new.
pub open spec fn action_context_step(ns: Seq<Seq<char>>) -> spec_fn(
    Seq<(ActionIdSpec, (UnresolvedSpec, ApplySpecSpec))>,
    (Seq<char>, ActionTypeSpec),
) -> Result<Seq<(ActionIdSpec, (UnresolvedSpec, ApplySpecSpec))>, SchemaErrorSpec> {
    |acc: Seq<(ActionIdSpec, (UnresolvedSpec, ApplySpecSpec))>, e: (Seq<char>, ActionTypeSpec)|
        match principals_of(ns, e.1) {
            Err(x) => Err(x),
            Ok(principals) => match resources_of(ns, e.1) {
                Err(x) => Err(x),
                Ok(resources) => match context_of(ns, e.1) {
                    Err(x) => Err(x),
                    Ok(u) => if has_key(acc, action_in_namespace(ns, e.0)) {
                        Err(SchemaErrorSpec::DuplicateAction(e.0))
                    } else {
                        Ok(
                            acc.push(
                                (
                                    action_in_namespace(ns, e.0),
                                    (u, ApplySpecSpec { principals, resources }),
                                ),
                            ),
                        )
                    },
                },
            },
        }
}

/// The attributes that an action declares, typed; none where it declares none.
pub open spec fn attributes_of_action(a: ActionTypeSpec) -> Result<AttributesSpec, SchemaErrorSpec> {
    match a.attributes {
        Some(m) => json_attrs(m),
        None => Ok(Seq::empty()),
    }
}

/// One step of typing the attributes of actions.
pub open spec fn action_attributes_step(ns: Seq<Seq<char>>) -> spec_fn(
    Seq<(ActionIdSpec, AttributesSpec)>,
    (Seq<char>, ActionTypeSpec),
) -> Result<Seq<(ActionIdSpec, AttributesSpec)>, SchemaErrorSpec> {
    |acc: Seq<(ActionIdSpec, AttributesSpec)>, e: (Seq<char>, ActionTypeSpec)|
        match attributes_of_action(e.1) {
            Err(x) => Err(x),
            Ok(a) => Ok(acc.push((action_in_namespace(ns, e.0), a))),
        }
}

/// What the declarations of actions compile to in a namespace with the
/// path `ns`: the lists of children first, then the declarations, then the
/// attributes.
pub open spec fn actions_of(ns: Seq<Seq<char>>, declared: Seq<(Seq<char>, ActionTypeSpec)>) -> Result<
    ActionsDefSpec,
    SchemaErrorSpec,
> {
    match try_fold(declared, Seq::empty(), action_children_step(ns)) {
        Err(e) => Err(e),
        Ok(children) => match try_fold(declared, Seq::empty(), action_context_step(ns)) {
            Err(e) => Err(e),
            Ok(context_applies_to) => match try_fold(
                declared,
                Seq::empty(),
                action_attributes_step(ns),
            ) {
                Err(e) => Err(e),
                Ok(attributes) => Ok(ActionsDefSpec { context_applies_to, children, attributes }),
            },
        },
    }
}

/// The path of the namespace that is written as `namespace`: the root
/// where none is written.
pub open spec fn namespace_path(namespace: Option<Seq<char>>) -> Option<Seq<Seq<char>>> {
    match namespace {
        None => Some(Seq::empty()),
        Some(s) => namespace_of_text(s),
    }
}

/// The name of the namespace with the path `ns`, unless it is the root.
pub open spec fn namespace_name(ns: Seq<Seq<char>>) -> Option<NameSpec> {
    if ns.len() == 0 {
        None
    } else {
        Some(NameSpec { path: ns.drop_last(), base: ns.last() })
    }
}

/// What the declarations `def` of the namespace written as `namespace`
/// compile to.
///
/// In this order: no entity type and no action may be declared twice; the
/// namespace must parse; the declarations must pass `behavior_error`; then
/// the common types, the actions and the entity types are compiled, and the
/// first error among them is the result.
pub open spec fn compiled_namespace(
    namespace: Option<Seq<char>>,
    def: NamespaceDefinitionSpec,
    behavior: ActionBehavior,
) -> Result<NamespaceDefSpec, SchemaErrorSpec> {
    match first_duplicate(entry_names(def.entity_types)) {
        Some(d) => Err(SchemaErrorSpec::DuplicateEntityType(d)),
        None => match first_duplicate(entry_names(def.actions)) {
            Some(d) => Err(SchemaErrorSpec::DuplicateAction(d)),
            None => match namespace_path(namespace) {
                None => Err(SchemaErrorSpec::NamespaceParseError),
                Some(ns) => match behavior_error(def, behavior) {
                    Some(e) => Err(e),
                    None => match type_defs_of(ns, def.common_types) {
                        Err(e) => Err(e),
                        Ok(type_defs) => match actions_of(ns, def.actions) {
                            Err(e) => Err(e),
                            Ok(actions) => match entity_types_of(ns, def.entity_types) {
                                Err(e) => Err(e),
                                Ok(entity_types) => Ok(
                                    NamespaceDefSpec {
                                        namespace: namespace_name(ns),
                                        type_defs,
                                        entity_types,
                                        actions,
                                    },
                                ),
                            },
                        },
                    },
                },
            },
        },
    }
}

/// `c` is the name of one of the first `i` declared entity types.
spec fn entity_named_before(
    ns: Seq<Seq<char>>,
    items: Seq<(Seq<char>, EntityTypeSpec)>,
    i: int,
    c: NameSpec,
) -> bool {
    exists|j: int|
        0 <= j < i && j < items.len() && qualified_ident(ns, (#[trigger] items[j]).0) == Some(c)
}

/// `c` is one of the first `i` declared actions.
spec fn action_named_before(
    ns: Seq<Seq<char>>,
    items: Seq<(Seq<char>, ActionTypeSpec)>,
    i: int,
    c: ActionIdSpec,
) -> bool {
    exists|j: int|
        0 <= j < i && j < items.len() && action_in_namespace(ns, (#[trigger] items[j]).0) == c
}

impl ValidatorNamespaceDef {
    /// Compiles the entity types that a namespace declares: lists each
    /// declared entity type as a child of its parents, and lifts its shape.
    pub fn build_entity_types(
        schema_files_types: &Vec<(String, EntityType)>,
        schema_namespace: &Vec<String>,
    ) -> (r: Result<EntityTypesDef, SchemaError>)
        ensures
            outcome_is(
                r,
                entity_types_of(schema_namespace.deep_view(), schema_files_types.deep_view()),
            ),
    {
        let ghost ns = schema_namespace.deep_view();
        let ghost items = schema_files_types.deep_view();
        let ghost cstep = entity_children_step(ns);
        let mut children: Vec<(QualifiedName, Vec<QualifiedName>)> = Vec::new();
        assert(children.deep_view() =~= Seq::empty());
        let mut i: usize = 0;
        while i < schema_files_types.len()
            invariant
                i <= schema_files_types.len(),
                ns == schema_namespace.deep_view(),
                items == schema_files_types.deep_view(),
                cstep == entity_children_step(ns),
                distinct_keys(children.deep_view()),
                try_fold(items.take(i as int), Seq::empty(), cstep) == Ok::<
                    Seq<(NameSpec, Seq<NameSpec>)>,
                    SchemaErrorSpec,
                >(children.deep_view()),
                forall|k: int, c: NameSpec|
                    0 <= k < children.len() && (#[trigger] children.deep_view()[k].1.contains(c))
                        ==> entity_named_before(ns, items, i as int, c),
            decreases schema_files_types.len() - i,
        {
            let name = &schema_files_types[i].0;
            let parents = &schema_files_types[i].1.member_of_types;
            let ghost pstep = entity_parent_step(ns, name@);
            let ghost plist = parents.deep_view();
            let ghost start = children.deep_view();
            proof {
                lemma_try_fold_next(items, Seq::empty(), cstep, i as int);
                lemma_try_fold_error(items, Seq::empty(), cstep, i + 1);
                assert(items[i as int] == (name@, schema_files_types[i as int].1@));
            }
            let mut j: usize = 0;
            while j < parents.len()
                invariant
                    j <= parents.len(),
                    i < schema_files_types.len(),
                    ns == schema_namespace.deep_view(),
                    items == schema_files_types.deep_view(),
                    name == &schema_files_types[i as int].0,
                    parents == &schema_files_types[i as int].1.member_of_types,
                    plist == parents.deep_view(),
                    items[i as int].0 == name@,
                    pstep == entity_parent_step(ns, name@),
                    distinct_keys(children.deep_view()),
                    try_fold(plist.take(j as int), start, pstep) == Ok::<
                        Seq<(NameSpec, Seq<NameSpec>)>,
                        SchemaErrorSpec,
                    >(children.deep_view()),
                    try_fold(items.take(i + 1), Seq::empty(), entity_children_step(ns))
                        == try_fold(plist, start, pstep),
                    try_fold(items.take(i + 1), Seq::empty(), entity_children_step(ns)) is Err
                        ==> try_fold(items, Seq::empty(), entity_children_step(ns)) == try_fold(
                        items.take(i + 1),
                        Seq::empty(),
                        entity_children_step(ns),
                    ),
                    forall|k: int, c: NameSpec|
                        0 <= k < children.len() && (#[trigger] children.deep_view()[k].1.contains(
                            c,
                        )) ==> entity_named_before(ns, items, i + 1, c),
                decreases parents.len() - j,
            {
                proof {
                    lemma_try_fold_next(plist, start, pstep, j as int);
                    lemma_try_fold_error(plist, start, pstep, j + 1);
                    assert(plist[j as int] == parents[j as int]@);
                }
                let parent_name = match parse_possibly_qualified_name_with_default_namespace(
                    parents[j].as_str(),
                    schema_namespace,
                ) {
                    Ok(n) => n,
                    Err(e) => {
                        return Err(SchemaError::EntityTypeParseError(e));
                    },
                };
                let child_name = match parse_unqualified_name_with_namespace(
                    name.as_str(),
                    clone_keys(schema_namespace),
                ) {
                    Ok(n) => n,
                    Err(e) => {
                        return Err(SchemaError::EntityTypeParseError(e));
                    },
                };
                let ghost before = children.deep_view();
                proof {
                    lemma_add_child_members(before, parent_name@, child_name@);
                    assert(qualified_ident(ns, items[i as int].0) == Some(child_name@));
                    assert(entity_named_before(ns, items, i + 1, child_name@));
                }
                insert_child(&mut children, parent_name, child_name);
                proof {
                    assert forall|k: int, c: NameSpec|
                        0 <= k < children.len() && (#[trigger] children.deep_view()[k].1.contains(
                            c,
                        )) implies entity_named_before(ns, items, i + 1, c) by {
                        if c != child_name@ {
                            let m = choose|m: int|
                                0 <= m < before.len() && (#[trigger] before[m]).1.contains(c);
                            assert(before[m].1.contains(c));
                        }
                    }
                }
                j += 1;
            }
            proof {
                lemma_try_fold_all(plist, start, pstep);
            }
            i += 1;
        }
        proof {
            lemma_try_fold_all(items, Seq::empty(), cstep);
        }
        let ghost astep = entity_attributes_step(ns);
        let mut attributes: Vec<(QualifiedName, WithUnresolvedTypeDefs)> = Vec::new();
        assert(attributes.deep_view() =~= Seq::empty());
        let mut i: usize = 0;
        while i < schema_files_types.len()
            invariant
                i <= schema_files_types.len(),
                ns == schema_namespace.deep_view(),
                items == schema_files_types.deep_view(),
                astep == entity_attributes_step(ns),
                try_fold(items, Seq::empty(), entity_children_step(ns)) == Ok::<
                    Seq<(NameSpec, Seq<NameSpec>)>,
                    SchemaErrorSpec,
                >(children.deep_view()),
                distinct_keys(attributes.deep_view()),
                declares_no_action_type(attributes.deep_view()),
                try_fold(items.take(i as int), Seq::empty(), astep) == Ok::<
                    Seq<(NameSpec, UnresolvedSpec)>,
                    SchemaErrorSpec,
                >(attributes.deep_view()),
                forall|c: NameSpec| #[trigger]
                    entity_named_before(ns, items, i as int, c) ==> has_key(
                        attributes.deep_view(),
                        c,
                    ),
            decreases schema_files_types.len() - i,
        {
            proof {
                lemma_try_fold_next(items, Seq::empty(), astep, i as int);
                lemma_try_fold_error(items, Seq::empty(), astep, i + 1);
                assert(items[i as int] == (
                    schema_files_types[i as int].0@,
                    schema_files_types[i as int].1@,
                ));
            }
            let name = match parse_unqualified_name_with_namespace(
                schema_files_types[i].0.as_str(),
                clone_keys(schema_namespace),
            ) {
                Ok(n) => n,
                Err(e) => {
                    return Err(SchemaError::EntityTypeParseError(e));
                },
            };
            if is_action_entity_type(&name) {
                return Err(SchemaError::ActionEntityTypeDeclared);
            }
            let shape = match Self::try_schema_type_into_validator_type(
                schema_namespace,
                &schema_files_types[i].1.shape,
            ) {
                Ok(u) => u,
                Err(e) => {
                    return Err(e);
                },
            };
            if find(&attributes, &name).is_some() {
                return Err(SchemaError::DuplicateEntityType(schema_files_types[i].0.clone()));
            }
            let ghost before = attributes.deep_view();
            proof {
                lemma_push_distinct(before, name@, shape@);
            }
            attributes.push((name, shape));
            proof {
                assert(attributes.deep_view() =~= before.push((name@, shape@)));
                assert forall|k: int| 0 <= k < attributes.len() implies (
                #[trigger] attributes.deep_view()[k]).0.base != action_type_base() by {
                    if k < before.len() {
                        assert(attributes.deep_view()[k] == before[k]);
                    }
                }
                assert forall|c: NameSpec| #[trigger]
                    entity_named_before(ns, items, i + 1, c) implies has_key(
                    attributes.deep_view(),
                    c,
                ) by {
                    let m = choose|m: int|
                        0 <= m < i + 1 && m < items.len() && qualified_ident(
                            ns,
                            (#[trigger] items[m]).0,
                        ) == Some(c);
                    if m < i {
                        assert(entity_named_before(ns, items, i as int, c));
                    }
                }
            }
            i += 1;
        }
        proof {
            lemma_try_fold_all(items, Seq::empty(), astep);
        }
        Ok(EntityTypesDef::from_entries(attributes, children))
    }
}

impl ValidatorNamespaceDef {
    /// Compiles the actions that a namespace declares: lists each declared
    /// action as a child of the actions it is a member of, converts what it
    /// applies to and its context, and types its attributes.
    pub fn build_action_ids(
        schema_file_actions: &Vec<(String, ActionType)>,
        schema_namespace: &Vec<String>,
    ) -> (r: Result<ActionsDef, SchemaError>)
        ensures
            outcome_is(r, actions_of(schema_namespace.deep_view(), schema_file_actions.deep_view())),
    {
        let ghost ns = schema_namespace.deep_view();
        let ghost items = schema_file_actions.deep_view();
        let ghost cstep = action_children_step(ns);
        let mut children: Vec<(ActionId, Vec<ActionId>)> = Vec::new();
        assert(children.deep_view() =~= Seq::empty());
        let mut i: usize = 0;
        while i < schema_file_actions.len()
            invariant
                i <= schema_file_actions.len(),
                ns == schema_namespace.deep_view(),
                items == schema_file_actions.deep_view(),
                cstep == action_children_step(ns),
                distinct_keys(children.deep_view()),
                try_fold(items.take(i as int), Seq::empty(), cstep) == Ok::<
                    Seq<(ActionIdSpec, Seq<ActionIdSpec>)>,
                    SchemaErrorSpec,
                >(children.deep_view()),
                forall|k: int, c: ActionIdSpec|
                    0 <= k < children.len() && (#[trigger] children.deep_view()[k].1.contains(c))
                        ==> action_named_before(ns, items, i as int, c),
            decreases schema_file_actions.len() - i,
        {
            let name = &schema_file_actions[i].0;
            let ghost start = children.deep_view();
            proof {
                lemma_try_fold_next(items, Seq::empty(), cstep, i as int);
                lemma_try_fold_error(items, Seq::empty(), cstep, i + 1);
                assert(items[i as int] == (name@, schema_file_actions[i as int].1@));
            }
            match &schema_file_actions[i].1.member_of {
                None => {
                    proof {
                        assert forall|k: int, c: ActionIdSpec|
                            0 <= k < children.len() && (
                            #[trigger] children.deep_view()[k].1.contains(c))
                            implies action_named_before(ns, items, i + 1, c) by {
                            assert(action_named_before(ns, items, i as int, c));
                        }
                    }
                },
                Some(parents) => {
                    let ghost pstep = action_parent_step(ns, name@);
                    let ghost plist = parents.deep_view();
                    assert(items[i as int].1.member_of == Some(plist));
                    let mut j: usize = 0;
                    while j < parents.len()
                        invariant
                            j <= parents.len(),
                            i < schema_file_actions.len(),
                            ns == schema_namespace.deep_view(),
                            items == schema_file_actions.deep_view(),
                            name == &schema_file_actions[i as int].0,
                            schema_file_actions[i as int].1.member_of == Some(*parents),
                            plist == parents.deep_view(),
                            items[i as int].0 == name@,
                            pstep == action_parent_step(ns, name@),
                            distinct_keys(children.deep_view()),
                            try_fold(plist.take(j as int), start, pstep) == Ok::<
                                Seq<(ActionIdSpec, Seq<ActionIdSpec>)>,
                                SchemaErrorSpec,
                            >(children.deep_view()),
                            try_fold(items.take(i + 1), Seq::empty(), action_children_step(ns))
                                == try_fold(plist, start, pstep),
                            try_fold(items.take(i + 1), Seq::empty(), action_children_step(ns))
                                is Err ==> try_fold(
                                items,
                                Seq::empty(),
                                action_children_step(ns),
                            ) == try_fold(
                                items.take(i + 1),
                                Seq::empty(),
                                action_children_step(ns),
                            ),
                            forall|k: int, c: ActionIdSpec|
                                0 <= k < children.len() && (
                                #[trigger] children.deep_view()[k].1.contains(c))
                                    ==> action_named_before(ns, items, i + 1, c),
                        decreases parents.len() - j,
                    {
                        proof {
                            lemma_try_fold_next(plist, start, pstep, j as int);
                            lemma_try_fold_error(plist, start, pstep, j + 1);
                            assert(plist[j as int] == parents[j as int]@);
                        }
                        let parent_euid = match Self::parse_action_id_with_namespace(
                            &parents[j],
                            clone_keys(schema_namespace),
                        ) {
                            Ok(p) => p,
                            Err(e) => {
                                return Err(e);
                            },
                        };
                        let child_euid = ActionId::from_components(
                            QualifiedName::new(
                                String::from_str("Action"),
                                clone_keys(schema_namespace),
                            ),
                            name.clone(),
                        );
                        let ghost before = children.deep_view();
                        proof {
                            lemma_add_child_members(before, parent_euid@, child_euid@);
                            assert(action_in_namespace(ns, items[i as int].0) == child_euid@);
                            assert(action_named_before(ns, items, i + 1, child_euid@));
                        }
                        insert_child(&mut children, parent_euid, child_euid);
                        proof {
                            assert forall|k: int, c: ActionIdSpec|
                                0 <= k < children.len() && (
                                #[trigger] children.deep_view()[k].1.contains(c))
                                implies action_named_before(ns, items, i + 1, c) by {
                                if c != child_euid@ {
                                    let m = choose|m: int|
                                        0 <= m < before.len() && (#[trigger] before[m]).1.contains(
                                            c,
                                        );
                                    assert(before[m].1.contains(c));
                                }
                            }
                        }
                        j += 1;
                    }
                    proof {
                        lemma_try_fold_all(plist, start, pstep);
                    }
                },
            }
            i += 1;
        }
        proof {
            lemma_try_fold_all(items, Seq::empty(), cstep);
        }
        let ghost xstep = action_context_step(ns);
        let mut context_applies_to: Vec<
            (ActionId, (WithUnresolvedTypeDefs, ValidatorApplySpec)),
        > = Vec::new();
        assert(context_applies_to.deep_view() =~= Seq::empty());
        let nothing: Option<Vec<String>> = None;
        let mut i: usize = 0;
        while i < schema_file_actions.len()
            invariant
                i <= schema_file_actions.len(),
                ns == schema_namespace.deep_view(),
                items == schema_file_actions.deep_view(),
                xstep == action_context_step(ns),
                nothing is None,
                try_fold(items, Seq::empty(), action_children_step(ns)) == Ok::<
                    Seq<(ActionIdSpec, Seq<ActionIdSpec>)>,
                    SchemaErrorSpec,
                >(children.deep_view()),
                distinct_keys(context_applies_to.deep_view()),
                try_fold(items.take(i as int), Seq::empty(), xstep) == Ok::<
                    Seq<(ActionIdSpec, (UnresolvedSpec, ApplySpecSpec))>,
                    SchemaErrorSpec,
                >(context_applies_to.deep_view()),
                forall|c: ActionIdSpec| #[trigger]
                    action_named_before(ns, items, i as int, c) ==> has_key(
                        context_applies_to.deep_view(),
                        c,
                    ),
            decreases schema_file_actions.len() - i,
        {
            proof {
                lemma_try_fold_next(items, Seq::empty(), xstep, i as int);
                lemma_try_fold_error(items, Seq::empty(), xstep, i + 1);
                assert(items[i as int] == (
                    schema_file_actions[i as int].0@,
                    schema_file_actions[i as int].1@,
                ));
            }
            let action_euid = ActionId::from_components(
                QualifiedName::new(String::from_str("Action"), clone_keys(schema_namespace)),
                schema_file_actions[i].0.clone(),
            );
            let a = &schema_file_actions[i].1;
            let principals = match Self::parse_apply_spec_type_list(
                match &a.applies_to {
                    Some(ap) => &ap.principal_types,
                    None => &nothing,
                },
                schema_namespace,
            ) {
                Ok(p) => p,
                Err(e) => {
                    return Err(e);
                },
            };
            let resources = match Self::parse_apply_spec_type_list(
                match &a.applies_to {
                    Some(ap) => &ap.resource_types,
                    None => &nothing,
                },
                schema_namespace,
            ) {
                Ok(p) => p,
                Err(e) => {
                    return Err(e);
                },
            };
            let action_context = match &a.applies_to {
                Some(ap) => match Self::try_schema_type_into_validator_type(
                    schema_namespace,
                    &ap.context,
                ) {
                    Ok(u) => u,
                    Err(e) => {
                        return Err(e);
                    },
                },
                None => {
                    let u = WithUnresolvedTypeDefs::Record(Vec::new());
                    assert(u@->Record_0 =~= Seq::empty());
                    u
                },
            };
            if find(&context_applies_to, &action_euid).is_some() {
                return Err(SchemaError::DuplicateAction(schema_file_actions[i].0.clone()));
            }
            let action_applies_to = ValidatorApplySpec::new(principals, resources);
            let ghost before = context_applies_to.deep_view();
            let ghost entry = (action_euid@, (action_context@, action_applies_to@));
            proof {
                lemma_push_distinct(before, entry.0, entry.1);
            }
            context_applies_to.push((action_euid, (action_context, action_applies_to)));
            proof {
                assert(context_applies_to.deep_view() =~= before.push(entry));
                assert forall|c: ActionIdSpec| #[trigger]
                    action_named_before(ns, items, i + 1, c) implies has_key(
                    context_applies_to.deep_view(),
                    c,
                ) by {
                    let m = choose|m: int|
                        0 <= m < i + 1 && m < items.len() && action_in_namespace(
                            ns,
                            (#[trigger] items[m]).0,
                        ) == c;
                    if m < i {
                        assert(action_named_before(ns, items, i as int, c));
                    }
                }
            }
            i += 1;
        }
        proof {
            lemma_try_fold_all(items, Seq::empty(), xstep);
        }
        let ghost tstep = action_attributes_step(ns);
        let mut attributes: Vec<(ActionId, Attributes)> = Vec::new();
        assert(attributes.deep_view() =~= Seq::empty());
        let mut i: usize = 0;
        while i < schema_file_actions.len()
            invariant
                i <= schema_file_actions.len(),
                ns == schema_namespace.deep_view(),
                items == schema_file_actions.deep_view(),
                tstep == action_attributes_step(ns),
                try_fold(items, Seq::empty(), action_children_step(ns)) == Ok::<
                    Seq<(ActionIdSpec, Seq<ActionIdSpec>)>,
                    SchemaErrorSpec,
                >(children.deep_view()),
                try_fold(items, Seq::empty(), action_context_step(ns)) == Ok::<
                    Seq<(ActionIdSpec, (UnresolvedSpec, ApplySpecSpec))>,
                    SchemaErrorSpec,
                >(context_applies_to.deep_view()),
                try_fold(items.take(i as int), Seq::empty(), tstep) == Ok::<
                    Seq<(ActionIdSpec, AttributesSpec)>,
                    SchemaErrorSpec,
                >(attributes.deep_view()),
                attributes_name_nothing(attributes.deep_view()),
            decreases schema_file_actions.len() - i,
        {
            proof {
                lemma_try_fold_next(items, Seq::empty(), tstep, i as int);
                lemma_try_fold_error(items, Seq::empty(), tstep, i + 1);
                assert(items[i as int] == (
                    schema_file_actions[i as int].0@,
                    schema_file_actions[i as int].1@,
                ));
            }
            let action_euid = ActionId::from_components(
                QualifiedName::new(String::from_str("Action"), clone_keys(schema_namespace)),
                schema_file_actions[i].0.clone(),
            );
            let action_attributes = match &schema_file_actions[i].1.attributes {
                Some(m) => match Self::convert_attr_jsonval_map_to_attributes(m) {
                    Ok(a) => {
                        proof {
                            lemma_json_attrs_names(m.deep_view());
                        }
                        a
                    },
                    Err(e) => {
                        return Err(e);
                    },
                },
                None => {
                    let a = Attributes { attrs: Vec::new() };
                    assert(a@ =~= Seq::empty());
                    a
                },
            };
            let ghost before = attributes.deep_view();
            let ghost entry = (action_euid@, action_attributes@);
            attributes.push((action_euid, action_attributes));
            proof {
                assert(attributes.deep_view() =~= before.push(entry));
                assert forall|k: int| 0 <= k < attributes.len() implies names_in_attrs(
                    (#[trigger] attributes.deep_view()[k]).1,
                ) == Set::<NameSpec>::empty() by {
                    if k < before.len() {
                        assert(attributes.deep_view()[k] == before[k]);
                    }
                }
            }
            i += 1;
        }
        proof {
            lemma_try_fold_all(items, Seq::empty(), tstep);
        }
        Ok(ActionsDef::from_entries(context_applies_to, children, attributes))
    }

    /// Compiles what the namespace written as `namespace` declares.
    pub fn from_namespace_definition(
        namespace: Option<String>,
        namespace_def: &NamespaceDefinition,
        action_behavior: ActionBehavior,
    ) -> (r: Result<ValidatorNamespaceDef, SchemaError>)
        ensures
            outcome_is(
                r,
                compiled_namespace(namespace.deep_view(), namespace_def@, action_behavior),
            ),
            r matches Ok(d) ==> d@.wf(),
    {
        match find_duplicate(&namespace_def.entity_types) {
            Some(name) => {
                return Err(SchemaError::DuplicateEntityType(name));
            },
            None => {},
        }
        match find_duplicate(&namespace_def.actions) {
            Some(name) => {
                return Err(SchemaError::DuplicateAction(name));
            },
            None => {},
        }
        let schema_namespace: Vec<String> = match &namespace {
            None => {
                let p: Vec<String> = Vec::new();
                assert(p.deep_view() =~= Seq::empty());
                p
            },
            Some(ns) => match parse_namespace(ns.as_str()) {
                Ok(p) => p,
                Err(e) => {
                    return Err(SchemaError::NamespaceParseError(e));
                },
            },
        };
        match Self::check_action_behavior(namespace_def, action_behavior) {
            Ok(_) => {},
            Err(e) => {
                return Err(e);
            },
        }
        let type_defs = match Self::build_type_defs(&namespace_def.common_types, &schema_namespace) {
            Ok(t) => t,
            Err(e) => {
                return Err(e);
            },
        };
        let actions = match Self::build_action_ids(&namespace_def.actions, &schema_namespace) {
            Ok(t) => t,
            Err(e) => {
                return Err(e);
            },
        };
        let entity_types = match Self::build_entity_types(
            &namespace_def.entity_types,
            &schema_namespace,
        ) {
            Ok(t) => t,
            Err(e) => {
                return Err(e);
            },
        };
        let name = if schema_namespace.len() == 0 {
            None
        } else {
            let mut path = clone_keys(&schema_namespace);
            let last = path.pop();
            assert(path.deep_view() =~= schema_namespace.deep_view().drop_last());
            match last {
                Some(base) => Some(QualifiedName::new(base, path)),
                None => None,
            }
        };
        let _ = type_defs.entries();
        let _ = entity_types.entries();
        let _ = actions.entries();
        Ok(ValidatorNamespaceDef::from_parts(name, type_defs, entity_types, actions))
    }
}

} // verus!
