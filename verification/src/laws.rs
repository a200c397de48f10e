//! What holds of every schema and of every compilation, stated once and
//! proved from the definitions.

use vstd::prelude::*;
use crate::assemble::{
    action_record_step, children_of, closed_actions, closed_entity_types, entity_record_step,
    graph_of, records_follow, schema_of, schema_of_file, ActionRecordSpec, EntityRecordSpec,
};
use crate::compile::{
    action_children_step, action_parent_step, actions_of, compiled_namespace,
    declares_action_type, entity_children_step, entity_parent_step,
    entity_types_of, entry_names, first_duplicate, names_with_attributes, namespace_path,
    qualified_ident,
};
use crate::conversion::{action_id_of, action_in_namespace, apply_list, apply_list_step};
use crate::deferred::{outcome_is, resolved, resolved_attrs, UnresolvedSpec};
use crate::err::{SchemaError, SchemaErrorSpec};
use crate::fold::{lemma_try_fold_invariant, try_fold};
use crate::keys::{
    add_child, distinct_keys, first_index, has_key, lemma_add_child_lists, lemma_has_key_first,
    lemma_put, lists_child, lookup,
};
use crate::merge::{
    lemma_union_children_lists, merge_fragment_step, merge_step, merged, union_children,
    MergedSpec,
};
use crate::names::{
    action_type_base, name_of_text, with_default_namespace, ActionIdSpec, EntityTypeRefSpec,
    NameSpec,
};
use crate::namespace_def::{ActionBehavior, ApplySpecSpec, NamespaceDefSpec};
use crate::schema_file_format::{
    is_builtin_type_text, ActionEntityUIDSpec, ActionTypeSpec, EntityTypeSpec, NamespaceDefinitionSpec, SchemaFragment,
};
use crate::transitive_closure::{has_cycle, reaches};
use crate::types::{names_in_attrs, AttributeTypeSpec, TypeSpec};
use crate::validator_schema::{action_names, ValidatorSchema, ValidatorSchemaSpec};

verus! {

/// The declared entity types of `m`, each with the entity types that are
/// declared as its members.
pub open spec fn entity_membership(m: MergedSpec) -> Seq<(NameSpec, Seq<NameSpec>)> {
    m.entity_attributes.map_values(
        |e: (NameSpec, UnresolvedSpec)| (e.0, children_of(m.entity_children, e.0)),
    )
}

/// The records of the entity types follow the declarations.
proof fn lemma_entity_records_follow(m: MergedSpec, entities: Seq<EntityRecordSpec>)
    requires
        try_fold(m.entity_attributes, Seq::empty(), entity_record_step(m)) == Ok::<
            Seq<EntityRecordSpec>,
            SchemaErrorSpec,
        >(entities),
    ensures
        records_follow(entities, m.entity_attributes, m.entity_children),
        graph_of(entities) == entity_membership(m),
{
    let items = m.entity_attributes;
    let inv = |i: int, acc: Seq<EntityRecordSpec>|
        acc.len() == i && forall|j: int|
            0 <= j < i ==> (#[trigger] acc[j]).0 == items[j].0 && acc[j].1.0 == children_of(
                m.entity_children,
                items[j].0,
            );
    let step = entity_record_step(m);
    assert(inv(0, Seq::<EntityRecordSpec>::empty()));
    assert forall|i: int, acc: Seq<EntityRecordSpec>|
        0 <= i < items.len() && inv(i, acc) && (#[trigger] step(acc, items[i])) is Ok implies inv(
        i + 1,
        step(acc, items[i])->Ok_0,
    ) by {
        let next = step(acc, items[i])->Ok_0;
        assert(next.len() == i + 1);
        assert forall|j: int| 0 <= j < i + 1 implies (#[trigger] next[j]).0 == items[j].0
            && next[j].1.0 == children_of(m.entity_children, items[j].0) by {
            if j < i {
                assert(next[j] == acc[j]);
            }
        }
    }
    lemma_try_fold_invariant(items, Seq::empty(), step, inv);
    assert(inv(items.len() as int, entities));
    assert(graph_of(entities) =~= entity_membership(m));
}

/// An entity type is no descendant of itself, unless the declared
/// membership leads from the entity type back to it: entity types may be
/// declared members of each other in a circle, and then each is a
/// descendant of itself.
pub proof fn law_entity_type_is_not_its_own_descendant(
    fragments: Seq<Seq<NamespaceDefSpec>>,
    m: MergedSpec,
    s: ValidatorSchemaSpec,
    name: NameSpec,
)
    requires
        merged(fragments) == Ok::<MergedSpec, SchemaErrorSpec>(m),
        schema_of(fragments) == Ok::<ValidatorSchemaSpec, SchemaErrorSpec>(s),
        has_key(s.entity_types, name),
        !reaches(entity_membership(m), name, name),
    ensures
        lookup(s.entity_types, name) is Some,
        !lookup(s.entity_types, name)->Some_0.descendants.contains(name),
{
    let entities = try_fold(m.entity_attributes, Seq::empty(), entity_record_step(m))->Ok_0;
    lemma_entity_records_follow(m, entities);
    assert(s.entity_types == closed_entity_types(entities));
    lemma_has_key_first(s.entity_types, name);
    let i = first_index(s.entity_types, name);
    assert(s.entity_types[i].0 == name);
    assert(entities[i].0 == name);
}

/// Every entity type that occurs in the type of an attribute of a declared
/// entity type is declared.
pub proof fn law_attribute_types_are_declared(
    s: ValidatorSchemaSpec,
    name: NameSpec,
    q: NameSpec,
)
    requires
        s.wf(),
        lookup(s.entity_types, name) matches Some(et) && names_in_attrs(et.attributes).contains(q),
    ensures
        has_key(s.entity_types, q),
{
    lemma_has_key_first(s.entity_types, name);
    let i = first_index(s.entity_types, name);
    assert(names_in_attrs(s.entity_types[i].1.attributes).contains(q));
}

/// Every entity type that occurs in the type of the context or of an
/// attribute of a declared action, or among its principals or resources, is
/// declared.
pub proof fn law_action_references_are_declared(
    s: ValidatorSchemaSpec,
    action: ActionIdSpec,
    q: NameSpec,
)
    requires
        s.wf(),
        lookup(s.action_ids, action) matches Some(a) && (names_in_attrs(a.context).contains(q)
            || names_in_attrs(a.attributes).contains(q) || a.applies_to.principals.contains(
            EntityTypeRefSpec::Concrete(q),
        ) || a.applies_to.resources.contains(EntityTypeRefSpec::Concrete(q))),
    ensures
        has_key(s.entity_types, q),
{
    lemma_has_key_first(s.action_ids, action);
    let i = first_index(s.action_ids, action);
    if names_in_attrs(s.action_ids[i].1.attributes).contains(q) {
    } else {
        assert(action_names(s.action_ids[i].1).contains(q));
    }
}

/// Every descendant of a declared action is a declared action, and no
/// declared action is a descendant of itself.
pub proof fn law_action_descendants_are_declared(
    s: ValidatorSchemaSpec,
    action: ActionIdSpec,
    d: ActionIdSpec,
)
    requires
        s.wf(),
        lookup(s.action_ids, action) matches Some(a) && a.descendants.contains(d),
    ensures
        has_key(s.action_ids, d),
        d != action,
        lookup(s.action_ids, d) matches Some(x) && !x.descendants.contains(d),
{
    lemma_has_key_first(s.action_ids, action);
    let i = first_index(s.action_ids, action);
    assert(s.action_ids[i].1.descendants.contains(d));
    assert(has_key(s.action_ids, d));
    lemma_has_key_first(s.action_ids, d);
    let j = first_index(s.action_ids, d);
    assert(!s.action_ids[j].1.descendants.contains(s.action_ids[j].0));
}

/// Every descendant of a declared entity type is a declared entity type.
pub proof fn law_entity_descendants_are_declared(
    s: ValidatorSchemaSpec,
    name: NameSpec,
    d: NameSpec,
)
    requires
        s.wf(),
        lookup(s.entity_types, name) matches Some(et) && et.descendants.contains(d),
    ensures
        has_key(s.entity_types, d),
{
    lemma_has_key_first(s.entity_types, name);
    let i = first_index(s.entity_types, name);
    assert(s.entity_types[i].1.descendants.contains(d));
}

/// The descendants of a descendant of an entity type are descendants of
/// the entity type.
pub proof fn law_entity_descendants_are_closed(
    s: ValidatorSchemaSpec,
    a: NameSpec,
    b: NameSpec,
    c: NameSpec,
)
    requires
        s.wf(),
        lookup(s.entity_types, a) matches Some(x) && x.descendants.contains(b),
        lookup(s.entity_types, b) matches Some(y) && y.descendants.contains(c),
    ensures
        lookup(s.entity_types, a)->Some_0.descendants.contains(c),
{
    lemma_has_key_first(s.entity_types, a);
    lemma_has_key_first(s.entity_types, b);
    let i = first_index(s.entity_types, a);
    let j = first_index(s.entity_types, b);
    assert(s.entity_types[i].1.descendants.contains(s.entity_types[j].0));
    assert(s.entity_types[j].1.descendants.contains(c));
}

/// The descendants of a descendant of an action are descendants of the action.
pub proof fn law_action_descendants_are_closed(
    s: ValidatorSchemaSpec,
    a: ActionIdSpec,
    b: ActionIdSpec,
    c: ActionIdSpec,
)
    requires
        s.wf(),
        lookup(s.action_ids, a) matches Some(x) && x.descendants.contains(b),
        lookup(s.action_ids, b) matches Some(y) && y.descendants.contains(c),
    ensures
        lookup(s.action_ids, a)->Some_0.descendants.contains(c),
{
    lemma_has_key_first(s.action_ids, a);
    lemma_has_key_first(s.action_ids, b);
    let i = first_index(s.action_ids, a);
    let j = first_index(s.action_ids, b);
    assert(s.action_ids[i].1.descendants.contains(s.action_ids[j].0));
    assert(s.action_ids[j].1.descendants.contains(c));
}

/// Two compilations of fragments of one value agree: both succeed or both
/// fail, with schemas of the same value or with errors of the same value.
pub proof fn law_compiling_twice_agrees(
    fragment: SchemaFragment,
    again: SchemaFragment,
    behavior: ActionBehavior,
    first: Result<ValidatorSchema, SchemaError>,
    second: Result<ValidatorSchema, SchemaError>,
)
    requires
        fragment@ == again@,
        outcome_is(first, schema_of_file(fragment@, behavior)),
        outcome_is(second, schema_of_file(again@, behavior)),
    ensures
        first is Ok <==> second is Ok,
        first is Ok ==> first->Ok_0@ == second->Ok_0@,
        first is Err ==> first->Err_0@ == second->Err_0@,
{
}

/// No declared entity type has the base that is kept for the entity
/// types of actions.
pub proof fn law_no_entity_type_has_the_action_base(s: ValidatorSchemaSpec, name: NameSpec)
    requires
        s.wf(),
        has_key(s.entity_types, name),
    ensures
        name.base != action_type_base(),
{
    let i = choose|i: int| 0 <= i < s.entity_types.len() && (#[trigger] s.entity_types[i]).0 == name;
    assert(s.entity_types[i].0.base != action_type_base());
}

/// No common type of a compiled namespace has the name of a built-in form
/// of a written type as its base, and none is defined twice.
pub proof fn law_common_types_avoid_builtin_names(d: NamespaceDefSpec, name: NameSpec)
    requires
        d.wf(),
        has_key(d.type_defs, name),
    ensures
        !is_builtin_type_text(name.base),
        distinct_keys(d.type_defs),
{
    let i = choose|i: int| 0 <= i < d.type_defs.len() && (#[trigger] d.type_defs[i]).0 == name;
    assert(!is_builtin_type_text(d.type_defs[i].0.base));
}

/// The name of every action that declares attributes is among the names
/// with attributes.
proof fn lemma_names_with_attributes(actions: Seq<(Seq<char>, ActionTypeSpec)>, i: int)
    requires
        0 <= i < actions.len(),
        actions[i].1.attributes is Some,
    ensures
        names_with_attributes(actions).contains(actions[i].0),
    decreases actions.len(),
{
    let front = actions.drop_last();
    if i < actions.len() - 1 {
        lemma_names_with_attributes(front, i);
        let j = choose|j: int|
            0 <= j < names_with_attributes(front).len() && names_with_attributes(front)[j]
                == actions[i].0;
        assert(names_with_attributes(actions)[j] == actions[i].0);
    } else {
        let n = names_with_attributes(front).len() as int;
        assert(names_with_attributes(actions)[n] == actions[i].0);
    }
}

/// Where actions may carry no attributes, a namespace in which an action
/// declares attributes is refused, and the error lists that action. This
/// is stated of the namespaces that are not refused for an earlier reason:
/// no entity type and no action is declared twice, the namespace parses,
/// and no entity type has the name that is kept for actions.
pub proof fn law_prohibited_attributes_are_refused(
    namespace: Option<Seq<char>>,
    def: NamespaceDefinitionSpec,
    i: int,
)
    requires
        0 <= i < def.actions.len(),
        def.actions[i].1.attributes is Some,
        first_duplicate(entry_names(def.entity_types)) is None,
        first_duplicate(entry_names(def.actions)) is None,
        namespace_path(namespace) is Some,
        !declares_action_type(def.entity_types),
    ensures
        compiled_namespace(namespace, def, ActionBehavior::ProhibitAttributes) == Err::<
            NamespaceDefSpec,
            SchemaErrorSpec,
        >(SchemaErrorSpec::ActionEntityAttributes(names_with_attributes(def.actions))),
        names_with_attributes(def.actions).contains(def.actions[i].0),
{
    lemma_names_with_attributes(def.actions, i);
}

/// A reference to a common type resolves to the type that the common type
/// stands for.
pub proof fn law_reference_resolves_to_definition(
    defs: Seq<(NameSpec, TypeSpec)>,
    alias: NameSpec,
    written: Seq<char>,
    t: TypeSpec,
)
    requires
        lookup(defs, alias) == Some(t),
    ensures
        resolved(UnresolvedSpec::TypeDef { name: alias, written }, defs) == Ok::<
            TypeSpec,
            SchemaErrorSpec,
        >(t),
{
}

/// The resolved attributes list no name twice, and give the name of each
/// attribute the type that the last attribute of that name resolves to.
proof fn lemma_resolved_attrs_last(
    attrs: Seq<(Seq<char>, UnresolvedSpec, bool)>,
    defs: Seq<(NameSpec, TypeSpec)>,
    i: int,
)
    requires
        0 <= i < attrs.len(),
        resolved_attrs(attrs, defs) is Ok,
        forall|j: int| i < j < attrs.len() ==> (#[trigger] attrs[j]).0 != attrs[i].0,
    ensures
        distinct_keys(resolved_attrs(attrs, defs)->Ok_0),
        resolved(attrs[i].1, defs) is Ok,
        lookup(resolved_attrs(attrs, defs)->Ok_0, attrs[i].0) == Some(
            AttributeTypeSpec {
                attr_type: resolved(attrs[i].1, defs)->Ok_0,
                is_required: attrs[i].2,
            },
        ),
    decreases attrs.len(),
{
    let front = attrs.drop_last();
    lemma_resolved_attrs_distinct(front, defs);
    let acc = resolved_attrs(front, defs)->Ok_0;
    let last = attrs.last();
    let v = AttributeTypeSpec { attr_type: resolved(last.1, defs)->Ok_0, is_required: last.2 };
    lemma_put(acc, last.0, v);
    if i < attrs.len() - 1 {
        assert forall|j: int| i < j < front.len() implies (#[trigger] front[j]).0 != front[i].0 by {
            assert(attrs[j].0 != attrs[i].0);
        }
        lemma_resolved_attrs_last(front, defs, i);
        assert(attrs[attrs.len() - 1].0 != attrs[i].0);
    }
}

/// The resolved attributes list no name twice.
proof fn lemma_resolved_attrs_distinct(
    attrs: Seq<(Seq<char>, UnresolvedSpec, bool)>,
    defs: Seq<(NameSpec, TypeSpec)>,
)
    ensures
        resolved_attrs(attrs, defs) matches Ok(a) ==> distinct_keys(a),
    decreases attrs.len(),
{
    if attrs.len() > 0 {
        let front = attrs.drop_last();
        lemma_resolved_attrs_distinct(front, defs);
        if let Ok(acc) = resolved_attrs(front, defs) {
            if let Ok(t) = resolved(attrs.last().1, defs) {
                lemma_put(
                    acc,
                    attrs.last().0,
                    AttributeTypeSpec { attr_type: t, is_required: attrs.last().2 },
                );
            }
        }
    }
}

/// In a record that resolves, an attribute that is declared by reference
/// to a common type has the type that the common type stands for. Where a
/// name is declared more than once the last declaration counts, so this is
/// stated of an attribute whose name is not declared again after it.
pub proof fn law_attribute_of_common_type(
    defs: Seq<(NameSpec, TypeSpec)>,
    alias: NameSpec,
    written: Seq<char>,
    t: TypeSpec,
    attrs: Seq<(Seq<char>, UnresolvedSpec, bool)>,
    i: int,
)
    requires
        lookup(defs, alias) == Some(t),
        0 <= i < attrs.len(),
        attrs[i].1 == (UnresolvedSpec::TypeDef { name: alias, written }),
        forall|j: int| i < j < attrs.len() ==> (#[trigger] attrs[j]).0 != attrs[i].0,
        resolved_attrs(attrs, defs) is Ok,
    ensures
        lookup(resolved_attrs(attrs, defs)->Ok_0, attrs[i].0) == Some(
            AttributeTypeSpec { attr_type: t, is_required: attrs[i].2 },
        ),
{
    lemma_resolved_attrs_last(attrs, defs, i);
}

/// The entity type that the text `parent` names as a parent in the
/// namespace with the path `ns`.
pub open spec fn parent_named(ns: Seq<Seq<char>>, parent: Seq<char>) -> Option<NameSpec> {
    match name_of_text(parent) {
        Some(n) => Some(with_default_namespace(n, ns)),
        None => None,
    }
}

/// The declaration `e` names `c` and, among its first `bound` parents, `p`.
pub open spec fn declares_member(
    ns: Seq<Seq<char>>,
    e: (Seq<char>, EntityTypeSpec),
    bound: int,
    p: NameSpec,
    c: NameSpec,
) -> bool {
    qualified_ident(ns, e.0) == Some(c) && exists|m: int|
        0 <= m < bound && m < e.1.member_of_types.len() && parent_named(
            ns,
            #[trigger] e.1.member_of_types[m],
        ) == Some(p)
}

/// One of the first `bound` declarations names `c` and, among its parents, `p`.
pub open spec fn declared_member(
    ns: Seq<Seq<char>>,
    declared: Seq<(Seq<char>, EntityTypeSpec)>,
    bound: int,
    p: NameSpec,
    c: NameSpec,
) -> bool {
    exists|j: int|
        0 <= j < bound && j < declared.len() && declares_member(
            ns,
            #[trigger] declared[j],
            declared[j].1.member_of_types.len() as int,
            p,
            c,
        )
}

/// What the lists of children hold after the parents of one declaration.
proof fn lemma_parents_inverted(
    ns: Seq<Seq<char>>,
    declared: Seq<(Seq<char>, EntityTypeSpec)>,
    i: int,
    start: Seq<(NameSpec, Seq<NameSpec>)>,
)
    requires
        0 <= i < declared.len(),
        forall|p: NameSpec, c: NameSpec| #[trigger]
            lists_child(start, p, c) <==> declared_member(ns, declared, i, p, c),
        entity_children_step(ns)(start, declared[i]) is Ok,
    ensures
        forall|p: NameSpec, c: NameSpec| #[trigger]
            lists_child(entity_children_step(ns)(start, declared[i])->Ok_0, p, c)
                <==> declared_member(ns, declared, i + 1, p, c),
{
    let e = declared[i];
    let parents = e.1.member_of_types;
    let step = entity_parent_step(ns, e.0);
    let inv = |m: int, acc: Seq<(NameSpec, Seq<NameSpec>)>|
        forall|p: NameSpec, c: NameSpec| #[trigger]
            lists_child(acc, p, c) <==> declared_member(ns, declared, i, p, c) || declares_member(
                ns,
                e,
                m,
                p,
                c,
            );
    assert(inv(0, start));
    assert forall|m: int, acc: Seq<(NameSpec, Seq<NameSpec>)>|
        0 <= m < parents.len() && inv(m, acc) && (#[trigger] step(acc, parents[m])) is Ok implies inv(
        m + 1,
        step(acc, parents[m])->Ok_0,
    ) by {
        let next = step(acc, parents[m])->Ok_0;
        let parent = parent_named(ns, parents[m])->Some_0;
        let child = qualified_ident(ns, e.0)->Some_0;
        assert(next == add_child(acc, parent, child));
        assert forall|p: NameSpec, c: NameSpec| #[trigger]
            lists_child(next, p, c) <==> declared_member(ns, declared, i, p, c) || declares_member(
                ns,
                e,
                m + 1,
                p,
                c,
            ) by {
            lemma_add_child_lists(acc, parent, child, p, c);
            assert(lists_child(acc, p, c) <==> declared_member(ns, declared, i, p, c)
                || declares_member(ns, e, m, p, c));
            if declares_member(ns, e, m + 1, p, c) && !declares_member(ns, e, m, p, c) {
                let w = choose|w: int|
                    0 <= w < m + 1 && w < e.1.member_of_types.len() && parent_named(
                        ns,
                        #[trigger] e.1.member_of_types[w],
                    ) == Some(p);
                if w < m {
                    assert(parent_named(ns, e.1.member_of_types[w]) == Some(p));
                }
                assert(w == m);
            }
            if declares_member(ns, e, m, p, c) {
                let w = choose|w: int|
                    0 <= w < m && w < e.1.member_of_types.len() && parent_named(
                        ns,
                        #[trigger] e.1.member_of_types[w],
                    ) == Some(p);
                assert(parent_named(ns, e.1.member_of_types[w]) == Some(p));
            }
            if p == parent && c == child {
                assert(parent_named(ns, e.1.member_of_types[m]) == Some(p));
                assert(declares_member(ns, e, m + 1, p, c));
            }
        }
    }
    lemma_try_fold_invariant(parents, start, step, inv);
    let end = entity_children_step(ns)(start, declared[i])->Ok_0;
    assert(inv(parents.len() as int, end));
    assert forall|p: NameSpec, c: NameSpec| #[trigger]
        lists_child(end, p, c) <==> declared_member(ns, declared, i + 1, p, c) by {
        assert(lists_child(end, p, c) <==> declared_member(ns, declared, i, p, c)
            || declares_member(ns, e, parents.len() as int, p, c));
        if declared_member(ns, declared, i + 1, p, c) {
            let j = choose|j: int|
                0 <= j < i + 1 && j < declared.len() && declares_member(
                    ns,
                    #[trigger] declared[j],
                    declared[j].1.member_of_types.len() as int,
                    p,
                    c,
                );
            if j < i {
                assert(declares_member(
                    ns,
                    declared[j],
                    declared[j].1.member_of_types.len() as int,
                    p,
                    c,
                ));
                assert(declared_member(ns, declared, i, p, c));
            }
        }
        if declared_member(ns, declared, i, p, c) {
            let j = choose|j: int|
                0 <= j < i && j < declared.len() && declares_member(
                    ns,
                    #[trigger] declared[j],
                    declared[j].1.member_of_types.len() as int,
                    p,
                    c,
                );
            assert(declares_member(
                ns,
                declared[j],
                declared[j].1.member_of_types.len() as int,
                p,
                c,
            ));
        }
        if declares_member(ns, e, parents.len() as int, p, c) {
            assert(declares_member(
                ns,
                declared[i],
                declared[i].1.member_of_types.len() as int,
                p,
                c,
            ));
        }
    }
}

/// Membership is turned round: the compiled declarations list an entity
/// type `c` as a child of `p` exactly if some declaration names `c` and
/// names `p` among its parents.
pub proof fn law_children_invert_membership(
    ns: Seq<Seq<char>>,
    declared: Seq<(Seq<char>, EntityTypeSpec)>,
    p: NameSpec,
    c: NameSpec,
)
    requires
        entity_types_of(ns, declared) is Ok,
    ensures
        lists_child(entity_types_of(ns, declared)->Ok_0.children, p, c) <==> declared_member(
            ns,
            declared,
            declared.len() as int,
            p,
            c,
        ),
{
    let step = entity_children_step(ns);
    let inv = |i: int, acc: Seq<(NameSpec, Seq<NameSpec>)>|
        forall|p: NameSpec, c: NameSpec| #[trigger]
            lists_child(acc, p, c) <==> declared_member(ns, declared, i, p, c);
    assert(inv(0, Seq::<(NameSpec, Seq<NameSpec>)>::empty()));
    assert forall|i: int, acc: Seq<(NameSpec, Seq<NameSpec>)>|
        0 <= i < declared.len() && inv(i, acc) && (#[trigger] step(acc, declared[i])) is Ok implies inv(
        i + 1,
        step(acc, declared[i])->Ok_0,
    ) by {
        lemma_parents_inverted(ns, declared, i, acc);
    }
    lemma_try_fold_invariant(declared, Seq::empty(), step, inv);
    let children = entity_types_of(ns, declared)->Ok_0.children;
    assert(inv(declared.len() as int, children));
}

/// Where the list of principals or of resources is left out, an action
/// applies to the unspecified entity type alone; where it is written, the
/// action applies to named entity types only.
pub proof fn law_apply_spec_is_unspecified_or_named(
    ns: Seq<Seq<char>>,
    types: Option<Seq<Seq<char>>>,
    x: EntityTypeRefSpec,
)
    requires
        apply_list(ns, types) is Ok,
        apply_list(ns, types)->Ok_0.contains(x),
    ensures
        types is None <==> x is Unspecified,
        types is None ==> apply_list(ns, types)->Ok_0 == seq![EntityTypeRefSpec::Unspecified],
{
    match types {
        None => {
            let s = seq![EntityTypeRefSpec::Unspecified];
            let k = choose|k: int| 0 <= k < s.len() && s[k] == x;
            assert(s[k] == EntityTypeRefSpec::Unspecified);
        },
        Some(list) => {
            let step = apply_list_step(ns);
            let inv = |i: int, acc: Seq<EntityTypeRefSpec>|
                forall|k: int| 0 <= k < acc.len() ==> (#[trigger] acc[k]) is Concrete;
            assert(inv(0, Seq::<EntityTypeRefSpec>::empty()));
            assert forall|i: int, acc: Seq<EntityTypeRefSpec>|
                0 <= i < list.len() && inv(i, acc) && (#[trigger] step(acc, list[i])) is Ok implies inv(
                i + 1,
                step(acc, list[i])->Ok_0,
            ) by {
                let next = step(acc, list[i])->Ok_0;
                assert forall|k: int| 0 <= k < next.len() implies (#[trigger] next[k]) is Concrete by {
                    if k < acc.len() {
                        assert(acc[k] is Concrete);
                    }
                }
            }
            lemma_try_fold_invariant(list, Seq::empty(), step, inv);
            let s = apply_list(ns, types)->Ok_0;
            let k = choose|k: int| 0 <= k < s.len() && s[k] == x;
            assert(s[k] is Concrete);
        },
    }
}

/// A duplicate is found exactly where the names are not distinct.
pub proof fn law_duplicates_are_found(names: Seq<Seq<char>>)
    ensures
        first_duplicate(names) is None <==> names.no_duplicates(),
    decreases names.len(),
{
    if names.len() > 0 {
        let front = names.drop_last();
        law_duplicates_are_found(front);
        if first_duplicate(names) is None {
            assert forall|i: int, j: int| 0 <= i < names.len() && 0 <= j < names.len() && i
                != j implies names[i] != names[j] by {
                if i < front.len() && j < front.len() {
                    assert(front[i] != front[j]);
                } else if i < front.len() {
                    assert(front[i] == names[i]);
                } else {
                    assert(front[j] == names[j]);
                }
            }
        }
        if names.no_duplicates() {
            assert forall|i: int, j: int| 0 <= i < front.len() && 0 <= j < front.len() && i
                != j implies front[i] != front[j] by {
                assert(names[i] != names[j]);
            }
            if front.contains(names.last()) {
                let j = choose|j: int| 0 <= j < front.len() && front[j] == names.last();
                assert(names[j] == names[names.len() - 1]);
            }
        }
    }
}

/// Some namespace of the fragments lists the entity type `c` as a child of `p`.
pub open spec fn listed_in_fragments(
    fragments: Seq<Seq<NamespaceDefSpec>>,
    p: NameSpec,
    c: NameSpec,
) -> bool {
    exists|i: int, j: int|
        0 <= i < fragments.len() && 0 <= j < fragments[i].len() && lists_child(
            (#[trigger] fragments[i][j]).entity_types.children,
            p,
            c,
        )
}

/// One of the first `bound` namespaces lists the entity type `c` as a child of `p`.
spec fn listed_before(defs: Seq<NamespaceDefSpec>, bound: int, p: NameSpec, c: NameSpec) -> bool {
    exists|j: int|
        0 <= j < bound && j < defs.len() && lists_child(
            (#[trigger] defs[j]).entity_types.children,
            p,
            c,
        )
}

/// One of the first `bound` fragments lists the entity type `c` as a child of `p`.
spec fn listed_in_before(
    fragments: Seq<Seq<NamespaceDefSpec>>,
    bound: int,
    p: NameSpec,
    c: NameSpec,
) -> bool {
    exists|i: int|
        0 <= i < bound && i < fragments.len() && listed_before(
            #[trigger] fragments[i],
            fragments[i].len() as int,
            p,
            c,
        )
}

/// What the merged lists of children hold after the namespaces of one fragment.
proof fn lemma_fragment_children_united(
    fragments: Seq<Seq<NamespaceDefSpec>>,
    i: int,
    start: MergedSpec,
)
    requires
        0 <= i < fragments.len(),
        forall|p: NameSpec, c: NameSpec| #[trigger]
            lists_child(start.entity_children, p, c) <==> listed_in_before(fragments, i, p, c),
        merge_fragment_step()(start, fragments[i]) is Ok,
    ensures
        forall|p: NameSpec, c: NameSpec| #[trigger]
            lists_child(merge_fragment_step()(start, fragments[i])->Ok_0.entity_children, p, c)
                <==> listed_in_before(fragments, i + 1, p, c),
{
    let defs = fragments[i];
    let step = merge_step();
    let inv = |j: int, acc: MergedSpec|
        forall|p: NameSpec, c: NameSpec| #[trigger]
            lists_child(acc.entity_children, p, c) <==> listed_in_before(fragments, i, p, c)
                || listed_before(defs, j, p, c);
    assert(inv(0, start));
    assert forall|j: int, acc: MergedSpec|
        0 <= j < defs.len() && inv(j, acc) && (#[trigger] step(acc, defs[j])) is Ok implies inv(
        j + 1,
        step(acc, defs[j])->Ok_0,
    ) by {
        let next = step(acc, defs[j])->Ok_0;
        assert(next.entity_children == union_children(
            acc.entity_children,
            defs[j].entity_types.children,
        ));
        assert forall|p: NameSpec, c: NameSpec| #[trigger]
            lists_child(next.entity_children, p, c) <==> listed_in_before(fragments, i, p, c)
                || listed_before(defs, j + 1, p, c) by {
            lemma_union_children_lists(
                acc.entity_children,
                defs[j].entity_types.children,
                p,
                c,
            );
            assert(lists_child(acc.entity_children, p, c) <==> listed_in_before(
                fragments,
                i,
                p,
                c,
            ) || listed_before(defs, j, p, c));
            if listed_before(defs, j + 1, p, c) {
                let w = choose|w: int|
                    0 <= w < j + 1 && w < defs.len() && lists_child(
                        (#[trigger] defs[w]).entity_types.children,
                        p,
                        c,
                    );
                if w < j {
                    assert(lists_child(defs[w].entity_types.children, p, c));
                    assert(listed_before(defs, j, p, c));
                }
            }
            if listed_before(defs, j, p, c) {
                let w = choose|w: int|
                    0 <= w < j && w < defs.len() && lists_child(
                        (#[trigger] defs[w]).entity_types.children,
                        p,
                        c,
                    );
                assert(lists_child(defs[w].entity_types.children, p, c));
            }
            if lists_child(defs[j].entity_types.children, p, c) {
                assert(listed_before(defs, j + 1, p, c));
            }
        }
    }
    lemma_try_fold_invariant(defs, start, step, inv);
    let end = merge_fragment_step()(start, fragments[i])->Ok_0;
    assert(inv(defs.len() as int, end));
    assert forall|p: NameSpec, c: NameSpec| #[trigger]
        lists_child(end.entity_children, p, c) <==> listed_in_before(fragments, i + 1, p, c) by {
        assert(lists_child(end.entity_children, p, c) <==> listed_in_before(fragments, i, p, c)
            || listed_before(defs, defs.len() as int, p, c));
        if listed_in_before(fragments, i + 1, p, c) {
            let w = choose|w: int|
                0 <= w < i + 1 && w < fragments.len() && listed_before(
                    #[trigger] fragments[w],
                    fragments[w].len() as int,
                    p,
                    c,
                );
            if w < i {
                assert(listed_before(fragments[w], fragments[w].len() as int, p, c));
                assert(listed_in_before(fragments, i, p, c));
            }
        }
        if listed_in_before(fragments, i, p, c) {
            let w = choose|w: int|
                0 <= w < i && w < fragments.len() && listed_before(
                    #[trigger] fragments[w],
                    fragments[w].len() as int,
                    p,
                    c,
                );
            assert(listed_before(fragments[w], fragments[w].len() as int, p, c));
        }
        if listed_before(defs, defs.len() as int, p, c) {
            assert(listed_before(fragments[i], fragments[i].len() as int, p, c));
        }
    }
}

/// The lists of children are united: the merged declarations list an
/// entity type `c` as a child of `p` exactly if some namespace of some
/// fragment does.
pub proof fn law_merged_children_are_united(
    fragments: Seq<Seq<NamespaceDefSpec>>,
    p: NameSpec,
    c: NameSpec,
)
    requires
        merged(fragments) is Ok,
    ensures
        lists_child(merged(fragments)->Ok_0.entity_children, p, c) <==> listed_in_fragments(
            fragments,
            p,
            c,
        ),
{
    let step = merge_fragment_step();
    let inv = |i: int, acc: MergedSpec|
        forall|p: NameSpec, c: NameSpec| #[trigger]
            lists_child(acc.entity_children, p, c) <==> listed_in_before(fragments, i, p, c);
    assert(inv(0, MergedSpec::empty()));
    assert forall|i: int, acc: MergedSpec|
        0 <= i < fragments.len() && inv(i, acc) && (#[trigger] step(acc, fragments[i]))
            is Ok implies inv(i + 1, step(acc, fragments[i])->Ok_0) by {
        lemma_fragment_children_united(fragments, i, acc);
    }
    lemma_try_fold_invariant(fragments, MergedSpec::empty(), step, inv);
    let m = merged(fragments)->Ok_0;
    assert(inv(fragments.len() as int, m));
    assert(lists_child(m.entity_children, p, c) <==> listed_in_before(
        fragments,
        fragments.len() as int,
        p,
        c,
    ));
    if listed_in_before(fragments, fragments.len() as int, p, c) {
        let i = choose|i: int|
            0 <= i < fragments.len() && i < fragments.len() && listed_before(
                #[trigger] fragments[i],
                fragments[i].len() as int,
                p,
                c,
            );
        let j = choose|j: int|
            0 <= j < fragments[i].len() && j < fragments[i].len() && lists_child(
                (#[trigger] fragments[i][j]).entity_types.children,
                p,
                c,
            );
        assert(lists_child(fragments[i][j].entity_types.children, p, c));
    }
    if listed_in_fragments(fragments, p, c) {
        let (i, j) = choose|i: int, j: int|
            0 <= i < fragments.len() && 0 <= j < fragments[i].len() && lists_child(
                (#[trigger] fragments[i][j]).entity_types.children,
                p,
                c,
            );
        assert(lists_child(fragments[i][j].entity_types.children, p, c));
        assert(listed_before(fragments[i], fragments[i].len() as int, p, c));
        assert(listed_in_before(fragments, fragments.len() as int, p, c));
    }
}

/// The descendants of a declared entity type are the entity types that
/// reach it through declared membership: those that one gets to from it
/// by going, any number of times but at least once, from a declared
/// entity type to one that is listed as its child.
pub proof fn law_descendants_follow_membership(
    fragments: Seq<Seq<NamespaceDefSpec>>,
    m: MergedSpec,
    s: ValidatorSchemaSpec,
    name: NameSpec,
    d: NameSpec,
)
    requires
        merged(fragments) == Ok::<MergedSpec, SchemaErrorSpec>(m),
        schema_of(fragments) == Ok::<ValidatorSchemaSpec, SchemaErrorSpec>(s),
        has_key(s.entity_types, name),
    ensures
        lookup(s.entity_types, name) is Some,
        lookup(s.entity_types, name)->Some_0.descendants.contains(d) <==> reaches(
            entity_membership(m),
            name,
            d,
        ),
{
    let entities = try_fold(m.entity_attributes, Seq::empty(), entity_record_step(m))->Ok_0;
    lemma_entity_records_follow(m, entities);
    assert(s.entity_types == closed_entity_types(entities));
    lemma_has_key_first(s.entity_types, name);
    let i = first_index(s.entity_types, name);
    assert(s.entity_types[i].0 == name);
    assert(entities[i].0 == name);
}

/// The declared actions of `m`, each with the actions that are declared as
/// its members.
pub open spec fn action_membership(m: MergedSpec) -> Seq<(ActionIdSpec, Seq<ActionIdSpec>)> {
    m.action_context_applies_to.map_values(
        |e: (ActionIdSpec, (UnresolvedSpec, ApplySpecSpec))|
            (e.0, children_of(m.action_children, e.0)),
    )
}

/// The records of the actions follow the declarations.
proof fn lemma_action_records_follow(m: MergedSpec, actions: Seq<ActionRecordSpec>)
    requires
        try_fold(m.action_context_applies_to, Seq::empty(), action_record_step(m)) == Ok::<
            Seq<ActionRecordSpec>,
            SchemaErrorSpec,
        >(actions),
    ensures
        records_follow(actions, m.action_context_applies_to, m.action_children),
        graph_of(actions) == action_membership(m),
{
    let items = m.action_context_applies_to;
    let inv = |i: int, acc: Seq<ActionRecordSpec>|
        acc.len() == i && forall|j: int|
            0 <= j < i ==> (#[trigger] acc[j]).0 == items[j].0 && acc[j].1.0 == children_of(
                m.action_children,
                items[j].0,
            );
    let step = action_record_step(m);
    assert(inv(0, Seq::<ActionRecordSpec>::empty()));
    assert forall|i: int, acc: Seq<ActionRecordSpec>|
        0 <= i < items.len() && inv(i, acc) && (#[trigger] step(acc, items[i])) is Ok implies inv(
        i + 1,
        step(acc, items[i])->Ok_0,
    ) by {
        let next = step(acc, items[i])->Ok_0;
        assert(next.len() == i + 1);
        assert forall|j: int| 0 <= j < i + 1 implies (#[trigger] next[j]).0 == items[j].0
            && next[j].1.0 == children_of(m.action_children, items[j].0) by {
            if j < i {
                assert(next[j] == acc[j]);
            }
        }
    }
    lemma_try_fold_invariant(items, Seq::empty(), step, inv);
    assert(inv(items.len() as int, actions));
    assert(graph_of(actions) =~= action_membership(m));
}

/// The descendants of a declared action are the actions that reach it
/// through declared membership: those that one gets to from it by going,
/// any number of times but at least once, from a declared action to one
/// that is listed as its child. No action reaches itself.
pub proof fn law_action_descendants_follow_membership(
    fragments: Seq<Seq<NamespaceDefSpec>>,
    m: MergedSpec,
    s: ValidatorSchemaSpec,
    action: ActionIdSpec,
    d: ActionIdSpec,
)
    requires
        merged(fragments) == Ok::<MergedSpec, SchemaErrorSpec>(m),
        schema_of(fragments) == Ok::<ValidatorSchemaSpec, SchemaErrorSpec>(s),
        has_key(s.action_ids, action),
    ensures
        lookup(s.action_ids, action) is Some,
        lookup(s.action_ids, action)->Some_0.descendants.contains(d) <==> reaches(
            action_membership(m),
            action,
            d,
        ),
        !reaches(action_membership(m), action, action),
{
    let actions = try_fold(
        m.action_context_applies_to,
        Seq::empty(),
        action_record_step(m),
    )->Ok_0;
    lemma_action_records_follow(m, actions);
    assert(s.action_ids == closed_actions(actions));
    lemma_has_key_first(s.action_ids, action);
    let i = first_index(s.action_ids, action);
    assert(s.action_ids[i].0 == action);
    assert(actions[i].0 == action);
    let g = graph_of(actions);
    assert(g[i].0 == action);
    if reaches(g, action, action) {
        assert(reaches(g, g[i].0, g[i].0));
        assert(has_cycle(g));
    }
}

/// The action that the written reference `parent` names in the namespace
/// with the path `ns`.
pub open spec fn action_parent_named(ns: Seq<Seq<char>>, parent: ActionEntityUIDSpec) -> Option<
    ActionIdSpec,
> {
    match action_id_of(ns, parent) {
        Ok(p) => Some(p),
        Err(_) => None,
    }
}

/// The declaration `e` is that of the action `c` and names `p` among the
/// first `bound` actions that it is a member of.
pub open spec fn declares_action_member(
    ns: Seq<Seq<char>>,
    e: (Seq<char>, ActionTypeSpec),
    bound: int,
    p: ActionIdSpec,
    c: ActionIdSpec,
) -> bool {
    action_in_namespace(ns, e.0) == c && e.1.member_of is Some && exists|m: int|
        0 <= m < bound && m < e.1.member_of->Some_0.len() && action_parent_named(
            ns,
            #[trigger] e.1.member_of->Some_0[m],
        ) == Some(p)
}

/// The bound under which all parents of the declaration `e` are counted.
pub open spec fn all_parents(e: (Seq<char>, ActionTypeSpec)) -> int {
    match e.1.member_of {
        Some(parents) => parents.len() as int,
        None => 0,
    }
}

/// One of the first `bound` declarations is that of the action `c` and
/// names `p` among the actions that it is a member of.
pub open spec fn declared_action_member(
    ns: Seq<Seq<char>>,
    declared: Seq<(Seq<char>, ActionTypeSpec)>,
    bound: int,
    p: ActionIdSpec,
    c: ActionIdSpec,
) -> bool {
    exists|j: int|
        0 <= j < bound && j < declared.len() && declares_action_member(
            ns,
            #[trigger] declared[j],
            all_parents(declared[j]),
            p,
            c,
        )
}

/// What the lists of children hold after the parents of one declared action.
proof fn lemma_action_parents_inverted(
    ns: Seq<Seq<char>>,
    declared: Seq<(Seq<char>, ActionTypeSpec)>,
    i: int,
    start: Seq<(ActionIdSpec, Seq<ActionIdSpec>)>,
)
    requires
        0 <= i < declared.len(),
        forall|p: ActionIdSpec, c: ActionIdSpec| #[trigger]
            lists_child(start, p, c) <==> declared_action_member(ns, declared, i, p, c),
        action_children_step(ns)(start, declared[i]) is Ok,
    ensures
        forall|p: ActionIdSpec, c: ActionIdSpec| #[trigger]
            lists_child(action_children_step(ns)(start, declared[i])->Ok_0, p, c)
                <==> declared_action_member(ns, declared, i + 1, p, c),
{
    let e = declared[i];
    let end = action_children_step(ns)(start, declared[i])->Ok_0;
    match e.1.member_of {
        None => {
            assert(end == start);
        },
        Some(parents) => {
            let step = action_parent_step(ns, e.0);
            let inv = |m: int, acc: Seq<(ActionIdSpec, Seq<ActionIdSpec>)>|
                forall|p: ActionIdSpec, c: ActionIdSpec| #[trigger]
                    lists_child(acc, p, c) <==> declared_action_member(ns, declared, i, p, c)
                        || declares_action_member(ns, e, m, p, c);
            assert(inv(0, start));
            assert forall|m: int, acc: Seq<(ActionIdSpec, Seq<ActionIdSpec>)>|
                0 <= m < parents.len() && inv(m, acc) && (#[trigger] step(acc, parents[m]))
                    is Ok implies inv(m + 1, step(acc, parents[m])->Ok_0) by {
                let next = step(acc, parents[m])->Ok_0;
                let parent = action_parent_named(ns, parents[m])->Some_0;
                let child = action_in_namespace(ns, e.0);
                assert(next == add_child(acc, parent, child));
                assert forall|p: ActionIdSpec, c: ActionIdSpec| #[trigger]
                    lists_child(next, p, c) <==> declared_action_member(ns, declared, i, p, c)
                        || declares_action_member(ns, e, m + 1, p, c) by {
                    lemma_add_child_lists(acc, parent, child, p, c);
                    assert(lists_child(acc, p, c) <==> declared_action_member(
                        ns,
                        declared,
                        i,
                        p,
                        c,
                    ) || declares_action_member(ns, e, m, p, c));
                    if declares_action_member(ns, e, m + 1, p, c) && !declares_action_member(
                        ns,
                        e,
                        m,
                        p,
                        c,
                    ) {
                        let w = choose|w: int|
                            0 <= w < m + 1 && w < e.1.member_of->Some_0.len()
                                && action_parent_named(ns, #[trigger] e.1.member_of->Some_0[w])
                                == Some(p);
                        if w < m {
                            assert(action_parent_named(ns, e.1.member_of->Some_0[w]) == Some(p));
                        }
                        assert(w == m);
                    }
                    if declares_action_member(ns, e, m, p, c) {
                        let w = choose|w: int|
                            0 <= w < m && w < e.1.member_of->Some_0.len() && action_parent_named(
                                ns,
                                #[trigger] e.1.member_of->Some_0[w],
                            ) == Some(p);
                        assert(action_parent_named(ns, e.1.member_of->Some_0[w]) == Some(p));
                    }
                    if p == parent && c == child {
                        assert(action_parent_named(ns, e.1.member_of->Some_0[m]) == Some(p));
                        assert(declares_action_member(ns, e, m + 1, p, c));
                    }
                }
            }
            lemma_try_fold_invariant(parents, start, step, inv);
            assert(inv(parents.len() as int, end));
        },
    }
    assert forall|p: ActionIdSpec, c: ActionIdSpec| #[trigger]
        lists_child(end, p, c) <==> declared_action_member(ns, declared, i + 1, p, c) by {
        assert(lists_child(end, p, c) <==> declared_action_member(ns, declared, i, p, c)
            || declares_action_member(ns, e, all_parents(e), p, c));
        if declared_action_member(ns, declared, i + 1, p, c) {
            let j = choose|j: int|
                0 <= j < i + 1 && j < declared.len() && declares_action_member(
                    ns,
                    #[trigger] declared[j],
                    all_parents(declared[j]),
                    p,
                    c,
                );
            if j < i {
                assert(declares_action_member(ns, declared[j], all_parents(declared[j]), p, c));
                assert(declared_action_member(ns, declared, i, p, c));
            }
        }
        if declared_action_member(ns, declared, i, p, c) {
            let j = choose|j: int|
                0 <= j < i && j < declared.len() && declares_action_member(
                    ns,
                    #[trigger] declared[j],
                    all_parents(declared[j]),
                    p,
                    c,
                );
            assert(declares_action_member(ns, declared[j], all_parents(declared[j]), p, c));
        }
        if declares_action_member(ns, e, all_parents(e), p, c) {
            assert(declares_action_member(ns, declared[i], all_parents(declared[i]), p, c));
        }
    }
}

/// Membership of actions is turned round: the compiled declarations list
/// an action `c` as a child of `p` exactly if the declaration of `c` names
/// `p` among the actions that `c` is a member of.
pub proof fn law_action_children_invert_membership(
    ns: Seq<Seq<char>>,
    declared: Seq<(Seq<char>, ActionTypeSpec)>,
    p: ActionIdSpec,
    c: ActionIdSpec,
)
    requires
        actions_of(ns, declared) is Ok,
    ensures
        lists_child(actions_of(ns, declared)->Ok_0.children, p, c) <==> declared_action_member(
            ns,
            declared,
            declared.len() as int,
            p,
            c,
        ),
{
    let step = action_children_step(ns);
    let inv = |i: int, acc: Seq<(ActionIdSpec, Seq<ActionIdSpec>)>|
        forall|p: ActionIdSpec, c: ActionIdSpec| #[trigger]
            lists_child(acc, p, c) <==> declared_action_member(ns, declared, i, p, c);
    assert(inv(0, Seq::<(ActionIdSpec, Seq<ActionIdSpec>)>::empty()));
    assert forall|i: int, acc: Seq<(ActionIdSpec, Seq<ActionIdSpec>)>|
        0 <= i < declared.len() && inv(i, acc) && (#[trigger] step(acc, declared[i])) is Ok implies inv(
        i + 1,
        step(acc, declared[i])->Ok_0,
    ) by {
        lemma_action_parents_inverted(ns, declared, i, acc);
    }
    lemma_try_fold_invariant(declared, Seq::empty(), step, inv);
    let children = actions_of(ns, declared)->Ok_0.children;
    assert(inv(declared.len() as int, children));
}

} // verus!
