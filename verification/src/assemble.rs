//! From the compiled fragments to the compiled schema: the declarations are
//! merged, every type is resolved, the two hierarchies are closed, and the
//! result is checked for references to what is not declared.

use vstd::prelude::*;
use crate::deferred::{
    outcome_is, record_attributes, record_attributes_or_error, resolved, UnresolvedSpec,
};
use crate::err::{SchemaError, SchemaErrorSpec};
use crate::fold::{lemma_try_fold_all, lemma_try_fold_error, lemma_try_fold_next, try_fold};
use crate::fragment::ValidatorSchemaFragment;
use crate::keys::{clone_keys, find, has_key, lookup, DeepClone, Key};
use crate::merge::{merged, Merged, MergedSpec};
use crate::names::{ActionId, ActionIdSpec, NameSpec, QualifiedName};
use crate::namespace_def::{ApplySpecSpec, NamespaceDefSpec, ValidatorApplySpec};
use crate::keys::{distinct_keys, first_index, lemma_has_key_first};
use crate::namespace_def::children_declared;
use crate::transitive_closure::{
    compute_tc, edges_stay, has_cycle, has_key_node, is_closure, lemma_reaches_node,
    lemma_reaches_transitive, reaches,
};
use crate::types::names_in_attrs;
use crate::undeclared::{
    all_action_names, entity_attr_names, undeclared_entity_texts, undeclared_texts,
};
use crate::validator_schema::action_names;
use crate::names::name_text;
use crate::types::{clone_attributes, Attributes, AttributesSpec};
use crate::undeclared::undeclared_outcome;
use crate::validator_schema::{
    ValidatorActionId, ValidatorActionIdSpec, ValidatorEntityType, ValidatorEntityTypeSpec,
    ValidatorSchema, ValidatorSchemaSpec,
};

verus! {

/// The children that `children` lists for `k`; none where it lists none.
pub open spec fn children_of<A>(children: Seq<(A, Seq<A>)>, k: A) -> Seq<A> {
    match lookup(children, k) {
        Some(c) => c,
        None => Seq::empty(),
    }
}

/// The attributes that `attributes` holds for `k`; none where it holds none.
pub open spec fn attributes_of_key<A>(attributes: Seq<(A, AttributesSpec)>, k: A) -> AttributesSpec {
    match lookup(attributes, k) {
        Some(a) => a,
        None => Seq::empty(),
    }
}

/// The keys of `children` that are no key of `declared`, in order.
pub open spec fn undeclared_keys<A, B>(children: Seq<(A, Seq<A>)>, declared: Seq<(A, B)>) -> Seq<A>
    decreases children.len(),
{
    if children.len() == 0 {
        Seq::empty()
    } else if has_key(declared, children.last().0) {
        undeclared_keys(children.drop_last(), declared)
    } else {
        undeclared_keys(children.drop_last(), declared).push(children.last().0)
    }
}

/// An entity type before its descendants are known: its name, its
/// children, and its attributes.
pub type EntityRecordSpec = (NameSpec, (Seq<NameSpec>, AttributesSpec));

/// An action before its descendants are known: its identifier, its
/// children, what it applies to, its context, and its attributes.
pub type ActionRecordSpec = (
    ActionIdSpec,
    (Seq<ActionIdSpec>, (ApplySpecSpec, (AttributesSpec, AttributesSpec))),
);

/// One step of resolving the entity types: the shape must resolve to a record.
pub open spec fn entity_record_step(m: MergedSpec) -> spec_fn(
    Seq<EntityRecordSpec>,
    (NameSpec, UnresolvedSpec),
) -> Result<Seq<EntityRecordSpec>, SchemaErrorSpec> {
    |acc: Seq<EntityRecordSpec>, e: (NameSpec, UnresolvedSpec)|
        match resolved(e.1, m.type_defs) {
            Err(x) => Err(x),
            Ok(t) => match record_attributes(t) {
                Err(x) => Err(x),
                Ok(a) => Ok(acc.push((e.0, (children_of(m.entity_children, e.0), a)))),
            },
        }
}

/// One step of resolving the actions: the context must resolve to a record.
pub open spec fn action_record_step(m: MergedSpec) -> spec_fn(
    Seq<ActionRecordSpec>,
    (ActionIdSpec, (UnresolvedSpec, ApplySpecSpec)),
) -> Result<Seq<ActionRecordSpec>, SchemaErrorSpec> {
    |acc: Seq<ActionRecordSpec>, e: (ActionIdSpec, (UnresolvedSpec, ApplySpecSpec))|
        match resolved(e.1.0, m.type_defs) {
            Err(x) => Err(x),
            Ok(t) => match record_attributes(t) {
                Err(x) => Err(x),
                Ok(c) => Ok(
                    acc.push(
                        (
                            e.0,
                            (
                                children_of(m.action_children, e.0),
                                (e.1.1, (c, attributes_of_key(m.action_attributes, e.0))),
                            ),
                        ),
                    ),
                ),
            },
        }
}

/// The graph of the records: each key with its children.
pub open spec fn graph_of<A, B>(records: Seq<(A, (Seq<A>, B))>) -> Seq<(A, Seq<A>)> {
    records.map_values(|r: (A, (Seq<A>, B))| (r.0, r.1.0))
}

/// The entity types of the records, each with all that it reaches in the
/// graph of the records as its descendants.
pub open spec fn closed_entity_types(records: Seq<EntityRecordSpec>) -> Seq<
    (NameSpec, ValidatorEntityTypeSpec),
> {
    records.map_values(
        |r: EntityRecordSpec|
            (
                r.0,
                ValidatorEntityTypeSpec {
                    name: r.0,
                    descendants: Set::new(|b: NameSpec| reaches(graph_of(records), r.0, b)),
                    attributes: r.1.1,
                },
            ),
    )
}

/// The actions of the records, each with all that it reaches in the graph
/// of the records as its descendants.
pub open spec fn closed_actions(records: Seq<ActionRecordSpec>) -> Seq<
    (ActionIdSpec, ValidatorActionIdSpec),
> {
    records.map_values(
        |r: ActionRecordSpec|
            (
                r.0,
                ValidatorActionIdSpec {
                    name: r.0,
                    applies_to: r.1.1.0,
                    descendants: Set::new(|b: ActionIdSpec| reaches(graph_of(records), r.0, b)),
                    context: r.1.1.1.0,
                    attributes: r.1.1.1.1,
                },
            ),
    )
}

/// The schema that the merged declarations `m` stand for.
///
/// The shapes of the entity types are resolved first, then the contexts of
/// the actions; the first that fails to resolve to a record is the error.
/// Then an action that reaches itself through its children is an error.
/// Then the schema with all descendants must pass the consistency check,
/// the parents that are not declared being those that `m` lists children
/// for without a declaration.
pub open spec fn schema_of_merged(m: MergedSpec) -> Result<ValidatorSchemaSpec, SchemaErrorSpec> {
    match try_fold(m.entity_attributes, Seq::empty(), entity_record_step(m)) {
        Err(e) => Err(e),
        Ok(entities) => match try_fold(
            m.action_context_applies_to,
            Seq::empty(),
            action_record_step(m),
        ) {
            Err(e) => Err(e),
            Ok(actions) => if has_cycle(graph_of(actions)) {
                Err(SchemaErrorSpec::CycleInActionHierarchy)
            } else {
                match undeclared_outcome(
                    closed_entity_types(entities),
                    undeclared_keys(m.entity_children, m.entity_attributes),
                    closed_actions(actions),
                    undeclared_keys(m.action_children, m.action_context_applies_to),
                ) {
                    Err(e) => Err(e),
                    Ok(_) => Ok(
                        ValidatorSchemaSpec {
                            entity_types: closed_entity_types(entities),
                            action_ids: closed_actions(actions),
                        },
                    ),
                }
            },
        },
    }
}

/// The schema that the compiled fragments stand for, or why there is none.
pub open spec fn schema_of(fragments: Seq<Seq<NamespaceDefSpec>>) -> Result<
    ValidatorSchemaSpec,
    SchemaErrorSpec,
> {
    match merged(fragments) {
        Err(e) => Err(e),
        Ok(m) => schema_of_merged(m),
    }
}

/// The schema that a written fragment stands for by itself.
pub open spec fn schema_of_file(
    fragment: Seq<(Seq<char>, crate::schema_file_format::NamespaceDefinitionSpec)>,
    behavior: crate::namespace_def::ActionBehavior,
) -> Result<ValidatorSchemaSpec, SchemaErrorSpec> {
    match crate::fragment::compiled_fragment(fragment, behavior) {
        Err(e) => Err(e),
        Ok(defs) => schema_of(seq![defs]),
    }
}

/// The schema that the declarations of the root namespace stand for by
/// themselves.
pub open spec fn schema_of_definition(
    def: crate::schema_file_format::NamespaceDefinitionSpec,
    behavior: crate::namespace_def::ActionBehavior,
) -> Result<ValidatorSchemaSpec, SchemaErrorSpec> {
    match crate::compile::compiled_namespace(None, def, behavior) {
        Err(e) => Err(e),
        Ok(d) => schema_of(seq![seq![d]]),
    }
}

/// The keys of `children` that `declared` does not hold.
pub fn residual_keys<K: Key, X: DeepView>(children: &Vec<(K, Vec<K>)>, declared: &Vec<(K, X)>) -> (r:
    Vec<K>)
    ensures
        r.deep_view() == undeclared_keys(children.deep_view(), declared.deep_view()),
{
    let ghost items = children.deep_view();
    let mut out: Vec<K> = Vec::new();
    assert(out.deep_view() =~= Seq::<K::V>::empty());
    let mut i: usize = 0;
    while i < children.len()
        invariant
            i <= children.len(),
            items == children.deep_view(),
            out.deep_view() == undeclared_keys(items.take(i as int), declared.deep_view()),
        decreases children.len() - i,
    {
        proof {
            let t = items.take(i + 1);
            assert(t.drop_last() =~= items.take(i as int));
            assert(t.last().0 == children[i as int].0.deep_view());
        }
        if find(declared, &children[i].0).is_none() {
            let ghost before = out.deep_view();
            out.push(children[i].0.key_clone());
            assert(out.deep_view() =~= before.push(children[i as int].0.deep_view()));
        }
        i += 1;
    }
    assert(items.take(children.len() as int) =~= items);
    out
}

/// The children that `children` lists for `k`.
pub fn children_for<K: Key>(children: &Vec<(K, Vec<K>)>, k: &K) -> (r: Vec<K>)
    ensures
        r.deep_view() == children_of(children.deep_view(), k.deep_view()),
{
    match find(children, k) {
        Some(i) => {
            let r = clone_keys(&children[i].1);
            assert(children.deep_view()[i as int].1 == children[i as int].1.deep_view());
            r
        },
        None => {
            let r: Vec<K> = Vec::new();
            assert(r.deep_view() =~= Seq::<K::V>::empty());
            r
        },
    }
}

/// The graph of the records.
pub fn record_graph<K: Key, X: DeepView>(records: &Vec<(K, (Vec<K>, X))>) -> (r: Vec<(K, Vec<K>)>)
    ensures
        r.deep_view() == graph_of(records.deep_view()),
{
    let mut out: Vec<(K, Vec<K>)> = Vec::new();
    let mut i: usize = 0;
    while i < records.len()
        invariant
            i <= records.len(),
            out.len() == i,
            forall|j: int|
                0 <= j < i ==> (#[trigger] out.deep_view()[j]) == graph_of(records.deep_view())[j],
        decreases records.len() - i,
    {
        let ghost before = out.deep_view();
        let entry = (records[i].0.key_clone(), clone_keys(&records[i].1.0));
        assert(entry.deep_view() == graph_of(records.deep_view())[i as int]);
        out.push(entry);
        assert(out.deep_view() =~= before.push(entry.deep_view()));
        i += 1;
    }
    assert(out.deep_view() =~= graph_of(records.deep_view()));
    out
}

/// The records list the keys of `declared` in order, each with the
/// children that `children` lists for it.
pub open spec fn records_follow<A, B, C>(
    records: Seq<(A, (Seq<A>, B))>,
    declared: Seq<(A, C)>,
    children: Seq<(A, Seq<A>)>,
) -> bool {
    &&& records.len() == declared.len()
    &&& forall|j: int|
        0 <= j < records.len() ==> (#[trigger] records[j]).0 == declared[j].0 && records[j].1.0
            == children_of(children, declared[j].0)
}

/// The records of the actions hold, for each action, the attributes that
/// `attributes` holds for it.
pub open spec fn records_hold_attributes(
    records: Seq<ActionRecordSpec>,
    attributes: Seq<(ActionIdSpec, AttributesSpec)>,
) -> bool {
    forall|j: int|
        0 <= j < records.len() ==> (#[trigger] records[j]).1.1.1.1 == attributes_of_key(
            attributes,
            records[j].0,
        )
}

/// In the graph of records that follow well-formed declarations, no node is
/// listed twice and every edge leads to a node.
pub proof fn lemma_record_graph<A, B, C>(
    records: Seq<(A, (Seq<A>, B))>,
    declared: Seq<(A, C)>,
    children: Seq<(A, Seq<A>)>,
)
    requires
        records_follow(records, declared, children),
        distinct_keys(declared),
        children_declared(children, declared),
    ensures
        distinct_keys(graph_of(records)),
        edges_stay(graph_of(records)),
        forall|k: A| has_key_node(graph_of(records), k) <==> has_key(declared, k),
{
    let g = graph_of(records);
    assert forall|i: int, j: int| 0 <= i < j < g.len() implies (#[trigger] g[i]).0 != (
    #[trigger] g[j]).0 by {
        assert(records[i].0 == declared[i].0);
        assert(records[j].0 == declared[j].0);
    }
    assert forall|k: A| has_key_node(g, k) <==> has_key(declared, k) by {
        if has_key_node(g, k) {
            let j = choose|j: int| 0 <= j < g.len() && (#[trigger] g[j]).0 == k;
            assert(records[j].0 == declared[j].0);
            assert(declared[j].0 == k);
        }
        if has_key(declared, k) {
            let j = choose|j: int| 0 <= j < declared.len() && (#[trigger] declared[j]).0 == k;
            assert(records[j].0 == declared[j].0);
            assert(g[j].0 == k);
        }
    }
    assert forall|i: int, c: A| 0 <= i < g.len() && (#[trigger] g[i].1.contains(c)) implies has_key_node(
        g,
        c,
    ) by {
        assert(records[i].1.0 == children_of(children, declared[i].0));
        let k = declared[i].0;
        if has_key(children, k) {
            lemma_has_key_first(children, k);
            let f = first_index(children, k);
            assert(children[f].1.contains(c));
            assert(has_key(declared, c));
        } else {
            assert(false);
        }
    }
}

/// What is named in the attributes of one entity type is named in the
/// attributes of the entity types.
pub proof fn lemma_entity_attr_names(entity_types: Seq<(NameSpec, ValidatorEntityTypeSpec)>, i: int)
    requires
        0 <= i < entity_types.len(),
    ensures
        names_in_attrs(entity_types[i].1.attributes).subset_of(entity_attr_names(entity_types)),
    decreases entity_types.len(),
{
    if i < entity_types.len() - 1 {
        lemma_entity_attr_names(entity_types.drop_last(), i);
    }
}

/// What one action refers to is referred to by the actions.
pub proof fn lemma_all_action_names(action_ids: Seq<(ActionIdSpec, ValidatorActionIdSpec)>, i: int)
    requires
        0 <= i < action_ids.len(),
    ensures
        action_names(action_ids[i].1).subset_of(all_action_names(action_ids)),
    decreases action_ids.len(),
{
    if i < action_ids.len() - 1 {
        lemma_all_action_names(action_ids.drop_last(), i);
    }
}

/// The schema that is assembled from well-formed merged declarations and
/// passes the checks is well formed.
pub proof fn lemma_schema_wf(
    m: MergedSpec,
    entities: Seq<EntityRecordSpec>,
    actions: Seq<ActionRecordSpec>,
)
    requires
        m.wf(),
        records_follow(entities, m.entity_attributes, m.entity_children),
        records_follow(actions, m.action_context_applies_to, m.action_children),
        records_hold_attributes(actions, m.action_attributes),
        !has_cycle(graph_of(actions)),
        undeclared_outcome(
            closed_entity_types(entities),
            undeclared_keys(m.entity_children, m.entity_attributes),
            closed_actions(actions),
            undeclared_keys(m.action_children, m.action_context_applies_to),
        ) is Ok,
    ensures
        (ValidatorSchemaSpec {
            entity_types: closed_entity_types(entities),
            action_ids: closed_actions(actions),
        }).wf(),
{
    let et = closed_entity_types(entities);
    let ai = closed_actions(actions);
    let ge = graph_of(entities);
    let ga = graph_of(actions);
    lemma_record_graph(entities, m.entity_attributes, m.entity_children);
    lemma_record_graph(actions, m.action_context_applies_to, m.action_children);
    assert forall|k: NameSpec| has_key(et, k) <==> has_key_node(ge, k) by {
        if has_key(et, k) {
            let j = choose|j: int| 0 <= j < et.len() && (#[trigger] et[j]).0 == k;
            assert(ge[j].0 == k);
        }
        if has_key_node(ge, k) {
            let j = choose|j: int| 0 <= j < ge.len() && (#[trigger] ge[j]).0 == k;
            assert(et[j].0 == k);
        }
    }
    assert forall|k: ActionIdSpec| has_key(ai, k) <==> has_key_node(ga, k) by {
        if has_key(ai, k) {
            let j = choose|j: int| 0 <= j < ai.len() && (#[trigger] ai[j]).0 == k;
            assert(ga[j].0 == k);
        }
        if has_key_node(ga, k) {
            let j = choose|j: int| 0 <= j < ga.len() && (#[trigger] ga[j]).0 == k;
            assert(ai[j].0 == k);
        }
    }
    assert(distinct_keys(et)) by {
        assert forall|i: int, j: int| 0 <= i < j < et.len() implies (#[trigger] et[i]).0 != (
        #[trigger] et[j]).0 by {
            assert(ge[i].0 != ge[j].0);
        }
    }
    assert forall|i: int| 0 <= i < et.len() implies (#[trigger] et[i]).0.base
        != crate::names::action_type_base() by {
        assert(entities[i].0 == m.entity_attributes[i].0);
    }
    assert(distinct_keys(ai)) by {
        assert forall|i: int, j: int| 0 <= i < j < ai.len() implies (#[trigger] ai[i]).0 != (
        #[trigger] ai[j]).0 by {
            assert(ga[i].0 != ga[j].0);
        }
    }
    assert forall|i: int, q: NameSpec|
        0 <= i < et.len() && (#[trigger] et[i].1.descendants.contains(q)) implies has_key(
        et,
        q,
    ) by {
        lemma_reaches_node(ge, entities[i].0, q);
    }
    assert forall|i: int, j: int, q: NameSpec|
        0 <= i < et.len() && 0 <= j < et.len() && (#[trigger] et[i].1.descendants.contains(
            et[j].0,
        )) && (#[trigger] et[j].1.descendants.contains(q)) implies et[i].1.descendants.contains(
        q,
    ) by {
        assert(ge[j].0 == et[j].0);
        lemma_reaches_transitive(ge, entities[i].0, entities[j].0, q);
    }
    assert forall|i: int, a: ActionIdSpec|
        0 <= i < ai.len() && (#[trigger] ai[i].1.descendants.contains(a)) implies has_key(
        ai,
        a,
    ) by {
        lemma_reaches_node(ga, actions[i].0, a);
    }
    assert forall|i: int, j: int, a: ActionIdSpec|
        0 <= i < ai.len() && 0 <= j < ai.len() && (#[trigger] ai[i].1.descendants.contains(
            ai[j].0,
        )) && (#[trigger] ai[j].1.descendants.contains(a)) implies ai[i].1.descendants.contains(
        a,
    ) by {
        assert(ga[j].0 == ai[j].0);
        lemma_reaches_transitive(ga, actions[i].0, actions[j].0, a);
    }
    assert forall|i: int| 0 <= i < ai.len() implies !(#[trigger] ai[i]).1.descendants.contains(
        ai[i].0,
    ) by {
        assert(ga[i].0 == actions[i].0);
        if reaches(ga, actions[i].0, actions[i].0) {
            assert(reaches(ga, ga[i].0, ga[i].0));
            assert(has_cycle(ga));
        }
    }
    let parents = undeclared_keys(m.entity_children, m.entity_attributes);
    let e = undeclared_entity_texts(et, parents, ai);
    assert(e == Set::<Seq<char>>::empty());
    assert forall|i: int, q: NameSpec|
        0 <= i < et.len() && (#[trigger] names_in_attrs(et[i].1.attributes).contains(
            q,
        )) implies has_key(et, q) by {
        lemma_entity_attr_names(et, i);
        if !has_key(et, q) {
            assert(entity_attr_names(et).contains(q));
            assert(undeclared_texts(entity_attr_names(et), et).contains(name_text(q)));
            assert(e.contains(name_text(q)));
        }
    }
    assert forall|i: int, q: NameSpec|
        0 <= i < ai.len() && (#[trigger] names_in_attrs(ai[i].1.attributes).contains(
            q,
        )) implies has_key(et, q) by {
        let k = actions[i].0;
        assert(actions[i].1.1.1.1 == attributes_of_key(m.action_attributes, k));
        if has_key(m.action_attributes, k) {
            lemma_has_key_first(m.action_attributes, k);
            let f = first_index(m.action_attributes, k);
            assert(names_in_attrs(m.action_attributes[f].1) == Set::<NameSpec>::empty());
        }
        assert(false);
    }
    assert forall|i: int, q: NameSpec|
        0 <= i < ai.len() && (#[trigger] action_names(ai[i].1).contains(q)) implies has_key(
        et,
        q,
    ) by {
        lemma_all_action_names(ai, i);
        if !has_key(et, q) {
            assert(all_action_names(ai).contains(q));
            assert(undeclared_texts(all_action_names(ai), et).contains(name_text(q)));
            assert(e.contains(name_text(q)));
        }
    }
}

impl ValidatorSchema {
    /// Resolves the shape of every declared entity type, and lists each
    /// with its children.
    pub fn resolve_entity_types(m: &Merged) -> (r: Result<
        Vec<(QualifiedName, (Vec<QualifiedName>, Attributes))>,
        SchemaError,
    >)
        ensures
            outcome_is(r, try_fold(m@.entity_attributes, Seq::empty(), entity_record_step(m@))),
            r matches Ok(records) ==> records_follow(
                records.deep_view(),
                m@.entity_attributes,
                m@.entity_children,
            ),
    {
        let ghost step = entity_record_step(m@);
        let ghost items = m@.entity_attributes;
        let mut out: Vec<(QualifiedName, (Vec<QualifiedName>, Attributes))> = Vec::new();
        assert(out.deep_view() =~= Seq::empty());
        let mut i: usize = 0;
        while i < m.entity_attributes.len()
            invariant
                i <= m.entity_attributes.len(),
                step == entity_record_step(m@),
                items == m@.entity_attributes,
                out.len() == i,
                try_fold(items.take(i as int), Seq::empty(), step) == Ok::<
                    Seq<EntityRecordSpec>,
                    SchemaErrorSpec,
                >(out.deep_view()),
                forall|j: int|
                    0 <= j < i ==> (#[trigger] out.deep_view()[j]).0 == items[j].0
                        && out.deep_view()[j].1.0 == children_of(m@.entity_children, items[j].0),
            decreases m.entity_attributes.len() - i,
        {
            proof {
                lemma_try_fold_next(items, Seq::empty(), step, i as int);
                lemma_try_fold_error(items, Seq::empty(), step, i + 1);
                assert(items[i as int] == (
                    m.entity_attributes[i as int].0@,
                    m.entity_attributes[i as int].1@,
                ));
            }
            let name = &m.entity_attributes[i].0;
            let ty = match m.entity_attributes[i].1.resolve_type_defs(&m.type_defs) {
                Ok(t) => t,
                Err(e) => {
                    return Err(e);
                },
            };
            let attributes = match record_attributes_or_error(ty) {
                Ok(a) => a,
                Err(e) => {
                    return Err(e);
                },
            };
            let descendants = children_for(&m.entity_children, name);
            let ghost before = out.deep_view();
            let entry = (name.key_clone(), (descendants, attributes));
            out.push(entry);
            assert(out.deep_view() =~= before.push(entry.deep_view()));
            i += 1;
        }
        proof {
            lemma_try_fold_all(items, Seq::empty(), step);
        }
        Ok(out)
    }

    /// Resolves the context of every declared action, and lists each with
    /// its children, what it applies to, and its attributes.
    pub fn resolve_actions(m: &Merged) -> (r: Result<
        Vec<(ActionId, (Vec<ActionId>, (ValidatorApplySpec, (Attributes, Attributes))))>,
        SchemaError,
    >)
        ensures
            outcome_is(
                r,
                try_fold(m@.action_context_applies_to, Seq::empty(), action_record_step(m@)),
            ),
            r matches Ok(records) ==> records_follow(
                records.deep_view(),
                m@.action_context_applies_to,
                m@.action_children,
            ) && records_hold_attributes(records.deep_view(), m@.action_attributes),
    {
        let ghost step = action_record_step(m@);
        let ghost items = m@.action_context_applies_to;
        let mut out: Vec<
            (ActionId, (Vec<ActionId>, (ValidatorApplySpec, (Attributes, Attributes)))),
        > = Vec::new();
        assert(out.deep_view() =~= Seq::empty());
        let mut i: usize = 0;
        while i < m.action_context_applies_to.len()
            invariant
                i <= m.action_context_applies_to.len(),
                step == action_record_step(m@),
                items == m@.action_context_applies_to,
                out.len() == i,
                try_fold(items.take(i as int), Seq::empty(), step) == Ok::<
                    Seq<ActionRecordSpec>,
                    SchemaErrorSpec,
                >(out.deep_view()),
                forall|j: int|
                    0 <= j < i ==> (#[trigger] out.deep_view()[j]).0 == items[j].0
                        && out.deep_view()[j].1.0 == children_of(m@.action_children, items[j].0)
                        && out.deep_view()[j].1.1.1.1 == attributes_of_key(
                        m@.action_attributes,
                        items[j].0,
                    ),
            decreases m.action_context_applies_to.len() - i,
        {
            let name = &m.action_context_applies_to[i].0;
            let context = &m.action_context_applies_to[i].1.0;
            let applies_to = &m.action_context_applies_to[i].1.1;
            proof {
                lemma_try_fold_next(items, Seq::empty(), step, i as int);
                lemma_try_fold_error(items, Seq::empty(), step, i + 1);
                assert(items[i as int] == (name@, (context@, applies_to@)));
            }
            let descendants = children_for(&m.action_children, name);
            let attributes = match find(&m.action_attributes, name) {
                Some(k) => {
                    assert(m@.action_attributes[k as int].1 == m.action_attributes[k as int].1@);
                    clone_attributes(&m.action_attributes[k].1)
                },
                None => {
                    let a = Attributes { attrs: Vec::new() };
                    assert(a@ =~= Seq::empty());
                    a
                },
            };
            let ty = match context.resolve_type_defs(&m.type_defs) {
                Ok(t) => t,
                Err(e) => {
                    return Err(e);
                },
            };
            let context_attributes = match record_attributes_or_error(ty) {
                Ok(a) => a,
                Err(e) => {
                    return Err(e);
                },
            };
            let ghost before = out.deep_view();
            let entry = (
                name.key_clone(),
                (descendants, (applies_to.deep_clone(), (context_attributes, attributes))),
            );
            out.push(entry);
            assert(out.deep_view() =~= before.push(entry.deep_view()));
            i += 1;
        }
        proof {
            lemma_try_fold_all(items, Seq::empty(), step);
        }
        Ok(out)
    }

    /// Gives every entity type all that it reaches as its descendants.
    pub fn close_entity_types(records: &Vec<(QualifiedName, (Vec<QualifiedName>, Attributes))>) -> (r:
        Vec<(QualifiedName, ValidatorEntityType)>)
        requires
            distinct_keys(graph_of(records.deep_view())),
        ensures
            r.deep_view() == closed_entity_types(records.deep_view()),
            forall|i: int|
                0 <= i < r.len() ==> (#[trigger] r[i]).1.descendants.deep_view().no_duplicates(),
    {
        let graph = record_graph(records);
        let rows = match compute_tc(&graph, false) {
            Ok(rows) => rows,
            Err(_) => {
                assert(false);
                Vec::new()
            },
        };
        let ghost g = graph_of(records.deep_view());
        let ghost target = closed_entity_types(records.deep_view());
        let mut out: Vec<(QualifiedName, ValidatorEntityType)> = Vec::new();
        let mut i: usize = 0;
        while i < records.len()
            invariant
                i <= records.len(),
                out.len() == i,
                g == graph_of(records.deep_view()),
                target == closed_entity_types(records.deep_view()),
                is_closure(g, rows.deep_view()),
                forall|j: int| 0 <= j < i ==> (#[trigger] out.deep_view()[j]) == target[j],
                forall|j: int|
                    0 <= j < i ==> (#[trigger] out[j]).1.descendants.deep_view().no_duplicates(),
            decreases records.len() - i,
        {
            let entity = ValidatorEntityType {
                name: records[i].0.key_clone(),
                descendants: clone_keys(&rows[i]),
                attributes: clone_attributes(&records[i].1.1),
            };
            proof {
                assert(g[i as int].0 == records.deep_view()[i as int].0);
                assert(rows.deep_view()[i as int] == rows[i as int].deep_view());
                assert(entity@.descendants =~= target[i as int].1.descendants) by {
                    assert forall|b: NameSpec|
                        entity@.descendants.contains(b) <==> target[i as int].1.descendants.contains(
                            b,
                        ) by {
                        assert(rows.deep_view()[i as int].contains(b) <==> reaches(
                            g,
                            g[i as int].0,
                            b,
                        ));
                    }
                }
            }
            let ghost before = out.deep_view();
            let entry = (records[i].0.key_clone(), entity);
            out.push(entry);
            assert(out.deep_view() =~= before.push(entry.deep_view()));
            i += 1;
        }
        assert(out.deep_view() =~= target);
        out
    }

    /// Gives every action all that it reaches as its descendants, unless
    /// an action reaches itself.
    pub fn close_actions(
        records: &Vec<(ActionId, (Vec<ActionId>, (ValidatorApplySpec, (Attributes, Attributes))))>,
    ) -> (r: Result<Vec<(ActionId, ValidatorActionId)>, SchemaError>)
        requires
            distinct_keys(graph_of(records.deep_view())),
        ensures
            match r {
                Ok(a) => !has_cycle(graph_of(records.deep_view())) && a.deep_view()
                    == closed_actions(records.deep_view()) && forall|i: int|
                    0 <= i < a.len() ==> (#[trigger] a[i]).1.descendants.deep_view().no_duplicates(),
                Err(e) => has_cycle(graph_of(records.deep_view())) && e@
                    == SchemaErrorSpec::CycleInActionHierarchy,
            },
    {
        let graph = record_graph(records);
        let rows = match compute_tc(&graph, true) {
            Ok(rows) => rows,
            Err(_) => {
                return Err(SchemaError::CycleInActionHierarchy);
            },
        };
        let ghost g = graph_of(records.deep_view());
        let ghost target = closed_actions(records.deep_view());
        let mut out: Vec<(ActionId, ValidatorActionId)> = Vec::new();
        let mut i: usize = 0;
        while i < records.len()
            invariant
                i <= records.len(),
                out.len() == i,
                g == graph_of(records.deep_view()),
                target == closed_actions(records.deep_view()),
                is_closure(g, rows.deep_view()),
                forall|j: int| 0 <= j < i ==> (#[trigger] out.deep_view()[j]) == target[j],
                forall|j: int|
                    0 <= j < i ==> (#[trigger] out[j]).1.descendants.deep_view().no_duplicates(),
            decreases records.len() - i,
        {
            let action = ValidatorActionId {
                name: records[i].0.key_clone(),
                applies_to: records[i].1.1.0.deep_clone(),
                descendants: clone_keys(&rows[i]),
                context: clone_attributes(&records[i].1.1.1.0),
                attributes: clone_attributes(&records[i].1.1.1.1),
            };
            proof {
                assert(g[i as int].0 == records.deep_view()[i as int].0);
                assert(rows.deep_view()[i as int] == rows[i as int].deep_view());
                assert(action@.descendants =~= target[i as int].1.descendants) by {
                    assert forall|b: ActionIdSpec|
                        action@.descendants.contains(b) <==> target[i as int].1.descendants.contains(
                            b,
                        ) by {
                        assert(rows.deep_view()[i as int].contains(b) <==> reaches(
                            g,
                            g[i as int].0,
                            b,
                        ));
                    }
                }
            }
            let ghost before = out.deep_view();
            let entry = (records[i].0.key_clone(), action);
            out.push(entry);
            assert(out.deep_view() =~= before.push(entry.deep_view()));
            i += 1;
        }
        assert(out.deep_view() =~= target);
        Ok(out)
    }

    /// Compiles the schema that the fragments make together.
    pub fn from_schema_fragments(fragments: Vec<ValidatorSchemaFragment>) -> (r: Result<
        ValidatorSchema,
        SchemaError,
    >)
        ensures
            outcome_is(r, schema_of(fragments.deep_view())),
            r matches Ok(s) ==> s@.wf() && s.lists_descendants_once(),
    {
        let mut m = Merged::new();
        match m.merge_fragments(&fragments) {
            Ok(_) => {},
            Err(e) => {
                return Err(e);
            },
        }
        let entities = match Self::resolve_entity_types(&m) {
            Ok(records) => records,
            Err(e) => {
                return Err(e);
            },
        };
        let actions = match Self::resolve_actions(&m) {
            Ok(records) => records,
            Err(e) => {
                return Err(e);
            },
        };
        proof {
            lemma_record_graph(entities.deep_view(), m@.entity_attributes, m@.entity_children);
            lemma_record_graph(
                actions.deep_view(),
                m@.action_context_applies_to,
                m@.action_children,
            );
        }
        let entity_types = Self::close_entity_types(&entities);
        let action_ids = match Self::close_actions(&actions) {
            Ok(a) => a,
            Err(e) => {
                return Err(e);
            },
        };
        let undeclared_parent_entities = residual_keys(&m.entity_children, &m.entity_attributes);
        let undeclared_parent_actions = residual_keys(
            &m.action_children,
            &m.action_context_applies_to,
        );
        match Self::check_for_undeclared(
            &entity_types,
            &undeclared_parent_entities,
            &action_ids,
            &undeclared_parent_actions,
        ) {
            Ok(_) => {},
            Err(e) => {
                return Err(e);
            },
        }
        proof {
            lemma_schema_wf(m@, entities.deep_view(), actions.deep_view());
        }
        Ok(ValidatorSchema::from_parts(entity_types, action_ids))
    }
}

impl ValidatorSchema {
    /// Compiles the schema that one written fragment makes by itself.
    pub fn from_schema_file(
        schema_file: crate::schema_file_format::SchemaFragment,
        action_behavior: crate::namespace_def::ActionBehavior,
    ) -> (r: Result<ValidatorSchema, SchemaError>)
        ensures
            outcome_is(r, schema_of_file(schema_file@, action_behavior)),
            r matches Ok(s) ==> s@.wf() && s.lists_descendants_once(),
    {
        let fragment = match ValidatorSchemaFragment::from_schema_fragment(
            schema_file,
            action_behavior,
        ) {
            Ok(f) => f,
            Err(e) => {
                return Err(e);
            },
        };
        let mut fragments: Vec<ValidatorSchemaFragment> = Vec::new();
        fragments.push(fragment);
        assert(fragments.deep_view() =~= seq![fragment@]);
        Self::from_schema_fragments(fragments)
    }

    /// Compiles the schema that the declarations of the root namespace make
    /// by themselves.
    pub fn from_namespace_definition(
        namespace_def: &crate::schema_file_format::NamespaceDefinition,
        action_behavior: crate::namespace_def::ActionBehavior,
    ) -> (r: Result<ValidatorSchema, SchemaError>)
        ensures
            outcome_is(r, schema_of_definition(namespace_def@, action_behavior)),
            r matches Ok(s) ==> s@.wf() && s.lists_descendants_once(),
    {
        let def = match crate::namespace_def::ValidatorNamespaceDef::from_namespace_definition(
            None,
            namespace_def,
            action_behavior,
        ) {
            Ok(d) => d,
            Err(e) => {
                return Err(e);
            },
        };
        let mut defs: Vec<crate::namespace_def::ValidatorNamespaceDef> = Vec::new();
        defs.push(def);
        assert(defs.deep_view() =~= seq![def@]);
        let mut fragments: Vec<ValidatorSchemaFragment> = Vec::new();
        fragments.push(ValidatorSchemaFragment::from_namespaces(defs));
        assert(fragments.deep_view() =~= seq![seq![def@]]);
        Self::from_schema_fragments(fragments)
    }
}

} // verus!
