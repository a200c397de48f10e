//! Merging the compiled namespaces of all fragments into one set of
//! declarations.

use vstd::prelude::*;
use crate::deferred::{UnresolvedSpec, WithUnresolvedTypeDefs};
use crate::err::{SchemaError, SchemaErrorSpec};
use crate::fold::{lemma_try_fold_all, lemma_try_fold_error, lemma_try_fold_next, try_fold};
use crate::fragment::ValidatorSchemaFragment;
use crate::keys::{
    add_children, distinct_keys, find, has_key, insert_children, lemma_add_children_lists,
    lemma_add_children_members, lists_child, DeepClone, Key,
};
use crate::names::{action_id_text, name_text, ActionId, ActionIdSpec, NameSpec, QualifiedName};
use crate::namespace_def::{
    attributes_name_nothing, avoids_builtin_names, children_declared, declares_no_action_type,
    ApplySpecSpec, NamespaceDefSpec, ValidatorApplySpec,
    ValidatorNamespaceDef,
};
use crate::types::{names_in_attrs, Attributes, AttributesSpec, Type, TypeSpec};

verus! {

/// The mathematical value of the merged declarations.
pub struct MergedSpec {
    pub type_defs: Seq<(NameSpec, TypeSpec)>,
    pub entity_attributes: Seq<(NameSpec, UnresolvedSpec)>,
    pub entity_children: Seq<(NameSpec, Seq<NameSpec>)>,
    pub action_context_applies_to: Seq<(ActionIdSpec, (UnresolvedSpec, ApplySpecSpec))>,
    pub action_children: Seq<(ActionIdSpec, Seq<ActionIdSpec>)>,
    pub action_attributes: Seq<(ActionIdSpec, AttributesSpec)>,
}

impl MergedSpec {
    /// No declarations at all.
    pub open spec fn empty() -> MergedSpec {
        MergedSpec {
            type_defs: Seq::empty(),
            entity_attributes: Seq::empty(),
            entity_children: Seq::empty(),
            action_context_applies_to: Seq::empty(),
            action_children: Seq::empty(),
            action_attributes: Seq::empty(),
        }
    }

    /// Nothing is declared twice, no parent is listed twice, every child is
    /// declared, the attributes of actions name no entity type, no common
    /// type has a built-in name, and no entity type has the base that is
    /// kept for actions.
    pub open spec fn wf(self) -> bool {
        &&& distinct_keys(self.type_defs)
        &&& distinct_keys(self.entity_attributes)
        &&& distinct_keys(self.entity_children)
        &&& distinct_keys(self.action_context_applies_to)
        &&& distinct_keys(self.action_children)
        &&& distinct_keys(self.action_attributes)
        &&& children_declared(self.entity_children, self.entity_attributes)
        &&& children_declared(self.action_children, self.action_context_applies_to)
        &&& attributes_name_nothing(self.action_attributes)
        &&& avoids_builtin_names(self.type_defs)
        &&& declares_no_action_type(self.entity_attributes)
    }
}

/// The declarations of all namespaces seen so far.
pub struct Merged {
    pub type_defs: Vec<(QualifiedName, Type)>,
    pub entity_attributes: Vec<(QualifiedName, WithUnresolvedTypeDefs)>,
    pub entity_children: Vec<(QualifiedName, Vec<QualifiedName>)>,
    pub action_context_applies_to: Vec<(ActionId, (WithUnresolvedTypeDefs, ValidatorApplySpec))>,
    pub action_children: Vec<(ActionId, Vec<ActionId>)>,
    pub action_attributes: Vec<(ActionId, Attributes)>,
}

impl View for Merged {
    type V = MergedSpec;

    open spec fn view(&self) -> MergedSpec {
        MergedSpec {
            type_defs: self.type_defs.deep_view(),
            entity_attributes: self.entity_attributes.deep_view(),
            entity_children: self.entity_children.deep_view(),
            action_context_applies_to: self.action_context_applies_to.deep_view(),
            action_children: self.action_children.deep_view(),
            action_attributes: self.action_attributes.deep_view(),
        }
    }
}

impl DeepView for Merged {
    type V = MergedSpec;

    open spec fn deep_view(&self) -> MergedSpec {
        self@
    }
}

/// The keys of `t` are those of `a` and those of `b`.
pub open spec fn keys_united<A, B>(t: Seq<(A, B)>, a: Seq<(A, B)>, b: Seq<(A, B)>) -> bool {
    forall|k: A|
        #![trigger has_key(t, k)]
        #![trigger has_key(a, k)]
        #![trigger has_key(b, k)]
        has_key(t, k) <==> has_key(a, k) || has_key(b, k)
}

/// One step of adding entries under new keys: an entry whose key is taken
/// fails with that key.
pub open spec fn add_new<A, B>() -> spec_fn(Seq<(A, B)>, (A, B)) -> Result<Seq<(A, B)>, A> {
    |acc: Seq<(A, B)>, e: (A, B)|
        if has_key(acc, e.0) {
            Err(e.0)
        } else {
            Ok(acc.push(e))
        }
}

/// `acc` with the entries of `more` appended, or the first key of `more`
/// that is taken when its turn comes.
pub open spec fn with_new<A, B>(acc: Seq<(A, B)>, more: Seq<(A, B)>) -> Result<Seq<(A, B)>, A> {
    try_fold(more, acc, add_new())
}

/// The children lists `acc` with those of `more` added: a parent that both
/// list has the children of both.
pub open spec fn union_children<A>(acc: Seq<(A, Seq<A>)>, more: Seq<(A, Seq<A>)>) -> Seq<
    (A, Seq<A>),
>
    decreases more.len(),
{
    if more.len() == 0 {
        acc
    } else {
        add_children(union_children(acc, more.drop_last()), more.last().0, more.last().1)
    }
}

/// The declarations `acc` with those of the namespace `d` added. A common
/// type, an entity type or an action that is declared already is an error
/// that reports its name; lists of children are united.
pub open spec fn merged_with(acc: MergedSpec, d: NamespaceDefSpec) -> Result<
    MergedSpec,
    SchemaErrorSpec,
> {
    match with_new(acc.type_defs, d.type_defs) {
        Err(k) => Err(SchemaErrorSpec::DuplicateCommonType(name_text(k))),
        Ok(type_defs) => match with_new(acc.entity_attributes, d.entity_types.attributes) {
            Err(k) => Err(SchemaErrorSpec::DuplicateEntityType(name_text(k))),
            Ok(entity_attributes) => match with_new(
                acc.action_context_applies_to,
                d.actions.context_applies_to,
            ) {
                Err(k) => Err(SchemaErrorSpec::DuplicateAction(action_id_text(k))),
                Ok(action_context_applies_to) => match with_new(
                    acc.action_attributes,
                    d.actions.attributes,
                ) {
                    Err(k) => Err(SchemaErrorSpec::DuplicateAction(action_id_text(k))),
                    Ok(action_attributes) => Ok(
                        MergedSpec {
                            type_defs,
                            entity_attributes,
                            entity_children: union_children(
                                acc.entity_children,
                                d.entity_types.children,
                            ),
                            action_context_applies_to,
                            action_children: union_children(
                                acc.action_children,
                                d.actions.children,
                            ),
                            action_attributes,
                        },
                    ),
                },
            },
        },
    }
}

/// One step of merging: one more namespace.
pub open spec fn merge_step() -> spec_fn(MergedSpec, NamespaceDefSpec) -> Result<
    MergedSpec,
    SchemaErrorSpec,
> {
    |acc: MergedSpec, d: NamespaceDefSpec| merged_with(acc, d)
}

/// One step of merging: the namespaces of one more fragment.
pub open spec fn merge_fragment_step() -> spec_fn(MergedSpec, Seq<NamespaceDefSpec>) -> Result<
    MergedSpec,
    SchemaErrorSpec,
> {
    |acc: MergedSpec, f: Seq<NamespaceDefSpec>| try_fold(f, acc, merge_step())
}

/// The declarations of all namespaces of all fragments, merged in order.
pub open spec fn merged(fragments: Seq<Seq<NamespaceDefSpec>>) -> Result<
    MergedSpec,
    SchemaErrorSpec,
> {
    try_fold(fragments, MergedSpec::empty(), merge_fragment_step())
}

/// Appends copies of the entries of `more` to `acc`, unless a key of `more`
/// is taken when its turn comes: then that entry's position is returned.
pub fn merge_entries<K: Key, X: DeepClone>(acc: &mut Vec<(K, X)>, more: &Vec<(K, X)>) -> (r: Result<
    (),
    usize,
>)
    requires
        distinct_keys(old(acc).deep_view()),
    ensures
        match r {
            Ok(_) => with_new(old(acc).deep_view(), more.deep_view()) == Ok::<
                Seq<(K::V, X::V)>,
                K::V,
            >(final(acc).deep_view()) && distinct_keys(final(acc).deep_view()) && keys_united(
                final(acc).deep_view(),
                old(acc).deep_view(),
                more.deep_view(),
            ) && final(acc).deep_view() == old(acc).deep_view() + more.deep_view(),
            Err(i) => i < more.len() && with_new(old(acc).deep_view(), more.deep_view()) == Err::<
                Seq<(K::V, X::V)>,
                K::V,
            >(more.deep_view()[i as int].0),
        },
{
    let ghost start = acc.deep_view();
    let ghost items = more.deep_view();
    let ghost step = add_new::<K::V, X::V>();
    assert(start =~= start + items.take(0));
    let mut i: usize = 0;
    while i < more.len()
        invariant
            i <= more.len(),
            start == old(acc).deep_view(),
            items == more.deep_view(),
            step == add_new::<K::V, X::V>(),
            distinct_keys(acc.deep_view()),
            try_fold(items.take(i as int), start, step) == Ok::<Seq<(K::V, X::V)>, K::V>(
                acc.deep_view(),
            ),
            acc.deep_view() == start + items.take(i as int),
            forall|k: K::V|
                has_key(acc.deep_view(), k) <==> has_key(start, k) || has_key(
                    items.take(i as int),
                    k,
                ),
        decreases more.len() - i,
    {
        proof {
            lemma_try_fold_next(items, start, step, i as int);
            lemma_try_fold_error(items, start, step, i + 1);
        }
        assert(items[i as int] == (more[i as int].0.deep_view(), more[i as int].1.deep_view()));
        if find(acc, &more[i].0).is_some() {
            return Err(i);
        }
        let ghost before = acc.deep_view();
        let entry = (more[i].0.key_clone(), more[i].1.deep_clone());
        proof {
            crate::compile::lemma_push_distinct(before, items[i as int].0, items[i as int].1);
        }
        acc.push(entry);
        proof {
            assert(acc.deep_view() =~= before.push(items[i as int]));
            assert(acc.deep_view() =~= start + items.take(i + 1));
            assert forall|k: K::V|
                has_key(acc.deep_view(), k) <==> has_key(start, k) || has_key(
                    items.take(i + 1),
                    k,
                ) by {
                let t = items.take(i + 1);
                let f = items.take(i as int);
                assert(has_key(acc.deep_view(), k) <==> k == items[i as int].0 || has_key(
                    before,
                    k,
                ));
                assert(has_key(before, k) <==> has_key(start, k) || has_key(f, k));
                if has_key(t, k) {
                    let j = choose|j: int| 0 <= j < t.len() && (#[trigger] t[j]).0 == k;
                    if j < i {
                        assert(f[j].0 == k);
                    }
                }
                if has_key(f, k) {
                    let j = choose|j: int| 0 <= j < f.len() && (#[trigger] f[j]).0 == k;
                    assert(t[j].0 == k);
                }
                if k == items[i as int].0 {
                    assert(t[i as int].0 == k);
                }
            }
        }
        i += 1;
    }
    proof {
        lemma_try_fold_all(items, start, step);
        assert(items.take(i as int) =~= items);
        assert forall|k: K::V|
            has_key(acc.deep_view(), k) <==> has_key(start, k) || has_key(items, k) by {
            assert(has_key(acc.deep_view(), k) <==> has_key(start, k) || has_key(
                items.take(i as int),
                k,
            ));
        }
        assert(keys_united(acc.deep_view(), start, items));
    }
    Ok(())
}

/// Whoever is a child after `union_children` was one before or is one in `more`.
pub proof fn lemma_union_children<A>(acc: Seq<(A, Seq<A>)>, more: Seq<(A, Seq<A>)>)
    requires
        distinct_keys(acc),
    ensures
        distinct_keys(union_children(acc, more)),
        forall|i: int, c: A|
            0 <= i < union_children(acc, more).len() && (#[trigger] union_children(
                acc,
                more,
            )[i].1.contains(c)) ==> (exists|j: int|
                0 <= j < acc.len() && (#[trigger] acc[j]).1.contains(c)) || (exists|j: int|
                0 <= j < more.len() && (#[trigger] more[j]).1.contains(c)),
    decreases more.len(),
{
    if more.len() > 0 {
        let front = more.drop_last();
        let mid = union_children(acc, front);
        lemma_union_children(acc, front);
        lemma_add_children_members(mid, more.last().0, more.last().1);
        let t = union_children(acc, more);
        assert forall|i: int, c: A| 0 <= i < t.len() && (#[trigger] t[i].1.contains(c)) implies (
        exists|j: int| 0 <= j < acc.len() && (#[trigger] acc[j]).1.contains(c)) || (exists|j: int|
            0 <= j < more.len() && (#[trigger] more[j]).1.contains(c)) by {
            if more.last().1.contains(c) {
                assert(more[more.len() - 1].1.contains(c));
            } else {
                let m = choose|m: int| 0 <= m < mid.len() && (#[trigger] mid[m]).1.contains(c);
                assert(mid[m].1.contains(c));
                if exists|j: int| 0 <= j < front.len() && (#[trigger] front[j]).1.contains(c) {
                    let j = choose|j: int|
                        0 <= j < front.len() && (#[trigger] front[j]).1.contains(c);
                    assert(more[j].1.contains(c));
                }
            }
        }
    }
}

/// The united lists of children list what either list lists.
pub proof fn lemma_union_children_lists<A>(
    acc: Seq<(A, Seq<A>)>,
    more: Seq<(A, Seq<A>)>,
    p: A,
    c: A,
)
    ensures
        lists_child(union_children(acc, more), p, c) <==> lists_child(acc, p, c) || lists_child(
            more,
            p,
            c,
        ),
    decreases more.len(),
{
    if more.len() > 0 {
        let front = more.drop_last();
        lemma_union_children_lists(acc, front, p, c);
        lemma_add_children_lists(union_children(acc, front), more.last().0, more.last().1, p, c);
        if lists_child(front, p, c) {
            let k = choose|k: int|
                0 <= k < front.len() && (#[trigger] front[k]).0 == p && front[k].1.contains(c);
            assert(more[k].0 == p && more[k].1.contains(c));
        }
        if lists_child(more, p, c) {
            let k = choose|k: int|
                0 <= k < more.len() && (#[trigger] more[k]).0 == p && more[k].1.contains(c);
            if k < front.len() {
                assert(front[k].0 == p && front[k].1.contains(c));
            }
        }
        if p == more.last().0 && more.last().1.contains(c) {
            assert(more[more.len() - 1].0 == p && more[more.len() - 1].1.contains(c));
        }
    }
}

/// Adds the children that `more` lists to those that `acc` lists.
pub fn merge_children<K: Key>(acc: &mut Vec<(K, Vec<K>)>, more: &Vec<(K, Vec<K>)>)
    ensures
        final(acc).deep_view() == union_children(old(acc).deep_view(), more.deep_view()),
{
    let ghost start = acc.deep_view();
    let ghost items = more.deep_view();
    let mut i: usize = 0;
    while i < more.len()
        invariant
            i <= more.len(),
            items == more.deep_view(),
            acc.deep_view() == union_children(start, items.take(i as int)),
        decreases more.len() - i,
    {
        proof {
            let t = items.take(i + 1);
            assert(t.drop_last() =~= items.take(i as int));
            assert(t.last() == items[i as int]);
        }
        insert_children(acc, more[i].0.key_clone(), &more[i].1);
        i += 1;
    }
    assert(items.take(more.len() as int) =~= items);
}

/// Where the children of two well-formed parts are united and the
/// declarations of both are kept, every child is declared.
pub proof fn lemma_union_declared<A, B>(
    acc_children: Seq<(A, Seq<A>)>,
    more_children: Seq<(A, Seq<A>)>,
    acc_declared: Seq<(A, B)>,
    more_declared: Seq<(A, B)>,
    declared: Seq<(A, B)>,
)
    requires
        distinct_keys(acc_children),
        children_declared(acc_children, acc_declared),
        children_declared(more_children, more_declared),
        keys_united(declared, acc_declared, more_declared),
    ensures
        distinct_keys(union_children(acc_children, more_children)),
        children_declared(union_children(acc_children, more_children), declared),
{
    lemma_union_children(acc_children, more_children);
    let t = union_children(acc_children, more_children);
    assert forall|i: int, c: A| 0 <= i < t.len() && (#[trigger] t[i].1.contains(c)) implies has_key(
        declared,
        c,
    ) by {
        if exists|j: int| 0 <= j < acc_children.len() && (#[trigger] acc_children[j]).1.contains(c) {
            let j = choose|j: int|
                0 <= j < acc_children.len() && (#[trigger] acc_children[j]).1.contains(c);
            assert(acc_children[j].1.contains(c));
            assert(has_key(acc_declared, c));
        } else {
            let j = choose|j: int|
                0 <= j < more_children.len() && (#[trigger] more_children[j]).1.contains(c);
            assert(more_children[j].1.contains(c));
            assert(has_key(more_declared, c));
        }
    }
}

impl Merged {
    /// No declarations at all.
    pub fn new() -> (r: Self)
        ensures
            r@ == MergedSpec::empty(),
            r@.wf(),
    {
        let r = Merged {
            type_defs: Vec::new(),
            entity_attributes: Vec::new(),
            entity_children: Vec::new(),
            action_context_applies_to: Vec::new(),
            action_children: Vec::new(),
            action_attributes: Vec::new(),
        };
        assert(r@.type_defs =~= Seq::empty());
        assert(r@.entity_attributes =~= Seq::empty());
        assert(r@.entity_children =~= Seq::empty());
        assert(r@.action_context_applies_to =~= Seq::empty());
        assert(r@.action_children =~= Seq::empty());
        assert(r@.action_attributes =~= Seq::empty());
        r
    }

    /// Adds the declarations of the namespace `d`.
    pub fn merge_definition(&mut self, d: &ValidatorNamespaceDef) -> (r: Result<(), SchemaError>)
        requires
            old(self)@.wf(),
        ensures
            match merged_with(old(self)@, d@) {
                Ok(m) => r is Ok && final(self)@ == m && m.wf(),
                Err(e) => r is Err && r->Err_0@ == e && r->Err_0.wf(),
            },
    {
        let (type_defs, entity_types, actions) = d.parts();
        let new_type_defs = type_defs.entries();
        let (entity_attributes, entity_children) = entity_types.entries();
        let (action_context, action_children, action_attributes) = actions.entries();
        let ghost before = self@;
        match merge_entries(&mut self.type_defs, new_type_defs) {
            Ok(_) => {},
            Err(i) => {
                return Err(SchemaError::DuplicateCommonType(new_type_defs[i].0.to_string()));
            },
        }
        proof {
            let merged_type_defs = self@.type_defs;
            assert forall|k: int|
                0 <= k < merged_type_defs.len() implies !crate::schema_file_format::is_builtin_type_text(
                (#[trigger] merged_type_defs[k]).0.base,
            ) by {
                if k < before.type_defs.len() {
                    assert(merged_type_defs[k] == before.type_defs[k]);
                } else {
                    assert(merged_type_defs[k] == new_type_defs.deep_view()[k
                        - before.type_defs.len()]);
                }
            }
        }
        match merge_entries(&mut self.entity_attributes, entity_attributes) {
            Ok(_) => {},
            Err(i) => {
                return Err(SchemaError::DuplicateEntityType(entity_attributes[i].0.to_string()));
            },
        }
        proof {
            let merged_entities = self@.entity_attributes;
            assert forall|k: int| 0 <= k < merged_entities.len() implies (
            #[trigger] merged_entities[k]).0.base != crate::names::action_type_base() by {
                if k < before.entity_attributes.len() {
                    assert(merged_entities[k] == before.entity_attributes[k]);
                } else {
                    assert(merged_entities[k] == entity_attributes.deep_view()[k
                        - before.entity_attributes.len()]);
                }
            }
        }
        match merge_entries(&mut self.action_context_applies_to, action_context) {
            Ok(_) => {},
            Err(i) => {
                return Err(SchemaError::DuplicateAction(action_context[i].0.to_string()));
            },
        }
        match merge_entries(&mut self.action_attributes, action_attributes) {
            Ok(_) => {},
            Err(i) => {
                return Err(SchemaError::DuplicateAction(action_attributes[i].0.to_string()));
            },
        }
        proof {
            let merged_attributes = self@.action_attributes;
            assert forall|k: int| 0 <= k < merged_attributes.len() implies names_in_attrs(
                (#[trigger] merged_attributes[k]).1,
            ) == Set::<NameSpec>::empty() by {
                if k < before.action_attributes.len() {
                    assert(merged_attributes[k] == before.action_attributes[k]);
                } else {
                    assert(merged_attributes[k] == action_attributes.deep_view()[k
                        - before.action_attributes.len()]);
                }
            }
            lemma_union_declared(
                before.entity_children,
                entity_children.deep_view(),
                before.entity_attributes,
                entity_attributes.deep_view(),
                self@.entity_attributes,
            );
            lemma_union_declared(
                before.action_children,
                action_children.deep_view(),
                before.action_context_applies_to,
                action_context.deep_view(),
                self@.action_context_applies_to,
            );
        }
        merge_children(&mut self.entity_children, entity_children);
        merge_children(&mut self.action_children, action_children);
        Ok(())
    }

    /// Adds the declarations of all namespaces of all fragments.
    pub fn merge_fragments(&mut self, fragments: &Vec<ValidatorSchemaFragment>) -> (r: Result<
        (),
        SchemaError,
    >)
        requires
            old(self)@.wf(),
        ensures
            match try_fold(fragments.deep_view(), old(self)@, merge_fragment_step()) {
                Ok(m) => r is Ok && final(self)@ == m && m.wf(),
                Err(e) => r is Err && r->Err_0@ == e && r->Err_0.wf(),
            },
    {
        let ghost start = self@;
        let ghost items = fragments.deep_view();
        let ghost fstep = merge_fragment_step();
        let mut i: usize = 0;
        while i < fragments.len()
            invariant
                i <= fragments.len(),
                start == old(self)@,
                items == fragments.deep_view(),
                fstep == merge_fragment_step(),
                self@.wf(),
                try_fold(items.take(i as int), start, fstep) == Ok::<MergedSpec, SchemaErrorSpec>(
                    self@,
                ),
            decreases fragments.len() - i,
        {
            proof {
                lemma_try_fold_next(items, start, fstep, i as int);
                lemma_try_fold_error(items, start, fstep, i + 1);
            }
            let defs = fragments[i].definitions();
            let ghost inner = defs.deep_view();
            let ghost inner_start = self@;
            let ghost step = merge_step();
            assert(inner == items[i as int]);
            let mut j: usize = 0;
            while j < defs.len()
                invariant
                    j <= defs.len(),
                    i < fragments.len(),
                    start == old(self)@,
                    items == fragments.deep_view(),
                    inner == defs.deep_view(),
                    inner == items[i as int],
                    step == merge_step(),
                    self@.wf(),
                    try_fold(inner.take(j as int), inner_start, step) == Ok::<
                        MergedSpec,
                        SchemaErrorSpec,
                    >(self@),
                    try_fold(items.take(i + 1), start, merge_fragment_step()) == try_fold(
                        inner,
                        inner_start,
                        step,
                    ),
                    try_fold(items.take(i + 1), start, merge_fragment_step()) is Err ==> try_fold(
                        items,
                        start,
                        merge_fragment_step(),
                    ) == try_fold(items.take(i + 1), start, merge_fragment_step()),
                decreases defs.len() - j,
            {
                proof {
                    lemma_try_fold_next(inner, inner_start, step, j as int);
                    lemma_try_fold_error(inner, inner_start, step, j + 1);
                    assert(inner[j as int] == defs[j as int]@);
                }
                match self.merge_definition(&defs[j]) {
                    Ok(_) => {},
                    Err(e) => {
                        return Err(e);
                    },
                }
                j += 1;
            }
            proof {
                lemma_try_fold_all(inner, inner_start, step);
            }
            i += 1;
        }
        proof {
            lemma_try_fold_all(items, start, fstep);
        }
        Ok(())
    }
}

} // verus!
