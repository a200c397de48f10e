//! The consistency check: every entity type and action that is referred to
//! must be declared.

use vstd::prelude::*;
use crate::err::{SchemaError, SchemaErrorSpec};
use crate::keys::{
    find, has_key, insert_member, lemma_with_member, with_member,
};
use crate::names::{
    action_id_text, name_text, ActionId, ActionIdSpec, EntityTypeRef, EntityTypeRefSpec, NameSpec,
    QualifiedName,
};
use crate::types::{names_in_attrs, names_in_type, Attributes, Type};
use crate::validator_schema::{
    action_names, apply_names, ValidatorActionId, ValidatorActionIdSpec, ValidatorEntityType,
    ValidatorEntityTypeSpec, ValidatorSchema,
};

verus! {

/// The texts of the names of `names` that are no key of `declared`.
pub open spec fn undeclared_texts<B>(names: Set<NameSpec>, declared: Seq<(NameSpec, B)>) -> Set<
    Seq<char>,
> {
    Set::new(
        |s: Seq<char>|
            exists|q: NameSpec| names.contains(q) && !has_key(declared, q) && name_text(q) == s,
    )
}

/// The texts of the names of `names`.
pub open spec fn name_texts(names: Seq<NameSpec>) -> Set<Seq<char>> {
    names.map_values(|q: NameSpec| name_text(q)).to_set()
}

/// The texts of the action identifiers of `ids`.
pub open spec fn action_texts(ids: Seq<ActionIdSpec>) -> Set<Seq<char>> {
    ids.map_values(|a: ActionIdSpec| action_id_text(a)).to_set()
}

/// The entity types that occur in the attributes of the entity types.
pub open spec fn entity_attr_names(entity_types: Seq<(NameSpec, ValidatorEntityTypeSpec)>) -> Set<
    NameSpec,
>
    decreases entity_types.len(),
{
    if entity_types.len() == 0 {
        Set::empty()
    } else {
        entity_attr_names(entity_types.drop_last()).union(
            names_in_attrs(entity_types.last().1.attributes),
        )
    }
}

/// The entity types that the actions refer to.
pub open spec fn all_action_names(action_ids: Seq<(ActionIdSpec, ValidatorActionIdSpec)>) -> Set<
    NameSpec,
>
    decreases action_ids.len(),
{
    if action_ids.len() == 0 {
        Set::empty()
    } else {
        all_action_names(action_ids.drop_last()).union(action_names(action_ids.last().1))
    }
}

/// The texts of the entity types that are reported as undeclared: every
/// parent that was found undeclared, and every entity type that is referred
/// to in the attributes of an entity type, in the context of an action or in
/// an apply spec without being declared.
pub open spec fn undeclared_entity_texts(
    entity_types: Seq<(NameSpec, ValidatorEntityTypeSpec)>,
    undeclared_parent_entities: Seq<NameSpec>,
    action_ids: Seq<(ActionIdSpec, ValidatorActionIdSpec)>,
) -> Set<Seq<char>> {
    name_texts(undeclared_parent_entities).union(
        undeclared_texts(entity_attr_names(entity_types), entity_types),
    ).union(undeclared_texts(all_action_names(action_ids), entity_types))
}

/// The outcome of the consistency check: undeclared entity types are
/// reported first and all together, then undeclared actions.
pub open spec fn undeclared_outcome(
    entity_types: Seq<(NameSpec, ValidatorEntityTypeSpec)>,
    undeclared_parent_entities: Seq<NameSpec>,
    action_ids: Seq<(ActionIdSpec, ValidatorActionIdSpec)>,
    undeclared_parent_actions: Seq<ActionIdSpec>,
) -> Result<(), SchemaErrorSpec> {
    let e = undeclared_entity_texts(entity_types, undeclared_parent_entities, action_ids);
    let a = action_texts(undeclared_parent_actions);
    if e != Set::<Seq<char>>::empty() {
        Err(SchemaErrorSpec::UndeclaredEntityTypes(e))
    } else if a != Set::<Seq<char>>::empty() {
        Err(SchemaErrorSpec::UndeclaredActions(a))
    } else {
        Ok(())
    }
}

/// The undeclared among two sets of names are the undeclared of each.
pub proof fn lemma_undeclared_union<B>(a: Set<NameSpec>, b: Set<NameSpec>, declared: Seq<(NameSpec, B)>)
    ensures
        undeclared_texts(a.union(b), declared) == undeclared_texts(a, declared).union(
            undeclared_texts(b, declared),
        ),
{
    let l = undeclared_texts(a.union(b), declared);
    let r = undeclared_texts(a, declared).union(undeclared_texts(b, declared));
    assert forall|s: Seq<char>| l.contains(s) <==> r.contains(s) by {
        if l.contains(s) {
            let q = choose|q: NameSpec|
                a.union(b).contains(q) && !has_key(declared, q) && name_text(q) == s;
            if a.contains(q) {
                assert(undeclared_texts(a, declared).contains(s));
            } else {
                assert(undeclared_texts(b, declared).contains(s));
            }
        }
        if undeclared_texts(a, declared).contains(s) {
            let q = choose|q: NameSpec| a.contains(q) && !has_key(declared, q) && name_text(q) == s;
            assert(a.union(b).contains(q));
        }
        if undeclared_texts(b, declared).contains(s) {
            let q = choose|q: NameSpec| b.contains(q) && !has_key(declared, q) && name_text(q) == s;
            assert(a.union(b).contains(q));
        }
    }
    assert(l =~= r);
}

/// Of no names, none is undeclared.
pub proof fn lemma_undeclared_empty<B>(declared: Seq<(NameSpec, B)>)
    ensures
        undeclared_texts(Set::<NameSpec>::empty(), declared) == Set::<Seq<char>>::empty(),
{
    assert(undeclared_texts(Set::<NameSpec>::empty(), declared) =~= Set::<Seq<char>>::empty());
}

/// Of one name, its text is undeclared unless the name is declared.
pub proof fn lemma_undeclared_one<B>(q: NameSpec, declared: Seq<(NameSpec, B)>)
    ensures
        undeclared_texts(set![q], declared) == if has_key(declared, q) {
            Set::<Seq<char>>::empty()
        } else {
            set![name_text(q)]
        },
{
    let l = undeclared_texts(set![q], declared);
    if has_key(declared, q) {
        assert(l =~= Set::<Seq<char>>::empty());
    } else {
        assert forall|s: Seq<char>| l.contains(s) <==> s == name_text(q) by {
            if s == name_text(q) {
                assert(set![q].contains(q));
            }
        }
        assert(l =~= set![name_text(q)]);
    }
}

/// The members of a list with one more are the members of the list and that one.
pub proof fn lemma_with_member_set<A>(s: Seq<A>, a: A)
    ensures
        with_member(s, a).to_set() == s.to_set().insert(a),
{
    lemma_with_member(s, a);
    assert(with_member(s, a).to_set() =~= s.to_set().insert(a));
}

/// The members of a prefix with one more element.
pub proof fn lemma_take_set<A>(s: Seq<A>, i: int)
    requires
        0 <= i < s.len(),
    ensures
        s.take(i + 1).to_set() == s.take(i).to_set().insert(s[i]),
        s.take(0).to_set() == Set::<A>::empty(),
{
    let t = s.take(i + 1);
    let f = s.take(i);
    assert forall|x: A| t.to_set().contains(x) <==> f.to_set().insert(s[i]).contains(x) by {
        if t.contains(x) {
            let j = choose|j: int| 0 <= j < t.len() && t[j] == x;
            if j < i {
                assert(f[j] == x);
            }
        }
        if f.contains(x) {
            let j = choose|j: int| 0 <= j < f.len() && f[j] == x;
            assert(t[j] == x);
        }
        if x == s[i] {
            assert(t[i] == x);
        }
    }
    assert(t.to_set() =~= f.to_set().insert(s[i]));
    assert(s.take(0).to_set() =~= Set::<A>::empty());
}

impl ValidatorSchema {
    /// Notes the text of `name` in `undeclared_types` unless `name` is declared.
    pub fn note_undeclared(
        name: &QualifiedName,
        entity_types: &Vec<(QualifiedName, ValidatorEntityType)>,
        undeclared_types: &mut Vec<String>,
    )
        ensures
            final(undeclared_types).deep_view().to_set() == old(undeclared_types).deep_view().to_set().union(undeclared_texts(set![name@], entity_types.deep_view())),
            old(undeclared_types).deep_view().no_duplicates() ==> final(undeclared_types).deep_view().no_duplicates(),
    {
        proof {
            lemma_undeclared_one(name@, entity_types.deep_view());
        }
        let ghost before = undeclared_types.deep_view();
        if find(entity_types, name).is_none() {
            let text = name.to_string();
            proof {
                lemma_with_member_set(before, text@);
                lemma_with_member(before, text@);
            }
            insert_member(undeclared_types, text);
            assert(before.to_set().insert(name_text(name@)) =~= before.to_set().union(
                set![name_text(name@)],
            ));
        } else {
            assert(before.to_set() =~= before.to_set().union(Set::<Seq<char>>::empty()));
        }
    }

    /// Notes in `undeclared_types` the text of every entity type that
    /// occurs in `ty` and is not declared.
    pub fn check_undeclared_in_type(
        ty: &Type,
        entity_types: &Vec<(QualifiedName, ValidatorEntityType)>,
        undeclared_types: &mut Vec<String>,
    )
        ensures
            final(undeclared_types).deep_view().to_set() == old(undeclared_types).deep_view().to_set().union(
                undeclared_texts(names_in_type(ty@), entity_types.deep_view()),
            ),
            old(undeclared_types).deep_view().no_duplicates() ==> final(undeclared_types).deep_view().no_duplicates(),
        decreases *ty,
    {
        let ghost start = undeclared_types.deep_view();
        let ghost declared = entity_types.deep_view();
        match ty {
            Type::Entity { lub } => {
                let names = &lub.lub_elements;
                proof {
                    lemma_undeclared_empty(declared);
                    assert(names.deep_view().take(0).to_set() =~= Set::<NameSpec>::empty());
                    assert(start.to_set() =~= start.to_set().union(Set::<Seq<char>>::empty()));
                }
                let mut i: usize = 0;
                while i < names.len()
                    invariant
                        i <= names.len(),
                        start == old(undeclared_types).deep_view(),
                        declared == entity_types.deep_view(),
                        undeclared_types.deep_view().to_set() == start.to_set().union(
                            undeclared_texts(names.deep_view().take(i as int).to_set(), declared),
                        ),
                        start.no_duplicates() ==> undeclared_types.deep_view().no_duplicates(),
                    decreases names.len() - i,
                {
                    proof {
                        lemma_take_set(names.deep_view(), i as int);
                        let f = names.deep_view().take(i as int).to_set();
                        assert(f.insert(names[i as int]@) =~= f.union(set![names[i as int]@]));
                        lemma_undeclared_union(f, set![names[i as int]@], declared);
                    }
                    Self::note_undeclared(&names[i], entity_types, undeclared_types);
                    proof {
                        let f = names.deep_view().take(i as int).to_set();
                        let one = undeclared_texts(set![names[i as int]@], declared);
                        assert(start.to_set().union(undeclared_texts(f, declared)).union(one)
                            =~= start.to_set().union(undeclared_texts(f, declared).union(one)));
                    }
                    i += 1;
                }
                assert(names.deep_view().take(names.len() as int) =~= names.deep_view());
            },
            Type::Record { attrs } => {
                Self::check_undeclared_in_attrs(attrs, entity_types, undeclared_types);
            },
            Type::SetOf { element_type: Some(element_type) } => {
                Self::check_undeclared_in_type(element_type, entity_types, undeclared_types);
            },
            _ => {
                proof {
                    lemma_undeclared_empty(declared);
                    assert(start.to_set() =~= start.to_set().union(Set::<Seq<char>>::empty()));
                }
            },
        }
    }
}

impl ValidatorSchema {
    /// Notes in `undeclared_types` the text of every entity type that
    /// occurs in the types of `attrs` and is not declared.
    pub fn check_undeclared_in_attrs(
        attrs: &Attributes,
        entity_types: &Vec<(QualifiedName, ValidatorEntityType)>,
        undeclared_types: &mut Vec<String>,
    )
        ensures
            final(undeclared_types).deep_view().to_set() == old(
                undeclared_types).deep_view().to_set().union(
                undeclared_texts(names_in_attrs(attrs@), entity_types.deep_view()),
            ),
            old(undeclared_types).deep_view().no_duplicates() ==> final(
                undeclared_types).deep_view().no_duplicates(),
        decreases *attrs,
    {
        let ghost start = undeclared_types.deep_view();
        let ghost declared = entity_types.deep_view();
        proof {
            lemma_undeclared_empty(declared);
            assert(attrs@.take(0) =~= Seq::empty());
            assert(start.to_set() =~= start.to_set().union(Set::<Seq<char>>::empty()));
        }
        let mut i: usize = 0;
        while i < attrs.attrs.len()
            invariant
                i <= attrs.attrs.len(),
                attrs@.len() == attrs.attrs.len(),
                start == old(undeclared_types).deep_view(),
                declared == entity_types.deep_view(),
                undeclared_types.deep_view().to_set() == start.to_set().union(
                    undeclared_texts(names_in_attrs(attrs@.take(i as int)), declared),
                ),
                start.no_duplicates() ==> undeclared_types.deep_view().no_duplicates(),
            decreases attrs.attrs.len() - i,
        {
            proof {
                let t = attrs@.take(i + 1);
                assert(t.drop_last() =~= attrs@.take(i as int));
                assert(t.last().1.attr_type == attrs.attrs[i as int].1.attr_type@);
                lemma_undeclared_union(
                    names_in_attrs(attrs@.take(i as int)),
                    names_in_type(attrs.attrs[i as int].1.attr_type@),
                    declared,
                );
            }
            Self::check_undeclared_in_type(
                &attrs.attrs[i].1.attr_type,
                entity_types,
                undeclared_types,
            );
            proof {
                let f = undeclared_texts(names_in_attrs(attrs@.take(i as int)), declared);
                let one = undeclared_texts(
                    names_in_type(attrs.attrs[i as int].1.attr_type@),
                    declared,
                );
                assert(start.to_set().union(f).union(one) =~= start.to_set().union(f.union(one)));
            }
            i += 1;
        }
        assert(attrs@.take(attrs.attrs.len() as int) =~= attrs@);
    }

    /// Notes in `undeclared_types` the text of every entity type that
    /// `list` names and that is not declared.
    pub fn check_undeclared_in_list(
        list: &Vec<EntityTypeRef>,
        entity_types: &Vec<(QualifiedName, ValidatorEntityType)>,
        undeclared_types: &mut Vec<String>,
    )
        ensures
            final(undeclared_types).deep_view().to_set() == old(
                undeclared_types).deep_view().to_set().union(
                undeclared_texts(apply_names(list.deep_view()), entity_types.deep_view()),
            ),
            old(undeclared_types).deep_view().no_duplicates() ==> final(
                undeclared_types).deep_view().no_duplicates(),
    {
        let ghost start = undeclared_types.deep_view();
        let ghost declared = entity_types.deep_view();
        let ghost items = list.deep_view();
        proof {
            lemma_undeclared_empty(declared);
            assert(apply_names(items.take(0)) =~= Set::<NameSpec>::empty());
            assert(start.to_set() =~= start.to_set().union(Set::<Seq<char>>::empty()));
        }
        let mut i: usize = 0;
        while i < list.len()
            invariant
                i <= list.len(),
                items == list.deep_view(),
                start == old(undeclared_types).deep_view(),
                declared == entity_types.deep_view(),
                undeclared_types.deep_view().to_set() == start.to_set().union(
                    undeclared_texts(apply_names(items.take(i as int)), declared),
                ),
                start.no_duplicates() ==> undeclared_types.deep_view().no_duplicates(),
            decreases list.len() - i,
        {
            let ghost f = apply_names(items.take(i as int));
            let ghost one = match items[i as int] {
                EntityTypeRefSpec::Concrete(q) => set![q],
                EntityTypeRefSpec::Unspecified => Set::<NameSpec>::empty(),
            };
            proof {
                let t = items.take(i + 1);
                let p = items.take(i as int);
                assert forall|q: NameSpec|
                    apply_names(t).contains(q) <==> f.union(one).contains(q) by {
                    let x = EntityTypeRefSpec::Concrete(q);
                    if t.contains(x) {
                        let j = choose|j: int| 0 <= j < t.len() && t[j] == x;
                        if j < i {
                            assert(p[j] == x);
                        }
                    }
                    if p.contains(x) {
                        let j = choose|j: int| 0 <= j < p.len() && p[j] == x;
                        assert(t[j] == x);
                    }
                    if one.contains(q) {
                        assert(t[i as int] == x);
                    }
                }
                assert(apply_names(t) =~= f.union(one));
                lemma_undeclared_union(f, one, declared);
                lemma_undeclared_empty(declared);
            }
            match &list[i] {
                EntityTypeRef::Concrete(name) => {
                    Self::note_undeclared(name, entity_types, undeclared_types);
                },
                EntityTypeRef::Unspecified => {},
            }
            proof {
                let a = undeclared_texts(f, declared);
                let b = undeclared_texts(one, declared);
                assert(start.to_set().union(a).union(b) =~= start.to_set().union(a.union(b)));
            }
            i += 1;
        }
        assert(items.take(list.len() as int) =~= items);
    }

    /// Checks that every entity type and action that is referred to is
    /// declared. The parents that were found undeclared are handed in.
    pub fn check_for_undeclared(
        entity_types: &Vec<(QualifiedName, ValidatorEntityType)>,
        undeclared_parent_entities: &Vec<QualifiedName>,
        action_ids: &Vec<(ActionId, ValidatorActionId)>,
        undeclared_parent_actions: &Vec<ActionId>,
    ) -> (r: Result<(), SchemaError>)
        ensures
            match undeclared_outcome(
                entity_types.deep_view(),
                undeclared_parent_entities.deep_view(),
                action_ids.deep_view(),
                undeclared_parent_actions.deep_view(),
            ) {
                Ok(_) => r is Ok,
                Err(e) => r is Err && r->Err_0@ == e && r->Err_0.wf(),
            },
    {
        let ghost declared = entity_types.deep_view();
        let ghost parents = undeclared_parent_entities.deep_view();
        let ghost parent_texts = parents.map_values(|q: NameSpec| name_text(q));
        let mut undeclared_e: Vec<String> = Vec::new();
        assert(undeclared_e.deep_view() =~= Seq::empty());
        assert(parent_texts.take(0).to_set() =~= Set::<Seq<char>>::empty());
        assert(undeclared_e.deep_view().to_set() =~= Set::<Seq<char>>::empty());
        let mut i: usize = 0;
        while i < undeclared_parent_entities.len()
            invariant
                i <= undeclared_parent_entities.len(),
                parents == undeclared_parent_entities.deep_view(),
                parent_texts == parents.map_values(|q: NameSpec| name_text(q)),
                undeclared_e.deep_view().to_set() == parent_texts.take(i as int).to_set(),
                undeclared_e.deep_view().no_duplicates(),
            decreases undeclared_parent_entities.len() - i,
        {
            let text = undeclared_parent_entities[i].to_string();
            proof {
                lemma_take_set(parent_texts, i as int);
                lemma_with_member_set(undeclared_e.deep_view(), text@);
                lemma_with_member(undeclared_e.deep_view(), text@);
            }
            insert_member(&mut undeclared_e, text);
            i += 1;
        }
        assert(parent_texts.take(undeclared_parent_entities.len() as int) =~= parent_texts);
        proof {
            lemma_undeclared_empty(declared);
            assert(declared.take(0) =~= Seq::empty());
            assert(name_texts(parents) =~= name_texts(parents).union(Set::<Seq<char>>::empty()));
        }
        let mut i: usize = 0;
        while i < entity_types.len()
            invariant
                i <= entity_types.len(),
                declared == entity_types.deep_view(),
                parents == undeclared_parent_entities.deep_view(),
                undeclared_e.deep_view().to_set() == name_texts(parents).union(
                    undeclared_texts(entity_attr_names(declared.take(i as int)), declared),
                ),
                undeclared_e.deep_view().no_duplicates(),
            decreases entity_types.len() - i,
        {
            proof {
                let t = declared.take(i + 1);
                assert(t.drop_last() =~= declared.take(i as int));
                assert(t.last().1.attributes == entity_types[i as int].1.attributes@);
                lemma_undeclared_union(
                    entity_attr_names(declared.take(i as int)),
                    names_in_attrs(entity_types[i as int].1.attributes@),
                    declared,
                );
            }
            Self::check_undeclared_in_attrs(
                &entity_types[i].1.attributes,
                entity_types,
                &mut undeclared_e,
            );
            proof {
                let f = undeclared_texts(entity_attr_names(declared.take(i as int)), declared);
                let one = undeclared_texts(
                    names_in_attrs(entity_types[i as int].1.attributes@),
                    declared,
                );
                assert(name_texts(parents).union(f).union(one) =~= name_texts(parents).union(
                    f.union(one),
                ));
            }
            i += 1;
        }
        assert(declared.take(entity_types.len() as int) =~= declared);
        let ghost action_parents = undeclared_parent_actions.deep_view();
        let ghost action_parent_texts = action_parents.map_values(
            |a: ActionIdSpec| action_id_text(a),
        );
        let mut undeclared_a: Vec<String> = Vec::new();
        assert(undeclared_a.deep_view() =~= Seq::empty());
        assert(action_parent_texts.take(0).to_set() =~= Set::<Seq<char>>::empty());
        assert(undeclared_a.deep_view().to_set() =~= Set::<Seq<char>>::empty());
        let mut i: usize = 0;
        while i < undeclared_parent_actions.len()
            invariant
                i <= undeclared_parent_actions.len(),
                action_parents == undeclared_parent_actions.deep_view(),
                action_parent_texts == action_parents.map_values(
                    |a: ActionIdSpec| action_id_text(a),
                ),
                undeclared_a.deep_view().to_set() == action_parent_texts.take(i as int).to_set(),
                undeclared_a.deep_view().no_duplicates(),
            decreases undeclared_parent_actions.len() - i,
        {
            let text = undeclared_parent_actions[i].to_string();
            proof {
                lemma_take_set(action_parent_texts, i as int);
                lemma_with_member_set(undeclared_a.deep_view(), text@);
                lemma_with_member(undeclared_a.deep_view(), text@);
            }
            insert_member(&mut undeclared_a, text);
            i += 1;
        }
        assert(action_parent_texts.take(undeclared_parent_actions.len() as int)
            =~= action_parent_texts);
        let ghost actions = action_ids.deep_view();
        let ghost base = name_texts(parents).union(
            undeclared_texts(entity_attr_names(declared), declared),
        );
        proof {
            assert(actions.take(0) =~= Seq::empty());
            assert(base =~= base.union(Set::<Seq<char>>::empty()));
        }
        let mut i: usize = 0;
        while i < action_ids.len()
            invariant
                i <= action_ids.len(),
                declared == entity_types.deep_view(),
                actions == action_ids.deep_view(),
                undeclared_e.deep_view().to_set() == base.union(
                    undeclared_texts(all_action_names(actions.take(i as int)), declared),
                ),
                undeclared_e.deep_view().no_duplicates(),
            decreases action_ids.len() - i,
        {
            let action = &action_ids[i].1;
            let ghost c = names_in_attrs(action.context@);
            let ghost p = apply_names(action.applies_to@.principals);
            let ghost r = apply_names(action.applies_to@.resources);
            proof {
                let t = actions.take(i + 1);
                assert(t.drop_last() =~= actions.take(i as int));
                assert(t.last().1 == action@);
                lemma_undeclared_union(all_action_names(actions.take(i as int)), action_names(action@), declared);
                lemma_undeclared_union(c.union(p), r, declared);
                lemma_undeclared_union(c, p, declared);
            }
            Self::check_undeclared_in_attrs(&action.context, entity_types, &mut undeclared_e);
            Self::check_undeclared_in_list(
                action.applies_to.applicable_principal_types(),
                entity_types,
                &mut undeclared_e,
            );
            Self::check_undeclared_in_list(
                action.applies_to.applicable_resource_types(),
                entity_types,
                &mut undeclared_e,
            );
            proof {
                let f = undeclared_texts(all_action_names(actions.take(i as int)), declared);
                let uc = undeclared_texts(c, declared);
                let up = undeclared_texts(p, declared);
                let ur = undeclared_texts(r, declared);
                assert(base.union(f).union(uc).union(up).union(ur) =~= base.union(
                    f.union(uc.union(up).union(ur)),
                ));
            }
            i += 1;
        }
        assert(actions.take(action_ids.len() as int) =~= actions);
        proof {
            let e = undeclared_entity_texts(declared, parents, actions);
            assert(undeclared_e.deep_view().to_set() =~= e);
            if undeclared_e.len() > 0 {
                assert(undeclared_e.deep_view().to_set().contains(undeclared_e.deep_view()[0]));
            } else {
                assert(undeclared_e.deep_view().to_set() =~= Set::<Seq<char>>::empty());
            }
            if undeclared_a.len() > 0 {
                assert(undeclared_a.deep_view().to_set().contains(undeclared_a.deep_view()[0]));
            } else {
                assert(undeclared_a.deep_view().to_set() =~= Set::<Seq<char>>::empty());
            }
        }
        if undeclared_e.len() > 0 {
            return Err(SchemaError::UndeclaredEntityTypes(undeclared_e));
        }
        if undeclared_a.len() > 0 {
            return Err(SchemaError::UndeclaredActions(undeclared_a));
        }
        Ok(())
    }
}

} // verus!
