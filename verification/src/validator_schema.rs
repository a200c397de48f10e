//! The compiled schema: every declared entity type and action, with its
//! descendants, its attributes, and what an action applies to.

use vstd::prelude::*;
use crate::keys::{
    clone_keys, contains, distinct_keys, find, has_key, lookup, DeepClone, Key,
};
use crate::names::{
    ActionId, ActionIdSpec, EntityTypeRef, EntityTypeRefSpec, NameSpec, QualifiedName,
};
use crate::namespace_def::{ApplySpecSpec, ValidatorApplySpec};
use crate::types::{
    clone_attributes, clone_type, names_in_attrs, required_names, AttributeType, Attributes,
    AttributesSpec, Type, TypeSpec,
};

verus! {

/// The mathematical value of a [`ValidatorEntityType`].
pub struct ValidatorEntityTypeSpec {
    pub name: NameSpec,
    pub descendants: Set<NameSpec>,
    pub attributes: AttributesSpec,
}

/// A declared entity type.
#[derive(Debug)]
pub struct ValidatorEntityType {
    /// The name of the entity type.
    pub name: QualifiedName,
    /// The entity types whose entities can be members of entities of this
    /// type, directly or through other types.
    pub descendants: Vec<QualifiedName>,
    /// The attributes of the entities of this type.
    pub attributes: Attributes,
}

impl View for ValidatorEntityType {
    type V = ValidatorEntityTypeSpec;

    open spec fn view(&self) -> ValidatorEntityTypeSpec {
        ValidatorEntityTypeSpec {
            name: self.name@,
            descendants: self.descendants.deep_view().to_set(),
            attributes: self.attributes@,
        }
    }
}

impl DeepView for ValidatorEntityType {
    type V = ValidatorEntityTypeSpec;

    open spec fn deep_view(&self) -> ValidatorEntityTypeSpec {
        self@
    }
}

impl DeepClone for ValidatorEntityType {
    fn deep_clone(&self) -> (r: Self) {
        ValidatorEntityType {
            name: self.name.key_clone(),
            descendants: clone_keys(&self.descendants),
            attributes: clone_attributes(&self.attributes),
        }
    }
}

impl Clone for ValidatorEntityType {
    fn clone(&self) -> (r: Self)
        ensures
            r@ == self@,
    {
        self.deep_clone()
    }
}

impl ValidatorEntityType {
    /// The type of the attribute `attr`, where the entity type has it.
    pub fn attr(&self, attr: &str) -> (r: Option<&AttributeType>)
        ensures
            match lookup(self@.attributes, attr@) {
                Some(t) => r is Some && r->Some_0@ == t,
                None => r is None,
            },
    {
        self.attributes.get_attr(attr)
    }

    /// The attributes of the entity type.
    pub fn attributes(&self) -> (r: &Attributes)
        ensures
            r@ == self@.attributes,
    {
        &self.attributes
    }
}

/// The mathematical value of a [`ValidatorActionId`].
pub struct ValidatorActionIdSpec {
    pub name: ActionIdSpec,
    pub applies_to: ApplySpecSpec,
    pub descendants: Set<ActionIdSpec>,
    pub context: AttributesSpec,
    pub attributes: AttributesSpec,
}

/// A declared action.
#[derive(Debug)]
pub struct ValidatorActionId {
    /// The identifier of the action.
    pub name: ActionId,
    /// The principals and resources that the action applies to.
    pub applies_to: ValidatorApplySpec,
    /// The actions that are members of this action, directly or through
    /// other actions.
    pub descendants: Vec<ActionId>,
    /// The attributes of the context of a request for this action.
    pub context: Attributes,
    /// The attributes of the action itself.
    pub attributes: Attributes,
}

impl View for ValidatorActionId {
    type V = ValidatorActionIdSpec;

    open spec fn view(&self) -> ValidatorActionIdSpec {
        ValidatorActionIdSpec {
            name: self.name@,
            applies_to: self.applies_to@,
            descendants: self.descendants.deep_view().to_set(),
            context: self.context@,
            attributes: self.attributes@,
        }
    }
}

impl DeepView for ValidatorActionId {
    type V = ValidatorActionIdSpec;

    open spec fn deep_view(&self) -> ValidatorActionIdSpec {
        self@
    }
}

impl DeepClone for ValidatorActionId {
    fn deep_clone(&self) -> (r: Self) {
        ValidatorActionId {
            name: self.name.key_clone(),
            applies_to: self.applies_to.deep_clone(),
            descendants: clone_keys(&self.descendants),
            context: clone_attributes(&self.context),
            attributes: clone_attributes(&self.attributes),
        }
    }
}

impl Clone for ValidatorActionId {
    fn clone(&self) -> (r: Self)
        ensures
            r@ == self@,
    {
        self.deep_clone()
    }
}

impl ValidatorActionId {
    /// The attributes of the context of a request for this action.
    pub fn context(&self) -> (r: &Attributes)
        ensures
            r@ == self@.context,
    {
        &self.context
    }
}

/// The entity types that a list of an apply spec names.
pub open spec fn apply_names(s: Seq<EntityTypeRefSpec>) -> Set<NameSpec> {
    Set::new(|q: NameSpec| s.contains(EntityTypeRefSpec::Concrete(q)))
}

/// The entity types that an action refers to: in the types of its context
/// and among its principals and resources.
pub open spec fn action_names(a: ValidatorActionIdSpec) -> Set<NameSpec> {
    names_in_attrs(a.context).union(apply_names(a.applies_to.principals)).union(
        apply_names(a.applies_to.resources),
    )
}

/// The mathematical value of a [`ValidatorSchema`].
pub struct ValidatorSchemaSpec {
    pub entity_types: Seq<(NameSpec, ValidatorEntityTypeSpec)>,
    pub action_ids: Seq<(ActionIdSpec, ValidatorActionIdSpec)>,
}

impl ValidatorSchemaSpec {
    /// What holds of every compiled schema.
    ///
    /// Nothing is declared twice, each declaration is listed under its own
    /// name, and no entity type has the base that is kept for actions. Descendants are declared, and the descendants of a
    /// descendant are descendants. No action is its own descendant. Every
    /// entity type that occurs in the type of an attribute of an entity type
    /// or of an action, in the type of a context or in an apply spec is
    /// declared.
    pub open spec fn wf(self) -> bool {
        &&& distinct_keys(self.entity_types)
        &&& distinct_keys(self.action_ids)
        &&& crate::namespace_def::declares_no_action_type(self.entity_types)
        &&& forall|i: int|
            0 <= i < self.entity_types.len() ==> (#[trigger] self.entity_types[i]).1.name
                == self.entity_types[i].0
        &&& forall|i: int|
            0 <= i < self.action_ids.len() ==> (#[trigger] self.action_ids[i]).1.name
                == self.action_ids[i].0
        &&& forall|i: int, q: NameSpec|
            0 <= i < self.entity_types.len() && (
            #[trigger] self.entity_types[i].1.descendants.contains(q)) ==> has_key(
                self.entity_types,
                q,
            )
        &&& forall|i: int, j: int, q: NameSpec|
            0 <= i < self.entity_types.len() && 0 <= j < self.entity_types.len() && (
            #[trigger] self.entity_types[i].1.descendants.contains(self.entity_types[j].0)) && (
            #[trigger] self.entity_types[j].1.descendants.contains(q))
                ==> self.entity_types[i].1.descendants.contains(q)
        &&& forall|i: int, q: NameSpec|
            0 <= i < self.entity_types.len() && (#[trigger] names_in_attrs(
                self.entity_types[i].1.attributes,
            ).contains(q)) ==> has_key(self.entity_types, q)
        &&& forall|i: int, a: ActionIdSpec|
            0 <= i < self.action_ids.len() && (
            #[trigger] self.action_ids[i].1.descendants.contains(a)) ==> has_key(
                self.action_ids,
                a,
            )
        &&& forall|i: int, j: int, a: ActionIdSpec|
            0 <= i < self.action_ids.len() && 0 <= j < self.action_ids.len() && (
            #[trigger] self.action_ids[i].1.descendants.contains(self.action_ids[j].0)) && (
            #[trigger] self.action_ids[j].1.descendants.contains(a))
                ==> self.action_ids[i].1.descendants.contains(a)
        &&& forall|i: int|
            0 <= i < self.action_ids.len() ==> !(
            #[trigger] self.action_ids[i]).1.descendants.contains(self.action_ids[i].0)
        &&& forall|i: int, q: NameSpec|
            0 <= i < self.action_ids.len() && (#[trigger] action_names(
                self.action_ids[i].1,
            ).contains(q)) ==> has_key(self.entity_types, q)
        &&& forall|i: int, q: NameSpec|
            0 <= i < self.action_ids.len() && (#[trigger] names_in_attrs(
                self.action_ids[i].1.attributes,
            ).contains(q)) ==> has_key(self.entity_types, q)
    }
}

/// A compiled schema.
#[derive(Debug)]
pub struct ValidatorSchema {
    /// The declared entity types, each under its name.
    pub(crate) entity_types: Vec<(QualifiedName, ValidatorEntityType)>,
    /// The declared actions, each under its identifier.
    pub(crate) action_ids: Vec<(ActionId, ValidatorActionId)>,
}

impl View for ValidatorSchema {
    type V = ValidatorSchemaSpec;

    closed spec fn view(&self) -> ValidatorSchemaSpec {
        ValidatorSchemaSpec {
            entity_types: self.entity_types.deep_view(),
            action_ids: self.action_ids.deep_view(),
        }
    }
}

impl DeepView for ValidatorSchema {
    type V = ValidatorSchemaSpec;

    open spec fn deep_view(&self) -> ValidatorSchemaSpec {
        self@
    }
}

/// The keys of the entries, in order.
pub open spec fn keys_of<A, B>(entries: Seq<(A, B)>) -> Seq<A> {
    entries.map_values(|e: (A, B)| e.0)
}

/// The entity types that have `name` among their descendants, in order.
pub open spec fn ancestors_of(
    entity_types: Seq<(NameSpec, ValidatorEntityTypeSpec)>,
    name: NameSpec,
) -> Seq<NameSpec>
    decreases entity_types.len(),
{
    if entity_types.len() == 0 {
        Seq::empty()
    } else if entity_types.last().1.descendants.contains(name) {
        ancestors_of(entity_types.drop_last(), name).push(entity_types.last().0)
    } else {
        ancestors_of(entity_types.drop_last(), name)
    }
}

/// The type of the attribute `attr` of the entity type `entity_type`: none
/// for the unspecified entity type, for an entity type that is not
/// declared, and for an attribute that the entity type does not have.
pub open spec fn attr_type_of(
    s: ValidatorSchemaSpec,
    entity_type: EntityTypeRefSpec,
    attr: Seq<char>,
) -> Option<TypeSpec> {
    match entity_type {
        EntityTypeRefSpec::Unspecified => None,
        EntityTypeRefSpec::Concrete(name) => match lookup(s.entity_types, name) {
            None => None,
            Some(et) => match lookup(et.attributes, attr) {
                None => None,
                Some(t) => Some(t.attr_type),
            },
        },
    }
}

/// The names of the required attributes of the entity type
/// `entity_type`: none for the unspecified entity type and for an entity
/// type that is not declared.
pub open spec fn required_attrs_of(s: ValidatorSchemaSpec, entity_type: EntityTypeRefSpec) -> Seq<
    Seq<char>,
> {
    match entity_type {
        EntityTypeRefSpec::Unspecified => Seq::empty(),
        EntityTypeRefSpec::Concrete(name) => match lookup(s.entity_types, name) {
            None => Seq::empty(),
            Some(et) => required_names(et.attributes),
        },
    }
}

/// The type of the context of a request for `action`, where the action is declared.
pub open spec fn context_schema_of(s: ValidatorSchemaSpec, action: ActionIdSpec) -> Option<
    TypeSpec,
> {
    match lookup(s.action_ids, action) {
        None => None,
        Some(a) => Some(TypeSpec::Record(a.context)),
    }
}

impl ValidatorSchema {
    /// Every entity type and every action lists each of its descendants once.
    pub closed spec fn lists_descendants_once(&self) -> bool {
        &&& forall|i: int|
            0 <= i < self.entity_types.len() ==> (
            #[trigger] self.entity_types[i]).1.descendants.deep_view().no_duplicates()
        &&& forall|i: int|
            0 <= i < self.action_ids.len() ==> (
            #[trigger] self.action_ids[i]).1.descendants.deep_view().no_duplicates()
    }

    /// The schema with the given entity types and actions.
    pub(crate) fn from_parts(
        entity_types: Vec<(QualifiedName, ValidatorEntityType)>,
        action_ids: Vec<(ActionId, ValidatorActionId)>,
    ) -> (r: Self)
        requires
            forall|i: int|
                0 <= i < entity_types.len() ==> (
                #[trigger] entity_types[i]).1.descendants.deep_view().no_duplicates(),
            forall|i: int|
                0 <= i < action_ids.len() ==> (
                #[trigger] action_ids[i]).1.descendants.deep_view().no_duplicates(),
        ensures
            r@ == (ValidatorSchemaSpec {
                entity_types: entity_types.deep_view(),
                action_ids: action_ids.deep_view(),
            }),
            r.lists_descendants_once(),
    {
        ValidatorSchema { entity_types, action_ids }
    }

    /// The schema that declares nothing.
    pub fn empty() -> (r: ValidatorSchema)
        ensures
            r@ == (ValidatorSchemaSpec { entity_types: Seq::empty(), action_ids: Seq::empty() }),
            r@.wf(),
            r.lists_descendants_once(),
    {
        let r = ValidatorSchema { entity_types: Vec::new(), action_ids: Vec::new() };
        assert(r@.entity_types =~= Seq::empty());
        assert(r@.action_ids =~= Seq::empty());
        r
    }

    /// The action `action_id`, where it is declared.
    pub fn get_action_id(&self, action_id: &ActionId) -> (r: Option<&ValidatorActionId>)
        ensures
            r.deep_view() == lookup(self@.action_ids, action_id@),
            self.lists_descendants_once() ==> (r matches Some(a)
                ==> a.descendants.deep_view().no_duplicates()),
    {
        match find(&self.action_ids, action_id) {
            Some(i) => {
                assert(self@.action_ids[i as int].1 == self.action_ids[i as int].1@);
                Some(&self.action_ids[i].1)
            },
            None => None,
        }
    }

    /// The entity type `entity_type_id`, where it is declared.
    pub fn get_entity_type(&self, entity_type_id: &QualifiedName) -> (r: Option<
        &ValidatorEntityType,
    >)
        ensures
            r.deep_view() == lookup(self@.entity_types, entity_type_id@),
            self.lists_descendants_once() ==> (r matches Some(e)
                ==> e.descendants.deep_view().no_duplicates()),
    {
        match find(&self.entity_types, entity_type_id) {
            Some(i) => {
                assert(self@.entity_types[i as int].1 == self.entity_types[i as int].1@);
                Some(&self.entity_types[i].1)
            },
            None => None,
        }
    }

    /// Whether the action `action_id` is declared.
    pub fn is_known_action_id(&self, action_id: &ActionId) -> (r: bool)
        ensures
            r == has_key(self@.action_ids, action_id@),
    {
        find(&self.action_ids, action_id).is_some()
    }

    /// Whether the entity type `entity_type` is declared.
    pub fn is_known_entity_type(&self, entity_type: &QualifiedName) -> (r: bool)
        ensures
            r == has_key(self@.entity_types, entity_type@),
    {
        find(&self.entity_types, entity_type).is_some()
    }

    /// The declared actions, in order.
    pub fn known_action_ids(&self) -> (r: Vec<ActionId>)
        ensures
            r.deep_view() == keys_of(self@.action_ids),
    {
        let mut out: Vec<ActionId> = Vec::new();
        let mut i: usize = 0;
        while i < self.action_ids.len()
            invariant
                i <= self.action_ids.len(),
                out.len() == i,
                forall|j: int| 0 <= j < i ==> (#[trigger] out.deep_view()[j]) == self@.action_ids[j].0,
            decreases self.action_ids.len() - i,
        {
            let ghost before = out.deep_view();
            let k = self.action_ids[i].0.key_clone();
            assert(k@ == self@.action_ids[i as int].0);
            out.push(k);
            assert(out.deep_view() =~= before.push(k@));
            i += 1;
        }
        assert(out.deep_view() =~= keys_of(self@.action_ids));
        out
    }

    /// The declared entity types, in order.
    pub fn known_entity_types(&self) -> (r: Vec<QualifiedName>)
        ensures
            r.deep_view() == keys_of(self@.entity_types),
    {
        let mut out: Vec<QualifiedName> = Vec::new();
        let mut i: usize = 0;
        while i < self.entity_types.len()
            invariant
                i <= self.entity_types.len(),
                out.len() == i,
                forall|j: int|
                    0 <= j < i ==> (#[trigger] out.deep_view()[j]) == self@.entity_types[j].0,
            decreases self.entity_types.len() - i,
        {
            let ghost before = out.deep_view();
            let k = self.entity_types[i].0.key_clone();
            assert(k@ == self@.entity_types[i as int].0);
            out.push(k);
            assert(out.deep_view() =~= before.push(k@));
            i += 1;
        }
        assert(out.deep_view() =~= keys_of(self@.entity_types));
        out
    }

    /// The declared entity types, each under its name, in order.
    pub fn entity_types(&self) -> (r: &Vec<(QualifiedName, ValidatorEntityType)>)
        ensures
            r.deep_view() == self@.entity_types,
    {
        &self.entity_types
    }

    /// The declared actions, each under its identifier, in order.
    pub fn action_ids(&self) -> (r: &Vec<(ActionId, ValidatorActionId)>)
        ensures
            r.deep_view() == self@.action_ids,
    {
        &self.action_ids
    }

    /// The entity types whose entities can have entities of the type
    /// `name` as members: those that have `name` among their descendants.
    pub fn get_ancestors(&self, name: &QualifiedName) -> (r: Vec<QualifiedName>)
        ensures
            r.deep_view() == ancestors_of(self@.entity_types, name@),
    {
        let ghost items = self@.entity_types;
        let mut out: Vec<QualifiedName> = Vec::new();
        assert(out.deep_view() =~= Seq::empty());
        assert(items.take(0) =~= Seq::empty());
        let mut i: usize = 0;
        while i < self.entity_types.len()
            invariant
                i <= self.entity_types.len(),
                items == self@.entity_types,
                out.deep_view() == ancestors_of(items.take(i as int), name@),
            decreases self.entity_types.len() - i,
        {
            proof {
                let t = items.take(i + 1);
                assert(t.drop_last() =~= items.take(i as int));
                assert(t.last() == (self.entity_types[i as int].0@, self.entity_types[i as int].1@));
            }
            if contains(&self.entity_types[i].1.descendants, name) {
                let ghost before = out.deep_view();
                out.push(self.entity_types[i].0.key_clone());
                assert(out.deep_view() =~= before.push(self.entity_types[i as int].0@));
            }
            i += 1;
        }
        assert(items.take(self.entity_types.len() as int) =~= items);
        out
    }

    /// The type of the context of a request for `action`: the record of the
    /// action's context attributes. None where the action is not declared.
    pub fn get_context_schema(&self, action: &ActionId) -> (r: Option<Type>)
        ensures
            r.deep_view() == context_schema_of(self@, action@),
    {
        match self.get_action_id(action) {
            Some(action_id) => Some(
                Type::record_with_attributes(clone_attributes(&action_id.context)),
            ),
            None => None,
        }
    }

    /// The type of the attribute `attr` of the entity type `entity_type`.
    pub fn attr_type(&self, entity_type: &EntityTypeRef, attr: &str) -> (r: Option<Type>)
        ensures
            r.deep_view() == attr_type_of(self@, entity_type@, attr@),
    {
        match entity_type {
            EntityTypeRef::Unspecified => None,
            EntityTypeRef::Concrete(name) => {
                match self.get_entity_type(name) {
                    None => None,
                    Some(et) => match et.attr(attr) {
                        None => None,
                        Some(t) => Some(clone_type(&t.attr_type)),
                    },
                }
            },
        }
    }

    /// The names of the required attributes of the entity type `entity_type`.
    pub fn required_attrs(&self, entity_type: &EntityTypeRef) -> (r: Vec<String>)
        ensures
            r.deep_view() == required_attrs_of(self@, entity_type@),
    {
        match entity_type {
            EntityTypeRef::Unspecified => {
                let r: Vec<String> = Vec::new();
                assert(r.deep_view() =~= Seq::empty());
                r
            },
            EntityTypeRef::Concrete(name) => {
                match self.get_entity_type(name) {
                    None => {
                        let r: Vec<String> = Vec::new();
                        assert(r.deep_view() =~= Seq::empty());
                        r
                    },
                    Some(et) => et.attributes.required_attrs(),
                }
            },
        }
    }
}

} // verus!
