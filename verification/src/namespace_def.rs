//! One namespace of a schema fragment, compiled: names parsed and qualified,
//! membership turned round into lists of children, and every type lifted to
//! the form in which its references to common types can be resolved later.

use vstd::prelude::*;
use crate::deferred::{UnresolvedSpec, WithUnresolvedTypeDefs};
use crate::keys::{distinct_keys, has_key};
use crate::names::{
    ActionId, ActionIdSpec, EntityTypeRef, EntityTypeRefSpec, NameSpec, QualifiedName,
};
use crate::types::{Attributes, AttributesSpec, Type, TypeSpec};

verus! {

/// Whether actions may carry attributes.
#[derive(Debug, Clone, Copy, PartialEq, Eq, Structural)]
pub enum ActionBehavior {
    /// An action that declares attributes is an error.
    ProhibitAttributes,
    /// Actions may declare attributes.
    PermitAttributes,
}

impl Default for ActionBehavior {
    fn default() -> (r: Self)
        ensures
            r == ActionBehavior::ProhibitAttributes,
    {
        ActionBehavior::ProhibitAttributes
    }
}

/// The mathematical value of a [`ValidatorApplySpec`].
pub struct ApplySpecSpec {
    pub principals: Seq<EntityTypeRefSpec>,
    pub resources: Seq<EntityTypeRefSpec>,
}

/// The principals and resources that an action applies to, each listed once.
/// Where the schema leaves a list out, the list here is the unspecified
/// entity type alone.
#[derive(Debug, PartialEq, Eq)]
pub struct ValidatorApplySpec {
    pub principal_apply_spec: Vec<EntityTypeRef>,
    pub resource_apply_spec: Vec<EntityTypeRef>,
}

impl View for ValidatorApplySpec {
    type V = ApplySpecSpec;

    open spec fn view(&self) -> ApplySpecSpec {
        ApplySpecSpec {
            principals: self.principal_apply_spec.deep_view(),
            resources: self.resource_apply_spec.deep_view(),
        }
    }
}

impl DeepView for ValidatorApplySpec {
    type V = ApplySpecSpec;

    open spec fn deep_view(&self) -> ApplySpecSpec {
        self@
    }
}

impl crate::keys::DeepClone for ValidatorApplySpec {
    fn deep_clone(&self) -> (r: Self) {
        ValidatorApplySpec {
            principal_apply_spec: crate::keys::clone_keys(&self.principal_apply_spec),
            resource_apply_spec: crate::keys::clone_keys(&self.resource_apply_spec),
        }
    }
}

impl Clone for ValidatorApplySpec {
    fn clone(&self) -> (r: Self)
        ensures
            r@ == self@,
    {
        ValidatorApplySpec {
            principal_apply_spec: crate::keys::clone_keys(&self.principal_apply_spec),
            resource_apply_spec: crate::keys::clone_keys(&self.resource_apply_spec),
        }
    }
}

impl ValidatorApplySpec {
    /// The apply spec with the given principals and resources.
    pub fn new(
        principal_apply_spec: Vec<EntityTypeRef>,
        resource_apply_spec: Vec<EntityTypeRef>,
    ) -> (r: Self)
        ensures
            r@ == (ApplySpecSpec {
                principals: principal_apply_spec.deep_view(),
                resources: resource_apply_spec.deep_view(),
            }),
    {
        ValidatorApplySpec { principal_apply_spec, resource_apply_spec }
    }

    /// The principal types that the action applies to.
    pub fn applicable_principal_types(&self) -> (r: &Vec<EntityTypeRef>)
        ensures
            r.deep_view() == self@.principals,
    {
        &self.principal_apply_spec
    }

    /// The resource types that the action applies to.
    pub fn applicable_resource_types(&self) -> (r: &Vec<EntityTypeRef>)
        ensures
            r.deep_view() == self@.resources,
    {
        &self.resource_apply_spec
    }
}

/// Every key that is listed as a child is a key of `declared`.
pub open spec fn children_declared<A, B>(children: Seq<(A, Seq<A>)>, declared: Seq<(A, B)>) -> bool {
    forall|i: int, c: A|
        0 <= i < children.len() && (#[trigger] children[i].1.contains(c)) ==> has_key(declared, c)
}

/// The types of the attributes that are held name no entity type.
pub open spec fn attributes_name_nothing<A>(attributes: Seq<(A, AttributesSpec)>) -> bool {
    forall|i: int|
        0 <= i < attributes.len() ==> crate::types::names_in_attrs((#[trigger] attributes[i]).1)
            == Set::<NameSpec>::empty()
}

/// No key has the name of a built-in form of a written type as its base.
pub open spec fn avoids_builtin_names<B>(type_defs: Seq<(NameSpec, B)>) -> bool {
    forall|i: int|
        0 <= i < type_defs.len() ==> !crate::schema_file_format::is_builtin_type_text(
            (#[trigger] type_defs[i]).0.base,
        )
}

/// No key has the base that is kept for the entity types of actions.
pub open spec fn declares_no_action_type<B>(declared: Seq<(NameSpec, B)>) -> bool {
    forall|i: int|
        0 <= i < declared.len() ==> (#[trigger] declared[i]).0.base
            != crate::names::action_type_base()
}

/// The mathematical value of [`EntityTypesDef`].
pub struct EntityTypesDefSpec {
    pub attributes: Seq<(NameSpec, UnresolvedSpec)>,
    pub children: Seq<(NameSpec, Seq<NameSpec>)>,
}

/// The mathematical value of [`ActionsDef`].
pub struct ActionsDefSpec {
    pub context_applies_to: Seq<(ActionIdSpec, (UnresolvedSpec, ApplySpecSpec))>,
    pub children: Seq<(ActionIdSpec, Seq<ActionIdSpec>)>,
    pub attributes: Seq<(ActionIdSpec, AttributesSpec)>,
}

/// The mathematical value of a [`ValidatorNamespaceDef`].
pub struct NamespaceDefSpec {
    pub namespace: Option<NameSpec>,
    pub type_defs: Seq<(NameSpec, TypeSpec)>,
    pub entity_types: EntityTypesDefSpec,
    pub actions: ActionsDefSpec,
}

impl EntityTypesDefSpec {
    /// No entity type is declared twice or under the base that is kept for
    /// actions, no parent is listed twice, and every child is declared here.
    pub open spec fn wf(self) -> bool {
        &&& distinct_keys(self.attributes)
        &&& declares_no_action_type(self.attributes)
        &&& distinct_keys(self.children)
        &&& children_declared(self.children, self.attributes)
    }
}

impl ActionsDefSpec {
    /// No action is declared twice, no parent is listed twice, every child
    /// is declared here, and the attributes of actions name no entity type.
    pub open spec fn wf(self) -> bool {
        &&& distinct_keys(self.context_applies_to)
        &&& distinct_keys(self.children)
        &&& children_declared(self.children, self.context_applies_to)
        &&& attributes_name_nothing(self.attributes)
    }
}

impl NamespaceDefSpec {
    /// The parts are well formed, and no common type is defined twice or
    /// under a built-in name.
    pub open spec fn wf(self) -> bool {
        &&& distinct_keys(self.type_defs)
        &&& avoids_builtin_names(self.type_defs)
        &&& self.entity_types.wf()
        &&& self.actions.wf()
    }
}

/// The common types that a namespace defines, each with the type it stands for.
#[derive(Debug)]
pub struct TypeDefs {
    pub(crate) type_defs: Vec<(QualifiedName, Type)>,
}

/// The entity types that a namespace declares.
#[derive(Debug)]
pub struct EntityTypesDef {
    /// The declared entity types, each with its attributes still to be resolved.
    pub(crate) attributes: Vec<(QualifiedName, WithUnresolvedTypeDefs)>,
    /// Entity types that are named as a parent, each with the declared entity
    /// types that name it. A parent need not be declared in this namespace.
    pub(crate) children: Vec<(QualifiedName, Vec<QualifiedName>)>,
}

/// The actions that a namespace declares.
#[derive(Debug)]
pub struct ActionsDef {
    /// The declared actions, each with its context still to be resolved and
    /// with what it applies to.
    pub(crate) context_applies_to: Vec<(ActionId, (WithUnresolvedTypeDefs, ValidatorApplySpec))>,
    /// Actions that are named as a parent, each with the declared actions
    /// that name it. A parent need not be declared in this namespace.
    pub(crate) children: Vec<(ActionId, Vec<ActionId>)>,
    /// The declared actions, each with the types of its attributes.
    pub(crate) attributes: Vec<(ActionId, Attributes)>,
}

/// One namespace of a schema fragment, compiled.
#[derive(Debug)]
pub struct ValidatorNamespaceDef {
    /// The namespace, unless it is the root.
    pub(crate) namespace: Option<QualifiedName>,
    pub(crate) type_defs: TypeDefs,
    pub(crate) entity_types: EntityTypesDef,
    pub(crate) actions: ActionsDef,
}

impl View for TypeDefs {
    type V = Seq<(NameSpec, TypeSpec)>;

    closed spec fn view(&self) -> Seq<(NameSpec, TypeSpec)> {
        self.type_defs.deep_view()
    }
}

impl View for EntityTypesDef {
    type V = EntityTypesDefSpec;

    closed spec fn view(&self) -> EntityTypesDefSpec {
        EntityTypesDefSpec {
            attributes: self.attributes.deep_view(),
            children: self.children.deep_view(),
        }
    }
}

impl View for ActionsDef {
    type V = ActionsDefSpec;

    closed spec fn view(&self) -> ActionsDefSpec {
        ActionsDefSpec {
            context_applies_to: self.context_applies_to.deep_view(),
            children: self.children.deep_view(),
            attributes: self.attributes.deep_view(),
        }
    }
}

impl View for ValidatorNamespaceDef {
    type V = NamespaceDefSpec;

    closed spec fn view(&self) -> NamespaceDefSpec {
        NamespaceDefSpec {
            namespace: self.namespace.deep_view(),
            type_defs: self.type_defs@,
            entity_types: self.entity_types@,
            actions: self.actions@,
        }
    }
}

impl DeepView for ValidatorNamespaceDef {
    type V = NamespaceDefSpec;

    open spec fn deep_view(&self) -> NamespaceDefSpec {
        self@
    }
}

impl DeepView for TypeDefs {
    type V = Seq<(NameSpec, TypeSpec)>;

    open spec fn deep_view(&self) -> Seq<(NameSpec, TypeSpec)> {
        self@
    }
}

impl DeepView for EntityTypesDef {
    type V = EntityTypesDefSpec;

    open spec fn deep_view(&self) -> EntityTypesDefSpec {
        self@
    }
}

impl DeepView for ActionsDef {
    type V = ActionsDefSpec;

    open spec fn deep_view(&self) -> ActionsDefSpec {
        self@
    }
}

impl TypeDefs {
    /// No common type is defined twice or under a built-in name.
    #[verifier::type_invariant]
    spec fn inv(&self) -> bool {
        distinct_keys(self@) && avoids_builtin_names(self@)
    }

    /// The definitions `type_defs`.
    pub(crate) fn from_entries(type_defs: Vec<(QualifiedName, Type)>) -> (r: Self)
        requires
            distinct_keys(type_defs.deep_view()),
            avoids_builtin_names(type_defs.deep_view()),
        ensures
            r@ == type_defs.deep_view(),
    {
        TypeDefs { type_defs }
    }

    /// The definitions, in order.
    pub(crate) fn entries(&self) -> (r: &Vec<(QualifiedName, Type)>)
        ensures
            r.deep_view() == self@,
            distinct_keys(self@),
            avoids_builtin_names(self@),
    {
        proof {
            use_type_invariant(self);
        }
        &self.type_defs
    }
}

impl EntityTypesDef {
    /// The value is well formed.
    #[verifier::type_invariant]
    spec fn inv(&self) -> bool {
        self@.wf()
    }

    /// The declarations `attributes` with the lists of children `children`.
    pub(crate) fn from_entries(
        attributes: Vec<(QualifiedName, WithUnresolvedTypeDefs)>,
        children: Vec<(QualifiedName, Vec<QualifiedName>)>,
    ) -> (r: Self)
        requires
            (EntityTypesDefSpec {
                attributes: attributes.deep_view(),
                children: children.deep_view(),
            }).wf(),
        ensures
            r@ == (EntityTypesDefSpec {
                attributes: attributes.deep_view(),
                children: children.deep_view(),
            }),
    {
        EntityTypesDef { attributes, children }
    }

    /// The declarations and the lists of children, in order.
    pub(crate) fn entries(&self) -> (r: (
        &Vec<(QualifiedName, WithUnresolvedTypeDefs)>,
        &Vec<(QualifiedName, Vec<QualifiedName>)>,
    ))
        ensures
            r.0.deep_view() == self@.attributes,
            r.1.deep_view() == self@.children,
            self@.wf(),
    {
        proof {
            use_type_invariant(self);
        }
        (&self.attributes, &self.children)
    }
}

impl ActionsDef {
    /// The value is well formed.
    #[verifier::type_invariant]
    spec fn inv(&self) -> bool {
        self@.wf()
    }

    /// The declarations `context_applies_to` with the lists of children
    /// `children` and the attributes `attributes`.
    pub(crate) fn from_entries(
        context_applies_to: Vec<(ActionId, (WithUnresolvedTypeDefs, ValidatorApplySpec))>,
        children: Vec<(ActionId, Vec<ActionId>)>,
        attributes: Vec<(ActionId, Attributes)>,
    ) -> (r: Self)
        requires
            (ActionsDefSpec {
                context_applies_to: context_applies_to.deep_view(),
                children: children.deep_view(),
                attributes: attributes.deep_view(),
            }).wf(),
        ensures
            r@ == (ActionsDefSpec {
                context_applies_to: context_applies_to.deep_view(),
                children: children.deep_view(),
                attributes: attributes.deep_view(),
            }),
    {
        ActionsDef { context_applies_to, children, attributes }
    }

    /// The declarations, the lists of children and the attributes, in order.
    pub(crate) fn entries(&self) -> (r: (
        &Vec<(ActionId, (WithUnresolvedTypeDefs, ValidatorApplySpec))>,
        &Vec<(ActionId, Vec<ActionId>)>,
        &Vec<(ActionId, Attributes)>,
    ))
        ensures
            r.0.deep_view() == self@.context_applies_to,
            r.1.deep_view() == self@.children,
            r.2.deep_view() == self@.attributes,
            self@.wf(),
    {
        proof {
            use_type_invariant(self);
        }
        (&self.context_applies_to, &self.children, &self.attributes)
    }
}

impl ValidatorNamespaceDef {
    /// The namespace, unless it is the root.
    pub fn namespace(&self) -> (r: &Option<QualifiedName>)
        ensures
            r.deep_view() == self@.namespace,
    {
        &self.namespace
    }

    /// The definition with the given namespace and parts.
    pub(crate) fn from_parts(
        namespace: Option<QualifiedName>,
        type_defs: TypeDefs,
        entity_types: EntityTypesDef,
        actions: ActionsDef,
    ) -> (r: Self)
        ensures
            r@ == (NamespaceDefSpec {
                namespace: namespace.deep_view(),
                type_defs: type_defs@,
                entity_types: entity_types@,
                actions: actions@,
            }),
    {
        ValidatorNamespaceDef { namespace, type_defs, entity_types, actions }
    }

    /// The parts of the definition.
    pub(crate) fn parts(&self) -> (r: (&TypeDefs, &EntityTypesDef, &ActionsDef))
        ensures
            r.0@ == self@.type_defs,
            r.1@ == self@.entity_types,
            r.2@ == self@.actions,
    {
        (&self.type_defs, &self.entity_types, &self.actions)
    }
}

} // verus!
