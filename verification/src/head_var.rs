//! The entities that a policy's scope can stand for: for the principal and
//! the resource the declared entity types, for the action the declared
//! actions.

use vstd::prelude::*;
use crate::keys::{
    clone_keys, insert_member, insert_members, lemma_with_member, lemma_with_members, lookup, Key,
};
use crate::names::{
    ActionId, ActionIdSpec, EntityTypeRef, EntityTypeRefSpec, EntityUID, EntityUIDSpec, NameSpec,
    QualifiedName,
};
use crate::validator_schema::{keys_of, ValidatorSchema, ValidatorSchemaSpec};

verus! {

/// A kind of variable of a policy's scope, which picks from an entity's
/// identifier the part that the schema knows of: a key of type `K`.
pub trait HeadVar<K: Key>: Copy {
    /// The part of `euid` that the variable is about.
    spec fn component(&self, euid: EntityUIDSpec) -> Option<K::V>;

    /// The keys that `schema` declares for this kind of variable.
    spec fn known(&self, schema: ValidatorSchemaSpec) -> Seq<K::V>;

    /// The descendants of `k`, where `schema` declares `k`.
    spec fn descendants(&self, schema: ValidatorSchemaSpec, k: K::V) -> Option<Set<K::V>>;

    /// The keys that `schema` declares for this kind of variable.
    fn get_known_vars(&self, schema: &ValidatorSchema) -> (r: Vec<K>)
        ensures
            r.deep_view() == self.known(schema@),
    ;

    /// The part of `euid` that the variable is about.
    fn get_euid_component(&self, euid: &EntityUID) -> (r: Option<K>)
        ensures
            r.deep_view() == self.component(euid@),
    ;

    /// The part of `euid` that the variable is about, if `schema` declares it.
    fn get_euid_component_if_present(&self, schema: &ValidatorSchema, euid: &EntityUID) -> (r:
        Option<K>)
        ensures
            r.deep_view() == match self.component(euid@) {
                Some(k) => if self.descendants(schema@, k) is Some {
                    Some(k)
                } else {
                    None
                },
                None => None,
            },
    ;

    /// The descendants of the part of `euid` that the variable is about, if
    /// `schema` declares it.
    fn get_descendants_if_present(&self, schema: &ValidatorSchema, euid: &EntityUID) -> (r: Option<
        Vec<K>,
    >)
        ensures
            match self.component(euid@) {
                Some(k) => match self.descendants(schema@, k) {
                    Some(d) => r is Some && r->Some_0.deep_view().to_set() == d,
                    None => r is None,
                },
                None => r is None,
            },
    ;
}

/// The principal or the resource: its part of an identifier is the entity type.
#[derive(Debug, Clone, Copy)]
pub enum PrincipalOrResourceHeadVar {
    PrincipalOrResource,
}

/// The action: its part of an identifier is the whole identifier.
#[derive(Debug, Clone, Copy)]
pub enum ActionHeadVar {
    Action,
}

impl HeadVar<QualifiedName> for PrincipalOrResourceHeadVar {
    open spec fn component(&self, euid: EntityUIDSpec) -> Option<NameSpec> {
        match euid.ty {
            EntityTypeRefSpec::Unspecified => None,
            EntityTypeRefSpec::Concrete(name) => Some(name),
        }
    }

    open spec fn known(&self, schema: ValidatorSchemaSpec) -> Seq<NameSpec> {
        keys_of(schema.entity_types)
    }

    open spec fn descendants(&self, schema: ValidatorSchemaSpec, k: NameSpec) -> Option<
        Set<NameSpec>,
    > {
        match lookup(schema.entity_types, k) {
            Some(e) => Some(e.descendants),
            None => None,
        }
    }

    fn get_known_vars(&self, schema: &ValidatorSchema) -> (r: Vec<QualifiedName>) {
        schema.known_entity_types()
    }

    fn get_euid_component(&self, euid: &EntityUID) -> (r: Option<QualifiedName>) {
        match &euid.ty {
            EntityTypeRef::Unspecified => None,
            EntityTypeRef::Concrete(name) => Some(name.key_clone()),
        }
    }

    fn get_euid_component_if_present(&self, schema: &ValidatorSchema, euid: &EntityUID) -> (r:
        Option<QualifiedName>) {
        match self.get_euid_component(euid) {
            None => None,
            Some(euid_component) => {
                if schema.is_known_entity_type(&euid_component) {
                    Some(euid_component)
                } else {
                    None
                }
            },
        }
    }

    fn get_descendants_if_present(&self, schema: &ValidatorSchema, euid: &EntityUID) -> (r: Option<
        Vec<QualifiedName>,
    >) {
        match self.get_euid_component(euid) {
            None => None,
            Some(euid_component) => match schema.get_entity_type(&euid_component) {
                Some(entity_type) => Some(clone_keys(&entity_type.descendants)),
                None => None,
            },
        }
    }
}

impl HeadVar<ActionId> for ActionHeadVar {
    open spec fn component(&self, euid: EntityUIDSpec) -> Option<ActionIdSpec> {
        match euid.ty {
            EntityTypeRefSpec::Unspecified => None,
            EntityTypeRefSpec::Concrete(name) => Some(ActionIdSpec { ty: name, id: euid.eid }),
        }
    }

    open spec fn known(&self, schema: ValidatorSchemaSpec) -> Seq<ActionIdSpec> {
        keys_of(schema.action_ids)
    }

    open spec fn descendants(&self, schema: ValidatorSchemaSpec, k: ActionIdSpec) -> Option<
        Set<ActionIdSpec>,
    > {
        match lookup(schema.action_ids, k) {
            Some(a) => Some(a.descendants),
            None => None,
        }
    }

    fn get_known_vars(&self, schema: &ValidatorSchema) -> (r: Vec<ActionId>) {
        schema.known_action_ids()
    }

    fn get_euid_component(&self, euid: &EntityUID) -> (r: Option<ActionId>) {
        match &euid.ty {
            EntityTypeRef::Unspecified => None,
            EntityTypeRef::Concrete(name) => Some(
                ActionId::from_components(name.key_clone(), euid.eid.clone()),
            ),
        }
    }

    fn get_euid_component_if_present(&self, schema: &ValidatorSchema, euid: &EntityUID) -> (r:
        Option<ActionId>) {
        match self.get_euid_component(euid) {
            None => None,
            Some(euid_component) => {
                if schema.is_known_action_id(&euid_component) {
                    Some(euid_component)
                } else {
                    None
                }
            },
        }
    }

    fn get_descendants_if_present(&self, schema: &ValidatorSchema, euid: &EntityUID) -> (r: Option<
        Vec<ActionId>,
    >) {
        match self.get_euid_component(euid) {
            None => None,
            Some(euid_component) => match schema.get_action_id(&euid_component) {
                Some(action_id) => Some(clone_keys(&action_id.descendants)),
                None => None,
            },
        }
    }
}

/// The keys that are in `euid` for the variable `var`: the part of `euid`
/// that the variable is about, if the schema declares it, and its descendants.
pub open spec fn entities_in<H: HeadVar<K>, K: Key>(
    var: H,
    schema: ValidatorSchemaSpec,
    euid: EntityUIDSpec,
) -> Set<K::V> {
    match var.component(euid) {
        Some(k) => match var.descendants(schema, k) {
            Some(d) => d.insert(k),
            None => Set::empty(),
        },
        None => Set::empty(),
    }
}

/// The keys that are in one of `euids` for the variable `var`.
pub open spec fn entities_in_any<H: HeadVar<K>, K: Key>(
    var: H,
    schema: ValidatorSchemaSpec,
    euids: Seq<EntityUIDSpec>,
) -> Set<K::V>
    decreases euids.len(),
{
    if euids.len() == 0 {
        Set::empty()
    } else {
        entities_in_any::<H, K>(var, schema, euids.drop_last()).union(
            entities_in::<H, K>(var, schema, euids.last()),
        )
    }
}

impl ValidatorSchema {
    /// The key that equals `euid` for the variable `var`.
    pub fn get_entity_eq<H: HeadVar<K>, K: Key>(&self, var: H, euid: &EntityUID) -> (r: Option<K>)
        ensures
            r.deep_view() == var.component(euid@),
    {
        var.get_euid_component(euid)
    }

    /// The keys that are in `euid` for the variable `var`, each once.
    pub fn get_entities_in<H: HeadVar<K>, K: Key>(&self, var: H, euid: &EntityUID) -> (r: Vec<K>)
        ensures
            r.deep_view().to_set() == entities_in::<H, K>(var, self@, euid@),
            r.deep_view().no_duplicates(),
    {
        let mut out: Vec<K> = Vec::new();
        assert(out.deep_view() =~= Seq::<K::V>::empty());
        match var.get_descendants_if_present(self, euid) {
            Some(descendants) => {
                proof {
                    lemma_with_members(Seq::<K::V>::empty(), descendants.deep_view());
                }
                insert_members(&mut out, &descendants);
            },
            None => {},
        }
        let ghost middle = out.deep_view();
        match var.get_euid_component_if_present(self, euid) {
            Some(k) => {
                proof {
                    lemma_with_member(middle, k.deep_view());
                }
                insert_member(&mut out, k);
            },
            None => {},
        }
        assert(out.deep_view().to_set() =~= entities_in::<H, K>(var, self@, euid@));
        out
    }

    /// The keys that are in one of `euids` for the variable `var`, each once.
    pub fn get_entities_in_set<H: HeadVar<K>, K: Key>(&self, var: H, euids: &Vec<EntityUID>) -> (r:
        Vec<K>)
        ensures
            r.deep_view().to_set() == entities_in_any::<H, K>(var, self@, euids.deep_view()),
            r.deep_view().no_duplicates(),
    {
        let ghost items = euids.deep_view();
        let mut out: Vec<K> = Vec::new();
        assert(out.deep_view() =~= Seq::<K::V>::empty());
        assert(out.deep_view().to_set() =~= Set::<K::V>::empty());
        assert(items.take(0) =~= Seq::empty());
        let mut i: usize = 0;
        while i < euids.len()
            invariant
                i <= euids.len(),
                items == euids.deep_view(),
                out.deep_view().to_set() == entities_in_any::<H, K>(
                    var,
                    self@,
                    items.take(i as int),
                ),
                out.deep_view().no_duplicates(),
            decreases euids.len() - i,
        {
            proof {
                let t = items.take(i + 1);
                assert(t.drop_last() =~= items.take(i as int));
                assert(t.last() == euids[i as int]@);
            }
            let more = self.get_entities_in(var, &euids[i]);
            let ghost before = out.deep_view();
            proof {
                lemma_with_members(before, more.deep_view());
            }
            insert_members(&mut out, &more);
            assert(out.deep_view().to_set() =~= before.to_set().union(more.deep_view().to_set()));
            i += 1;
        }
        assert(items.take(euids.len() as int) =~= items);
        out
    }
}

} // verus!
