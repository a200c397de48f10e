//! Types in which references to common types are still to be resolved.

use vstd::prelude::*;
use crate::err::{SchemaError, SchemaErrorSpec};
use crate::keys::{find, lookup, put, DeepClone, Key};
use crate::names::{NameSpec, QualifiedName};
use crate::types::{
    clone_type, AttributeType, AttributeTypeSpec, Attributes, AttributesSpec, Type, TypeSpec,
};

verus! {

/// The mathematical value of a [`WithUnresolvedTypeDefs`].
pub enum UnresolvedSpec {
    Resolved(TypeSpec),
    SetOf(Box<UnresolvedSpec>),
    Record(Seq<(Seq<char>, UnresolvedSpec, bool)>),
    TypeDef { name: NameSpec, written: Seq<char> },
}

/// A type that may refer to common types which are defined elsewhere, and
/// which becomes a [`Type`] once all common types are known.
#[derive(Debug, PartialEq, Eq)]
pub enum WithUnresolvedTypeDefs {
    /// A type that refers to no common type.
    WithoutUnresolved(Type),
    /// A set whose element type is still to be resolved.
    SetOf(Box<WithUnresolvedTypeDefs>),
    /// A record: each attribute's name, its type, and whether it is required.
    Record(Vec<(String, WithUnresolvedTypeDefs, bool)>),
    /// A reference to the common type `name`, which was written as `written`.
    TypeDef { name: QualifiedName, written: String },
}

/// The value of a type that is still to be resolved.
pub open spec fn unresolved_view(u: WithUnresolvedTypeDefs) -> UnresolvedSpec
    decreases u,
{
    match u {
        WithUnresolvedTypeDefs::WithoutUnresolved(t) => UnresolvedSpec::Resolved(t@),
        WithUnresolvedTypeDefs::SetOf(e) => UnresolvedSpec::SetOf(Box::new(unresolved_view(*e))),
        WithUnresolvedTypeDefs::Record(attrs) => UnresolvedSpec::Record(
            Seq::new(
                attrs.len() as nat,
                |i: int|
                    if 0 <= i < attrs.len() {
                        (attrs[i].0@, unresolved_view(attrs[i].1), attrs[i].2)
                    } else {
                        arbitrary()
                    },
            ),
        ),
        WithUnresolvedTypeDefs::TypeDef { name, written } => UnresolvedSpec::TypeDef {
            name: name@,
            written: written@,
        },
    }
}

impl View for WithUnresolvedTypeDefs {
    type V = UnresolvedSpec;

    open spec fn view(&self) -> UnresolvedSpec {
        unresolved_view(*self)
    }
}

impl DeepView for WithUnresolvedTypeDefs {
    type V = UnresolvedSpec;

    open spec fn deep_view(&self) -> UnresolvedSpec {
        self@
    }
}

/// Whether the outcome `r` has the value `s`: the same success or the same
/// error, an error reporting each name once.
pub open spec fn outcome_is<T: DeepView>(
    r: Result<T, SchemaError>,
    s: Result<T::V, SchemaErrorSpec>,
) -> bool {
    match r {
        Ok(a) => s == Ok::<T::V, SchemaErrorSpec>(a.deep_view()),
        Err(e) => s == Err::<T::V, SchemaErrorSpec>(e@) && e.wf(),
    }
}

/// The set type over a type that is still to be resolved.
pub open spec fn set_of(u: UnresolvedSpec) -> UnresolvedSpec {
    match u {
        UnresolvedSpec::Resolved(t) => UnresolvedSpec::Resolved(
            TypeSpec::SetOf(Some(Box::new(t))),
        ),
        _ => UnresolvedSpec::SetOf(Box::new(u)),
    }
}

/// What `u` resolves to when the common types are `defs`: each reference is
/// replaced by the type that `defs` gives its name, and a reference to a
/// name that `defs` lacks is an error that reports the name as written.
pub open spec fn resolved(u: UnresolvedSpec, defs: Seq<(NameSpec, TypeSpec)>) -> Result<
    TypeSpec,
    SchemaErrorSpec,
>
    decreases u,
{
    match u {
        UnresolvedSpec::Resolved(t) => Ok(t),
        UnresolvedSpec::SetOf(e) => match resolved(*e, defs) {
            Ok(t) => Ok(TypeSpec::SetOf(Some(Box::new(t)))),
            Err(e) => Err(e),
        },
        UnresolvedSpec::Record(attrs) => match resolved_attrs(attrs, defs) {
            Ok(a) => Ok(TypeSpec::Record(a)),
            Err(e) => Err(e),
        },
        UnresolvedSpec::TypeDef { name, written } => match lookup(defs, name) {
            Some(t) => Ok(t),
            None => Err(SchemaErrorSpec::UndeclaredCommonType(seq![written])),
        },
    }
}

/// What the attributes `attrs` resolve to: the error of the first attribute
/// whose type does not resolve, else the attributes with their resolved types.
pub open spec fn resolved_attrs(
    attrs: Seq<(Seq<char>, UnresolvedSpec, bool)>,
    defs: Seq<(NameSpec, TypeSpec)>,
) -> Result<AttributesSpec, SchemaErrorSpec>
    decreases attrs,
{
    if attrs.len() == 0 {
        Ok(Seq::empty())
    } else {
        match resolved_attrs(attrs.drop_last(), defs) {
            Err(e) => Err(e),
            Ok(acc) => match resolved(attrs.last().1, defs) {
                Err(e) => Err(e),
                Ok(t) => Ok(
                    put(
                        acc,
                        attrs.last().0,
                        AttributeTypeSpec { attr_type: t, is_required: attrs.last().2 },
                    ),
                ),
            },
        }
    }
}

/// What a resolved type gives as the attributes of an entity type or as a
/// context: the attributes of a record, and an error for any other type.
pub open spec fn record_attributes(t: TypeSpec) -> Result<AttributesSpec, SchemaErrorSpec> {
    match t {
        TypeSpec::Record(attrs) => Ok(attrs),
        _ => Err(SchemaErrorSpec::ContextOrShapeNotRecord),
    }
}

impl DeepClone for WithUnresolvedTypeDefs {
    fn deep_clone(&self) -> (r: Self) {
        clone_unresolved(self)
    }
}

impl Clone for WithUnresolvedTypeDefs {
    fn clone(&self) -> (r: Self)
        ensures
            r@ == self@,
    {
        clone_unresolved(self)
    }
}

/// A copy of a type that is still to be resolved.
pub fn clone_unresolved(u: &WithUnresolvedTypeDefs) -> (r: WithUnresolvedTypeDefs)
    ensures
        r@ == u@,
    decreases *u,
{
    match u {
        WithUnresolvedTypeDefs::WithoutUnresolved(t) => WithUnresolvedTypeDefs::WithoutUnresolved(
            clone_type(t),
        ),
        WithUnresolvedTypeDefs::SetOf(e) => {
            let inner = clone_unresolved(e);
            WithUnresolvedTypeDefs::SetOf(Box::new(inner))
        },
        WithUnresolvedTypeDefs::Record(attrs) => {
            let mut out: Vec<(String, WithUnresolvedTypeDefs, bool)> = Vec::new();
            let mut i: usize = 0;
            while i < attrs.len()
                invariant
                    i <= attrs.len(),
                    out.len() == i,
                    forall|j: int| 0 <= j < attrs.len() ==> decreases_to!(*u => attrs[j].1),
                    forall|j: int|
                        0 <= j < i ==> out[j].0@ == attrs[j].0@ && out[j].1@ == attrs[j].1@
                            && out[j].2 == attrs[j].2,
                decreases attrs.len() - i,
            {
                let inner = clone_unresolved(&attrs[i].1);
                out.push((attrs[i].0.clone(), inner, attrs[i].2));
                i += 1;
            }
            let r = WithUnresolvedTypeDefs::Record(out);
            assert(r@->Record_0 =~= u@->Record_0);
            r
        },
        WithUnresolvedTypeDefs::TypeDef { name, written } => WithUnresolvedTypeDefs::TypeDef {
            name: name.key_clone(),
            written: written.clone(),
        },
    }
}

impl WithUnresolvedTypeDefs {
    /// The reference to the common type `name`, which was written as `written`.
    pub fn new(name: QualifiedName, written: String) -> (r: Self)
        ensures
            r@ == (UnresolvedSpec::TypeDef { name: name@, written: written@ }),
    {
        WithUnresolvedTypeDefs::TypeDef { name, written }
    }

    /// The set type over this type.
    pub fn set_of(self) -> (r: Self)
        ensures
            r@ == set_of(self@),
    {
        match self {
            WithUnresolvedTypeDefs::WithoutUnresolved(t) => WithUnresolvedTypeDefs::WithoutUnresolved(
                Type::set(t),
            ),
            other => WithUnresolvedTypeDefs::SetOf(Box::new(other)),
        }
    }

    /// Replaces every reference to a common type by the type that
    /// `type_defs` gives its name.
    pub fn resolve_type_defs(&self, type_defs: &Vec<(QualifiedName, Type)>) -> (r: Result<
        Type,
        SchemaError,
    >)
        ensures
            outcome_is(r, resolved(self@, type_defs.deep_view())),
        decreases *self,
    {
        match self {
            WithUnresolvedTypeDefs::WithoutUnresolved(t) => Ok(clone_type(t)),
            WithUnresolvedTypeDefs::SetOf(e) => {
                match e.resolve_type_defs(type_defs) {
                    Ok(t) => Ok(Type::set(t)),
                    Err(e) => Err(e),
                }
            },
            WithUnresolvedTypeDefs::Record(attrs) => {
                let mut out = Attributes { attrs: Vec::new() };
                assert(out@ =~= Seq::empty());
                let mut i: usize = 0;
                while i < attrs.len()
                    invariant
                        i <= attrs.len(),
                        self@ is Record,
                        self@->Record_0.len() == attrs.len(),
                        forall|j: int|
                            0 <= j < attrs.len() ==> (#[trigger] self@->Record_0[j]) == (
                                attrs[j].0@,
                                attrs[j].1@,
                                attrs[j].2,
                            ),
                        forall|j: int| 0 <= j < attrs.len() ==> decreases_to!(*self => attrs[j].1),
                        resolved_attrs(self@->Record_0.take(i as int), type_defs.deep_view())
                            == Ok::<AttributesSpec, SchemaErrorSpec>(out@),
                    decreases attrs.len() - i,
                {
                    proof {
                        let t = self@->Record_0.take(i + 1);
                        assert(t.drop_last() =~= self@->Record_0.take(i as int));
                        assert(t.last() == self@->Record_0[i as int]);
                    }
                    match attrs[i].1.resolve_type_defs(type_defs) {
                        Ok(t) => {
                            out.insert(attrs[i].0.clone(), AttributeType::new(t, attrs[i].2));
                        },
                        Err(e) => {
                            proof {
                                lemma_resolved_attrs_error(
                                    self@->Record_0,
                                    type_defs.deep_view(),
                                    i + 1,
                                );
                            }
                            return Err(e);
                        },
                    }
                    i += 1;
                }
                assert(self@->Record_0.take(attrs.len() as int) =~= self@->Record_0);
                Ok(Type::record_with_attributes(out))
            },
            WithUnresolvedTypeDefs::TypeDef { name, written } => {
                match find(type_defs, name) {
                    Some(i) => Ok(clone_type(&type_defs[i].1)),
                    None => {
                        let mut names: Vec<String> = Vec::new();
                        names.push(written.clone());
                        assert(names.deep_view() =~= seq![written@]);
                        Err(SchemaError::UndeclaredCommonType(names))
                    },
                }
            },
        }
    }
}

/// Once a prefix of the attributes fails to resolve, the whole list fails
/// with the same error.
pub proof fn lemma_resolved_attrs_error(
    attrs: Seq<(Seq<char>, UnresolvedSpec, bool)>,
    defs: Seq<(NameSpec, TypeSpec)>,
    n: int,
)
    requires
        0 <= n <= attrs.len(),
        resolved_attrs(attrs.take(n), defs) is Err,
    ensures
        resolved_attrs(attrs, defs) == resolved_attrs(attrs.take(n), defs),
    decreases attrs.len() - n,
{
    if n == attrs.len() {
        assert(attrs.take(n) =~= attrs);
    } else {
        let t = attrs.take(n + 1);
        assert(t.drop_last() =~= attrs.take(n));
        lemma_resolved_attrs_error(attrs, defs, n + 1);
    }
}

/// The attributes of a record type; any other type is no shape and no context.
pub fn record_attributes_or_error(ty: Type) -> (r: Result<Attributes, SchemaError>)
    ensures
        outcome_is(r, record_attributes(ty@)),
{
    match ty {
        Type::Record { attrs } => Ok(attrs),
        _ => Err(SchemaError::ContextOrShapeNotRecord),
    }
}

} // verus!
