//! The types that attributes, contexts and common types resolve to.

use vstd::prelude::*;
use vstd::string::StringExecFns;
use crate::keys::{clone_keys, distinct_keys, find, lemma_put, lookup, put, DeepClone};
use crate::names::{NameSpec, QualifiedName};

verus! {

/// The primitive types.
#[derive(Debug, Clone, Copy, PartialEq, Eq, Structural)]
pub enum Primitive {
    Bool,
    Long,
    String,
}

/// The mathematical value of a [`Type`].
pub enum TypeSpec {
    Primitive(Primitive),
    /// A set, with its element type where it has one.
    SetOf(Option<Box<TypeSpec>>),
    Record(AttributesSpec),
    /// The entity types of a least upper bound.
    Entity(Seq<NameSpec>),
    Extension(Seq<char>),
}

/// The mathematical value of an [`AttributeType`].
pub struct AttributeTypeSpec {
    pub attr_type: TypeSpec,
    pub is_required: bool,
}

/// The mathematical value of [`Attributes`]: names with their types, in order.
pub type AttributesSpec = Seq<(Seq<char>, AttributeTypeSpec)>;

/// A type of the policy language.
#[derive(Debug, PartialEq, Eq)]
pub enum Type {
    Primitive { primitive_type: Primitive },
    /// A set; the element type is absent only for the empty-set literal.
    SetOf { element_type: Option<Box<Type>> },
    Record { attrs: Attributes },
    /// A least upper bound over entity types.
    Entity { lub: EntityLUB },
    /// An extension type, known by its name alone.
    ExtensionType { name: String },
}

/// The type of one attribute, and whether the attribute must be present.
#[derive(Debug, PartialEq, Eq)]
pub struct AttributeType {
    pub attr_type: Type,
    pub is_required: bool,
}

/// Attribute names with their types, in a fixed order.
#[derive(Debug, PartialEq, Eq)]
pub struct Attributes {
    pub attrs: Vec<(String, AttributeType)>,
}

/// The entity types of a least upper bound.
#[derive(Debug, PartialEq, Eq)]
pub struct EntityLUB {
    pub lub_elements: Vec<QualifiedName>,
}

impl View for EntityLUB {
    type V = Seq<NameSpec>;

    open spec fn view(&self) -> Seq<NameSpec> {
        self.lub_elements.deep_view()
    }
}

impl DeepView for EntityLUB {
    type V = Seq<NameSpec>;

    open spec fn deep_view(&self) -> Seq<NameSpec> {
        self@
    }
}

/// The value of a type.
pub open spec fn type_view(t: Type) -> TypeSpec
    decreases t,
{
    match t {
        Type::Primitive { primitive_type } => TypeSpec::Primitive(primitive_type),
        Type::SetOf { element_type: None } => TypeSpec::SetOf(None),
        Type::SetOf { element_type: Some(e) } => TypeSpec::SetOf(Some(Box::new(type_view(*e)))),
        Type::Record { attrs } => TypeSpec::Record(attributes_view(attrs)),
        Type::Entity { lub } => TypeSpec::Entity(lub@),
        Type::ExtensionType { name } => TypeSpec::Extension(name@),
    }
}

/// The value of a list of attributes.
pub open spec fn attributes_view(a: Attributes) -> AttributesSpec
    decreases a,
{
    Seq::new(
        a.attrs.len() as nat,
        |i: int|
            if 0 <= i < a.attrs.len() {
                (
                    a.attrs[i].0@,
                    AttributeTypeSpec {
                        attr_type: type_view(a.attrs[i].1.attr_type),
                        is_required: a.attrs[i].1.is_required,
                    },
                )
            } else {
                arbitrary()
            },
    )
}

impl View for Type {
    type V = TypeSpec;

    open spec fn view(&self) -> TypeSpec {
        type_view(*self)
    }
}

impl DeepView for Type {
    type V = TypeSpec;

    open spec fn deep_view(&self) -> TypeSpec {
        self@
    }
}

impl View for AttributeType {
    type V = AttributeTypeSpec;

    open spec fn view(&self) -> AttributeTypeSpec {
        AttributeTypeSpec { attr_type: self.attr_type@, is_required: self.is_required }
    }
}

impl DeepView for AttributeType {
    type V = AttributeTypeSpec;

    open spec fn deep_view(&self) -> AttributeTypeSpec {
        self@
    }
}

impl View for Attributes {
    type V = AttributesSpec;

    open spec fn view(&self) -> AttributesSpec {
        attributes_view(*self)
    }
}

impl DeepView for Attributes {
    type V = AttributesSpec;

    open spec fn deep_view(&self) -> AttributesSpec {
        self@
    }
}

/// The value of attributes is the value of the list that holds them.
pub proof fn lemma_attributes_view(a: Attributes)
    ensures
        a@ == a.attrs.deep_view(),
{
    assert(a@ =~= a.attrs.deep_view());
}

/// The entity types that occur in a type.
pub open spec fn names_in_type(t: TypeSpec) -> Set<NameSpec>
    decreases t,
{
    match t {
        TypeSpec::Primitive(_) => Set::empty(),
        TypeSpec::SetOf(None) => Set::empty(),
        TypeSpec::SetOf(Some(e)) => names_in_type(*e),
        TypeSpec::Record(attrs) => names_in_attrs(attrs),
        TypeSpec::Entity(lub) => lub.to_set(),
        TypeSpec::Extension(_) => Set::empty(),
    }
}

/// The entity types that occur in the types of attributes.
pub open spec fn names_in_attrs(a: AttributesSpec) -> Set<NameSpec>
    decreases a,
{
    if a.len() == 0 {
        Set::empty()
    } else {
        names_in_attrs(a.drop_last()).union(names_in_type(a.last().1.attr_type))
    }
}

/// What is named in the types of attributes is named in the type of one of them.
pub proof fn lemma_names_in_attrs(a: AttributesSpec, q: NameSpec)
    ensures
        names_in_attrs(a).contains(q) <==> exists|i: int|
            0 <= i < a.len() && names_in_type((#[trigger] a[i]).1.attr_type).contains(q),
    decreases a.len(),
{
    if a.len() > 0 {
        let front = a.drop_last();
        lemma_names_in_attrs(front, q);
        if names_in_attrs(a).contains(q) {
            if names_in_attrs(front).contains(q) {
                let i = choose|i: int|
                    0 <= i < front.len() && names_in_type((#[trigger] front[i]).1.attr_type).contains(
                        q,
                    );
                assert(names_in_type(a[i].1.attr_type).contains(q));
            } else {
                assert(names_in_type(a[a.len() - 1].1.attr_type).contains(q));
            }
        }
        if exists|i: int|
            0 <= i < a.len() && names_in_type((#[trigger] a[i]).1.attr_type).contains(q) {
            let i = choose|i: int|
                0 <= i < a.len() && names_in_type((#[trigger] a[i]).1.attr_type).contains(q);
            if i < a.len() - 1 {
                assert(names_in_type(front[i].1.attr_type).contains(q));
            }
        }
    }
}

/// Giving an attribute a type names no more than the attributes and the
/// type name.
pub proof fn lemma_names_in_put(a: AttributesSpec, k: Seq<char>, v: AttributeTypeSpec)
    ensures
        names_in_attrs(put(a, k, v)).subset_of(
            names_in_attrs(a).union(names_in_type(v.attr_type)),
        ),
{
    let t = put(a, k, v);
    crate::keys::lemma_put_entries(a, k, v);
    assert forall|q: NameSpec| names_in_attrs(t).contains(q) implies names_in_attrs(a).union(
        names_in_type(v.attr_type),
    ).contains(q) by {
        lemma_names_in_attrs(t, q);
        lemma_names_in_attrs(a, q);
        let i = choose|i: int|
            0 <= i < t.len() && names_in_type((#[trigger] t[i]).1.attr_type).contains(q);
        if t[i] == (k, v) {
        } else {
            assert(names_in_type(a[i].1.attr_type).contains(q));
        }
    }
}

/// The attributes that a list of pairs stands for: for a name that is listed
/// more than once, the last type, at the place of the first.
pub open spec fn attributes_of(s: AttributesSpec) -> AttributesSpec
    decreases s.len(),
{
    if s.len() == 0 {
        Seq::empty()
    } else {
        put(attributes_of(s.drop_last()), s.last().0, s.last().1)
    }
}

/// The pairs of `s`, each attribute required.
pub open spec fn all_required(s: Seq<(Seq<char>, TypeSpec)>) -> AttributesSpec {
    s.map_values(
        |e: (Seq<char>, TypeSpec)| (e.0, AttributeTypeSpec { attr_type: e.1, is_required: true }),
    )
}

/// The names of `a` whose attribute is required, in order.
pub open spec fn required_names(a: AttributesSpec) -> Seq<Seq<char>>
    decreases a.len(),
{
    if a.len() == 0 {
        Seq::empty()
    } else if a.last().1.is_required {
        required_names(a.drop_last()).push(a.last().0)
    } else {
        required_names(a.drop_last())
    }
}

/// `attributes_of` lists no name twice.
pub proof fn lemma_attributes_of_distinct(s: AttributesSpec)
    ensures
        distinct_keys(attributes_of(s)),
    decreases s.len(),
{
    if s.len() > 0 {
        lemma_attributes_of_distinct(s.drop_last());
        lemma_put(attributes_of(s.drop_last()), s.last().0, s.last().1);
    }
}

/// A copy of a type.
pub fn clone_type(t: &Type) -> (r: Type)
    ensures
        r@ == t@,
    decreases *t,
{
    match t {
        Type::Primitive { primitive_type } => Type::Primitive { primitive_type: *primitive_type },
        Type::SetOf { element_type: None } => Type::SetOf { element_type: None },
        Type::SetOf { element_type: Some(e) } => {
            let inner = clone_type(e);
            Type::SetOf { element_type: Some(Box::new(inner)) }
        },
        Type::Record { attrs } => Type::Record { attrs: clone_attributes(attrs) },
        Type::Entity { lub } => Type::Entity {
            lub: EntityLUB { lub_elements: clone_keys(&lub.lub_elements) },
        },
        Type::ExtensionType { name } => Type::ExtensionType { name: name.clone() },
    }
}

/// A copy of a list of attributes.
pub fn clone_attributes(a: &Attributes) -> (r: Attributes)
    ensures
        r@ == a@,
    decreases *a,
{
    let mut out: Vec<(String, AttributeType)> = Vec::new();
    let mut i: usize = 0;
    while i < a.attrs.len()
        invariant
            i <= a.attrs.len(),
            out.len() == i,
            forall|j: int|
                0 <= j < i ==> out[j].0@ == a.attrs[j].0@ && out[j].1@ == a.attrs[j].1@,
        decreases a.attrs.len() - i,
    {
        let ty = clone_type(&a.attrs[i].1.attr_type);
        out.push(
            (
                a.attrs[i].0.clone(),
                AttributeType { attr_type: ty, is_required: a.attrs[i].1.is_required },
            ),
        );
        i += 1;
    }
    let r = Attributes { attrs: out };
    assert(r@ =~= a@);
    r
}

impl DeepClone for Type {
    fn deep_clone(&self) -> (r: Self) {
        clone_type(self)
    }
}

impl DeepClone for Attributes {
    fn deep_clone(&self) -> (r: Self) {
        clone_attributes(self)
    }
}

impl Clone for Type {
    fn clone(&self) -> (r: Self)
        ensures
            r@ == self@,
    {
        clone_type(self)
    }
}

impl Clone for Attributes {
    fn clone(&self) -> (r: Self)
        ensures
            r@ == self@,
    {
        clone_attributes(self)
    }
}

impl Clone for AttributeType {
    fn clone(&self) -> (r: Self)
        ensures
            r@ == self@,
    {
        AttributeType { attr_type: clone_type(&self.attr_type), is_required: self.is_required }
    }
}

impl Clone for EntityLUB {
    fn clone(&self) -> (r: Self)
        ensures
            r@ == self@,
    {
        EntityLUB { lub_elements: clone_keys(&self.lub_elements) }
    }
}

impl Type {
    /// The type of booleans.
    pub fn primitive_boolean() -> (r: Type)
        ensures
            r@ == TypeSpec::Primitive(Primitive::Bool),
    {
        Type::Primitive { primitive_type: Primitive::Bool }
    }

    /// The type of integers.
    pub fn primitive_long() -> (r: Type)
        ensures
            r@ == TypeSpec::Primitive(Primitive::Long),
    {
        Type::Primitive { primitive_type: Primitive::Long }
    }

    /// The type of strings.
    pub fn primitive_string() -> (r: Type)
        ensures
            r@ == TypeSpec::Primitive(Primitive::String),
    {
        Type::Primitive { primitive_type: Primitive::String }
    }

    /// The type of sets whose elements have the type `ety`.
    pub fn set(ety: Type) -> (r: Type)
        ensures
            r@ == TypeSpec::SetOf(Some(Box::new(ety@))),
    {
        Type::SetOf { element_type: Some(Box::new(ety)) }
    }

    /// The type of records with the attributes `attrs`.
    pub fn record_with_attributes(attrs: Attributes) -> (r: Type)
        ensures
            r@ == TypeSpec::Record(attrs@),
    {
        Type::Record { attrs }
    }

    /// The type of entities of the type `name`.
    pub fn named_entity_reference(name: QualifiedName) -> (r: Type)
        ensures
            r@ == TypeSpec::Entity(seq![name@]),
    {
        let mut lub_elements: Vec<QualifiedName> = Vec::new();
        lub_elements.push(name);
        let lub = EntityLUB { lub_elements };
        assert(lub@ =~= seq![name@]);
        Type::Entity { lub }
    }

    /// The extension type called `name`.
    pub fn extension(name: String) -> (r: Type)
        ensures
            r@ == TypeSpec::Extension(name@),
    {
        Type::ExtensionType { name }
    }
}

impl AttributeType {
    /// The attribute type with the given type and presence.
    pub fn new(attr_type: Type, is_required: bool) -> (r: Self)
        ensures
            r@ == (AttributeTypeSpec { attr_type: attr_type@, is_required }),
    {
        AttributeType { attr_type, is_required }
    }
}

impl Attributes {
    /// No name is listed twice.
    pub open spec fn wf(&self) -> bool {
        distinct_keys(self@)
    }

    /// The attributes that the pairs of `attrs` stand for.
    pub fn with_attributes(attrs: Vec<(String, AttributeType)>) -> (r: Self)
        ensures
            r@ == attributes_of(attrs.deep_view()),
            r.wf(),
    {
        let mut out = Attributes { attrs: Vec::new() };
        assert(out@ =~= Seq::empty());
        let mut i: usize = 0;
        while i < attrs.len()
            invariant
                i <= attrs.len(),
                out@ == attributes_of(attrs.deep_view().take(i as int)),
            decreases attrs.len() - i,
        {
            proof {
                let t = attrs.deep_view().take(i + 1);
                assert(t.drop_last() =~= attrs.deep_view().take(i as int));
                assert(t.last() == (attrs[i as int].0@, attrs[i as int].1@));
            }
            out.insert(attrs[i].0.clone(), attrs[i].1.clone());
            i += 1;
        }
        proof {
            assert(attrs.deep_view().take(attrs.len() as int) =~= attrs.deep_view());
            lemma_attributes_of_distinct(attrs.deep_view());
        }
        out
    }

    /// The attributes that the pairs of `attrs` stand for, each one required.
    pub fn with_required_attributes(attrs: Vec<(String, Type)>) -> (r: Self)
        ensures
            r@ == attributes_of(all_required(attrs.deep_view())),
            r.wf(),
    {
        let mut pairs: Vec<(String, AttributeType)> = Vec::new();
        let mut i: usize = 0;
        while i < attrs.len()
            invariant
                i <= attrs.len(),
                pairs.len() == i,
                forall|j: int|
                    0 <= j < i ==> (#[trigger] pairs[j]).0@ == attrs[j].0@ && pairs[j].1@ == (
                    AttributeTypeSpec { attr_type: attrs[j].1@, is_required: true }),
            decreases attrs.len() - i,
        {
            pairs.push(
                (
                    attrs[i].0.clone(),
                    AttributeType { attr_type: clone_type(&attrs[i].1), is_required: true },
                ),
            );
            i += 1;
        }
        assert(pairs.deep_view() =~= all_required(attrs.deep_view()));
        Attributes::with_attributes(pairs)
    }

    /// Gives the attribute `name` the type `ty`: in place where the name is
    /// listed, at the end where it is not.
    pub fn insert(&mut self, name: String, ty: AttributeType)
        ensures
            final(self)@ == put(old(self)@, name@, ty@),
            old(self).wf() ==> final(self).wf(),
    {
        proof {
            lemma_attributes_view(*self);
            if self.wf() {
                lemma_put(self@, name@, ty@);
            }
        }
        let ghost before = self@;
        match find(&self.attrs, &name) {
            Some(i) => {
                self.attrs[i] = (name, ty);
                assert(self@ =~= before.update(i as int, (name@, ty@)));
            },
            None => {
                self.attrs.push((name, ty));
                assert(self@ =~= before.push((name@, ty@)));
            },
        }
    }

    /// The type of the attribute `attr`, where it is listed.
    pub fn get_attr(&self, attr: &str) -> (r: Option<&AttributeType>)
        ensures
            match lookup(self@, attr@) {
                Some(t) => r is Some && r->Some_0@ == t,
                None => r is None,
            },
    {
        proof {
            lemma_attributes_view(*self);
        }
        let key = String::from_str(attr);
        match find(&self.attrs, &key) {
            Some(i) => Some(&self.attrs[i].1),
            None => None,
        }
    }

    /// How many attributes are listed.
    pub fn len(&self) -> (r: usize)
        ensures
            r == self@.len(),
    {
        self.attrs.len()
    }

    /// The name and type of the attribute at position `i`.
    pub fn get_index(&self, i: usize) -> (r: (&String, &AttributeType))
        requires
            i < self@.len(),
        ensures
            (r.0@, r.1@) == self@[i as int],
    {
        (&self.attrs[i].0, &self.attrs[i].1)
    }

    /// The names of the attributes that are required, in order.
    pub fn required_attrs(&self) -> (r: Vec<String>)
        ensures
            r.deep_view() == required_names(self@),
    {
        let mut out: Vec<String> = Vec::new();
        assert(out.deep_view() =~= Seq::empty());
        let mut i: usize = 0;
        while i < self.attrs.len()
            invariant
                i <= self.attrs.len(),
                out.deep_view() == required_names(self@.take(i as int)),
            decreases self.attrs.len() - i,
        {
            proof {
                let t = self@.take(i + 1);
                assert(t.drop_last() =~= self@.take(i as int));
            }
            let ghost before = out.deep_view();
            if self.attrs[i].1.is_required {
                out.push(self.attrs[i].0.clone());
                assert(out.deep_view() =~= before.push(self.attrs[i as int].0@));
            }
            i += 1;
        }
        assert(self@.take(self.attrs.len() as int) =~= self@);
        out
    }
}

} // verus!
