//! Qualified names, action identifiers, and references to entity types.

use vstd::prelude::*;
use vstd::string::StringExecFns;
use crate::keys::{clone_keys, Key};
use crate::parse::{escape_text, escaped_text, parse_ident, parse_name, parsed_ident, parsed_name};

verus! {

/// The mathematical value of a [`QualifiedName`].
pub struct NameSpec {
    /// The namespace, outermost component first; empty for the root namespace.
    pub path: Seq<Seq<char>>,
    pub base: Seq<char>,
}

/// A base identifier with the namespace path that qualifies it.
#[derive(Debug, PartialEq, Eq, Hash)]
pub struct QualifiedName {
    pub path: Vec<String>,
    pub base: String,
}

impl View for QualifiedName {
    type V = NameSpec;

    open spec fn view(&self) -> NameSpec {
        NameSpec { path: self.path.deep_view(), base: self.base@ }
    }
}

impl DeepView for QualifiedName {
    type V = NameSpec;

    open spec fn deep_view(&self) -> NameSpec {
        self@
    }
}

impl Key for QualifiedName {
    fn key_eq(&self, other: &Self) -> (r: bool) {
        if self.base != other.base {
            return false;
        }
        if self.path.len() != other.path.len() {
            assert(self.path.deep_view().len() != other.path.deep_view().len());
            return false;
        }
        let mut i: usize = 0;
        while i < self.path.len()
            invariant
                i <= self.path.len(),
                self.path.len() == other.path.len(),
                forall|j: int| 0 <= j < i ==> self.path[j]@ == other.path[j]@,
            decreases self.path.len() - i,
        {
            if self.path[i] != other.path[i] {
                assert(self.path.deep_view()[i as int] != other.path.deep_view()[i as int]);
                return false;
            }
            i += 1;
        }
        assert(self.path.deep_view() =~= other.path.deep_view());
        true
    }

    fn key_clone(&self) -> (r: Self) {
        QualifiedName { path: clone_keys(&self.path), base: self.base.clone() }
    }
}

impl Clone for QualifiedName {
    fn clone(&self) -> (r: Self)
        ensures
            r@ == self@,
    {
        self.key_clone()
    }
}

/// The base identifier that every action's entity type has.
pub open spec fn action_type_base() -> Seq<char> {
    "Action"@
}

/// The text of a namespace path: each component followed by `::`.
pub open spec fn path_text(p: Seq<Seq<char>>) -> Seq<char>
    decreases p.len(),
{
    if p.len() == 0 {
        Seq::empty()
    } else {
        path_text(p.drop_last()) + p.last() + "::"@
    }
}

/// The text of a name: the components of its path and its base, joined by `::`.
pub open spec fn name_text(n: NameSpec) -> Seq<char> {
    path_text(n.path) + n.base
}

/// `n` with the namespace `d`, where `n` has none of its own and `d` is not the root.
pub open spec fn with_default_namespace(n: NameSpec, d: Seq<Seq<char>>) -> NameSpec {
    if n.path.len() == 0 && d.len() > 0 {
        NameSpec { path: d, base: n.base }
    } else {
        n
    }
}

/// The name that `text` parses to, as a value.
pub open spec fn name_of_text(text: Seq<char>) -> Option<NameSpec> {
    match parsed_name(text) {
        Some(p) => Some(NameSpec { path: p.0, base: p.1 }),
        None => None,
    }
}

/// The path that the text of a namespace stands for: the root for the empty
/// text, else the components of the name that the text parses to.
pub open spec fn namespace_of_text(text: Seq<char>) -> Option<Seq<Seq<char>>> {
    if text.len() == 0 {
        Some(Seq::empty())
    } else {
        match parsed_name(text) {
            Some(p) => Some(p.0.push(p.1)),
            None => None,
        }
    }
}

impl QualifiedName {
    /// The name with the given base and namespace path.
    pub fn new(base: String, path: Vec<String>) -> (r: Self)
        ensures
            r@ == (NameSpec { path: path.deep_view(), base: base@ }),
    {
        QualifiedName { path, base }
    }

    /// The name with the given base in the root namespace.
    pub fn unqualified_name(base: String) -> (r: Self)
        ensures
            r@ == (NameSpec { path: Seq::empty(), base: base@ }),
    {
        let r = QualifiedName { path: Vec::new(), base };
        assert(r.path.deep_view() =~= Seq::empty());
        r
    }

    /// The base identifier.
    pub fn basename(&self) -> (r: &String)
        ensures
            r@ == self@.base,
    {
        &self.base
    }

    /// The text of the name.
    pub fn to_string(&self) -> (r: String)
        ensures
            r@ == name_text(self@),
    {
        let mut r = String::new();
        let mut i: usize = 0;
        while i < self.path.len()
            invariant
                i <= self.path.len(),
                r@ == path_text(self.path.deep_view().take(i as int)),
            decreases self.path.len() - i,
        {
            proof {
                let t = self.path.deep_view().take(i + 1);
                assert(t.drop_last() =~= self.path.deep_view().take(i as int));
                assert(t.last() == self.path[i as int]@);
            }
            r.append(self.path[i].as_str());
            r.append("::");
            i += 1;
        }
        assert(self.path.deep_view().take(self.path.len() as int) =~= self.path.deep_view());
        r.append(self.base.as_str());
        r
    }
}

/// Whether `ty` names the entity type of actions: whether its base is
/// `Action`, in whatever namespace.
pub fn is_action_entity_type(ty: &QualifiedName) -> (r: bool)
    ensures
        r == (ty@.base == action_type_base()),
{
    let action = String::from_str("Action");
    ty.base == action
}

/// Gives `name` the namespace `default_namespace` where it has none of its
/// own and the default is not the root; leaves it unchanged otherwise.
pub fn apply_default_namespace(name: QualifiedName, default_namespace: &Vec<String>) -> (r:
    QualifiedName)
    ensures
        r@ == with_default_namespace(name@, default_namespace.deep_view()),
{
    if name.path.len() == 0 && default_namespace.len() > 0 {
        QualifiedName { path: clone_keys(default_namespace), base: name.base }
    } else {
        name
    }
}

/// Parses a name that may carry a namespace, and gives it the default
/// namespace where it carries none.
pub fn parse_possibly_qualified_name_with_default_namespace(
    name_str: &str,
    default_namespace: &Vec<String>,
) -> (r: Result<QualifiedName, Vec<String>>)
    ensures
        match name_of_text(name_str@) {
            Some(n) => r is Ok && r->Ok_0@ == with_default_namespace(
                n,
                default_namespace.deep_view(),
            ),
            None => r is Err,
        },
{
    match parse_name(name_str) {
        Ok(name) => Ok(apply_default_namespace(name, default_namespace)),
        Err(e) => Err(e),
    }
}

/// Parses a bare identifier and qualifies it with `namespace`.
pub fn parse_unqualified_name_with_namespace(ident_text: &str, namespace: Vec<String>) -> (r:
    Result<QualifiedName, Vec<String>>)
    ensures
        match parsed_ident(ident_text@) {
            Some(id) => r is Ok && r->Ok_0@ == (NameSpec {
                path: namespace.deep_view(),
                base: id,
            }),
            None => r is Err,
        },
{
    match parse_ident(ident_text) {
        Ok(base) => Ok(QualifiedName { path: namespace, base }),
        Err(e) => Err(e),
    }
}

/// Parses the text of a namespace into its path. The empty text is the root.
pub fn parse_namespace(text: &str) -> (r: Result<Vec<String>, Vec<String>>)
    ensures
        match namespace_of_text(text@) {
            Some(p) => r is Ok && r->Ok_0.deep_view() == p,
            None => r is Err,
        },
{
    if text.is_empty() {
        let r: Vec<String> = Vec::new();
        assert(r.deep_view() =~= Seq::empty());
        return Ok(r);
    }
    match parse_name(text) {
        Ok(name) => {
            let QualifiedName { path, base } = name;
            let mut p = path;
            p.push(base);
            assert(p.deep_view() =~= path.deep_view().push(base@));
            Ok(p)
        },
        Err(e) => Err(e),
    }
}

/// The mathematical value of an [`ActionId`].
pub struct ActionIdSpec {
    pub ty: NameSpec,
    pub id: Seq<char>,
}

/// The identifier of an action: its entity type and its id within that type.
#[derive(Debug, PartialEq, Eq, Hash)]
pub struct ActionId {
    pub ty: QualifiedName,
    pub id: String,
}

impl View for ActionId {
    type V = ActionIdSpec;

    open spec fn view(&self) -> ActionIdSpec {
        ActionIdSpec { ty: self.ty@, id: self.id@ }
    }
}

impl DeepView for ActionId {
    type V = ActionIdSpec;

    open spec fn deep_view(&self) -> ActionIdSpec {
        self@
    }
}

impl Key for ActionId {
    fn key_eq(&self, other: &Self) -> (r: bool) {
        self.id == other.id && self.ty.key_eq(&other.ty)
    }

    fn key_clone(&self) -> (r: Self) {
        ActionId { ty: self.ty.key_clone(), id: self.id.clone() }
    }
}

impl Clone for ActionId {
    fn clone(&self) -> (r: Self)
        ensures
            r@ == self@,
    {
        self.key_clone()
    }
}

/// The text of an action identifier: the text of its type, `::`, and its id
/// escaped and in double quotes.
pub open spec fn action_id_text(a: ActionIdSpec) -> Seq<char> {
    name_text(a.ty) + "::\""@ + escaped_text(a.id) + "\""@
}

impl ActionId {
    /// The identifier with the given type and id.
    pub fn from_components(ty: QualifiedName, id: String) -> (r: Self)
        ensures
            r@ == (ActionIdSpec { ty: ty@, id: id@ }),
    {
        ActionId { ty, id }
    }

    /// The text of the identifier.
    pub fn to_string(&self) -> (r: String)
        ensures
            r@ == action_id_text(self@),
    {
        let mut r = self.ty.to_string();
        r.append("::\"");
        let escaped = escape_text(self.id.as_str());
        r.append(escaped.as_str());
        r.append("\"");
        r
    }
}

/// The mathematical value of an [`EntityTypeRef`].
pub enum EntityTypeRefSpec {
    Concrete(NameSpec),
    Unspecified,
}

/// The entity type of a principal or resource: a named type, or the
/// placeholder that stands where an action leaves the list of types out.
#[derive(Debug, PartialEq, Eq, Hash)]
pub enum EntityTypeRef {
    Concrete(QualifiedName),
    Unspecified,
}

impl View for EntityTypeRef {
    type V = EntityTypeRefSpec;

    open spec fn view(&self) -> EntityTypeRefSpec {
        match self {
            EntityTypeRef::Concrete(n) => EntityTypeRefSpec::Concrete(n@),
            EntityTypeRef::Unspecified => EntityTypeRefSpec::Unspecified,
        }
    }
}

impl DeepView for EntityTypeRef {
    type V = EntityTypeRefSpec;

    open spec fn deep_view(&self) -> EntityTypeRefSpec {
        self@
    }
}

impl Key for EntityTypeRef {
    fn key_eq(&self, other: &Self) -> (r: bool) {
        match (self, other) {
            (EntityTypeRef::Concrete(a), EntityTypeRef::Concrete(b)) => a.key_eq(b),
            (EntityTypeRef::Unspecified, EntityTypeRef::Unspecified) => true,
            _ => false,
        }
    }

    fn key_clone(&self) -> (r: Self) {
        match self {
            EntityTypeRef::Concrete(a) => EntityTypeRef::Concrete(a.key_clone()),
            EntityTypeRef::Unspecified => EntityTypeRef::Unspecified,
        }
    }
}

impl Clone for EntityTypeRef {
    fn clone(&self) -> (r: Self)
        ensures
            r@ == self@,
    {
        self.key_clone()
    }
}

/// The mathematical value of an [`EntityUID`].
pub struct EntityUIDSpec {
    pub ty: EntityTypeRefSpec,
    pub eid: Seq<char>,
}

/// The identifier of an entity: its entity type and its id within that type.
#[derive(Debug, PartialEq, Eq, Hash)]
pub struct EntityUID {
    pub ty: EntityTypeRef,
    pub eid: String,
}

impl View for EntityUID {
    type V = EntityUIDSpec;

    open spec fn view(&self) -> EntityUIDSpec {
        EntityUIDSpec { ty: self.ty@, eid: self.eid@ }
    }
}

impl DeepView for EntityUID {
    type V = EntityUIDSpec;

    open spec fn deep_view(&self) -> EntityUIDSpec {
        self@
    }
}

impl Key for EntityUID {
    fn key_eq(&self, other: &Self) -> (r: bool) {
        self.eid == other.eid && self.ty.key_eq(&other.ty)
    }

    fn key_clone(&self) -> (r: Self) {
        EntityUID { ty: self.ty.key_clone(), eid: self.eid.clone() }
    }
}

impl Clone for EntityUID {
    fn clone(&self) -> (r: Self)
        ensures
            r@ == self@,
    {
        self.key_clone()
    }
}

impl EntityUID {
    /// The identifier with the given entity type and id.
    pub fn from_components(ty: EntityTypeRef, eid: String) -> (r: Self)
        ensures
            r@ == (EntityUIDSpec { ty: ty@, eid: eid@ }),
    {
        EntityUID { ty, eid }
    }

    /// The identifier of the action `action`.
    pub fn from_action_id(action: &ActionId) -> (r: Self)
        ensures
            r@ == (EntityUIDSpec {
                ty: EntityTypeRefSpec::Concrete(action@.ty),
                eid: action@.id,
            }),
    {
        EntityUID { ty: EntityTypeRef::Concrete(action.ty.key_clone()), eid: action.id.clone() }
    }
}

} // verus!
