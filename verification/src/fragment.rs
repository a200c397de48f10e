//! A schema fragment, compiled: the namespaces that it declares.

use vstd::prelude::*;
use crate::compile::compiled_namespace;
use crate::deferred::outcome_is;
use crate::err::{SchemaError, SchemaErrorSpec};
use crate::fold::{lemma_try_fold_all, lemma_try_fold_error, lemma_try_fold_next, try_fold};
use crate::keys::Key;
use crate::names::{NameSpec, QualifiedName};
use crate::namespace_def::{ActionBehavior, NamespaceDefSpec, ValidatorNamespaceDef};
use crate::schema_file_format::{NamespaceDefinitionSpec, SchemaFragment};

verus! {

/// The compiled namespaces of one schema fragment.
#[derive(Debug)]
pub struct ValidatorSchemaFragment(pub(crate) Vec<ValidatorNamespaceDef>);

impl View for ValidatorSchemaFragment {
    type V = Seq<NamespaceDefSpec>;

    closed spec fn view(&self) -> Seq<NamespaceDefSpec> {
        self.0.deep_view()
    }
}

impl DeepView for ValidatorSchemaFragment {
    type V = Seq<NamespaceDefSpec>;

    open spec fn deep_view(&self) -> Seq<NamespaceDefSpec> {
        self@
    }
}

/// One step of compiling a fragment: one more namespace is compiled.
pub open spec fn fragment_step(behavior: ActionBehavior) -> spec_fn(
    Seq<NamespaceDefSpec>,
    (Seq<char>, NamespaceDefinitionSpec),
) -> Result<Seq<NamespaceDefSpec>, SchemaErrorSpec> {
    |acc: Seq<NamespaceDefSpec>, e: (Seq<char>, NamespaceDefinitionSpec)|
        match compiled_namespace(Some(e.0), e.1, behavior) {
            Err(x) => Err(x),
            Ok(d) => Ok(acc.push(d)),
        }
}

/// What a written fragment compiles to: its namespaces, compiled in order,
/// or the error of the first that does not compile.
pub open spec fn compiled_fragment(
    fragment: Seq<(Seq<char>, NamespaceDefinitionSpec)>,
    behavior: ActionBehavior,
) -> Result<Seq<NamespaceDefSpec>, SchemaErrorSpec> {
    try_fold(fragment, Seq::empty(), fragment_step(behavior))
}

/// The namespaces of the definitions, in order.
pub open spec fn namespaces_of(defs: Seq<NamespaceDefSpec>) -> Seq<Option<NameSpec>> {
    defs.map_values(|d: NamespaceDefSpec| d.namespace)
}

impl ValidatorSchemaFragment {
    /// The fragment that is made of the given namespaces.
    pub fn from_namespaces(namespaces: Vec<ValidatorNamespaceDef>) -> (r: Self)
        ensures
            r@ == namespaces.deep_view(),
    {
        ValidatorSchemaFragment(namespaces)
    }

    /// Compiles a written fragment, namespace by namespace.
    pub fn from_schema_fragment(fragment: SchemaFragment, action_behavior: ActionBehavior) -> (r:
        Result<Self, SchemaError>)
        ensures
            outcome_is(r, compiled_fragment(fragment@, action_behavior)),
    {
        let ghost step = fragment_step(action_behavior);
        let ghost items = fragment@;
        let mut out: Vec<ValidatorNamespaceDef> = Vec::new();
        assert(out.deep_view() =~= Seq::empty());
        let mut i: usize = 0;
        while i < fragment.0.len()
            invariant
                i <= fragment.0.len(),
                items == fragment@,
                step == fragment_step(action_behavior),
                try_fold(items.take(i as int), Seq::empty(), step) == Ok::<
                    Seq<NamespaceDefSpec>,
                    SchemaErrorSpec,
                >(out.deep_view()),
            decreases fragment.0.len() - i,
        {
            proof {
                lemma_try_fold_next(items, Seq::empty(), step, i as int);
                lemma_try_fold_error(items, Seq::empty(), step, i + 1);
            }
            let ns = fragment.0[i].0.clone();
            assert(items[i as int] == (fragment.0[i as int].0@, fragment.0[i as int].1@));
            match ValidatorNamespaceDef::from_namespace_definition(
                Some(ns),
                &fragment.0[i].1,
                action_behavior,
            ) {
                Ok(d) => {
                    let ghost before = out.deep_view();
                    out.push(d);
                    assert(out.deep_view() =~= before.push(d@));
                },
                Err(e) => {
                    return Err(e);
                },
            }
            i += 1;
        }
        proof {
            lemma_try_fold_all(items, Seq::empty(), step);
        }
        Ok(ValidatorSchemaFragment(out))
    }

    /// The namespaces of the fragment, in order; `None` is the root.
    pub fn namespaces(&self) -> (r: Vec<Option<QualifiedName>>)
        ensures
            r.deep_view() == namespaces_of(self@),
    {
        let mut out: Vec<Option<QualifiedName>> = Vec::new();
        let mut i: usize = 0;
        while i < self.0.len()
            invariant
                i <= self.0.len(),
                out.len() == i,
                forall|j: int| 0 <= j < i ==> out.deep_view()[j] == self@[j].namespace,
            decreases self.0.len() - i,
        {
            let ns = match self.0[i].namespace() {
                Some(n) => Some(n.key_clone()),
                None => None,
            };
            assert(self@[i as int] == self.0[i as int]@);
            assert(ns.deep_view() == self@[i as int].namespace);
            let ghost before = out.deep_view();
            out.push(ns);
            assert(out.deep_view() =~= before.push(ns.deep_view()));
            i += 1;
        }
        assert(out.deep_view() =~= namespaces_of(self@));
        out
    }

    /// The compiled namespaces, in order.
    pub(crate) fn definitions(&self) -> (r: &Vec<ValidatorNamespaceDef>)
        ensures
            r.deep_view() == self@,
    {
        &self.0
    }
}

} // verus!
