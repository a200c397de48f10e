//! The errors that compiling a schema can end in.

use vstd::prelude::*;

verus! {

/// A feature of the schema format that is not supported.
#[derive(Debug, Clone, Copy, PartialEq, Eq, Structural)]
pub enum UnsupportedFeature {
    /// A record or entity that allows attributes beyond those listed.
    OpenRecordsAndEntities,
}

/// The mathematical value of a [`SchemaError`]: its kind and the names it
/// reports. The messages of a parser are no part of it.
pub enum SchemaErrorSpec {
    ParseFileFormat,
    EntityTypeParseError,
    CommonTypeParseError,
    ExtensionTypeParseError,
    NamespaceParseError,
    DuplicateEntityType(Seq<char>),
    DuplicateAction(Seq<char>),
    DuplicateCommonType(Seq<char>),
    UndeclaredEntityTypes(Set<Seq<char>>),
    UndeclaredActions(Set<Seq<char>>),
    UndeclaredCommonType(Seq<Seq<char>>),
    ActionEntityTypeDeclared,
    ActionEntityAttributes(Seq<Seq<char>>),
    ActionEntityAttributeEmptySet,
    ActionEntityAttributeUnsupportedType,
    ContextOrShapeNotRecord,
    CycleInActionHierarchy,
    UnsupportedSchemaFeature(UnsupportedFeature),
}

/// Why a schema could not be compiled.
#[derive(Debug, PartialEq, Eq)]
pub enum SchemaError {
    /// The text of a schema is not in the schema format.
    ParseFileFormat(String),
    /// The name of an entity type does not parse; the parser's messages.
    EntityTypeParseError(Vec<String>),
    /// The name of a common type does not parse; the parser's messages.
    CommonTypeParseError(Vec<String>),
    /// The name of an extension type does not parse; the parser's messages.
    ExtensionTypeParseError(Vec<String>),
    /// A namespace does not parse; the parser's messages.
    NamespaceParseError(Vec<String>),
    /// An entity type is declared twice.
    DuplicateEntityType(String),
    /// An action is declared twice.
    DuplicateAction(String),
    /// A common type is declared twice, or under the name of a built-in type.
    DuplicateCommonType(String),
    /// Entity types that are referred to and nowhere declared, each once.
    UndeclaredEntityTypes(Vec<String>),
    /// Actions that are referred to and nowhere declared, each once.
    UndeclaredActions(Vec<String>),
    /// Common types that are referred to and nowhere declared.
    UndeclaredCommonType(Vec<String>),
    /// An entity type is declared under the name that is kept for actions.
    ActionEntityTypeDeclared,
    /// The actions that carry attributes where actions may carry none.
    ActionEntityAttributes(Vec<String>),
    /// An action's attribute holds an empty set, which has no type.
    ActionEntityAttributeEmptySet,
    /// An action's attribute holds a value of a kind that has no type here.
    ActionEntityAttributeUnsupportedType,
    /// A context or a shape is not a record.
    ContextOrShapeNotRecord,
    /// An action is, through its groups, a member of itself.
    CycleInActionHierarchy,
    /// The schema uses a feature that is not supported.
    UnsupportedSchemaFeature(UnsupportedFeature),
}

impl View for SchemaError {
    type V = SchemaErrorSpec;

    open spec fn view(&self) -> SchemaErrorSpec {
        match self {
            SchemaError::ParseFileFormat(_) => SchemaErrorSpec::ParseFileFormat,
            SchemaError::EntityTypeParseError(_) => SchemaErrorSpec::EntityTypeParseError,
            SchemaError::CommonTypeParseError(_) => SchemaErrorSpec::CommonTypeParseError,
            SchemaError::ExtensionTypeParseError(_) => SchemaErrorSpec::ExtensionTypeParseError,
            SchemaError::NamespaceParseError(_) => SchemaErrorSpec::NamespaceParseError,
            SchemaError::DuplicateEntityType(n) => SchemaErrorSpec::DuplicateEntityType(n@),
            SchemaError::DuplicateAction(n) => SchemaErrorSpec::DuplicateAction(n@),
            SchemaError::DuplicateCommonType(n) => SchemaErrorSpec::DuplicateCommonType(n@),
            SchemaError::UndeclaredEntityTypes(s) => SchemaErrorSpec::UndeclaredEntityTypes(
                s.deep_view().to_set(),
            ),
            SchemaError::UndeclaredActions(s) => SchemaErrorSpec::UndeclaredActions(
                s.deep_view().to_set(),
            ),
            SchemaError::UndeclaredCommonType(s) => SchemaErrorSpec::UndeclaredCommonType(
                s.deep_view(),
            ),
            SchemaError::ActionEntityTypeDeclared => SchemaErrorSpec::ActionEntityTypeDeclared,
            SchemaError::ActionEntityAttributes(s) => SchemaErrorSpec::ActionEntityAttributes(
                s.deep_view(),
            ),
            SchemaError::ActionEntityAttributeEmptySet => SchemaErrorSpec::ActionEntityAttributeEmptySet,
            SchemaError::ActionEntityAttributeUnsupportedType => SchemaErrorSpec::ActionEntityAttributeUnsupportedType,
            SchemaError::ContextOrShapeNotRecord => SchemaErrorSpec::ContextOrShapeNotRecord,
            SchemaError::CycleInActionHierarchy => SchemaErrorSpec::CycleInActionHierarchy,
            SchemaError::UnsupportedSchemaFeature(f) => SchemaErrorSpec::UnsupportedSchemaFeature(
                *f,
            ),
        }
    }
}

impl SchemaError {
    /// The names that the error reports occur once each.
    pub open spec fn wf(&self) -> bool {
        match self {
            SchemaError::UndeclaredEntityTypes(s) => s.deep_view().no_duplicates(),
            SchemaError::UndeclaredActions(s) => s.deep_view().no_duplicates(),
            _ => true,
        }
    }
}

} // verus!
