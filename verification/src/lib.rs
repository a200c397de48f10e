//! Compiles schema fragments of a policy language into one schema.
//!
//! A fragment declares, per namespace, common types, entity types and
//! actions. Compiling parses and qualifies every name, resolves every
//! reference to a common type, turns the declared membership of entity types
//! and of actions round into descendants and closes it, and refuses what is
//! declared twice, what is referred to without being declared, and an action
//! that is a member of itself.

pub mod assemble;
pub mod compile;
pub mod conversion;
pub mod deferred;
pub mod err;
pub mod fold;
pub mod fragment;
pub mod head_var;
pub mod keys;
pub mod laws;
pub mod merge;
pub mod names;
pub mod namespace_def;
pub mod parse;
pub mod schema_file_format;
pub mod transitive_closure;
pub mod types;
pub mod undeclared;
pub mod validator_schema;

pub use deferred::WithUnresolvedTypeDefs;
pub use err::{SchemaError, UnsupportedFeature};
pub use fragment::ValidatorSchemaFragment;
pub use head_var::{ActionHeadVar, HeadVar, PrincipalOrResourceHeadVar};
pub use names::{ActionId, EntityTypeRef, EntityUID, QualifiedName};
pub use namespace_def::{
    ActionBehavior, ActionsDef, EntityTypesDef, TypeDefs, ValidatorApplySpec, ValidatorNamespaceDef,
};
pub use schema_file_format::{
    ActionEntityUID, ActionType, ApplySpec, EntityType, JsonValue, NamespaceDefinition,
    SchemaFragment, SchemaType, SchemaTypeVariant, TypeOfAttribute,
};
pub use types::{AttributeType, Attributes, EntityLUB, Primitive, Type};
pub use validator_schema::{ValidatorActionId, ValidatorEntityType, ValidatorSchema};
