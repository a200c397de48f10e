//! A schema as it is written: namespaces that declare common types, entity
//! types and actions, with every name still a text.
//!
//! Where the written form is an object, the value here is the list of its
//! members in the order in which they are to be processed.

use vstd::prelude::*;

verus! {

/// A schema fragment: namespace texts with what each namespace declares.
#[derive(Debug, PartialEq, Eq)]
pub struct SchemaFragment(pub Vec<(String, NamespaceDefinition)>);

/// What one namespace declares.
#[derive(Debug, PartialEq, Eq)]
pub struct NamespaceDefinition {
    pub common_types: Vec<(String, SchemaType)>,
    pub entity_types: Vec<(String, EntityType)>,
    pub actions: Vec<(String, ActionType)>,
}

/// The declaration of an entity type.
#[derive(Debug, PartialEq, Eq)]
pub struct EntityType {
    /// The entity types that entities of this type can be members of.
    pub member_of_types: Vec<String>,
    /// The attributes of the entities of this type.
    pub shape: SchemaType,
}

/// The declaration of an action.
#[derive(Debug, PartialEq, Eq)]
pub struct ActionType {
    /// The attributes of the action, as values.
    pub attributes: Option<Vec<(String, JsonValue)>>,
    /// What the action applies to.
    pub applies_to: Option<ApplySpec>,
    /// The action groups that the action is a member of.
    pub member_of: Option<Vec<ActionEntityUID>>,
}

/// The principals, resources and context that an action applies to.
#[derive(Debug, PartialEq, Eq)]
pub struct ApplySpec {
    pub resource_types: Option<Vec<String>>,
    pub principal_types: Option<Vec<String>>,
    pub context: SchemaType,
}

/// A reference to an action: its id, and its entity type where that is not
/// the action type of the enclosing namespace.
#[derive(Debug, PartialEq, Eq)]
pub struct ActionEntityUID {
    pub id: String,
    pub ty: Option<String>,
}

/// A type as written in a schema.
#[derive(Debug, PartialEq, Eq)]
pub enum SchemaType {
    /// One of the built-in forms.
    Type(SchemaTypeVariant),
    /// A reference to a common type by its name.
    TypeDef { name: String },
}

/// The built-in forms of a written type.
#[derive(Debug, PartialEq, Eq)]
pub enum SchemaTypeVariant {
    String,
    Long,
    Boolean,
    SetOf { element: Box<SchemaType> },
    Record { attributes: Vec<(String, TypeOfAttribute)>, additional_attributes: bool },
    Entity { name: String },
    Extension { name: String },
}

/// The written type of an attribute, and whether the attribute must be present.
#[derive(Debug, PartialEq, Eq)]
pub struct TypeOfAttribute {
    pub ty: SchemaType,
    pub required: bool,
}

/// The value of an action's attribute, as written.
#[derive(Debug, PartialEq, Eq)]
pub enum JsonValue {
    /// An escaped expression of the policy language.
    ExprEscape { expr: String },
    /// An escaped reference to an entity.
    EntityEscape { entity_type: String, id: String },
    /// An escaped call of an extension function.
    ExtnEscape { function: String, arg: Box<JsonValue> },
    Bool(bool),
    Long(i64),
    String(String),
    SetOf(Vec<JsonValue>),
    Record(Vec<(String, JsonValue)>),
}

/// The mathematical value of a [`SchemaType`].
pub enum SchemaTypeSpec {
    String,
    Long,
    Boolean,
    SetOf(Box<SchemaTypeSpec>),
    Record { attributes: Seq<(Seq<char>, TypeOfAttributeSpec)>, additional_attributes: bool },
    Entity(Seq<char>),
    Extension(Seq<char>),
    /// A reference to a common type by its name.
    TypeDef(Seq<char>),
}

/// The mathematical value of a [`TypeOfAttribute`].
pub struct TypeOfAttributeSpec {
    pub ty: SchemaTypeSpec,
    pub required: bool,
}

/// The mathematical value of a [`JsonValue`].
pub enum JsonValueSpec {
    ExprEscape(Seq<char>),
    EntityEscape { entity_type: Seq<char>, id: Seq<char> },
    ExtnEscape { function: Seq<char>, arg: Box<JsonValueSpec> },
    Bool(bool),
    Long(i64),
    String(Seq<char>),
    SetOf(Seq<JsonValueSpec>),
    Record(Seq<(Seq<char>, JsonValueSpec)>),
}

/// The mathematical value of an [`EntityType`].
pub struct EntityTypeSpec {
    pub member_of_types: Seq<Seq<char>>,
    pub shape: SchemaTypeSpec,
}

/// The mathematical value of an [`ActionEntityUID`].
pub struct ActionEntityUIDSpec {
    pub id: Seq<char>,
    pub ty: Option<Seq<char>>,
}

/// The mathematical value of an [`ApplySpec`].
pub struct AppliesToSpec {
    pub resource_types: Option<Seq<Seq<char>>>,
    pub principal_types: Option<Seq<Seq<char>>>,
    pub context: SchemaTypeSpec,
}

/// The mathematical value of an [`ActionType`].
pub struct ActionTypeSpec {
    pub attributes: Option<Seq<(Seq<char>, JsonValueSpec)>>,
    pub applies_to: Option<AppliesToSpec>,
    pub member_of: Option<Seq<ActionEntityUIDSpec>>,
}

/// The mathematical value of a [`NamespaceDefinition`].
pub struct NamespaceDefinitionSpec {
    pub common_types: Seq<(Seq<char>, SchemaTypeSpec)>,
    pub entity_types: Seq<(Seq<char>, EntityTypeSpec)>,
    pub actions: Seq<(Seq<char>, ActionTypeSpec)>,
}

/// The value of a written type.
pub open spec fn schema_type_view(t: SchemaType) -> SchemaTypeSpec
    decreases t,
{
    match t {
        SchemaType::Type(SchemaTypeVariant::String) => SchemaTypeSpec::String,
        SchemaType::Type(SchemaTypeVariant::Long) => SchemaTypeSpec::Long,
        SchemaType::Type(SchemaTypeVariant::Boolean) => SchemaTypeSpec::Boolean,
        SchemaType::Type(SchemaTypeVariant::SetOf { element }) => SchemaTypeSpec::SetOf(
            Box::new(schema_type_view(*element)),
        ),
        SchemaType::Type(
            SchemaTypeVariant::Record { attributes, additional_attributes },
        ) => SchemaTypeSpec::Record {
            attributes: Seq::new(
                attributes.len() as nat,
                |i: int|
                    if 0 <= i < attributes.len() {
                        (
                            attributes[i].0@,
                            TypeOfAttributeSpec {
                                ty: schema_type_view(attributes[i].1.ty),
                                required: attributes[i].1.required,
                            },
                        )
                    } else {
                        arbitrary()
                    },
            ),
            additional_attributes,
        },
        SchemaType::Type(SchemaTypeVariant::Entity { name }) => SchemaTypeSpec::Entity(name@),
        SchemaType::Type(SchemaTypeVariant::Extension { name }) => SchemaTypeSpec::Extension(
            name@,
        ),
        SchemaType::TypeDef { name } => SchemaTypeSpec::TypeDef(name@),
    }
}

/// The value of a written attribute value.
pub open spec fn json_value_view(v: JsonValue) -> JsonValueSpec
    decreases v,
{
    match v {
        JsonValue::ExprEscape { expr } => JsonValueSpec::ExprEscape(expr@),
        JsonValue::EntityEscape { entity_type, id } => JsonValueSpec::EntityEscape {
            entity_type: entity_type@,
            id: id@,
        },
        JsonValue::ExtnEscape { function, arg } => JsonValueSpec::ExtnEscape {
            function: function@,
            arg: Box::new(json_value_view(*arg)),
        },
        JsonValue::Bool(b) => JsonValueSpec::Bool(b),
        JsonValue::Long(i) => JsonValueSpec::Long(i),
        JsonValue::String(s) => JsonValueSpec::String(s@),
        JsonValue::SetOf(elements) => JsonValueSpec::SetOf(
            Seq::new(
                elements.len() as nat,
                |i: int|
                    if 0 <= i < elements.len() {
                        json_value_view(elements[i])
                    } else {
                        arbitrary()
                    },
            ),
        ),
        JsonValue::Record(members) => JsonValueSpec::Record(
            Seq::new(
                members.len() as nat,
                |i: int|
                    if 0 <= i < members.len() {
                        (members[i].0@, json_value_view(members[i].1))
                    } else {
                        arbitrary()
                    },
            ),
        ),
    }
}

impl View for SchemaType {
    type V = SchemaTypeSpec;

    open spec fn view(&self) -> SchemaTypeSpec {
        schema_type_view(*self)
    }
}

impl DeepView for SchemaType {
    type V = SchemaTypeSpec;

    open spec fn deep_view(&self) -> SchemaTypeSpec {
        self@
    }
}

impl View for TypeOfAttribute {
    type V = TypeOfAttributeSpec;

    open spec fn view(&self) -> TypeOfAttributeSpec {
        TypeOfAttributeSpec { ty: self.ty@, required: self.required }
    }
}

impl DeepView for TypeOfAttribute {
    type V = TypeOfAttributeSpec;

    open spec fn deep_view(&self) -> TypeOfAttributeSpec {
        self@
    }
}

impl View for JsonValue {
    type V = JsonValueSpec;

    open spec fn view(&self) -> JsonValueSpec {
        json_value_view(*self)
    }
}

impl DeepView for JsonValue {
    type V = JsonValueSpec;

    open spec fn deep_view(&self) -> JsonValueSpec {
        self@
    }
}

impl View for EntityType {
    type V = EntityTypeSpec;

    open spec fn view(&self) -> EntityTypeSpec {
        EntityTypeSpec { member_of_types: self.member_of_types.deep_view(), shape: self.shape@ }
    }
}

impl DeepView for EntityType {
    type V = EntityTypeSpec;

    open spec fn deep_view(&self) -> EntityTypeSpec {
        self@
    }
}

impl View for ActionEntityUID {
    type V = ActionEntityUIDSpec;

    open spec fn view(&self) -> ActionEntityUIDSpec {
        ActionEntityUIDSpec { id: self.id@, ty: self.ty.deep_view() }
    }
}

impl DeepView for ActionEntityUID {
    type V = ActionEntityUIDSpec;

    open spec fn deep_view(&self) -> ActionEntityUIDSpec {
        self@
    }
}

impl View for ApplySpec {
    type V = AppliesToSpec;

    open spec fn view(&self) -> AppliesToSpec {
        AppliesToSpec {
            resource_types: self.resource_types.deep_view(),
            principal_types: self.principal_types.deep_view(),
            context: self.context@,
        }
    }
}

impl DeepView for ApplySpec {
    type V = AppliesToSpec;

    open spec fn deep_view(&self) -> AppliesToSpec {
        self@
    }
}

impl View for ActionType {
    type V = ActionTypeSpec;

    open spec fn view(&self) -> ActionTypeSpec {
        ActionTypeSpec {
            attributes: self.attributes.deep_view(),
            applies_to: self.applies_to.deep_view(),
            member_of: self.member_of.deep_view(),
        }
    }
}

impl DeepView for ActionType {
    type V = ActionTypeSpec;

    open spec fn deep_view(&self) -> ActionTypeSpec {
        self@
    }
}

impl View for NamespaceDefinition {
    type V = NamespaceDefinitionSpec;

    open spec fn view(&self) -> NamespaceDefinitionSpec {
        NamespaceDefinitionSpec {
            common_types: self.common_types.deep_view(),
            entity_types: self.entity_types.deep_view(),
            actions: self.actions.deep_view(),
        }
    }
}

impl DeepView for NamespaceDefinition {
    type V = NamespaceDefinitionSpec;

    open spec fn deep_view(&self) -> NamespaceDefinitionSpec {
        self@
    }
}

impl View for SchemaFragment {
    type V = Seq<(Seq<char>, NamespaceDefinitionSpec)>;

    open spec fn view(&self) -> Seq<(Seq<char>, NamespaceDefinitionSpec)> {
        self.0.deep_view()
    }
}

impl DeepView for SchemaFragment {
    type V = Seq<(Seq<char>, NamespaceDefinitionSpec)>;

    open spec fn deep_view(&self) -> Seq<(Seq<char>, NamespaceDefinitionSpec)> {
        self@
    }
}

/// The value of the attributes of a written record is the value of the list
/// that holds them.
pub proof fn lemma_record_view(attributes: Vec<(String, TypeOfAttribute)>, additional: bool)
    ensures
        (SchemaType::Type(
            SchemaTypeVariant::Record { attributes, additional_attributes: additional },
        ))@ == (SchemaTypeSpec::Record {
            attributes: attributes.deep_view(),
            additional_attributes: additional,
        }),
{
    let t = SchemaType::Type(
        SchemaTypeVariant::Record { attributes, additional_attributes: additional },
    );
    assert(t@->Record_attributes =~= attributes.deep_view());
}

/// The value of a written set of values is the value of the list that holds them.
pub proof fn lemma_json_set_view(elements: Vec<JsonValue>)
    ensures
        JsonValue::SetOf(elements)@ == JsonValueSpec::SetOf(elements.deep_view()),
{
    assert(JsonValue::SetOf(elements)@->SetOf_0 =~= elements.deep_view());
}

/// The value of a written record of values is the value of the list that
/// holds its members.
pub proof fn lemma_json_record_view(members: Vec<(String, JsonValue)>)
    ensures
        JsonValue::Record(members)@ == JsonValueSpec::Record(members.deep_view()),
{
    assert(JsonValue::Record(members)@->Record_0 =~= members.deep_view());
}

impl SchemaType {
    /// The record without attributes: the shape of an entity type, and the
    /// context of an action, where none is written.
    pub fn empty_record() -> (r: Self)
        ensures
            r@ == (SchemaTypeSpec::Record {
                attributes: Seq::empty(),
                additional_attributes: false,
            }),
    {
        let r = SchemaType::Type(
            SchemaTypeVariant::Record { attributes: Vec::new(), additional_attributes: false },
        );
        assert(r@->Record_attributes =~= Seq::empty());
        r
    }
}

impl ActionEntityUID {
    /// The reference to the action `id` of the enclosing namespace's action type.
    pub fn default_type(id: String) -> (r: Self)
        ensures
            r@ == (ActionEntityUIDSpec { id: id@, ty: None }),
    {
        ActionEntityUID { id, ty: None }
    }
}

/// The names of the built-in forms of a written type, which no common type
/// may take.
pub open spec fn is_builtin_type_text(name: Seq<char>) -> bool {
    name == "String"@ || name == "Long"@ || name == "Boolean"@ || name == "Set"@ || name
        == "Record"@ || name == "Entity"@ || name == "Extension"@
}

} // verus!
