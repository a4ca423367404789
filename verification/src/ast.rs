//! A parsed schema document: what a schema parser hands over, without
//! source positions.

use vstd::prelude::*;
use crate::json::{Value, ValueView};
use crate::model::deep;
use crate::name_map::Entries;

verus! {

/// A named annotation with its arguments, in the order they were written.
#[derive(Clone, Debug, PartialEq, Eq)]
pub struct ConstDirective {
    pub name: String,
    pub arguments: Vec<(String, Value)>,
}

pub struct ConstDirectiveView {
    pub name: Seq<char>,
    pub arguments: Entries<ValueView>,
}

impl DeepView for ConstDirective {
    type V = ConstDirectiveView;

    open spec fn deep_view(&self) -> ConstDirectiveView {
        ConstDirectiveView { name: self.name@, arguments: deep(self.arguments@) }
    }
}

impl View for ConstDirective {
    type V = ConstDirectiveView;

    open spec fn view(&self) -> ConstDirectiveView {
        self.deep_view()
    }
}

/// A type as a field or argument names it.
#[derive(Debug, PartialEq, Eq)]
pub struct Type {
    pub base: BaseType,
    pub nullable: bool,
}

/// What a type names: a type by its name, or a list of a type.
#[derive(Debug, PartialEq, Eq)]
pub enum BaseType {
    Named(String),
    List(Box<Type>),
}

/// An argument of a field, or a field of an input object.
#[derive(Debug, PartialEq, Eq)]
pub struct InputValueDefinition {
    pub description: Option<String>,
    pub name: String,
    pub ty: Type,
    pub default_value: Option<Value>,
    pub directives: Vec<ConstDirective>,
}

/// A field of an object or an interface.
#[derive(Debug, PartialEq, Eq)]
pub struct FieldDefinition {
    pub description: Option<String>,
    pub name: String,
    pub arguments: Vec<InputValueDefinition>,
    pub ty: Type,
    pub directives: Vec<ConstDirective>,
}

/// An object type: the interfaces it implements and its fields.
#[derive(Debug, PartialEq, Eq)]
pub struct ObjectType {
    pub implements: Vec<String>,
    pub fields: Vec<FieldDefinition>,
}

/// An interface: the interfaces it implements and its fields.
#[derive(Debug, PartialEq, Eq)]
pub struct InterfaceType {
    pub implements: Vec<String>,
    pub fields: Vec<FieldDefinition>,
}

/// A union: the names of its member types.
#[derive(Debug, PartialEq, Eq)]
pub struct UnionType {
    pub members: Vec<String>,
}

/// An enum: the names of its values.
#[derive(Debug, PartialEq, Eq)]
pub struct EnumType {
    pub values: Vec<String>,
}

/// An input object: its fields.
#[derive(Debug, PartialEq, Eq)]
pub struct InputObjectType {
    pub fields: Vec<InputValueDefinition>,
}

/// What kind of type a definition defines.
#[derive(Debug, PartialEq, Eq)]
pub enum TypeKind {
    Scalar,
    Object(ObjectType),
    Interface(InterfaceType),
    Union(UnionType),
    Enum(EnumType),
    InputObject(InputObjectType),
}

/// The definition of one type.
#[derive(Debug, PartialEq, Eq)]
pub struct TypeDefinition {
    pub description: Option<String>,
    pub name: String,
    pub directives: Vec<ConstDirective>,
    pub kind: TypeKind,
}

/// The schema definition block: the root operation types and the directives
/// that configure the gateway.
#[derive(Debug, PartialEq, Eq)]
pub struct SchemaDefinition {
    pub directives: Vec<ConstDirective>,
    pub query: Option<String>,
    pub mutation: Option<String>,
    pub subscription: Option<String>,
}

/// One definition of a document.
#[derive(Debug, PartialEq, Eq)]
pub enum TypeSystemDefinition {
    Schema(SchemaDefinition),
    Type(TypeDefinition),
    /// The definition of a directive, by its name.
    Directive(String),
}

/// A schema document: its definitions in the order they were written.
#[derive(Debug, PartialEq, Eq)]
pub struct ServiceDocument {
    pub definitions: Vec<TypeSystemDefinition>,
}

} // verus!
