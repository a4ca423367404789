//! The compiled schema: what each field of the type graph resolves to.

use vstd::prelude::*;
use crate::config::{Config, Field, GraphQLOperationType, Grpc};
use crate::lambda::{Expression, ExpressionView};

pub mod operators;

verus! {

/// A configuration as the compiler takes it.
#[derive(Debug, PartialEq, Eq)]
pub struct ConfigModule {
    pub config: Config,
}

/// A field of the compiled schema.
#[derive(Debug, PartialEq, Eq)]
pub struct FieldDefinition {
    pub name: String,
    pub of_type: String,
    pub resolver: Option<Expression>,
    pub description: Option<String>,
}

pub struct FieldDefinitionView {
    pub name: Seq<char>,
    pub of_type: Seq<char>,
    pub resolver: Option<ExpressionView>,
    pub description: Option<Seq<char>>,
}

impl DeepView for FieldDefinition {
    type V = FieldDefinitionView;

    open spec fn deep_view(&self) -> FieldDefinitionView {
        FieldDefinitionView {
            name: self.name@,
            of_type: self.of_type@,
            resolver: self.resolver.deep_view(),
            description: self.description.deep_view(),
        }
    }
}

impl View for FieldDefinition {
    type V = FieldDefinitionView;

    open spec fn view(&self) -> FieldDefinitionView {
        self.deep_view()
    }
}

impl FieldDefinition {
    /// The same field with `resolver` as its resolver.
    pub fn resolver(self, resolver: Option<Expression>) -> (r: Self)
        ensures
            r@ == (FieldDefinitionView { resolver: resolver.deep_view(), ..self@ }),
    {
        FieldDefinition {
            name: self.name,
            of_type: self.of_type,
            resolver,
            description: self.description,
        }
    }
}

/// What compiling a gRPC resolver takes.
pub struct CompileGrpc<'a> {
    pub config_module: &'a ConfigModule,
    pub operation_type: &'a GraphQLOperationType,
    pub field: &'a Field,
    pub grpc: &'a Grpc,
    pub validate_with_schema: bool,
}

} // verus!
