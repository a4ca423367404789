//! Compilation core of a GraphQL gateway: a schema with resolver annotations is
//! lowered to a type graph and every field's resolver is compiled to an
//! expression tree that an executor can walk at query time.

pub mod ast;
pub mod blueprint;
pub mod config;
pub mod directive;
pub mod graphql;
pub mod grpc;
pub mod http;
pub mod json;
pub mod lambda;
pub mod model;
pub mod mustache;
pub mod name_map;
pub mod text;
pub mod valid;
