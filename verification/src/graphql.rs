//! What an upstream GraphQL request is built from.

use vstd::prelude::*;
use crate::config::GraphQLOperationType;
use crate::http::NamedTemplates;
use crate::model::deep;
use crate::mustache::Mustache;

verus! {

/// The endpoint, the operation and its arguments, and the headers of an
/// upstream GraphQL request; arguments and headers are templates.
#[derive(Clone, Debug, PartialEq, Eq)]
pub struct RequestTemplate {
    pub url: String,
    pub operation_type: GraphQLOperationType,
    pub operation_name: String,
    pub operation_arguments: Option<Vec<(String, Mustache)>>,
    pub headers: Vec<(String, Mustache)>,
}

pub struct RequestTemplateView {
    pub url: Seq<char>,
    pub operation_type: GraphQLOperationType,
    pub operation_name: Seq<char>,
    pub operation_arguments: Option<NamedTemplates>,
    pub headers: NamedTemplates,
}

impl DeepView for RequestTemplate {
    type V = RequestTemplateView;

    open spec fn deep_view(&self) -> RequestTemplateView {
        RequestTemplateView {
            url: self.url@,
            operation_type: self.operation_type,
            operation_name: self.operation_name@,
            operation_arguments: match self.operation_arguments {
                Some(arguments) => Some(deep(arguments@)),
                None => None,
            },
            headers: deep(self.headers@),
        }
    }
}

impl View for RequestTemplate {
    type V = RequestTemplateView;

    open spec fn view(&self) -> RequestTemplateView {
        self.deep_view()
    }
}

} // verus!
