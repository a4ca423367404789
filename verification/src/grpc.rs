//! What an upstream gRPC request is built from.

use vstd::prelude::*;
use crate::http::{NamedTemplates, TemplateView};
use crate::model::deep;
use crate::mustache::Mustache;

verus! {

/// The endpoint, the method and the templates of an upstream gRPC request.
#[derive(Clone, Debug, PartialEq, Eq)]
pub struct RequestTemplate {
    pub url: Mustache,
    pub headers: Vec<(String, Mustache)>,
    pub body: Option<Mustache>,
    pub service: String,
    pub method: String,
}

pub struct RequestTemplateView {
    pub url: TemplateView,
    pub headers: NamedTemplates,
    pub body: Option<TemplateView>,
    pub service: Seq<char>,
    pub method: Seq<char>,
}

impl DeepView for RequestTemplate {
    type V = RequestTemplateView;

    open spec fn deep_view(&self) -> RequestTemplateView {
        RequestTemplateView {
            url: self.url@,
            headers: deep(self.headers@),
            body: self.body.deep_view(),
            service: self.service@,
            method: self.method@,
        }
    }
}

impl View for RequestTemplate {
    type V = RequestTemplateView;

    open spec fn view(&self) -> RequestTemplateView {
        self.deep_view()
    }
}

} // verus!
