//! What an upstream HTTP request is built from.

use vstd::prelude::*;
use crate::config::Method;
use crate::model::deep;
use crate::mustache::{Mustache, SegmentView};

pub mod server;

verus! {

/// The model of a template: its segments.
pub type TemplateView = Seq<SegmentView>;

/// The model of a list of named templates.
pub type NamedTemplates = Seq<(Seq<char>, TemplateView)>;

/// The templates of an upstream HTTP request: URL, query parameters,
/// headers and body, with the method.
#[derive(Clone, Debug, PartialEq, Eq)]
pub struct RequestTemplate {
    pub root_url: Mustache,
    pub query: Vec<(String, Mustache)>,
    pub method: Method,
    pub headers: Vec<(String, Mustache)>,
    pub body_path: Option<Mustache>,
}

pub struct RequestTemplateView {
    pub root_url: TemplateView,
    pub query: NamedTemplates,
    pub method: Method,
    pub headers: NamedTemplates,
    pub body_path: Option<TemplateView>,
}

impl DeepView for RequestTemplate {
    type V = RequestTemplateView;

    open spec fn deep_view(&self) -> RequestTemplateView {
        RequestTemplateView {
            root_url: self.root_url@,
            query: deep(self.query@),
            method: self.method,
            headers: deep(self.headers@),
            body_path: self.body_path.deep_view(),
        }
    }
}

impl View for RequestTemplate {
    type V = RequestTemplateView;

    open spec fn view(&self) -> RequestTemplateView {
        self.deep_view()
    }
}

} // verus!
