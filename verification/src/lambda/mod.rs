//! The expression tree that a field's resolver is compiled to.

use vstd::prelude::*;
use crate::config::{GroupBy, GroupByView};
use crate::json::{Value, ValueView};
use crate::mustache::Mustache;
use crate::http::TemplateView;

pub mod resolver_context_like;

verus! {

/// Which loader an executor uses for an upstream call, once loaders are set
/// up; calls with one loader may be coalesced.
#[derive(Clone, Copy, Debug, PartialEq, Eq, Structural)]
pub struct DataLoaderId(pub usize);

/// A value that is known when the schema is compiled.
#[derive(Clone, Debug, PartialEq, Eq)]
pub enum DynamicValue {
    Value(Value),
    Mustache(Mustache),
}

pub enum DynamicValueView {
    Value(ValueView),
    Mustache(TemplateView),
}

impl DeepView for DynamicValue {
    type V = DynamicValueView;

    open spec fn deep_view(&self) -> DynamicValueView {
        match self {
            DynamicValue::Value(value) => DynamicValueView::Value(value@),
            DynamicValue::Mustache(template) => DynamicValueView::Mustache(template@),
        }
    }
}

impl View for DynamicValue {
    type V = DynamicValueView;

    open spec fn view(&self) -> DynamicValueView {
        self.deep_view()
    }
}

/// An upstream call: its request template, and what an executor batches by.
#[derive(Clone, Debug, PartialEq, Eq)]
#[allow(inconsistent_fields)]
pub enum IO {
    Http {
        req_template: crate::http::RequestTemplate,
        group_by: Option<GroupBy>,
        dl_id: Option<DataLoaderId>,
    },
    GraphQL {
        req_template: crate::graphql::RequestTemplate,
        field_name: String,
        batch: bool,
        dl_id: Option<DataLoaderId>,
    },
    Grpc {
        req_template: crate::grpc::RequestTemplate,
        group_by: Option<GroupBy>,
        dl_id: Option<DataLoaderId>,
    },
}

#[allow(inconsistent_fields)]
pub enum IOView {
    Http {
        req_template: crate::http::RequestTemplateView,
        group_by: Option<GroupByView>,
        dl_id: Option<DataLoaderId>,
    },
    GraphQL {
        req_template: crate::graphql::RequestTemplateView,
        field_name: Seq<char>,
        batch: bool,
        dl_id: Option<DataLoaderId>,
    },
    Grpc {
        req_template: crate::grpc::RequestTemplateView,
        group_by: Option<GroupByView>,
        dl_id: Option<DataLoaderId>,
    },
}

impl DeepView for IO {
    type V = IOView;

    open spec fn deep_view(&self) -> IOView {
        match self {
            IO::Http { req_template, group_by, dl_id } => IOView::Http {
                req_template: req_template@,
                group_by: group_by.deep_view(),
                dl_id: *dl_id,
            },
            IO::GraphQL { req_template, field_name, batch, dl_id } => IOView::GraphQL {
                req_template: req_template@,
                field_name: field_name@,
                batch: *batch,
                dl_id: *dl_id,
            },
            IO::Grpc { req_template, group_by, dl_id } => IOView::Grpc {
                req_template: req_template@,
                group_by: group_by.deep_view(),
                dl_id: *dl_id,
            },
        }
    }
}

impl View for IO {
    type V = IOView;

    open spec fn view(&self) -> IOView {
        self.deep_view()
    }
}

/// How a field gets its value at query time.
#[derive(Debug, PartialEq, Eq)]
pub enum Expression {
    Literal(DynamicValue),
    IO(IO),
    Pipeline(Box<Expression>, Box<Expression>),
}

pub enum ExpressionView {
    Literal(DynamicValueView),
    IO(IOView),
    Pipeline(Box<ExpressionView>, Box<ExpressionView>),
}

/// The model of an expression: the same tree over models.
pub open spec fn expression_model(expression: Expression) -> ExpressionView
    decreases expression,
{
    match expression {
        Expression::Literal(value) => ExpressionView::Literal(value@),
        Expression::IO(io) => ExpressionView::IO(io@),
        Expression::Pipeline(first, second) => ExpressionView::Pipeline(
            Box::new(expression_model(*first)),
            Box::new(expression_model(*second)),
        ),
    }
}

impl DeepView for Expression {
    type V = ExpressionView;

    open spec fn deep_view(&self) -> ExpressionView {
        expression_model(*self)
    }
}

impl View for Expression {
    type V = ExpressionView;

    open spec fn view(&self) -> ExpressionView {
        expression_model(*self)
    }
}

} // verus!
