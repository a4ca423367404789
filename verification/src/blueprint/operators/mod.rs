//! Compiling a field's resolver directive to an expression.

use vstd::prelude::*;
use vstd::string::StringExecFns;
use crate::blueprint::{CompileGrpc, ConfigModule};
use crate::config::{
    ConfigView, Field, FieldView, GraphQLOperationType, GraphQLSource, GraphQLSourceView, GroupBy,
    GrpcView, Http, HttpView, Upstream, UpstreamView,
};
use crate::http::{NamedTemplates, TemplateView};
use crate::config::{Resolver, ResolverView};
use crate::lambda::{DynamicValue, DynamicValueView, Expression, ExpressionView, IOView, IO};
use crate::model::{deep, lemma_deep_push};
use crate::mustache::{segments_of, Mustache};
use crate::name_map::has_key;
use crate::valid::{deeply, failure, Outcome, Valid};

pub mod call;

verus! {

/// Each value parsed as a template, under its name.
pub open spec fn template_pairs(pairs: Seq<(Seq<char>, Seq<char>)>) -> NamedTemplates {
    pairs.map_values(|p: (Seq<char>, Seq<char>)| (p.0, segments_of(p.1)))
}

/// The text parsed as a template, where there is one.
pub open spec fn optional_template(text: Option<Seq<char>>) -> Option<TemplateView> {
    match text {
        Some(t) => Some(segments_of(t)),
        None => None,
    }
}

/// The base URL of a resolver: its own, or else the upstream's.
pub open spec fn base_url_of(own: Option<Seq<char>>, upstream: UpstreamView) -> Option<
    Seq<char>,
> {
    if own is Some {
        own
    } else {
        upstream.base_url
    }
}

/// What an HTTP resolver of `field` compiles to. The URL template is the
/// base URL, where there is one, followed by the directive's `url`; the
/// field's group key is the expression's.
pub open spec fn compiled_http(config: ConfigView, field: FieldView, http: HttpView) -> Outcome<
    ExpressionView,
> {
    let prefix = match base_url_of(http.base_url, config.upstream) {
        Some(base) => base,
        None => Seq::empty(),
    };
    Ok(
        ExpressionView::IO(
            IOView::Http {
                req_template: crate::http::RequestTemplateView {
                    root_url: segments_of(prefix + http.url),
                    query: template_pairs(http.query),
                    method: http.method,
                    headers: template_pairs(http.headers),
                    body_path: optional_template(http.body),
                },
                group_by: field.group_by,
                dl_id: None,
            },
        ),
    )
}

/// What a GraphQL resolver compiles to. It needs a base URL.
pub open spec fn compiled_graphql(
    config: ConfigView,
    operation_type: GraphQLOperationType,
    graphql: GraphQLSourceView,
) -> Outcome<ExpressionView> {
    match base_url_of(graphql.base_url, config.upstream) {
        None => failure("No base URL defined"@),
        Some(url) => Ok(
            ExpressionView::IO(
                IOView::GraphQL {
                    req_template: crate::graphql::RequestTemplateView {
                        url,
                        operation_type,
                        operation_name: graphql.name,
                        operation_arguments: if graphql.args.len() == 0 {
                            None
                        } else {
                            Some(template_pairs(graphql.args))
                        },
                        headers: template_pairs(graphql.headers),
                    },
                    field_name: graphql.name,
                    batch: graphql.batch,
                    dl_id: None,
                },
            ),
        ),
    }
}

/// What a gRPC resolver of `field` compiles to. It needs a base URL; where the
/// schema is to be validated, the field's type must be one of the graph.
pub open spec fn compiled_grpc(
    config: ConfigView,
    field: FieldView,
    grpc: GrpcView,
    validate_with_schema: bool,
) -> Outcome<ExpressionView> {
    match base_url_of(grpc.base_url, config.upstream) {
        None => failure("No base URL defined"@),
        Some(url) => if validate_with_schema && !has_key(config.graphql.types, field.type_of) {
            failure(field.type_of + " type not found on config"@)
        } else {
            Ok(
                ExpressionView::IO(
                    IOView::Grpc {
                        req_template: crate::grpc::RequestTemplateView {
                            url: segments_of(url),
                            headers: template_pairs(grpc.headers),
                            body: optional_template(grpc.body),
                            service: grpc.service,
                            method: grpc.method,
                        },
                        group_by: field.group_by,
                        dl_id: None,
                    },
                ),
            )
        },
    }
}

fn to_templates(pairs: &Vec<(String, String)>) -> (r: Vec<(String, Mustache)>)
    ensures
        deep(r@) == template_pairs(deep(pairs@)),
{
    let mut out: Vec<(String, Mustache)> = Vec::new();
    let mut i: usize = 0;
    while i < pairs.len()
        invariant
            i <= pairs.len(),
            deep(out@) == template_pairs(deep(pairs@)).take(i as int),
        decreases pairs.len() - i,
    {
        let ghost before = out@;
        let pair = (pairs[i].0.clone(), Mustache::parse(pairs[i].1.as_str()));
        out.push(pair);
        proof {
            lemma_deep_push(before, pair);
            assert(deep(out@) =~= template_pairs(deep(pairs@)).take(i as int + 1));
        }
        i += 1;
    }
    proof {
        assert(template_pairs(deep(pairs@)).take(pairs.len() as int) =~= template_pairs(
            deep(pairs@),
        ));
    }
    out
}

fn to_template(text: &Option<String>) -> (r: Option<Mustache>)
    ensures
        r.deep_view() == optional_template(text.deep_view()),
{
    match text {
        Some(t) => Some(Mustache::parse(t.as_str())),
        None => None,
    }
}

fn base_url<'a>(own: &'a Option<String>, upstream: &'a Upstream) -> (r: Option<&'a String>)
    ensures
        r.deep_view() == base_url_of(own.deep_view(), upstream@),
{
    match own {
        Some(url) => Some(url),
        None => upstream.base_url.as_ref(),
    }
}

fn copy_group_by(group_by: &Option<GroupBy>) -> (r: Option<GroupBy>)
    ensures
        r.deep_view() == group_by.deep_view(),
{
    match group_by {
        Some(g) => Some(g.copy()),
        None => None,
    }
}

/// Compiles the HTTP resolver `http` of `field`.
pub fn compile_http(config_module: &ConfigModule, field: &Field, http: &Http) -> (r: Valid<
    Expression,
>)
    ensures
        deeply(r@) == compiled_http(config_module.config@, field@, http@),
{
    let mut url = match base_url(&http.base_url, &config_module.config.upstream) {
        Some(base) => base.clone(),
        None => String::new(),
    };
    url.append(http.url.as_str());
    let req_template = crate::http::RequestTemplate {
        root_url: Mustache::parse(url.as_str()),
        query: to_templates(&http.query),
        method: http.method,
        headers: to_templates(&http.headers),
        body_path: to_template(&http.body),
    };
    Valid::succeed(
        Expression::IO(
            IO::Http { req_template, group_by: copy_group_by(&field.group_by), dl_id: None },
        ),
    )
}

/// Compiles the GraphQL resolver `graphql`.
pub fn compile_graphql(
    config_module: &ConfigModule,
    operation_type: &GraphQLOperationType,
    graphql: &GraphQLSource,
) -> (r: Valid<Expression>)
    ensures
        deeply(r@) == compiled_graphql(config_module.config@, *operation_type, graphql@),
{
    match base_url(&graphql.base_url, &config_module.config.upstream) {
        None => Valid::fail(String::from_str("No base URL defined")),
        Some(url) => {
            let operation_arguments = if graphql.args.len() == 0 {
                None
            } else {
                Some(to_templates(&graphql.args))
            };
            let req_template = crate::graphql::RequestTemplate {
                url: url.clone(),
                operation_type: *operation_type,
                operation_name: graphql.name.clone(),
                operation_arguments,
                headers: to_templates(&graphql.headers),
            };
            Valid::succeed(
                Expression::IO(
                    IO::GraphQL {
                        req_template,
                        field_name: graphql.name.clone(),
                        batch: graphql.batch,
                        dl_id: None,
                    },
                ),
            )
        },
    }
}

/// Compiles the gRPC resolver of `inputs`.
pub fn compile_grpc(inputs: CompileGrpc<'_>) -> (r: Valid<Expression>)
    ensures
        deeply(r@) == compiled_grpc(
            inputs.config_module.config@,
            inputs.field@,
            inputs.grpc@,
            inputs.validate_with_schema,
        ),
{
    let config = &inputs.config_module.config;
    match base_url(&inputs.grpc.base_url, &config.upstream) {
        None => Valid::fail(String::from_str("No base URL defined")),
        Some(url) => {
            if inputs.validate_with_schema && !config.graphql.types.contains_key(
                inputs.field.type_of.as_str(),
            ) {
                let mut message = inputs.field.type_of.clone();
                message.append(" type not found on config");
                Valid::fail(message)
            } else {
                let req_template = crate::grpc::RequestTemplate {
                    url: Mustache::parse(url.as_str()),
                    headers: to_templates(&inputs.grpc.headers),
                    body: to_template(&inputs.grpc.body),
                    service: inputs.grpc.service.clone(),
                    method: inputs.grpc.method.clone(),
                };
                Valid::succeed(
                    Expression::IO(
                        IO::Grpc {
                            req_template,
                            group_by: copy_group_by(&inputs.field.group_by),
                            dl_id: None,
                        },
                    ),
                )
            }
        },
    }
}

/// What the field named `name` compiles to, by the resolver it declares. A
/// field that declares none has nothing to resolve it.
pub open spec fn compiled_field(
    config: ConfigView,
    field: FieldView,
    name: Seq<char>,
    operation_type: GraphQLOperationType,
) -> Outcome<ExpressionView> {
    match field.resolver {
        Some(ResolverView::Http(http)) => compiled_http(config, field, http),
        Some(ResolverView::GraphQL(graphql)) => compiled_graphql(config, operation_type, graphql),
        Some(ResolverView::Grpc(grpc)) => compiled_grpc(config, field, grpc, true),
        Some(ResolverView::Call(call)) => call::compiled_call(config, call, operation_type),
        Some(ResolverView::Const(constant)) => Ok(
            ExpressionView::Literal(DynamicValueView::Value(constant.data)),
        ),
        None => failure(name + " field has no resolver"@),
    }
}

/// Compiles the resolver of the field named `name`.
pub fn compile_field(
    config_module: &ConfigModule,
    field: &Field,
    name: &str,
    operation_type: &GraphQLOperationType,
) -> (r: Valid<Expression>)
    requires
        field@.resolver matches Some(ResolverView::Call(call)) ==> call::call_is_closed(
            config_module.config@,
            call,
            *operation_type,
        ),
    ensures
        deeply(r@) == compiled_field(config_module.config@, field@, name@, *operation_type),
{
    match &field.resolver {
        Some(Resolver::Http(http)) => compile_http(config_module, field, http),
        Some(Resolver::GraphQL(graphql)) => compile_graphql(config_module, operation_type, graphql),
        Some(Resolver::Grpc(grpc)) => compile_grpc(
            CompileGrpc {
                config_module,
                operation_type,
                field,
                grpc,
                validate_with_schema: true,
            },
        ),
        Some(Resolver::Call(call)) => call::compile_call(
            field,
            config_module,
            call,
            operation_type,
        ),
        Some(Resolver::Const(constant)) => Valid::succeed(
            Expression::Literal(DynamicValue::Value(constant.data.copy())),
        ),
        None => {
            let mut message = String::from_str(name);
            message.append(" field has no resolver");
            Valid::fail(message)
        },
    }
}

/// A field that declares no resolver does not compile, and the message of
/// the one cause begins with its name.
pub proof fn lemma_field_without_resolver_fails(
    config: ConfigView,
    field: FieldView,
    name: Seq<char>,
    operation_type: GraphQLOperationType,
)
    requires
        field.resolver is None,
    ensures
        compiled_field(config, field, name, operation_type) == failure::<ExpressionView>(
            name + " field has no resolver"@,
        ),
        (name + " field has no resolver"@).subrange(0, name.len() as int) == name,
{
    assert((name + " field has no resolver"@).subrange(0, name.len() as int) =~= name);
}

} // verus!
