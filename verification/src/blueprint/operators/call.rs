//! Compiling a field that delegates to another field with literal arguments.
//!
//! The target field's resolver is compiled as it would be for the target
//! itself, and the call's arguments are then written into its request
//! template: an expression `{{args.name}}` is replaced by the first segment of
//! the argument's value, which is itself read as a template. Nothing of the
//! delegation is left for query time.

use vstd::prelude::*;
use vstd::string::StringExecFns;
use crate::blueprint::operators::{
    compile_graphql, compile_grpc, compile_http, compiled_graphql, compiled_grpc, compiled_http,
};
use crate::blueprint::{CompileGrpc, ConfigModule, FieldDefinition, FieldDefinitionView};
use crate::config::{
    Call, CallView, ConfigView, Field, FieldView, GraphQLOperationType, GraphQLSource, GroupBy,
    Http as HttpDirective, Resolver, ResolverView, Type,
};
use crate::http::{NamedTemplates, TemplateView};
use crate::lambda::{DataLoaderId, Expression, ExpressionView, IOView, IO};
use crate::model::{deep, lemma_deep_push};
use crate::mustache::{segments_of, Mustache, Segment, SegmentView};
use crate::name_map::{has_key, keys_of, lookup, Entries, NameMap};
use crate::text::{copy_texts, holds, in_order, join, joined, same_text, sort_texts};
use crate::valid::{deeply, failure, traced, Outcome, Valid};

verus! {

/// The root type and the field that a call names; a query goes before a
/// mutation.
pub open spec fn type_and_field(call: CallView) -> Option<(Seq<char>, Seq<char>)> {
    match call.query {
        Some(query) => Some(("Query"@, query)),
        None => match call.mutation {
            Some(mutation) => Some(("Mutation"@, mutation)),
            None => None,
        },
    }
}

/// The field that a call delegates to, with its name.
pub open spec fn call_target(config: ConfigView, call: CallView) -> Outcome<
    (FieldView, Seq<char>),
> {
    match type_and_field(call) {
        None => failure("call must have query or mutation"@),
        Some((root_name, field_name)) => match lookup(config.graphql.types, root_name) {
            None => failure(root_name + " type not found on config"@),
            Some(root) => match lookup(root.fields, field_name) {
                None => failure(field_name + " field not found"@),
                Some(field) => Ok((field, field_name)),
            },
        },
    }
}

/// The declared names that the call gives no value for, in declared order.
pub open spec fn missing_args(declared: Seq<Seq<char>>, given: Entries<Seq<char>>) -> Seq<
    Seq<char>,
>
    decreases declared.len(),
{
    if declared.len() == 0 {
        Seq::empty()
    } else if has_key(given, declared.last()) {
        missing_args(declared.drop_last(), given)
    } else {
        missing_args(declared.drop_last(), given).push(declared.last())
    }
}

/// Each name between single quotes.
pub open spec fn quoted(names: Seq<Seq<char>>) -> Seq<Seq<char>> {
    names.map_values(|name: Seq<char>| "'"@ + name + "'"@)
}

/// The one message that reports every missing argument, in the order of
/// their names.
pub open spec fn missing_message(missing: Seq<Seq<char>>) -> Seq<char> {
    "no argument "@ + joined(quoted(in_order(missing)), ", "@) + " found"@
}

/// Whether a segment can be substituted: an expression under `args` names an
/// argument that has a value.
pub open spec fn segment_is_closed(segment: SegmentView, args: Entries<Seq<char>>) -> bool {
    match segment {
        SegmentView::Expression(path) => path.len() > 0 && path[0] == "args"@ ==> path.len() > 1
            && has_key(args, path[1]),
        SegmentView::Literal(_) => true,
    }
}

/// Whether every segment of a template can be substituted.
pub open spec fn template_is_closed(template: TemplateView, args: Entries<Seq<char>>) -> bool {
    forall|i: int| 0 <= i < template.len() ==> segment_is_closed(#[trigger] template[i], args)
}

/// Whether every one of the named templates can be substituted.
pub open spec fn templates_are_closed(templates: NamedTemplates, args: Entries<Seq<char>>) -> bool {
    forall|i: int|
        0 <= i < templates.len() ==> template_is_closed((#[trigger] templates[i]).1, args)
}

/// Whether the template, where there is one, can be substituted.
pub open spec fn optional_is_closed(template: Option<TemplateView>, args: Entries<Seq<char>>) -> bool {
    match template {
        Some(t) => template_is_closed(t, args),
        None => true,
    }
}

/// Whether every template of an upstream call can be substituted.
pub open spec fn io_is_closed(io: IOView, args: Entries<Seq<char>>) -> bool {
    match io {
        IOView::Http { req_template, .. } => {
            &&& template_is_closed(req_template.root_url, args)
            &&& templates_are_closed(req_template.query, args)
            &&& templates_are_closed(req_template.headers, args)
            &&& optional_is_closed(req_template.body_path, args)
        },
        IOView::GraphQL { req_template, .. } => {
            &&& templates_are_closed(req_template.headers, args)
            &&& match req_template.operation_arguments {
                Some(arguments) => templates_are_closed(arguments, args),
                None => true,
            }
        },
        IOView::Grpc { req_template, .. } => {
            &&& template_is_closed(req_template.url, args)
            &&& templates_are_closed(req_template.headers, args)
            &&& optional_is_closed(req_template.body, args)
        },
    }
}

/// Whether what was compiled, where it is an upstream call, can be
/// substituted.
pub open spec fn outcome_is_closed(outcome: Outcome<ExpressionView>, args: Entries<Seq<char>>) -> bool {
    match outcome {
        Ok(ExpressionView::IO(io)) => io_is_closed(io, args),
        _ => true,
    }
}

/// A segment after substitution. An expression `args.name` becomes the first
/// segment of the value of `name`, read as a template: a literal for plain
/// text, an expression where the value forwards one. Every other segment
/// stays.
pub open spec fn substituted_segment(segment: SegmentView, args: Entries<Seq<char>>) -> SegmentView {
    match segment {
        SegmentView::Expression(path) => if path.len() > 1 && path[0] == "args"@ && has_key(
            args,
            path[1],
        ) {
            segments_of(lookup(args, path[1])->0)[0]
        } else {
            segment
        },
        SegmentView::Literal(_) => segment,
    }
}

/// A template after substitution: segment by segment, in place.
pub open spec fn substituted(template: TemplateView, args: Entries<Seq<char>>) -> TemplateView {
    template.map_values(|segment: SegmentView| substituted_segment(segment, args))
}

/// Named templates after substitution: names and order stay.
pub open spec fn substituted_pairs(templates: NamedTemplates, args: Entries<Seq<char>>) -> NamedTemplates {
    templates.map_values(|pair: (Seq<char>, TemplateView)| (pair.0, substituted(pair.1, args)))
}

/// The template, where there is one, after substitution.
pub open spec fn substituted_optional(template: Option<TemplateView>, args: Entries<Seq<char>>) -> Option<
    TemplateView,
> {
    match template {
        Some(t) => Some(substituted(t, args)),
        None => None,
    }
}

/// An upstream call after substitution in every template of its request.
/// What an executor batches by stays as it is.
pub open spec fn transformed_io(io: IOView, args: Entries<Seq<char>>) -> IOView {
    match io {
        IOView::Http { req_template, group_by, dl_id } => IOView::Http {
            req_template: crate::http::RequestTemplateView {
                root_url: substituted(req_template.root_url, args),
                query: substituted_pairs(req_template.query, args),
                method: req_template.method,
                headers: substituted_pairs(req_template.headers, args),
                body_path: substituted_optional(req_template.body_path, args),
            },
            group_by,
            dl_id,
        },
        IOView::GraphQL { req_template, field_name, batch, dl_id } => IOView::GraphQL {
            req_template: crate::graphql::RequestTemplateView {
                url: req_template.url,
                operation_type: req_template.operation_type,
                operation_name: req_template.operation_name,
                operation_arguments: match req_template.operation_arguments {
                    Some(arguments) => Some(substituted_pairs(arguments, args)),
                    None => None,
                },
                headers: substituted_pairs(req_template.headers, args),
            },
            field_name,
            batch,
            dl_id,
        },
        IOView::Grpc { req_template, group_by, dl_id } => IOView::Grpc {
            req_template: crate::grpc::RequestTemplateView {
                url: substituted(req_template.url, args),
                headers: substituted_pairs(req_template.headers, args),
                body: substituted_optional(req_template.body, args),
                service: req_template.service,
                method: req_template.method,
            },
            group_by,
            dl_id,
        },
    }
}

/// A compiled resolver after substitution; a failure stays as it is.
pub open spec fn transformed(outcome: Outcome<ExpressionView>, args: Entries<Seq<char>>) -> Outcome<
    ExpressionView,
> {
    match outcome {
        Ok(ExpressionView::IO(io)) => Ok(ExpressionView::IO(transformed_io(io, args))),
        other => other,
    }
}

/// What the target's own resolver compiles to; `None` where the target has
/// none that a call can delegate to.
pub open spec fn compiled_target(
    config: ConfigView,
    target: FieldView,
    operation_type: GraphQLOperationType,
) -> Option<Outcome<ExpressionView>> {
    match target.resolver {
        Some(ResolverView::Http(http)) => Some(compiled_http(config, target, http)),
        Some(ResolverView::GraphQL(graphql)) => Some(
            compiled_graphql(config, operation_type, graphql),
        ),
        Some(ResolverView::Grpc(grpc)) => Some(compiled_grpc(config, target, grpc, false)),
        _ => None,
    }
}

/// What a call compiles to.
pub open spec fn compiled_call(
    config: ConfigView,
    call: CallView,
    operation_type: GraphQLOperationType,
) -> Outcome<ExpressionView> {
    match call_target(config, call) {
        Err(causes) => Err(causes),
        Ok((target, field_name)) => {
            let missing = missing_args(keys_of(target.args), call.args);
            if missing.len() > 0 {
                traced(failure(missing_message(missing)), field_name)
            } else {
                match compiled_target(config, target, operation_type) {
                    Some(compiled) => transformed(compiled, call.args),
                    None => failure(field_name + " field has no resolver"@),
                }
            }
        },
    }
}

/// Whether the call can be carried out: where its target is found and every
/// declared argument is given, the target's templates refer under `args` only
/// to arguments that the call gives.
pub open spec fn call_is_closed(
    config: ConfigView,
    call: CallView,
    operation_type: GraphQLOperationType,
) -> bool {
    match call_target(config, call) {
        Ok((target, _)) => match compiled_target(config, target, operation_type) {
            Some(compiled) => missing_args(keys_of(target.args), call.args).len() == 0
                ==> outcome_is_closed(compiled, call.args),
            None => true,
        },
        Err(_) => true,
    }
}

/// The parts of an HTTP call.
#[derive(Debug, PartialEq, Eq)]
pub struct Http {
    pub req_template: crate::http::RequestTemplate,
    pub group_by: Option<GroupBy>,
    pub dl_id: Option<DataLoaderId>,
}

/// The parts of a GraphQL call.
#[derive(Debug, PartialEq, Eq)]
pub struct GraphQL {
    pub req_template: crate::graphql::RequestTemplate,
    pub field_name: String,
    pub batch: bool,
    pub dl_id: Option<DataLoaderId>,
}

/// The parts of a gRPC call.
#[derive(Debug, PartialEq, Eq)]
pub struct Grpc {
    pub req_template: crate::grpc::RequestTemplate,
    pub group_by: Option<GroupBy>,
    pub dl_id: Option<DataLoaderId>,
}

impl Http {
    /// The parts of `expr` where it is an HTTP call, else an error.
    pub fn try_from(expr: Expression) -> (r: Result<Http, String>)
        ensures
            match r {
                Ok(http) => expr@ == ExpressionView::IO(
                    IOView::Http {
                        req_template: http.req_template@,
                        group_by: http.group_by.deep_view(),
                        dl_id: http.dl_id,
                    },
                ),
                Err(message) => !(expr@ is IO && expr@->IO_0 is Http) && message@
                    == "not an http expression"@,
            },
    {
        match expr {
            Expression::IO(IO::Http { req_template, group_by, dl_id }) => Ok(
                Http { req_template, group_by, dl_id },
            ),
            _ => Err(String::from_str("not an http expression")),
        }
    }
}

impl GraphQL {
    /// The parts of `expr` where it is a GraphQL call, else an error.
    pub fn try_from(expr: Expression) -> (r: Result<GraphQL, String>)
        ensures
            match r {
                Ok(graphql) => expr@ == ExpressionView::IO(
                    IOView::GraphQL {
                        req_template: graphql.req_template@,
                        field_name: graphql.field_name@,
                        batch: graphql.batch,
                        dl_id: graphql.dl_id,
                    },
                ),
                Err(message) => !(expr@ is IO && expr@->IO_0 is GraphQL) && message@
                    == "not a graphql expression"@,
            },
    {
        match expr {
            Expression::IO(IO::GraphQL { req_template, field_name, batch, dl_id }) => Ok(
                GraphQL { req_template, field_name, batch, dl_id },
            ),
            _ => Err(String::from_str("not a graphql expression")),
        }
    }
}

impl Grpc {
    /// The parts of `expr` where it is a gRPC call, else an error.
    pub fn try_from(expr: Expression) -> (r: Result<Grpc, String>)
        ensures
            match r {
                Ok(grpc) => expr@ == ExpressionView::IO(
                    IOView::Grpc {
                        req_template: grpc.req_template@,
                        group_by: grpc.group_by.deep_view(),
                        dl_id: grpc.dl_id,
                    },
                ),
                Err(message) => !(expr@ is IO && expr@->IO_0 is Grpc) && message@
                    == "not a grpc expression"@,
            },
    {
        match expr {
            Expression::IO(IO::Grpc { req_template, group_by, dl_id }) => Ok(
                Grpc { req_template, group_by, dl_id },
            ),
            _ => Err(String::from_str("not a grpc expression")),
        }
    }
}

/// The value that the call gives for `key`.
pub fn find_value<'a>(args: &'a NameMap<String>, key: &String) -> (r: Option<&'a String>)
    ensures
        r.deep_view() == lookup(args@, key@),
{
    args.get(key.as_str())
}

/// The root type and the field that `call` names.
pub fn get_type_and_field(call: &Call) -> (r: Option<(String, String)>)
    ensures
        r.deep_view() == type_and_field(call@),
{
    match &call.query {
        Some(query) => Some((String::from_str("Query"), query.clone())),
        None => match &call.mutation {
            Some(mutation) => Some((String::from_str("Mutation"), mutation.clone())),
            None => None,
        },
    }
}

/// The field that `call` delegates to, and its name.
pub fn get_field_and_field_name<'a>(call: &'a Call, config_module: &'a ConfigModule) -> (r: Valid<
    (&'a Field, String),
>)
    ensures
        match r@ {
            Ok((field, name)) => call_target(config_module.config@, call@) == Ok::<
                (FieldView, Seq<char>),
                Seq<crate::valid::CauseView>,
            >((field@, name@)),
            Err(causes) => call_target(config_module.config@, call@) == Err::<
                (FieldView, Seq<char>),
                Seq<crate::valid::CauseView>,
            >(causes),
        },
{
    match get_type_and_field(call) {
        None => Valid::fail(String::from_str("call must have query or mutation")),
        Some((root_name, field_name)) => {
            match config_module.config.find_type(root_name.as_str()) {
                None => {
                    let mut message = root_name;
                    message.append(" type not found on config");
                    Valid::fail(message)
                },
                Some(root) => match root.fields.get(field_name.as_str()) {
                    None => {
                        let mut message = field_name;
                        message.append(" field not found");
                        Valid::fail(message)
                    },
                    Some(field) => Valid::succeed((field, field_name)),
                },
            }
        },
    }
}

/// `value` with the call's arguments written in.
pub fn replace_mustache_value(value: &Mustache, args: &NameMap<String>) -> (r: Mustache)
    requires
        template_is_closed(value@, args@),
    ensures
        r@ == substituted(value@, args@),
{
    let mut out: Vec<Segment> = Vec::new();
    let mut i: usize = 0;
    while i < value.segments.len()
        invariant
            i <= value.segments.len(),
            template_is_closed(value@, args@),
            deep(out@) == substituted(value@, args@).take(i as int),
        decreases value.segments.len() - i,
    {
        let ghost before = out@;
        assert(segment_is_closed(value@[i as int], args@));
        let segment = match &value.segments[i] {
            Segment::Literal(literal) => Segment::Literal(literal.clone()),
            Segment::Expression(expression) => {
                if expression.len() > 0 && same_text(expression[0].as_str(), "args") {
                    let found = find_value(args, &expression[1]).unwrap();
                    let item = Mustache::parse(found.as_str());
                    let mut segments = item.segments;
                    segments.remove(0)
                } else {
                    Segment::Expression(copy_texts(expression))
                }
            },
        };
        out.push(segment);
        proof {
            lemma_deep_push(before, segment);
            assert(deep(out@) =~= substituted(value@, args@).take(i as int + 1));
        }
        i += 1;
    }
    proof {
        assert(substituted(value@, args@).take(value.segments.len() as int) =~= substituted(
            value@,
            args@,
        ));
    }
    Mustache { segments: out }
}

/// A named template with the call's arguments written in; the name stays.
pub fn replace_mustache(args: &NameMap<String>, pair: &(String, Mustache)) -> (r: (
    String,
    Mustache,
))
    requires
        template_is_closed(pair.1@, args@),
    ensures
        r.0@ == pair.0@,
        r.1@ == substituted(pair.1@, args@),
{
    (pair.0.clone(), replace_mustache_value(&pair.1, args))
}

fn replace_all(templates: &Vec<(String, Mustache)>, args: &NameMap<String>) -> (r: Vec<
    (String, Mustache),
>)
    requires
        templates_are_closed(deep(templates@), args@),
    ensures
        deep(r@) == substituted_pairs(deep(templates@), args@),
{
    let mut out: Vec<(String, Mustache)> = Vec::new();
    let mut i: usize = 0;
    while i < templates.len()
        invariant
            i <= templates.len(),
            templates_are_closed(deep(templates@), args@),
            deep(out@) == substituted_pairs(deep(templates@), args@).take(i as int),
        decreases templates.len() - i,
    {
        let ghost before = out@;
        assert(template_is_closed(deep(templates@)[i as int].1, args@));
        let pair = replace_mustache(args, &templates[i]);
        out.push(pair);
        proof {
            lemma_deep_push(before, pair);
            assert(deep(out@) =~= substituted_pairs(deep(templates@), args@).take(i as int + 1));
        }
        i += 1;
    }
    proof {
        assert(substituted_pairs(deep(templates@), args@).take(templates.len() as int)
            =~= substituted_pairs(deep(templates@), args@));
    }
    out
}

fn replace_optional(template: &Option<Mustache>, args: &NameMap<String>) -> (r: Option<Mustache>)
    requires
        optional_is_closed(template.deep_view(), args@),
    ensures
        r.deep_view() == substituted_optional(template.deep_view(), args@),
{
    match template {
        Some(t) => Some(replace_mustache_value(t, args)),
        None => None,
    }
}

/// Compiles the HTTP resolver `http` of `field` and writes the call's
/// arguments into its request template.
pub fn transform_http(
    config_module: &ConfigModule,
    field: &Field,
    http: &HttpDirective,
    args: &NameMap<String>,
) -> (r: Valid<Expression>)
    requires
        outcome_is_closed(compiled_http(config_module.config@, field@, http@), args@),
    ensures
        deeply(r@) == transformed(compiled_http(config_module.config@, field@, http@), args@),
{
    match compile_http(config_module, field, http).to_result() {
        Err(causes) => Valid::from_causes(causes),
        Ok(expr) => {
            let http = Http::try_from(expr).unwrap();
            let req_template = crate::http::RequestTemplate {
                root_url: replace_mustache_value(&http.req_template.root_url, args),
                query: replace_all(&http.req_template.query, args),
                method: http.req_template.method,
                headers: replace_all(&http.req_template.headers, args),
                body_path: replace_optional(&http.req_template.body_path, args),
            };
            Valid::succeed(
                Expression::IO(
                    IO::Http { req_template, group_by: http.group_by, dl_id: http.dl_id },
                ),
            )
        },
    }
}

/// Compiles the GraphQL resolver `graphql` and writes the call's arguments
/// into its request template.
pub fn transform_graphql(
    config_module: &ConfigModule,
    operation_type: &GraphQLOperationType,
    graphql: &GraphQLSource,
    args: &NameMap<String>,
) -> (r: Valid<Expression>)
    requires
        outcome_is_closed(
            compiled_graphql(config_module.config@, *operation_type, graphql@),
            args@,
        ),
    ensures
        deeply(r@) == transformed(
            compiled_graphql(config_module.config@, *operation_type, graphql@),
            args@,
        ),
{
    match compile_graphql(config_module, operation_type, graphql).to_result() {
        Err(causes) => Valid::from_causes(causes),
        Ok(expr) => {
            let graphql = GraphQL::try_from(expr).unwrap();
            let operation_arguments = match &graphql.req_template.operation_arguments {
                Some(arguments) => Some(replace_all(arguments, args)),
                None => None,
            };
            let req_template = crate::graphql::RequestTemplate {
                url: graphql.req_template.url,
                operation_type: graphql.req_template.operation_type,
                operation_name: graphql.req_template.operation_name,
                operation_arguments,
                headers: replace_all(&graphql.req_template.headers, args),
            };
            Valid::succeed(
                Expression::IO(
                    IO::GraphQL {
                        req_template,
                        field_name: graphql.field_name,
                        batch: graphql.batch,
                        dl_id: graphql.dl_id,
                    },
                ),
            )
        },
    }
}

/// Compiles the gRPC resolver of `inputs` and writes the call's arguments into
/// its request template.
pub fn transform_grpc(inputs: CompileGrpc<'_>, args: &NameMap<String>) -> (r: Valid<Expression>)
    requires
        outcome_is_closed(
            compiled_grpc(
                inputs.config_module.config@,
                inputs.field@,
                inputs.grpc@,
                inputs.validate_with_schema,
            ),
            args@,
        ),
    ensures
        deeply(r@) == transformed(
            compiled_grpc(
                inputs.config_module.config@,
                inputs.field@,
                inputs.grpc@,
                inputs.validate_with_schema,
            ),
            args@,
        ),
{
    match compile_grpc(inputs).to_result() {
        Err(causes) => Valid::from_causes(causes),
        Ok(expr) => {
            let grpc = Grpc::try_from(expr).unwrap();
            let req_template = crate::grpc::RequestTemplate {
                url: replace_mustache_value(&grpc.req_template.url, args),
                headers: replace_all(&grpc.req_template.headers, args),
                body: replace_optional(&grpc.req_template.body, args),
                service: grpc.req_template.service,
                method: grpc.req_template.method,
            };
            Valid::succeed(
                Expression::IO(
                    IO::Grpc { req_template, group_by: grpc.group_by, dl_id: grpc.dl_id },
                ),
            )
        },
    }
}

/// The names that `field` declares and `args` gives no value for.
fn missing_names(field: &Field, args: &NameMap<String>) -> (r: Vec<String>)
    ensures
        deep(r@) == missing_args(keys_of(field@.args), args@),
{
    let mut out: Vec<String> = Vec::new();
    let n = field.args.len();
    let ghost declared = keys_of(field@.args);
    let mut i: usize = 0;
    proof {
        assert(deep(out@) =~= missing_args(declared.take(0), args@));
    }
    while i < n
        invariant
            i <= n,
            n == field@.args.len(),
            declared == keys_of(field@.args),
            deep(out@) == missing_args(declared.take(i as int), args@),
        decreases n - i,
    {
        let ghost before = out@;
        let key = field.args.key_at(i);
        proof {
            assert(declared.take(i as int + 1).drop_last() =~= declared.take(i as int));
            assert(declared.take(i as int + 1).last() == key@);
        }
        if !args.contains_key(key.as_str()) {
            let name = key.clone();
            out.push(name);
            proof {
                lemma_deep_push(before, name);
            }
        }
        i += 1;
    }
    proof {
        assert(declared.take(n as int) =~= declared);
    }
    out
}

/// Each name between single quotes.
fn quote_all(names: &Vec<String>) -> (r: Vec<String>)
    ensures
        deep(r@) == quoted(deep(names@)),
{
    let mut out: Vec<String> = Vec::new();
    let mut i: usize = 0;
    while i < names.len()
        invariant
            i <= names.len(),
            deep(out@) == quoted(deep(names@)).take(i as int),
        decreases names.len() - i,
    {
        let ghost before = out@;
        let mut name = String::from_str("'");
        name.append(names[i].as_str());
        name.append("'");
        out.push(name);
        proof {
            lemma_deep_push(before, name);
            assert(deep(out@) =~= quoted(deep(names@)).take(i as int + 1));
        }
        i += 1;
    }
    proof {
        assert(quoted(deep(names@)).take(names.len() as int) =~= quoted(deep(names@)));
    }
    out
}

/// Compiles the call of `field` to an expression that needs nothing of the
/// delegation at query time. The expression is the target's: `field` itself
/// adds nothing to it.
#[allow(unused_variables)]
pub fn compile_call(
    field: &Field,
    config_module: &ConfigModule,
    call: &Call,
    operation_type: &GraphQLOperationType,
) -> (r: Valid<Expression>)
    requires
        call_is_closed(config_module.config@, call@, *operation_type),
    ensures
        deeply(r@) == compiled_call(config_module.config@, call@, *operation_type),
        r@ matches Ok(expression) ==> keeps_batching(
            config_module.config@,
            call@,
            *operation_type,
            expression@,
        ),
{
    proof {
        lemma_call_keeps_batching(config_module.config@, call@, *operation_type);
    }
    match get_field_and_field_name(call, config_module).to_result() {
        Err(causes) => Valid::from_causes(causes),
        Ok((target, field_name)) => {
            let empties = missing_names(target, &call.args);
            proof {
                assert(empties.len() == deep(empties@).len());
            }
            if empties.len() > 0 {
                let names = quote_all(&sort_texts(&empties));
                let mut message = String::from_str("no argument ");
                message.append(join(&names, ", ").as_str());
                message.append(" found");
                return Valid::fail(message).trace(field_name.as_str());
            }
            match &target.resolver {
                Some(Resolver::Http(http)) => transform_http(
                    config_module,
                    target,
                    http,
                    &call.args,
                ),
                Some(Resolver::GraphQL(graphql)) => transform_graphql(
                    config_module,
                    operation_type,
                    graphql,
                    &call.args,
                ),
                Some(Resolver::Grpc(grpc)) => transform_grpc(
                    CompileGrpc {
                        config_module,
                        operation_type,
                        field: target,
                        grpc,
                        validate_with_schema: false,
                    },
                    &call.args,
                ),
                _ => {
                    let mut message = field_name;
                    message.append(" field has no resolver");
                    Valid::fail(message)
                },
            }
        },
    }
}

/// Whether `replace_mustache_value` can take this template: whether its
/// expressions under `args` name arguments that have a value.
pub fn is_closed_template(value: &Mustache, args: &NameMap<String>) -> (r: bool)
    ensures
        r == template_is_closed(value@, args@),
{
    let mut i: usize = 0;
    while i < value.segments.len()
        invariant
            i <= value.segments.len(),
            forall|k: int| 0 <= k < i ==> segment_is_closed(#[trigger] value@[k], args@),
        decreases value.segments.len() - i,
    {
        match &value.segments[i] {
            Segment::Literal(_) => {},
            Segment::Expression(expression) => {
                if expression.len() > 0 && same_text(expression[0].as_str(), "args") {
                    if expression.len() < 2 || !args.contains_key(expression[1].as_str()) {
                        assert(!segment_is_closed(value@[i as int], args@));
                        return false;
                    }
                }
            },
        }
        i += 1;
    }
    true
}

fn are_closed_templates(templates: &Vec<(String, Mustache)>, args: &NameMap<String>) -> (r: bool)
    ensures
        r == templates_are_closed(deep(templates@), args@),
{
    let mut i: usize = 0;
    while i < templates.len()
        invariant
            i <= templates.len(),
            forall|k: int|
                0 <= k < i ==> template_is_closed((#[trigger] deep(templates@)[k]).1, args@),
        decreases templates.len() - i,
    {
        if !is_closed_template(&templates[i].1, args) {
            assert(!template_is_closed(deep(templates@)[i as int].1, args@));
            return false;
        }
        i += 1;
    }
    true
}

fn is_closed_optional(template: &Option<Mustache>, args: &NameMap<String>) -> (r: bool)
    ensures
        r == optional_is_closed(template.deep_view(), args@),
{
    match template {
        Some(t) => is_closed_template(t, args),
        None => true,
    }
}

fn is_closed_expression(expression: &Expression, args: &NameMap<String>) -> (r: bool)
    ensures
        r == outcome_is_closed(Ok(expression@), args@),
{
    match expression {
        Expression::IO(IO::Http { req_template, .. }) => is_closed_template(
            &req_template.root_url,
            args,
        ) && are_closed_templates(&req_template.query, args) && are_closed_templates(
            &req_template.headers,
            args,
        ) && is_closed_optional(&req_template.body_path, args),
        Expression::IO(IO::GraphQL { req_template, .. }) => are_closed_templates(
            &req_template.headers,
            args,
        ) && match &req_template.operation_arguments {
            Some(arguments) => are_closed_templates(arguments, args),
            None => true,
        },
        Expression::IO(IO::Grpc { req_template, .. }) => is_closed_template(
            &req_template.url,
            args,
        ) && are_closed_templates(&req_template.headers, args) && is_closed_optional(
            &req_template.body,
            args,
        ),
        _ => true,
    }
}

/// Whether `compile_call` can take this call: whether the templates of its
/// target refer under `args` only to arguments that the call gives.
pub fn is_closed_call(
    config_module: &ConfigModule,
    call: &Call,
    operation_type: &GraphQLOperationType,
) -> (r: bool)
    ensures
        r == call_is_closed(config_module.config@, call@, *operation_type),
{
    match get_field_and_field_name(call, config_module).to_result() {
        Err(_) => true,
        Ok((target, _)) => {
            let compiled = match &target.resolver {
                Some(Resolver::Http(http)) => compile_http(config_module, target, http),
                Some(Resolver::GraphQL(graphql)) => compile_graphql(
                    config_module,
                    operation_type,
                    graphql,
                ),
                Some(Resolver::Grpc(grpc)) => compile_grpc(
                    CompileGrpc {
                        config_module,
                        operation_type,
                        field: target,
                        grpc,
                        validate_with_schema: false,
                    },
                ),
                _ => {
                    return true;
                },
            };
            let empties = missing_names(target, &call.args);
            proof {
                assert(empties.len() == deep(empties@).len());
            }
            if empties.len() > 0 {
                return true;
            }
            match compiled.to_result() {
                Ok(expression) => is_closed_expression(&expression, &call.args),
                Err(_) => true,
            }
        },
    }
}

/// Compiles the call of `field` where it can be carried out; `None` where a
/// template of the target refers to an argument that the call does not give.
pub fn try_compile_call(
    field: &Field,
    config_module: &ConfigModule,
    call: &Call,
    operation_type: &GraphQLOperationType,
) -> (r: Option<Valid<Expression>>)
    ensures
        match r {
            Some(compiled) => call_is_closed(config_module.config@, call@, *operation_type)
                && deeply(compiled@) == compiled_call(
                config_module.config@,
                call@,
                *operation_type,
            ),
            None => !call_is_closed(config_module.config@, call@, *operation_type),
        },
{
    if is_closed_call(config_module, call, operation_type) {
        Some(compile_call(field, config_module, call, operation_type))
    } else {
        None
    }
}

/// What `update_call` makes of a field: with a call as its resolver, the
/// compiled call becomes the resolver of `b_field`, and a failure is traced
/// with the field's name; any other field leaves `b_field` as it is.
pub open spec fn updated_call(
    config: ConfigView,
    field: FieldView,
    operation_type: GraphQLOperationType,
    name: Seq<char>,
    b_field: FieldDefinitionView,
) -> Outcome<FieldDefinitionView> {
    match field.resolver {
        Some(ResolverView::Call(call)) => match compiled_call(config, call, operation_type) {
            Ok(resolver) => Ok(FieldDefinitionView { resolver: Some(resolver), ..b_field }),
            Err(causes) => traced(Err(causes), name),
        },
        _ => Ok(b_field),
    }
}

/// Gives `b_field` its resolver where `field` delegates by a call.
#[allow(unused_variables)]
pub fn update_call(
    operation_type: &GraphQLOperationType,
    config_module: &ConfigModule,
    field: &Field,
    type_of: &Type,
    name: &str,
    b_field: FieldDefinition,
) -> (r: Valid<FieldDefinition>)
    requires
        field@.resolver matches Some(ResolverView::Call(call)) ==> call_is_closed(
            config_module.config@,
            call,
            *operation_type,
        ),
    ensures
        deeply(r@) == updated_call(config_module.config@, field@, *operation_type, name@, b_field@),
{
    match &field.resolver {
        Some(Resolver::Call(call)) => {
            match compile_call(field, config_module, call, operation_type).to_result() {
                Ok(resolver) => Valid::succeed(b_field.resolver(Some(resolver))),
                Err(causes) => Valid::from_causes(causes).trace(name),
            }
        },
        _ => Valid::succeed(b_field),
    }
}

/// What an executor batches by: the group key, the loader, and for a
/// GraphQL call the field and whether it is batched.
pub struct Batching {
    pub group_by: Option<crate::config::GroupByView>,
    pub dl_id: Option<DataLoaderId>,
    pub field_name: Option<Seq<char>>,
    pub batch: bool,
}

/// What an executor batches an expression by; nothing for what is no
/// upstream call.
pub open spec fn batching_of(expression: ExpressionView) -> Option<Batching> {
    match expression {
        ExpressionView::IO(IOView::Http { group_by, dl_id, .. }) => Some(
            Batching { group_by, dl_id, field_name: None, batch: false },
        ),
        ExpressionView::IO(IOView::GraphQL { field_name, batch, dl_id, .. }) => Some(
            Batching { group_by: None, dl_id, field_name: Some(field_name), batch },
        ),
        ExpressionView::IO(IOView::Grpc { group_by, dl_id, .. }) => Some(
            Batching { group_by, dl_id, field_name: None, batch: false },
        ),
        _ => None,
    }
}

/// Whether two expressions are upstream calls of one kind.
pub open spec fn same_upstream(left: ExpressionView, right: ExpressionView) -> bool {
    match (left, right) {
        (ExpressionView::IO(IOView::Http { .. }), ExpressionView::IO(IOView::Http { .. })) => true,
        (
            ExpressionView::IO(IOView::GraphQL { .. }),
            ExpressionView::IO(IOView::GraphQL { .. }),
        ) => true,
        (ExpressionView::IO(IOView::Grpc { .. }), ExpressionView::IO(IOView::Grpc { .. })) => true,
        _ => false,
    }
}

/// Whether `expression` is an upstream call of the kind that the call's
/// target compiles to for itself, with the group key, the loader and, for a
/// GraphQL call, the field and the batch flag of that.
pub open spec fn keeps_batching(
    config: ConfigView,
    call: CallView,
    operation_type: GraphQLOperationType,
    expression: ExpressionView,
) -> bool {
    match call_target(config, call) {
        Ok((target, _)) => match compiled_target(config, target, operation_type) {
            Some(Ok(direct)) => same_upstream(expression, direct) && batching_of(expression)
                == batching_of(direct),
            _ => false,
        },
        Err(_) => false,
    }
}

/// Delegation keeps the batching identity: a call that compiles is an
/// upstream call of the kind of its target and carries the group key and the
/// loader that the target carries when compiled for itself; none is made up
/// and none is dropped.
pub proof fn lemma_call_keeps_batching(
    config: ConfigView,
    call: CallView,
    operation_type: GraphQLOperationType,
)
    ensures
        compiled_call(config, call, operation_type) matches Ok(expression) ==> keeps_batching(
            config,
            call,
            operation_type,
            expression,
        ),
{
}

/// A call that leaves out an argument which its target declares fails with
/// one cause: its message lists every such argument, the left-out one between
/// single quotes among them, and its trace is the target's name.
pub proof fn lemma_missing_argument_fails(
    config: ConfigView,
    call: CallView,
    operation_type: GraphQLOperationType,
    index: int,
)
    requires
        call_target(config, call) is Ok,
        0 <= index < call_target(config, call)->Ok_0.0.args.len(),
        !has_key(call.args, call_target(config, call)->Ok_0.0.args[index].0),
    ensures
        ({
            let (target, name) = call_target(config, call)->Ok_0;
            let missing = missing_args(keys_of(target.args), call.args);
            &&& holds(missing_message(missing), "'"@ + target.args[index].0 + "'"@)
            &&& compiled_call(config, call, operation_type) == Err::<
                ExpressionView,
                Seq<crate::valid::CauseView>,
            >(
                seq![
                    crate::valid::CauseView {
                        message: missing_message(missing),
                        description: None,
                        trace: seq![name],
                    },
                ],
            )
        }),
{
    broadcast use vstd::seq_lib::group_to_multiset_ensures;

    let (target, name) = call_target(config, call)->Ok_0;
    let declared = keys_of(target.args);
    let left_out = target.args[index].0;
    lemma_missing_holds(declared, call.args, index);
    let missing = missing_args(declared, call.args);
    let cause = crate::valid::cause_of(missing_message(missing));
    assert(crate::valid::traced_causes(seq![cause], name) =~= seq![
        crate::valid::traced_cause(cause, name),
    ]);
    assert(crate::valid::traced_cause(cause, name).trace =~= seq![name]);
    // the left-out name is among the names in order, and so among the quoted
    let sorted = in_order(missing);
    crate::text::lemma_in_order(missing);
    assert(missing.to_multiset().count(left_out) > 0);
    assert(sorted.to_multiset().count(left_out) > 0);
    let k = choose|k: int| 0 <= k < sorted.len() && sorted[k] == left_out;
    assert(quoted(sorted)[k] == "'"@ + left_out + "'"@);
    crate::text::lemma_joined_holds(quoted(sorted), ", "@, k);
    crate::text::lemma_holds_inside(
        "no argument "@,
        joined(quoted(sorted), ", "@),
        " found"@,
        quoted(sorted)[k],
    );
}

/// A declared name without a value is among the missing ones.
pub proof fn lemma_missing_holds(declared: Seq<Seq<char>>, given: Entries<Seq<char>>, index: int)
    requires
        0 <= index < declared.len(),
        !has_key(given, declared[index]),
    ensures
        missing_args(declared, given).contains(declared[index]),
    decreases declared.len(),
{
    if index == declared.len() - 1 {
        let rest = missing_args(declared.drop_last(), given);
        assert(rest.push(declared.last())[rest.len() as int] == declared[index]);
    } else {
        lemma_missing_holds(declared.drop_last(), given, index);
        let rest = missing_args(declared.drop_last(), given);
        let k = choose|k: int| 0 <= k < rest.len() && rest[k] == declared[index];
        if !has_key(given, declared.last()) {
            assert(rest.push(declared.last())[k] == declared[index]);
        }
    }
}

/// A call whose target has no resolver of its own to delegate to fails with a
/// message that names the target.
pub proof fn lemma_no_resolver_fails(
    config: ConfigView,
    call: CallView,
    operation_type: GraphQLOperationType,
)
    requires
        call_target(config, call) is Ok,
        missing_args(keys_of(call_target(config, call)->Ok_0.0.args), call.args).len() == 0,
        !(call_target(config, call)->Ok_0.0.resolver matches Some(resolver) && (resolver is Http
            || resolver is GraphQL || resolver is Grpc)),
    ensures
        compiled_call(config, call, operation_type) == failure::<ExpressionView>(
            call_target(config, call)->Ok_0.1 + " field has no resolver"@,
        ),
{
}

/// An argument whose value is plain text is written in as that text.
pub proof fn lemma_literal_argument(args: Entries<Seq<char>>, name: Seq<char>, rest: Seq<Seq<char>>)
    requires
        has_key(args, name),
        crate::mustache::all_literal(segments_of(lookup(args, name)->0)),
    ensures
        substituted_segment(SegmentView::Expression(seq!["args"@, name] + rest), args)
            == SegmentView::Literal(lookup(args, name)->0),
{
    crate::mustache::lemma_literal_template_round_trip(lookup(args, name)->0);
}

/// An argument whose value begins with an expression forwards that
/// expression: it is left for whoever fills the template later.
pub proof fn lemma_forwarded_argument(
    args: Entries<Seq<char>>,
    name: Seq<char>,
    rest: Seq<Seq<char>>,
)
    requires
        has_key(args, name),
        crate::mustache::expression_at(lookup(args, name)->0, 0) is Some,
    ensures
        crate::mustache::expression_at(lookup(args, name)->0, 0) matches Some(found)
            && substituted_segment(SegmentView::Expression(seq!["args"@, name] + rest), args)
            == SegmentView::Expression(found.0),
{
    let value = lookup(args, name)->0;
    crate::mustache::lemma_expression_at_bounds(value, 0);
}

/// A segment that is no expression under `args` is left as it is.
pub proof fn lemma_other_segments_stay(args: Entries<Seq<char>>, segment: SegmentView)
    requires
        match segment {
            SegmentView::Expression(path) => path.len() == 0 || path[0] != "args"@,
            SegmentView::Literal(_) => true,
        },
    ensures
        substituted_segment(segment, args) == segment,
{
}

} // verus!
