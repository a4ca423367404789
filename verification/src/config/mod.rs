//! The type graph that a schema is lowered to: types, their fields and
//! arguments, and the resolver that each field declares.

use vstd::prelude::*;
use crate::json::{Value, ValueView};
use crate::model::deep;
use crate::name_map::{Entries, NameMap};
use crate::text::{copy_text, copy_texts};

pub mod from_document;
pub mod introspection;

verus! {

/// The method of an HTTP request.
#[derive(Clone, Copy, Debug, PartialEq, Eq, Structural)]
pub enum Method {
    Get,
    Post,
    Put,
    Patch,
    Delete,
    Head,
    Options,
    Connect,
    Trace,
}

/// Whether an upstream GraphQL operation is a query or a mutation.
#[derive(Clone, Copy, Debug, PartialEq, Eq, Structural)]
pub enum GraphQLOperationType {
    Query,
    Mutation,
}

/// A description of an upstream GraphQL endpoint's schema, as it was fetched.
#[derive(Clone, Debug, PartialEq, Eq)]
pub struct IntrospectionResult {
    pub schema: String,
}

pub struct IntrospectionResultView {
    pub schema: Seq<char>,
}

impl DeepView for IntrospectionResult {
    type V = IntrospectionResultView;

    open spec fn deep_view(&self) -> IntrospectionResultView {
        IntrospectionResultView { schema: self.schema@ }
    }
}

impl View for IntrospectionResult {
    type V = IntrospectionResultView;

    open spec fn view(&self) -> IntrospectionResultView {
        self.deep_view()
    }
}

impl IntrospectionResult {
    /// A copy.
    pub fn copy(&self) -> (r: Self)
        ensures
            r@ == self@,
    {
        IntrospectionResult { schema: self.schema.clone() }
    }
}

/// How a field or argument is renamed or hidden.
#[derive(Clone, Debug, PartialEq, Eq)]
pub struct ModifyField {
    pub name: Option<String>,
    pub omit: bool,
}

pub struct ModifyFieldView {
    pub name: Option<Seq<char>>,
    pub omit: bool,
}

impl DeepView for ModifyField {
    type V = ModifyFieldView;

    open spec fn deep_view(&self) -> ModifyFieldView {
        ModifyFieldView { name: self.name.deep_view(), omit: self.omit }
    }
}

impl View for ModifyField {
    type V = ModifyFieldView;

    open spec fn view(&self) -> ModifyFieldView {
        self.deep_view()
    }
}

/// The path of the value that stands in place of a field's own.
#[derive(Clone, Debug, PartialEq, Eq)]
pub struct InlineType {
    pub path: Vec<String>,
}

pub struct InlineTypeView {
    pub path: Seq<Seq<char>>,
}

impl DeepView for InlineType {
    type V = InlineTypeView;

    open spec fn deep_view(&self) -> InlineTypeView {
        InlineTypeView { path: deep(self.path@) }
    }
}

impl View for InlineType {
    type V = InlineTypeView;

    open spec fn view(&self) -> InlineTypeView {
        self.deep_view()
    }
}

/// A script that an executor runs on the field's value.
#[derive(Clone, Debug, PartialEq, Eq)]
pub struct Unsafe {
    pub script: String,
}

pub struct UnsafeView {
    pub script: Seq<char>,
}

impl DeepView for Unsafe {
    type V = UnsafeView;

    open spec fn deep_view(&self) -> UnsafeView {
        UnsafeView { script: self.script@ }
    }
}

impl View for Unsafe {
    type V = UnsafeView;

    open spec fn view(&self) -> UnsafeView {
        self.deep_view()
    }
}

/// The key by which an executor may coalesce calls of one field.
#[derive(Clone, Debug, PartialEq, Eq)]
pub struct GroupBy {
    pub path: Vec<String>,
    pub key: Option<String>,
}

pub struct GroupByView {
    pub path: Seq<Seq<char>>,
    pub key: Option<Seq<char>>,
}

impl DeepView for GroupBy {
    type V = GroupByView;

    open spec fn deep_view(&self) -> GroupByView {
        GroupByView { path: deep(self.path@), key: self.key.deep_view() }
    }
}

impl View for GroupBy {
    type V = GroupByView;

    open spec fn view(&self) -> GroupByView {
        self.deep_view()
    }
}

impl GroupBy {
    /// A copy.
    pub fn copy(&self) -> (r: Self)
        ensures
            r@ == self@,
    {
        GroupBy { path: copy_texts(&self.path), key: copy_text(&self.key) }
    }
}

/// An upstream HTTP call. `url` is a template; a base URL, the directive's own
/// or else the upstream's, is put in front of it.
#[derive(Clone, Debug, PartialEq, Eq)]
pub struct Http {
    pub url: String,
    pub method: Method,
    pub base_url: Option<String>,
    pub query: Vec<(String, String)>,
    pub headers: Vec<(String, String)>,
    pub body: Option<String>,
}

pub struct HttpView {
    pub url: Seq<char>,
    pub method: Method,
    pub base_url: Option<Seq<char>>,
    pub query: Seq<(Seq<char>, Seq<char>)>,
    pub headers: Seq<(Seq<char>, Seq<char>)>,
    pub body: Option<Seq<char>>,
}

impl DeepView for Http {
    type V = HttpView;

    open spec fn deep_view(&self) -> HttpView {
        HttpView {
            url: self.url@,
            method: self.method,
            base_url: self.base_url.deep_view(),
            query: deep(self.query@),
            headers: deep(self.headers@),
            body: self.body.deep_view(),
        }
    }
}

impl View for Http {
    type V = HttpView;

    open spec fn view(&self) -> HttpView {
        self.deep_view()
    }
}

/// An upstream GraphQL call of the root field `name`.
#[derive(Clone, Debug, PartialEq, Eq)]
pub struct GraphQLSource {
    pub name: String,
    pub args: Vec<(String, String)>,
    pub base_url: Option<String>,
    pub headers: Vec<(String, String)>,
    pub batch: bool,
    pub introspection: Option<IntrospectionResult>,
}

pub struct GraphQLSourceView {
    pub name: Seq<char>,
    pub args: Seq<(Seq<char>, Seq<char>)>,
    pub base_url: Option<Seq<char>>,
    pub headers: Seq<(Seq<char>, Seq<char>)>,
    pub batch: bool,
    pub introspection: Option<IntrospectionResultView>,
}

impl DeepView for GraphQLSource {
    type V = GraphQLSourceView;

    open spec fn deep_view(&self) -> GraphQLSourceView {
        GraphQLSourceView {
            name: self.name@,
            args: deep(self.args@),
            base_url: self.base_url.deep_view(),
            headers: deep(self.headers@),
            batch: self.batch,
            introspection: self.introspection.deep_view(),
        }
    }
}

impl View for GraphQLSource {
    type V = GraphQLSourceView;

    open spec fn view(&self) -> GraphQLSourceView {
        self.deep_view()
    }
}

/// An upstream gRPC call of `method` of `service`.
#[derive(Clone, Debug, PartialEq, Eq)]
pub struct Grpc {
    pub service: String,
    pub method: String,
    pub base_url: Option<String>,
    pub body: Option<String>,
    pub headers: Vec<(String, String)>,
}

pub struct GrpcView {
    pub service: Seq<char>,
    pub method: Seq<char>,
    pub base_url: Option<Seq<char>>,
    pub body: Option<Seq<char>>,
    pub headers: Seq<(Seq<char>, Seq<char>)>,
}

impl DeepView for Grpc {
    type V = GrpcView;

    open spec fn deep_view(&self) -> GrpcView {
        GrpcView {
            service: self.service@,
            method: self.method@,
            base_url: self.base_url.deep_view(),
            body: self.body.deep_view(),
            headers: deep(self.headers@),
        }
    }
}

impl View for Grpc {
    type V = GrpcView;

    open spec fn view(&self) -> GrpcView {
        self.deep_view()
    }
}

/// A delegation to the root field `query` or `mutation`, with literal
/// arguments.
#[derive(Debug, PartialEq, Eq)]
pub struct Call {
    pub query: Option<String>,
    pub mutation: Option<String>,
    pub args: NameMap<String>,
}

pub struct CallView {
    pub query: Option<Seq<char>>,
    pub mutation: Option<Seq<char>>,
    pub args: Entries<Seq<char>>,
}

impl DeepView for Call {
    type V = CallView;

    open spec fn deep_view(&self) -> CallView {
        CallView {
            query: self.query.deep_view(),
            mutation: self.mutation.deep_view(),
            args: self.args@,
        }
    }
}

impl View for Call {
    type V = CallView;

    open spec fn view(&self) -> CallView {
        self.deep_view()
    }
}

/// A constant that the field resolves to.
#[derive(Clone, Debug, PartialEq, Eq)]
pub struct ConstField {
    pub data: Value,
}

pub struct ConstFieldView {
    pub data: ValueView,
}

impl DeepView for ConstField {
    type V = ConstFieldView;

    open spec fn deep_view(&self) -> ConstFieldView {
        ConstFieldView { data: self.data@ }
    }
}

impl View for ConstField {
    type V = ConstFieldView;

    open spec fn view(&self) -> ConstFieldView {
        self.deep_view()
    }
}

/// How a field gets its value. A field declares at most one.
#[derive(Debug, PartialEq, Eq)]
pub enum Resolver {
    Http(Http),
    GraphQL(GraphQLSource),
    Grpc(Grpc),
    Call(Call),
    Const(ConstField),
}

pub enum ResolverView {
    Http(HttpView),
    GraphQL(GraphQLSourceView),
    Grpc(GrpcView),
    Call(CallView),
    Const(ConstFieldView),
}

impl DeepView for Resolver {
    type V = ResolverView;

    open spec fn deep_view(&self) -> ResolverView {
        match self {
            Resolver::Http(http) => ResolverView::Http(http@),
            Resolver::GraphQL(graphql) => ResolverView::GraphQL(graphql@),
            Resolver::Grpc(grpc) => ResolverView::Grpc(grpc@),
            Resolver::Call(call) => ResolverView::Call(call@),
            Resolver::Const(constant) => ResolverView::Const(constant@),
        }
    }
}

impl View for Resolver {
    type V = ResolverView;

    open spec fn view(&self) -> ResolverView {
        self.deep_view()
    }
}

/// An argument of a field.
#[derive(Clone, Debug, PartialEq, Eq)]
pub struct Arg {
    pub type_of: String,
    pub list: bool,
    pub required: bool,
    pub doc: Option<String>,
    pub modify: Option<ModifyField>,
    pub default_value: Option<Value>,
}

pub struct ArgView {
    pub type_of: Seq<char>,
    pub list: bool,
    pub required: bool,
    pub doc: Option<Seq<char>>,
    pub modify: Option<ModifyFieldView>,
    pub default_value: Option<ValueView>,
}

impl DeepView for Arg {
    type V = ArgView;

    open spec fn deep_view(&self) -> ArgView {
        ArgView {
            type_of: self.type_of@,
            list: self.list,
            required: self.required,
            doc: self.doc.deep_view(),
            modify: self.modify.deep_view(),
            default_value: self.default_value.deep_view(),
        }
    }
}

impl View for Arg {
    type V = ArgView;

    open spec fn view(&self) -> ArgView {
        self.deep_view()
    }
}

/// A field of a type: its type, its arguments and how it is resolved.
#[derive(Debug, PartialEq, Eq)]
pub struct Field {
    pub type_of: String,
    pub list: bool,
    pub required: bool,
    pub list_type_required: bool,
    pub args: NameMap<Arg>,
    pub doc: Option<String>,
    pub modify: Option<ModifyField>,
    pub inline: Option<InlineType>,
    pub resolver: Option<Resolver>,
    pub unsafe_operation: Option<Unsafe>,
    pub group_by: Option<GroupBy>,
}

pub struct FieldView {
    pub type_of: Seq<char>,
    pub list: bool,
    pub required: bool,
    pub list_type_required: bool,
    pub args: Entries<ArgView>,
    pub doc: Option<Seq<char>>,
    pub modify: Option<ModifyFieldView>,
    pub inline: Option<InlineTypeView>,
    pub resolver: Option<ResolverView>,
    pub unsafe_operation: Option<UnsafeView>,
    pub group_by: Option<GroupByView>,
}

impl DeepView for Field {
    type V = FieldView;

    open spec fn deep_view(&self) -> FieldView {
        FieldView {
            type_of: self.type_of@,
            list: self.list,
            required: self.required,
            list_type_required: self.list_type_required,
            args: self.args@,
            doc: self.doc.deep_view(),
            modify: self.modify.deep_view(),
            inline: self.inline.deep_view(),
            resolver: self.resolver.deep_view(),
            unsafe_operation: self.unsafe_operation.deep_view(),
            group_by: self.group_by.deep_view(),
        }
    }
}

impl View for Field {
    type V = FieldView;

    open spec fn view(&self) -> FieldView {
        self.deep_view()
    }
}

/// One type of the graph. Of fields, variants and `scalar`, a type has one:
/// an object, interface or input type has fields, an enum has variants.
#[derive(Debug, PartialEq, Eq)]
pub struct Type {
    pub fields: NameMap<Field>,
    pub doc: Option<String>,
    pub interface: bool,
    pub implements: Vec<String>,
    pub variants: Option<Vec<String>>,
    pub scalar: bool,
}

pub struct TypeView {
    pub fields: Entries<FieldView>,
    pub doc: Option<Seq<char>>,
    pub interface: bool,
    pub implements: Seq<Seq<char>>,
    pub variants: Option<Seq<Seq<char>>>,
    pub scalar: bool,
}

impl DeepView for Type {
    type V = TypeView;

    open spec fn deep_view(&self) -> TypeView {
        TypeView {
            fields: self.fields@,
            doc: self.doc.deep_view(),
            interface: self.interface,
            implements: deep(self.implements@),
            variants: match self.variants {
                Some(variants) => Some(deep(variants@)),
                None => None,
            },
            scalar: self.scalar,
        }
    }
}

impl View for Type {
    type V = TypeView;

    open spec fn view(&self) -> TypeView {
        self.deep_view()
    }
}

impl TypeView {
    /// At most one of fields, variants and `scalar` is there.
    pub open spec fn well_formed(self) -> bool {
        &&& self.scalar ==> self.fields.len() == 0 && self.variants is None
        &&& self.variants is Some ==> self.fields.len() == 0
    }
}

/// A union: the names of its member types.
#[derive(Clone, Debug, PartialEq, Eq)]
pub struct Union {
    pub types: Vec<String>,
    pub doc: Option<String>,
}

pub struct UnionView {
    pub types: Seq<Seq<char>>,
    pub doc: Option<Seq<char>>,
}

impl DeepView for Union {
    type V = UnionView;

    open spec fn deep_view(&self) -> UnionView {
        UnionView { types: deep(self.types@), doc: self.doc.deep_view() }
    }
}

impl View for Union {
    type V = UnionView;

    open spec fn view(&self) -> UnionView {
        self.deep_view()
    }
}

/// The names of the root operation types.
#[derive(Clone, Debug, PartialEq, Eq)]
pub struct RootSchema {
    pub query: Option<String>,
    pub mutation: Option<String>,
    pub subscription: Option<String>,
}

pub struct RootSchemaView {
    pub query: Option<Seq<char>>,
    pub mutation: Option<Seq<char>>,
    pub subscription: Option<Seq<char>>,
}

impl DeepView for RootSchema {
    type V = RootSchemaView;

    open spec fn deep_view(&self) -> RootSchemaView {
        RootSchemaView {
            query: self.query.deep_view(),
            mutation: self.mutation.deep_view(),
            subscription: self.subscription.deep_view(),
        }
    }
}

impl View for RootSchema {
    type V = RootSchemaView;

    open spec fn view(&self) -> RootSchemaView {
        self.deep_view()
    }
}

/// Settings of the gateway's own server. A setting that is not given is left
/// to the server's default.
#[derive(Clone, Debug, PartialEq, Eq)]
pub struct Server {
    pub enable_graphiql: Option<bool>,
    pub enable_batch_requests: Option<bool>,
    pub enable_cache_control_header: Option<bool>,
    pub enable_query_validation: Option<bool>,
    pub hostname: Option<String>,
    pub port: Option<u16>,
}

pub struct ServerView {
    pub enable_graphiql: Option<bool>,
    pub enable_batch_requests: Option<bool>,
    pub enable_cache_control_header: Option<bool>,
    pub enable_query_validation: Option<bool>,
    pub hostname: Option<Seq<char>>,
    pub port: Option<u16>,
}

impl DeepView for Server {
    type V = ServerView;

    open spec fn deep_view(&self) -> ServerView {
        ServerView {
            enable_graphiql: self.enable_graphiql,
            enable_batch_requests: self.enable_batch_requests,
            enable_cache_control_header: self.enable_cache_control_header,
            enable_query_validation: self.enable_query_validation,
            hostname: self.hostname.deep_view(),
            port: self.port,
        }
    }
}

impl View for Server {
    type V = ServerView;

    open spec fn view(&self) -> ServerView {
        self.deep_view()
    }
}

/// `first` overridden by what `second` sets.
pub open spec fn merged_option<T>(first: Option<T>, second: Option<T>) -> Option<T> {
    if second is Some {
        second
    } else {
        first
    }
}

impl ServerView {
    /// The settings with nothing set.
    pub open spec fn unset() -> ServerView {
        ServerView {
            enable_graphiql: None,
            enable_batch_requests: None,
            enable_cache_control_header: None,
            enable_query_validation: None,
            hostname: None,
            port: None,
        }
    }

    /// These settings, overridden setting by setting by what `other` sets.
    pub open spec fn merged(self, other: ServerView) -> ServerView {
        ServerView {
            enable_graphiql: merged_option(self.enable_graphiql, other.enable_graphiql),
            enable_batch_requests: merged_option(
                self.enable_batch_requests,
                other.enable_batch_requests,
            ),
            enable_cache_control_header: merged_option(
                self.enable_cache_control_header,
                other.enable_cache_control_header,
            ),
            enable_query_validation: merged_option(
                self.enable_query_validation,
                other.enable_query_validation,
            ),
            hostname: merged_option(self.hostname, other.hostname),
            port: merged_option(self.port, other.port),
        }
    }
}

fn merge_flag(first: Option<bool>, second: Option<bool>) -> (r: Option<bool>)
    ensures
        r == merged_option(first, second),
{
    match second {
        Some(_) => second,
        None => first,
    }
}

fn merge_text(first: Option<String>, second: Option<String>) -> (r: Option<String>)
    ensures
        r.deep_view() == merged_option(first.deep_view(), second.deep_view()),
{
    match second {
        Some(_) => second,
        None => first,
    }
}

impl Default for Server {
    fn default() -> (r: Self)
        ensures
            r@ == ServerView::unset(),
    {
        Server {
            enable_graphiql: None,
            enable_batch_requests: None,
            enable_cache_control_header: None,
            enable_query_validation: None,
            hostname: None,
            port: None,
        }
    }
}

impl Server {
    /// These settings, overridden setting by setting by what `other` sets.
    pub fn merge_right(self, other: Server) -> (r: Server)
        ensures
            r@ == self@.merged(other@),
    {
        Server {
            enable_graphiql: merge_flag(self.enable_graphiql, other.enable_graphiql),
            enable_batch_requests: merge_flag(
                self.enable_batch_requests,
                other.enable_batch_requests,
            ),
            enable_cache_control_header: merge_flag(
                self.enable_cache_control_header,
                other.enable_cache_control_header,
            ),
            enable_query_validation: merge_flag(
                self.enable_query_validation,
                other.enable_query_validation,
            ),
            hostname: merge_text(self.hostname, other.hostname),
            port: match other.port {
                Some(_) => other.port,
                None => self.port,
            },
        }
    }
}

/// Settings that hold for every upstream call.
#[derive(Clone, Debug, PartialEq, Eq)]
pub struct Upstream {
    pub base_url: Option<String>,
    pub allowed_headers: Option<Vec<String>>,
}

pub struct UpstreamView {
    pub base_url: Option<Seq<char>>,
    pub allowed_headers: Option<Seq<Seq<char>>>,
}

impl DeepView for Upstream {
    type V = UpstreamView;

    open spec fn deep_view(&self) -> UpstreamView {
        UpstreamView {
            base_url: self.base_url.deep_view(),
            allowed_headers: match self.allowed_headers {
                Some(names) => Some(deep(names@)),
                None => None,
            },
        }
    }
}

impl View for Upstream {
    type V = UpstreamView;

    open spec fn view(&self) -> UpstreamView {
        self.deep_view()
    }
}

impl UpstreamView {
    /// The settings with nothing set.
    pub open spec fn unset() -> UpstreamView {
        UpstreamView { base_url: None, allowed_headers: None }
    }

    /// These settings, overridden setting by setting by what `other` sets.
    pub open spec fn merged(self, other: UpstreamView) -> UpstreamView {
        UpstreamView {
            base_url: merged_option(self.base_url, other.base_url),
            allowed_headers: merged_option(self.allowed_headers, other.allowed_headers),
        }
    }
}

impl Default for Upstream {
    fn default() -> (r: Self)
        ensures
            r@ == UpstreamView::unset(),
    {
        Upstream { base_url: None, allowed_headers: None }
    }
}

impl Upstream {
    /// These settings, overridden setting by setting by what `other` sets.
    pub fn merge_right(self, other: Upstream) -> (r: Upstream)
        ensures
            r@ == self@.merged(other@),
    {
        Upstream {
            base_url: merge_text(self.base_url, other.base_url),
            allowed_headers: match other.allowed_headers {
                Some(names) => Some(names),
                None => self.allowed_headers,
            },
        }
    }
}

/// The schema's types: the root operation names, the types by name, and the
/// unions, which have no fields of their own, beside them.
#[derive(Debug, PartialEq, Eq)]
pub struct GraphQL {
    pub schema: RootSchema,
    pub types: NameMap<Type>,
    pub unions: NameMap<Union>,
}

pub struct GraphQLView {
    pub schema: RootSchemaView,
    pub types: Entries<TypeView>,
    pub unions: Entries<UnionView>,
}

impl DeepView for GraphQL {
    type V = GraphQLView;

    open spec fn deep_view(&self) -> GraphQLView {
        GraphQLView { schema: self.schema@, types: self.types@, unions: self.unions@ }
    }
}

impl View for GraphQL {
    type V = GraphQLView;

    open spec fn view(&self) -> GraphQLView {
        self.deep_view()
    }
}

/// A configuration: the settings of the server and of the upstreams, the
/// type graph, and the schemas that are known of upstream GraphQL endpoints,
/// by base URL.
#[derive(Debug, PartialEq, Eq)]
pub struct Config {
    pub server: Server,
    pub upstream: Upstream,
    pub graphql: GraphQL,
    pub introspection_cache: NameMap<IntrospectionResult>,
}

pub struct ConfigView {
    pub server: ServerView,
    pub upstream: UpstreamView,
    pub graphql: GraphQLView,
    pub introspection_cache: Entries<IntrospectionResultView>,
}

impl DeepView for Config {
    type V = ConfigView;

    open spec fn deep_view(&self) -> ConfigView {
        ConfigView {
            server: self.server@,
            upstream: self.upstream@,
            graphql: self.graphql@,
            introspection_cache: self.introspection_cache@,
        }
    }
}

impl View for Config {
    type V = ConfigView;

    open spec fn view(&self) -> ConfigView {
        self.deep_view()
    }
}

impl Config {
    /// The type named `name`.
    pub fn find_type(&self, name: &str) -> (r: Option<&Type>)
        ensures
            r.deep_view() == crate::name_map::lookup(self@.graphql.types, name@),
    {
        self.graphql.types.get(name)
    }
}

} // verus!
