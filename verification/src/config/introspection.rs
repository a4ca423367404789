//! Filling in what is known of the upstream GraphQL endpoints.
//!
//! Every `graphql` resolver needs the schema of its endpoint. The schemas are
//! kept in the configuration's cache by base URL, so that an endpoint is asked
//! once however many fields use it. Asking is not done here: the walk over
//! the fields stops where a schema is missing and says which URL to fetch;
//! with the answer recorded, the walk is taken up again.

use vstd::prelude::*;
use vstd::string::StringExecFns;
use crate::config::{
    Config, ConfigView, Field, FieldView, GraphQL, GraphQLSource, GraphQLSourceView, GraphQLView,
    IntrospectionResult, IntrospectionResultView, Resolver, ResolverView, Type, TypeView,
};
use crate::model::deep;
use crate::name_map::{distinct_keys, has_key, keys_of, lookup, with_entry, Entries, NameMap};
use crate::text::{copy_pairs, copy_text, in_order, sort_texts};
use crate::valid::{deeply, failure, traced, CauseView, Outcome, Valid};

verus! {

/// What the walk needs before it can go past a field.
pub enum Need {
    /// Nothing: the schema is in the cache, or the field has no `graphql`
    /// resolver.
    Nothing,
    /// The schema of the endpoint at this base URL.
    Fetch(String),
    /// A base URL, which the resolver does not give.
    BaseUrl,
}

pub enum NeedView {
    Nothing,
    Fetch(Seq<char>),
    BaseUrl,
}

impl DeepView for Need {
    type V = NeedView;

    open spec fn deep_view(&self) -> NeedView {
        match self {
            Need::Nothing => NeedView::Nothing,
            Need::Fetch(url) => NeedView::Fetch(url@),
            Need::BaseUrl => NeedView::BaseUrl,
        }
    }
}

impl View for Need {
    type V = NeedView;

    open spec fn view(&self) -> NeedView {
        self.deep_view()
    }
}

/// Either the walk is done, or it waits for the schema of one endpoint.
pub enum IntrospectionStep<S, T> {
    /// Fetch the schema at this base URL, record it and go on from the state.
    Fetch(S, String),
    Done(Valid<T>),
}

/// What a `graphql` resolver needs.
pub open spec fn need_of_source(
    source: GraphQLSourceView,
    cache: Entries<IntrospectionResultView>,
) -> NeedView {
    match source.base_url {
        None => NeedView::BaseUrl,
        Some(url) => if has_key(cache, url) {
            NeedView::Nothing
        } else {
            NeedView::Fetch(url)
        },
    }
}

/// What a field needs.
pub open spec fn need_of_field(field: FieldView, cache: Entries<IntrospectionResultView>) -> NeedView {
    match field.resolver {
        Some(ResolverView::GraphQL(source)) => need_of_source(source, cache),
        _ => NeedView::Nothing,
    }
}

/// What the first of the named fields that needs anything needs.
pub open spec fn need_of_named_fields(
    names: Seq<Seq<char>>,
    fields: Entries<FieldView>,
    cache: Entries<IntrospectionResultView>,
) -> NeedView
    decreases names.len(),
{
    if names.len() == 0 {
        NeedView::Nothing
    } else {
        let need = match lookup(fields, names[0]) {
            Some(field) => need_of_field(field, cache),
            None => NeedView::Nothing,
        };
        match need {
            NeedView::Nothing => need_of_named_fields(names.drop_first(), fields, cache),
            need => need,
        }
    }
}

/// What the fields of a type need first: they are asked in the order of
/// their names.
pub open spec fn need_of_fields(
    fields: Entries<FieldView>,
    cache: Entries<IntrospectionResultView>,
) -> NeedView {
    need_of_named_fields(in_order(keys_of(fields)), fields, cache)
}

/// What the first of the named types that needs anything needs.
pub open spec fn need_of_named_types(
    names: Seq<Seq<char>>,
    types: Entries<TypeView>,
    cache: Entries<IntrospectionResultView>,
) -> NeedView
    decreases names.len(),
{
    if names.len() == 0 {
        NeedView::Nothing
    } else {
        let need = match lookup(types, names[0]) {
            Some(ty) => need_of_fields(ty.fields, cache),
            None => NeedView::Nothing,
        };
        match need {
            NeedView::Nothing => need_of_named_types(names.drop_first(), types, cache),
            need => need,
        }
    }
}

/// What the types need first: they are asked in the order of their names.
pub open spec fn need_of_types(
    types: Entries<TypeView>,
    cache: Entries<IntrospectionResultView>,
) -> NeedView {
    need_of_named_types(in_order(keys_of(types)), types, cache)
}

/// What the walk over a configuration needs first: the types in the order of
/// their names, and the fields of each in the order of theirs.
pub open spec fn need_of_config(config: ConfigView) -> NeedView {
    need_of_types(config.graphql.types, config.introspection_cache)
}

/// A `graphql` resolver with the schema that the cache holds for it.
pub open spec fn resolved_source(
    source: GraphQLSourceView,
    cache: Entries<IntrospectionResultView>,
) -> GraphQLSourceView {
    GraphQLSourceView {
        introspection: match source.base_url {
            Some(url) => lookup(cache, url),
            None => None,
        },
        ..source
    }
}

/// A field whose `graphql` resolver, where it has one that needs nothing,
/// holds its schema.
pub open spec fn resolved_field(field: FieldView, cache: Entries<IntrospectionResultView>) -> FieldView {
    match field.resolver {
        Some(ResolverView::GraphQL(source)) => if need_of_source(source, cache) is Nothing {
            FieldView {
                resolver: Some(ResolverView::GraphQL(resolved_source(source, cache))),
                ..field
            }
        } else {
            field
        },
        _ => field,
    }
}

/// The fields, each resolved.
pub open spec fn resolved_fields(
    fields: Entries<FieldView>,
    cache: Entries<IntrospectionResultView>,
) -> Entries<FieldView> {
    fields.map_values(|entry: (Seq<char>, FieldView)| (entry.0, resolved_field(entry.1, cache)))
}

/// A type with its fields resolved.
pub open spec fn resolved_type(ty: TypeView, cache: Entries<IntrospectionResultView>) -> TypeView {
    TypeView { fields: resolved_fields(ty.fields, cache), ..ty }
}

/// The types, each resolved.
pub open spec fn resolved_types(
    types: Entries<TypeView>,
    cache: Entries<IntrospectionResultView>,
) -> Entries<TypeView> {
    types.map_values(|entry: (Seq<char>, TypeView)| (entry.0, resolved_type(entry.1, cache)))
}

/// The configuration with the schema of every `graphql` resolver filled in
/// from the cache.
pub open spec fn resolved_config(config: ConfigView) -> ConfigView {
    ConfigView {
        graphql: GraphQLView {
            types: resolved_types(config.graphql.types, config.introspection_cache),
            ..config.graphql
        },
        ..config
    }
}

/// The failure of a `graphql` resolver without a base URL.
pub open spec fn no_base_url<A>() -> Outcome<A> {
    traced(failure("No base url found for graphql directive"@), "introspection"@)
}

fn source_need(source: &GraphQLSource, cache: &NameMap<IntrospectionResult>) -> (r: Need)
    ensures
        r@ == need_of_source(source@, cache@),
{
    match &source.base_url {
        None => Need::BaseUrl,
        Some(url) => if cache.contains_key(url.as_str()) {
            Need::Nothing
        } else {
            Need::Fetch(url.clone())
        },
    }
}

fn field_need(field: &Field, cache: &NameMap<IntrospectionResult>) -> (r: Need)
    ensures
        r@ == need_of_field(field@, cache@),
{
    match &field.resolver {
        Some(Resolver::GraphQL(source)) => source_need(source, cache),
        _ => Need::Nothing,
    }
}

fn fields_need(fields: &NameMap<Field>, cache: &NameMap<IntrospectionResult>) -> (r: Need)
    ensures
        r@ == need_of_fields(fields@, cache@),
{
    let names = sort_texts(&fields.keys());
    let ghost all = deep(names@);
    let mut i: usize = 0;
    proof {
        assert(all.skip(0) =~= all);
    }
    while i < names.len()
        invariant
            i <= names.len(),
            all == deep(names@),
            need_of_fields(fields@, cache@) == need_of_named_fields(
                all.skip(i as int),
                fields@,
                cache@,
            ),
        decreases names.len() - i,
    {
        proof {
            assert(all.skip(i as int)[0] == names[i as int]@);
            assert(all.skip(i as int).drop_first() =~= all.skip(i as int + 1));
        }
        match fields.get(names[i].as_str()) {
            Some(field) => match field_need(field, cache) {
                Need::Nothing => {},
                need => {
                    return need;
                },
            },
            None => {},
        }
        i += 1;
    }
    Need::Nothing
}

fn types_need(types: &NameMap<Type>, cache: &NameMap<IntrospectionResult>) -> (r: Need)
    ensures
        r@ == need_of_types(types@, cache@),
{
    let names = sort_texts(&types.keys());
    let ghost all = deep(names@);
    let mut i: usize = 0;
    proof {
        assert(all.skip(0) =~= all);
    }
    while i < names.len()
        invariant
            i <= names.len(),
            all == deep(names@),
            need_of_types(types@, cache@) == need_of_named_types(
                all.skip(i as int),
                types@,
                cache@,
            ),
        decreases names.len() - i,
    {
        proof {
            assert(all.skip(i as int)[0] == names[i as int]@);
            assert(all.skip(i as int).drop_first() =~= all.skip(i as int + 1));
        }
        match types.get(names[i].as_str()) {
            Some(ty) => match fields_need(&ty.fields, cache) {
                Need::Nothing => {},
                need => {
                    return need;
                },
            },
            None => {},
        }
        i += 1;
    }
    Need::Nothing
}

fn copy_introspection(found: Option<&IntrospectionResult>) -> (r: Option<IntrospectionResult>)
    ensures
        r.deep_view() == found.deep_view(),
{
    match found {
        Some(result) => Some(result.copy()),
        None => None,
    }
}

/// What is to be done for one `graphql` resolver: with its schema in the
/// cache, the resolver with that schema; without, the schema is to be
/// fetched; a resolver without a base URL fails.
pub fn update_introspection(
    graphqlsource: &GraphQLSource,
    introspection_cache: &NameMap<IntrospectionResult>,
) -> (r: IntrospectionStep<(), GraphQLSource>)
    ensures
        match need_of_source(graphqlsource@, introspection_cache@) {
            NeedView::Nothing => r matches IntrospectionStep::Done(updated) && deeply(updated@)
                == Ok::<GraphQLSourceView, Seq<CauseView>>(
                resolved_source(graphqlsource@, introspection_cache@),
            ),
            NeedView::Fetch(url) => r matches IntrospectionStep::Fetch(_, asked) && asked@ == url,
            NeedView::BaseUrl => r matches IntrospectionStep::Done(failed) && failed@
                == no_base_url::<GraphQLSource>(),
        },
{
    match source_need(graphqlsource, introspection_cache) {
        Need::Nothing => {
            let introspection = match &graphqlsource.base_url {
                Some(url) => copy_introspection(introspection_cache.get(url.as_str())),
                None => None,
            };
            IntrospectionStep::Done(
                Valid::succeed(
                    GraphQLSource {
                        name: graphqlsource.name.clone(),
                        args: copy_pairs(&graphqlsource.args),
                        base_url: copy_text(&graphqlsource.base_url),
                        headers: copy_pairs(&graphqlsource.headers),
                        batch: graphqlsource.batch,
                        introspection,
                    },
                ),
            )
        },
        Need::Fetch(url) => IntrospectionStep::Fetch((), url),
        Need::BaseUrl => IntrospectionStep::Done(
            Valid::fail(String::from_str("No base url found for graphql directive")).trace(
                "introspection",
            ),
        ),
    }
}

fn resolve_field(field: Field, cache: &NameMap<IntrospectionResult>) -> (r: Field)
    ensures
        r@ == resolved_field(field@, cache@),
{
    let Field {
        type_of,
        list,
        required,
        list_type_required,
        args,
        doc,
        modify,
        inline,
        resolver,
        unsafe_operation,
        group_by,
    } = field;
    let resolver = match resolver {
        Some(Resolver::GraphQL(source)) => match update_introspection(&source, cache) {
            IntrospectionStep::Done(updated) => match updated.to_result() {
                Ok(updated) => Some(Resolver::GraphQL(updated)),
                Err(_) => Some(Resolver::GraphQL(source)),
            },
            IntrospectionStep::Fetch(_, _) => Some(Resolver::GraphQL(source)),
        },
        other => other,
    };
    Field {
        type_of,
        list,
        required,
        list_type_required,
        args,
        doc,
        modify,
        inline,
        resolver,
        unsafe_operation,
        group_by,
    }
}

fn resolve_fields(fields: NameMap<Field>, cache: &NameMap<IntrospectionResult>) -> (r: NameMap<
    Field,
>)
    ensures
        r@ == resolved_fields(fields@, cache@),
{
    let ghost resolved = |field: FieldView| resolved_field(field, cache@);
    let transform = |field: Field| -> (r: Field)
        ensures
            r@ == resolved(field@),
        { resolve_field(field, cache) };
    proof {
        assert(fields@.map_values(|entry: (Seq<char>, FieldView)| (entry.0, resolved(entry.1)))
            =~= resolved_fields(fields@, cache@));
    }
    fields.map_each(transform, Ghost(resolved))
}

fn resolve_type(ty: Type, cache: &NameMap<IntrospectionResult>) -> (r: Type)
    ensures
        r@ == resolved_type(ty@, cache@),
{
    let Type { fields, doc, interface, implements, variants, scalar } = ty;
    Type { fields: resolve_fields(fields, cache), doc, interface, implements, variants, scalar }
}

fn resolve_types(types: NameMap<Type>, cache: &NameMap<IntrospectionResult>) -> (r: NameMap<Type>)
    ensures
        r@ == resolved_types(types@, cache@),
{
    let ghost resolved = |ty: TypeView| resolved_type(ty, cache@);
    let transform = |ty: Type| -> (r: Type)
        ensures
            r@ == resolved(ty@),
        { resolve_type(ty, cache) };
    proof {
        assert(types@.map_values(|entry: (Seq<char>, TypeView)| (entry.0, resolved(entry.1)))
            =~= resolved_types(types@, cache@));
    }
    types.map_each(transform, Ghost(resolved))
}

/// Walks over the `graphql` resolvers of the configuration, the types in the
/// order of their names and the fields of each in the order of theirs. Where the first thing that is needed is a
/// schema that the cache does not hold, the configuration comes back
/// unchanged with the URL to fetch; a resolver without a base URL fails; and
/// where nothing is needed, every resolver gets its schema from the cache.
pub fn update_introspection_results(config: Config) -> (r: IntrospectionStep<Config, Config>)
    ensures
        match need_of_config(config@) {
            NeedView::Nothing => r matches IntrospectionStep::Done(updated) && deeply(updated@)
                == Ok::<ConfigView, Seq<CauseView>>(resolved_config(config@)),
            NeedView::Fetch(url) => r matches IntrospectionStep::Fetch(state, asked) && state@
                == config@ && asked@ == url,
            NeedView::BaseUrl => r matches IntrospectionStep::Done(failed) && failed@
                == no_base_url::<Config>(),
        },
{
    match types_need(&config.graphql.types, &config.introspection_cache) {
        Need::Fetch(url) => IntrospectionStep::Fetch(config, url),
        Need::BaseUrl => IntrospectionStep::Done(
            Valid::fail(String::from_str("No base url found for graphql directive")).trace(
                "introspection",
            ),
        ),
        Need::Nothing => {
            let Config { server, upstream, graphql, introspection_cache } = config;
            let GraphQL { schema, types, unions } = graphql;
            let types = resolve_types(types, &introspection_cache);
            IntrospectionStep::Done(
                Valid::succeed(
                    Config {
                        server,
                        upstream,
                        graphql: GraphQL { schema, types, unions },
                        introspection_cache,
                    },
                ),
            )
        },
    }
}

/// The configuration after a fetch: a schema goes into the cache under its
/// base URL; a failed fetch is a failure.
pub open spec fn recorded(
    config: ConfigView,
    base_url: Seq<char>,
    fetched: Result<IntrospectionResultView, Seq<char>>,
) -> Outcome<ConfigView> {
    match fetched {
        Ok(result) => Ok(
            ConfigView {
                introspection_cache: with_entry(config.introspection_cache, base_url, result),
                ..config
            },
        ),
        Err(message) => traced(failure(message), "introspection"@),
    }
}

/// Takes the answer to a fetch: a schema is recorded in the cache; a failed
/// fetch fails the whole configuration with the fetch's message, traced as
/// the failures of introspection are.
pub fn record_introspection(
    config: Config,
    base_url: String,
    fetched: Result<IntrospectionResult, String>,
) -> (r: Valid<Config>)
    ensures
        deeply(r@) == recorded(
            config@,
            base_url@,
            match fetched {
                Ok(result) => Ok(result@),
                Err(message) => Err(message@),
            },
        ),
{
    match fetched {
        Ok(result) => {
            let mut config = config;
            config.introspection_cache.insert(base_url, result);
            Valid::succeed(config)
        },
        Err(message) => Valid::fail(message).trace("introspection"),
    }
}

/// A schema that the cache holds is not asked for among these fields.
pub proof fn lemma_fields_ask_for_unknown_only(
    names: Seq<Seq<char>>,
    fields: Entries<FieldView>,
    cache: Entries<IntrospectionResultView>,
)
    ensures
        need_of_named_fields(names, fields, cache) matches NeedView::Fetch(url) ==> !has_key(
            cache,
            url,
        ),
    decreases names.len(),
{
    if names.len() > 0 {
        lemma_fields_ask_for_unknown_only(names.drop_first(), fields, cache);
    }
}

/// A schema that the cache holds is not asked for among these types.
pub proof fn lemma_types_ask_for_unknown_only(
    names: Seq<Seq<char>>,
    types: Entries<TypeView>,
    cache: Entries<IntrospectionResultView>,
)
    ensures
        need_of_named_types(names, types, cache) matches NeedView::Fetch(url) ==> !has_key(
            cache,
            url,
        ),
    decreases names.len(),
{
    if names.len() > 0 {
        match lookup(types, names[0]) {
            Some(ty) => {
                lemma_fields_ask_for_unknown_only(in_order(keys_of(ty.fields)), ty.fields, cache);
            },
            None => {},
        }
        lemma_types_ask_for_unknown_only(names.drop_first(), types, cache);
    }
}

/// The walk asks only for a schema that the cache does not hold.
pub proof fn lemma_fetch_only_unknown(config: ConfigView)
    ensures
        need_of_config(config) matches NeedView::Fetch(url) ==> !has_key(
            config.introspection_cache,
            url,
        ),
{
    lemma_types_ask_for_unknown_only(
        in_order(keys_of(config.graphql.types)),
        config.graphql.types,
        config.introspection_cache,
    );
}

/// An endpoint is asked once: when its schema has been recorded, the walk
/// asks neither for it again nor for any schema that the cache held before,
/// however many fields use the same base URL.
pub proof fn lemma_recorded_is_not_fetched_again(
    config: ConfigView,
    base_url: Seq<char>,
    result: IntrospectionResultView,
    known: Seq<char>,
)
    requires
        distinct_keys(config.introspection_cache),
        known == base_url || has_key(config.introspection_cache, known),
    ensures
        recorded(config, base_url, Ok(result)) matches Ok(after) && has_key(
            after.introspection_cache,
            known,
        ) && need_of_config(after) != NeedView::Fetch(known),
{
    crate::name_map::lemma_with_entry(config.introspection_cache, base_url, result);
    let after = recorded(config, base_url, Ok(result))->Ok_0;
    if known != base_url {
        assert(lookup(after.introspection_cache, known) == lookup(
            config.introspection_cache,
            known,
        ));
    }
    assert(lookup(after.introspection_cache, known) is Some);
    lemma_fetch_only_unknown(after);
}

/// The base URLs that the walk asks for, in order, while every fetch is
/// answered by `answers` and recorded, for at most `rounds` fetches.
pub open spec fn fetches(
    config: ConfigView,
    answers: spec_fn(Seq<char>) -> IntrospectionResultView,
    rounds: nat,
) -> Seq<Seq<char>>
    decreases rounds,
{
    if rounds == 0 {
        Seq::empty()
    } else {
        match need_of_config(config) {
            NeedView::Fetch(url) => seq![url] + fetches(
                recorded(config, url, Ok(answers(url)))->Ok_0,
                answers,
                (rounds - 1) as nat,
            ),
            _ => Seq::empty(),
        }
    }
}

/// However long the walk goes on, no base URL is fetched twice, and none
/// that the cache held at the start is fetched at all.
pub proof fn lemma_no_url_is_fetched_twice(
    config: ConfigView,
    answers: spec_fn(Seq<char>) -> IntrospectionResultView,
    rounds: nat,
)
    requires
        distinct_keys(config.introspection_cache),
    ensures
        forall|i: int|
            0 <= i < fetches(config, answers, rounds).len() ==> !has_key(
                config.introspection_cache,
                #[trigger] fetches(config, answers, rounds)[i],
            ),
        forall|i: int, j: int|
            0 <= i < j < fetches(config, answers, rounds).len() ==> fetches(
                config,
                answers,
                rounds,
            )[i] != fetches(config, answers, rounds)[j],
    decreases rounds,
{
    if rounds > 0 {
        match need_of_config(config) {
            NeedView::Fetch(url) => {
                let answer = answers(url);
                let after = recorded(config, url, Ok(answer))->Ok_0;
                let rest = fetches(after, answers, (rounds - 1) as nat);
                let all = fetches(config, answers, rounds);
                crate::name_map::lemma_with_entry(config.introspection_cache, url, answer);
                lemma_fetch_only_unknown(config);
                lemma_no_url_is_fetched_twice(after, answers, (rounds - 1) as nat);
                assert(lookup(after.introspection_cache, url) is Some);
                assert forall|i: int| 0 <= i < all.len() implies !has_key(
                    config.introspection_cache,
                    #[trigger] all[i],
                ) by {
                    if i > 0 {
                        assert(all[i] == rest[i - 1]);
                        assert(!has_key(after.introspection_cache, rest[i - 1]));
                        if rest[i - 1] != url {
                            assert(lookup(after.introspection_cache, rest[i - 1]) == lookup(
                                config.introspection_cache,
                                rest[i - 1],
                            ));
                        }
                    }
                }
                assert forall|i: int, j: int| 0 <= i < j < all.len() implies all[i] != all[j] by {
                    assert(all[j] == rest[j - 1]);
                    assert(!has_key(after.introspection_cache, rest[j - 1]));
                    if i > 0 {
                        assert(all[i] == rest[i - 1]);
                    }
                }
            },
            _ => {},
        }
    }
}

/// The base URL of the `graphql` resolver of a field, where it has both.
pub open spec fn source_of(field: FieldView) -> Option<Seq<char>> {
    match field.resolver {
        Some(ResolverView::GraphQL(source)) => source.base_url,
        _ => None,
    }
}

/// Whether one of the fields has a `graphql` resolver with this base URL.
pub open spec fn fields_use(fields: Entries<FieldView>, url: Seq<char>) -> bool {
    exists|f: int| 0 <= f < fields.len() && #[trigger] source_of(fields[f].1) == Some(url)
}

/// Whether a field of one of the types has a `graphql` resolver with this
/// base URL.
pub open spec fn types_use(types: Entries<TypeView>, url: Seq<char>) -> bool {
    exists|t: int| 0 <= t < types.len() && fields_use((#[trigger] types[t]).1.fields, url)
}

/// The base URLs of the `graphql` resolvers of the configuration whose
/// schema the cache does not hold.
pub open spec fn unknown_base_urls(config: ConfigView) -> Set<Seq<char>> {
    Set::new(
        |url: Seq<char>|
            types_use(config.graphql.types, url) && !has_key(config.introspection_cache, url),
    )
}

/// Whether no name occurs twice among the types, among the fields of any
/// type, or in the cache, as the maps of a configuration have it.
pub open spec fn has_distinct_names(config: ConfigView) -> bool {
    &&& distinct_keys(config.graphql.types)
    &&& distinct_keys(config.introspection_cache)
    &&& forall|t: int|
        0 <= t < config.graphql.types.len() ==> distinct_keys(
            (#[trigger] config.graphql.types[t]).1.fields,
        )
}

/// The configuration when the walk has asked for at most `rounds` schemas
/// and each was answered by `answers` and recorded.
pub open spec fn after_fetches(
    config: ConfigView,
    answers: spec_fn(Seq<char>) -> IntrospectionResultView,
    rounds: nat,
) -> ConfigView
    decreases rounds,
{
    if rounds == 0 {
        config
    } else {
        match need_of_config(config) {
            NeedView::Fetch(url) => after_fetches(
                recorded(config, url, Ok(answers(url)))->Ok_0,
                answers,
                (rounds - 1) as nat,
            ),
            _ => config,
        }
    }
}

proof fn lemma_fields_fetch_what_is_used(
    names: Seq<Seq<char>>,
    fields: Entries<FieldView>,
    cache: Entries<IntrospectionResultView>,
)
    ensures
        need_of_named_fields(names, fields, cache) matches NeedView::Fetch(url) ==> fields_use(
            fields,
            url,
        ),
    decreases names.len(),
{
    if names.len() > 0 {
        lemma_fields_fetch_what_is_used(names.drop_first(), fields, cache);
        crate::name_map::lemma_position(fields, names[0]);
        match crate::name_map::position(fields, names[0]) {
            Some(p) => {
                assert(source_of(fields[p].1) == source_of(fields[p].1));
            },
            None => {},
        }
    }
}

proof fn lemma_types_fetch_what_is_used(
    names: Seq<Seq<char>>,
    types: Entries<TypeView>,
    cache: Entries<IntrospectionResultView>,
)
    ensures
        need_of_named_types(names, types, cache) matches NeedView::Fetch(url) ==> types_use(
            types,
            url,
        ),
    decreases names.len(),
{
    if names.len() > 0 {
        lemma_types_fetch_what_is_used(names.drop_first(), types, cache);
        crate::name_map::lemma_position(types, names[0]);
        match crate::name_map::position(types, names[0]) {
            Some(p) => {
                lemma_fields_fetch_what_is_used(
                    in_order(keys_of(types[p].1.fields)),
                    types[p].1.fields,
                    cache,
                );
                assert(types[p].1.fields == types[p].1.fields);
            },
            None => {},
        }
    }
}

proof fn lemma_named_fields_need_nothing(
    names: Seq<Seq<char>>,
    fields: Entries<FieldView>,
    cache: Entries<IntrospectionResultView>,
    f: int,
)
    requires
        need_of_named_fields(names, fields, cache) is Nothing,
        distinct_keys(fields),
        0 <= f < fields.len(),
        names.contains(fields[f].0),
    ensures
        need_of_field(fields[f].1, cache) is Nothing,
    decreases names.len(),
{
    if names.len() > 0 {
        if names[0] == fields[f].0 {
            crate::name_map::lemma_position(fields, names[0]);
        } else {
            let k = choose|k: int| 0 <= k < names.len() && names[k] == fields[f].0;
            assert(names.drop_first()[k - 1] == fields[f].0);
            lemma_named_fields_need_nothing(names.drop_first(), fields, cache, f);
        }
    }
}

proof fn lemma_named_types_need_nothing(
    names: Seq<Seq<char>>,
    types: Entries<TypeView>,
    cache: Entries<IntrospectionResultView>,
    t: int,
)
    requires
        need_of_named_types(names, types, cache) is Nothing,
        distinct_keys(types),
        0 <= t < types.len(),
        names.contains(types[t].0),
    ensures
        need_of_fields(types[t].1.fields, cache) is Nothing,
    decreases names.len(),
{
    if names.len() > 0 {
        if names[0] == types[t].0 {
            crate::name_map::lemma_position(types, names[0]);
        } else {
            let k = choose|k: int| 0 <= k < names.len() && names[k] == types[t].0;
            assert(names.drop_first()[k - 1] == types[t].0);
            lemma_named_types_need_nothing(names.drop_first(), types, cache, t);
        }
    }
}

/// The walk asks only for what a field uses, and where it needs nothing,
/// the cache holds the schema of every base URL that a field uses.
pub proof fn lemma_walk_covers_every_field(config: ConfigView)
    requires
        has_distinct_names(config),
    ensures
        need_of_config(config) matches NeedView::Fetch(url) ==> types_use(
            config.graphql.types,
            url,
        ) && !has_key(config.introspection_cache, url),
        need_of_config(config) is Nothing ==> unknown_base_urls(config) == Set::<
            Seq<char>,
        >::empty(),
{
    let types = config.graphql.types;
    let cache = config.introspection_cache;
    lemma_types_fetch_what_is_used(in_order(keys_of(types)), types, cache);
    lemma_fetch_only_unknown(config);
    if need_of_config(config) is Nothing {
        assert forall|url: Seq<char>| types_use(types, url) implies has_key(cache, url) by {
            let t = choose|t: int| 0 <= t < types.len() && fields_use((#[trigger] types[t]).1.fields, url);
            let fields = types[t].1.fields;
            let f = choose|f: int|
                0 <= f < fields.len() && #[trigger] source_of(fields[f].1) == Some(url);
            assert(keys_of(types)[t] == types[t].0);
            crate::text::lemma_in_order_holds(keys_of(types), t);
            lemma_named_types_need_nothing(in_order(keys_of(types)), types, cache, t);
            assert(keys_of(fields)[f] == fields[f].0);
            crate::text::lemma_in_order_holds(keys_of(fields), f);
            lemma_named_fields_need_nothing(in_order(keys_of(fields)), fields, cache, f);
        }
        assert(unknown_base_urls(config) =~= Set::<Seq<char>>::empty());
    }
}

/// The number of fetches is the number of base URLs in use whose schema the
/// cache did not hold: when the walk has come to its end with nothing left
/// to ask for, it has fetched exactly those, each once.
pub proof fn lemma_fetches_are_the_unknown_base_urls(
    config: ConfigView,
    answers: spec_fn(Seq<char>) -> IntrospectionResultView,
    rounds: nat,
)
    requires
        has_distinct_names(config),
        need_of_config(after_fetches(config, answers, rounds)) is Nothing,
    ensures
        fetches(config, answers, rounds).no_duplicates(),
        fetches(config, answers, rounds).to_set() == unknown_base_urls(config),
        fetches(config, answers, rounds).len() == unknown_base_urls(config).len(),
    decreases rounds,
{
    let all = fetches(config, answers, rounds);
    lemma_walk_covers_every_field(config);
    match need_of_config(config) {
        NeedView::Fetch(url) => {
            assert(rounds > 0);
            let answer = answers(url);
            let after = recorded(config, url, Ok(answer))->Ok_0;
            let rest = fetches(after, answers, (rounds - 1) as nat);
            crate::name_map::lemma_with_entry(config.introspection_cache, url, answer);
            assert(lookup(after.introspection_cache, url) is Some);
            lemma_fetches_are_the_unknown_base_urls(after, answers, (rounds - 1) as nat);
            assert forall|other: Seq<char>| other != url implies has_key(
                after.introspection_cache,
                other,
            ) == has_key(config.introspection_cache, other) by {
                assert(lookup(after.introspection_cache, other) == lookup(
                    config.introspection_cache,
                    other,
                ));
            }
            assert(unknown_base_urls(after) =~= unknown_base_urls(config).remove(url));
            assert(!rest.contains(url)) by {
                if rest.contains(url) {
                    assert(rest.to_set().contains(url));
                }
            }
            assert forall|i: int, j: int| 0 <= i < j < all.len() implies all[i] != all[j] by {
                assert(all[j] == rest[j - 1]);
                if i > 0 {
                    assert(all[i] == rest[i - 1]);
                }
            }
            assert(all.to_set() =~= unknown_base_urls(config)) by {
                assert forall|u: Seq<char>| all.to_set().contains(u) == unknown_base_urls(
                    config,
                ).contains(u) by {
                    if all.contains(u) {
                        let k = choose|k: int| 0 <= k < all.len() && all[k] == u;
                        if k > 0 {
                            assert(rest[k - 1] == u);
                            assert(rest.to_set().contains(u));
                        }
                    }
                    if unknown_base_urls(config).contains(u) {
                        if u == url {
                            assert(all[0] == u);
                        } else {
                            assert(rest.to_set().contains(u));
                            let k = choose|k: int| 0 <= k < rest.len() && rest[k] == u;
                            assert(all[k + 1] == u);
                        }
                    }
                }
            }
        },
        _ => {
            assert(all =~= Seq::<Seq<char>>::empty());
            assert(all.to_set() =~= Set::<Seq<char>>::empty());
        },
    }
    all.unique_seq_to_set();
}

} // verus!
