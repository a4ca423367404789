//! Lowering of a parsed schema document to the type graph.
//!
//! Every type, field and argument of the document is lowered on its own, and
//! the failures of all of them are reported together: a failure is traced
//! with the name of the argument, field or type that it was found in.

use vstd::prelude::*;
use vstd::string::StringExecFns;
use crate::ast::{
    BaseType, ConstDirective, ConstDirectiveView, EnumType, FieldDefinition, InputObjectType,
    InputValueDefinition, SchemaDefinition, ServiceDocument, TypeDefinition, TypeKind,
    TypeSystemDefinition, UnionType,
};
use crate::config::{
    Arg, ArgView, Config, ConfigView, Field, FieldView, GraphQL, GraphQLView, GroupBy, GroupByView,
    InlineType, InlineTypeView, IntrospectionResult, ModifyField, ModifyFieldView, Unsafe,
    UnsafeView, Resolver, ResolverView, RootSchema,
    RootSchemaView, Server, ServerView, Type, TypeView, Union, UnionView, Upstream, UpstreamView,
};
use crate::directive::{
    decode_call, decode_const, decode_graphql, decode_group_by, decode_grpc, decode_http,
    decode_inline, decode_modify, decode_server, decode_unsafe, decode_upstream, decoded_call,
    decoded_const, decoded_graphql, decoded_group_by, decoded_grpc, decoded_http, decoded_inline,
    decoded_modify, decoded_server, decoded_unsafe, decoded_upstream, find_directive, first_named,
};
use crate::json::Value;
use crate::model::{deep, lemma_deep_add};
use crate::name_map::{built_from, with_entry, Entries, NameMap};
use crate::text::{copy_text, copy_texts, same_text};
use crate::valid::{
    all_causes, causes_of, count_failed, deeply, each_deeply, failure, gather, lemma_each_deeply_push, lemma_gathered_deeply,
    outcomes_of, traced, zipped,
    Cause, CauseView, Outcome, Valid,
};

verus! {

/// The name of the type that `ty` is or lists; a list of lists has none.
pub open spec fn type_of_name(ty: crate::ast::Type) -> Seq<char> {
    match ty.base {
        BaseType::Named(name) => name@,
        BaseType::List(inner) => match inner.base {
            BaseType::Named(name) => name@,
            BaseType::List(_) => Seq::empty(),
        },
    }
}

/// Whether `ty` is a list whose items may not be null.
pub open spec fn list_items_required(ty: crate::ast::Type) -> bool {
    match ty.base {
        BaseType::Named(_) => false,
        BaseType::List(inner) => !inner.nullable,
    }
}

/// The name of the type that `type_` is or lists.
pub fn to_type_of(type_: &crate::ast::Type) -> (r: String)
    ensures
        r@ == type_of_name(*type_),
{
    match &type_.base {
        BaseType::Named(name) => name.clone(),
        BaseType::List(ty) => match &ty.base {
            BaseType::Named(name) => name.clone(),
            BaseType::List(_) => String::new(),
        },
    }
}

fn is_list(type_: &crate::ast::Type) -> (r: bool)
    ensures
        r == (type_.base is List),
{
    match &type_.base {
        BaseType::Named(_) => false,
        BaseType::List(_) => true,
    }
}

fn is_list_type_required(type_: &crate::ast::Type) -> (r: bool)
    ensures
        r == list_items_required(*type_),
{
    match &type_.base {
        BaseType::Named(_) => false,
        BaseType::List(ty) => !ty.nullable,
    }
}

/// The first `modify` directive, decoded.
pub open spec fn lowered_modify(directives: Seq<ConstDirective>) -> Outcome<
    Option<ModifyFieldView>,
> {
    match first_named(directives, "modify"@) {
        Some(directive) => match decoded_modify(directive@) {
            Ok(modify) => Ok(Some(modify)),
            Err(causes) => Err(causes),
        },
        None => Ok(None),
    }
}

/// Decodes the first `modify` directive, where there is one.
pub fn to_modify(directives: &Vec<ConstDirective>) -> (r: Valid<Option<ModifyField>>)
    ensures
        deeply(r@) == lowered_modify(directives@),
{
    match find_directive(directives, "modify") {
        Some(directive) => decode_modify(directive).some(),
        None => Valid::none(),
    }
}

/// The first `inline` directive, decoded.
pub open spec fn lowered_inline(directives: Seq<ConstDirective>) -> Outcome<Option<InlineTypeView>> {
    match first_named(directives, "inline"@) {
        Some(directive) => match decoded_inline(directive@) {
            Ok(inline) => Ok(Some(inline)),
            Err(causes) => Err(causes),
        },
        None => Ok(None),
    }
}

/// Decodes the first `inline` directive, where there is one.
pub fn to_inline(directives: &Vec<ConstDirective>) -> (r: Valid<Option<InlineType>>)
    ensures
        deeply(r@) == lowered_inline(directives@),
{
    match find_directive(directives, "inline") {
        Some(directive) => decode_inline(directive).some(),
        None => Valid::none(),
    }
}

/// The first `unsafe` directive, decoded.
pub open spec fn lowered_unsafe_operation(directives: Seq<ConstDirective>) -> Outcome<
    Option<UnsafeView>,
> {
    match first_named(directives, "unsafe"@) {
        Some(directive) => match decoded_unsafe(directive@) {
            Ok(operation) => Ok(Some(operation)),
            Err(causes) => Err(causes),
        },
        None => Ok(None),
    }
}

/// Decodes the first `unsafe` directive, where there is one.
pub fn to_unsafe_operation(directives: &Vec<ConstDirective>) -> (r: Valid<Option<Unsafe>>)
    ensures
        deeply(r@) == lowered_unsafe_operation(directives@),
{
    match find_directive(directives, "unsafe") {
        Some(directive) => decode_unsafe(directive).some(),
        None => Valid::none(),
    }
}

/// The first `groupBy` directive, decoded.
pub open spec fn lowered_batch(directives: Seq<ConstDirective>) -> Outcome<Option<GroupByView>> {
    match first_named(directives, "groupBy"@) {
        Some(directive) => match decoded_group_by(directive@) {
            Ok(group_by) => Ok(Some(group_by)),
            Err(causes) => Err(causes),
        },
        None => Ok(None),
    }
}

/// Decodes the first `groupBy` directive, where there is one.
pub fn to_batch(directives: &Vec<ConstDirective>) -> (r: Valid<Option<GroupBy>>)
    ensures
        deeply(r@) == lowered_batch(directives@),
{
    match find_directive(directives, "groupBy") {
        Some(directive) => decode_group_by(directive).some(),
        None => Valid::none(),
    }
}

/// Whether a directive of this name says how a field is resolved.
pub open spec fn is_resolver_name(name: Seq<char>) -> bool {
    name == "http"@ || name == "graphql"@ || name == "grpc"@ || name == "call"@ || name
        == "const"@
}

/// The resolver directive that counts: the last one written.
pub open spec fn last_resolver(directives: Seq<ConstDirective>) -> Option<ConstDirective>
    decreases directives.len(),
{
    if directives.len() == 0 {
        None
    } else if is_resolver_name(directives.last().name@) {
        Some(directives.last())
    } else {
        last_resolver(directives.drop_last())
    }
}

/// What a resolver directive decodes to, by its name.
pub open spec fn decoded_resolver(directive: ConstDirectiveView) -> Outcome<ResolverView> {
    if directive.name == "http"@ {
        match decoded_http(directive) {
            Ok(http) => Ok(ResolverView::Http(http)),
            Err(causes) => Err(causes),
        }
    } else if directive.name == "graphql"@ {
        match decoded_graphql(directive) {
            Ok(graphql) => Ok(ResolverView::GraphQL(graphql)),
            Err(causes) => Err(causes),
        }
    } else if directive.name == "grpc"@ {
        match decoded_grpc(directive) {
            Ok(grpc) => Ok(ResolverView::Grpc(grpc)),
            Err(causes) => Err(causes),
        }
    } else if directive.name == "call"@ {
        match decoded_call(directive) {
            Ok(call) => Ok(ResolverView::Call(call)),
            Err(causes) => Err(causes),
        }
    } else {
        match decoded_const(directive) {
            Ok(constant) => Ok(ResolverView::Const(constant)),
            Err(causes) => Err(causes),
        }
    }
}

/// The failures of every directive named `name`, in the order of the
/// directives.
pub open spec fn resolver_causes(directives: Seq<ConstDirective>, name: Seq<char>) -> Seq<
    CauseView,
>
    decreases directives.len(),
{
    if directives.len() == 0 {
        Seq::empty()
    } else if directives.last().name@ == name {
        resolver_causes(directives.drop_last(), name) + causes_of(
            decoded_resolver(directives.last()@),
        )
    } else {
        resolver_causes(directives.drop_last(), name)
    }
}

/// The failures of every resolver directive of a field: those of the `http`
/// directives first, then those of `graphql`, `grpc`, `call` and `const`.
pub open spec fn all_resolver_causes(directives: Seq<ConstDirective>) -> Seq<CauseView> {
    resolver_causes(directives, "http"@) + resolver_causes(directives, "graphql"@)
        + resolver_causes(directives, "grpc"@) + resolver_causes(directives, "call"@)
        + resolver_causes(directives, "const"@)
}

/// The resolver that the directives of a field declare. Every resolver
/// directive is decoded and the failures of all of them are reported; where
/// there is none, the field keeps the last resolver written.
pub open spec fn lowered_resolver(directives: Seq<ConstDirective>) -> Outcome<
    Option<ResolverView>,
> {
    if all_resolver_causes(directives).len() > 0 {
        Err(all_resolver_causes(directives))
    } else {
        match last_resolver(directives) {
            Some(directive) => match decoded_resolver(directive@) {
                Ok(resolver) => Ok(Some(resolver)),
                Err(causes) => Err(causes),
            },
            None => Ok(None),
        }
    }
}

fn resolver_name(name: &str) -> (r: bool)
    ensures
        r == is_resolver_name(name@),
{
    same_text(name, "http") || same_text(name, "graphql") || same_text(name, "grpc") || same_text(
        name,
        "call",
    ) || same_text(name, "const")
}

fn decode_resolver(directive: &ConstDirective) -> (r: Valid<Resolver>)
    ensures
        deeply(r@) == decoded_resolver(directive@),
{
    let name = directive.name.as_str();
    if same_text(name, "http") {
        match decode_http(directive).to_result() {
            Ok(http) => Valid::succeed(Resolver::Http(http)),
            Err(causes) => Valid::from_causes(causes),
        }
    } else if same_text(name, "graphql") {
        match decode_graphql(directive).to_result() {
            Ok(graphql) => Valid::succeed(Resolver::GraphQL(graphql)),
            Err(causes) => Valid::from_causes(causes),
        }
    } else if same_text(name, "grpc") {
        match decode_grpc(directive).to_result() {
            Ok(grpc) => Valid::succeed(Resolver::Grpc(grpc)),
            Err(causes) => Valid::from_causes(causes),
        }
    } else if same_text(name, "call") {
        match decode_call(directive).to_result() {
            Ok(call) => Valid::succeed(Resolver::Call(call)),
            Err(causes) => Valid::from_causes(causes),
        }
    } else {
        match decode_const(directive).to_result() {
            Ok(constant) => Valid::succeed(Resolver::Const(constant)),
            Err(causes) => Valid::from_causes(causes),
        }
    }
}

/// The failures of every directive named `name`.
fn failures_named(directives: &Vec<ConstDirective>, name: &str, causes: &mut Vec<Cause>)
    ensures
        deep(final(causes)@) == deep(old(causes)@) + resolver_causes(directives@, name@),
{
    let ghost before = deep(causes@);
    let mut i: usize = 0;
    proof {
        assert(deep(causes@) =~= before + resolver_causes(directives@.take(0), name@));
    }
    while i < directives.len()
        invariant
            i <= directives.len(),
            deep(causes@) == before + resolver_causes(directives@.take(i as int), name@),
        decreases directives.len() - i,
    {
        proof {
            assert(directives@.take(i as int + 1).drop_last() =~= directives@.take(i as int));
            assert(directives@.take(i as int + 1).last() == directives@[i as int]);
        }
        if same_text(directives[i].name.as_str(), name) {
            match decode_resolver(&directives[i]).to_result() {
                Ok(_) => {
                    proof {
                        assert(deep(causes@) =~= before + resolver_causes(
                            directives@.take(i as int + 1),
                            name@,
                        ));
                    }
                },
                Err(mut failed) => {
                    let ghost held = causes@;
                    proof {
                        lemma_deep_add(held, failed@);
                    }
                    causes.append(&mut failed);
                    proof {
                        assert(deep(causes@) =~= before + resolver_causes(
                            directives@.take(i as int + 1),
                            name@,
                        ));
                    }
                },
            }
        }
        i += 1;
    }
    proof {
        assert(directives@.take(directives.len() as int) =~= directives@);
    }
}

/// Decodes every resolver directive. The failures of all of them are
/// reported, by kind; where there is none, the last resolver written is the
/// field's.
pub fn to_resolver(directives: &Vec<ConstDirective>) -> (r: Valid<Option<Resolver>>)
    ensures
        deeply(r@) == lowered_resolver(directives@),
{
    let mut causes: Vec<Cause> = Vec::new();
    proof {
        assert(deep(causes@) =~= Seq::<CauseView>::empty());
    }
    failures_named(directives, "http", &mut causes);
    failures_named(directives, "graphql", &mut causes);
    failures_named(directives, "grpc", &mut causes);
    failures_named(directives, "call", &mut causes);
    failures_named(directives, "const", &mut causes);
    proof {
        assert(deep(causes@) =~= all_resolver_causes(directives@));
    }
    if causes.len() > 0 {
        return Valid::from_causes(causes);
    }
    let mut found: Option<&ConstDirective> = None;
    let mut i: usize = 0;
    while i < directives.len()
        invariant
            i <= directives.len(),
            match found {
                Some(directive) => last_resolver(directives@.take(i as int)) == Some(*directive),
                None => last_resolver(directives@.take(i as int)) is None,
            },
        decreases directives.len() - i,
    {
        proof {
            assert(directives@.take(i as int + 1).drop_last() =~= directives@.take(i as int));
            assert(directives@.take(i as int + 1).last() == directives@[i as int]);
        }
        if resolver_name(directives[i].name.as_str()) {
            found = Some(&directives[i]);
        }
        i += 1;
    }
    proof {
        assert(directives@.take(directives.len() as int) =~= directives@);
    }
    match found {
        Some(directive) => decode_resolver(directive).some(),
        None => Valid::none(),
    }
}

/// What an argument lowers to.
pub open spec fn lowered_arg(definition: InputValueDefinition) -> Outcome<ArgView> {
    match lowered_modify(definition.directives@) {
        Ok(modify) => Ok(
            ArgView {
                type_of: type_of_name(definition.ty),
                list: definition.ty.base is List,
                required: !definition.ty.nullable,
                doc: definition.description.deep_view(),
                modify,
                default_value: definition.default_value.deep_view(),
            },
        ),
        Err(causes) => Err(causes),
    }
}

fn copy_value(value: &Option<Value>) -> (r: Option<Value>)
    ensures
        r.deep_view() == value.deep_view(),
{
    match value {
        Some(v) => Some(v.copy()),
        None => None,
    }
}

/// Lowers an argument.
pub fn to_arg(input_value_definition: &InputValueDefinition) -> (r: Valid<Arg>)
    ensures
        deeply(r@) == lowered_arg(*input_value_definition),
{
    match to_modify(&input_value_definition.directives).to_result() {
        Ok(modify) => Valid::succeed(
            Arg {
                type_of: to_type_of(&input_value_definition.ty),
                list: is_list(&input_value_definition.ty),
                required: !input_value_definition.ty.nullable,
                doc: copy_text(&input_value_definition.description),
                modify,
                default_value: copy_value(&input_value_definition.default_value),
            },
        ),
        Err(causes) => Valid::from_causes(causes),
    }
}

/// An outcome under a name: a value becomes an item of that name, a failure
/// is traced with the name.
pub open spec fn named<T>(name: Seq<char>, outcome: Outcome<T>) -> Outcome<
    Option<(Seq<char>, T)>,
> {
    traced(
        match outcome {
            Ok(value) => Ok(Some((name, value))),
            Err(causes) => Err(causes),
        },
        name,
    )
}

fn name_result<V: DeepView>(name: &String, result: Valid<V>) -> (r: Valid<Option<(String, V)>>)
    ensures
        deeply(r@) == named(name@, deeply(result@)),
{
    match result.to_result() {
        Ok(value) => Valid::succeed(Some((name.clone(), value))),
        Err(causes) => Valid::from_causes(causes).trace(name.as_str()),
    }
}

/// Gathered items as a map, or the failures of all of them.
pub open spec fn gathered_map<T>(outcomes: Seq<Outcome<Option<(Seq<char>, T)>>>) -> Outcome<
    Entries<T>,
> {
    match gather(outcomes) {
        Ok(items) => Ok(built_from(items)),
        Err(causes) => Err(causes),
    }
}

fn gather_map<V: DeepView>(results: Vec<Valid<Option<(String, V)>>>) -> (r: Valid<NameMap<V>>)
    ensures
        deeply(r@) == gathered_map(each_deeply(outcomes_of(results@))),
{
    let ghost outcomes = outcomes_of(results@);
    let collected = Valid::collect(results);
    proof {
        lemma_gathered_deeply(outcomes, collected@);
    }
    match collected.to_result() {
        Ok(items) => Valid::succeed(NameMap::from_items(items)),
        Err(causes) => Valid::from_causes(causes),
    }
}

/// Lowers every item with `transform` and gathers what comes of it: the
/// map of all of them, or the failures of all that fail.
fn lower_each<T, V: DeepView, F: Fn(&T) -> Valid<Option<(String, V)>>>(
    items: &Vec<T>,
    transform: F,
    Ghost(lowered): Ghost<spec_fn(T) -> Outcome<Option<(Seq<char>, V::V)>>>,
) -> (r: Valid<NameMap<V>>)
    requires
        forall|i: int| 0 <= i < items.len() ==> call_requires(transform, (&#[trigger] items[i],)),
        forall|item: &T, result: Valid<Option<(String, V)>>|
            call_ensures(transform, (item,), result) ==> deeply(result@) == lowered(*item),
    ensures
        deeply(r@) == gathered_map(items@.map_values(lowered)),
{
    let ghost expected = items@.map_values(lowered);
    let mut results: Vec<Valid<Option<(String, V)>>> = Vec::new();
    let mut i: usize = 0;
    while i < items.len()
        invariant
            i <= items.len(),
            expected == items@.map_values(lowered),
            forall|k: int|
                0 <= k < items.len() ==> call_requires(transform, (&#[trigger] items[k],)),
            forall|item: &T, result: Valid<Option<(String, V)>>|
                call_ensures(transform, (item,), result) ==> deeply(result@) == lowered(*item),
            each_deeply(outcomes_of(results@)) =~= expected.take(i as int),
        decreases items.len() - i,
    {
        let ghost before = results@;
        let item = transform(&items[i]);
        results.push(item);
        proof {
            lemma_each_deeply_push(before, item);
            assert(expected.take(i as int + 1) =~= expected.take(i as int).push(
                expected[i as int],
            ));
        }
        i += 1;
    }
    proof {
        assert(expected.take(items.len() as int) =~= expected);
    }
    gather_map(results)
}

/// What the arguments of a field lower to.
pub open spec fn lowered_args(definitions: Seq<InputValueDefinition>) -> Outcome<Entries<ArgView>> {
    gathered_map(
        definitions.map_values(
            |definition: InputValueDefinition| named(definition.name@, lowered_arg(definition)),
        ),
    )
}

/// Lowers the arguments of a field; a failure is traced with the name of
/// its argument.
pub fn to_args(field_definition: &FieldDefinition) -> (r: Valid<NameMap<Arg>>)
    ensures
        deeply(r@) == lowered_args(field_definition.arguments@),
{
    let ghost lowered = |definition: InputValueDefinition|
        named(definition.name@, lowered_arg(definition));
    let transform = |definition: &InputValueDefinition| -> (item: Valid<Option<(String, Arg)>>)
        ensures
            deeply(item@) == lowered(*definition),
        { name_result(&definition.name, to_arg(definition)) };
    lower_each(&field_definition.arguments, transform, Ghost(lowered))
}

/// What a field or an input field lowers to, given its lowered arguments:
/// the failures of its arguments, its resolver directives, its `modify`, its
/// `inline`, its `unsafe` and its `groupBy` are reported together, in this
/// order.
pub open spec fn lowered_common_field(
    ty: crate::ast::Type,
    args: Outcome<Entries<ArgView>>,
    description: Option<String>,
    directives: Seq<ConstDirective>,
) -> Outcome<FieldView> {
    match zipped(
        zipped(
            zipped(
                zipped(zipped(args, lowered_resolver(directives)), lowered_modify(directives)),
                lowered_inline(directives),
            ),
            lowered_unsafe_operation(directives),
        ),
        lowered_batch(directives),
    ) {
        Ok((((((args, resolver), modify), inline), unsafe_operation), group_by)) => Ok(
            FieldView {
                type_of: type_of_name(ty),
                list: ty.base is List,
                required: !ty.nullable,
                list_type_required: list_items_required(ty),
                args,
                doc: description.deep_view(),
                modify,
                inline,
                resolver,
                unsafe_operation,
                group_by,
            },
        ),
        Err(causes) => Err(causes),
    }
}

/// Lowers what fields and input fields have in common.
pub fn to_common_field(
    type_: &crate::ast::Type,
    args: Valid<NameMap<Arg>>,
    description: &Option<String>,
    directives: &Vec<ConstDirective>,
) -> (r: Valid<Field>)
    ensures
        deeply(r@) == lowered_common_field(*type_, deeply(args@), *description, directives@),
{
    let combined = args.zip(to_resolver(directives)).zip(to_modify(directives)).zip(
        to_inline(directives),
    ).zip(to_unsafe_operation(directives)).zip(to_batch(directives));
    match combined.to_result() {
        Ok((((((args, resolver), modify), inline), unsafe_operation), group_by)) => Valid::succeed(
            Field {
                type_of: to_type_of(type_),
                list: is_list(type_),
                required: !type_.nullable,
                list_type_required: is_list_type_required(type_),
                args,
                doc: copy_text(description),
                modify,
                inline,
                resolver,
                unsafe_operation,
                group_by,
            },
        ),
        Err(causes) => Valid::from_causes(causes),
    }
}

/// What a field of an object or interface lowers to.
pub open spec fn lowered_field(definition: FieldDefinition) -> Outcome<FieldView> {
    lowered_common_field(
        definition.ty,
        lowered_args(definition.arguments@),
        definition.description,
        definition.directives@,
    )
}

/// Lowers a field of an object or interface.
pub fn to_field(field_definition: &FieldDefinition) -> (r: Valid<Field>)
    ensures
        deeply(r@) == lowered_field(*field_definition),
{
    to_common_field(
        &field_definition.ty,
        to_args(field_definition),
        &field_definition.description,
        &field_definition.directives,
    )
}

/// What a field of an input object lowers to: a field without arguments.
pub open spec fn lowered_input_field(definition: InputValueDefinition) -> Outcome<FieldView> {
    lowered_common_field(
        definition.ty,
        Ok(Seq::empty()),
        definition.description,
        definition.directives@,
    )
}

/// Lowers a field of an input object.
pub fn to_input_object_field(field_definition: &InputValueDefinition) -> (r: Valid<Field>)
    ensures
        deeply(r@) == lowered_input_field(*field_definition),
{
    to_common_field(
        &field_definition.ty,
        Valid::succeed(NameMap::new()),
        &field_definition.description,
        &field_definition.directives,
    )
}

/// What the fields of an object or interface lower to.
pub open spec fn lowered_fields(definitions: Seq<FieldDefinition>) -> Outcome<Entries<FieldView>> {
    gathered_map(
        definitions.map_values(
            |definition: FieldDefinition| named(definition.name@, lowered_field(definition)),
        ),
    )
}

/// Lowers the fields of an object or interface; a failure is traced with the
/// name of its field.
pub fn to_fields(fields: &Vec<FieldDefinition>) -> (r: Valid<NameMap<Field>>)
    ensures
        deeply(r@) == lowered_fields(fields@),
{
    let ghost lowered = |definition: FieldDefinition|
        named(definition.name@, lowered_field(definition));
    let transform = |definition: &FieldDefinition| -> (item: Valid<Option<(String, Field)>>)
        ensures
            deeply(item@) == lowered(*definition),
        { name_result(&definition.name, to_field(definition)) };
    lower_each(fields, transform, Ghost(lowered))
}

/// What the fields of an input object lower to.
pub open spec fn lowered_input_fields(definitions: Seq<InputValueDefinition>) -> Outcome<
    Entries<FieldView>,
> {
    gathered_map(
        definitions.map_values(
            |definition: InputValueDefinition|
                named(definition.name@, lowered_input_field(definition)),
        ),
    )
}

/// Lowers the fields of an input object; a failure is traced with the name
/// of its field.
pub fn to_input_object_fields(input_object_fields: &Vec<InputValueDefinition>) -> (r: Valid<
    NameMap<Field>,
>)
    ensures
        deeply(r@) == lowered_input_fields(input_object_fields@),
{
    let ghost lowered = |definition: InputValueDefinition|
        named(definition.name@, lowered_input_field(definition));
    let transform = |definition: &InputValueDefinition| -> (item: Valid<Option<(String, Field)>>)
        ensures
            deeply(item@) == lowered(*definition),
        { name_result(&definition.name, to_input_object_field(definition)) };
    lower_each(input_object_fields, transform, Ghost(lowered))
}

/// The type that a scalar lowers to.
pub open spec fn scalar_type() -> TypeView {
    TypeView {
        fields: Seq::empty(),
        doc: None,
        interface: false,
        implements: Seq::empty(),
        variants: None,
        scalar: true,
    }
}

/// The type of a scalar.
pub fn to_scalar_type() -> (r: Type)
    ensures
        r@ == scalar_type(),
{
    let implements: Vec<String> = Vec::new();
    proof {
        assert(deep(implements@) =~= Seq::<Seq<char>>::empty());
    }
    Type {
        fields: NameMap::new(),
        doc: None,
        interface: false,
        implements,
        variants: None,
        scalar: true,
    }
}

/// The type that an enum lowers to.
pub open spec fn lowered_enum(enum_type: EnumType) -> TypeView {
    TypeView {
        fields: Seq::empty(),
        doc: None,
        interface: false,
        implements: Seq::empty(),
        variants: Some(deep(enum_type.values@)),
        scalar: false,
    }
}

/// Lowers an enum.
pub fn to_enum(enum_type: &EnumType) -> (r: Type)
    ensures
        r@ == lowered_enum(*enum_type),
{
    let implements: Vec<String> = Vec::new();
    proof {
        assert(deep(implements@) =~= Seq::<Seq<char>>::empty());
    }
    Type {
        fields: NameMap::new(),
        doc: None,
        interface: false,
        implements,
        variants: Some(copy_texts(&enum_type.values)),
        scalar: false,
    }
}

/// The type that an object or an interface lowers to.
pub open spec fn lowered_object(
    fields: Seq<FieldDefinition>,
    description: Option<String>,
    interface: bool,
    implements: Seq<String>,
) -> Outcome<TypeView> {
    match lowered_fields(fields) {
        Ok(fields) => Ok(
            TypeView {
                fields,
                doc: description.deep_view(),
                interface,
                implements: deep(implements),
                variants: None,
                scalar: false,
            },
        ),
        Err(causes) => Err(causes),
    }
}

/// Lowers an object, or an interface where `interface` says so.
pub fn to_object_type(
    fields: &Vec<FieldDefinition>,
    description: &Option<String>,
    interface: bool,
    implements: &Vec<String>,
) -> (r: Valid<Type>)
    ensures
        deeply(r@) == lowered_object(fields@, *description, interface, implements@),
{
    match to_fields(fields).to_result() {
        Ok(fields) => Valid::succeed(
            Type {
                fields,
                doc: copy_text(description),
                interface,
                implements: copy_texts(implements),
                variants: None,
                scalar: false,
            },
        ),
        Err(causes) => Valid::from_causes(causes),
    }
}

/// The type that an input object lowers to.
pub open spec fn lowered_input_object(input_object_type: InputObjectType) -> Outcome<TypeView> {
    match lowered_input_fields(input_object_type.fields@) {
        Ok(fields) => Ok(
            TypeView {
                fields,
                doc: None,
                interface: false,
                implements: Seq::empty(),
                variants: None,
                scalar: false,
            },
        ),
        Err(causes) => Err(causes),
    }
}

/// Lowers an input object.
pub fn to_input_object(input_object_type: &InputObjectType) -> (r: Valid<Type>)
    ensures
        deeply(r@) == lowered_input_object(*input_object_type),
{
    match to_input_object_fields(&input_object_type.fields).to_result() {
        Ok(fields) => {
            let implements: Vec<String> = Vec::new();
            proof {
                assert(deep(implements@) =~= Seq::<Seq<char>>::empty());
            }
            Valid::succeed(
                Type {
                    fields,
                    doc: None,
                    interface: false,
                    implements,
                    variants: None,
                    scalar: false,
                },
            )
        },
        Err(causes) => Valid::from_causes(causes),
    }
}

/// What a type definition adds to the types of the graph, under its name. A
/// union adds nothing there: unions are kept beside the types.
pub open spec fn lowered_type(definition: TypeDefinition) -> Outcome<Option<(Seq<char>, TypeView)>> {
    match definition.kind {
        TypeKind::Object(object) => named(
            definition.name@,
            lowered_object(object.fields@, definition.description, false, object.implements@),
        ),
        TypeKind::Interface(interface) => named(
            definition.name@,
            lowered_object(interface.fields@, definition.description, true, interface.implements@),
        ),
        TypeKind::Enum(enum_type) => named(definition.name@, Ok(lowered_enum(enum_type))),
        TypeKind::InputObject(input_object) => named(
            definition.name@,
            lowered_input_object(input_object),
        ),
        TypeKind::Union(_) => Ok(None),
        TypeKind::Scalar => named(definition.name@, Ok(scalar_type())),
    }
}

fn to_type(type_definition: &TypeDefinition) -> (r: Valid<Option<(String, Type)>>)
    ensures
        deeply(r@) == lowered_type(*type_definition),
{
    match &type_definition.kind {
        TypeKind::Object(object_type) => name_result(
            &type_definition.name,
            to_object_type(
                &object_type.fields,
                &type_definition.description,
                false,
                &object_type.implements,
            ),
        ),
        TypeKind::Interface(interface_type) => name_result(
            &type_definition.name,
            to_object_type(
                &interface_type.fields,
                &type_definition.description,
                true,
                &interface_type.implements,
            ),
        ),
        TypeKind::Enum(enum_type) => name_result(
            &type_definition.name,
            Valid::succeed(to_enum(enum_type)),
        ),
        TypeKind::InputObject(input_object_type) => name_result(
            &type_definition.name,
            to_input_object(input_object_type),
        ),
        TypeKind::Union(_) => Valid::none(),
        TypeKind::Scalar => name_result(&type_definition.name, Valid::succeed(to_scalar_type())),
    }
}

/// The definitions behind a list of references.
pub open spec fn referred<T>(references: Seq<&T>) -> Seq<T> {
    references.map_values(|reference: &T| *reference)
}

/// What the type definitions lower to: the types of the graph by name.
pub open spec fn lowered_types(definitions: Seq<TypeDefinition>) -> Outcome<Entries<TypeView>> {
    gathered_map(definitions.map_values(|definition: TypeDefinition| lowered_type(definition)))
}

/// Lowers the type definitions to the types of the graph; a failure is
/// traced with the name of its type.
pub fn to_types(type_definitions: &Vec<&TypeDefinition>) -> (r: Valid<NameMap<Type>>)
    ensures
        deeply(r@) == lowered_types(referred(type_definitions@)),
{
    let ghost lowered = |definition: &TypeDefinition| lowered_type(*definition);
    let transform = |definition: &&TypeDefinition| -> (item: Valid<Option<(String, Type)>>)
        ensures
            deeply(item@) == lowered(*definition),
        { to_type(*definition) };
    proof {
        assert(type_definitions@.map_values(lowered) =~= referred(type_definitions@).map_values(
            |definition: TypeDefinition| lowered_type(definition),
        ));
    }
    lower_each(type_definitions, transform, Ghost(lowered))
}

/// What a union lowers to.
pub open spec fn lowered_union(union_type: UnionType, doc: Option<String>) -> UnionView {
    UnionView { types: deep(union_type.members@), doc: doc.deep_view() }
}

/// Lowers a union.
pub fn to_union(union_type: &UnionType, doc: &Option<String>) -> (r: Union)
    ensures
        r@ == lowered_union(*union_type, *doc),
{
    Union { types: copy_texts(&union_type.members), doc: copy_text(doc) }
}

/// The unions among the type definitions, by name.
pub open spec fn lowered_unions(definitions: Seq<TypeDefinition>) -> Entries<UnionView>
    decreases definitions.len(),
{
    if definitions.len() == 0 {
        Seq::empty()
    } else {
        match definitions.last().kind {
            TypeKind::Union(union_type) => with_entry(
                lowered_unions(definitions.drop_last()),
                definitions.last().name@,
                lowered_union(union_type, definitions.last().description),
            ),
            _ => lowered_unions(definitions.drop_last()),
        }
    }
}

/// Lowers the unions among the type definitions.
pub fn to_union_types(type_definitions: &Vec<&TypeDefinition>) -> (r: NameMap<Union>)
    ensures
        r@ == lowered_unions(referred(type_definitions@)),
{
    let ghost all = referred(type_definitions@);
    let mut unions: NameMap<Union> = NameMap::new();
    let mut i: usize = 0;
    while i < type_definitions.len()
        invariant
            i <= type_definitions.len(),
            all == referred(type_definitions@),
            unions@ == lowered_unions(all.take(i as int)),
        decreases type_definitions.len() - i,
    {
        let type_definition = type_definitions[i];
        proof {
            assert(all.take(i as int + 1).drop_last() =~= all.take(i as int));
            assert(all.take(i as int + 1).last() == *type_definition);
        }
        match &type_definition.kind {
            TypeKind::Union(union_type) => {
                let union = to_union(union_type, &type_definition.description);
                unions.insert(type_definition.name.clone(), union);
            },
            _ => {},
        }
        i += 1;
    }
    proof {
        assert(all.take(type_definitions.len() as int) =~= all);
    }
    unions
}

/// The settings that the `server` directives of the schema give together:
/// every one of them counts, and a later one overrides an earlier one setting
/// by setting.
pub open spec fn lowered_server(directives: Seq<ConstDirective>) -> Outcome<ServerView>
    decreases directives.len(),
{
    if directives.len() == 0 {
        Ok(ServerView::unset())
    } else if directives.last().name@ == "server"@ {
        match zipped(
            lowered_server(directives.drop_last()),
            decoded_server(directives.last()@),
        ) {
            Ok((earlier, later)) => Ok(earlier.merged(later)),
            Err(causes) => Err(causes),
        }
    } else {
        lowered_server(directives.drop_last())
    }
}

/// Decodes and merges the `server` directives of the schema.
pub fn server(schema_definition: &SchemaDefinition) -> (r: Valid<Server>)
    ensures
        deeply(r@) == lowered_server(schema_definition.directives@),
{
    let directives = &schema_definition.directives;
    let mut res: Valid<Server> = Valid::succeed(Server::default());
    let mut i: usize = 0;
    while i < directives.len()
        invariant
            i <= directives.len(),
            deeply(res@) == lowered_server(directives@.take(i as int)),
        decreases directives.len() - i,
    {
        proof {
            assert(directives@.take(i as int + 1).drop_last() =~= directives@.take(i as int));
            assert(directives@.take(i as int + 1).last() == directives@[i as int]);
        }
        if same_text(directives[i].name.as_str(), "server") {
            res = match res.zip(decode_server(&directives[i])).to_result() {
                Ok((earlier, later)) => Valid::succeed(earlier.merge_right(later)),
                Err(causes) => Valid::from_causes(causes),
            };
        }
        i += 1;
    }
    proof {
        assert(directives@.take(directives.len() as int) =~= directives@);
    }
    res
}

/// The settings that the `upstream` directives of the schema give together,
/// merged as those of `server` are.
pub open spec fn lowered_upstream(directives: Seq<ConstDirective>) -> Outcome<UpstreamView>
    decreases directives.len(),
{
    if directives.len() == 0 {
        Ok(UpstreamView::unset())
    } else if directives.last().name@ == "upstream"@ {
        match zipped(
            lowered_upstream(directives.drop_last()),
            decoded_upstream(directives.last()@),
        ) {
            Ok((earlier, later)) => Ok(earlier.merged(later)),
            Err(causes) => Err(causes),
        }
    } else {
        lowered_upstream(directives.drop_last())
    }
}

/// Decodes and merges the `upstream` directives of the schema.
pub fn upstream(schema_definition: &SchemaDefinition) -> (r: Valid<Upstream>)
    ensures
        deeply(r@) == lowered_upstream(schema_definition.directives@),
{
    let directives = &schema_definition.directives;
    let mut res: Valid<Upstream> = Valid::succeed(Upstream::default());
    let mut i: usize = 0;
    while i < directives.len()
        invariant
            i <= directives.len(),
            deeply(res@) == lowered_upstream(directives@.take(i as int)),
        decreases directives.len() - i,
    {
        proof {
            assert(directives@.take(i as int + 1).drop_last() =~= directives@.take(i as int));
            assert(directives@.take(i as int + 1).last() == directives@[i as int]);
        }
        if same_text(directives[i].name.as_str(), "upstream") {
            res = match res.zip(decode_upstream(&directives[i])).to_result() {
                Ok((earlier, later)) => Valid::succeed(earlier.merge_right(later)),
                Err(causes) => Valid::from_causes(causes),
            };
        }
        i += 1;
    }
    proof {
        assert(directives@.take(directives.len() as int) =~= directives@);
    }
    res
}

/// The names of the root operation types.
pub open spec fn lowered_root(schema_definition: SchemaDefinition) -> RootSchemaView {
    RootSchemaView {
        query: schema_definition.query.deep_view(),
        mutation: schema_definition.mutation.deep_view(),
        subscription: schema_definition.subscription.deep_view(),
    }
}

/// The names of the root operation types of the schema.
pub fn to_root_schema(schema_definition: &SchemaDefinition) -> (r: RootSchema)
    ensures
        r@ == lowered_root(*schema_definition),
{
    RootSchema {
        query: copy_text(&schema_definition.query),
        mutation: copy_text(&schema_definition.mutation),
        subscription: copy_text(&schema_definition.subscription),
    }
}

/// The first schema definition of the document.
pub open spec fn schema_of(definitions: Seq<TypeSystemDefinition>) -> Option<SchemaDefinition>
    decreases definitions.len(),
{
    if definitions.len() == 0 {
        None
    } else {
        match definitions[0] {
            TypeSystemDefinition::Schema(schema_definition) => Some(schema_definition),
            _ => schema_of(definitions.drop_first()),
        }
    }
}

/// The schema definition of the document; a document without one fails.
pub fn schema_definition(doc: &ServiceDocument) -> (r: Valid<&SchemaDefinition>)
    ensures
        match r@ {
            Ok(found) => schema_of(doc.definitions@) == Some(*found),
            Err(causes) => schema_of(doc.definitions@) is None && Err::<
                SchemaDefinition,
                Seq<CauseView>,
            >(causes) == traced(failure::<SchemaDefinition>("schema not found"@), "schema"@),
        },
{
    let definitions = &doc.definitions;
    let mut i: usize = 0;
    proof {
        assert(definitions@.skip(0) =~= definitions@);
    }
    while i < definitions.len()
        invariant
            i <= definitions.len(),
            definitions@ == doc.definitions@,
            schema_of(definitions@) == schema_of(definitions@.skip(i as int)),
        decreases definitions.len() - i,
    {
        proof {
            assert(definitions@.skip(i as int)[0] == definitions@[i as int]);
            assert(definitions@.skip(i as int).drop_first() =~= definitions@.skip(i as int + 1));
        }
        match &definitions[i] {
            TypeSystemDefinition::Schema(schema_definition) => {
                proof {
                    assert(definitions@.skip(i as int)[0] == TypeSystemDefinition::Schema(
                        *schema_definition,
                    ));
                    assert(schema_of(definitions@.skip(i as int)) == Some(*schema_definition));
                }
                return Valid::succeed(schema_definition);
            },
            _ => {},
        }
        i += 1;
    }
    Valid::fail(String::from_str("schema not found")).trace("schema")
}

/// The type definitions of the document, in order.
pub open spec fn type_definitions_of(definitions: Seq<TypeSystemDefinition>) -> Seq<TypeDefinition>
    decreases definitions.len(),
{
    if definitions.len() == 0 {
        Seq::empty()
    } else {
        match definitions.last() {
            TypeSystemDefinition::Type(type_definition) => type_definitions_of(
                definitions.drop_last(),
            ).push(type_definition),
            _ => type_definitions_of(definitions.drop_last()),
        }
    }
}

/// What the types of the document lower to.
pub open spec fn lowered_graphql(
    definitions: Seq<TypeSystemDefinition>,
    schema_definition: SchemaDefinition,
) -> Outcome<GraphQLView> {
    match lowered_types(type_definitions_of(definitions)) {
        Ok(types) => Ok(
            GraphQLView {
                schema: lowered_root(schema_definition),
                types,
                unions: lowered_unions(type_definitions_of(definitions)),
            },
        ),
        Err(causes) => Err(causes),
    }
}

/// Lowers the types of the document.
pub fn graphql(doc: &ServiceDocument, sd: &SchemaDefinition) -> (r: Valid<GraphQL>)
    ensures
        deeply(r@) == lowered_graphql(doc.definitions@, *sd),
{
    let definitions = &doc.definitions;
    let mut type_definitions: Vec<&TypeDefinition> = Vec::new();
    let mut i: usize = 0;
    while i < definitions.len()
        invariant
            i <= definitions.len(),
            referred(type_definitions@) =~= type_definitions_of(definitions@.take(i as int)),
        decreases definitions.len() - i,
    {
        proof {
            assert(definitions@.take(i as int + 1).drop_last() =~= definitions@.take(i as int));
            assert(definitions@.take(i as int + 1).last() == definitions@[i as int]);
        }
        match &definitions[i] {
            TypeSystemDefinition::Type(type_definition) => {
                type_definitions.push(type_definition);
            },
            _ => {},
        }
        i += 1;
    }
    proof {
        assert(definitions@.take(definitions.len() as int) =~= definitions@);
    }
    match to_types(&type_definitions).to_result() {
        Ok(types) => Valid::succeed(
            GraphQL {
                schema: to_root_schema(sd),
                types,
                unions: to_union_types(&type_definitions),
            },
        ),
        Err(causes) => Valid::from_causes(causes),
    }
}

/// What a document lowers to, before anything is known of its upstreams: the
/// server's and the upstreams' settings and the types, with the failures of
/// all three reported together. A document without a schema definition fails
/// at once.
pub open spec fn lowered_document(doc: ServiceDocument) -> Outcome<ConfigView> {
    match schema_of(doc.definitions@) {
        None => traced(failure("schema not found"@), "schema"@),
        Some(sd) => match zipped(
            zipped(lowered_server(sd.directives@), lowered_upstream(sd.directives@)),
            lowered_graphql(doc.definitions@, sd),
        ) {
            Ok(((server, upstream), graphql)) => Ok(
                ConfigView { server, upstream, graphql, introspection_cache: Seq::empty() },
            ),
            Err(causes) => Err(causes),
        },
    }
}

/// `outcome` with `cache`, where one is given, as its introspection cache.
pub open spec fn with_cache(
    outcome: Outcome<ConfigView>,
    cache: Option<Entries<crate::config::IntrospectionResultView>>,
) -> Outcome<ConfigView> {
    match outcome {
        Ok(config) => Ok(
            ConfigView {
                introspection_cache: match cache {
                    Some(entries) => entries,
                    None => Seq::empty(),
                },
                ..config
            },
        ),
        Err(causes) => Err(causes),
    }
}

/// Lowers a document to a configuration. The introspection cache is the one
/// that is handed in, or empty; the upstream schemas of the `graphql`
/// resolvers are filled in afterwards, step by step.
pub fn from_document(
    doc: &ServiceDocument,
    initialize_introspection_cache: Option<NameMap<IntrospectionResult>>,
) -> (r: Valid<Config>)
    ensures
        deeply(r@) == with_cache(lowered_document(*doc), initialize_introspection_cache.deep_view()),
{
    match schema_definition(doc).to_result() {
        Err(causes) => Valid::from_causes(causes),
        Ok(sd) => {
            let combined = server(sd).zip(upstream(sd)).zip(graphql(doc, sd));
            match combined.to_result() {
                Ok(((server, upstream), graphql)) => {
                    let introspection_cache = match initialize_introspection_cache {
                        Some(cache) => cache,
                        None => NameMap::new(),
                    };
                    Valid::succeed(Config { server, upstream, graphql, introspection_cache })
                },
                Err(causes) => Valid::from_causes(causes),
            }
        },
    }
}

/// Where no directive has the name, there are no failures under it.
proof fn lemma_no_causes_without_name(directives: Seq<ConstDirective>, name: Seq<char>)
    requires
        forall|k: int| 0 <= k < directives.len() ==> (#[trigger] directives[k]).name@ != name,
    ensures
        resolver_causes(directives, name) == Seq::<CauseView>::empty(),
    decreases directives.len(),
{
    if directives.len() > 0 {
        assert(directives.last() == directives[directives.len() - 1]);
        assert forall|k: int| 0 <= k < directives.len() - 1 implies (
        #[trigger] directives.drop_last()[k]).name@ != name by {
            assert(directives.drop_last()[k] == directives[k]);
        }
        lemma_no_causes_without_name(directives.drop_last(), name);
    }
}

/// The failures of a resolver directive stand among those of its name: the
/// failures under a name are as many as its directives hold together.
pub proof fn lemma_resolver_causes_hold(directives: Seq<ConstDirective>, index: int)
    requires
        0 <= index < directives.len(),
    ensures
        resolver_causes(directives, directives[index].name@).len() >= causes_of(
            decoded_resolver(directives[index]@),
        ).len(),
    decreases directives.len(),
{
    if index < directives.len() - 1 {
        assert(directives.drop_last()[index] == directives[index]);
        lemma_resolver_causes_hold(directives.drop_last(), index);
    }
}

/// No defect of a resolver directive is hidden by another directive: where
/// any resolver directive of a field fails, the resolver of the field fails,
/// with the failures of all of them.
pub proof fn lemma_every_resolver_defect_is_reported(directives: Seq<ConstDirective>, index: int)
    requires
        0 <= index < directives.len(),
        is_resolver_name(directives[index].name@),
        decoded_resolver(directives[index]@) matches Err(causes) && causes.len() > 0,
    ensures
        lowered_resolver(directives) == Err::<Option<ResolverView>, Seq<CauseView>>(
            all_resolver_causes(directives),
        ),
        all_resolver_causes(directives).len() >= causes_of(
            decoded_resolver(directives[index]@),
        ).len(),
{
    lemma_resolver_causes_hold(directives, index);
}

/// With one directive of the name, the failures under the name are its own.
proof fn lemma_causes_of_the_only(directives: Seq<ConstDirective>, name: Seq<char>, index: int)
    requires
        0 <= index < directives.len(),
        directives[index].name@ == name,
        forall|k: int|
            0 <= k < directives.len() && k != index ==> (#[trigger] directives[k]).name@ != name,
    ensures
        resolver_causes(directives, name) == causes_of(decoded_resolver(directives[index]@)),
    decreases directives.len(),
{
    let front = directives.drop_last();
    assert(directives.last() == directives[directives.len() - 1]);
    assert forall|k: int| 0 <= k < front.len() implies front[k] == directives[k] by {}
    if index == directives.len() - 1 {
        assert forall|k: int| 0 <= k < front.len() implies (#[trigger] front[k]).name@ != name by {
            assert(front[k] == directives[k]);
        }
        lemma_no_causes_without_name(front, name);
        assert(Seq::<CauseView>::empty() + causes_of(decoded_resolver(directives[index]@))
            =~= causes_of(decoded_resolver(directives[index]@)));
    } else {
        assert forall|k: int| 0 <= k < front.len() && k != index implies (
        #[trigger] front[k]).name@ != name by {
            assert(front[k] == directives[k]);
        }
        lemma_causes_of_the_only(front, name, index);
    }
}

/// A field with a malformed `http` directive and a malformed `graphql`
/// directive, and no other resolver directive, reports the defects of both,
/// those of `http` first, in whichever order the two are written.
pub proof fn lemma_http_and_graphql_defects(
    directives: Seq<ConstDirective>,
    http: int,
    graphql: int,
)
    requires
        0 <= http < directives.len(),
        0 <= graphql < directives.len(),
        directives[http].name@ == "http"@,
        directives[graphql].name@ == "graphql"@,
        forall|k: int|
            0 <= k < directives.len() && k != http && k != graphql ==> !is_resolver_name(
                (#[trigger] directives[k]).name@,
            ),
        decoded_http(directives[http]@) matches Err(causes) && causes.len() > 0,
        decoded_graphql(directives[graphql]@) matches Err(causes) && causes.len() > 0,
    ensures
        lowered_resolver(directives) == Err::<Option<ResolverView>, Seq<CauseView>>(
            causes_of(decoded_http(directives[http]@)) + causes_of(
                decoded_graphql(directives[graphql]@),
            ),
        ),
{
    reveal_strlit("http");
    reveal_strlit("graphql");
    reveal_strlit("grpc");
    reveal_strlit("call");
    reveal_strlit("const");
    assert("http"@ != "graphql"@) by {
        assert("http"@.len() != "graphql"@.len());
    }
    assert("http"@ != "grpc"@) by {
        assert("http"@[0] != "grpc"@[0]);
    }
    assert("http"@ != "call"@) by {
        assert("http"@[0] != "call"@[0]);
    }
    assert("http"@ != "const"@) by {
        assert("http"@.len() != "const"@.len());
    }
    assert("graphql"@ != "grpc"@) by {
        assert("graphql"@.len() != "grpc"@.len());
    }
    assert("graphql"@ != "call"@) by {
        assert("graphql"@.len() != "call"@.len());
    }
    assert("graphql"@ != "const"@) by {
        assert("graphql"@.len() != "const"@.len());
    }
    lemma_causes_of_the_only(directives, "http"@, http);
    lemma_causes_of_the_only(directives, "graphql"@, graphql);
    lemma_no_causes_without_name(directives, "grpc"@);
    lemma_no_causes_without_name(directives, "call"@);
    lemma_no_causes_without_name(directives, "const"@);
    assert(all_resolver_causes(directives) =~= causes_of(decoded_http(directives[http]@))
        + causes_of(decoded_graphql(directives[graphql]@)));
}

/// The same of the field as a whole: where its arguments and its other
/// directives are in order, a field with a malformed `http` and a malformed
/// `graphql` directive fails with the defects of both, those of `http` first.
pub proof fn lemma_field_reports_http_and_graphql_defects(
    ty: crate::ast::Type,
    args: Outcome<Entries<ArgView>>,
    description: Option<String>,
    directives: Seq<ConstDirective>,
    http: int,
    graphql: int,
)
    requires
        args is Ok,
        lowered_modify(directives) is Ok,
        lowered_inline(directives) is Ok,
        lowered_unsafe_operation(directives) is Ok,
        lowered_batch(directives) is Ok,
        0 <= http < directives.len(),
        0 <= graphql < directives.len(),
        directives[http].name@ == "http"@,
        directives[graphql].name@ == "graphql"@,
        forall|k: int|
            0 <= k < directives.len() && k != http && k != graphql ==> !is_resolver_name(
                (#[trigger] directives[k]).name@,
            ),
        decoded_http(directives[http]@) matches Err(causes) && causes.len() > 0,
        decoded_graphql(directives[graphql]@) matches Err(causes) && causes.len() > 0,
    ensures
        lowered_common_field(ty, args, description, directives) == Err::<
            FieldView,
            Seq<CauseView>,
        >(
            causes_of(decoded_http(directives[http]@)) + causes_of(
                decoded_graphql(directives[graphql]@),
            ),
        ),
{
    lemma_http_and_graphql_defects(directives, http, graphql);
}

/// Putting outcomes under names changes neither which of them fail nor how
/// many causes they hold.
proof fn lemma_named_keeps_count<T>(
    plain: Seq<Outcome<T>>,
    under: Seq<Outcome<Option<(Seq<char>, T)>>>,
    names: Seq<Seq<char>>,
)
    requires
        plain.len() == under.len(),
        plain.len() == names.len(),
        forall|i: int| 0 <= i < plain.len() ==> #[trigger] under[i] == named(names[i], plain[i]),
    ensures
        all_causes(under).len() == all_causes(plain).len(),
        count_failed(under) == count_failed(plain),
    decreases plain.len(),
{
    if plain.len() > 0 {
        let last = plain.len() - 1;
        lemma_named_keeps_count(plain.drop_last(), under.drop_last(), names.drop_last());
        assert(under[last] == named(names[last], plain[last]));
    }
}

/// Lowering the fields of a type reports every defect: it fails where any
/// field fails, and then with as many causes as the failing fields hold
/// together. With one defect in each of `n` fields, there are `n` causes.
pub proof fn lemma_fields_report_every_defect(definitions: Seq<FieldDefinition>)
    ensures
        ({
            let outcomes = definitions.map_values(
                |definition: FieldDefinition| lowered_field(definition),
            );
            &&& lowered_fields(definitions) is Err <==> count_failed(outcomes) > 0
            &&& lowered_fields(definitions) matches Err(causes) ==> causes.len() == all_causes(
                outcomes,
            ).len()
            &&& (forall|i: int|
                0 <= i < outcomes.len() && (#[trigger] outcomes[i]) is Err
                    ==> outcomes[i]->Err_0.len() == 1) ==> all_causes(outcomes).len()
                == count_failed(outcomes)
        }),
{
    let outcomes = definitions.map_values(|definition: FieldDefinition| lowered_field(definition));
    let under = definitions.map_values(
        |definition: FieldDefinition| named(definition.name@, lowered_field(definition)),
    );
    let names = definitions.map_values(|definition: FieldDefinition| definition.name@);
    lemma_named_keeps_count(outcomes, under, names);
    crate::valid::lemma_count_failed_zero(under);
    if forall|i: int|
        0 <= i < outcomes.len() && (#[trigger] outcomes[i]) is Err ==> outcomes[i]->Err_0.len()
            == 1 {
        crate::valid::lemma_all_causes_len(outcomes);
    }
}

/// Lowering the types of a document reports every defect: it fails where the
/// lowering of any type fails, and then with the causes of all of them, in
/// the order of the types.
pub proof fn lemma_types_report_every_defect(definitions: Seq<TypeDefinition>)
    ensures
        ({
            let outcomes = definitions.map_values(
                |definition: TypeDefinition| lowered_type(definition),
            );
            &&& lowered_types(definitions) is Err <==> count_failed(outcomes) > 0
            &&& lowered_types(definitions) matches Err(causes) ==> causes == all_causes(outcomes)
        }),
{
    let outcomes = definitions.map_values(|definition: TypeDefinition| lowered_type(definition));
    crate::valid::lemma_count_failed_zero(outcomes);
}

/// Every lowered type has at most one of fields, variants and `scalar`.
pub proof fn lemma_lowered_type_is_well_formed(definition: TypeDefinition)
    ensures
        lowered_type(definition) matches Ok(Some(item)) ==> item.1.well_formed(),
{
}

} // verus!
