//! Decoding of directives: from a named annotation with arguments to a typed
//! value, or to a failure that says which argument of which directive is
//! wrong. A directive that is not there is no error.

use vstd::prelude::*;
use vstd::string::StringExecFns;
use crate::ast::{ConstDirective, ConstDirectiveView};
use crate::json::{Value, ValueView};
use crate::model::{deep, lemma_deep_push};
use crate::config::{
    Call, CallView, ConstField, ConstFieldView, GraphQLSource, GraphQLSourceView, GroupBy,
    GroupByView, Grpc, GrpcView, Http, HttpView, InlineType, InlineTypeView, Method, ModifyField,
    ModifyFieldView, Server, ServerView, Unsafe, UnsafeView, Upstream, UpstreamView,
};
use crate::name_map::{lookup, Entries, NameMap};
use crate::text::same_text;
use crate::valid::{deeply, failure, traced, zipped, Outcome, Valid};

verus! {

/// The first directive named `name`.
pub open spec fn first_named(directives: Seq<ConstDirective>, name: Seq<char>) -> Option<
    ConstDirective,
>
    decreases directives.len(),
{
    if directives.len() == 0 {
        None
    } else if directives[0].name@ == name {
        Some(directives[0])
    } else {
        first_named(directives.drop_first(), name)
    }
}

/// The first directive named `name`.
pub fn find_directive<'a>(directives: &'a Vec<ConstDirective>, name: &str) -> (r: Option<
    &'a ConstDirective,
>)
    ensures
        match r {
            Some(directive) => first_named(directives@, name@) == Some(*directive),
            None => first_named(directives@, name@) is None,
        },
{
    let mut i: usize = 0;
    proof {
        assert(directives@.skip(0) =~= directives@);
    }
    while i < directives.len()
        invariant
            i <= directives.len(),
            first_named(directives@, name@) == first_named(directives@.skip(i as int), name@),
        decreases directives.len() - i,
    {
        proof {
            assert(directives@.skip(i as int)[0] == directives@[i as int]);
            assert(directives@.skip(i as int).drop_first() =~= directives@.skip(i as int + 1));
        }
        if same_text(directives[i].name.as_str(), name) {
            return Some(&directives[i]);
        }
        i += 1;
    }
    None
}

/// The value that `members` hold under `name`; the last one where the name
/// is written twice.
pub fn member<'a>(members: &'a Vec<(String, Value)>, name: &str) -> (r: Option<&'a Value>)
    ensures
        r.deep_view() == lookup(deep(members@), name@),
{
    let mut found: Option<&'a Value> = None;
    let ghost all = deep(members@);
    let mut i: usize = 0;
    while i < members.len()
        invariant
            i <= members.len(),
            all == deep(members@),
            found.deep_view() == lookup(all.take(i as int), name@),
        decreases members.len() - i,
    {
        proof {
            assert(all.take(i as int + 1).drop_last() =~= all.take(i as int));
            assert(all.take(i as int + 1).last() == all[i as int]);
            assert(all[i as int] == members@[i as int].deep_view());
            crate::name_map::lemma_position(all.take(i as int), name@);
        }
        if same_text(members[i].0.as_str(), name) {
            found = Some(&members[i].1);
        }
        i += 1;
    }
    proof {
        assert(all.take(members.len() as int) =~= all);
    }
    found
}

/// The value that `directive` gives for the argument `name`.
pub fn argument<'a>(directive: &'a ConstDirective, name: &str) -> (r: Option<&'a Value>)
    ensures
        r.deep_view() == lookup(directive@.arguments, name@),
{
    member(&directive.arguments, name)
}

/// The failure of one argument: the message, traced with the argument's name.
pub open spec fn argument_failure<A>(message: Seq<char>, name: Seq<char>) -> Outcome<A> {
    traced(failure(message), name)
}

fn argument_error<A>(message: &str, name: &str) -> (r: Valid<A>)
    ensures
        r@ == argument_failure::<A>(message@, name@),
{
    Valid::fail(String::from_str(message)).trace(name)
}

/// A text that must be there.
pub open spec fn arg_text(arguments: Entries<ValueView>, name: Seq<char>) -> Outcome<Seq<char>> {
    match lookup(arguments, name) {
        Some(ValueView::String(text)) => Ok(text),
        Some(_) => argument_failure("expected a string"@, name),
        None => argument_failure("expected a value"@, name),
    }
}

/// A text that may be left out or null.
pub open spec fn arg_optional_text(arguments: Entries<ValueView>, name: Seq<char>) -> Outcome<
    Option<Seq<char>>,
> {
    match lookup(arguments, name) {
        Some(ValueView::String(text)) => Ok(Some(text)),
        Some(ValueView::Null) => Ok(None),
        Some(_) => argument_failure("expected a string"@, name),
        None => Ok(None),
    }
}

/// A boolean that may be left out or null.
pub open spec fn arg_optional_bool(arguments: Entries<ValueView>, name: Seq<char>) -> Outcome<
    Option<bool>,
> {
    match lookup(arguments, name) {
        Some(ValueView::Bool(flag)) => Ok(Some(flag)),
        Some(ValueView::Null) => Ok(None),
        Some(_) => argument_failure("expected a boolean"@, name),
        None => Ok(None),
    }
}

/// A boolean that is false where it is left out.
pub open spec fn arg_flag(arguments: Entries<ValueView>, name: Seq<char>) -> Outcome<bool> {
    match arg_optional_bool(arguments, name) {
        Ok(Some(flag)) => Ok(flag),
        Ok(None) => Ok(false),
        Err(causes) => Err(causes),
    }
}

/// Any value, which must be there.
pub open spec fn arg_value(arguments: Entries<ValueView>, name: Seq<char>) -> Outcome<ValueView> {
    match lookup(arguments, name) {
        Some(value) => Ok(value),
        None => argument_failure("expected a value"@, name),
    }
}

/// A port number that may be left out or null.
pub open spec fn arg_port(arguments: Entries<ValueView>, name: Seq<char>) -> Outcome<Option<u16>> {
    match lookup(arguments, name) {
        Some(ValueView::Int(n)) => if 0 <= n <= 65535 {
            Ok(Some(n as u16))
        } else {
            argument_failure("expected a port number"@, name)
        },
        Some(ValueView::Null) => Ok(None),
        Some(_) => argument_failure("expected a port number"@, name),
        None => Ok(None),
    }
}

/// Reads the argument `name` as a text that must be there.
pub fn required_text(directive: &ConstDirective, name: &str) -> (r: Valid<String>)
    ensures
        deeply(r@) == arg_text(directive@.arguments, name@),
{
    match argument(directive, name) {
        Some(Value::String(text)) => Valid::succeed(text.clone()),
        Some(_) => argument_error("expected a string", name),
        None => argument_error("expected a value", name),
    }
}

/// Reads the argument `name` as a text that may be left out.
pub fn optional_text(directive: &ConstDirective, name: &str) -> (r: Valid<Option<String>>)
    ensures
        deeply(r@) == arg_optional_text(directive@.arguments, name@),
{
    match argument(directive, name) {
        Some(Value::String(text)) => Valid::succeed(Some(text.clone())),
        Some(Value::Null) => Valid::succeed(None),
        Some(_) => argument_error("expected a string", name),
        None => Valid::succeed(None),
    }
}

/// Reads the argument `name` as a boolean that may be left out.
pub fn optional_bool(directive: &ConstDirective, name: &str) -> (r: Valid<Option<bool>>)
    ensures
        deeply(r@) == arg_optional_bool(directive@.arguments, name@),
{
    match argument(directive, name) {
        Some(Value::Bool(flag)) => Valid::succeed(Some(*flag)),
        Some(Value::Null) => Valid::succeed(None),
        Some(_) => argument_error("expected a boolean", name),
        None => Valid::succeed(None),
    }
}

/// Reads the argument `name` as a boolean that is false where it is left out.
pub fn flag(directive: &ConstDirective, name: &str) -> (r: Valid<bool>)
    ensures
        deeply(r@) == arg_flag(directive@.arguments, name@),
{
    match optional_bool(directive, name).to_result() {
        Ok(Some(flag)) => Valid::succeed(flag),
        Ok(None) => Valid::succeed(false),
        Err(causes) => Valid::from_causes(causes),
    }
}

/// Reads the argument `name` as it is; it must be there.
pub fn required_value(directive: &ConstDirective, name: &str) -> (r: Valid<Value>)
    ensures
        deeply(r@) == arg_value(directive@.arguments, name@),
{
    match argument(directive, name) {
        Some(value) => Valid::succeed(value.copy()),
        None => argument_error("expected a value", name),
    }
}

/// Reads the argument `name` as a port number that may be left out.
pub fn port(directive: &ConstDirective, name: &str) -> (r: Valid<Option<u16>>)
    ensures
        deeply(r@) == arg_port(directive@.arguments, name@),
{
    match argument(directive, name) {
        Some(Value::Int(n)) => {
            if 0 <= *n && *n <= 65535 {
                Valid::succeed(Some(*n as u16))
            } else {
                argument_error("expected a port number", name)
            }
        },
        Some(Value::Null) => Valid::succeed(None),
        Some(_) => argument_error("expected a port number", name),
        None => Valid::succeed(None),
    }
}

/// Whether every item is a text.
pub open spec fn all_texts(items: Seq<ValueView>) -> bool {
    forall|i: int| 0 <= i < items.len() ==> (#[trigger] items[i]) is String
}

/// The texts that the items hold.
pub open spec fn texts_of(items: Seq<ValueView>) -> Seq<Seq<char>> {
    items.map_values(|item: ValueView| item->String_0)
}

/// A list of texts that may be left out or null.
pub open spec fn arg_optional_texts(arguments: Entries<ValueView>, name: Seq<char>) -> Outcome<
    Option<Seq<Seq<char>>>,
> {
    match lookup(arguments, name) {
        Some(ValueView::List(items)) => if all_texts(items) {
            Ok(Some(texts_of(items)))
        } else {
            argument_failure("expected a list of strings"@, name)
        },
        Some(ValueView::Null) => Ok(None),
        Some(_) => argument_failure("expected a list of strings"@, name),
        None => Ok(None),
    }
}

/// A list of texts that is empty where it is left out.
pub open spec fn arg_texts(arguments: Entries<ValueView>, name: Seq<char>) -> Outcome<
    Seq<Seq<char>>,
> {
    match arg_optional_texts(arguments, name) {
        Ok(Some(texts)) => Ok(texts),
        Ok(None) => Ok(Seq::empty()),
        Err(causes) => Err(causes),
    }
}

/// Whether a value is an object that gives a text for `key` and for `value`.
pub open spec fn is_pair(item: ValueView) -> bool {
    match item {
        ValueView::Object(members) => lookup(members, "key"@) matches Some(ValueView::String(_))
            && lookup(members, "value"@) matches Some(ValueView::String(_)),
        _ => false,
    }
}

/// The key and the value of such an object.
pub open spec fn pair_of(item: ValueView) -> (Seq<char>, Seq<char>) {
    (
        lookup(item->Object_0, "key"@)->0->String_0,
        lookup(item->Object_0, "value"@)->0->String_0,
    )
}

/// Whether every item is an object of a key and a value.
pub open spec fn all_pairs(items: Seq<ValueView>) -> bool {
    forall|i: int| 0 <= i < items.len() ==> is_pair(#[trigger] items[i])
}

/// The key and the value of every item.
pub open spec fn pairs_of(items: Seq<ValueView>) -> Seq<(Seq<char>, Seq<char>)> {
    items.map_values(|item: ValueView| pair_of(item))
}

/// A list of `{key, value}` objects that is empty where it is left out.
pub open spec fn arg_pairs(arguments: Entries<ValueView>, name: Seq<char>) -> Outcome<
    Seq<(Seq<char>, Seq<char>)>,
> {
    match lookup(arguments, name) {
        Some(ValueView::List(items)) => if all_pairs(items) {
            Ok(pairs_of(items))
        } else {
            argument_failure("expected a list of key and value"@, name)
        },
        Some(ValueView::Null) => Ok(Seq::empty()),
        Some(_) => argument_failure("expected a list of key and value"@, name),
        None => Ok(Seq::empty()),
    }
}

/// Whether the value of every member is a text.
pub open spec fn all_text_members(members: Entries<ValueView>) -> bool {
    forall|i: int| 0 <= i < members.len() ==> (#[trigger] members[i]).1 is String
}

/// The members as a map of texts: a name that is written twice keeps its
/// first place and its last value.
pub open spec fn text_entries(members: Entries<ValueView>) -> Entries<Seq<char>>
    decreases members.len(),
{
    if members.len() == 0 {
        Seq::empty()
    } else {
        crate::name_map::with_entry(
            text_entries(members.drop_last()),
            members.last().0,
            members.last().1->String_0,
        )
    }
}

/// An object whose members are texts; empty where it is left out.
pub open spec fn arg_text_map(arguments: Entries<ValueView>, name: Seq<char>) -> Outcome<
    Entries<Seq<char>>,
> {
    match lookup(arguments, name) {
        Some(ValueView::Object(members)) => if all_text_members(members) {
            Ok(text_entries(members))
        } else {
            argument_failure("expected an object of strings"@, name)
        },
        Some(ValueView::Null) => Ok(Seq::empty()),
        Some(_) => argument_failure("expected an object of strings"@, name),
        None => Ok(Seq::empty()),
    }
}

/// The HTTP method that a text names.
pub open spec fn method_of(text: Seq<char>) -> Option<Method> {
    if text == "GET"@ {
        Some(Method::Get)
    } else if text == "POST"@ {
        Some(Method::Post)
    } else if text == "PUT"@ {
        Some(Method::Put)
    } else if text == "PATCH"@ {
        Some(Method::Patch)
    } else if text == "DELETE"@ {
        Some(Method::Delete)
    } else if text == "HEAD"@ {
        Some(Method::Head)
    } else if text == "OPTIONS"@ {
        Some(Method::Options)
    } else if text == "CONNECT"@ {
        Some(Method::Connect)
    } else if text == "TRACE"@ {
        Some(Method::Trace)
    } else {
        None
    }
}

/// An HTTP method by its name; `GET` where it is left out.
pub open spec fn arg_method(arguments: Entries<ValueView>, name: Seq<char>) -> Outcome<Method> {
    match lookup(arguments, name) {
        Some(ValueView::String(text)) => match method_of(text) {
            Some(method) => Ok(method),
            None => argument_failure("expected an HTTP method"@, name),
        },
        Some(ValueView::Null) => Ok(Method::Get),
        Some(_) => argument_failure("expected an HTTP method"@, name),
        None => Ok(Method::Get),
    }
}

fn texts_from(items: &Vec<Value>) -> (r: Option<Vec<String>>)
    ensures
        match r {
            Some(texts) => all_texts(deep(items@)) && deep(texts@) == texts_of(deep(items@)),
            None => !all_texts(deep(items@)),
        },
{
    let mut out: Vec<String> = Vec::new();
    let ghost all = deep(items@);
    let mut i: usize = 0;
    while i < items.len()
        invariant
            i <= items.len(),
            all == deep(items@),
            all_texts(all.take(i as int)),
            deep(out@) == texts_of(all.take(i as int)),
        decreases items.len() - i,
    {
        let ghost before = out@;
        match &items[i] {
            Value::String(text) => {
                let copy = text.clone();
                out.push(copy);
                proof {
                    lemma_deep_push(before, copy);
                    assert(all[i as int] == items@[i as int].deep_view());
                    assert(deep(out@) =~= texts_of(all.take(i as int + 1)));
                    assert forall|k: int| 0 <= k < i + 1 implies (#[trigger] all.take(
                        i as int + 1,
                    )[k]) is String by {
                        if k < i {
                            assert(all.take(i as int)[k] is String);
                        }
                    }
                }
            },
            _ => {
                proof {
                    assert(all[i as int] == items@[i as int].deep_view());
                    assert(!(all[i as int] is String));
                }
                return None;
            },
        }
        i += 1;
    }
    proof {
        assert(all.take(items.len() as int) =~= all);
    }
    Some(out)
}

/// Reads the argument `name` as a list of texts that may be left out.
pub fn optional_texts(directive: &ConstDirective, name: &str) -> (r: Valid<Option<Vec<String>>>)
    ensures
        match r@ {
            Ok(Some(texts)) => arg_optional_texts(directive@.arguments, name@) == Ok::<
                Option<Seq<Seq<char>>>,
                Seq<crate::valid::CauseView>,
            >(Some(deep(texts@))),
            Ok(None) => arg_optional_texts(directive@.arguments, name@) == Ok::<
                Option<Seq<Seq<char>>>,
                Seq<crate::valid::CauseView>,
            >(None),
            Err(causes) => arg_optional_texts(directive@.arguments, name@) == Err::<
                Option<Seq<Seq<char>>>,
                Seq<crate::valid::CauseView>,
            >(causes),
        },
{
    match argument(directive, name) {
        Some(Value::List(items)) => {
            proof {
                Value::lemma_list_view(*items);
            }
            match texts_from(items) {
                Some(texts) => Valid::succeed(Some(texts)),
                None => argument_error("expected a list of strings", name),
            }
        },
        Some(Value::Null) => Valid::succeed(None),
        Some(_) => argument_error("expected a list of strings", name),
        None => Valid::succeed(None),
    }
}

/// Reads the argument `name` as a list of texts, empty where it is left out.
pub fn texts(directive: &ConstDirective, name: &str) -> (r: Valid<Vec<String>>)
    ensures
        match r@ {
            Ok(texts) => arg_texts(directive@.arguments, name@) == Ok::<
                Seq<Seq<char>>,
                Seq<crate::valid::CauseView>,
            >(deep(texts@)),
            Err(causes) => arg_texts(directive@.arguments, name@) == Err::<
                Seq<Seq<char>>,
                Seq<crate::valid::CauseView>,
            >(causes),
        },
{
    match optional_texts(directive, name).to_result() {
        Ok(Some(texts)) => Valid::succeed(texts),
        Ok(None) => {
            let empty: Vec<String> = Vec::new();
            proof {
                assert(deep(empty@) =~= Seq::<Seq<char>>::empty());
            }
            Valid::succeed(empty)
        },
        Err(causes) => Valid::from_causes(causes),
    }
}

fn pair_from(item: &Value) -> (r: Option<(String, String)>)
    ensures
        match r {
            Some(pair) => is_pair(item@) && pair.deep_view() == pair_of(item@),
            None => !is_pair(item@),
        },
{
    match item {
        Value::Object(members) => {
            proof {
                Value::lemma_object_view(*members);
            }
            match (member(members, "key"), member(members, "value")) {
                (Some(Value::String(key)), Some(Value::String(value))) => Some(
                    (key.clone(), value.clone()),
                ),
                _ => None,
            }
        },
        _ => None,
    }
}

fn pairs_from(items: &Vec<Value>) -> (r: Option<Vec<(String, String)>>)
    ensures
        match r {
            Some(pairs) => all_pairs(deep(items@)) && deep(pairs@) == pairs_of(deep(items@)),
            None => !all_pairs(deep(items@)),
        },
{
    let mut out: Vec<(String, String)> = Vec::new();
    let ghost all = deep(items@);
    let mut i: usize = 0;
    while i < items.len()
        invariant
            i <= items.len(),
            all == deep(items@),
            all_pairs(all.take(i as int)),
            deep(out@) == pairs_of(all.take(i as int)),
        decreases items.len() - i,
    {
        let ghost before = out@;
        proof {
            assert(all[i as int] == items@[i as int].deep_view());
        }
        match pair_from(&items[i]) {
            Some(pair) => {
                out.push(pair);
                proof {
                    lemma_deep_push(before, pair);
                    assert(deep(out@) =~= pairs_of(all.take(i as int + 1)));
                    assert forall|k: int| 0 <= k < i + 1 implies is_pair(
                        #[trigger] all.take(i as int + 1)[k],
                    ) by {
                        if k < i {
                            assert(is_pair(all.take(i as int)[k]));
                        }
                    }
                }
            },
            None => {
                return None;
            },
        }
        i += 1;
    }
    proof {
        assert(all.take(items.len() as int) =~= all);
    }
    Some(out)
}

/// Reads the argument `name` as a list of `{key, value}` objects, empty
/// where it is left out.
pub fn pairs(directive: &ConstDirective, name: &str) -> (r: Valid<Vec<(String, String)>>)
    ensures
        match r@ {
            Ok(pairs) => arg_pairs(directive@.arguments, name@) == Ok::<
                Seq<(Seq<char>, Seq<char>)>,
                Seq<crate::valid::CauseView>,
            >(deep(pairs@)),
            Err(causes) => arg_pairs(directive@.arguments, name@) == Err::<
                Seq<(Seq<char>, Seq<char>)>,
                Seq<crate::valid::CauseView>,
            >(causes),
        },
{
    match argument(directive, name) {
        Some(Value::List(items)) => {
            proof {
                Value::lemma_list_view(*items);
            }
            match pairs_from(items) {
                Some(pairs) => Valid::succeed(pairs),
                None => argument_error("expected a list of key and value", name),
            }
        },
        Some(Value::Null) | None => {
            let empty: Vec<(String, String)> = Vec::new();
            proof {
                assert(deep(empty@) =~= Seq::<(Seq<char>, Seq<char>)>::empty());
            }
            Valid::succeed(empty)
        },
        Some(_) => argument_error("expected a list of key and value", name),
    }
}

fn text_map_from(members: &Vec<(String, Value)>) -> (r: Option<NameMap<String>>)
    ensures
        match r {
            Some(map) => all_text_members(deep(members@)) && map@ == text_entries(
                deep(members@),
            ),
            None => !all_text_members(deep(members@)),
        },
{
    let mut out: NameMap<String> = NameMap::new();
    let ghost all = deep(members@);
    let mut i: usize = 0;
    while i < members.len()
        invariant
            i <= members.len(),
            all == deep(members@),
            all_text_members(all.take(i as int)),
            out@ == text_entries(all.take(i as int)),
        decreases members.len() - i,
    {
        proof {
            assert(all[i as int] == members@[i as int].deep_view());
            assert(all.take(i as int + 1).drop_last() =~= all.take(i as int));
            assert(all.take(i as int + 1).last() == all[i as int]);
        }
        match &members[i].1 {
            Value::String(text) => {
                out.insert(members[i].0.clone(), text.clone());
                proof {
                    assert forall|k: int| 0 <= k < i + 1 implies (#[trigger] all.take(
                        i as int + 1,
                    )[k]).1 is String by {
                        if k < i {
                            assert(all.take(i as int)[k].1 is String);
                        }
                    }
                }
            },
            _ => {
                proof {
                    assert(!(all[i as int].1 is String));
                }
                return None;
            },
        }
        i += 1;
    }
    proof {
        assert(all.take(members.len() as int) =~= all);
    }
    Some(out)
}

/// Reads the argument `name` as an object of texts, empty where it is left
/// out.
pub fn text_map(directive: &ConstDirective, name: &str) -> (r: Valid<NameMap<String>>)
    ensures
        deeply(r@) == arg_text_map(directive@.arguments, name@),
{
    match argument(directive, name) {
        Some(Value::Object(members)) => {
            proof {
                Value::lemma_object_view(*members);
            }
            match text_map_from(members) {
                Some(map) => Valid::succeed(map),
                None => argument_error("expected an object of strings", name),
            }
        },
        Some(Value::Null) | None => Valid::succeed(NameMap::new()),
        Some(_) => argument_error("expected an object of strings", name),
    }
}

fn method_from(text: &str) -> (r: Option<Method>)
    ensures
        r == method_of(text@),
{
    if same_text(text, "GET") {
        Some(Method::Get)
    } else if same_text(text, "POST") {
        Some(Method::Post)
    } else if same_text(text, "PUT") {
        Some(Method::Put)
    } else if same_text(text, "PATCH") {
        Some(Method::Patch)
    } else if same_text(text, "DELETE") {
        Some(Method::Delete)
    } else if same_text(text, "HEAD") {
        Some(Method::Head)
    } else if same_text(text, "OPTIONS") {
        Some(Method::Options)
    } else if same_text(text, "CONNECT") {
        Some(Method::Connect)
    } else if same_text(text, "TRACE") {
        Some(Method::Trace)
    } else {
        None
    }
}

/// Reads the argument `name` as an HTTP method, `GET` where it is left out.
pub fn method(directive: &ConstDirective, name: &str) -> (r: Valid<Method>)
    ensures
        r@ == arg_method(directive@.arguments, name@),
{
    match argument(directive, name) {
        Some(Value::String(text)) => match method_from(text.as_str()) {
            Some(method) => Valid::succeed(method),
            None => argument_error("expected an HTTP method", name),
        },
        Some(Value::Null) | None => Valid::succeed(Method::Get),
        Some(_) => argument_error("expected an HTTP method", name),
    }
}

/// What an `http` directive decodes to.
pub open spec fn decoded_http(directive: ConstDirectiveView) -> Outcome<HttpView> {
    let a = directive.arguments;
    traced(
        match zipped(
            zipped(
                zipped(
                    zipped(zipped(arg_text(a, "url"@), arg_method(a, "method"@)), arg_optional_text(a, "baseURL"@)),
                    arg_pairs(a, "query"@),
                ),
                arg_pairs(a, "headers"@),
            ),
            arg_optional_text(a, "body"@),
        ) {
            Ok((((((url, method), base_url), query), headers), body)) => Ok(
                HttpView { url, method, base_url, query, headers, body },
            ),
            Err(causes) => Err(causes),
        },
        "http"@,
    )
}

/// Decodes an `http` directive; every wrong argument is reported.
pub fn decode_http(directive: &ConstDirective) -> (r: Valid<Http>)
    ensures
        deeply(r@) == decoded_http(directive@),
{
    let combined = required_text(directive, "url").zip(method(directive, "method")).zip(
        optional_text(directive, "baseURL"),
    ).zip(pairs(directive, "query")).zip(pairs(directive, "headers")).zip(
        optional_text(directive, "body"),
    );
    match combined.to_result() {
        Ok((((((url, method), base_url), query), headers), body)) => Valid::succeed(
            Http { url, method, base_url, query, headers, body },
        ),
        Err(causes) => Valid::from_causes(causes),
    }.trace("http")
}

/// What a `graphql` directive decodes to.
pub open spec fn decoded_graphql(directive: ConstDirectiveView) -> Outcome<GraphQLSourceView> {
    let a = directive.arguments;
    traced(
        match zipped(
            zipped(
                zipped(
                    zipped(arg_text(a, "name"@), arg_pairs(a, "args"@)),
                    arg_optional_text(a, "baseURL"@),
                ),
                arg_pairs(a, "headers"@),
            ),
            arg_flag(a, "batch"@),
        ) {
            Ok(((((name, args), base_url), headers), batch)) => Ok(
                GraphQLSourceView { name, args, base_url, headers, batch, introspection: None },
            ),
            Err(causes) => Err(causes),
        },
        "graphql"@,
    )
}

/// Decodes a `graphql` directive; every wrong argument is reported.
pub fn decode_graphql(directive: &ConstDirective) -> (r: Valid<GraphQLSource>)
    ensures
        deeply(r@) == decoded_graphql(directive@),
{
    let combined = required_text(directive, "name").zip(pairs(directive, "args")).zip(
        optional_text(directive, "baseURL"),
    ).zip(pairs(directive, "headers")).zip(flag(directive, "batch"));
    match combined.to_result() {
        Ok(((((name, args), base_url), headers), batch)) => Valid::succeed(
            GraphQLSource { name, args, base_url, headers, batch, introspection: None },
        ),
        Err(causes) => Valid::from_causes(causes),
    }.trace("graphql")
}

/// What a `grpc` directive decodes to.
pub open spec fn decoded_grpc(directive: ConstDirectiveView) -> Outcome<GrpcView> {
    let a = directive.arguments;
    traced(
        match zipped(
            zipped(
                zipped(
                    zipped(arg_text(a, "service"@), arg_text(a, "method"@)),
                    arg_optional_text(a, "baseURL"@),
                ),
                arg_optional_text(a, "body"@),
            ),
            arg_pairs(a, "headers"@),
        ) {
            Ok(((((service, method), base_url), body), headers)) => Ok(
                GrpcView { service, method, base_url, body, headers },
            ),
            Err(causes) => Err(causes),
        },
        "grpc"@,
    )
}

/// Decodes a `grpc` directive; every wrong argument is reported.
pub fn decode_grpc(directive: &ConstDirective) -> (r: Valid<Grpc>)
    ensures
        deeply(r@) == decoded_grpc(directive@),
{
    let combined = required_text(directive, "service").zip(required_text(directive, "method")).zip(
        optional_text(directive, "baseURL"),
    ).zip(optional_text(directive, "body")).zip(pairs(directive, "headers"));
    match combined.to_result() {
        Ok(((((service, method), base_url), body), headers)) => Valid::succeed(
            Grpc { service, method, base_url, body, headers },
        ),
        Err(causes) => Valid::from_causes(causes),
    }.trace("grpc")
}

/// What a `call` directive decodes to.
pub open spec fn decoded_call(directive: ConstDirectiveView) -> Outcome<CallView> {
    let a = directive.arguments;
    traced(
        match zipped(
            zipped(arg_optional_text(a, "query"@), arg_optional_text(a, "mutation"@)),
            arg_text_map(a, "args"@),
        ) {
            Ok(((query, mutation), args)) => Ok(CallView { query, mutation, args }),
            Err(causes) => Err(causes),
        },
        "call"@,
    )
}

/// Decodes a `call` directive; every wrong argument is reported.
pub fn decode_call(directive: &ConstDirective) -> (r: Valid<Call>)
    ensures
        deeply(r@) == decoded_call(directive@),
{
    let combined = optional_text(directive, "query").zip(optional_text(directive, "mutation")).zip(
        text_map(directive, "args"),
    );
    match combined.to_result() {
        Ok(((query, mutation), args)) => Valid::succeed(Call { query, mutation, args }),
        Err(causes) => Valid::from_causes(causes),
    }.trace("call")
}

/// What a `const` directive decodes to.
pub open spec fn decoded_const(directive: ConstDirectiveView) -> Outcome<ConstFieldView> {
    traced(
        match arg_value(directive.arguments, "data"@) {
            Ok(data) => Ok(ConstFieldView { data }),
            Err(causes) => Err(causes),
        },
        "const"@,
    )
}

/// Decodes a `const` directive.
pub fn decode_const(directive: &ConstDirective) -> (r: Valid<ConstField>)
    ensures
        deeply(r@) == decoded_const(directive@),
{
    match required_value(directive, "data").to_result() {
        Ok(data) => Valid::succeed(ConstField { data }),
        Err(causes) => Valid::from_causes(causes),
    }.trace("const")
}

/// What a `groupBy` directive decodes to.
pub open spec fn decoded_group_by(directive: ConstDirectiveView) -> Outcome<GroupByView> {
    let a = directive.arguments;
    traced(
        match zipped(arg_texts(a, "path"@), arg_optional_text(a, "key"@)) {
            Ok((path, key)) => Ok(GroupByView { path, key }),
            Err(causes) => Err(causes),
        },
        "groupBy"@,
    )
}

/// Decodes a `groupBy` directive; every wrong argument is reported.
pub fn decode_group_by(directive: &ConstDirective) -> (r: Valid<GroupBy>)
    ensures
        deeply(r@) == decoded_group_by(directive@),
{
    let combined = texts(directive, "path").zip(optional_text(directive, "key"));
    match combined.to_result() {
        Ok((path, key)) => Valid::succeed(GroupBy { path, key }),
        Err(causes) => Valid::from_causes(causes),
    }.trace("groupBy")
}

/// What a `modify` directive decodes to.
pub open spec fn decoded_modify(directive: ConstDirectiveView) -> Outcome<ModifyFieldView> {
    let a = directive.arguments;
    traced(
        match zipped(arg_optional_text(a, "name"@), arg_flag(a, "omit"@)) {
            Ok((name, omit)) => Ok(ModifyFieldView { name, omit }),
            Err(causes) => Err(causes),
        },
        "modify"@,
    )
}

/// Decodes a `modify` directive; every wrong argument is reported.
pub fn decode_modify(directive: &ConstDirective) -> (r: Valid<ModifyField>)
    ensures
        deeply(r@) == decoded_modify(directive@),
{
    let combined = optional_text(directive, "name").zip(flag(directive, "omit"));
    match combined.to_result() {
        Ok((name, omit)) => Valid::succeed(ModifyField { name, omit }),
        Err(causes) => Valid::from_causes(causes),
    }.trace("modify")
}

/// What an `inline` directive decodes to.
pub open spec fn decoded_inline(directive: ConstDirectiveView) -> Outcome<InlineTypeView> {
    traced(
        match arg_texts(directive.arguments, "path"@) {
            Ok(path) => Ok(InlineTypeView { path }),
            Err(causes) => Err(causes),
        },
        "inline"@,
    )
}

/// Decodes an `inline` directive.
pub fn decode_inline(directive: &ConstDirective) -> (r: Valid<InlineType>)
    ensures
        deeply(r@) == decoded_inline(directive@),
{
    match texts(directive, "path").to_result() {
        Ok(path) => Valid::succeed(InlineType { path }),
        Err(causes) => Valid::from_causes(causes),
    }.trace("inline")
}

/// What an `unsafe` directive decodes to.
pub open spec fn decoded_unsafe(directive: ConstDirectiveView) -> Outcome<UnsafeView> {
    traced(
        match arg_text(directive.arguments, "script"@) {
            Ok(script) => Ok(UnsafeView { script }),
            Err(causes) => Err(causes),
        },
        "unsafe"@,
    )
}

/// Decodes an `unsafe` directive.
pub fn decode_unsafe(directive: &ConstDirective) -> (r: Valid<Unsafe>)
    ensures
        deeply(r@) == decoded_unsafe(directive@),
{
    match required_text(directive, "script").to_result() {
        Ok(script) => Valid::succeed(Unsafe { script }),
        Err(causes) => Valid::from_causes(causes),
    }.trace("unsafe")
}

/// What a `server` directive decodes to.
pub open spec fn decoded_server(directive: ConstDirectiveView) -> Outcome<ServerView> {
    let a = directive.arguments;
    traced(
        match zipped(
            zipped(
                zipped(
                    zipped(
                        zipped(
                            arg_optional_bool(a, "enableGraphiql"@),
                            arg_optional_bool(a, "enableBatchRequests"@),
                        ),
                        arg_optional_bool(a, "enableCacheControlHeader"@),
                    ),
                    arg_optional_bool(a, "enableQueryValidation"@),
                ),
                arg_optional_text(a, "hostname"@),
            ),
            arg_port(a, "port"@),
        ) {
            Ok(
                (
                    (
                        (
                            ((enable_graphiql, enable_batch_requests), enable_cache_control_header),
                            enable_query_validation,
                        ),
                        hostname,
                    ),
                    port,
                ),
            ) => Ok(
                ServerView {
                    enable_graphiql,
                    enable_batch_requests,
                    enable_cache_control_header,
                    enable_query_validation,
                    hostname,
                    port,
                },
            ),
            Err(causes) => Err(causes),
        },
        "server"@,
    )
}

/// Decodes a `server` directive; every wrong argument is reported.
pub fn decode_server(directive: &ConstDirective) -> (r: Valid<Server>)
    ensures
        deeply(r@) == decoded_server(directive@),
{
    let combined = optional_bool(directive, "enableGraphiql").zip(
        optional_bool(directive, "enableBatchRequests"),
    ).zip(optional_bool(directive, "enableCacheControlHeader")).zip(
        optional_bool(directive, "enableQueryValidation"),
    ).zip(optional_text(directive, "hostname")).zip(port(directive, "port"));
    match combined.to_result() {
        Ok(
            (
                (
                    (
                        ((enable_graphiql, enable_batch_requests), enable_cache_control_header),
                        enable_query_validation,
                    ),
                    hostname,
                ),
                port,
            ),
        ) => Valid::succeed(
            Server {
                enable_graphiql,
                enable_batch_requests,
                enable_cache_control_header,
                enable_query_validation,
                hostname,
                port,
            },
        ),
        Err(causes) => Valid::from_causes(causes),
    }.trace("server")
}

/// What an `upstream` directive decodes to.
pub open spec fn decoded_upstream(directive: ConstDirectiveView) -> Outcome<UpstreamView> {
    let a = directive.arguments;
    traced(
        match zipped(arg_optional_text(a, "baseURL"@), arg_optional_texts(a, "allowedHeaders"@)) {
            Ok((base_url, allowed_headers)) => Ok(UpstreamView { base_url, allowed_headers }),
            Err(causes) => Err(causes),
        },
        "upstream"@,
    )
}

/// Decodes an `upstream` directive; every wrong argument is reported.
pub fn decode_upstream(directive: &ConstDirective) -> (r: Valid<Upstream>)
    ensures
        deeply(r@) == decoded_upstream(directive@),
{
    let combined = optional_text(directive, "baseURL").zip(
        optional_texts(directive, "allowedHeaders"),
    );
    match combined.to_result() {
        Ok((base_url, allowed_headers)) => Valid::succeed(Upstream { base_url, allowed_headers }),
        Err(causes) => Valid::from_causes(causes),
    }.trace("upstream")
}

} // verus!
