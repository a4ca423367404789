//! What an expression can read while a field is resolved: the parent's
//! value, the field's arguments, the field that was selected; and where it
//! can leave an error.

use vstd::prelude::*;
use indexmap::IndexMap;
use crate::json::{Value, ValueView};
use crate::model::deep;
use crate::name_map::{with_entry, Entries};

verus! {

/// `indexmap::IndexMap`, taken as it is: of a map nothing is known but what
/// the functions below say of it.
#[verifier::external_type_specification]
#[verifier::external_body]
#[verifier::reject_recursive_types(K)]
#[verifier::reject_recursive_types(V)]
#[verifier::reject_recursive_types(S)]
pub struct ExIndexMap<K, V, S>(IndexMap<K, V, S>);

/// What an `IndexMap` of arguments holds: its key-value pairs in the map's
/// own order, the one that `get_index` counts in.
pub uninterp spec fn index_map_entries(map: IndexMap<String, Value>) -> Seq<(Seq<char>, ValueView)>;

/// `IndexMap::new`: a map without pairs.
#[verifier::external_body]
fn index_map_new() -> (r: IndexMap<String, Value>)
    ensures
        index_map_entries(r) == Seq::<(Seq<char>, ValueView)>::empty(),
{
    IndexMap::new()
}

/// `IndexMap::len`: the number of pairs.
#[verifier::external_body]
fn index_map_len(map: &IndexMap<String, Value>) -> (r: usize)
    ensures
        r == index_map_entries(*map).len(),
{
    map.len()
}

/// `IndexMap::get_index`: the pair at a position of the map's order, for the
/// positions below its length and no other.
#[verifier::external_body]
fn index_map_get_index<'a>(map: &'a IndexMap<String, Value>, index: usize) -> (r: Option<
    (&'a String, &'a Value),
>)
    ensures
        match r {
            Some((key, value)) => index < index_map_entries(*map).len() && key@
                == index_map_entries(*map)[index as int].0 && value@ == index_map_entries(
                *map,
            )[index as int].1,
            None => index >= index_map_entries(*map).len(),
        },
{
    map.get_index(index)
}

/// `IndexMap::insert`: where the map holds the key, the key keeps its place
/// and gets the new value; else the pair becomes the last one.
#[verifier::external_body]
fn index_map_insert(map: &mut IndexMap<String, Value>, key: String, value: Value)
    ensures
        index_map_entries(*final(map)) == with_entry(index_map_entries(*old(map)), key@, value@),
{
    map.insert(key, value);
}

/// The field that is being resolved, as the query selected it.
#[derive(Clone, Debug, PartialEq, Eq)]
pub struct SelectionField {
    pub name: String,
}

/// An error that resolving a field leaves for the response.
#[derive(Clone, Debug, PartialEq, Eq)]
pub struct ServerError {
    pub message: String,
}

/// `entries` with each pair of `more` inserted in order.
pub open spec fn extended(entries: Entries<ValueView>, more: Entries<ValueView>) -> Entries<
    ValueView,
>
    decreases more.len(),
{
    if more.len() == 0 {
        entries
    } else {
        with_entry(extended(entries, more.drop_last()), more.last().0, more.last().1)
    }
}

/// Each text as a string value, under its name.
pub open spec fn as_strings(pairs: Seq<(Seq<char>, Seq<char>)>) -> Entries<ValueView> {
    pairs.map_values(|pair: (Seq<char>, Seq<char>)| (pair.0, ValueView::String(pair.1)))
}

/// The arguments that a context with extra arguments offers: the extra ones
/// as string values, inserted in order, then those of the context it wraps,
/// which override an extra argument of the same name where it stands.
pub open spec fn merged_args(
    extra: Seq<(Seq<char>, Seq<char>)>,
    source: Option<Entries<ValueView>>,
) -> Entries<ValueView> {
    extended(
        extended(Seq::empty(), as_strings(extra)),
        match source {
            Some(entries) => entries,
            None => Seq::empty(),
        },
    )
}

/// What the arguments of a context hold, where it has any.
pub open spec fn entries_of(args: Option<IndexMap<String, Value>>) -> Option<Entries<ValueView>> {
    match args {
        Some(map) => Some(index_map_entries(map)),
        None => None,
    }
}

/// The extra arguments merged with those of a wrapped context.
pub fn merge_args(extra: &Vec<(String, String)>, source: Option<IndexMap<String, Value>>) -> (r:
    IndexMap<String, Value>)
    ensures
        index_map_entries(r) == merged_args(deep(extra@), entries_of(source)),
{
    let mut args = index_map_new();
    let ghost own = as_strings(deep(extra@));
    let mut i: usize = 0;
    while i < extra.len()
        invariant
            i <= extra.len(),
            own == as_strings(deep(extra@)),
            index_map_entries(args) == extended(Seq::empty(), own.take(i as int)),
        decreases extra.len() - i,
    {
        proof {
            assert(own.take(i as int + 1).drop_last() =~= own.take(i as int));
            assert(own.take(i as int + 1).last() == own[i as int]);
            assert(deep(extra@)[i as int] == extra@[i as int].deep_view());
        }
        index_map_insert(&mut args, extra[i].0.clone(), Value::String(extra[i].1.clone()));
        i += 1;
    }
    proof {
        assert(own.take(extra.len() as int) =~= own);
    }
    match source {
        Some(map) => {
            let ghost base = index_map_entries(args);
            let ghost more = index_map_entries(map);
            let n = index_map_len(&map);
            let mut j: usize = 0;
            while j < n
                invariant
                    j <= n,
                    n == more.len(),
                    more == index_map_entries(map),
                    index_map_entries(args) == extended(base, more.take(j as int)),
                decreases n - j,
            {
                proof {
                    assert(more.take(j as int + 1).drop_last() =~= more.take(j as int));
                    assert(more.take(j as int + 1).last() == more[j as int]);
                }
                match index_map_get_index(&map, j) {
                    Some((key, value)) => {
                        index_map_insert(&mut args, key.clone(), value.copy());
                    },
                    None => {},
                }
                j += 1;
            }
            proof {
                assert(more.take(n as int) =~= more);
            }
            args
        },
        None => args,
    }
}

/// What an expression reads from while a field is resolved.
pub trait ResolverContextLike {
    /// The value that the parent field resolved to.
    fn value(&self) -> Option<&Value>;

    /// The arguments of the field, where the context has any.
    fn args(&self) -> Option<IndexMap<String, Value>>;

    /// The field that is being resolved.
    fn field(&self) -> Option<SelectionField>;

    /// Leaves an error for the response.
    fn add_error(&self, error: ServerError);
}

/// A context with extra arguments, each a JSON text, over another context.
pub struct ResolverContextWithArgs<'a, C: ResolverContextLike> {
    source: &'a C,
    args: &'a Vec<(String, String)>,
}

impl<'a, C: ResolverContextLike> ResolverContextWithArgs<'a, C> {
    /// The context `source` with the extra arguments `args`.
    pub fn new(source: &'a C, args: &'a Vec<(String, String)>) -> (r: Self)
        ensures
            r.extra() == deep(args@),
            r.wrapped() == source,
    {
        ResolverContextWithArgs { source, args }
    }

    /// The context that this one wraps.
    pub closed spec fn wrapped(&self) -> &'a C {
        self.source
    }

    /// The extra arguments of this context.
    pub closed spec fn extra(&self) -> Seq<(Seq<char>, Seq<char>)> {
        deep(self.args@)
    }

    /// This context with the extra arguments `args` beside its own.
    pub fn with_args<'b>(&'b self, args: &'b Vec<(String, String)>) -> (r: ResolverContextWithArgs<
        'b,
        Self,
    >)
        ensures
            r.extra() == deep(args@),
            r.wrapped() == self,
    {
        ResolverContextWithArgs::new(self, args)
    }
}

impl<'a, C: ResolverContextLike> ResolverContextLike for ResolverContextWithArgs<'a, C> {
    /// The parent's value as the wrapped context gives it: the extra
    /// arguments change nothing of it.
    fn value(&self) -> (r: Option<&Value>)
        ensures
            call_ensures(C::value, (self.wrapped(),), r),
    {
        self.source.value()
    }

    /// The extra arguments merged with those that the wrapped context gives,
    /// as `merge_args` merges them: there always are arguments, and an
    /// argument of the wrapped context overrides an extra one of its name.
    fn args(&self) -> (r: Option<IndexMap<String, Value>>)
        ensures
            r matches Some(map) && exists|given: Option<IndexMap<String, Value>>|
                call_ensures(C::args, (self.wrapped(),), given) && index_map_entries(map)
                    == merged_args(self.extra(), #[trigger] entries_of(given)),
    {
        let source = self.source.args();
        let ghost given = source;
        let merged = merge_args(self.args, source);
        proof {
            assert(index_map_entries(merged) == merged_args(self.extra(), entries_of(given)));
        }
        Some(merged)
    }

    /// The selected field as the wrapped context gives it.
    fn field(&self) -> (r: Option<SelectionField>)
        ensures
            call_ensures(C::field, (self.wrapped(),), r),
    {
        self.source.field()
    }

    /// Leaves the error with the wrapped context.
    fn add_error(&self, error: ServerError)
        ensures
            call_ensures(C::add_error, (self.wrapped(), error), ()),
    {
        self.source.add_error(error)
    }
}

/// The context of nothing: no value, no arguments, no field, and an error
/// left with it is dropped.
pub struct EmptyResolverContext;

impl EmptyResolverContext {
    /// The context whose arguments are the extra arguments `args`.
    pub fn with_args<'a>(&'a self, args: &'a Vec<(String, String)>) -> (r: ResolverContextWithArgs<
        'a,
        Self,
    >)
        ensures
            r.extra() == deep(args@),
            r.wrapped() == self,
    {
        ResolverContextWithArgs::new(self, args)
    }
}

impl ResolverContextLike for EmptyResolverContext {
    fn value(&self) -> (r: Option<&Value>)
        ensures
            r is None,
    {
        None
    }

    fn args(&self) -> (r: Option<IndexMap<String, Value>>)
        ensures
            r is None,
    {
        None
    }

    fn field(&self) -> (r: Option<SelectionField>)
        ensures
            r is None,
    {
        None
    }

    fn add_error(&self, error: ServerError) {
    }
}

} // verus!
