//! Element-wise models of sequences, and the facts about them that the rest of
//! the crate needs when it builds a vector step by step.

use vstd::prelude::*;

verus! {

/// The models of the elements of `s`, in order.
pub open spec fn deep<T: DeepView>(s: Seq<T>) -> Seq<T::V> {
    Seq::new(s.len(), |i: int| s[i].deep_view())
}

/// The models after one more element.
pub proof fn lemma_deep_push<T: DeepView>(s: Seq<T>, x: T)
    ensures
        deep(s.push(x)) == deep(s).push(x.deep_view()),
{
    assert(deep(s.push(x)) =~= deep(s).push(x.deep_view()));
}

/// The models of two sequences, one after the other.
pub proof fn lemma_deep_add<T: DeepView>(a: Seq<T>, b: Seq<T>)
    ensures
        deep(a + b) == deep(a) + deep(b),
{
    assert(deep(a + b) =~= deep(a) + deep(b));
}

/// The models of a single element.
pub proof fn lemma_deep_one<T: DeepView>(x: T)
    ensures
        deep(seq![x]) == seq![x.deep_view()],
{
    assert(deep(seq![x]) =~= seq![x.deep_view()]);
}

} // verus!
