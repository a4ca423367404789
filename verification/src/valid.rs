//! An error-accumulating result: either a value, or a non-empty list of causes.
//! Dependent steps short-circuit (`map`, `and_then`); independent steps keep
//! every failure of both sides (`zip`, `from_iter`).

use vstd::prelude::*;
use crate::model::{deep, lemma_deep_add, lemma_deep_one, lemma_deep_push};

verus! {

/// One diagnostic: what went wrong, where (outermost context first), and an
/// optional longer explanation.
#[derive(Clone, Debug, PartialEq, Eq)]
pub struct Cause {
    pub message: String,
    pub description: Option<String>,
    pub trace: Vec<String>,
}

pub struct CauseView {
    pub message: Seq<char>,
    pub description: Option<Seq<char>>,
    pub trace: Seq<Seq<char>>,
}

impl View for Cause {
    type V = CauseView;

    open spec fn view(&self) -> CauseView {
        CauseView {
            message: self.message@,
            description: self.description.deep_view(),
            trace: self.trace.deep_view(),
        }
    }
}

impl DeepView for Cause {
    type V = CauseView;

    open spec fn deep_view(&self) -> CauseView {
        self@
    }
}

/// The model of a `Valid<A>`: the value, or the causes in reporting order.
pub type Outcome<A> = Result<A, Seq<CauseView>>;

/// The cause that `fail` reports for `message`.
pub open spec fn cause_of(message: Seq<char>) -> CauseView {
    CauseView { message, description: None, trace: Seq::empty() }
}

/// The failure with the single cause `message`.
pub open spec fn failure<A>(message: Seq<char>) -> Outcome<A> {
    Err(seq![cause_of(message)])
}

/// `cause` with `label` put in front of its trace.
pub open spec fn traced_cause(cause: CauseView, label: Seq<char>) -> CauseView {
    CauseView { trace: seq![label] + cause.trace, ..cause }
}

/// Every cause of `causes` with `label` put in front of its trace.
pub open spec fn traced_causes(causes: Seq<CauseView>, label: Seq<char>) -> Seq<CauseView> {
    causes.map_values(|c: CauseView| traced_cause(c, label))
}

/// `outcome` with `label` put in front of every failure's trace.
pub open spec fn traced<A>(outcome: Outcome<A>, label: Seq<char>) -> Outcome<A> {
    match outcome {
        Ok(a) => Ok(a),
        Err(causes) => Err(traced_causes(causes, label)),
    }
}

/// Both values, or the failures of the left side followed by those of the right.
pub open spec fn zipped<A, B>(left: Outcome<A>, right: Outcome<B>) -> Outcome<(A, B)> {
    match (left, right) {
        (Ok(a), Ok(b)) => Ok((a, b)),
        (Ok(_), Err(e)) => Err(e),
        (Err(e), Ok(_)) => Err(e),
        (Err(e1), Err(e2)) => Err(e1 + e2),
    }
}

/// `outcome` with the model of its value in place of the value.
pub open spec fn deeply<A: DeepView>(outcome: Outcome<A>) -> Outcome<A::V> {
    match outcome {
        Ok(a) => Ok(a.deep_view()),
        Err(causes) => Err(causes),
    }
}

/// The causes of an outcome; none for a success.
pub open spec fn causes_of<A>(outcome: Outcome<A>) -> Seq<CauseView> {
    match outcome {
        Ok(_) => Seq::empty(),
        Err(causes) => causes,
    }
}

/// The causes of all outcomes, in order.
pub open spec fn all_causes<A>(outcomes: Seq<Outcome<A>>) -> Seq<CauseView>
    decreases outcomes.len(),
{
    if outcomes.len() == 0 {
        Seq::empty()
    } else {
        all_causes(outcomes.drop_last()) + causes_of(outcomes.last())
    }
}

/// Whether every outcome is a success.
pub open spec fn all_succeed<A>(outcomes: Seq<Outcome<A>>) -> bool {
    forall|i: int| 0 <= i < outcomes.len() ==> (#[trigger] outcomes[i]) is Ok
}

/// The values of a sequence of successes.
pub open spec fn all_values<A>(outcomes: Seq<Outcome<A>>) -> Seq<A> {
    outcomes.map_values(|o: Outcome<A>| o->Ok_0)
}

/// How many of the outcomes are failures.
pub open spec fn count_failed<A>(outcomes: Seq<Outcome<A>>) -> nat
    decreases outcomes.len(),
{
    if outcomes.len() == 0 {
        0
    } else {
        count_failed(outcomes.drop_last()) + if outcomes.last() is Err {
            1nat
        } else {
            0nat
        }
    }
}

/// The models of a sequence of results.
pub open spec fn outcomes_of<A>(results: Seq<Valid<A>>) -> Seq<Outcome<A>> {
    results.map_values(|v: Valid<A>| v@)
}

/// Independent outcomes gathered: every value where all succeed, else the
/// causes of every failure, in order.
pub open spec fn gather<A>(outcomes: Seq<Outcome<A>>) -> Outcome<Seq<A>> {
    if all_succeed(outcomes) {
        Ok(all_values(outcomes))
    } else {
        Err(all_causes(outcomes))
    }
}

/// Whether `result` is what gathering `outcomes` yields.
pub open spec fn gathered<A>(outcomes: Seq<Outcome<A>>, result: Outcome<Vec<A>>) -> bool {
    match result {
        Ok(values) => gather(outcomes) == Ok::<Seq<A>, Seq<CauseView>>(values@),
        Err(causes) => gather(outcomes) == Err::<Seq<A>, Seq<CauseView>>(causes),
    }
}

/// The deep models of a sequence of outcomes.
pub open spec fn each_deeply<A: DeepView>(outcomes: Seq<Outcome<A>>) -> Seq<Outcome<A::V>> {
    outcomes.map_values(|o: Outcome<A>| deeply(o))
}

/// A value, or the causes why there is none; of causes there is one at
/// least.
#[derive(Debug, PartialEq, Eq)]
pub struct Valid<A> {
    inner: Result<A, Vec<Cause>>,
}

impl<A> View for Valid<A> {
    type V = Outcome<A>;

    closed spec fn view(&self) -> Outcome<A> {
        match self.inner {
            Ok(a) => Ok(a),
            Err(causes) => Err(deep(causes@)),
        }
    }
}

/// A copy of `text`, where there is one.
fn copy_description(text: &Option<String>) -> (r: Option<String>)
    ensures
        r.deep_view() == text.deep_view(),
{
    match text {
        Some(t) => Some(t.clone()),
        None => None,
    }
}

/// `cause` with `label` put in front of its trace.
fn trace_cause(cause: &Cause, label: &str) -> (r: Cause)
    ensures
        r@ == traced_cause(cause@, label@),
{
    let mut new_trace: Vec<String> = Vec::new();
    new_trace.push(label.to_owned());
    let mut i: usize = 0;
    while i < cause.trace.len()
        invariant
            i <= cause.trace.len(),
            deep(new_trace@) == seq![label@] + deep(cause.trace@).take(i as int),
        decreases cause.trace.len() - i,
    {
        let ghost before = new_trace@;
        new_trace.push(cause.trace[i].clone());
        proof {
            lemma_deep_push(before, cause.trace[i as int]);
            assert(deep(cause.trace@).take(i as int + 1) =~= deep(cause.trace@).take(
                i as int,
            ).push(cause.trace[i as int]@));
            assert(deep(new_trace@) =~= seq![label@] + deep(cause.trace@).take(i as int + 1));
        }
        i += 1;
    }
    proof {
        assert(deep(cause.trace@).take(cause.trace.len() as int) =~= deep(cause.trace@));
        assert(new_trace.deep_view() =~= deep(new_trace@));
        assert(cause.trace.deep_view() =~= deep(cause.trace@));
    }
    Cause {
        message: cause.message.clone(),
        description: copy_description(&cause.description),
        trace: new_trace,
    }
}

impl<A> Valid<A> {
    #[verifier::type_invariant]
    spec fn inv(self) -> bool {
        self.inner matches Err(causes) ==> causes.len() > 0
    }

    /// The success that holds `value`.
    pub fn succeed(value: A) -> (r: Self)
        ensures
            r@ == Ok::<A, Seq<CauseView>>(value),
    {
        Valid { inner: Ok(value) }
    }

    /// The failure with one cause: `message`, no description, empty trace.
    pub fn fail(message: String) -> (r: Self)
        ensures
            r@ == failure::<A>(message@),
    {
        let mut causes: Vec<Cause> = Vec::new();
        let cause = Cause { message, description: None, trace: Vec::new() };
        proof {
            assert(cause.trace.deep_view() =~= Seq::<Seq<char>>::empty());
            assert(cause@ == cause_of(message@));
            lemma_deep_one(cause);
            assert(causes@.push(cause) =~= seq![cause]);
        }
        causes.push(cause);
        Valid { inner: Err(causes) }
    }

    /// The failure with one cause that also carries a description.
    pub fn fail_with(message: String, description: String) -> (r: Self)
        ensures
            r@ == Err::<A, Seq<CauseView>>(
                seq![CauseView { description: Some(description@), ..cause_of(message@) }],
            ),
    {
        let mut causes: Vec<Cause> = Vec::new();
        let cause = Cause { message, description: Some(description), trace: Vec::new() };
        proof {
            assert(cause.trace.deep_view() =~= Seq::<Seq<char>>::empty());
            lemma_deep_one(cause);
            assert(causes@.push(cause) =~= seq![cause]);
        }
        causes.push(cause);
        Valid { inner: Err(causes) }
    }

    /// The failure with the given causes, of which there is at least one.
    pub fn from_causes(causes: Vec<Cause>) -> (r: Self)
        requires
            causes.len() > 0,
        ensures
            r@ == Err::<A, Seq<CauseView>>(causes.deep_view()),
    {
        Valid { inner: Err(causes) }
    }

    /// The value of `option`, or the failure `message` where there is none.
    pub fn from_option(option: Option<A>, message: String) -> (r: Self)
        ensures
            r@ == match option {
                Some(a) => Ok(a),
                None => failure::<A>(message@),
            },
    {
        match option {
            Some(a) => Valid::succeed(a),
            None => Valid::fail(message),
        }
    }

    /// Whether this is a success.
    pub fn is_succeed(&self) -> (r: bool)
        ensures
            r == (self@ is Ok),
    {
        self.inner.is_ok()
    }

    /// The value, or the causes, which are never empty.
    pub fn to_result(self) -> (r: Result<A, Vec<Cause>>)
        ensures
            match r {
                Ok(a) => self@ == Ok::<A, Seq<CauseView>>(a),
                Err(causes) => self@ == Err::<A, Seq<CauseView>>(causes.deep_view())
                    && causes.len() > 0,
            },
    {
        proof {
            use_type_invariant(&self);
        }
        self.inner
    }

    /// Applies `f` to the value of a success; a failure stays as it is.
    pub fn map<B, F: FnOnce(A) -> B>(self, f: F) -> (r: Valid<B>)
        requires
            self@ matches Ok(a) ==> f.requires((a,)),
        ensures
            match self@ {
                Ok(a) => r@ is Ok && f.ensures((a,), r@->Ok_0),
                Err(causes) => r@ == Err::<B, Seq<CauseView>>(causes),
            },
    {
        proof {
            use_type_invariant(&self);
        }
        match self.inner {
            Ok(a) => Valid { inner: Ok(f(a)) },
            Err(causes) => Valid { inner: Err(causes) },
        }
    }

    /// Continues with `f` on the value of a success; a failure stays as it is
    /// and `f` is not called.
    pub fn and_then<B, F: FnOnce(A) -> Valid<B>>(self, f: F) -> (r: Valid<B>)
        requires
            self@ matches Ok(a) ==> f.requires((a,)),
        ensures
            match self@ {
                Ok(a) => f.ensures((a,), r),
                Err(causes) => r@ == Err::<B, Seq<CauseView>>(causes),
            },
    {
        proof {
            use_type_invariant(&self);
        }
        match self.inner {
            Ok(a) => f(a),
            Err(causes) => Valid { inner: Err(causes) },
        }
    }

    /// Both values, or every failure of both sides, left side first.
    pub fn zip<B>(self, other: Valid<B>) -> (r: Valid<(A, B)>)
        ensures
            r@ == zipped(self@, other@),
    {
        proof {
            use_type_invariant(&self);
            use_type_invariant(&other);
        }
        match self.inner {
            Ok(a) => match other.inner {
                Ok(b) => Valid { inner: Ok((a, b)) },
                Err(e) => Valid { inner: Err(e) },
            },
            Err(mut e1) => match other.inner {
                Ok(_) => Valid { inner: Err(e1) },
                Err(mut e2) => {
                    proof {
                        lemma_deep_add(e1@, e2@);
                    }
                    e1.append(&mut e2);
                    Valid { inner: Err(e1) }
                },
            },
        }
    }

    /// The value of `other` where both succeed; else every failure of both.
    pub fn and<B>(self, other: Valid<B>) -> (r: Valid<B>)
        ensures
            r@ == match zipped(self@, other@) {
                Ok(pair) => Ok(pair.1),
                Err(causes) => Err(causes),
            },
    {
        match self.zip(other).to_result() {
            Ok(pair) => Valid::succeed(pair.1),
            Err(causes) => Valid { inner: Err(causes) },
        }
    }

    /// Puts `label` in front of the trace of every cause; a success is unchanged.
    pub fn trace(self, label: &str) -> (r: Self)
        ensures
            r@ == traced(self@, label@),
    {
        proof {
            use_type_invariant(&self);
        }
        match self.inner {
            Ok(a) => Valid { inner: Ok(a) },
            Err(causes) => {
                let mut out: Vec<Cause> = Vec::new();
                let mut i: usize = 0;
                while i < causes.len()
                    invariant
                        i <= causes.len(),
                        out.len() == i,
                        deep(out@) == traced_causes(deep(causes@), label@).take(i as int),
                    decreases causes.len() - i,
                {
                    let ghost before = out@;
                    let traced = trace_cause(&causes[i], label);
                    out.push(traced);
                    proof {
                        lemma_deep_push(before, traced);
                        assert(deep(out@) =~= traced_causes(deep(causes@), label@).take(
                            i as int + 1,
                        ));
                    }
                    i += 1;
                }
                proof {
                    assert(traced_causes(deep(causes@), label@).take(causes.len() as int)
                        =~= traced_causes(deep(causes@), label@));
                }
                Valid { inner: Err(out) }
            },
        }
    }
}

impl<A> Valid<A> {
    /// Gathers independent results: the values of all of them where every one
    /// succeeded, else the causes of every failure, in the order of the results.
    pub fn collect(results: Vec<Valid<A>>) -> (r: Valid<Vec<A>>)
        ensures
            gathered(outcomes_of(results@), r@),
    {
        let ghost all = outcomes_of(results@);
        let mut values: Vec<A> = Vec::new();
        let mut causes: Vec<Cause> = Vec::new();
        let mut rest = results;
        let mut done: Ghost<int> = Ghost(0);
        while rest.len() > 0
            invariant
                0 <= done@ <= all.len(),
                rest.len() == all.len() - done@,
                outcomes_of(rest@) == all.skip(done@),
                deep(causes@) == all_causes(all.take(done@)),
                all_succeed(all.take(done@)) ==> values@ == all_values(all.take(done@)),
                all_succeed(all.take(done@)) <==> causes.len() == 0,
            decreases rest.len(),
        {
            let ghost k = done@;
            let ghost before_causes = causes@;
            let ghost old_rest = rest@;
            assert(outcomes_of(rest@)[0] == all[k]);
            let first = rest.remove(0);
            proof {
                use_type_invariant(&first);
                assert(all.take(k + 1).drop_last() =~= all.take(k));
                assert(all.take(k + 1).last() == all[k]);
                assert forall|i: int| 0 <= i < rest.len() implies outcomes_of(rest@)[i]
                    == all.skip(k + 1)[i] by {
                    assert(rest@[i] == old_rest[i + 1]);
                    assert(outcomes_of(old_rest)[i + 1] == all.skip(k)[i + 1]);
                }
                assert(outcomes_of(rest@) =~= all.skip(k + 1));
            }
            match first.inner {
                Ok(a) => {
                    values.push(a);
                    proof {
                        assert(all_causes(all.take(k + 1)) =~= all_causes(all.take(k)));
                        if all_succeed(all.take(k + 1)) {
                            assert(all_succeed(all.take(k))) by {
                                assert forall|i: int| 0 <= i < k implies (
                                #[trigger] all.take(k)[i]) is Ok by {
                                    assert(all.take(k + 1)[i] is Ok);
                                }
                            }
                            assert(values@ =~= all_values(all.take(k + 1)));
                        } else {
                            assert(!all_succeed(all.take(k))) by {
                                if all_succeed(all.take(k)) {
                                    assert forall|i: int| 0 <= i < k + 1 implies (
                                    #[trigger] all.take(k + 1)[i]) is Ok by {
                                        if i < k {
                                            assert(all.take(k)[i] is Ok);
                                        }
                                    }
                                }
                            }
                        }
                    }
                },
                Err(mut e) => {
                    proof {
                        lemma_deep_add(before_causes, e@);
                        assert(all.take(k + 1)[k] is Err);
                    }
                    causes.append(&mut e);
                },
            }
            proof {
                done@ = k + 1;
            }
        }
        proof {
            assert(all.take(done@) =~= all);
        }
        if causes.len() == 0 {
            Valid::succeed(values)
        } else {
            Valid { inner: Err(causes) }
        }
    }

    /// Applies `f` to every item and gathers the results as `collect` does:
    /// `f` is called on every item, also after a failure.
    pub fn from_iter<T, F: Fn(&T) -> Valid<A>>(items: &Vec<T>, f: F) -> (r: Valid<Vec<A>>)
        requires
            forall|i: int| 0 <= i < items.len() ==> f.requires((&#[trigger] items[i],)),
        ensures
            exists|results: Seq<Valid<A>>|
                {
                    &&& results.len() == items.len()
                    &&& forall|i: int|
                        0 <= i < items.len() ==> f.ensures((&items[i],), #[trigger] results[i])
                    &&& gathered(#[trigger] outcomes_of(results), r@)
                },
    {
        let mut results: Vec<Valid<A>> = Vec::new();
        let mut i: usize = 0;
        while i < items.len()
            invariant
                i <= items.len(),
                results.len() == i,
                forall|k: int| 0 <= k < items.len() ==> f.requires((&#[trigger] items[k],)),
                forall|k: int| 0 <= k < i ==> f.ensures((&items[k],), #[trigger] results[k]),
            decreases items.len() - i,
        {
            let result = f(&items[i]);
            results.push(result);
            i += 1;
        }
        let ghost witness = results@;
        let r = Valid::collect(results);
        proof {
            assert(gathered(outcomes_of(witness), r@));
        }
        r
    }
}

impl<A, B> Valid<(A, B)> {
    /// Adds a third independent result to a pair of them.
    pub fn fuse<C>(self, other: Valid<C>) -> (r: Valid<(A, B, C)>)
        ensures
            r@ == match zipped(self@, other@) {
                Ok(pair) => Ok((pair.0.0, pair.0.1, pair.1)),
                Err(causes) => Err(causes),
            },
    {
        match self.zip(other).to_result() {
            Ok(pair) => {
                let ((a, b), c) = pair;
                Valid::succeed((a, b, c))
            },
            Err(causes) => Valid { inner: Err(causes) },
        }
    }
}

/// Gathering is all or nothing: it succeeds exactly where no result failed.
pub proof fn lemma_gathered_fails_iff_any_failed<A>(
    outcomes: Seq<Outcome<A>>,
    result: Outcome<Vec<A>>,
)
    requires
        gathered(outcomes, result),
    ensures
        result is Err <==> count_failed(outcomes) > 0,
{
    lemma_count_failed_zero(outcomes);
}

/// No result failed exactly where every result succeeded.
pub proof fn lemma_count_failed_zero<A>(outcomes: Seq<Outcome<A>>)
    ensures
        count_failed(outcomes) == 0 <==> all_succeed(outcomes),
    decreases outcomes.len(),
{
    if outcomes.len() > 0 {
        let front = outcomes.drop_last();
        lemma_count_failed_zero(front);
        if all_succeed(outcomes) {
            assert forall|i: int| 0 <= i < front.len() implies (#[trigger] front[i]) is Ok by {
                assert(outcomes[i] is Ok);
            }
            assert(outcomes[outcomes.len() - 1] is Ok);
        }
        if count_failed(outcomes) == 0 {
            assert forall|i: int| 0 <= i < outcomes.len() implies (#[trigger] outcomes[i]) is Ok by {
                if i < front.len() {
                    assert(front[i] is Ok);
                }
            }
        }
    }
}

/// Accumulation loses nothing: where every failing result carries exactly one
/// cause, gathering a batch with `n` failing results reports exactly `n`
/// causes, not only the first.
pub proof fn lemma_one_cause_per_failure<A>(outcomes: Seq<Outcome<A>>, result: Outcome<Vec<A>>)
    requires
        gathered(outcomes, result),
        count_failed(outcomes) > 0,
        forall|i: int|
            0 <= i < outcomes.len() && (#[trigger] outcomes[i]) is Err ==> outcomes[i]->Err_0.len()
                == 1,
    ensures
        result is Err,
        result->Err_0.len() == count_failed(outcomes),
{
    lemma_count_failed_zero(outcomes);
    lemma_all_causes_len(outcomes);
}

/// The causes of a batch are as many as its failing results, where each of
/// those carries one.
pub proof fn lemma_all_causes_len<A>(outcomes: Seq<Outcome<A>>)
    requires
        forall|i: int|
            0 <= i < outcomes.len() && (#[trigger] outcomes[i]) is Err ==> outcomes[i]->Err_0.len()
                == 1,
    ensures
        all_causes(outcomes).len() == count_failed(outcomes),
    decreases outcomes.len(),
{
    if outcomes.len() > 0 {
        let front = outcomes.drop_last();
        assert forall|i: int| 0 <= i < front.len() && (#[trigger] front[i]) is Err implies front[i]->Err_0.len()
            == 1 by {
            assert(outcomes[i] is Err);
        }
        lemma_all_causes_len(front);
        assert(outcomes.last() == outcomes[outcomes.len() - 1]);
    }
}

/// The causes of a failing result stand in the causes of its batch, in their
/// own order: those of result `i` begin where `all_causes` of the results
/// before it ends.
pub proof fn lemma_causes_are_kept<A>(outcomes: Seq<Outcome<A>>, i: int)
    requires
        0 <= i < outcomes.len(),
    ensures
        all_causes(outcomes.take(i)).len() + causes_of(outcomes[i]).len() <= all_causes(
            outcomes,
        ).len(),
        all_causes(outcomes).subrange(
            all_causes(outcomes.take(i)).len() as int,
            (all_causes(outcomes.take(i)).len() + causes_of(outcomes[i]).len()) as int,
        ) == causes_of(outcomes[i]),
    decreases outcomes.len(),
{
    let front = outcomes.drop_last();
    let start = all_causes(outcomes.take(i)).len() as int;
    let own = causes_of(outcomes[i]);
    if i == outcomes.len() - 1 {
        assert(outcomes.take(i) =~= front);
        assert(all_causes(outcomes).subrange(start, start + own.len()) =~= own);
    } else {
        lemma_causes_are_kept(front, i);
        assert(front.take(i) =~= outcomes.take(i));
        assert(front[i] == outcomes[i]);
        assert(all_causes(outcomes).subrange(start, start + own.len()) =~= all_causes(
            front,
        ).subrange(start, start + own.len()));
    }
}

/// The models of results, after one more result.
pub proof fn lemma_each_deeply_push<A: DeepView>(results: Seq<Valid<A>>, last: Valid<A>)
    ensures
        each_deeply(outcomes_of(results.push(last))) == each_deeply(outcomes_of(results)).push(
            deeply(last@),
        ),
{
    assert(each_deeply(outcomes_of(results.push(last))) =~= each_deeply(
        outcomes_of(results),
    ).push(deeply(last@)));
}

/// The causes of a batch do not depend on how its values are modelled.
pub proof fn lemma_all_causes_deeply<A: DeepView>(outcomes: Seq<Outcome<A>>)
    ensures
        all_causes(each_deeply(outcomes)) == all_causes(outcomes),
    decreases outcomes.len(),
{
    if outcomes.len() > 0 {
        lemma_all_causes_deeply(outcomes.drop_last());
        assert(each_deeply(outcomes).drop_last() =~= each_deeply(outcomes.drop_last()));
    }
}

/// What was gathered from results is what gathering their models gives.
pub proof fn lemma_gathered_deeply<A: DeepView>(outcomes: Seq<Outcome<A>>, result: Outcome<Vec<A>>)
    requires
        gathered(outcomes, result),
    ensures
        match result {
            Ok(values) => gather(each_deeply(outcomes)) == Ok::<Seq<A::V>, Seq<CauseView>>(
                deep(values@),
            ),
            Err(causes) => gather(each_deeply(outcomes)) == Err::<Seq<A::V>, Seq<CauseView>>(
                causes,
            ),
        },
{
    lemma_all_causes_deeply(outcomes);
    let models = each_deeply(outcomes);
    if all_succeed(outcomes) {
        assert(all_succeed(models)) by {
            assert forall|i: int| 0 <= i < models.len() implies (#[trigger] models[i]) is Ok by {
                assert(outcomes[i] is Ok);
            }
        }
        assert(all_values(models) =~= deep(result->Ok_0@));
    } else {
        let i = choose|i: int| 0 <= i < outcomes.len() && !((#[trigger] outcomes[i]) is Ok);
        assert(models[i] is Err);
    }
}

impl<A> Valid<Option<A>> {
    /// The success that holds no value.
    pub fn none() -> (r: Self)
        ensures
            r@ == Ok::<Option<A>, Seq<CauseView>>(None),
    {
        Valid::succeed(None)
    }
}

impl<A> Valid<A> {
    /// Wraps the value of a success in `Some`.
    pub fn some(self) -> (r: Valid<Option<A>>)
        ensures
            r@ == match self@ {
                Ok(a) => Ok(Some(a)),
                Err(causes) => Err(causes),
            },
    {
        match self.to_result() {
            Ok(a) => Valid::succeed(Some(a)),
            Err(causes) => Valid { inner: Err(causes) },
        }
    }
}

} // verus!
