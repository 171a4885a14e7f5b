//! Response processing functions: handlers that transform responses on their way to the
//! client, and the bookkeeping for batches.
use vstd::prelude::*;

use crate::json::{json_eq, same_json, str_eq, JsonValue};

verus! {

/// Trait representing a client waiting for the response(s).
pub trait ResponseHandler<T> {
    /// The responses this client can take.
    spec fn accepts(&self, response: T) -> bool;

    /// Send a reponse to that client.
    fn send(&self, response: T)
        requires
            self.accepts(response),
    ;
}

impl<T, F: Fn(T)> ResponseHandler<T> for F {
    open spec fn accepts(&self, response: T) -> bool {
        call_requires(*self, (response,))
    }

    fn send(&self, response: T) {
        self(response)
    }
}

/// What a closure accepts as a client is what it may be called with.
pub proof fn lemma_closure_response_handler<T, F: Fn(T)>(f: F)
    ensures
        forall|t: T| #[trigger] ResponseHandler::<T>::accepts(&f, t) == call_requires(f, (t,)),
{
}

/// A transformation of responses.
pub trait Mapper<B, A> {
    /// The inputs this transformation can take.
    spec fn accepts(&self, b: B) -> bool;

    /// `a` is a possible result of transforming `b`.
    spec fn maps(&self, b: B, a: A) -> bool;

    /// Transforms a response.
    fn apply(&self, b: B) -> (a: A)
        requires
            self.accepts(b),
        ensures
            self.maps(b, a),
    ;
}

impl<B, A, F: Fn(B) -> A> Mapper<B, A> for F {
    open spec fn accepts(&self, b: B) -> bool {
        call_requires(*self, (b,))
    }

    open spec fn maps(&self, b: B, a: A) -> bool {
        call_ensures(*self, (b,), a)
    }

    fn apply(&self, b: B) -> (a: A) {
        self(b)
    }
}

/// What a closure accepts as a transformation is what it may be called with, and what it
/// maps a response to is what the call may return.
pub proof fn lemma_closure_mapper<B, A, F: Fn(B) -> A>(f: F)
    ensures
        forall|b: B| #[trigger] Mapper::<B, A>::accepts(&f, b) == call_requires(f, (b,)),
        forall|b: B, a: A| #[trigger] Mapper::<B, A>::maps(&f, b, a) == call_ensures(f, (b,), a),
{
}

/// The identity transformation.
pub struct Identity;

impl<X> Mapper<X, X> for Identity {
    open spec fn accepts(&self, b: X) -> bool {
        true
    }

    open spec fn maps(&self, b: X, a: X) -> bool {
        a == b
    }

    fn apply(&self, b: X) -> (a: X) {
        b
    }
}

/// Transformation `inner` followed by transformation `outer`.
pub struct Compose<B, M, G> {
    /// The transformation applied last.
    pub outer: M,
    /// The transformation applied first.
    pub inner: G,
    /// The type of the intermediate value.
    pub mid: std::marker::PhantomData<B>,
}

impl<A, B, C, M: Mapper<B, A>, G: Mapper<C, B>> Mapper<C, A> for Compose<B, M, G> {
    open spec fn accepts(&self, c: C) -> bool {
        &&& self.inner.accepts(c)
        &&& forall|b: B| self.inner.maps(c, b) ==> self.outer.accepts(b)
    }

    open spec fn maps(&self, c: C, a: A) -> bool {
        exists|b: B| self.inner.maps(c, b) && self.outer.maps(b, a)
    }

    fn apply(&self, c: C) -> (a: A) {
        let b = self.inner.apply(c);
        self.outer.apply(b)
    }
}

/// Response handler with transformations: a response of type `B` is transformed by `mapper`
/// and sent to `handler`.
pub struct Handler<A, B, X, Y> {
    handler: X,
    mapper: Y,
    types: std::marker::PhantomData<(A, B)>,
}

impl<A, X: ResponseHandler<A>> Handler<A, A, X, Identity> {
    /// Creates new identity handler.
    /// There is no mapping, same type is send upstream.
    pub fn id(handler: X) -> (r: Self)
        ensures
            r.upstream() == handler,
            forall|b: A, a: A| r.delivers(b, a) <==> a == b,
            forall|b: A| r.accepts(b) <==> handler.accepts(b),
    {
        Handler { handler: handler, mapper: Identity, types: std::marker::PhantomData }
    }
}

impl<A, B, X: ResponseHandler<A>, Y: Mapper<B, A>> Handler<A, B, X, Y> {
    /// The client that receives the transformed responses.
    pub closed spec fn upstream(&self) -> X {
        self.handler
    }

    /// The transformation.
    pub closed spec fn mapper(&self) -> Y {
        self.mapper
    }

    /// A response `b` may reach the client as `a`.
    pub open spec fn delivers(&self, b: B, a: A) -> bool {
        self.mapper().maps(b, a)
    }

    /// A response `b` can be sent through this handler.
    pub open spec fn accepts(&self, b: B) -> bool {
        &&& self.mapper().accepts(b)
        &&& forall|a: A| self.mapper().maps(b, a) ==> self.upstream().accepts(a)
    }

    /// Create a new `Handler` with given transformation function.
    pub fn new(handler: X, mapper: Y) -> (r: Self)
        ensures
            r.upstream() == handler,
            r.mapper() == mapper,
    {
        Handler { handler: handler, mapper: mapper, types: std::marker::PhantomData }
    }

    /// Convert this `Handler` into a new one, accepting different input: a response is first
    /// transformed by `map`, then as before.
    pub fn map<C, G: Mapper<C, B>>(self, map: G) -> (r: Handler<A, C, X, Compose<B, Y, G>>)
        ensures
            r.upstream() == self.upstream(),
            forall|c: C, a: A| r.delivers(c, a) <==> exists|b: B| map.maps(c, b) && self.delivers(b, a),
            forall|c: C|
                r.accepts(c) <==> (map.accepts(c) && forall|b: B| map.maps(c, b) ==> self.accepts(b)),
    {
        let r = Handler {
            handler: self.handler,
            mapper: Compose { outer: self.mapper, inner: map, mid: std::marker::PhantomData },
            types: std::marker::PhantomData,
        };
        proof {
            assert(r.mapper().inner == map);
            assert(r.mapper().outer == self.mapper());
            assert forall|c: C, a: A| r.delivers(c, a) <==> exists|b: B| map.maps(c, b) && self.delivers(b, a) by {
                if r.delivers(c, a) {
                    assert(r.mapper().maps(c, a));
                }
            }
            assert(r.upstream() == self.upstream());
            assert forall|c: C|
                r.accepts(c) <==> (map.accepts(c) && forall|b: B| map.maps(c, b) ==> self.accepts(b)) by {
                if r.accepts(c) {
                    assert forall|b: B| map.maps(c, b) implies self.accepts(b) by {
                        assert forall|a: A| self.mapper().maps(b, a) implies self.upstream().accepts(a) by {
                            assert(r.mapper().inner.maps(c, b) && r.mapper().outer.maps(b, a));
                            assert(r.mapper().maps(c, a));
                        }
                    }
                }
                if map.accepts(c) && forall|b: B| map.maps(c, b) ==> self.accepts(b) {
                    assert forall|a: A| r.mapper().maps(c, a) implies r.upstream().accepts(a) by {
                        let b = choose|b: B| map.maps(c, b) && self.mapper().maps(b, a);
                        assert(self.accepts(b));
                    }
                }
            }
        }
        r
    }

    /// The value that the client receives for `response`: the response, transformed.
    pub fn transform(&self, response: B) -> (a: A)
        requires
            self.accepts(response),
        ensures
            self.delivers(response, a),
            self.upstream().accepts(a),
    {
        self.mapper.apply(response)
    }

    /// Sends a response: the client receives it transformed (see [`Handler::transform`]).
    pub fn send(&self, response: B)
        requires
            self.accepts(response),
    {
        let mapped = self.transform(response);
        self.handler.send(mapped)
    }
}

impl<A, B, X: ResponseHandler<A>, Y: Mapper<B, A>> ResponseHandler<B> for Handler<A, B, X, Y> {
    open spec fn accepts(&self, response: B) -> bool {
        Handler::accepts(self, response)
    }

    fn send(&self, response: B) {
        Handler::send(self, response)
    }
}


/// An event of a split batch: the index of the sub-handler that received a response, and
/// the response.
pub type SplitEvent<C> = (nat, C);

/// Some event of `history` came from sub-handler `i`.
pub open spec fn seen<C>(history: Seq<SplitEvent<C>>, i: nat) -> bool
    decreases history.len(),
{
    if history.len() == 0 {
        false
    } else {
        history.last().0 == i || seen(history.drop_last(), i)
    }
}

/// Every one of the sub-handlers `0..count` received a response in `history`.
pub open spec fn all_seen<C>(history: Seq<SplitEvent<C>>, count: nat) -> bool {
    forall|i: nat| i < count ==> #[trigger] seen(history, i)
}

/// The first response of each sub-handler, in the order in which they arrived.
pub open spec fn first_responses<C>(history: Seq<SplitEvent<C>>) -> Seq<C>
    decreases history.len(),
{
    if history.len() == 0 {
        Seq::empty()
    } else if seen(history.drop_last(), history.last().0) {
        first_responses(history.drop_last())
    } else {
        first_responses(history.drop_last()).push(history.last().1)
    }
}

/// Number of `false` entries.
pub open spec fn count_false(s: Seq<bool>) -> nat
    decreases s.len(),
{
    if s.len() == 0 {
        0
    } else {
        count_false(s.drop_last()) + if s.last() { 0nat } else { 1nat }
    }
}

proof fn lemma_count_false_zero(s: Seq<bool>)
    ensures
        count_false(s) == 0 <==> forall|i: int| 0 <= i < s.len() ==> #[trigger] s[i],
    decreases s.len(),
{
    if s.len() > 0 {
        lemma_count_false_zero(s.drop_last());
        if count_false(s) == 0 {
            assert forall|i: int| 0 <= i < s.len() implies #[trigger] s[i] by {
                if i < s.len() - 1 {
                    assert(s.drop_last()[i] == s[i]);
                }
            }
        }
        if forall|i: int| 0 <= i < s.len() ==> #[trigger] s[i] {
            assert forall|i: int| 0 <= i < s.drop_last().len() implies #[trigger] s.drop_last()[i] by {
                assert(s[i]);
            }
            assert(s[s.len() - 1]);
        }
    }
}

proof fn lemma_count_false_set(s: Seq<bool>, i: int)
    requires
        0 <= i < s.len(),
        !s[i],
    ensures
        count_false(s.update(i, true)) + 1 == count_false(s),
    decreases s.len(),
{
    let t = s.update(i, true);
    if i == s.len() - 1 {
        assert(t.drop_last() =~= s.drop_last());
    } else {
        assert(t.drop_last() =~= s.drop_last().update(i, true));
        lemma_count_false_set(s.drop_last(), i);
    }
}

proof fn lemma_history_push<C>(h: Seq<SplitEvent<C>>, e: SplitEvent<C>)
    ensures
        forall|i: nat| #[trigger] seen(h.push(e), i) == (i == e.0 || seen(h, i)),
        first_responses(h.push(e)) == if seen(h, e.0) {
            first_responses(h)
        } else {
            first_responses(h).push(e.1)
        },
{
    assert(h.push(e).drop_last() =~= h);
}

/// Once every sub-handler has answered, every later history still has them all answered:
/// the batch response, sent when the last of them first answers, is sent once.
pub proof fn law_batch_response_sent_once<C>(history: Seq<SplitEvent<C>>, e: SplitEvent<C>, count: nat)
    requires
        all_seen(history, count),
    ensures
        all_seen(history.push(e), count),
{
    lemma_history_push(history, e);
    assert forall|i: nat| i < count implies #[trigger] seen(history.push(e), i) by {
        assert(seen(history, i));
    }
}

/// The calls of the upstream handler that the responses of `history` lead to, in order,
/// for a split into `count` sub-handlers: `(v, true)` is the batch response with the
/// responses `v` (through `map_many`), `(seq![r], false)` a later response `r` passed on
/// alone (through `map_single`).
pub open spec fn upstream_calls<C>(count: nat, history: Seq<SplitEvent<C>>) -> Seq<(Seq<C>, bool)>
    decreases history.len(),
{
    if history.len() == 0 {
        if count == 0 {
            seq![(Seq::<C>::empty(), true)]
        } else {
            Seq::empty()
        }
    } else {
        let before = history.drop_last();
        let prev = upstream_calls(count, before);
        if all_seen(before, count) {
            prev.push((seq![history.last().1], false))
        } else if all_seen(history, count) {
            prev.push((first_responses(history), true))
        } else {
            prev
        }
    }
}

proof fn lemma_upstream_push<C>(count: nat, h: Seq<SplitEvent<C>>, e: SplitEvent<C>)
    ensures
        upstream_calls(count, h.push(e)) == if all_seen(h, count) {
            upstream_calls(count, h).push((seq![e.1], false))
        } else if all_seen(h.push(e), count) {
            upstream_calls(count, h).push((first_responses(h.push(e)), true))
        } else {
            upstream_calls(count, h)
        },
{
    assert(h.push(e).drop_last() =~= h);
}

/// Whether sub-handler `i` answered, for each of the sub-handlers `0..count`.
pub open spec fn answered_flags<C>(history: Seq<SplitEvent<C>>, count: nat) -> Seq<bool> {
    Seq::new(count, |i: int| seen(history, i as nat))
}

proof fn lemma_first_responses_len<C>(history: Seq<SplitEvent<C>>, count: nat)
    requires
        forall|j: int| 0 <= j < history.len() ==> (#[trigger] history[j]).0 < count,
    ensures
        first_responses(history).len() + count_false(answered_flags(history, count)) == count,
    decreases history.len(),
{
    let flags = answered_flags(history, count);
    if history.len() == 0 {
        assert forall|i: nat| !seen(history, i) by {}
        lemma_count_false_all(flags);
    } else {
        let before = history.drop_last();
        let e = history.last();
        assert forall|j: int| 0 <= j < before.len() implies (#[trigger] before[j]).0 < count by {
            assert(before[j] == history[j]);
        }
        lemma_first_responses_len(before, count);
        assert(history == before.push(e));
        lemma_history_push(before, e);
        let old_flags = answered_flags(before, count);
        assert(e.0 < count) by {
            assert(history[history.len() - 1] == e);
        }
        if seen(before, e.0) {
            assert(flags =~= old_flags);
        } else {
            assert(flags =~= old_flags.update(e.0 as int, true));
            lemma_count_false_set(old_flags, e.0 as int);
        }
    }
}

proof fn lemma_count_false_all(s: Seq<bool>)
    requires
        forall|i: int| 0 <= i < s.len() ==> !#[trigger] s[i],
    ensures
        count_false(s) == s.len(),
    decreases s.len(),
{
    if s.len() > 0 {
        assert forall|i: int| 0 <= i < s.drop_last().len() implies !#[trigger] s.drop_last()[i] by {
            assert(s.drop_last()[i] == s[i]);
        }
        lemma_count_false_all(s.drop_last());
        assert(!s[s.len() - 1]);
    }
}

/// For a split into one or more sub-handlers whose sub-handlers receive the responses of
/// `history`, in any order: the upstream handler is not called until every sub-handler has
/// received a response; then it is called once with the batch of the first response of each
/// sub-handler, `count` responses in the order in which they arrived; every response after
/// that is passed on alone, in order.
pub proof fn law_split_calls_upstream<C>(count: nat, history: Seq<SplitEvent<C>>)
    requires
        count >= 1,
        forall|j: int| 0 <= j < history.len() ==> (#[trigger] history[j]).0 < count,
    ensures
        ({
            let calls = upstream_calls(count, history);
            &&& !all_seen(history, count) ==> calls.len() == 0
            &&& all_seen(history, count) ==> {
                &&& 1 <= calls.len() <= history.len()
                &&& calls[0] == (first_responses(history), true)
                &&& first_responses(history).len() == count
                &&& forall|j: int|
                    1 <= j < calls.len() ==> #[trigger] calls[j] == (
                        seq![history[history.len() - calls.len() + j].1],
                        false,
                    )
            }
        }),
    decreases history.len(),
{
    let calls = upstream_calls(count, history);
    if history.len() == 0 {
        assert(!seen(history, 0));
    } else {
        let before = history.drop_last();
        let e = history.last();
        assert forall|j: int| 0 <= j < before.len() implies (#[trigger] before[j]).0 < count by {
            assert(before[j] == history[j]);
        }
        law_split_calls_upstream(count, before);
        assert(history == before.push(e));
        lemma_history_push(before, e);
        let prev = upstream_calls(count, before);
        assert(e.0 < count) by {
            assert(history[history.len() - 1] == e);
        }
        if all_seen(before, count) {
            assert(seen(before, e.0));
            law_batch_response_sent_once(before, e, count);
            assert(calls == prev.push((seq![e.1], false)));
            assert forall|j: int|
                1 <= j < calls.len() implies #[trigger] calls[j] == (
                    seq![history[history.len() - calls.len() + j].1],
                    false,
                ) by {
                if j < prev.len() {
                    assert(calls[j] == prev[j]);
                    assert(history[history.len() - calls.len() + j] == before[before.len() - prev.len() + j]);
                }
            }
        } else if all_seen(history, count) {
            assert(calls == prev.push((first_responses(history), true)));
        } else {
            assert(calls == prev);
        }
        if all_seen(history, count) {
            lemma_first_responses_len(history, count);
            lemma_count_false_zero(answered_flags(history, count));
            assert forall|i: int| 0 <= i < answered_flags(history, count).len() implies #[trigger] answered_flags(
                history,
                count,
            )[i] by {
                assert(seen(history, i as nat));
            }
        }
    }
}

/// What to do with a response that reached one of the handlers of a split batch.
pub enum SplitAction<C> {
    /// Nothing is sent upstream yet: the response is kept for the batch response.
    Wait,
    /// Nothing is sent upstream: the sub-handler already answered and the batch response has
    /// not been sent.
    Discard,
    /// The batch response was sent already: pass this response upstream on its own
    /// (through `map_single`).
    Forward(C),
    /// The last sub-handler answered for the first time: send the first responses upstream
    /// together (through `map_many`).
    Complete(Vec<C>),
}

/// The shared state of the `count` handlers that `split_map` makes of a handler.
///
/// The upstream handler is called only when all sub-handlers received a response for the
/// first time. The first response of each sub-handler is part of that batch response; the
/// responses that arrive later are passed on one by one, and those that arrive after a
/// sub-handler's first response but before the batch response is sent are discarded.
pub struct SplitState<C> {
    count: usize,
    answered: Vec<bool>,
    outputs: Vec<C>,
    initial_sent: bool,
    history: Ghost<Seq<SplitEvent<C>>>,
}

impl<C> SplitState<C> {
    /// Number of sub-handlers.
    pub closed spec fn count(&self) -> nat {
        self.count as nat
    }

    /// Every response received so far, with the index of its sub-handler.
    pub closed spec fn history(&self) -> Seq<SplitEvent<C>> {
        self.history@
    }

    /// The batch response has been sent.
    pub closed spec fn initial_sent(&self) -> bool {
        self.initial_sent
    }

    /// The state's invariant.
    pub closed spec fn wf(&self) -> bool {
        &&& self.answered@.len() == self.count
        &&& forall|i: int| 0 <= i < self.count ==> #[trigger] self.answered@[i] == seen(self.history@, i as nat)
        &&& self.initial_sent == all_seen(self.history@, self.count as nat)
        &&& !self.initial_sent ==> {
            &&& self.outputs@ == first_responses(self.history@)
            &&& self.outputs@.len() + count_false(self.answered@) == self.count
        }
    }

    /// The state of `count` fresh sub-handlers. When `count` is zero there is nothing to
    /// wait for: the batch response, with no responses in it, is due at once and is returned.
    pub fn new(count: usize) -> (r: (Self, Option<Vec<C>>))
        ensures
            r.0.wf(),
            r.0.count() == count,
            r.0.history() == Seq::<SplitEvent<C>>::empty(),
            r.0.initial_sent() == (count == 0),
            count == 0 ==> (r.1 matches Some(v) && v@.len() == 0),
            count != 0 ==> r.1 is None,
            upstream_calls(count as nat, r.0.history()) == match r.1 {
                Some(v) => seq![(v@, true)],
                None => Seq::empty(),
            },
    {
        let mut answered: Vec<bool> = Vec::new();
        let mut k: usize = 0;
        while k < count
            invariant
                k <= count,
                answered@.len() == k,
                forall|i: int| 0 <= i < k ==> !#[trigger] answered@[i],
                count_false(answered@) == k,
            decreases count - k,
        {
            proof {
                assert(answered@.push(false).drop_last() =~= answered@);
            }
            answered.push(false);
            k = k + 1;
        }
        let ghost h = Seq::<SplitEvent<C>>::empty();
        proof {
            if count > 0 {
                assert(!seen(h, 0));
            }
        }
        let state = SplitState {
            count,
            answered,
            outputs: Vec::new(),
            initial_sent: count == 0,
            history: Ghost(h),
        };
        if count == 0 {
            (state, Some(Vec::new()))
        } else {
            (state, None)
        }
    }

    /// Whether the batch response has been sent.
    pub fn is_initial_sent(&self) -> (r: bool)
        ensures
            r == self.initial_sent(),
    {
        self.initial_sent
    }

    /// A response `res` reached sub-handler `index`: records it and says what to send
    /// upstream.
    pub fn respond(&mut self, index: usize, res: C) -> (action: SplitAction<C>)
        requires
            old(self).wf(),
            index < old(self).count(),
        ensures
            final(self).wf(),
            final(self).count() == old(self).count(),
            final(self).history() == old(self).history().push((index as nat, res)),
            final(self).initial_sent() == all_seen(final(self).history(), final(self).count()),
            old(self).initial_sent() ==> action == SplitAction::Forward(res),
            !old(self).initial_sent() && seen(old(self).history(), index as nat) ==> action
                is Discard,
            !old(self).initial_sent() && !seen(old(self).history(), index as nat)
                && !final(self).initial_sent() ==> action is Wait,
            !old(self).initial_sent() && final(self).initial_sent() ==> (action matches SplitAction::Complete(v)
                && v@ == first_responses(final(self).history())),
            upstream_calls(final(self).count(), final(self).history()) == upstream_calls(
                old(self).count(),
                old(self).history(),
            ) + match action {
                SplitAction::Complete(v) => seq![(v@, true)],
                SplitAction::Forward(r) => seq![(seq![r], false)],
                _ => Seq::empty(),
            },
    {
        let ghost h = self.history@;
        let ghost e: SplitEvent<C> = (index as nat, res);
        proof {
            lemma_history_push(h, e);
            lemma_upstream_push(self.count as nat, h, e);
        }
        if self.initial_sent {
            self.history = Ghost(h.push(e));
            proof {
                assert(seen(h, index as nat));
                assert forall|i: nat| i < self.count implies #[trigger] seen(self.history@, i) by {
                    assert(seen(h, i));
                }
            }
            return SplitAction::Forward(res);
        }
        if self.answered[index] {
            self.history = Ghost(h.push(e));
            proof {
                if all_seen(self.history@, self.count as nat) {
                    assert forall|i: nat| i < self.count implies #[trigger] seen(h, i) by {
                        assert(seen(self.history@, i));
                    }
                }
            }
            return SplitAction::Discard;
        }
        let ghost old_answered = self.answered@;
        self.answered.set(index, true);
        self.outputs.push(res);
        self.history = Ghost(h.push(e));
        proof {
            lemma_count_false_set(old_answered, index as int);
            lemma_count_false_zero(self.answered@);
            assert forall|i: int| 0 <= i < self.count implies #[trigger] self.answered@[i] == seen(
                self.history@,
                i as nat,
            ) by {
                if i != index {
                    assert(old_answered[i] == seen(h, i as nat));
                }
            }
        }
        if self.outputs.len() == self.count {
            let mut batch: Vec<C> = Vec::new();
            std::mem::swap(&mut batch, &mut self.outputs);
            self.initial_sent = true;
            proof {
                assert forall|i: nat| i < self.count implies #[trigger] seen(self.history@, i) by {
                    assert(self.answered@[i as int]);
                }
            }
            SplitAction::Complete(batch)
        } else {
            proof {
                let j = choose|j: int| 0 <= j < self.answered@.len() && !#[trigger] self.answered@[j];
                assert(!seen(self.history@, j as nat));
            }
            SplitAction::Wait
        }
    }
}


/// The subscriptions of `subs` that stay when the subscription `name`/`id` is removed: every
/// one but those with both that name and that id.
pub open spec fn kept_subscriptions<U>(subs: Seq<(String, JsonValue, U)>, name: Seq<char>, id: JsonValue) -> Seq<
    (String, JsonValue, U),
>
    decreases subs.len(),
{
    if subs.len() == 0 {
        Seq::empty()
    } else {
        let rest = kept_subscriptions(subs.drop_last(), name, id);
        if !(subs.last().0@ == name && same_json(subs.last().1, id)) {
            rest.push(subs.last())
        } else {
            rest
        }
    }
}

/// Object representing current session: the subscriptions opened in it, each with its name,
/// its id and the command that closes it. When the session ends every subscription still in
/// it is closed.
pub struct Session<U> {
    subscriptions: Vec<(String, JsonValue, U)>,
}

impl<U> Session<U> {
    /// The subscriptions, in the order in which they were added.
    pub closed spec fn subscriptions(&self) -> Seq<(String, JsonValue, U)> {
        self.subscriptions@
    }

    /// A session without subscriptions.
    pub fn new() -> (r: Self)
        ensures
            r.subscriptions() == Seq::<(String, JsonValue, U)>::empty(),
    {
        Session { subscriptions: Vec::new() }
    }

    /// Adds new subscription to this session for auto-unsubscribe.
    pub fn add_subscription(&mut self, name: String, id: JsonValue, unsubscribe: U)
        ensures
            final(self).subscriptions() == old(self).subscriptions().push((name, id, unsubscribe)),
    {
        self.subscriptions.push((name, id, unsubscribe));
    }

    /// Removes a subscription from auto-unsubscribe (the client has unsubscribed): the
    /// subscription with that name and that id leaves the session; every other one stays.
    pub fn remove_subscription(&mut self, name: String, id: JsonValue)
        ensures
            final(self).subscriptions() == kept_subscriptions(old(self).subscriptions(), name@, id),
    {
        let mut all: Vec<(String, JsonValue, U)> = Vec::new();
        std::mem::swap(&mut all, &mut self.subscriptions);
        let ghost whole = all@;
        let mut rev: Vec<(String, JsonValue, U)> = Vec::new();
        while all.len() > 0
            invariant
                all@ == whole.take(all@.len() as int),
                rev@.len() + all@.len() == whole.len(),
                forall|g: int| 0 <= g < rev@.len() ==> rev@[g] == whole[whole.len() - 1 - g],
            decreases all@.len(),
        {
            let e = all.pop().unwrap();
            proof {
                assert(all@ =~= whole.take(all@.len() as int));
            }
            rev.push(e);
        }
        let mut kept: Vec<(String, JsonValue, U)> = Vec::new();
        let ghost mut done: int = 0;
        proof {
            assert(whole.take(0) =~= Seq::<(String, JsonValue, U)>::empty());
        }
        while rev.len() > 0
            invariant
                done + rev@.len() == whole.len(),
                0 <= done <= whole.len(),
                forall|g: int| 0 <= g < rev@.len() ==> rev@[g] == whole[whole.len() - 1 - g],
                kept@ == kept_subscriptions(whole.take(done), name@, id),
            decreases rev@.len(),
        {
            let e = rev.pop().unwrap();
            proof {
                assert(e == whole[done]);
                assert(whole.take(done + 1).drop_last() =~= whole.take(done));
                assert(whole.take(done + 1).last() == e);
            }
            let same_name = str_eq(e.0.as_str(), name.as_str());
            let same_id = json_eq(&e.1, &id);
            if !(same_name && same_id) {
                kept.push(e);
            }
            proof {
                done = done + 1;
            }
        }
        proof {
            assert(whole.take(done) =~= whole);
        }
        self.subscriptions = kept;
    }

    /// Ends the session: the id and the closing command of every subscription still in it,
    /// in order, for each to be closed.
    pub fn close(self) -> (r: Vec<(JsonValue, U)>)
        ensures
            r@.len() == self.subscriptions().len(),
            forall|i: int|
                0 <= i < r@.len() ==> #[trigger] r@[i] == (self.subscriptions()[i].1, self.subscriptions()[i].2),
    {
        let ghost whole = self.subscriptions@;
        let mut all = self.subscriptions;
        let mut rev: Vec<(JsonValue, U)> = Vec::new();
        while all.len() > 0
            invariant
                all@ == whole.take(all@.len() as int),
                rev@.len() + all@.len() == whole.len(),
                forall|g: int|
                    0 <= g < rev@.len() ==> rev@[g] == (
                        whole[whole.len() - 1 - g].1,
                        whole[whole.len() - 1 - g].2,
                    ),
            decreases all@.len(),
        {
            let (_name, id, unsubscribe) = all.pop().unwrap();
            proof {
                assert(all@ =~= whole.take(all@.len() as int));
            }
            rev.push((id, unsubscribe));
        }
        let mut out: Vec<(JsonValue, U)> = Vec::new();
        while rev.len() > 0
            invariant
                out@.len() + rev@.len() == whole.len(),
                forall|g: int|
                    0 <= g < rev@.len() ==> rev@[g] == (
                        whole[whole.len() - 1 - g].1,
                        whole[whole.len() - 1 - g].2,
                    ),
                forall|g: int| 0 <= g < out@.len() ==> out@[g] == (whole[g].1, whole[g].2),
            decreases rev@.len(),
        {
            let e = rev.pop().unwrap();
            out.push(e);
        }
        out
    }
}

/// After a subscription is removed no subscription with both its name and its id is left,
/// and every other subscription stays, in order.
pub proof fn law_removed_subscription_is_gone<U>(subs: Seq<(String, JsonValue, U)>, name: Seq<char>, id: JsonValue)
    ensures
        forall|i: int|
            0 <= i < kept_subscriptions(subs, name, id).len() ==> !(#[trigger] kept_subscriptions(
                subs,
                name,
                id,
            )[i].0@ == name && same_json(kept_subscriptions(subs, name, id)[i].1, id)),
        forall|e: (String, JsonValue, U)|
            subs.contains(e) && !(e.0@ == name && same_json(e.1, id)) ==> #[trigger] kept_subscriptions(
                subs,
                name,
                id,
            ).contains(e),
        kept_subscriptions(subs, name, id).len() <= subs.len(),
    decreases subs.len(),
{
    if subs.len() > 0 {
        law_removed_subscription_is_gone(subs.drop_last(), name, id);
        let rest = kept_subscriptions(subs.drop_last(), name, id);
        let k = kept_subscriptions(subs, name, id);
        assert forall|e: (String, JsonValue, U)|
            subs.contains(e) && !(e.0@ == name && same_json(e.1, id)) implies #[trigger] k.contains(e) by {
            let j = choose|j: int| 0 <= j < subs.len() && subs[j] == e;
            if j < subs.len() - 1 {
                assert(subs.drop_last()[j] == e);
                assert(subs.drop_last().contains(e));
                assert(rest.contains(e));
                let t = choose|t: int| 0 <= t < rest.len() && rest[t] == e;
                if !(subs.last().0@ == name && same_json(subs.last().1, id)) {
                    assert(k[t] == e);
                }
            } else {
                assert(k.last() == e);
            }
        }
    }
}


} // verus!
