//! Response processing for plain request batches: the same transforming handlers as in
//! `control`, and a split that waits for one response from every part of a batch.
use vstd::prelude::*;

pub use crate::control::{Compose, Handler, Identity, Mapper, ResponseHandler};
use crate::control;
use crate::control::{all_seen, first_responses, seen, SplitEvent};

verus! {

/// What to do with a response that reached one of the handlers of a split batch.
pub enum SplitAction<C> {
    /// Nothing is sent upstream yet: the response is kept for the batch response.
    Wait,
    /// Nothing is sent upstream: this sub-handler already answered.
    Discard,
    /// The last sub-handler answered for the first time: send the first response of every
    /// sub-handler upstream together.
    Complete(Vec<C>),
}

/// The shared state of the `count` handlers that `split_map` makes of a handler: the
/// upstream handler is called once, when every sub-handler has received a response, with the
/// first response of each, in the order of their arrival.
pub struct SplitState<C> {
    inner: control::SplitState<C>,
}

impl<C> SplitState<C> {
    /// Number of sub-handlers.
    pub closed spec fn count(&self) -> nat {
        self.inner.count()
    }

    /// Every response received so far, with the index of its sub-handler.
    pub closed spec fn history(&self) -> Seq<SplitEvent<C>> {
        self.inner.history()
    }

    /// The batch response has been sent.
    pub closed spec fn done(&self) -> bool {
        self.inner.initial_sent()
    }

    /// The state's invariant.
    pub closed spec fn wf(&self) -> bool {
        self.inner.wf()
    }

    /// The state of `count` fresh sub-handlers; with none there is nothing to send.
    pub fn new(count: usize) -> (r: Self)
        ensures
            r.wf(),
            r.count() == count,
            r.history() == Seq::<SplitEvent<C>>::empty(),
            r.done() == (count == 0),
    {
        let (inner, _) = control::SplitState::new(count);
        SplitState { inner }
    }

    /// Whether the batch response has been sent.
    pub fn is_done(&self) -> (r: bool)
        ensures
            r == self.done(),
    {
        self.inner.is_initial_sent()
    }

    /// A response `res` reached sub-handler `index`: records it and says what to send
    /// upstream. Once the batch response has been sent no handler of the batch may receive
    /// anything more.
    pub fn respond(&mut self, index: usize, res: C) -> (action: SplitAction<C>)
        requires
            old(self).wf(),
            !old(self).done(),
            index < old(self).count(),
        ensures
            final(self).wf(),
            final(self).count() == old(self).count(),
            final(self).history() == old(self).history().push((index as nat, res)),
            final(self).done() == all_seen(final(self).history(), final(self).count()),
            seen(old(self).history(), index as nat) ==> action is Discard,
            !seen(old(self).history(), index as nat) && !final(self).done() ==> action is Wait,
            final(self).done() ==> (action matches SplitAction::Complete(v) && v@
                == first_responses(final(self).history())),
    {
        match self.inner.respond(index, res) {
            control::SplitAction::Complete(v) => SplitAction::Complete(v),
            control::SplitAction::Discard => SplitAction::Discard,
            _ => SplitAction::Wait,
        }
    }
}

} // verus!
