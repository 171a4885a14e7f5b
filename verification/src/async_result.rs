//! Asynchronous results: the slot that a result and its listener meet in, and the
//! collection of the outputs of a batch whose parts finish at different times.
use vstd::prelude::*;

use crate::commander::Data;

verus! {

/// What waits for a result that is not there yet.
#[derive(Debug, PartialEq, Eq, Clone, Copy, Structural)]
pub enum ListenerKind {
    /// A callback that takes the result.
    Result,
    /// A callback that only wakes a waiting thread, which then takes the result.
    Notify,
}

/// What to do after a result was set.
pub enum SetOutcome {
    /// A result listener was waiting: hand it this result now (it is not stored).
    Deliver(Data),
    /// The result is stored; wake the waiting thread.
    Notify,
    /// The result is stored; nobody waits yet.
    Stored,
}

/// The shared state of an asynchronous result: the result, once set and not yet taken, and
/// the listener that waits for it.
pub struct AsyncResultHandler {
    result: Option<Data>,
    listener: Option<ListenerKind>,
}

impl AsyncResultHandler {
    /// The result that is set and not yet taken.
    pub closed spec fn result(&self) -> Option<Data> {
        self.result
    }

    /// The listener that waits.
    pub closed spec fn listener(&self) -> Option<ListenerKind> {
        self.listener
    }

    /// No result and no listener.
    pub fn new() -> (r: Self)
        ensures
            r.result() is None,
            r.listener() is None,
    {
        AsyncResultHandler { result: None, listener: None }
    }

    /// Set result: a waiting result listener gets it at once; otherwise it is stored, and a
    /// waiting thread is woken.
    pub fn set_result(&mut self, res: Data) -> (r: SetOutcome)
        ensures
            final(self).listener() is None,
            old(self).listener() == Some(ListenerKind::Result) ==> r == SetOutcome::Deliver(res)
                && final(self).result() == old(self).result(),
            old(self).listener() == Some(ListenerKind::Notify) ==> r == SetOutcome::Notify
                && final(self).result() == Some(res),
            old(self).listener() is None ==> r == SetOutcome::Stored && final(self).result()
                == Some(res),
    {
        let listener = self.listener.take();
        match listener {
            Some(ListenerKind::Result) => SetOutcome::Deliver(res),
            Some(ListenerKind::Notify) => {
                self.result = Some(res);
                SetOutcome::Notify
            },
            None => {
                self.result = Some(res);
                SetOutcome::Stored
            },
        }
    }

    /// A callback asks for the result: when it is there it is taken and handed back, for the
    /// callback to be invoked right away; otherwise the callback becomes the listener and
    /// `None` is returned.
    pub fn on_result(&mut self) -> (r: Option<Data>)
        ensures
            r == old(self).result(),
            final(self).result() is None,
            old(self).result() is Some ==> final(self).listener() == old(self).listener(),
            old(self).result() is None ==> final(self).listener() == Some(ListenerKind::Result),
    {
        match self.result.take() {
            Some(result) => Some(result),
            None => {
                self.listener = Some(ListenerKind::Result);
                None
            },
        }
    }

    /// A thread waits for the result, which is not there yet.
    pub fn notify(&mut self)
        requires
            old(self).result() is None,
        ensures
            final(self).result() is None,
            final(self).listener() == Some(ListenerKind::Notify),
    {
        self.listener = Some(ListenerKind::Notify);
    }

    /// Takes the result, if it is there.
    pub fn try_result(&mut self) -> (r: Option<Data>)
        ensures
            r == old(self).result(),
            final(self).result() is None,
            final(self).listener() == old(self).listener(),
    {
        self.result.take()
    }
}

/// The collection of the outputs of a batch, some of which arrive later: the callback fires
/// once, when every output of the batch has been added, with the outputs in the order in
/// which they were added.
pub struct BatchCollector<T> {
    total: usize,
    added: usize,
    responses: Vec<T>,
    fired: bool,
    outputs: Ghost<Seq<T>>,
}

/// The calls of the batch callback that adding `outputs`, in order, to a collection for a
/// batch of `total` outputs leads to: one, with all of them, when the last of the batch is
/// added.
pub open spec fn batch_calls<T>(total: nat, outputs: Seq<T>) -> Seq<Seq<T>>
    decreases outputs.len(),
{
    if outputs.len() == 0 {
        Seq::empty()
    } else {
        let prev = batch_calls(total, outputs.drop_last());
        if outputs.len() == total {
            prev.push(outputs)
        } else {
            prev
        }
    }
}

/// Adding the outputs of a batch one by one, in any mix of outputs available at once and
/// outputs that arrived later: the callback is not called before the last one is added, and
/// then exactly once, with every output in the order in which they were added.
pub proof fn law_batch_callback_once<T>(total: nat, outputs: Seq<T>)
    requires
        outputs.len() <= total,
    ensures
        outputs.len() < total ==> batch_calls(total, outputs).len() == 0,
        outputs.len() == total && total > 0 ==> batch_calls(total, outputs) == seq![outputs],
    decreases outputs.len(),
{
    if outputs.len() > 0 {
        law_batch_callback_once(total, outputs.drop_last());
    }
}

impl<T> BatchCollector<T> {
    /// Number of outputs in the batch.
    pub closed spec fn total(&self) -> nat {
        self.total as nat
    }

    /// Number of outputs added so far.
    pub closed spec fn added(&self) -> nat {
        self.added as nat
    }

    /// The outputs collected so far and not yet handed to the callback.
    pub closed spec fn responses(&self) -> Seq<T> {
        self.responses@
    }

    /// The callback has fired.
    pub closed spec fn fired(&self) -> bool {
        self.fired
    }

    /// Every output added so far, in order.
    pub closed spec fn outputs(&self) -> Seq<T> {
        self.outputs@
    }

    /// The collection's invariant: before the callback fires, every output added is kept,
    /// and only an empty batch can have all of its outputs added.
    pub closed spec fn wf(&self) -> bool {
        &&& self.added <= self.total
        &&& self.outputs@.len() == self.added
        &&& !self.fired ==> self.responses@ == self.outputs@
        &&& !self.fired && self.added == self.total ==> self.total == 0
        &&& self.fired ==> self.added == self.total
    }

    /// A collection for a batch of `total` outputs, none added.
    pub fn new(total: usize) -> (r: Self)
        ensures
            r.wf(),
            r.total() == total,
            r.added() == 0,
            r.responses() == Seq::<T>::empty(),
            r.outputs() == Seq::<T>::empty(),
            !r.fired(),
    {
        BatchCollector { total, added: 0, responses: Vec::new(), fired: false, outputs: Ghost(Seq::empty()) }
    }

    /// Whether the callback has fired.
    pub fn has_fired(&self) -> (r: bool)
        ensures
            r == self.fired(),
    {
        self.fired
    }

    /// An output was added: when it was the last of the batch, the callback fires with every
    /// output collected.
    fn add(&mut self, output: T) -> (r: Option<Vec<T>>)
        requires
            old(self).wf(),
            old(self).added() < old(self).total(),
        ensures
            final(self).wf(),
            final(self).total() == old(self).total(),
            final(self).added() == old(self).added() + 1,
            final(self).fired() == (final(self).added() == final(self).total()),
            final(self).fired() ==> (r matches Some(v) && v@ == old(self).responses().push(output)),
            !final(self).fired() ==> r is None && final(self).responses()
                == old(self).responses().push(output),
            final(self).outputs() == old(self).outputs().push(output),
            batch_calls(final(self).total(), final(self).outputs()) == batch_calls(
                old(self).total(),
                old(self).outputs(),
            ) + match r {
                Some(v) => seq![v@],
                None => Seq::empty(),
            },
    {
        let ghost before = self.outputs@;
        proof {
            assert(before.push(output).drop_last() =~= before);
        }
        self.responses.push(output);
        self.outputs = Ghost(before.push(output));
        self.added = self.added + 1;
        if self.added == self.total {
            let mut all: Vec<T> = Vec::new();
            std::mem::swap(&mut all, &mut self.responses);
            self.fired = true;
            Some(all)
        } else {
            None
        }
    }

    /// An output that was available at once: when it was the last of the batch, the
    /// callback fires with every output collected.
    pub fn add_ready(&mut self, output: T) -> (r: Option<Vec<T>>)
        requires
            old(self).wf(),
            old(self).added() < old(self).total(),
        ensures
            final(self).wf(),
            final(self).total() == old(self).total(),
            final(self).added() == old(self).added() + 1,
            final(self).fired() == (final(self).added() == final(self).total()),
            final(self).fired() ==> (r matches Some(v) && v@ == old(self).responses().push(output)),
            !final(self).fired() ==> r is None && final(self).responses()
                == old(self).responses().push(output),
            final(self).outputs() == old(self).outputs().push(output),
            batch_calls(final(self).total(), final(self).outputs()) == batch_calls(
                old(self).total(),
                old(self).outputs(),
            ) + match r {
                Some(v) => seq![v@],
                None => Seq::empty(),
            },
    {
        self.add(output)
    }

    /// A pending output arrived: when it was the last of the batch, the callback fires with
    /// every output collected.
    pub fn add_resolved(&mut self, output: T) -> (r: Option<Vec<T>>)
        requires
            old(self).wf(),
            old(self).added() < old(self).total(),
        ensures
            final(self).wf(),
            final(self).total() == old(self).total(),
            final(self).added() == old(self).added() + 1,
            final(self).fired() == (final(self).added() == final(self).total()),
            final(self).fired() ==> (r matches Some(v) && v@ == old(self).responses().push(output)),
            !final(self).fired() ==> r is None && final(self).responses()
                == old(self).responses().push(output),
            final(self).outputs() == old(self).outputs().push(output),
            batch_calls(final(self).total(), final(self).outputs()) == batch_calls(
                old(self).total(),
                old(self).outputs(),
            ) + match r {
                Some(v) => seq![v@],
                None => Seq::empty(),
            },
    {
        self.add(output)
    }

    /// Every output of the batch was added or is pending: an empty batch fires now, with no
    /// outputs. Returns the outputs to fire with, and whether the callback has fired by now.
    pub fn finish(&mut self) -> (r: (Option<Vec<T>>, bool))
        requires
            old(self).wf(),
        ensures
            final(self).wf(),
            final(self).total() == old(self).total(),
            final(self).added() == old(self).added(),
            final(self).outputs() == old(self).outputs(),
            old(self).fired() ==> r.0 is None && r.1 && final(self).fired(),
            !old(self).fired() && old(self).total() == 0 ==> (r.0 matches Some(v) && v@.len() == 0)
                && r.1 && final(self).fired(),
            !old(self).fired() && old(self).total() > 0 ==> r.0 is None && !r.1
                && !final(self).fired() && final(self).responses() == old(self).responses(),
    {
        if self.fired {
            (None, true)
        } else if self.total == 0 {
            let mut all: Vec<T> = Vec::new();
            std::mem::swap(&mut all, &mut self.responses);
            self.fired = true;
            (Some(all), true)
        } else {
            (None, false)
        }
    }
}

} // verus!
