//! Method and notification commands and the registry that runs them.
use vstd::prelude::*;

use crate::control::ResponseHandler;
use crate::error::{Error, ErrorCode};
use crate::json::{str_eq, JsonValue};
use crate::types::Params;
use std::sync::Arc;

verus! {

/// Result of a method: a value or an error.
pub type Data = Result<JsonValue, Error>;

/// Should be used to handle single synchronous method call.
pub trait SyncMethodCommand {
    /// The parameters that this command may be run with.
    spec fn accepts(&self, params: Params) -> bool;

    /// `out` is a result that this command may give for `params`.
    spec fn produces(&self, params: Params, out: Data) -> bool;

    /// Execute synchronous method
    fn execute(&self, params: Params) -> (r: Data)
        requires
            self.accepts(params),
        ensures
            self.produces(params, r),
    ;
}

/// Default method command implementation for closure handling sync call.
impl<F: Fn(Params) -> Data> SyncMethodCommand for F {
    open spec fn accepts(&self, params: Params) -> bool {
        call_requires(*self, (params,))
    }

    open spec fn produces(&self, params: Params, out: Data) -> bool {
        call_ensures(*self, (params,), out)
    }

    fn execute(&self, params: Params) -> Data {
        self(params)
    }
}

/// What a closure accepts as a method is what it may be called with, and what it produces
/// is what the call may return.
pub proof fn lemma_closure_method<F: Fn(Params) -> Data>(f: F)
    ensures
        forall|p: Params| #[trigger] SyncMethodCommand::accepts(&f, p) == call_requires(f, (p,)),
        forall|p: Params, out: Data| #[trigger] SyncMethodCommand::produces(&f, p, out) == call_ensures(
            f,
            (p,),
            out,
        ),
{
}

/// Wrapper type for `SyncMethodCommand`
pub struct SyncMethod<C> {
    /// Synchronous command to execute
    pub command: C,
}

impl<C: SyncMethodCommand> SyncMethodCommand for SyncMethod<C> {
    open spec fn accepts(&self, params: Params) -> bool {
        self.command.accepts(params)
    }

    open spec fn produces(&self, params: Params, out: Data) -> bool {
        self.command.produces(params, out)
    }

    fn execute(&self, params: Params) -> Data {
        self.command.execute(params)
    }
}

/// Should be used to handle single notification.
pub trait NotificationCommand {
    /// The parameters that this command may be run with.
    spec fn accepts(&self, params: Params) -> bool;

    /// This command has run with `params`: what executing it with `params` leaves true.
    spec fn notified(&self, params: Params) -> bool;

    /// Execute notification
    fn execute(&self, params: Params)
        requires
            self.accepts(params),
        ensures
            self.notified(params),
    ;
}

/// Default notification command implementation for closure.
impl<F: Fn(Params)> NotificationCommand for F {
    open spec fn accepts(&self, params: Params) -> bool {
        call_requires(*self, (params,))
    }

    open spec fn notified(&self, params: Params) -> bool {
        call_ensures(*self, (params,), ())
    }

    fn execute(&self, params: Params) {
        self(params)
    }
}

/// Subscription control object
pub enum Subscription {
    /// Open new subscription with given parameters.
    Open {
        /// Subscription parameters
        params: Params,
        /// Awaiting subscriber: it answers the subscribe call with the subscription's id, or
        /// with the error that rejects it, and then carries the subscription's notifications.
        subscriber: Box<dyn ResponseHandler<Data>>,
    },
    /// Close previously opened subscription.
    Close {
        /// Id of subscription
        id: JsonValue,
        /// Answers the unsubscribe call.
        ready: Box<dyn ResponseHandler<Data>>,
    },
}

/// Should be used to handle subscriptions
pub trait SubscriptionCommand {
    /// `subscription` has been handed to this command: what executing it with
    /// `subscription` leaves true. An implementation states it; one that does not is taken
    /// to leave some fact true that nothing else establishes.
    open spec fn handled(&self, subscription: Subscription) -> bool {
        arbitrary()
    }

    /// Executes subscription
    fn execute(&self, subscription: Subscription)
        ensures
            self.handled(subscription),
    ;
}

/// What a closure accepts as a notification is what it may be called with.
pub proof fn lemma_closure_notification<F: Fn(Params)>(f: F)
    ensures
        forall|p: Params| #[trigger] NotificationCommand::accepts(&f, p) == call_requires(f, (p,)),
        forall|p: Params| #[trigger] NotificationCommand::notified(&f, p) == call_ensures(f, (p,), ()),
{
}

/// What a registered name stands for.
#[derive(Debug, PartialEq, Eq, Clone, Copy, Structural)]
pub enum MethodKind {
    /// A method call
    Call,
    /// A notification
    Notify,
    /// Opens a subscription
    Subscribe,
    /// Closes a subscription
    Unsubscribe,
}

/// A registered command.
pub enum Method {
    /// Method Call
    Call(Box<dyn SyncMethodCommand>),
    /// Notification
    Notify(Box<dyn NotificationCommand>),
    /// New subscription
    Subscribe(Arc<Box<dyn SubscriptionCommand>>),
    /// Close subscription
    Unsubscribe(Arc<Box<dyn SubscriptionCommand>>),
}

/// `out` is a result that the command `m` may give for `params` (never for a notification).
pub open spec fn method_produces(m: Method, params: Params, out: Data) -> bool {
    match m {
        Method::Call(c) => c.produces(params, out),
        _ => false,
    }
}

/// The kind of a registered command.
pub open spec fn spec_kind(m: Method) -> MethodKind {
    match m {
        Method::Call(_) => MethodKind::Call,
        Method::Notify(_) => MethodKind::Notify,
        Method::Subscribe(_) => MethodKind::Subscribe,
        Method::Unsubscribe(_) => MethodKind::Unsubscribe,
    }
}

/// The command is callable with any parameters.
pub open spec fn method_total(m: Method) -> bool {
    match m {
        Method::Call(c) => forall|p: Params| #[trigger] c.accepts(p),
        Method::Notify(n) => forall|p: Params| #[trigger] n.accepts(p),
        _ => true,
    }
}

/// The kind of the command registered last under `name` among `entries`.
pub open spec fn spec_lookup(entries: Seq<(String, Method)>, name: Seq<char>) -> Option<MethodKind>
    decreases entries.len(),
{
    if entries.len() == 0 {
        None
    } else if entries.last().0@ == name {
        Some(spec_kind(entries.last().1))
    } else {
        spec_lookup(entries.drop_last(), name)
    }
}

/// The command registered last under `name` among `entries`.
pub open spec fn spec_method_at(entries: Seq<(String, Method)>, name: Seq<char>) -> Option<Method>
    decreases entries.len(),
{
    if entries.len() == 0 {
        None
    } else if entries.last().0@ == name {
        Some(entries.last().1)
    } else {
        spec_method_at(entries.drop_last(), name)
    }
}

proof fn lemma_method_at_kind(entries: Seq<(String, Method)>, name: Seq<char>)
    ensures
        spec_lookup(entries, name) == match spec_method_at(entries, name) {
            Some(m) => Some(spec_kind(m)),
            None => None,
        },
    decreases entries.len(),
{
    if entries.len() > 0 {
        lemma_method_at_kind(entries.drop_last(), name);
    }
}

pub(crate) proof fn lemma_method_at_push(s: Seq<(String, Method)>, e: (String, Method), k: Seq<char>)
    ensures
        spec_method_at(s.push(e), k) == if e.0@ == k {
            Some(e.1)
        } else {
            spec_method_at(s, k)
        },
{
    assert(s.push(e).drop_last() =~= s);
}

proof fn lemma_method_at_update(s: Seq<(String, Method)>, i: int, e: (String, Method), k: Seq<char>)
    requires
        0 <= i < s.len(),
        s[i].0@ == e.0@,
        forall|a: int, b: int| 0 <= a < b < s.len() ==> s[a].0@ != s[b].0@,
    ensures
        spec_method_at(s.update(i, e), k) == if e.0@ == k {
            Some(e.1)
        } else {
            spec_method_at(s, k)
        },
    decreases s.len(),
{
    let t = s.update(i, e);
    if i == s.len() - 1 {
        assert(t.drop_last() =~= s.drop_last());
    } else {
        assert(t.drop_last() =~= s.drop_last().update(i, e));
        lemma_method_at_update(s.drop_last(), i, e, k);
        assert(s.last().0@ != e.0@);
    }
}

proof fn lemma_lookup_push(s: Seq<(String, Method)>, e: (String, Method), k: Seq<char>)
    ensures
        spec_lookup(s.push(e), k) == if e.0@ == k {
            Some(spec_kind(e.1))
        } else {
            spec_lookup(s, k)
        },
{
    assert(s.push(e).drop_last() =~= s);
}

proof fn lemma_lookup_update(s: Seq<(String, Method)>, i: int, e: (String, Method), k: Seq<char>)
    requires
        0 <= i < s.len(),
        s[i].0@ == e.0@,
        forall|a: int, b: int| 0 <= a < b < s.len() ==> s[a].0@ != s[b].0@,
    ensures
        spec_lookup(s.update(i, e), k) == if e.0@ == k {
            Some(spec_kind(e.1))
        } else {
            spec_lookup(s, k)
        },
    decreases s.len(),
{
    let t = s.update(i, e);
    if i == s.len() - 1 {
        assert(t.drop_last() =~= s.drop_last());
    } else {
        assert(t.drop_last() =~= s.drop_last().update(i, e));
        lemma_lookup_update(s.drop_last(), i, e, k);
        assert(s.last().0@ != e.0@);
    }
}

/// Commands executor.
pub struct Commander {
    entries: Vec<(String, Method)>,
}

impl Commander {
    /// No name is registered twice, and every command is callable with any parameters.
    pub closed spec fn wf(&self) -> bool {
        &&& forall|a: int, b: int|
            0 <= a < b < self.entries@.len() ==> self.entries@[a].0@ != self.entries@[b].0@
        &&& forall|a: int| 0 <= a < self.entries@.len() ==> method_total(#[trigger] self.entries@[a].1)
    }

    /// No subscription is registered.
    pub open spec fn without_subscriptions(&self) -> bool {
        forall|n: Seq<char>|
            #[trigger] self.kind(n) != Some(MethodKind::Subscribe) && self.kind(n) != Some(
                MethodKind::Unsubscribe,
            )
    }

    /// What `name` is registered as.
    pub closed spec fn kind(&self, name: Seq<char>) -> Option<MethodKind> {
        spec_lookup(self.entries@, name)
    }

    /// The command registered under `name`.
    pub closed spec fn method(&self, name: Seq<char>) -> Option<Method> {
        spec_method_at(self.entries@, name)
    }

    /// Running `name` with `params` ran the notification registered under `name`: a
    /// notification is registered there and it has run with `params`.
    pub open spec fn notified(&self, name: Seq<char>, params: Params) -> bool {
        match self.method(name) {
            Some(Method::Notify(c)) => c.notified(params),
            _ => false,
        }
    }

    /// `after` is `before` with a notification registered under `name`, one whose runs with
    /// `params` are those for which `runs(params)` holds: that name now runs it, every other
    /// name what it ran before.
    pub open spec fn registers_notification(
        before: Commander,
        after: Commander,
        name: Seq<char>,
        runs: spec_fn(Params) -> bool,
    ) -> bool {
        &&& after.kind(name) == Some(MethodKind::Notify)
        &&& forall|n: Seq<char>| n != name ==> #[trigger] after.kind(n) == before.kind(n)
        &&& forall|n: Seq<char>, p: Params|
            #[trigger] after.notified(n, p) == if n == name {
                runs(p)
            } else {
                before.notified(n, p)
            }
    }

    /// `after` is `before` with a subscription command registered under `subscribe` and
    /// `unsubscribe`, one that has handled a subscription `s` when `handles(s)` holds: those
    /// names now hand subscriptions to it, every other name to what it did before.
    pub open spec fn registers_subscription(
        before: Commander,
        after: Commander,
        subscribe: Seq<char>,
        unsubscribe: Seq<char>,
        handles: spec_fn(Subscription) -> bool,
    ) -> bool {
        &&& after.kind(unsubscribe) == Some(MethodKind::Unsubscribe)
        &&& subscribe != unsubscribe ==> after.kind(subscribe) == Some(MethodKind::Subscribe)
        &&& forall|n: Seq<char>|
            n != subscribe && n != unsubscribe ==> #[trigger] after.kind(n) == before.kind(n)
        &&& forall|n: Seq<char>, sub: Subscription|
            #[trigger] after.handled(n, sub) == if n == subscribe || n == unsubscribe {
                handles(sub)
            } else {
                before.handled(n, sub)
            }
    }

    /// `subscription` was handed to the subscription command registered under `name` (as the
    /// name that subscribes or as the one that unsubscribes).
    pub open spec fn handled(&self, name: Seq<char>, subscription: Subscription) -> bool {
        match self.method(name) {
            Some(Method::Subscribe(c)) => c.handled(subscription),
            Some(Method::Unsubscribe(c)) => c.handled(subscription),
            _ => false,
        }
    }

    /// Calling `name` with `params` may give `out`: a method call is registered under `name`
    /// and its command may give `out` for `params`.
    pub open spec fn produces(&self, name: Seq<char>, params: Params, out: Data) -> bool {
        match self.method(name) {
            Some(Method::Call(c)) => c.produces(params, out),
            _ => false,
        }
    }

    /// What a name is registered as is the kind of the command registered under it.
    pub proof fn lemma_kind_of_method(&self, name: Seq<char>)
        ensures
            self.kind(name) == match self.method(name) {
                Some(m) => Some(spec_kind(m)),
                None => None,
            },
    {
        lemma_method_at_kind(self.entries@, name);
    }

    /// Creates new executor
    pub fn new() -> (r: Self)
        ensures
            r.wf(),
            forall|n: Seq<char>| r.kind(n) is None,
            forall|n: Seq<char>, p: Params, out: Data| !r.produces(n, p, out),
    {
        Commander { entries: Vec::new() }
    }

    /// Registers `method` under `name`, replacing what was registered there.
    pub(crate) fn insert(&mut self, name: String, method: Method)
        requires
            old(self).wf(),
            method_total(method),
        ensures
            final(self).wf(),
            forall|n: Seq<char>|
                final(self).kind(n) == if n == name@ {
                    Some(spec_kind(method))
                } else {
                    old(self).kind(n)
                },
            forall|n: Seq<char>|
                final(self).method(n) == if n == name@ {
                    Some(method)
                } else {
                    old(self).method(n)
                },
    {
        let mut i: usize = 0;
        while i < self.entries.len()
            invariant
                0 <= i <= self.entries@.len(),
                forall|a: int| 0 <= a < i ==> self.entries@[a].0@ != name@,
                self.wf(),
                self == old(self),
                method_total(method),
            decreases self.entries@.len() - i,
        {
            if str_eq(self.entries[i].0.as_str(), name.as_str()) {
                let ghost s = self.entries@;
                let ghost e = (name, method);
                self.entries.set(i, (name, method));
                proof {
                    assert forall|n: Seq<char>| spec_lookup(self.entries@, n) == if n == e.0@ {
                        Some(spec_kind(e.1))
                    } else {
                        spec_lookup(s, n)
                    } by {
                        lemma_lookup_update(s, i as int, e, n);
                    }
                    assert forall|n: Seq<char>| spec_method_at(self.entries@, n) == if n == e.0@ {
                        Some(e.1)
                    } else {
                        spec_method_at(s, n)
                    } by {
                        lemma_method_at_update(s, i as int, e, n);
                    }
                    assert forall|a: int, b: int|
                        0 <= a < b < self.entries@.len() implies self.entries@[a].0@
                        != self.entries@[b].0@ by {
                        if a != i && b != i {
                            assert(self.entries@[a] == s[a]);
                            assert(self.entries@[b] == s[b]);
                        } else if a == i {
                            assert(self.entries@[b] == s[b]);
                        } else {
                            assert(self.entries@[a] == s[a]);
                        }
                    }
                    assert forall|a: int| 0 <= a < self.entries@.len() implies method_total(
                        #[trigger] self.entries@[a].1,
                    ) by {
                        if a != i {
                            assert(self.entries@[a] == s[a]);
                        }
                    }
                }
                return;
            }
            i = i + 1;
        }
        let ghost s = self.entries@;
        let ghost e = (name, method);
        self.entries.push((name, method));
        proof {
            assert forall|n: Seq<char>| spec_lookup(self.entries@, n) == if n == e.0@ {
                Some(spec_kind(e.1))
            } else {
                spec_lookup(s, n)
            } by {
                lemma_lookup_push(s, e, n);
            }
            assert forall|n: Seq<char>| spec_method_at(self.entries@, n) == if n == e.0@ {
                Some(e.1)
            } else {
                spec_method_at(s, n)
            } by {
                lemma_method_at_push(s, e, n);
            }
            assert forall|a: int, b: int|
                0 <= a < b < self.entries@.len() implies self.entries@[a].0@
                != self.entries@[b].0@ by {
                if b < s.len() {
                    assert(self.entries@[a] == s[a]);
                    assert(self.entries@[b] == s[b]);
                } else {
                    assert(self.entries@[a] == s[a]);
                }
            }
            assert forall|a: int| 0 <= a < self.entries@.len() implies method_total(
                #[trigger] self.entries@[a].1,
            ) by {
                if a < s.len() {
                    assert(self.entries@[a] == s[a]);
                }
            }
        }
    }

    /// Add supported method to this executor
    pub fn add_method(&mut self, name: String, command: Box<dyn SyncMethodCommand>)
        requires
            old(self).wf(),
            forall|p: Params| #[trigger] command.accepts(p),
        ensures
            final(self).wf(),
            forall|n: Seq<char>|
                final(self).kind(n) == if n == name@ {
                    Some(MethodKind::Call)
                } else {
                    old(self).kind(n)
                },
            forall|n: Seq<char>, p: Params, out: Data|
                final(self).produces(n, p, out) == if n == name@ {
                    command.produces(p, out)
                } else {
                    old(self).produces(n, p, out)
                },
            forall|n: Seq<char>, p: Params|
                final(self).notified(n, p) == (n != name@ && old(self).notified(n, p)),
            forall|n: Seq<char>, sub: Subscription|
                final(self).handled(n, sub) == (n != name@ && old(self).handled(n, sub)),
    {
        self.insert(name, Method::Call(command));
    }

    /// Add supported notification to this executor
    pub fn add_notification(&mut self, name: String, command: Box<dyn NotificationCommand>)
        requires
            old(self).wf(),
            forall|p: Params| #[trigger] command.accepts(p),
        ensures
            final(self).wf(),
            Commander::registers_notification(
                *old(self),
                *final(self),
                name@,
                |p: Params| command.notified(p),
            ),
            forall|n: Seq<char>|
                final(self).kind(n) == if n == name@ {
                    Some(MethodKind::Notify)
                } else {
                    old(self).kind(n)
                },
            forall|n: Seq<char>, p: Params, out: Data|
                final(self).produces(n, p, out) == (n != name@ && old(self).produces(n, p, out)),
            forall|n: Seq<char>, p: Params|
                final(self).notified(n, p) == if n == name@ {
                    command.notified(p)
                } else {
                    old(self).notified(n, p)
                },
            forall|n: Seq<char>, sub: Subscription|
                final(self).handled(n, sub) == (n != name@ && old(self).handled(n, sub)),
    {
        self.insert(name, Method::Notify(command));
    }

    fn find(&self, name: &str) -> (r: Option<usize>)
        requires
            self.wf(),
        ensures
            match r {
                Some(i) => i < self.entries@.len() && self.entries@[i as int].0@ == name@
                    && self.kind(name@) == Some(spec_kind(self.entries@[i as int].1))
                    && self.method(name@) == Some(self.entries@[i as int].1),
                None => self.kind(name@) is None && self.method(name@) is None,
            },
    {
        let mut i: usize = self.entries.len();
        assert(self.entries@.take(i as int) =~= self.entries@);
        while i > 0
            invariant
                0 <= i <= self.entries@.len(),
                spec_lookup(self.entries@, name@) == spec_lookup(self.entries@.take(i as int), name@),
                spec_method_at(self.entries@, name@) == spec_method_at(
                    self.entries@.take(i as int),
                    name@,
                ),
            decreases i,
        {
            proof {
                assert(self.entries@.take(i as int).drop_last() =~= self.entries@.take(i - 1));
            }
            if str_eq(self.entries[i - 1].0.as_str(), name) {
                return Some(i - 1);
            }
            i = i - 1;
        }
        proof {
            assert(self.entries@.take(0) =~= Seq::<(String, Method)>::empty());
        }
        None
    }

    /// The command registered under `name`, if any.
    pub fn lookup(&self, name: &str) -> (r: Option<&Method>)
        requires
            self.wf(),
        ensures
            match r {
                Some(m) => self.method(name@) == Some(*m),
                None => self.method(name@) is None,
            },
    {
        match self.find(name) {
            Some(i) => Some(&self.entries[i].1),
            None => None,
        }
    }

    /// Add supported subscription to this executor: `subscribe` opens subscriptions and
    /// `unsubscribe` closes them, both through `command`.
    pub fn add_subscription(
        &mut self,
        subscribe: String,
        unsubscribe: String,
        command: Box<dyn SubscriptionCommand>,
    )
        requires
            old(self).wf(),
        ensures
            final(self).wf(),
            Commander::registers_subscription(
                *old(self),
                *final(self),
                subscribe@,
                unsubscribe@,
                |sub: Subscription| command.handled(sub),
            ),
            forall|n: Seq<char>|
                final(self).kind(n) == if n == unsubscribe@ {
                    Some(MethodKind::Unsubscribe)
                } else if n == subscribe@ {
                    Some(MethodKind::Subscribe)
                } else {
                    old(self).kind(n)
                },
            forall|n: Seq<char>, p: Params, out: Data|
                final(self).produces(n, p, out) == (n != subscribe@ && n != unsubscribe@
                    && old(self).produces(n, p, out)),
            forall|n: Seq<char>, sub: Subscription|
                final(self).handled(n, sub) == if n == subscribe@ || n == unsubscribe@ {
                    command.handled(sub)
                } else {
                    old(self).handled(n, sub)
                },
            forall|n: Seq<char>, p: Params|
                final(self).notified(n, p) == (n != subscribe@ && n != unsubscribe@ && old(
                    self,
                ).notified(n, p)),
    {
        let shared = Arc::new(command);
        let other = shared.clone();
        self.insert(subscribe, Method::Subscribe(shared));
        self.insert(unsubscribe, Method::Unsubscribe(other));
    }

    /// What a call of `name` with `params` comes to, given whether the call came in a session
    /// (see [`Commander::dispatch_method`]).
    pub open spec fn dispatch_spec(&self, name: Seq<char>, params: Params, has_session: bool) -> MethodAction {
        match self.kind(name) {
            Some(MethodKind::Call) => MethodAction::Call(params),
            Some(MethodKind::Subscribe) => if has_session {
                MethodAction::Subscribe(params)
            } else {
                MethodAction::Fail(ErrorCode::SessionNotSupported)
            },
            Some(MethodKind::Unsubscribe) => if !has_session {
                MethodAction::Fail(ErrorCode::SessionNotSupported)
            } else {
                match unsubscribe_id(params) {
                    Some(id) => MethodAction::Unsubscribe(id),
                    None => MethodAction::Fail(ErrorCode::InvalidParams),
                }
            },
            _ => MethodAction::Fail(ErrorCode::MethodNotFound),
        }
    }

    /// Decides what a call of `name` with `params` comes to: a registered method call runs;
    /// subscribing and unsubscribing need a session; unsubscribing takes the id of the
    /// subscription as the first of an array of parameters; anything else is not found.
    pub fn dispatch_method(&self, name: &str, params: Params, has_session: bool) -> (r: MethodAction)
        requires
            self.wf(),
        ensures
            r == self.dispatch_spec(name@, params, has_session),
    {
        match self.find(name) {
            Some(i) => match &self.entries[i].1 {
                Method::Call(_) => MethodAction::Call(params),
                Method::Notify(_) => MethodAction::Fail(ErrorCode::MethodNotFound),
                Method::Subscribe(_) => if has_session {
                    MethodAction::Subscribe(params)
                } else {
                    MethodAction::Fail(ErrorCode::SessionNotSupported)
                },
                Method::Unsubscribe(_) => if !has_session {
                    MethodAction::Fail(ErrorCode::SessionNotSupported)
                } else {
                    match params {
                        Params::Array(v) => if v.len() > 0 {
                            let mut v = v;
                            let id = v.remove(0);
                            MethodAction::Unsubscribe(id)
                        } else {
                            MethodAction::Fail(ErrorCode::InvalidParams)
                        },
                        _ => MethodAction::Fail(ErrorCode::InvalidParams),
                    }
                },
            },
            None => MethodAction::Fail(ErrorCode::MethodNotFound),
        }
    }

    /// Execute method identified by `name` with given `params`, outside of any session: the
    /// result of the method registered under `name`; a `SessionNotSupported` error for a
    /// subscription; a `MethodNotFound` error when neither is registered.
    pub fn execute_method(&self, name: &str, params: Params) -> (r: Data)
        requires
            self.wf(),
        ensures
            (self.kind(name@) is None || self.kind(name@) == Some(MethodKind::Notify)) ==> (r matches Err(e)
                && e.code == ErrorCode::MethodNotFound && e.message@
                == ErrorCode::MethodNotFound.spec_description() && e.data is None),
            (self.kind(name@) == Some(MethodKind::Subscribe) || self.kind(name@) == Some(
                MethodKind::Unsubscribe,
            )) ==> (r matches Err(e) && e.code == ErrorCode::SessionNotSupported && e.message@
                == ErrorCode::SessionNotSupported.spec_description() && e.data is None),
            self.kind(name@) == Some(MethodKind::Call) ==> self.produces(name@, params, r),
    {
        match self.find(name) {
            Some(i) => match &self.entries[i].1 {
                Method::Call(command) => {
                    proof {
                        assert(method_total(self.entries@[i as int].1));
                    }
                    command.execute(params)
                },
                Method::Notify(_) => Err(Error::new(ErrorCode::MethodNotFound)),
                _ => Err(Error::new(ErrorCode::SessionNotSupported)),
            },
            None => Err(Error::new(ErrorCode::MethodNotFound)),
        }
    }

    /// Execute notification identified by `name` with given `params`; nothing happens when
    /// no notification is registered under `name`.
    pub fn execute_notification(&self, name: &str, params: Params)
        requires
            self.wf(),
        ensures
            self.kind(name@) == Some(MethodKind::Notify) ==> self.notified(name@, params),
    {
        match self.find(name) {
            Some(i) => match &self.entries[i].1 {
                Method::Notify(command) => {
                    proof {
                        assert(method_total(self.entries@[i as int].1));
                    }
                    command.execute(params)
                },
                _ => {},
            },
            None => {},
        }
    }

    /// Hands `subscription` to the subscription command registered under `name`; nothing
    /// happens when no subscription is registered under `name`.
    pub fn execute_subscription(&self, name: &str, subscription: Subscription)
        requires
            self.wf(),
        ensures
            self.kind(name@) == Some(MethodKind::Subscribe) || self.kind(name@) == Some(
                MethodKind::Unsubscribe,
            ) ==> self.handled(name@, subscription),
    {
        match self.find(name) {
            Some(i) => match &self.entries[i].1 {
                Method::Subscribe(command) => command.execute(subscription),
                Method::Unsubscribe(command) => command.execute(subscription),
                _ => {},
            },
            None => {},
        }
    }
}

/// A notification runs the command registered last under its name, with its own
/// parameters: after a notification is registered under `name`, running `name` with any
/// `params` runs that notification with `params`, and running any other name runs what it
/// ran before.
pub proof fn law_notification_runs_last_registered(
    before: Commander,
    after: Commander,
    name: Seq<char>,
    runs: spec_fn(Params) -> bool,
    params: Params,
    other: Seq<char>,
)
    requires
        Commander::registers_notification(before, after, name, runs),
    ensures
        after.kind(name) == Some(MethodKind::Notify),
        after.notified(name, params) == runs(params),
        other != name ==> after.notified(other, params) == before.notified(other, params),
        after.notified(other, params) ==> after.kind(other) == Some(MethodKind::Notify),
{
    after.lemma_kind_of_method(other);
}

/// Two subscriptions registered one after the other under different names are kept apart:
/// each of the names of the first hands a subscription to the first command, each of the
/// second to the second command.
pub proof fn law_subscriptions_kept_apart(
    c0: Commander,
    c1: Commander,
    c2: Commander,
    a_sub: Seq<char>,
    a_unsub: Seq<char>,
    a: spec_fn(Subscription) -> bool,
    b_sub: Seq<char>,
    b_unsub: Seq<char>,
    b: spec_fn(Subscription) -> bool,
    subscription: Subscription,
)
    requires
        Commander::registers_subscription(c0, c1, a_sub, a_unsub, a),
        Commander::registers_subscription(c1, c2, b_sub, b_unsub, b),
        a_sub != b_sub && a_sub != b_unsub && a_unsub != b_sub && a_unsub != b_unsub,
    ensures
        c2.handled(a_sub, subscription) == a(subscription),
        c2.handled(a_unsub, subscription) == a(subscription),
        c2.handled(b_sub, subscription) == b(subscription),
        c2.handled(b_unsub, subscription) == b(subscription),
{
    assert(c2.handled(a_sub, subscription) == c1.handled(a_sub, subscription));
    assert(c2.handled(a_unsub, subscription) == c1.handled(a_unsub, subscription));
}

/// Whatever a subscription was handed to, it was handed to a command registered under its
/// name as a subscription.
pub proof fn law_subscription_reaches_only_subscriptions(c: Commander, name: Seq<char>, subscription: Subscription)
    ensures
        c.handled(name, subscription) ==> (c.kind(name) == Some(MethodKind::Subscribe) || c.kind(name)
            == Some(MethodKind::Unsubscribe)),
{
    c.lemma_kind_of_method(name);
}

/// The id of the subscription that an unsubscribe call names: the first of an array of
/// parameters.
pub open spec fn unsubscribe_id(params: Params) -> Option<JsonValue> {
    match params {
        Params::Array(v) => if v@.len() > 0 {
            Some(v@[0])
        } else {
            None
        },
        _ => None,
    }
}

/// What a method call comes to.
pub enum MethodAction {
    /// Run the method call registered under the called name with these parameters.
    Call(Params),
    /// Open a subscription with these parameters.
    Subscribe(Params),
    /// Close the subscription with this id.
    Unsubscribe(JsonValue),
    /// Answer with an error of this code.
    Fail(ErrorCode),
}

} // verus!
