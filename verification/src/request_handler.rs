//! Maps calls to well-formed JSON-RPC responses.
use vstd::prelude::*;

use crate::commander::{method_produces, method_total, spec_kind, Commander, Data, Method, MethodKind, NotificationCommand, SyncMethodCommand};
use crate::error::{Error, ErrorCode};
use crate::request::{Call, MethodCall, Notification, Request};
use crate::response::{Failure, SyncOutput, SyncResponse};
use crate::types::{Id, Params, Version};

verus! {

/// The calls of `calls` that get an answer, in order: all but the notifications.
pub open spec fn answered(calls: Seq<Call>) -> Seq<Call>
    decreases calls.len(),
{
    if calls.len() == 0 {
        seq![]
    } else if calls.last() is Notification {
        answered(calls.drop_last())
    } else {
        answered(calls.drop_last()).push(calls.last())
    }
}

/// Requests handler - maps `Commander` outputs into well-formed JSONRPC `Responses`
pub struct RequestHandler {
    commander: Commander,
}

impl RequestHandler {
    /// The registry is well formed.
    pub closed spec fn wf(&self) -> bool {
        self.commander.wf() && self.commander.without_subscriptions()
    }

    /// What `name` is registered as.
    pub closed spec fn kind(&self, name: Seq<char>) -> Option<MethodKind> {
        self.commander.kind(name)
    }

    /// Calling `name` with `params` may give `out` (see [`Commander::produces`]).
    pub closed spec fn produces(&self, name: Seq<char>, params: Params, out: Data) -> bool {
        self.commander.produces(name, params, out)
    }

    /// The notification registered under `name` has run with `params` (see
    /// [`Commander::notified`]).
    pub closed spec fn notified(&self, name: Seq<char>, params: Params) -> bool {
        self.commander.notified(name, params)
    }

    /// What handling the call `c` leaves true of the commands: for a notification whose
    /// method is registered as a notification, that notification has run with the
    /// notification's parameters (`Params::Empty` when it has none).
    pub open spec fn ran(&self, c: Call) -> bool {
        match c {
            Call::Notification(n) => self.kind(n.method@) == Some(MethodKind::Notify) ==> self.notified(
                n.method@,
                call_params(n.params),
            ),
            _ => true,
        }
    }

    /// What handling `request` leaves true of the commands: what handling each of its calls
    /// does (see [`RequestHandler::ran`]).
    pub open spec fn ran_request(&self, request: Request) -> bool {
        match request {
            Request::Single(c) => self.ran(c),
            Request::Batch(calls) => forall|i: int| 0 <= i < calls@.len() ==> #[trigger] self.ran(calls@[i]),
        }
    }

    /// `o` is an answer to the call `c`: an output with the call's id and version, which is a
    /// `MethodNotFound` failure when no method is registered under the called name; for an
    /// invalid call, an `InvalidRequest` failure with a `null` id.
    pub open spec fn answers(&self, o: SyncOutput, c: Call) -> bool {
        match c {
            Call::MethodCall(m) => {
                &&& spec_output_id(o) == m.id
                &&& spec_output_version(o) == m.jsonrpc
                &&& self.kind(m.method@) != Some(MethodKind::Call) ==> is_error_output(
                    o,
                    ErrorCode::MethodNotFound,
                )
                &&& self.kind(m.method@) == Some(MethodKind::Call) ==> self.produces(
                    m.method@,
                    call_params(m.params),
                    output_data(o),
                )
            },
            Call::Invalid => {
                &&& spec_output_id(o) == Id::Null
                &&& spec_output_version(o) == Version::V2
                &&& is_error_output(o, ErrorCode::InvalidRequest)
            },
            Call::Notification(_) => false,
        }
    }

    /// `r` is the answer to `request`: none for a notification, an answer for any other call;
    /// for a batch, the answers to its calls that get one, in order, or none when no call does.
    pub open spec fn answers_request(&self, request: Request, r: Option<SyncResponse>) -> bool {
        match request {
            Request::Single(c) => if c is Notification {
                r is None
            } else {
                r matches Some(SyncResponse::Single(o)) && self.answers(o, c)
            },
            Request::Batch(cs) => if answered(cs@).len() == 0 {
                r is None
            } else {
                r matches Some(SyncResponse::Batch(os)) && os@.len() == answered(cs@).len()
                    && forall|i: int|
                    0 <= i < os@.len() ==> self.answers(#[trigger] os@[i], answered(cs@)[i])
            },
        }
    }

    /// Creates new `RequestHandler`
    pub fn new() -> (r: Self)
        ensures
            r.wf(),
            forall|n: Seq<char>| r.kind(n) is None,
            forall|n: Seq<char>, p: Params, out: Data| !r.produces(n, p, out),
    {
        RequestHandler { commander: Commander::new() }
    }

    /// Adds supported method
    pub fn add_method(&mut self, name: String, command: Box<dyn SyncMethodCommand>)
        requires
            old(self).wf(),
            forall|p: Params| #[trigger] command.accepts(p),
        ensures
            final(self).wf(),
            forall|n: Seq<char>|
                final(self).kind(n) == if n == name@ {
                    Some(MethodKind::Call)
                } else {
                    old(self).kind(n)
                },            forall|n: Seq<char>, p: Params, out: Data|
                final(self).produces(n, p, out) == if n == name@ {
                    command.produces(p, out)
                } else {
                    old(self).produces(n, p, out)
                },
            forall|n: Seq<char>, p: Params|
                final(self).notified(n, p) == (n != name@ && old(self).notified(n, p)),
    {
        self.commander.add_method(name, command)
    }

    /// Adds supported notification
    pub fn add_notification(&mut self, name: String, command: Box<dyn NotificationCommand>)
        requires
            old(self).wf(),
            forall|p: Params| #[trigger] command.accepts(p),
        ensures
            final(self).wf(),
            forall|n: Seq<char>|
                final(self).kind(n) == if n == name@ {
                    Some(MethodKind::Notify)
                } else {
                    old(self).kind(n)
                },            forall|n: Seq<char>, p: Params, out: Data|
                final(self).produces(n, p, out) == (n != name@ && old(self).produces(n, p, out)),
            forall|n: Seq<char>, p: Params|
                final(self).notified(n, p) == if n == name@ {
                    command.notified(p)
                } else {
                    old(self).notified(n, p)
                },
    {
        self.commander.add_notification(name, command)
    }

    /// Registers `method` under `name`, replacing what was registered there.
    pub(crate) fn add(&mut self, name: String, method: Method)
        requires
            old(self).wf(),
            method_total(method),
            method is Call || method is Notify,
        ensures
            final(self).wf(),
            forall|n: Seq<char>|
                final(self).kind(n) == if n == name@ {
                    Some(spec_kind(method))
                } else {
                    old(self).kind(n)
                },
            forall|n: Seq<char>, p: Params, out: Data|
                final(self).produces(n, p, out) == if n == name@ {
                    method_produces(method, p, out)
                } else {
                    old(self).produces(n, p, out)
                },
    {
        self.commander.insert(name, method)
    }

    /// Handle single request
    /// `Some(response)` is returned in case that request is a method call.
    /// `None` is returned in case of notifications and empty batches.
    pub fn handle_request(&self, request: Request) -> (r: Option<SyncResponse>)
        requires
            self.wf(),
        ensures
            self.answers_request(request, r),
            self.ran_request(request),
    {
        match request {
            Request::Single(call) => match self.handle_call(call) {
                Some(o) => Some(SyncResponse::Single(o)),
                None => None,
            },
            Request::Batch(calls) => {
                let ghost all = calls@;
                let mut rest = calls;
                let mut rev: Vec<Call> = Vec::new();
                while rest.len() > 0
                    invariant
                        rest@ == all.take(rest@.len() as int),
                        rev@.len() + rest@.len() == all.len(),
                        forall|g: int| 0 <= g < rev@.len() ==> rev@[g] == all[all.len() - 1 - g],
                    decreases rest@.len(),
                {
                    let c = rest.pop().unwrap();
                    proof {
                        assert(rest@ =~= all.take(rest@.len() as int));
                    }
                    rev.push(c);
                }
                let mut outs: Vec<SyncOutput> = Vec::new();
                let ghost mut done: int = 0;
                assert(all.take(0) =~= Seq::<Call>::empty());
                while rev.len() > 0
                    invariant
                        self.wf(),
                        done + rev@.len() == all.len(),
                        0 <= done <= all.len(),
                        forall|g: int| 0 <= g < rev@.len() ==> rev@[g] == all[all.len() - 1 - g],
                        outs@.len() == answered(all.take(done)).len(),
                        forall|i: int| 0 <= i < done ==> #[trigger] self.ran(all[i]),
                        forall|i: int|
                            0 <= i < outs@.len() ==> self.answers(
                                #[trigger] outs@[i],
                                answered(all.take(done))[i],
                            ),
                    decreases rev@.len(),
                {
                    let c = rev.pop().unwrap();
                    let ghost gc = c;
                    proof {
                        assert(gc == all[done]);
                        assert(all.take(done + 1).drop_last() =~= all.take(done));
                        assert(all.take(done + 1).last() == gc);
                    }
                    let ghost prev = outs@;
                    match self.handle_call(c) {
                        Some(o) => {
                            outs.push(o);
                            proof {
                                assert forall|i: int| 0 <= i < outs@.len() implies self.answers(
                                    #[trigger] outs@[i],
                                    answered(all.take(done + 1))[i],
                                ) by {
                                    if i < prev.len() {
                                        assert(outs@[i] == prev[i]);
                                    }
                                }
                            }
                        },
                        None => {},
                    }
                    proof {
                        done = done + 1;
                    }
                }
                proof {
                    assert(all.take(done) =~= all);
                }
                if outs.len() == 0 {
                    None
                } else {
                    Some(SyncResponse::Batch(outs))
                }
            },
        }
    }

    fn handle_call(&self, call: Call) -> (r: Option<SyncOutput>)
        requires
            self.wf(),
        ensures
            call is Notification ==> r is None,
            !(call is Notification) ==> (r matches Some(o) && self.answers(o, call)),
            self.ran(call),
    {
        match call {
            Call::MethodCall(method) => Some(self.handle_method_call(method)),
            Call::Notification(notification) => {
                self.handle_notification(notification);
                None
            },
            Call::Invalid => Some(
                SyncOutput::Failure(
                    Failure {
                        id: Id::Null,
                        jsonrpc: Version::V2,
                        error: Error::new(ErrorCode::InvalidRequest),
                    },
                ),
            ),
        }
    }

    fn handle_method_call(&self, method: MethodCall) -> (r: SyncOutput)
        requires
            self.wf(),
        ensures
            self.answers(r, Call::MethodCall(method)),
    {
        let params = match method.params {
            Some(p) => p,
            None => Params::Empty,
        };
        proof {
            assert(self.commander.kind(method.method@) != Some(MethodKind::Subscribe)
                && self.commander.kind(method.method@) != Some(MethodKind::Unsubscribe));
        }
        let res = self.commander.execute_method(method.method.as_str(), params);
        proof {
            let k = self.commander.kind(method.method@);
            if k != Some(MethodKind::Call) {
                assert(k is None || k == Some(MethodKind::Notify));
                assert(res matches Err(e) && e.code == ErrorCode::MethodNotFound);
            }
        }
        SyncOutput::from(res, method.id, method.jsonrpc)
    }

    fn handle_notification(&self, notification: Notification)
        requires
            self.wf(),
        ensures
            self.ran(Call::Notification(notification)),
    {
        let params = match notification.params {
            Some(p) => p,
            None => Params::Empty,
        };
        self.commander.execute_notification(notification.method.as_str(), params)
    }
}

/// Handling a request runs each of its notifications whose method is registered as a
/// notification with that notification's own parameters, or with `Params::Empty` when it
/// has none: the `i`-th call of a batch, or the single call.
pub proof fn law_notifications_get_their_own_params(h: RequestHandler, request: Request, i: int)
    requires
        h.ran_request(request),
    ensures
        ({
            let c = match request {
                Request::Single(c) => Some(c),
                Request::Batch(cs) => if 0 <= i < cs@.len() {
                    Some(cs@[i])
                } else {
                    None
                },
            };
            c matches Some(Call::Notification(n)) ==> (h.kind(n.method@) == Some(MethodKind::Notify)
                ==> match n.params {
                Some(p) => h.notified(n.method@, p),
                None => h.notified(n.method@, Params::Empty),
            })
        }),
{
    if let Request::Batch(cs) = request {
        if 0 <= i < cs@.len() {
            assert(h.ran(cs@[i]));
        }
    }
}

/// The id of an output.
pub open spec fn spec_output_id(o: SyncOutput) -> Id {
    match o {
        SyncOutput::Success(s) => s.id,
        SyncOutput::Failure(f) => f.id,
    }
}

/// The protocol version of an output.
pub open spec fn spec_output_version(o: SyncOutput) -> Version {
    match o {
        SyncOutput::Success(s) => s.jsonrpc,
        SyncOutput::Failure(f) => f.jsonrpc,
    }
}

/// `o` is a failure carrying the standard error for `code`.
pub open spec fn is_error_output(o: SyncOutput, code: ErrorCode) -> bool {
    o matches SyncOutput::Failure(f) && f.error.code == code && f.error.message@
        == code.spec_description() && f.error.data is None
}


/// The parameters a method is called with: those of the call, or `Params::Empty` when it has
/// none.
pub open spec fn call_params(p: Option<Params>) -> Params {
    match p {
        Some(p) => p,
        None => Params::Empty,
    }
}

/// What an output carries: a success's result or a failure's error.
pub open spec fn output_data(o: SyncOutput) -> Data {
    match o {
        SyncOutput::Success(s) => Ok(s.result),
        SyncOutput::Failure(f) => Err(f.error),
    }
}

} // verus!
