//! JSON-RPC input/output handling.
use vstd::prelude::*;

use std::sync::Arc;

use crate::commander::{lemma_method_at_push, method_produces, method_total, spec_kind, spec_method_at, Data, Method, MethodKind, NotificationCommand, SyncMethodCommand};
use crate::error::{is_error_json, Error, ErrorCode};
use crate::json::JsonValue;
use crate::request::{is_method_call_json, law_method_call_json_reads_back, reads_as_request, spec_call, Call, MethodCall, Request};
use crate::request_handler::{answered, call_params, output_data, spec_output_id, RequestHandler};
use crate::response::{is_output_json, is_response_json, Failure, SyncOutput, SyncResponse};
use crate::types::{spec_version, Id, Params, Version};

verus! {

/// A method that runs a closure on a shared delegate.
struct DelegateMethod<T, F> {
    delegate: Arc<T>,
    closure: F,
}

impl<T, F: Fn(&T, Params) -> Data> SyncMethodCommand for DelegateMethod<T, F> {
    closed spec fn accepts(&self, params: Params) -> bool {
        call_requires(self.closure, (&*self.delegate, params))
    }

    closed spec fn produces(&self, params: Params, out: Data) -> bool {
        call_ensures(self.closure, (&*self.delegate, params), out)
    }

    fn execute(&self, params: Params) -> Data {
        let closure = &self.closure;
        closure(&*self.delegate, params)
    }
}

/// A notification that runs a closure on a shared delegate.
struct DelegateNotification<T, F> {
    delegate: Arc<T>,
    closure: F,
}

impl<T, F: Fn(&T, Params)> NotificationCommand for DelegateNotification<T, F> {
    closed spec fn accepts(&self, params: Params) -> bool {
        call_requires(self.closure, (&*self.delegate, params))
    }

    closed spec fn notified(&self, params: Params) -> bool {
        call_ensures(self.closure, (&*self.delegate, params), ())
    }

    fn execute(&self, params: Params) {
        let closure = &self.closure;
        closure(&*self.delegate, params)
    }
}

/// A set of methods and notifications that share a delegate.
pub struct IoDelegate<T> {
    delegate: Arc<T>,
    methods: Vec<(String, Method)>,
    notifications: Vec<(String, Method)>,
}

impl<T: 'static> IoDelegate<T> {
    /// Every command can run with any parameters; methods and notifications are kept apart.
    pub closed spec fn wf(&self) -> bool {
        &&& forall|i: int|
            0 <= i < self.methods@.len() ==> method_total(#[trigger] self.methods@[i].1)
                && self.methods@[i].1 is Call
        &&& forall|i: int|
            0 <= i < self.notifications@.len() ==> method_total(
                #[trigger] self.notifications@[i].1,
            ) && self.notifications@[i].1 is Notify
    }

    /// The shared delegate.
    pub closed spec fn delegate(&self) -> T {
        *self.delegate
    }

    /// Calling the method added last under `name` with `params` may give `out`.
    pub closed spec fn produces(&self, name: Seq<char>, params: Params, out: Data) -> bool {
        match spec_method_at(self.methods@, name) {
            Some(m) => method_produces(m, params, out),
            None => false,
        }
    }

    /// Names of the methods, in the order they were added.
    pub closed spec fn method_names(&self) -> Seq<Seq<char>> {
        self.methods@.map_values(|e: (String, Method)| e.0@)
    }

    /// Names of the notifications, in the order they were added.
    pub closed spec fn notification_names(&self) -> Seq<Seq<char>> {
        self.notifications@.map_values(|e: (String, Method)| e.0@)
    }

    /// Creates a delegate with no methods.
    pub fn new(delegate: Arc<T>) -> (r: Self)
        ensures
            r.wf(),
            r.method_names() == Seq::<Seq<char>>::empty(),
            r.notification_names() == Seq::<Seq<char>>::empty(),
    {
        let r = IoDelegate { delegate: delegate, methods: Vec::new(), notifications: Vec::new() };
        proof {
            assert(r.method_names() =~= Seq::<Seq<char>>::empty());
            assert(r.notification_names() =~= Seq::<Seq<char>>::empty());
        }
        r
    }

    /// Adds a method that runs `closure` on the delegate.
    pub fn add_method<F: Fn(&T, Params) -> Data + 'static>(&mut self, name: &str, closure: F)
        requires
            old(self).wf(),
            forall|t: &T, p: Params| call_requires(closure, (t, p)),
        ensures
            final(self).wf(),
            final(self).method_names() == old(self).method_names().push(name@),
            final(self).notification_names() == old(self).notification_names(),
            final(self).delegate() == old(self).delegate(),
            forall|n: Seq<char>, p: Params, out: Data|
                final(self).produces(n, p, out) == if n == name@ {
                    call_ensures(closure, (&old(self).delegate(), p), out)
                } else {
                    old(self).produces(n, p, out)
                },
    {
        let ghost before = self.methods@;
        let delegate = self.delegate.clone();
        let command = DelegateMethod { delegate: delegate, closure: closure };
        let boxed: Box<dyn SyncMethodCommand> = Box::new(command);
        let key = name.to_owned();
        let ghost e = (key, Method::Call(boxed));
        self.push_method(key, Method::Call(boxed));
        proof {
            assert(self.methods@ == before.push(e));
            assert forall|n: Seq<char>, p: Params, out: Data| self.produces(n, p, out) == if n
                == name@ {
                call_ensures(closure, (&old(self).delegate(), p), out)
            } else {
                old(self).produces(n, p, out)
            } by {
                lemma_method_at_push(before, e, n);
            }
        }
    }

    /// Adds a notification that runs `closure` on the delegate.
    pub fn add_notification<F: Fn(&T, Params) + 'static>(&mut self, name: &str, closure: F)
        requires
            old(self).wf(),
            forall|t: &T, p: Params| call_requires(closure, (t, p)),
        ensures
            final(self).wf(),
            final(self).method_names() == old(self).method_names(),
            final(self).notification_names() == old(self).notification_names().push(name@),
            final(self).delegate() == old(self).delegate(),
            forall|n: Seq<char>, p: Params, out: Data|
                final(self).produces(n, p, out) == old(self).produces(n, p, out),
    {
        let delegate = self.delegate.clone();
        let command = DelegateNotification { delegate: delegate, closure: closure };
        let boxed: Box<dyn NotificationCommand> = Box::new(command);
        self.push_notification(name.to_owned(), Method::Notify(boxed));
    }

    fn push_method(&mut self, name: String, method: Method)
        requires
            old(self).wf(),
            method_total(method),
            method is Call,
        ensures
            final(self).wf(),
            final(self).methods@ == old(self).methods@.push((name, method)),
            final(self).delegate == old(self).delegate,
            final(self).method_names() == old(self).method_names().push(name@),
            final(self).notification_names() == old(self).notification_names(),
    {
        let ghost old_methods = self.methods@;
        self.methods.push((name, method));
        proof {
            assert forall|i: int| 0 <= i < self.methods@.len() implies method_total(
                #[trigger] self.methods@[i].1,
            ) && self.methods@[i].1 is Call by {
                if i < old_methods.len() {
                    assert(self.methods@[i] == old_methods[i]);
                }
            }
            assert(self.method_names() =~= old(self).method_names().push(name@));
        }
    }

    fn push_notification(&mut self, name: String, method: Method)
        requires
            old(self).wf(),
            method_total(method),
            method is Notify,
        ensures
            final(self).wf(),
            final(self).methods@ == old(self).methods@,
            final(self).delegate == old(self).delegate,
            final(self).method_names() == old(self).method_names(),
            final(self).notification_names() == old(self).notification_names().push(name@),
    {
        let ghost old_n = self.notifications@;
        self.notifications.push((name, method));
        proof {
            assert forall|i: int| 0 <= i < self.notifications@.len() implies method_total(
                #[trigger] self.notifications@[i].1,
            ) && self.notifications@[i].1 is Notify by {
                if i < old_n.len() {
                    assert(self.notifications@[i] == old_n[i]);
                }
            }
            assert(self.notification_names() =~= old(self).notification_names().push(name@));
        }
    }
}

proof fn lemma_method_at_names(s: Seq<(String, Method)>, n: Seq<char>)
    ensures
        spec_method_at(s, n) is Some <==> s.map_values(|e: (String, Method)| e.0@).contains(n),
    decreases s.len(),
{
    let names = s.map_values(|e: (String, Method)| e.0@);
    if s.len() > 0 {
        let rest = s.drop_last();
        let rest_names = rest.map_values(|e: (String, Method)| e.0@);
        lemma_method_at_names(rest, n);
        assert(names.drop_last() =~= rest_names);
        if s.last().0@ == n {
            assert(names[s.len() - 1] == n);
        }
        if rest_names.contains(n) {
            let k = choose|k: int| 0 <= k < rest_names.len() && rest_names[k] == n;
            assert(names[k] == n);
        }
        if names.contains(n) {
            let k = choose|k: int| 0 <= k < names.len() && names[k] == n;
            if k < names.len() - 1 {
                assert(rest_names[k] == n);
            }
        }
    }
}

/// Should be used to handle jsonrpc io.
pub struct IoHandler {
    request_handler: RequestHandler,
}

/// `j` is the JSON form of the answer to a request that could not be parsed: a failure with
/// a `ParseError` error and a `null` id.
pub open spec fn is_parse_failure_json(j: JsonValue) -> bool {
    j matches JsonValue::Object(m) && {
        &&& m@.len() == 3
        &&& m@[0].0@ == "jsonrpc"@ && spec_version(m@[0].1) == Some(Version::V2)
        &&& m@[1].0@ == "error"@
        &&& exists|e: Error|
            is_error_json(m@[1].1, e) && e.code == ErrorCode::ParseError && e.message@
                == "Parse error"@ && e.data is None
        &&& m@[2].0@ == "id"@ && m@[2].1 == JsonValue::Null
    }
}

/// Some call of the request that `v` reads as gets an answer.
pub open spec fn gets_answer(v: JsonValue) -> bool {
    match v {
        JsonValue::Array(items) => answered(items@.map_values(|x: JsonValue| spec_call(x))).len()
            > 0,
        _ => !(spec_call(v) is Notification),
    }
}

impl IoHandler {
    /// The registry is well formed.
    pub closed spec fn wf(&self) -> bool {
        self.request_handler.wf()
    }

    /// What `name` is registered as.
    pub open spec fn kind(&self, name: Seq<char>) -> Option<MethodKind> {
        self.handler().kind(name)
    }

    /// Calling `name` with `params` may give `out`: a method is registered under `name` and
    /// may give `out` for `params`.
    pub open spec fn produces(&self, name: Seq<char>, params: Params, out: Data) -> bool {
        self.handler().produces(name, params, out)
    }

    /// The handler that answers requests.
    pub closed spec fn handler(&self) -> RequestHandler {
        self.request_handler
    }

    /// Creates a handler with nothing registered.
    pub fn new() -> (r: Self)
        ensures
            r.wf(),
            forall|n: Seq<char>| r.kind(n) is None,
            forall|n: Seq<char>, p: Params, out: Data| !r.produces(n, p, out),
    {
        IoHandler { request_handler: RequestHandler::new() }
    }

    /// Registers a method.
    pub fn add_method<C: SyncMethodCommand + 'static>(&mut self, name: &str, command: C)
        requires
            old(self).wf(),
            forall|p: Params| #[trigger] command.accepts(p),
        ensures
            final(self).wf(),
            forall|n: Seq<char>|
                final(self).kind(n) == if n == name@ {
                    Some(MethodKind::Call)
                } else {
                    old(self).kind(n)
                },            forall|n: Seq<char>, p: Params, out: Data|
                final(self).produces(n, p, out) == if n == name@ {
                    command.produces(p, out)
                } else {
                    old(self).produces(n, p, out)
                },
            forall|n: Seq<char>, p: Params|
                final(self).handler().notified(n, p) == (n != name@ && old(self).handler().notified(n, p)),
    {
        let boxed: Box<dyn SyncMethodCommand> = Box::new(command);
        self.request_handler.add_method(name.to_owned(), boxed)
    }

    /// Registers a notification.
    pub fn add_notification<C: NotificationCommand + 'static>(&mut self, name: &str, command: C)
        requires
            old(self).wf(),
            forall|p: Params| #[trigger] command.accepts(p),
        ensures
            final(self).wf(),
            forall|n: Seq<char>|
                final(self).kind(n) == if n == name@ {
                    Some(MethodKind::Notify)
                } else {
                    old(self).kind(n)
                },            forall|n: Seq<char>, p: Params, out: Data|
                final(self).produces(n, p, out) == (n != name@ && old(self).produces(n, p, out)),
            forall|n: Seq<char>, p: Params|
                final(self).handler().notified(n, p) == if n == name@ {
                    command.notified(p)
                } else {
                    old(self).handler().notified(n, p)
                },
    {
        let boxed: Box<dyn NotificationCommand> = Box::new(command);
        self.request_handler.add_notification(name.to_owned(), boxed)
    }

    /// Registers all methods, then all notifications, of a delegate.
    pub fn add_delegate<D: 'static>(&mut self, delegate: IoDelegate<D>)
        requires
            old(self).wf(),
            delegate.wf(),
        ensures
            final(self).wf(),
            forall|n: Seq<char>|
                final(self).kind(n) == if delegate.notification_names().contains(n) {
                    Some(MethodKind::Notify)
                } else if delegate.method_names().contains(n) {
                    Some(MethodKind::Call)
                } else {
                    old(self).kind(n)
                },
            forall|n: Seq<char>, p: Params, out: Data|
                final(self).produces(n, p, out) == if delegate.notification_names().contains(n) {
                    false
                } else if delegate.method_names().contains(n) {
                    delegate.produces(n, p, out)
                } else {
                    old(self).produces(n, p, out)
                },
    {
        let ghost gdelegate = delegate;
        let ghost mnames = delegate.method_names();
        let ghost nnames = delegate.notification_names();
        let IoDelegate { delegate: _, methods, notifications } = delegate;
        let ghost all_m = methods@;
        let mut rest = methods;
        let mut rev: Vec<(String, Method)> = Vec::new();
        while rest.len() > 0
            invariant
                rest@ == all_m.take(rest@.len() as int),
                rev@.len() + rest@.len() == all_m.len(),
                forall|g: int| 0 <= g < rev@.len() ==> rev@[g] == all_m[all_m.len() - 1 - g],
            decreases rest@.len(),
        {
            let e = rest.pop().unwrap();
            proof {
                assert(rest@ =~= all_m.take(rest@.len() as int));
            }
            rev.push(e);
        }
        let ghost mut done: int = 0;
        while rev.len() > 0
            invariant
                self.wf(),
                done + rev@.len() == all_m.len(),
                0 <= done <= all_m.len(),
                forall|g: int| 0 <= g < rev@.len() ==> rev@[g] == all_m[all_m.len() - 1 - g],
                forall|i: int|
                    0 <= i < all_m.len() ==> method_total(#[trigger] all_m[i].1) && all_m[i].1 is Call,
                mnames == all_m.map_values(|e: (String, Method)| e.0@),
                forall|n: Seq<char>|
                    self.kind(n) == if all_m.take(done).map_values(|e: (String, Method)| e.0@).contains(n) {
                        Some(MethodKind::Call)
                    } else {
                        old(self).kind(n)
                    },
                forall|n: Seq<char>, p: Params, out: Data|
                    self.produces(n, p, out) == match spec_method_at(all_m.take(done), n) {
                        Some(m) => method_produces(m, p, out),
                        None => old(self).produces(n, p, out),
                    },
            decreases rev@.len(),
        {
            let (name, method) = rev.pop().unwrap();
            proof {
                assert(all_m[done] == (name, method));
            }
            let ghost before = *self;
            proof {
                assert(spec_kind(method) == MethodKind::Call);
            }
            let ghost e = (name, method);
            self.request_handler.add(name, method);
            proof {
                let prev_names = all_m.take(done).map_values(|e: (String, Method)| e.0@);
                let next_names = all_m.take(done + 1).map_values(|e: (String, Method)| e.0@);
                assert(next_names =~= prev_names.push(name@));
                assert(all_m.take(done + 1) =~= all_m.take(done).push(e));
                assert forall|n: Seq<char>, p: Params, out: Data| self.produces(n, p, out)
                    == match spec_method_at(all_m.take(done + 1), n) {
                    Some(m) => method_produces(m, p, out),
                    None => old(self).produces(n, p, out),
                } by {
                    assert(before.produces(n, p, out) == match spec_method_at(all_m.take(done), n) {
                        Some(m) => method_produces(m, p, out),
                        None => old(self).produces(n, p, out),
                    });
                    lemma_method_at_push(all_m.take(done), e, n);
                }
                assert forall|n: Seq<char>| self.kind(n) == if next_names.contains(n) {
                    Some(MethodKind::Call)
                } else {
                    old(self).kind(n)
                } by {
                    assert(before.kind(n) == if prev_names.contains(n) {
                        Some(MethodKind::Call)
                    } else {
                        old(self).kind(n)
                    });
                    if n == name@ {
                        assert(next_names[done] == n);
                    } else {
                        if next_names.contains(n) {
                            let k = choose|k: int| 0 <= k < next_names.len() && next_names[k] == n;
                            assert(prev_names[k] == n);
                        }
                        if prev_names.contains(n) {
                            let k = choose|k: int| 0 <= k < prev_names.len() && prev_names[k] == n;
                            assert(next_names[k] == n);
                        }
                    }
                }
                done = done + 1;
            }
        }
        proof {
            assert(all_m.take(done) =~= all_m);
        }
        let ghost all_n = notifications@;
        let mut rest = notifications;
        let mut rev: Vec<(String, Method)> = Vec::new();
        while rest.len() > 0
            invariant
                rest@ == all_n.take(rest@.len() as int),
                rev@.len() + rest@.len() == all_n.len(),
                forall|g: int| 0 <= g < rev@.len() ==> rev@[g] == all_n[all_n.len() - 1 - g],
            decreases rest@.len(),
        {
            let e = rest.pop().unwrap();
            proof {
                assert(rest@ =~= all_n.take(rest@.len() as int));
            }
            rev.push(e);
        }
        let ghost mid = *self;
        let ghost mut done: int = 0;
        while rev.len() > 0
            invariant
                self.wf(),
                done + rev@.len() == all_n.len(),
                0 <= done <= all_n.len(),
                forall|g: int| 0 <= g < rev@.len() ==> rev@[g] == all_n[all_n.len() - 1 - g],
                forall|i: int|
                    0 <= i < all_n.len() ==> method_total(#[trigger] all_n[i].1) && all_n[i].1 is Notify,
                forall|n: Seq<char>|
                    self.kind(n) == if all_n.take(done).map_values(|e: (String, Method)| e.0@).contains(n) {
                        Some(MethodKind::Notify)
                    } else {
                        mid.kind(n)
                    },
                forall|n: Seq<char>, p: Params, out: Data|
                    self.produces(n, p, out) == if all_n.take(done).map_values(
                        |e: (String, Method)| e.0@,
                    ).contains(n) {
                        false
                    } else {
                        mid.produces(n, p, out)
                    },
            decreases rev@.len(),
        {
            let (name, method) = rev.pop().unwrap();
            proof {
                assert(all_n[done] == (name, method));
                assert(spec_kind(method) == MethodKind::Notify);
            }
            let ghost before = *self;
            self.request_handler.add(name, method);
            proof {
                let prev_names = all_n.take(done).map_values(|e: (String, Method)| e.0@);
                let next_names = all_n.take(done + 1).map_values(|e: (String, Method)| e.0@);
                assert(next_names =~= prev_names.push(name@));
                assert forall|n: Seq<char>| self.kind(n) == if next_names.contains(n) {
                    Some(MethodKind::Notify)
                } else {
                    mid.kind(n)
                } by {
                    assert(before.kind(n) == if prev_names.contains(n) {
                        Some(MethodKind::Notify)
                    } else {
                        mid.kind(n)
                    });
                    if n == name@ {
                        assert(next_names[done] == n);
                    } else {
                        if next_names.contains(n) {
                            let k = choose|k: int| 0 <= k < next_names.len() && next_names[k] == n;
                            assert(prev_names[k] == n);
                        }
                        if prev_names.contains(n) {
                            let k = choose|k: int| 0 <= k < prev_names.len() && prev_names[k] == n;
                            assert(next_names[k] == n);
                        }
                    }
                }
                assert forall|n: Seq<char>, p: Params, out: Data| self.produces(n, p, out) == if next_names.contains(
                    n,
                ) {
                    false
                } else {
                    mid.produces(n, p, out)
                } by {
                    assert(before.produces(n, p, out) == if prev_names.contains(n) {
                        false
                    } else {
                        mid.produces(n, p, out)
                    });
                    if n == name@ {
                        assert(next_names[done] == n);
                    } else {
                        if next_names.contains(n) {
                            let k = choose|k: int| 0 <= k < next_names.len() && next_names[k] == n;
                            assert(prev_names[k] == n);
                        }
                        if prev_names.contains(n) {
                            let k = choose|k: int| 0 <= k < prev_names.len() && prev_names[k] == n;
                            assert(next_names[k] == n);
                        }
                    }
                }
                done = done + 1;
            }
        }
        proof {
            assert(all_n.take(done) =~= all_n);
            assert forall|n: Seq<char>| #[trigger] mnames.contains(n) == spec_method_at(all_m, n) is Some by {
                lemma_method_at_names(all_m, n);
            }
        }
    }

    /// Answers a request that was read already: a method call or an invalid call gets an
    /// output, a notification none; a batch gets the outputs of its calls that are answered.
    pub fn handle_rpc_request(&self, request: Request) -> (r: Option<SyncResponse>)
        requires
            self.wf(),
        ensures
            self.handler().answers_request(request, r),
            self.handler().ran_request(request),
    {
        self.request_handler.handle_request(request)
    }

    /// `r` answers the request that `v` reads as, in JSON form.
    pub open spec fn parsed_answer(&self, v: JsonValue, r: Option<JsonValue>) -> bool {
        exists|req: Request, resp: Option<SyncResponse>|
            {
                &&& reads_as_request(v, req)
                &&& self.handler().answers_request(req, resp)
                &&& match resp {
                    Some(s) => r matches Some(j) && is_response_json(j, s),
                    None => r is None,
                }
            }
    }

    /// Answers a request given as parsed JSON (`None` when the text was not valid JSON, which
    /// is answered with a `ParseError` failure): the request that the JSON reads as is
    /// answered, and the answer is given in its JSON form. `None` when nothing gets an answer:
    /// a notification, or a batch of notifications only.
    pub fn handle_parsed(&self, request: Option<JsonValue>) -> (r: Option<JsonValue>)
        requires
            self.wf(),
        ensures
            request is None ==> (r matches Some(j) && is_parse_failure_json(j)),
            request matches Some(v) ==> (r is Some <==> gets_answer(v)),
            request matches Some(v) ==> self.parsed_answer(v, r),
            request matches Some(v) ==> forall|req: Request|
                #[trigger] reads_as_request(v, req) ==> self.handler().ran_request(req),
    {
        match request {
            None => {
                let error = Error::new(ErrorCode::ParseError);
                let ghost ge = error;
                let out = SyncOutput::Failure(Failure { id: Id::Null, jsonrpc: Version::V2, error });
                let j = out.to_json();
                proof {
                    reveal_strlit("Parse error");
                    assert(j matches JsonValue::Object(m) && is_error_json(m@[1].1, ge));
                }
                Some(j)
            },
            Some(v) => {
                let ghost gv = v;
                let req = Request::from_json(v);
                let ghost greq = req;
                let resp = self.request_handler.handle_request(req);
                let ghost gresp = resp;
                let r = match resp {
                    Some(s) => Some(s.to_json()),
                    None => None,
                };
                proof {
                    assert(reads_as_request(gv, greq));
                    assert(self.handler().answers_request(greq, gresp));
                    assert(self.handler().ran_request(greq));
                    assert forall|q: Request| #[trigger] reads_as_request(gv, q) implies self.handler().ran_request(q) by {
                        if let Request::Batch(cs) = q {
                            if let Request::Batch(gs) = greq {
                                assert(cs@ =~= gs@);
                            }
                        }
                    }
                }
                r
            },
        }
    }
}


/// The answer to a call of a registered method carries a result the method gives for the
/// call's parameters, with the call's id.
pub proof fn law_call_answered_by_method(io: IoHandler, m: MethodCall, o: SyncOutput)
    requires
        io.handler().answers(o, Call::MethodCall(m)),
        io.kind(m.method@) == Some(MethodKind::Call),
    ensures
        io.produces(m.method@, call_params(m.params), output_data(o)),
        spec_output_id(o) == m.id,
{
}

/// The JSON form of a method call is answered with the JSON form of one output, which answers
/// that call (unless its parameters are `Params::Empty`, whose JSON form reads as no
/// parameters).
pub proof fn law_json_method_call_answered(io: IoHandler, v: JsonValue, m: MethodCall, r: Option<JsonValue>)
    requires
        is_method_call_json(v, m),
        m.params != Some(Params::Empty),
        io.parsed_answer(v, r),
    ensures
        r matches Some(j) && exists|o: SyncOutput|
            is_output_json(j, o) && io.handler().answers(o, Call::MethodCall(m)),
{
    law_method_call_json_reads_back(v, m);
    let (req, resp) = choose|req: Request, resp: Option<SyncResponse>|
        {
            &&& reads_as_request(v, req)
            &&& io.handler().answers_request(req, resp)
            &&& match resp {
                Some(s) => r matches Some(j) && is_response_json(j, s),
                None => r is None,
            }
        };
    assert(req == Request::Single(Call::MethodCall(m)));
    let o = resp->0->Single_0;
    assert(is_output_json(r->0, o));
}

} // verus!
