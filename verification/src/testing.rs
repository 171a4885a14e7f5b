//! A test environment for JSON-RPC handlers: a handler and a way to call one of its methods.
use vstd::prelude::*;

use crate::error::{is_error_json, ErrorCode};
use crate::io::{IoDelegate, IoHandler};
use crate::json::JsonValue;
use crate::commander::{Data, MethodKind};
use crate::request::{Call, MethodCall, Request};
use crate::types::{spec_opt_params, Params, Version};
use crate::request_handler::{call_params, is_error_output, output_data};
use crate::response::{SyncOutput, SyncResponse};
use crate::types::Id;

verus! {

/// Test RPC options.
#[derive(Debug)]
pub struct Options {
    /// Disable printing requests and responses.
    pub no_print: bool,
}

impl Default for Options {
    fn default() -> (r: Self)
        ensures
            !r.no_print,
    {
        Options { no_print: false }
    }
}

/// RPC instance.
pub struct Rpc {
    /// Underlying `IoHandler`.
    pub io: IoHandler,
    /// Options
    pub options: Options,
}

impl Rpc {
    /// Create a new RPC instance from a single delegate.
    pub fn new<D: 'static>(delegate: IoDelegate<D>) -> (r: Self)
        requires
            delegate.wf(),
        ensures
            r.io.wf(),
            !r.options.no_print,
            forall|n: Seq<char>|
                r.io.kind(n) == if delegate.notification_names().contains(n) {
                    Some(MethodKind::Notify)
                } else if delegate.method_names().contains(n) {
                    Some(MethodKind::Call)
                } else {
                    None
                },
            forall|n: Seq<char>, p: Params, out: Data|
                r.io.produces(n, p, out) == (!delegate.notification_names().contains(n)
                    && delegate.method_names().contains(n) && delegate.produces(n, p, out)),
    {
        let mut io = IoHandler::new();
        io.add_delegate(delegate);
        Rpc::from_handler(io)
    }

    /// Perform a single, synchronous method call: `method` is called with `params` in a
    /// request with version `2.0` and id 1; returns the result of a success, or the JSON form
    /// of a failure's error. Parameters that are not an array, an object or `null` make the
    /// request invalid.
    pub fn call(&self, method: &str, params: JsonValue) -> (r: JsonValue)
        requires
            self.io.wf(),
        ensures
            spec_opt_params(Some(params)) is None ==> exists|e: crate::error::Error|
                is_error_json(r, e) && e.code == ErrorCode::InvalidRequest,
            spec_opt_params(Some(params)) is Some && self.io.kind(method@) != Some(MethodKind::Call)
                ==> exists|e: crate::error::Error|
                is_error_json(r, e) && e.code == ErrorCode::MethodNotFound,
            spec_opt_params(Some(params)) matches Some(p) ==> (self.io.kind(method@) == Some(
                MethodKind::Call,
            ) ==> exists|out: Data|
                {
                    &&& self.io.produces(method@, call_params(p), out)
                    &&& match out {
                        Ok(v) => r == v,
                        Err(e) => is_error_json(r, e),
                    }
                }),
    {
        let wrapped = Some(params);
        let call = if Params::readable_opt(&wrapped) {
            Call::MethodCall(
                MethodCall {
                    jsonrpc: Version::V2,
                    method: method.to_owned(),
                    params: Params::from_json_opt(wrapped),
                    id: Id::Num(1),
                },
            )
        } else {
            Call::Invalid
        };
        let ghost gcall = call;
        match self.io.handle_rpc_request(Request::Single(call)) {
            Some(SyncResponse::Single(SyncOutput::Success(s))) => {
                let ghost out: Data = Ok(s.result);
                proof {
                    assert(output_data(SyncOutput::Success(s)) == out);
                    if let Call::MethodCall(m) = gcall {
                        if self.io.kind(method@) == Some(MethodKind::Call) {
                            assert(self.io.produces(method@, call_params(m.params), out));
                        }
                    }
                }
                s.result
            },
            Some(SyncResponse::Single(SyncOutput::Failure(f))) => {
                let ghost e = f.error;
                let ghost out: Data = Err(f.error);
                proof {
                    assert(output_data(SyncOutput::Failure(f)) == out);
                    if let Call::MethodCall(m) = gcall {
                        if self.io.kind(method@) == Some(MethodKind::Call) {
                            assert(self.io.produces(method@, call_params(m.params), out));
                        }
                    }
                }
                let j = f.error.to_json();
                proof {
                    assert(is_error_json(j, e));
                }
                j
            },
            _ => {
                proof {
                    assert(false);
                }
                JsonValue::Null
            },
        }
    }

    /// An RPC instance around `io`, with default options.
    pub fn from_handler(io: IoHandler) -> (r: Self)
        ensures
            r.io == io,
            !r.options.no_print,
    {
        Rpc { io, options: Options::default() }
    }
}

} // verus!
