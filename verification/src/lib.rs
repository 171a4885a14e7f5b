//! A JSON-RPC 2.0 library: the protocol's types and their JSON forms, the registry of
//! methods and the handler that answers requests, response handlers and batches, and the
//! decision logic of the transports.
use vstd::prelude::*;

pub mod async_result;
pub mod buffer;
pub mod commander;
pub mod cors;
pub mod control;
pub mod error;
pub mod flow;
pub mod io;
pub mod json;
pub mod pipe;
pub mod request;
pub mod request_handler;
pub mod request_response;
pub mod response;
pub mod server_state;
pub mod stdio;
pub mod tcp;
pub mod tcp_server;
pub mod testing;
pub mod types;
pub mod validator;
pub mod ws_server;
pub mod ws_session;

verus! {

} // verus!
