//! The WebSockets server's configuration: the builder's limits and the connection settings
//! they give.
use vstd::prelude::*;

use crate::io::IoHandler;

verus! {

/// Default maximal number of concurrent connections.
pub const DEFAULT_MAX_CONNECTIONS: usize = 100;

/// Default maximal payload size: 5 MiB.
pub const DEFAULT_MAX_PAYLOAD_BYTES: usize = 5242880;

/// Default limit of the incoming and of the outgoing buffer: 10 MiB.
pub const DEFAULT_MAX_BUFFER_CAPACITY: usize = 10485760;

/// Most fragments a message is held in before the fragment buffer may grow.
pub const MAX_FRAGMENTS_CAPACITY: usize = 4096;

/// Builder for `WebSockets` server
pub struct ServerBuilder {
    /// The handler of requests.
    pub handler: IoHandler,
    /// The allowed origins, or `None` when origins are not checked.
    pub allowed_origins: Option<Vec<String>>,
    /// The allowed hosts, or `None` when hosts are not checked.
    pub allowed_hosts: Option<Vec<String>>,
    /// Maximal number of concurrent connections.
    pub max_connections: usize,
    /// Maximal size of the payload (in bytes).
    pub max_payload_bytes: usize,
    /// The maximum size to which the incoming buffer can grow.
    pub max_in_buffer_capacity: usize,
    /// The maximum size to which the outgoing buffer can grow.
    pub max_out_buffer_capacity: usize,
}

/// The settings a WebSockets server is run with.
#[derive(Debug, PartialEq, Eq, Clone, Copy, Structural)]
pub struct Settings {
    /// Maximal number of concurrent connections.
    pub max_connections: usize,
    /// Maximal size of a fragment.
    pub max_fragment_size: usize,
    /// Maximal size of all fragments of a message.
    pub max_total_fragments_size: usize,
    /// Limit of the incoming buffer.
    pub in_buffer_capacity_hard_limit: usize,
    /// Limit of the outgoing buffer.
    pub out_buffer_capacity_hard_limit: usize,
    /// The fragment buffer may grow.
    pub fragments_grow: bool,
    /// Number of fragments the fragment buffer holds.
    pub fragments_capacity: usize,
    /// Only handshakes that begin with `GET` are accepted.
    pub method_strict: bool,
    /// Clients must mask their frames.
    pub masking_strict: bool,
    /// An interrupt shuts the server down.
    pub shutdown_on_interrupt: bool,
}

/// The number of fragments a message is held in, for a payload limit and a fragment size,
/// and whether the fragment buffer may grow: the payload's worth of fragments, at least one;
/// past 4096 the buffer holds 4096 and grows.
pub open spec fn fragments_spec(payload: usize, fragment_size: usize) -> (usize, bool) {
    let wanted = if payload / fragment_size > 1 {
        payload / fragment_size
    } else {
        1
    };
    if wanted > 4096 {
        (4096, true)
    } else {
        (wanted, false)
    }
}

impl ServerBuilder {
    /// Creates new `ServerBuilder`: nothing checked, 100 connections, 5 MiB payloads and
    /// 10 MiB buffers.
    pub fn new(handler: IoHandler) -> (r: Self)
        ensures
            r.handler == handler,
            r.allowed_origins is None,
            r.allowed_hosts is None,
            r.max_connections == 100,
            r.max_payload_bytes == 5 * 1024 * 1024,
            r.max_in_buffer_capacity == 10 * 1024 * 1024,
            r.max_out_buffer_capacity == 10 * 1024 * 1024,
    {
        ServerBuilder {
            handler,
            allowed_origins: None,
            allowed_hosts: None,
            max_connections: DEFAULT_MAX_CONNECTIONS,
            max_payload_bytes: DEFAULT_MAX_PAYLOAD_BYTES,
            max_in_buffer_capacity: DEFAULT_MAX_BUFFER_CAPACITY,
            max_out_buffer_capacity: DEFAULT_MAX_BUFFER_CAPACITY,
        }
    }

    /// Allowed origins (`None`: not checked).
    pub fn allowed_origins(self, allowed_origins: Option<Vec<String>>) -> (r: Self)
        ensures
            r == (ServerBuilder { allowed_origins, ..self }),
    {
        ServerBuilder { allowed_origins, ..self }
    }

    /// Allowed hosts (`None`: not checked).
    pub fn allowed_hosts(self, allowed_hosts: Option<Vec<String>>) -> (r: Self)
        ensures
            r == (ServerBuilder { allowed_hosts, ..self }),
    {
        ServerBuilder { allowed_hosts, ..self }
    }

    /// Maximal number of concurrent connections this server supports.
    pub fn max_connections(self, max_connections: usize) -> (r: Self)
        ensures
            r == (ServerBuilder { max_connections, ..self }),
    {
        ServerBuilder { max_connections, ..self }
    }

    /// Maximal size of the payload (in bytes)
    pub fn max_payload(self, max_payload_bytes: usize) -> (r: Self)
        ensures
            r == (ServerBuilder { max_payload_bytes, ..self }),
    {
        ServerBuilder { max_payload_bytes, ..self }
    }

    /// The maximum size to which the incoming buffer can grow.
    pub fn max_in_buffer_capacity(self, max_in_buffer_capacity: usize) -> (r: Self)
        ensures
            r == (ServerBuilder { max_in_buffer_capacity, ..self }),
    {
        ServerBuilder { max_in_buffer_capacity, ..self }
    }

    /// The maximum size to which the outgoing buffer can grow.
    pub fn max_out_buffer_capacity(self, max_out_buffer_capacity: usize) -> (r: Self)
        ensures
            r == (ServerBuilder { max_out_buffer_capacity, ..self }),
    {
        ServerBuilder { max_out_buffer_capacity, ..self }
    }

    /// The settings of the server, for frames of `fragment_size` bytes: no request larger
    /// than the payload limit is accepted, and the fragment buffer holds the payload limit's
    /// worth of fragments (at least one), growing only past 4096 of them.
    pub fn settings(&self, fragment_size: usize) -> (r: Settings)
        requires
            fragment_size > 0,
        ensures
            r.max_connections == self.max_connections,
            r.max_fragment_size == self.max_payload_bytes,
            r.max_total_fragments_size == self.max_payload_bytes,
            r.in_buffer_capacity_hard_limit == self.max_in_buffer_capacity,
            r.out_buffer_capacity_hard_limit == self.max_out_buffer_capacity,
            (r.fragments_capacity, r.fragments_grow) == fragments_spec(
                self.max_payload_bytes,
                fragment_size,
            ),
            r.method_strict,
            r.masking_strict,
            !r.shutdown_on_interrupt,
    {
        let per_payload = self.max_payload_bytes / fragment_size;
        let mut fragments_capacity = if per_payload > 1 {
            per_payload
        } else {
            1
        };
        let mut fragments_grow = false;
        if fragments_capacity > MAX_FRAGMENTS_CAPACITY {
            fragments_capacity = MAX_FRAGMENTS_CAPACITY;
            fragments_grow = true;
        }
        Settings {
            max_connections: self.max_connections,
            max_fragment_size: self.max_payload_bytes,
            max_total_fragments_size: self.max_payload_bytes,
            in_buffer_capacity_hard_limit: self.max_in_buffer_capacity,
            out_buffer_capacity_hard_limit: self.max_out_buffer_capacity,
            fragments_grow,
            fragments_capacity,
            method_strict: true,
            masking_strict: true,
            shutdown_on_interrupt: false,
        }
    }
}

/// Whatever the limits, a server holds between one and 4096 fragments of a message, and its
/// fragment buffer grows only when it holds 4096.
pub proof fn law_fragments_bounded(payload: usize, fragment_size: usize)
    requires
        fragment_size > 0,
    ensures
        1 <= fragments_spec(payload, fragment_size).0 <= 4096,
        fragments_spec(payload, fragment_size).1 ==> fragments_spec(payload, fragment_size).0 == 4096,
{
}

} // verus!
