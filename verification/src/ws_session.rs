//! The WebSockets transport's own logic for a session: request middleware, the checks of the
//! `Origin` and `Host` headers of a handshake, and what a handshake is answered with.
use vstd::prelude::*;
use vstd::string::StringExecFns;
use vstd::utf8::*;

use crate::validator::string_from_utf8;

verus! {

/// A handshake response that a session writes itself.
pub struct Response {
    /// HTTP status code.
    pub status: u16,
    /// Reason phrase.
    pub reason: String,
    /// Body.
    pub body: String,
    /// Extra headers.
    pub headers: Vec<(String, String)>,
}

/// What a handshake request carries that a session looks at.
pub struct HandshakeRequest {
    /// Raw value of the `Origin` header.
    pub origin: Option<Vec<u8>>,
    /// Raw value of the `Host` header.
    pub host: Option<Vec<u8>>,
    /// Requested protocols.
    pub protocols: Vec<String>,
}

/// Request middleware action
pub enum MiddlewareAction {
    /// Proceed with standard JSON-RPC behaviour.
    Proceed,
    /// Terminate the request and return a response.
    Respond {
        /// Response to return
        response: Response,
        /// Should origin be validated before returning the response?
        validate_origin: bool,
        /// Should hosts be validated before returning the response?
        validate_hosts: bool,
    },
}

impl MiddlewareAction {
    /// Whether the `Origin` header is checked before the handshake is answered.
    pub fn should_verify_origin(&self) -> (r: bool)
        ensures
            r == match self {
                MiddlewareAction::Proceed => true,
                MiddlewareAction::Respond { validate_origin, .. } => *validate_origin,
            },
    {
        match self {
            MiddlewareAction::Proceed => true,
            MiddlewareAction::Respond { validate_origin, .. } => *validate_origin,
        }
    }

    /// Whether the `Host` header is checked before the handshake is answered.
    pub fn should_verify_hosts(&self) -> (r: bool)
        ensures
            r == match self {
                MiddlewareAction::Proceed => true,
                MiddlewareAction::Respond { validate_hosts, .. } => *validate_hosts,
            },
    {
        match self {
            MiddlewareAction::Proceed => true,
            MiddlewareAction::Respond { validate_hosts, .. } => *validate_hosts,
        }
    }

    /// The action for a middleware's optional response.
    pub open spec fn from_response_spec(opt: Option<Response>) -> Self {
        match opt {
            Some(res) => MiddlewareAction::Respond {
                response: res,
                validate_origin: true,
                validate_hosts: true,
            },
            None => MiddlewareAction::Proceed,
        }
    }

    /// A middleware's optional response: proceed without one; with one, answer with it after
    /// both checks.
    pub fn from_response(opt: Option<Response>) -> (r: Self)
        ensures
            opt is None ==> r is Proceed,
            opt matches Some(res) ==> r == (MiddlewareAction::Respond {
                response: res,
                validate_origin: true,
                validate_hosts: true,
            }),
    {
        match opt {
            Some(res) => MiddlewareAction::Respond { response: res, validate_origin: true, validate_hosts: true },
            None => MiddlewareAction::Proceed,
        }
    }
}

/// Middleware to intercept server requests.
/// You can either terminate the request (by returning a response)
/// or just proceed with standard JSON-RPC handling.
pub trait RequestMiddleware {
    /// The requests this middleware can process.
    spec fn accepts(&self, req: &HandshakeRequest) -> bool;

    /// Whether `action` is a decision this middleware may take on `req`.
    spec fn produces(&self, req: &HandshakeRequest, action: MiddlewareAction) -> bool;

    /// Process a request and decide what to do next.
    fn process(&self, req: &HandshakeRequest) -> (r: MiddlewareAction)
        requires
            self.accepts(req),
        ensures
            self.produces(req, r),
    ;
}

impl<F: Fn(&HandshakeRequest) -> Option<Response>> RequestMiddleware for F {
    open spec fn accepts(&self, req: &HandshakeRequest) -> bool {
        call_requires(*self, (req,))
    }

    /// The action is the one for a response that the function may return on `req`.
    open spec fn produces(&self, req: &HandshakeRequest, action: MiddlewareAction) -> bool {
        exists|out: Option<Response>|
            call_ensures(*self, (req,), out) && action == MiddlewareAction::from_response_spec(out)
    }

    fn process(&self, req: &HandshakeRequest) -> (r: MiddlewareAction) {
        let out = self(req);
        let r = MiddlewareAction::from_response(out);
        assert(call_ensures(*self, (req,), out) && r == MiddlewareAction::from_response_spec(out));
        r
    }
}

/// How a header is checked against the allowed values.
pub enum HeaderCheck {
    /// Allowed without looking at the list.
    Allow,
    /// Refused.
    Deny,
    /// Allowed when one of the allowed patterns matches this value.
    MatchAgainst(String),
}

/// The check of a header: a missing header, or a server that validates nothing, is allowed;
/// a value that is not UTF-8 is refused; else the value is matched against the list.
pub fn header_check(header: Option<&[u8]>, validated: bool) -> (r: HeaderCheck)
    ensures
        header is None ==> r is Allow,
        header is Some && !validated ==> r is Allow,
        header matches Some(h) ==> (validated && !valid_utf8(h@) ==> r is Deny),
        header matches Some(h) ==> (validated && valid_utf8(h@) ==> (r matches HeaderCheck::MatchAgainst(v)
            && v@ == decode_utf8(h@))),
{
    match header {
        None => HeaderCheck::Allow,
        Some(h) => {
            if !validated {
                HeaderCheck::Allow
            } else {
                match string_from_utf8(h) {
                    Some(v) => HeaderCheck::MatchAgainst(v),
                    None => HeaderCheck::Deny,
                }
            }
        },
    }
}

/// Whether a header is allowed: a missing header, or a server that validates nothing, is
/// allowed; a value that is not UTF-8 is refused; else the value is allowed when one of the
/// allowed patterns matches it, by `matches`, tried in order.
pub fn header_is_allowed<F: Fn(&String, &str) -> bool>(
    allowed: &Option<Vec<String>>,
    header: Option<&[u8]>,
    matches: F,
) -> (r: bool)
    requires
        forall|p: &String, v: &str| call_requires(matches, (p, v)),
    ensures
        header is None ==> r,
        (*allowed) is None ==> r,
        header is Some && (*allowed) is Some && !valid_utf8(header->0@) ==> !r,
        header is Some && (*allowed) is Some && valid_utf8(header->0@) ==> exists|v: &str|
            #![trigger v@]
            {
                &&& v@ == decode_utf8(header->0@)
                &&& r ==> exists|i: int|
                    0 <= i < (*allowed)->0@.len() && call_ensures(matches, (&(*allowed)->0@[i], v), true)
                &&& !r ==> forall|i: int|
                    0 <= i < (*allowed)->0@.len() ==> call_ensures(
                        matches,
                        (&(*allowed)->0@[i], v),
                        false,
                    )
            },
{
    match allowed {
        None => true,
        Some(pats) => match header_check(header, true) {
            HeaderCheck::Allow => true,
            HeaderCheck::Deny => false,
            HeaderCheck::MatchAgainst(value) => {
                let v = value.as_str();
                let mut i: usize = 0;
                while i < pats.len()
                    invariant
                        i <= pats@.len(),
                        *allowed == Some(*pats),
                        header is Some && valid_utf8(header->0@) && v@ == decode_utf8(header->0@),
                        forall|p: &String, w: &str| call_requires(matches, (p, w)),
                        forall|k: int| 0 <= k < i ==> call_ensures(matches, (&pats@[k], v), false),
                    decreases pats@.len() - i,
                {
                    if matches(&pats[i], v) {
                        return true;
                    }
                    i = i + 1;
                }
                false
            },
        },
    }
}

/// Why a message could not be sent over a connection.
#[derive(Debug, PartialEq, Eq, Clone, Copy, Structural)]
pub enum ConnectionError {
    /// The connection is not active any more.
    ConnectionClosed,
}

/// A message may be sent only while the connection is active.
pub fn check_active(active: bool) -> (r: Result<(), ConnectionError>)
    ensures
        active ==> r is Ok,
        !active ==> r == Err::<(), ConnectionError>(ConnectionError::ConnectionClosed),
{
    if active {
        Ok(())
    } else {
        Err(ConnectionError::ConnectionClosed)
    }
}

/// A `403 Forbidden` response with a body of the title and the message, each on a line, that
/// closes the connection.
pub fn forbidden(title: &str, message: &str) -> (r: Response)
    ensures
        r.status == 403,
        r.reason@ == "Forbidden"@,
        r.body@ == title@ + "\n"@ + message@ + "\n"@,
        r.headers@.len() == 1,
        r.headers@[0].0@ == "Connection"@,
        r.headers@[0].1@ == "close"@,
{
    let mut body = title.to_owned();
    body.append("\n");
    body.append(message);
    body.append("\n");
    let mut headers: Vec<(String, String)> = Vec::new();
    headers.push(("Connection".to_owned(), "close".to_owned()));
    Response { status: 403, reason: "Forbidden".to_owned(), body, headers }
}

/// How a handshake is answered.
pub enum Handshake {
    /// Refused: the `Origin` or `Host` header is not allowed.
    Reject(Response),
    /// Accepted, speaking the first requested protocol, if any.
    Accept(Option<String>),
    /// Answered with the middleware's response.
    Respond(Response),
}

/// The answer to a handshake, given the middleware's action and whether the `Origin` and
/// `Host` headers are allowed: a header that the action asks to check and that is not
/// allowed is refused (the origin first); otherwise the middleware's response, or the
/// handshake is accepted.
pub fn on_request(
    action: MiddlewareAction,
    origin_allowed: bool,
    host_allowed: bool,
    protocols: &Vec<String>,
) -> (r: Handshake)
    ensures
        action.should_verify_origin_spec() && !origin_allowed ==> (r matches Handshake::Reject(res)
            && res.status == 403 && res.body@ == "URL Blocked"@ + "\n"@
            + "Connection Origin has been rejected."@ + "\n"@),
        !(action.should_verify_origin_spec() && !origin_allowed) && action.should_verify_hosts_spec()
            && !host_allowed ==> (r matches Handshake::Reject(res) && res.status == 403
            && res.body@ == "URL Blocked"@ + "\n"@ + "Connection Host has been rejected."@
            + "\n"@),
        !(action.should_verify_origin_spec() && !origin_allowed) && !(
        action.should_verify_hosts_spec() && !host_allowed) ==> match action {
            MiddlewareAction::Proceed => (r matches Handshake::Accept(p) && (protocols@.len() == 0
                ==> p is None) && (protocols@.len() > 0 ==> (p matches Some(s) && s@
                == protocols@[0]@))),
            MiddlewareAction::Respond { response, .. } => r == Handshake::Respond(response),
        },
{
    if action.should_verify_origin() && !origin_allowed {
        return Handshake::Reject(forbidden("URL Blocked", "Connection Origin has been rejected."));
    }
    if action.should_verify_hosts() && !host_allowed {
        return Handshake::Reject(forbidden("URL Blocked", "Connection Host has been rejected."));
    }
    match action {
        MiddlewareAction::Proceed => {
            if protocols.len() > 0 {
                Handshake::Accept(Some(protocols[0].clone()))
            } else {
                Handshake::Accept(None)
            }
        },
        MiddlewareAction::Respond { response, .. } => Handshake::Respond(response),
    }
}

impl MiddlewareAction {
    /// Whether the `Origin` header is checked.
    pub open spec fn should_verify_origin_spec(&self) -> bool {
        match self {
            MiddlewareAction::Proceed => true,
            MiddlewareAction::Respond { validate_origin, .. } => *validate_origin,
        }
    }

    /// Whether the `Host` header is checked.
    pub open spec fn should_verify_hosts_spec(&self) -> bool {
        match self {
            MiddlewareAction::Proceed => true,
            MiddlewareAction::Respond { validate_hosts, .. } => *validate_hosts,
        }
    }
}

/// The response to a request of a session is sent only while the session is active, and
/// only when there is one.
pub fn response_to_send(active: bool, response: Option<String>) -> (r: Option<String>)
    ensures
        r == (if active {
            response
        } else {
            None
        }),
{
    if active {
        response
    } else {
        None
    }
}

/// The ids given to the sessions of a server: 1, 2, 3, ...
pub struct SessionCounter {
    last: u64,
}

impl SessionCounter {
    /// The id given last (0 before the first session).
    pub closed spec fn last(&self) -> nat {
        self.last as nat
    }

    /// No session yet.
    pub fn new() -> (r: Self)
        ensures
            r.last() == 0,
    {
        SessionCounter { last: 0 }
    }

    /// The id of a new session: one more than the last.
    pub fn next_id(&mut self) -> (id: u64)
        requires
            old(self).last() < u64::MAX,
        ensures
            id == old(self).last() + 1,
            final(self).last() == id,
    {
        self.last = self.last + 1;
        self.last
    }
}

/// Number of task slots to reserve before a new task of a session is registered: when the
/// slots are full, as many as there are, and at least four.
pub fn slots_to_reserve(len: usize, capacity: usize) -> (r: usize)
    ensures
        len == capacity ==> r == (if capacity > 4 {
            capacity
        } else {
            4
        }),
        len != capacity ==> r == 0,
{
    if len == capacity {
        if capacity > 4 {
            capacity
        } else {
            4
        }
    } else {
        0
    }
}


/// What the task that forwards a session's messages does after polling its channel.
pub enum ForwardStep {
    /// Send this message to the client.
    Send(String),
    /// The channel has ended: the task ends.
    Finish,
    /// Nothing yet.
    Wait,
}

/// The forwarding task's step for what its channel gave: a message is sent, an ended channel
/// ends the task, and otherwise it waits.
pub fn forward_step(polled: crate::tcp::Polled<String>) -> (r: ForwardStep)
    ensures
        polled matches crate::tcp::Polled::Ready(m) ==> r == ForwardStep::Send(m),
        polled is Closed ==> r is Finish,
        polled is Pending ==> r is Wait,
{
    match polled {
        crate::tcp::Polled::Ready(m) => ForwardStep::Send(m),
        crate::tcp::Polled::Closed => ForwardStep::Finish,
        crate::tcp::Polled::Pending => ForwardStep::Wait,
    }
}

} // verus!
