//! The socket server's own logic: splitting what a connection read into requests, the write
//! buffer of a connection, the batches of queued messages, the protocol note and the
//! connection limit.
use vstd::prelude::*;

use bytes::BytesMut;

use crate::buffer::{bytes_as_slice, bytes_extend, bytes_new, bytes_split_to, bytes_view};
use crate::json::{member_ref, spec_member, JsonValue};
use crate::validator::{extract_requests, spec_extract_requests};

verus! {

/// Maximal number of connections served at once.
pub const MAX_CONCURRENT_CONNECTIONS: usize = 1024;

/// Maximal number of bytes written to a socket at once.
pub const MAX_WRITE_LENGTH: usize = 8192;

/// Maximal number of queued messages dispatched per poll of the event loop.
pub const MAX_MESSAGES_DISPATCH: usize = 128;

/// Interval of the event loop's polls, in milliseconds.
pub const POLL_INTERVAL: usize = 100;

/// A new connection is accepted while fewer than `MAX_CONCURRENT_CONNECTIONS` are served.
pub fn accepts_connection(count: usize) -> (r: bool)
    ensures
        r == (count < MAX_CONCURRENT_CONNECTIONS),
{
    count < MAX_CONCURRENT_CONNECTIONS
}

/// Splits the bytes a connection has read into the complete requests they hold and the bytes
/// that remain for the next read: when requests were found, what follows the last request
/// boundary; otherwise all of it.
pub fn split_requests(buf: &[u8]) -> (r: (Vec<String>, Vec<u8>))
    ensures
        r.0@.len() == spec_extract_requests(buf@).0.len(),
        forall|i: int| 0 <= i < r.0@.len() ==> #[trigger] r.0@[i]@ == spec_extract_requests(buf@).0[i],
        r.0@.len() > 0 ==> r.1@ == buf@.subrange(
            spec_extract_requests(buf@).1 + 1,
            buf@.len() as int,
        ),
        r.0@.len() == 0 ==> r.1@ == buf@,
{
    let (requests, last_index) = extract_requests(buf);
    let n: usize = buf.len();
    if requests.len() > 0 {
        let rest = vstd::slice::slice_to_vec(vstd::slice::slice_subrange(buf, last_index + 1, buf.len()));
        (requests, rest)
    } else {
        (requests, vstd::slice::slice_to_vec(buf))
    }
}

/// Takes the next batch of queued messages to dispatch: the first `MAX_MESSAGES_DISPATCH` of
/// them, or all when there are fewer. The rest stays queued in order.
pub fn take_dispatch_batch<T>(messages: &mut Vec<T>) -> (batch: Vec<T>)
    ensures
        batch@.len() == if old(messages)@.len() > MAX_MESSAGES_DISPATCH {
            MAX_MESSAGES_DISPATCH as int
        } else {
            old(messages)@.len() as int
        },
        batch@ + final(messages)@ == old(messages)@,
{
    let total = if messages.len() > MAX_MESSAGES_DISPATCH {
        MAX_MESSAGES_DISPATCH
    } else {
        messages.len()
    };
    let mut batch = messages.split_off(total);
    std::mem::swap(&mut batch, messages);
    proof {
        assert(batch@ + messages@ =~= old(messages)@);
    }
    batch
}

/// The bytes a connection still has to write.
pub struct WriteBuffer {
    pending: BytesMut,
}

impl WriteBuffer {
    /// The bytes still to write, in order.
    pub closed spec fn pending(&self) -> Seq<u8> {
        bytes_view(self.pending)
    }

    /// Nothing to write.
    pub fn new() -> (r: Self)
        ensures
            r.pending() == Seq::<u8>::empty(),
    {
        WriteBuffer { pending: bytes_new() }
    }

    /// Whether nothing is left to write.
    pub fn is_empty(&self) -> (r: bool)
        ensures
            r == (self.pending().len() == 0),
    {
        bytes_as_slice(&self.pending).len() == 0
    }

    /// Queues `data` after what is pending.
    pub fn push(&mut self, data: &[u8])
        requires
            old(self).pending().len() + data@.len() <= isize::MAX,
        ensures
            final(self).pending() == old(self).pending() + data@,
    {
        bytes_extend(&mut self.pending, data);
    }

    /// Takes the bytes to write next: all that is pending when it is less than
    /// `MAX_WRITE_LENGTH`, else the first `MAX_WRITE_LENGTH` bytes.
    pub fn next_chunk(&mut self) -> (chunk: BytesMut)
        ensures
            bytes_view(chunk) + final(self).pending() == old(self).pending(),
            old(self).pending().len() < MAX_WRITE_LENGTH ==> final(self).pending().len() == 0,
            old(self).pending().len() >= MAX_WRITE_LENGTH ==> bytes_view(chunk).len()
                == MAX_WRITE_LENGTH,
    {
        let len = bytes_as_slice(&self.pending).len();
        let at = if len < MAX_WRITE_LENGTH {
            len
        } else {
            MAX_WRITE_LENGTH
        };
        let chunk = bytes_split_to(&mut self.pending, at);
        proof {
            assert(bytes_view(chunk) + bytes_view(self.pending) =~= bytes_view(old(self).pending));
        }
        chunk
    }
}

/// The value with the protocol note added: an object without a `jsonrpc` member gets one
/// with `"2.0"` after its members; any other value is left as it is (`None`).
pub fn with_protocol_note(v: JsonValue) -> (r: Option<JsonValue>)
    ensures
        match v {
            JsonValue::Object(m) => if spec_member(m@, "jsonrpc"@) is None {
                &&& r matches Some(JsonValue::Object(m2))
                &&& m2@.len() == m@.len() + 1
                &&& m2@.take(m@.len() as int) == m@
                &&& m2@.last().0@ == "jsonrpc"@
                &&& m2@.last().1 matches JsonValue::String(s)
                &&& s@ == "2.0"@
            } else {
                r is None
            },
            _ => r is None,
        },
{
    match v {
        JsonValue::Object(mut m) => {
            let has = match member_ref(&m, "jsonrpc") {
                Some(_) => true,
                None => false,
            };
            if has {
                None
            } else {
                let ghost before = m@;
                m.push(("jsonrpc".to_owned(), JsonValue::String("2.0".to_owned())));
                proof {
                    assert(m@.take(before.len() as int) =~= before);
                }
                Some(JsonValue::Object(m))
            }
        },
        _ => None,
    }
}


/// What the event loop does for a readiness event.
#[derive(Debug, PartialEq, Eq, Clone, Copy, Structural)]
pub enum ReadyAction {
    /// Accept a new connection on the listening socket.
    Accept,
    /// Read from the connection.
    Read,
    /// Drop the connection.
    Drop,
    /// Write the connection's pending bytes.
    Write,
}

/// The actions for a readiness event on the listening socket (`is_listener`) or on a
/// connection, in order: reading (accepting, on the listener), then dropping a connection
/// that hung up, then writing to a connection.
pub fn ready_actions(is_listener: bool, readable: bool, hup: bool, writable: bool) -> (r: Vec<ReadyAction>)
    ensures
        r@ == (if readable {
            seq![if is_listener {
                ReadyAction::Accept
            } else {
                ReadyAction::Read
            }]
        } else {
            Seq::empty()
        }) + (if hup && !is_listener {
            seq![ReadyAction::Drop]
        } else {
            Seq::empty()
        }) + (if writable && !is_listener {
            seq![ReadyAction::Write]
        } else {
            Seq::empty()
        }),
{
    let mut actions: Vec<ReadyAction> = Vec::new();
    if readable {
        if is_listener {
            actions.push(ReadyAction::Accept);
        } else {
            actions.push(ReadyAction::Read);
        }
    }
    if hup && !is_listener {
        actions.push(ReadyAction::Drop);
    }
    if writable && !is_listener {
        actions.push(ReadyAction::Write);
    }
    proof {
        let a = if readable {
            seq![if is_listener {
                ReadyAction::Accept
            } else {
                ReadyAction::Read
            }]
        } else {
            Seq::<ReadyAction>::empty()
        };
        let b = if hup && !is_listener {
            seq![ReadyAction::Drop]
        } else {
            Seq::<ReadyAction>::empty()
        };
        let c = if writable && !is_listener {
            seq![ReadyAction::Write]
        } else {
            Seq::<ReadyAction>::empty()
        };
        assert(actions@ =~= a + b + c);
    }
    actions
}

} // verus!
