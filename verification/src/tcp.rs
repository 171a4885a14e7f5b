//! The line-based TCP transport's own logic: the line codec, the text a request's outcome is
//! answered with, and the decisions of a peer's outgoing message queue.
use vstd::prelude::*;
use vstd::utf8::*;

use bytes::BytesMut;

use crate::buffer::{bytes_as_slice, bytes_extend, bytes_split_to, bytes_view};
use crate::validator::string_from_utf8;

verus! {

/// Index of the first `\n` byte of `b`.
pub open spec fn first_newline(b: Seq<u8>) -> Option<int>
    decreases b.len(),
{
    if b.len() == 0 {
        None
    } else if b[0] == 10u8 {
        Some(0)
    } else {
        match first_newline(b.drop_first()) {
            Some(i) => Some(i + 1),
            None => None,
        }
    }
}

proof fn lemma_first_newline(b: Seq<u8>, i: int)
    requires
        0 <= i <= b.len(),
        forall|k: int| 0 <= k < i ==> b[k] != 10u8,
    ensures
        i < b.len() && b[i] == 10u8 ==> first_newline(b) == Some(i),
        i == b.len() ==> first_newline(b) is None,
    decreases i,
{
    if i > 0 {
        assert forall|k: int| 0 <= k < i - 1 implies b.drop_first()[k] != 10u8 by {
            assert(b[k + 1] != 10u8);
        }
        lemma_first_newline(b.drop_first(), i - 1);
        assert(b[0] != 10u8);
    }
}

/// What decoding a buffer gives.
pub enum Decoded {
    /// No complete line yet.
    Nothing,
    /// A line, without its `\n`.
    Line(Seq<char>),
    /// A line that is not valid UTF-8 (it is consumed all the same).
    Invalid,
}

/// Decoding `b`: the first line and the bytes after its `\n`, or nothing and `b` as it is.
pub open spec fn spec_decode(b: Seq<u8>) -> (Decoded, Seq<u8>) {
    match first_newline(b) {
        None => (Decoded::Nothing, b),
        Some(i) => {
            let line = b.subrange(0, i);
            (
                if valid_utf8(line) {
                    Decoded::Line(decode_utf8(line))
                } else {
                    Decoded::Invalid
                },
                b.subrange(i + 1, b.len() as int),
            )
        },
    }
}

/// Encoding a message after `b`: its UTF-8 bytes and a `\n`.
pub open spec fn spec_encode(msg: Seq<char>, b: Seq<u8>) -> Seq<u8> {
    b + encode_utf8(msg) + seq![10u8]
}

/// Why a line could not be decoded.
#[derive(Debug, PartialEq, Eq, Clone, Copy, Structural)]
pub enum CodecError {
    /// The line is not valid UTF-8.
    InvalidUtf8,
}

/// Frames messages as lines: each message is followed by `\n`.
#[derive(Debug, Clone, Copy)]
pub struct LineCodec;

impl LineCodec {
    /// Takes the first complete line out of `buf`: `None` (and `buf` untouched) when there is
    /// none; the line without its `\n` otherwise, or an error when it is not valid UTF-8.
    pub fn decode(&mut self, buf: &mut BytesMut) -> (r: Result<Option<String>, CodecError>)
        ensures
            bytes_view(*final(buf)) == spec_decode(bytes_view(*old(buf))).1,
            match r {
                Ok(None) => spec_decode(bytes_view(*old(buf))).0 is Nothing,
                Ok(Some(s)) => spec_decode(bytes_view(*old(buf))).0 == Decoded::Line(s@),
                Err(_) => spec_decode(bytes_view(*old(buf))).0 is Invalid,
            },
    {
        let ghost start = bytes_view(*buf);
        let i: usize;
        {
            let data = bytes_as_slice(buf);
            let mut k: usize = 0;
            while k < data.len() && data[k] != 10u8
                invariant
                    k <= data@.len(),
                    data@ == start,
                    forall|m: int| 0 <= m < k ==> data@[m] != 10u8,
                decreases data@.len() - k,
            {
                k = k + 1;
            }
            proof {
                lemma_first_newline(data@, k as int);
            }
            if k == data.len() {
                return Ok(None);
            }
            i = k;
        }
        let line = bytes_split_to(buf, i);
        let _newline = bytes_split_to(buf, 1);
        proof {
            assert(bytes_view(*buf) =~= start.subrange(i + 1, start.len() as int));
        }
        match string_from_utf8(bytes_as_slice(&line)) {
            Some(s) => Ok(Some(s)),
            None => Err(CodecError::InvalidUtf8),
        }
    }

    /// Appends `msg` and a `\n` to `buf`.
    pub fn encode(&mut self, msg: String, buf: &mut BytesMut)
        requires
            bytes_view(*old(buf)).len() + encode_utf8(msg@).len() + 1 <= isize::MAX,
        ensures
            bytes_view(*final(buf)) == spec_encode(msg@, bytes_view(*old(buf))),
    {
        let bytes = msg.as_str().as_bytes();
        let mut payload: Vec<u8> = Vec::new();
        let mut k: usize = 0;
        while k < bytes.len()
            invariant
                k <= bytes@.len(),
                payload@ == bytes@.subrange(0, k as int),
            decreases bytes@.len() - k,
        {
            payload.push(bytes[k]);
            k = k + 1;
            proof {
                assert(bytes@.subrange(0, k as int) =~= bytes@.subrange(0, k - 1).push(bytes@[k - 1]));
            }
        }
        payload.push(10u8);
        proof {
            assert(payload@ =~= encode_utf8(msg@) + seq![10u8]);
        }
        bytes_extend(buf, payload.as_slice());
        proof {
            assert(bytes_view(*buf) =~= spec_encode(msg@, bytes_view(*old(buf))));
        }
    }
}

impl LineCodec {
    /// Appends `msg` and a `\n` to `buf` when the result stays within the largest buffer
    /// size, `isize::MAX` bytes; otherwise leaves `buf` as it is. Returns whether `msg` was
    /// appended.
    pub fn encode_within_limit(&mut self, msg: String, buf: &mut BytesMut) -> (r: bool)
        ensures
            r == (bytes_view(*old(buf)).len() + encode_utf8(msg@).len() + 1 <= isize::MAX),
            r ==> bytes_view(*final(buf)) == spec_encode(msg@, bytes_view(*old(buf))),
            !r ==> bytes_view(*final(buf)) == bytes_view(*old(buf)),
    {
        let have: usize = bytes_as_slice(buf).len();
        let add: usize = msg.as_str().as_bytes().len();
        let limit: usize = isize::MAX as usize;
        if have < limit && add < limit - have {
            self.encode(msg, buf);
            true
        } else {
            false
        }
    }
}

proof fn lemma_encode_no_newline(chars: Seq<char>)
    requires
        forall|k: int| 0 <= k < chars.len() ==> chars[k] != '\n',
    ensures
        forall|k: int| 0 <= k < encode_utf8(chars).len() ==> encode_utf8(chars)[k] != 10u8,
    decreases chars.len(),
{
    if chars.len() > 0 {
        let rest = chars.drop_first();
        assert forall|k: int| 0 <= k < rest.len() implies rest[k] != '\n' by {
            assert(chars[k + 1] != '\n');
        }
        lemma_encode_no_newline(rest);
        let c = chars[0] as u32;
        let head = encode_scalar(c);
        assert(chars[0] != '\n');
        assert(('\n' as u32) == 10u32);
        vstd::utf8::char_u32_cast(chars[0], c);
        assert(c != 10u32);
        assert forall|k: int| 0 <= k < head.len() implies head[k] != 10u8 by {
            if has_width_1_encoding(c) {
                assert(c <= 0x7F && c != 10 ==> (c & 0x7F) as u8 != 10u8) by (bit_vector);
            } else if has_width_2_encoding(c) {
                assert((0xC0u8 | ((c >> 6u32) & 0x1Fu32) as u8) != 10u8) by (bit_vector);
                assert((0x80u8 | (c & 0x3Fu32) as u8) != 10u8) by (bit_vector);
            } else if has_width_3_encoding(c) {
                assert((0xE0u8 | ((c >> 12u32) & 0x0Fu32) as u8) != 10u8) by (bit_vector);
                assert((0x80u8 | ((c >> 6u32) & 0x3Fu32) as u8) != 10u8) by (bit_vector);
                assert((0x80u8 | (c & 0x3Fu32) as u8) != 10u8) by (bit_vector);
            } else {
                assert((0xF0u8 | ((c >> 18u32) & 0x7u32) as u8) != 10u8) by (bit_vector);
                assert((0x80u8 | ((c >> 12u32) & 0x3Fu32) as u8) != 10u8) by (bit_vector);
                assert((0x80u8 | ((c >> 6u32) & 0x3Fu32) as u8) != 10u8) by (bit_vector);
                assert((0x80u8 | (c & 0x3Fu32) as u8) != 10u8) by (bit_vector);
            }
        }
        let all = encode_utf8(chars);
        assert(all == head + encode_utf8(rest));
        assert forall|k: int| 0 <= k < all.len() implies all[k] != 10u8 by {
            if k >= head.len() {
                assert(all[k] == encode_utf8(rest)[k - head.len()]);
            }
        }
    }
}

/// A message without a line break, encoded and followed by any bytes, decodes as that
/// message, and the bytes that followed are left for the next decode.
pub proof fn law_decode_of_encode(msg: Seq<char>, tail: Seq<u8>)
    requires
        forall|k: int| 0 <= k < msg.len() ==> msg[k] != '\n',
    ensures
        spec_decode(spec_encode(msg, Seq::empty()) + tail) == (Decoded::Line(msg), tail),
{
    let bytes = encode_utf8(msg);
    let b = spec_encode(msg, Seq::empty()) + tail;
    lemma_encode_no_newline(msg);
    assert(Seq::<u8>::empty() + bytes =~= bytes);
    assert forall|k: int| 0 <= k < bytes.len() implies b[k] != 10u8 by {
        assert(b[k] == bytes[k]);
    }
    assert(b[bytes.len() as int] == 10u8);
    lemma_first_newline(b, bytes.len() as int);
    assert(b.subrange(0, bytes.len() as int) =~= bytes);
    assert(b.subrange(bytes.len() as int + 1, b.len() as int) =~= tail);
    encode_utf8_valid_utf8(msg);
    encode_utf8_decode_utf8(msg);
}

/// Why a message could not be pushed to a peer.
#[derive(Debug, PartialEq, Eq, Clone, Copy, Structural)]
pub enum PushMessageError {
    /// Invalid peer
    NoSuchPeer,
    /// The peer's channel refused the message.
    Send,
}

/// Where a message for a peer goes: the peer's channel when the peer is connected, or
/// `NoSuchPeer` when it is not.
pub fn push_target<C>(channel: Option<C>) -> (r: Result<C, PushMessageError>)
    ensures
        channel is None ==> r == Err::<C, PushMessageError>(PushMessageError::NoSuchPeer),
        channel matches Some(c) ==> r == Ok::<C, PushMessageError>(c),
{
    match channel {
        Some(c) => Ok(c),
        None => Err(PushMessageError::NoSuchPeer),
    }
}

/// The text a request's outcome is answered with: the response, or nothing (an empty line)
/// when processing failed or the request produced no response.
pub fn response_text(outcome: Result<Option<String>, ()>) -> (r: String)
    ensures
        match outcome {
            Ok(Some(s)) => r@ == s@,
            _ => r@ == Seq::<char>::empty(),
        },
{
    match outcome {
        Ok(Some(s)) => s,
        _ => String::new(),
    }
}

/// The outcome of polling a stream.
pub enum Polled<T> {
    /// An item is ready.
    Ready(T),
    /// The stream has ended.
    Closed,
    /// Nothing yet.
    Pending,
}

/// What a peer's outgoing queue does after its response stream was polled.
pub enum AfterResponses<T> {
    /// Yield this response.
    Yield(T),
    /// The queue has ended.
    End,
    /// Poll the channel of pushed messages next; the response stream has ended or not.
    PollPushed(bool),
}

/// What a peer's outgoing queue yields.
pub enum QueueStep<T> {
    /// This item.
    Yield(T),
    /// The queue has ended.
    End,
    /// Nothing yet.
    Pending,
}

/// A peer's outgoing queue: the responses to its requests first, then the messages pushed
/// to it; it ends once the responses have ended and no pushed message is ready.
pub struct PeerQueue {
    receiver_open: bool,
}

impl PeerQueue {
    /// The channel of pushed messages is still read.
    pub closed spec fn receiver_open(&self) -> bool {
        self.receiver_open
    }

    /// A queue whose channel of pushed messages is open.
    pub fn new() -> (r: Self)
        ensures
            r.receiver_open(),
    {
        PeerQueue { receiver_open: true }
    }

    /// After polling the response stream: a response is yielded at once; otherwise the
    /// channel is polled, unless it was dropped, in which case the queue has ended.
    pub fn after_responses<T>(&self, polled: Polled<T>) -> (r: AfterResponses<T>)
        ensures
            polled matches Polled::Ready(x) ==> r == AfterResponses::Yield(x),
            !(polled is Ready) && !self.receiver_open() ==> r is End,
            !(polled is Ready) && self.receiver_open() ==> r == AfterResponses::<T>::PollPushed(
                polled is Closed,
            ),
    {
        match polled {
            Polled::Ready(x) => AfterResponses::Yield(x),
            Polled::Closed => if self.receiver_open {
                AfterResponses::PollPushed(true)
            } else {
                AfterResponses::End
            },
            Polled::Pending => if self.receiver_open {
                AfterResponses::PollPushed(false)
            } else {
                AfterResponses::End
            },
        }
    }

    /// After polling the channel of pushed messages: a message is yielded; otherwise the
    /// queue ends when the responses have ended (and the channel is dropped), else waits.
    pub fn after_pushed(&mut self, responses_closed: bool, polled: Polled<String>) -> (r: QueueStep<String>)
        ensures
            polled matches Polled::Ready(x) ==> r == QueueStep::Yield(x) && final(self).receiver_open()
                == old(self).receiver_open(),
            !(polled is Ready) && responses_closed ==> r is End && !final(self).receiver_open(),
            !(polled is Ready) && !responses_closed ==> r is Pending && final(self).receiver_open()
                == old(self).receiver_open(),
    {
        match polled {
            Polled::Ready(x) => QueueStep::Yield(x),
            _ => if responses_closed {
                self.receiver_open = false;
                QueueStep::End
            } else {
                QueueStep::Pending
            },
        }
    }
}

} // verus!
