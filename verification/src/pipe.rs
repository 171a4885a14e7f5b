//! The named-pipe server's own logic: the window of the request buffer that the next read
//! fills, and the tokens of the pipes.
use vstd::prelude::*;

verus! {

/// Size of the request buffer of a connection.
pub const MAX_REQUEST_LEN: usize = 65536;

/// Number of bytes read at once.
pub const REQUEST_READ_BATCH: usize = 4096;

/// The token of the first pipe.
pub const STARTING_PIPE_TOKEN: u32 = 1;

/// Where the next read of a connection goes: reads fill the request buffer batch by batch
/// until what was read so far is a valid request, which is then processed, and the buffer is
/// filled again from its start.
pub struct PipeReader {
    fin: usize,
}

impl PipeReader {
    /// The end of the window of the next read.
    pub closed spec fn fin(&self) -> nat {
        self.fin as nat
    }

    /// The state's invariant: the window is a whole batch past the start of the buffer.
    pub closed spec fn wf(&self) -> bool {
        self.fin >= REQUEST_READ_BATCH && self.fin % REQUEST_READ_BATCH == 0
    }

    /// A reader that fills the buffer from its start.
    pub fn new() -> (r: Self)
        ensures
            r.wf(),
            r.fin() == REQUEST_READ_BATCH,
    {
        PipeReader { fin: REQUEST_READ_BATCH }
    }

    /// The next window still lies within the request buffer.
    pub fn has_room(&self) -> (r: bool)
        ensures
            r == (self.fin() <= MAX_REQUEST_LEN),
    {
        self.fin <= MAX_REQUEST_LEN
    }

    /// The window `[start, fin)` of the buffer that the next read fills.
    pub fn window(&self) -> (r: (usize, usize))
        requires
            self.wf(),
        ensures
            r.1 == self.fin(),
            r.0 + REQUEST_READ_BATCH == r.1,
    {
        (self.fin - REQUEST_READ_BATCH, self.fin)
    }

    /// A read put `size` bytes into the window: returns how many bytes of the buffer hold
    /// what was read since the last request; the next window follows this one.
    pub fn after_read(&mut self, size: usize) -> (effective: usize)
        requires
            old(self).wf(),
            old(self).fin() <= MAX_REQUEST_LEN,
            size <= REQUEST_READ_BATCH,
        ensures
            final(self).wf(),
            effective == old(self).fin() - REQUEST_READ_BATCH + size,
            final(self).fin() == old(self).fin() + REQUEST_READ_BATCH,
    {
        let effective = self.fin - REQUEST_READ_BATCH + size;
        self.fin = self.fin + REQUEST_READ_BATCH;
        effective
    }

    /// A request was processed: the next read fills the buffer from its start.
    pub fn processed(&mut self)
        ensures
            final(self).wf(),
            final(self).fin() == REQUEST_READ_BATCH,
    {
        self.fin = REQUEST_READ_BATCH;
    }
}

/// The tokens of a server's pipes: the completion port of the waiting pipe takes the counter,
/// the pipe the next number, and each connection advances the counter by two.
pub struct PipeTokens {
    counter: u32,
}

impl PipeTokens {
    /// The counter.
    pub closed spec fn counter(&self) -> nat {
        self.counter as nat
    }

    /// Tokens starting at `STARTING_PIPE_TOKEN`.
    pub fn new() -> (r: Self)
        ensures
            r.counter() == STARTING_PIPE_TOKEN,
    {
        PipeTokens { counter: STARTING_PIPE_TOKEN }
    }

    /// The token of the completion port.
    pub fn port_token(&self) -> (r: u32)
        ensures
            r == self.counter(),
    {
        self.counter
    }

    /// The token of the waiting pipe.
    pub fn pipe_token(&self) -> (r: usize)
        requires
            self.counter() < usize::MAX,
        ensures
            r == self.counter() + 1,
    {
        self.counter as usize + 1
    }

    /// A client connected: the next pipe gets fresh tokens.
    pub fn advance(&mut self)
        requires
            old(self).counter() + 2 <= u32::MAX,
        ensures
            final(self).counter() == old(self).counter() + 2,
    {
        self.counter = self.counter + 2;
    }
}

} // verus!
