//! The run/stop bookkeeping shared by the socket and pipe servers.
use vstd::prelude::*;

verus! {

/// Why a server refused to start or stop.
#[derive(Debug, PartialEq, Eq, Clone, Copy, Structural)]
pub enum Error {
    /// The server is not running.
    NotStarted,
    /// A stop was requested already.
    AlreadyStopping,
    /// The server is running.
    NotStopped,
    /// A stop was requested: the server does not start again.
    IsStopping,
}

/// The flags a server and its event-loop thread share.
#[derive(Debug, PartialEq, Eq, Clone, Copy, Structural)]
pub struct ServerState {
    /// A stop was requested.
    pub is_stopping: bool,
    /// No event loop runs.
    pub is_stopped: bool,
}

/// A server that has not been started.
pub open spec fn initial_state() -> ServerState {
    ServerState { is_stopping: false, is_stopped: true }
}

/// Starting: refused once a stop was requested, and while an event loop runs.
pub open spec fn run_async_spec(s: ServerState) -> (ServerState, Result<(), Error>) {
    if s.is_stopping {
        (s, Err(Error::IsStopping))
    } else if !s.is_stopped {
        (s, Err(Error::NotStopped))
    } else {
        (ServerState { is_stopping: false, is_stopped: false }, Ok(()))
    }
}

/// Requesting a stop: refused when no event loop runs, and when a stop was requested.
pub open spec fn stop_spec(s: ServerState) -> (ServerState, Result<(), Error>) {
    if s.is_stopped {
        (s, Err(Error::NotStarted))
    } else if s.is_stopping {
        (s, Err(Error::AlreadyStopping))
    } else {
        (ServerState { is_stopping: true, is_stopped: false }, Ok(()))
    }
}

/// The event loop ended.
pub open spec fn finished_spec(s: ServerState) -> ServerState {
    ServerState { is_stopping: s.is_stopping, is_stopped: true }
}

impl ServerState {
    /// A server that has not been started.
    pub fn new() -> (r: Self)
        ensures
            r == initial_state(),
    {
        ServerState { is_stopping: false, is_stopped: true }
    }

    /// Run server (in separate thread): allowed when no stop was requested and no event loop
    /// runs; the loop is then marked as running.
    pub fn run_async(&mut self) -> (r: Result<(), Error>)
        ensures
            (*final(self), r) == run_async_spec(*old(self)),
    {
        if self.is_stopping {
            return Err(Error::IsStopping);
        }
        if !self.is_stopped {
            return Err(Error::NotStopped);
        }
        self.is_stopped = false;
        Ok(())
    }

    /// Requests a stop (`stop_async`, and the first half of `stop`, which then waits for the
    /// event loop to end).
    pub fn stop_async(&mut self) -> (r: Result<(), Error>)
        ensures
            (*final(self), r) == stop_spec(*old(self)),
    {
        if self.is_stopped {
            return Err(Error::NotStarted);
        }
        if self.is_stopping {
            return Err(Error::AlreadyStopping);
        }
        self.is_stopping = true;
        Ok(())
    }

    /// The event loop keeps running while no stop was requested.
    pub fn keeps_running(&self) -> (r: bool)
        ensures
            r == !self.is_stopping,
    {
        !self.is_stopping
    }

    /// The event loop has ended.
    pub fn loop_finished(&mut self)
        ensures
            *final(self) == finished_spec(*old(self)),
    {
        self.is_stopped = true;
    }
}

/// A fresh server starts; a second start is refused with `NotStopped`; a stop is then
/// accepted and a second one refused with `AlreadyStopping`; once the event loop has ended,
/// the server neither starts again (`IsStopping`) nor stops (`NotStarted`).
pub proof fn law_server_lifecycle()
    ensures
        ({
            let (s1, r1) = run_async_spec(initial_state());
            let (s2, r2) = run_async_spec(s1);
            let (s3, r3) = stop_spec(s2);
            let (s4, r4) = stop_spec(s3);
            let s5 = finished_spec(s4);
            &&& r1 is Ok
            &&& r2 == Err::<(), Error>(Error::NotStopped)
            &&& r3 is Ok
            &&& r4 == Err::<(), Error>(Error::AlreadyStopping)
            &&& run_async_spec(s5).1 == Err::<(), Error>(Error::IsStopping)
            &&& stop_spec(s5).1 == Err::<(), Error>(Error::NotStarted)
        }),
{
}

/// Once a stop was requested, no sequence of calls starts the server again: a start is
/// refused and leaves the state as it is, and neither a stop nor the end of the loop clears
/// the request.
pub proof fn law_stop_is_final(s: ServerState)
    requires
        s.is_stopping,
    ensures
        run_async_spec(s) == (s, Err::<(), Error>(Error::IsStopping)),
        stop_spec(s).0.is_stopping,
        finished_spec(s).is_stopping,
{
}

} // verus!
