//! The life cycle of a session: closed, open, closed again.
//!
//! The exchanges with the device are the transport's. This file decides what
//! the transport is to do, and what state the session is in once it has done
//! it.

use crate::error::Error;
use vstd::prelude::*;

verus! {

/// The two states of a session.
#[derive(Clone, Copy, Debug, PartialEq, Eq, Structural)]
pub enum SessionState {
    Closed,
    Open,
}

/// What the transport is to do next.
#[derive(Clone, Copy, Debug, PartialEq, Eq, Structural)]
pub enum SessionStep {
    /// Nothing: the session is where it should be.
    Nothing,
    /// The exchange that sets the session up.
    Establish,
    /// The exchange that takes the session down.
    TearDown,
}

/// A session with a device.
#[derive(Debug)]
pub struct Session {
    state: SessionState,
}

impl View for Session {
    type V = SessionState;

    closed spec fn view(&self) -> SessionState {
        self.state
    }
}

/// What closing comes to, given how the teardown went: a failure of the
/// transport is handed on, any other is dropped.
pub open spec fn close_outcome(teardown: Result<(), Error>) -> Result<(), Error> {
    match teardown {
        Err(Error::Transport(reason)) => Err(Error::Transport(reason)),
        _ => Ok(()),
    }
}

impl Session {
    /// A session that is closed.
    pub fn new() -> (session: Self)
        ensures
            session@ == SessionState::Closed,
    {
        Session { state: SessionState::Closed }
    }

    /// The state of the session.
    pub fn state(&self) -> (state: SessionState)
        ensures
            state == self@,
    {
        self.state
    }

    /// Whether the session is open.
    pub fn is_open(&self) -> (open: bool)
        ensures
            open == (self@ == SessionState::Open),
    {
        match self.state {
            SessionState::Open => true,
            SessionState::Closed => false,
        }
    }

    /// What opening asks of the transport: nothing where the session is open,
    /// else the exchange that sets it up.
    pub fn open(&self) -> (step: SessionStep)
        ensures
            step == if self@ == SessionState::Open {
                SessionStep::Nothing
            } else {
                SessionStep::Establish
            },
    {
        if self.is_open() {
            SessionStep::Nothing
        } else {
            SessionStep::Establish
        }
    }

    /// Takes in how the setup went. The session is open after a setup that
    /// succeeded; a failure leaves the state as it was and is handed on
    /// unchanged.
    pub fn established(&mut self, setup: Result<(), Error>) -> (r: Result<(), Error>)
        ensures
            r == setup,
            final(self)@ == if setup is Ok {
                SessionState::Open
            } else {
                old(self)@
            },
    {
        if setup.is_ok() {
            self.state = SessionState::Open;
        }
        setup
    }

    /// What closing asks of the transport: nothing where the session is
    /// closed, else the exchange that takes it down.
    pub fn close(&self) -> (step: SessionStep)
        ensures
            step == if self@ == SessionState::Open {
                SessionStep::TearDown
            } else {
                SessionStep::Nothing
            },
    {
        if self.is_open() {
            SessionStep::TearDown
        } else {
            SessionStep::Nothing
        }
    }

    /// Takes in how the teardown went. The session is closed whatever came
    /// back; only a failure of the transport is handed on.
    pub fn torn_down(&mut self, teardown: Result<(), Error>) -> (r: Result<(), Error>)
        ensures
            final(self)@ == SessionState::Closed,
            r == close_outcome(teardown),
    {
        self.state = SessionState::Closed;
        match teardown {
            Err(Error::Transport(reason)) => Err(Error::Transport(reason)),
            _ => Ok(()),
        }
    }
}

} // verus!
