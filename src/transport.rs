//! The request side of the IPC channel: the handle on the player's endpoint
//! and the policy for connecting to an endpoint that may not exist yet.

use vstd::prelude::*;

use crate::command::{command_frame, encode_command, LoadFile, MpvCommand};

verus! {

/// How many times a failed connection is tried again.
pub const CONNECT_RETRIES: u32 = 5;

/// Pause before each new connection attempt, in milliseconds.
pub const RETRY_DELAY_MS: u64 = 200;

/// Failures of the orchestration.
#[derive(PartialEq, Eq, Structural, Clone, Copy, Debug)]
pub enum PlayerError {
    /// The endpoint could not be reached after every retry.
    EndpointUnavailable,
    /// A line from the player could not be decoded.
    ProtocolDecodeError,
    /// The player could not be launched.
    SpawnFailure,
}

/// What to do after a connection attempt failed.
#[derive(PartialEq, Eq, Structural, Clone, Copy, Debug)]
pub enum ConnectDecision {
    /// Wait this many milliseconds, then try again.
    Retry { delay_ms: u64 },
    /// Stop: the request is dropped.
    GiveUp(PlayerError),
}

/// Retry budget of one request's connection.
pub struct ConnectRetry {
    retries_left: u32,
}

impl View for ConnectRetry {
    type V = nat;

    /// Retries still allowed.
    closed spec fn view(&self) -> nat {
        self.retries_left as nat
    }
}

impl ConnectRetry {
    pub fn new() -> (r: ConnectRetry)
        ensures
            r@ == CONNECT_RETRIES,
    {
        ConnectRetry { retries_left: CONNECT_RETRIES }
    }

    pub fn retries_left(&self) -> (r: u32)
        ensures
            r == self@,
    {
        self.retries_left
    }

    /// Decides what follows a failed attempt: wait and retry while the budget
    /// lasts, then give up with `EndpointUnavailable`.
    pub fn on_failure(&mut self) -> (r: ConnectDecision)
        ensures
            old(self)@ > 0 ==> (r == (ConnectDecision::Retry { delay_ms: RETRY_DELAY_MS })
                && final(self)@ == old(self)@ - 1),
            old(self)@ == 0 ==> (r == ConnectDecision::GiveUp(PlayerError::EndpointUnavailable)
                && final(self)@ == 0),
    {
        if self.retries_left > 0 {
            self.retries_left = self.retries_left - 1;
            ConnectDecision::Retry { delay_ms: RETRY_DELAY_MS }
        } else {
            ConnectDecision::GiveUp(PlayerError::EndpointUnavailable)
        }
    }
}

/// Handle on a running player: the address of its IPC endpoint.
#[derive(Clone, Debug, Default)]
pub struct Mpv {
    pub socket: String,
}

impl Mpv {
    /// The line that asks this player to load `command`.
    pub fn loadfile(&self, command: LoadFile) -> (r: String)
        ensures
            r@ == command_frame(MpvCommand::LoadFile(command)),
    {
        encode_command(&MpvCommand::LoadFile(command))
    }
}

} // verus!
