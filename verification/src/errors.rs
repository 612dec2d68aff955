//! The ways in which a run of the harness ends early.
//!
//! Nothing here is recovered from: a run that meets one of these stops. The
//! operations hand them back as values, so that the caller decides how to stop.

use vstd::prelude::*;

verus! {

/// An option of the command line that holds a number.
#[derive(Debug, Clone, Copy, PartialEq, Eq, Structural)]
pub enum NumericOption {
    /// `-N`, the party count.
    Size,
    /// `-T`, the signing threshold.
    Threshold,
    /// `-P`, the local party's index.
    Party,
    /// `-p`, the lowest port.
    Port,
    /// `-n`, the iteration count.
    Iterations,
}

/// A fault in what the run was asked to do, found before any network activity.
#[derive(Debug, PartialEq, Eq)]
pub enum ConfigError {
    /// The command line does not follow the option set; the text says how.
    Usage(String),
    /// `-P` is missing: a party has to be told which one it is.
    MissingParty,
    /// The value of a numeric option is not a number of its range.
    InvalidNumber(NumericOption),
    /// Fewer than two parties.
    TooFewParties,
    /// The party's index is not below the party count.
    PartyOutOfRange,
    /// More than two parties and no `-p`.
    PortsRequired,
    /// The block of ports, one per pair, runs past the largest number that the
    /// machine counts to.
    PortRange,
    /// A peer that the party has to dial has no address.
    MissingAddress,
}

/// The step of the transport that failed.
#[derive(Debug, Clone, Copy, PartialEq, Eq, Structural)]
pub enum Stage {
    /// Binding the port to listen on.
    Bind,
    /// Waiting for the peer to connect.
    Accept,
    /// Dialling the peer.
    Connect,
    /// Taking the second handle of a connection, or switching off its delay.
    Configure,
    /// Writing or flushing the readiness sentinel.
    Send,
    /// Reading the readiness sentinel.
    Receive,
}

/// A failure of the network, with the party that met it and the peer on whose
/// channel it happened.
#[derive(Debug, Clone, Copy, PartialEq, Eq, Structural)]
pub struct TransportError {
    pub stage: Stage,
    pub party: usize,
    pub peer: usize,
}

/// A failure above the transport.
#[derive(Debug, Clone, Copy, PartialEq, Eq, Structural)]
pub enum ProtocolError {
    /// The signer's setup failed; `iteration` counts the setups that had
    /// succeeded before it.
    SetupFailed { party: usize, iteration: usize },
    /// An event reached a state machine that was not waiting for it.
    Unexpected,
    /// A mean over no iterations was asked for.
    NoIterations,
    /// The clock gave no time for the loop.
    NoTime,
}

/// Anything that ends a run early.
#[derive(Debug, PartialEq, Eq)]
pub enum HarnessError {
    Config(ConfigError),
    Transport(TransportError),
    Protocol(ProtocolError),
}

} // verus!
