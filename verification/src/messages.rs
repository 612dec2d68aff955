//! What the harness tells its user: where it waits, where it dials, and what
//! went wrong.
//!
//! Every message names the party that speaks and, where there is one, the
//! peer, so that the one process that hangs or fails among many is found.

use vstd::prelude::*;
use vstd::string::*;
use crate::errors::{
    ConfigError,
    HarnessError,
    NumericOption,
    ProtocolError,
    Stage,
    TransportError,
};
use crate::rendezvous::PeerAction;
use crate::text::{decimal_digits, push_decimal, push_signed, signed_digits};

verus! {

/// The address on which a listener binds: every interface of the machine.
pub open spec fn wildcard_host() -> Seq<char> {
    "0.0.0.0"@
}

/// The address on which a listener binds.
pub fn wildcard() -> (host: &'static str)
    ensures
        host@ == wildcard_host(),
{
    "0.0.0.0"
}

/// A socket address: the host, a colon, the port.
pub open spec fn endpoint_text(host: Seq<char>, port: int) -> Seq<char> {
    host + seq![':'] + decimal_digits(port as nat)
}

/// The socket address of `port` at `host`.
pub fn endpoint(host: &str, port: usize) -> (text: String)
    ensures
        text@ == endpoint_text(host@, port as int),
{
    let mut text = String::from_str(host);
    text.append(":");
    proof {
        reveal_strlit(":");
    }
    push_decimal(&mut text, port);
    text
}

impl PeerAction {
    /// What `party` says before it acts: where it waits for whom, or whom it
    /// dials where. Nothing is said of the party's own slot, nor at the end.
    pub open spec fn spec_announcement(self, party: int) -> Option<Seq<char>> {
        match self {
            PeerAction::Listen { peer, port } => Some(
                decimal_digits(party as nat) + " waiting for "@ + decimal_digits(peer as nat)
                    + " to connect on "@ + endpoint_text(wildcard_host(), port as int),
            ),
            PeerAction::Connect { peer, host, port } => Some(
                decimal_digits(party as nat) + " connecting to "@ + decimal_digits(peer as nat)
                    + " server "@ + endpoint_text(host@, port as int) + "..."@,
            ),
            PeerAction::RecordOwn => None,
            PeerAction::Finished => None,
        }
    }

    /// The socket address that the action binds or dials, where it does
    /// either.
    pub open spec fn spec_endpoint(self) -> Option<Seq<char>> {
        match self {
            PeerAction::Listen { peer, port } => Some(endpoint_text(wildcard_host(), port as int)),
            PeerAction::Connect { peer, host, port } => Some(endpoint_text(host@, port as int)),
            PeerAction::RecordOwn => None,
            PeerAction::Finished => None,
        }
    }

    /// The socket address that the action binds or dials, where it does
    /// either.
    pub fn endpoint(&self) -> (text: Option<String>)
        ensures
            match text {
                Some(t) => self.spec_endpoint() == Some(t@),
                None => self.spec_endpoint() is None,
            },
    {
        match self {
            PeerAction::Listen { peer, port } => Some(endpoint(wildcard(), *port)),
            PeerAction::Connect { peer, host, port } => Some(endpoint(host.as_str(), *port)),
            PeerAction::RecordOwn => None,
            PeerAction::Finished => None,
        }
    }

    /// What `party` says before it acts.
    pub fn announcement(&self, party: usize) -> (text: Option<String>)
        ensures
            match text {
                Some(t) => self.spec_announcement(party as int) == Some(t@),
                None => self.spec_announcement(party as int) is None,
            },
    {
        match self {
            PeerAction::Listen { peer, port } => {
                let mut text = String::new();
                push_decimal(&mut text, party);
                text.append(" waiting for ");
                push_decimal(&mut text, *peer);
                text.append(" to connect on ");
                let place = endpoint(wildcard(), *port);
                text.append(place.as_str());
                Some(text)
            },
            PeerAction::Connect { peer, host, port } => {
                let mut text = String::new();
                push_decimal(&mut text, party);
                text.append(" connecting to ");
                push_decimal(&mut text, *peer);
                text.append(" server ");
                let place = endpoint(host.as_str(), *port);
                text.append(place.as_str());
                text.append("...");
                Some(text)
            },
            PeerAction::RecordOwn => None,
            PeerAction::Finished => None,
        }
    }
}

/// What `party` says once it is through the barrier.
pub open spec fn start_text(party: int, iterations: int) -> Seq<char> {
    decimal_digits(party as nat) + " connected. Performing "@ + signed_digits(iterations)
        + " Iteration Benchmark..."@
}

/// What `party` says once it is through the barrier.
pub fn start_announcement(party: usize, iterations: i32) -> (text: String)
    ensures
        text@ == start_text(party as int, iterations as int),
{
    let mut text = String::new();
    push_decimal(&mut text, party);
    text.append(" connected. Performing ");
    push_signed(&mut text, iterations);
    text.append(" Iteration Benchmark...");
    text
}

impl NumericOption {
    /// The option as it is written on the command line.
    pub open spec fn spec_flag(self) -> Seq<char> {
        match self {
            NumericOption::Size => "-N"@,
            NumericOption::Threshold => "-T"@,
            NumericOption::Party => "-P"@,
            NumericOption::Port => "-p"@,
            NumericOption::Iterations => "-n"@,
        }
    }

    /// The option as it is written on the command line.
    pub fn flag(&self) -> (text: &'static str)
        ensures
            text@ == self.spec_flag(),
    {
        match self {
            NumericOption::Size => "-N",
            NumericOption::Threshold => "-T",
            NumericOption::Party => "-P",
            NumericOption::Port => "-p",
            NumericOption::Iterations => "-n",
        }
    }
}

impl ConfigError {
    /// The fault in words.
    pub open spec fn spec_message(self) -> Seq<char> {
        match self {
            ConfigError::Usage(text) => text@,
            ConfigError::MissingParty => "Please add the party number (-P)"@,
            ConfigError::InvalidNumber(option) => "Not a valid number for "@ + option.spec_flag(),
            ConfigError::TooFewParties => "At least two parties are needed"@,
            ConfigError::PartyOutOfRange => "The party number must be below the number of parties"@,
            ConfigError::PortsRequired => "Please add ports"@,
            ConfigError::PortRange => "Too few ports above the lowest port"@,
            ConfigError::MissingAddress => "Please add an address for every party"@,
        }
    }

    /// The fault in words.
    pub fn message(&self) -> (text: String)
        ensures
            text@ == self.spec_message(),
    {
        match self {
            ConfigError::Usage(text) => text.clone(),
            ConfigError::MissingParty => String::from_str("Please add the party number (-P)"),
            ConfigError::InvalidNumber(option) => {
                let mut text = String::from_str("Not a valid number for ");
                text.append(option.flag());
                text
            },
            ConfigError::TooFewParties => String::from_str("At least two parties are needed"),
            ConfigError::PartyOutOfRange => String::from_str(
                "The party number must be below the number of parties",
            ),
            ConfigError::PortsRequired => String::from_str("Please add ports"),
            ConfigError::PortRange => String::from_str("Too few ports above the lowest port"),
            ConfigError::MissingAddress => String::from_str("Please add an address for every party"),
        }
    }
}

impl Stage {
    /// What the party was doing, as the middle of a sentence.
    pub open spec fn spec_phrase(self) -> Seq<char> {
        match self {
            Stage::Bind => " failed to bind the port for party "@,
            Stage::Accept => " failed to accept the connection of party "@,
            Stage::Connect => " failed to connect to party "@,
            Stage::Configure => " could not set nodelay on the channel to party "@,
            Stage::Send => " failed to send ready signal to party "@,
            Stage::Receive => " failed to read ready signal from party "@,
        }
    }

    /// What the party was doing, as the middle of a sentence.
    pub fn phrase(&self) -> (text: &'static str)
        ensures
            text@ == self.spec_phrase(),
    {
        match self {
            Stage::Bind => " failed to bind the port for party ",
            Stage::Accept => " failed to accept the connection of party ",
            Stage::Connect => " failed to connect to party ",
            Stage::Configure => " could not set nodelay on the channel to party ",
            Stage::Send => " failed to send ready signal to party ",
            Stage::Receive => " failed to read ready signal from party ",
        }
    }
}

impl TransportError {
    /// The failure in words: the party, what it was doing, and the peer.
    pub open spec fn spec_message(self) -> Seq<char> {
        "Party "@ + decimal_digits(self.party as nat) + self.stage.spec_phrase() + decimal_digits(
            self.peer as nat,
        ) + "."@
    }

    /// The failure in words.
    pub fn message(&self) -> (text: String)
        ensures
            text@ == self.spec_message(),
    {
        let mut text = String::from_str("Party ");
        push_decimal(&mut text, self.party);
        text.append(self.stage.phrase());
        push_decimal(&mut text, self.peer);
        text.append(".");
        text
    }
}

impl ProtocolError {
    /// The failure in words.
    pub open spec fn spec_message(self) -> Seq<char> {
        match self {
            ProtocolError::SetupFailed { party, iteration } => "Party "@ + decimal_digits(
                party as nat,
            ) + " failed to set up the signer after "@ + decimal_digits(iteration as nat)
                + " iterations."@,
            ProtocolError::Unexpected => "An event came out of turn."@,
            ProtocolError::NoIterations => "There is no average over zero iterations."@,
            ProtocolError::NoTime => "The clock gave no time for the benchmark."@,
        }
    }

    /// The failure in words.
    pub fn message(&self) -> (text: String)
        ensures
            text@ == self.spec_message(),
    {
        match self {
            ProtocolError::SetupFailed { party, iteration } => {
                let mut text = String::from_str("Party ");
                push_decimal(&mut text, *party);
                text.append(" failed to set up the signer after ");
                push_decimal(&mut text, *iteration);
                text.append(" iterations.");
                text
            },
            ProtocolError::Unexpected => String::from_str("An event came out of turn."),
            ProtocolError::NoIterations => String::from_str(
                "There is no average over zero iterations.",
            ),
            ProtocolError::NoTime => String::from_str("The clock gave no time for the benchmark."),
        }
    }
}

impl HarnessError {
    /// The failure in words.
    pub open spec fn spec_message(self) -> Seq<char> {
        match self {
            HarnessError::Config(e) => e.spec_message(),
            HarnessError::Transport(e) => e.spec_message(),
            HarnessError::Protocol(e) => e.spec_message(),
        }
    }

    /// The failure in words.
    pub fn message(&self) -> (text: String)
        ensures
            text@ == self.spec_message(),
    {
        match self {
            HarnessError::Config(e) => e.message(),
            HarnessError::Transport(e) => e.message(),
            HarnessError::Protocol(e) => e.message(),
        }
    }
}

/// The status with which a process ends by itself: 0 after the usage text or
/// a finished run, 1 after a fault in its configuration.
pub fn exit_code(fault: &Option<ConfigError>) -> (code: i32)
    ensures
        code == if fault is Some {
            1i32
        } else {
            0i32
        },
{
    match fault {
        Some(_) => 1,
        None => 0,
    }
}

} // verus!
