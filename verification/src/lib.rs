//! Setup harness for an N-party threshold signer: every party derives, from
//! its own index and the party count alone, one port per pair of parties and
//! its role on each pair, opens the full mesh, waits at a readiness barrier and
//! then times repeated constructions of the signer.

pub mod barrier;
pub mod barrier_run;
pub mod bench;
pub mod clock;
pub mod config;
pub mod errors;
pub mod messages;
pub mod options;
pub mod ports;
pub mod rendezvous;
pub mod seed;
pub mod text;
