//! From the texts of a command line to the parameters of a run.
//!
//! Every fault is found here, before anything touches the network: a number
//! that is none, a party that does not say which one it is, a mesh of more
//! than two without a port, too few addresses.

use vstd::prelude::*;
use vstd::string::*;
use crate::bench::DEFAULT_ITERATIONS;
use crate::errors::{ConfigError, NumericOption};
use crate::options::{CommandLine, CommandLineView, text_of};
use crate::rendezvous::{Mesh, mesh_fault};
use crate::text::{parse_i32, parse_usize, pieces, signed_in, split_commas, texts, unsigned_in};

verus! {

/// The party count where `-N` is not given.
pub const DEFAULT_PARTIES: usize = 2;

/// The threshold where `-T` is not given.
pub const DEFAULT_THRESHOLD: usize = 2;

/// The lowest port where `-p` is not given; only a mesh of two may leave it
/// out.
pub const DEFAULT_PORT: usize = 12345;

/// The address list where `-a` is not given.
pub open spec fn default_addresses() -> Seq<char> {
    "0.0.0.0"@
}

/// The number that an option stands for: its default where it is not given,
/// `None` where its text is no unsigned number that fits a `usize`.
pub open spec fn count_setting(text: Option<Seq<char>>, default: int) -> Option<int> {
    match text {
        Some(t) => unsigned_in(t, usize::MAX as int),
        None => Some(default),
    }
}

/// The iteration count that `-n` stands for: 1000 where it is not given,
/// `None` where its text is no number that fits an `i32`.
pub open spec fn iterations_setting(text: Option<Seq<char>>) -> Option<int> {
    match text {
        Some(t) => signed_in(t, i32::MIN as int, i32::MAX as int),
        None => Some(DEFAULT_ITERATIONS as int),
    }
}

/// The addresses that `-a` stands for.
pub open spec fn addresses_setting(text: Option<Seq<char>>) -> Seq<Seq<char>> {
    match text {
        Some(t) => pieces(t),
        None => pieces(default_addresses()),
    }
}

/// The parameters of a run, as plain values.
pub struct Settings {
    pub index: int,
    pub parties: int,
    pub threshold: int,
    pub base_port: int,
    pub iterations: int,
    pub addresses: Seq<Seq<char>>,
    pub output: Option<Seq<char>>,
}

/// What a command line says, each option read by itself. Where
/// `line_fault` finds a fault, the numbers it names mean nothing.
pub open spec fn settings_of(line: CommandLineView) -> Settings {
    Settings {
        index: count_setting(line.party, 0).unwrap(),
        parties: count_setting(line.size, DEFAULT_PARTIES as int).unwrap(),
        threshold: count_setting(line.threshold, DEFAULT_THRESHOLD as int).unwrap(),
        base_port: count_setting(line.port, DEFAULT_PORT as int).unwrap(),
        iterations: iterations_setting(line.iterations).unwrap(),
        addresses: addresses_setting(line.addresses),
        output: line.output,
    }
}

/// The first fault in the options themselves, in this order: the party count,
/// the threshold, the party's index, which has to be given, the port, which
/// only a mesh of two may leave out, and the iteration count.
pub open spec fn line_fault(line: CommandLineView) -> Option<ConfigError> {
    if count_setting(line.size, DEFAULT_PARTIES as int) is None {
        Some(ConfigError::InvalidNumber(NumericOption::Size))
    } else if count_setting(line.threshold, DEFAULT_THRESHOLD as int) is None {
        Some(ConfigError::InvalidNumber(NumericOption::Threshold))
    } else if line.party is None {
        Some(ConfigError::MissingParty)
    } else if count_setting(line.party, 0) is None {
        Some(ConfigError::InvalidNumber(NumericOption::Party))
    } else if line.port is None && count_setting(line.size, DEFAULT_PARTIES as int) != Some(2int) {
        Some(ConfigError::PortsRequired)
    } else if count_setting(line.port, DEFAULT_PORT as int) is None {
        Some(ConfigError::InvalidNumber(NumericOption::Port))
    } else if iterations_setting(line.iterations) is None {
        Some(ConfigError::InvalidNumber(NumericOption::Iterations))
    } else {
        None
    }
}

/// The first fault of a command line: one in the options themselves, else one
/// in the mesh that they describe.
pub open spec fn config_fault(line: CommandLineView) -> Option<ConfigError> {
    match line_fault(line) {
        Some(e) => Some(e),
        None => {
            let s = settings_of(line);
            mesh_fault(s.index, s.parties, s.base_port, s.addresses.len() as int)
        },
    }
}

/// The parameters of one party's run.
pub struct Config {
    mesh: Mesh,
    threshold: usize,
    iterations: i32,
    output: Option<String>,
}

impl Config {
    /// The parameters as plain values.
    pub closed spec fn view(&self) -> Settings {
        Settings {
            index: self.mesh.index(),
            parties: self.mesh.parties(),
            threshold: self.threshold as int,
            base_port: self.mesh.ports().base(),
            iterations: self.iterations as int,
            addresses: self.mesh.addresses(),
            output: text_of(self.output),
        }
    }

    /// The mesh that the run opens.
    pub closed spec fn mesh(&self) -> Mesh {
        self.mesh
    }

    /// The mesh is well formed, and it is the mesh of these parameters.
    pub open spec fn wf(&self) -> bool {
        &&& self.mesh().wf()
        &&& self.mesh().index() == self@.index
        &&& self.mesh().parties() == self@.parties
        &&& self.mesh().ports().base() == self@.base_port
        &&& self.mesh().addresses() == self@.addresses
    }

    /// The parameters that the command line `line` asks for, or the first
    /// fault in it.
    pub fn from_command_line(line: CommandLine) -> (r: Result<Config, ConfigError>)
        ensures
            match r {
                Ok(config) => {
                    &&& config_fault(line@) is None
                    &&& config@ == settings_of(line@)
                    &&& config.wf()
                },
                Err(e) => config_fault(line@) == Some(e),
            },
    {
        let parties = match count_option(&line.size, DEFAULT_PARTIES) {
            Some(n) => n,
            None => {
                return Err(ConfigError::InvalidNumber(NumericOption::Size));
            },
        };
        let threshold = match count_option(&line.threshold, DEFAULT_THRESHOLD) {
            Some(t) => t,
            None => {
                return Err(ConfigError::InvalidNumber(NumericOption::Threshold));
            },
        };
        if line.party.is_none() {
            return Err(ConfigError::MissingParty);
        }
        let index = match count_option(&line.party, 0) {
            Some(i) => i,
            None => {
                return Err(ConfigError::InvalidNumber(NumericOption::Party));
            },
        };
        if line.port.is_none() && parties != 2 {
            return Err(ConfigError::PortsRequired);
        }
        let base_port = match count_option(&line.port, DEFAULT_PORT) {
            Some(p) => p,
            None => {
                return Err(ConfigError::InvalidNumber(NumericOption::Port));
            },
        };
        let iterations = match &line.iterations {
            Some(text) => match parse_i32(text.as_str()) {
                Some(k) => k,
                None => {
                    return Err(ConfigError::InvalidNumber(NumericOption::Iterations));
                },
            },
            None => DEFAULT_ITERATIONS,
        };
        let addresses = match &line.addresses {
            Some(text) => split_commas(text.as_str()),
            None => split_commas("0.0.0.0"),
        };
        let mesh = match Mesh::new(index, parties, base_port, addresses) {
            Ok(mesh) => mesh,
            Err(e) => {
                return Err(e);
            },
        };
        Ok(Config { mesh, threshold, iterations, output: line.output })
    }

    /// The mesh that the run opens.
    pub fn mesh_parameters(&self) -> (mesh: &Mesh)
        ensures
            *mesh == self.mesh(),
    {
        &self.mesh
    }

    /// Hands out the mesh and keeps nothing.
    pub fn into_mesh(self) -> (mesh: Mesh)
        ensures
            mesh == self.mesh(),
    {
        self.mesh
    }

    /// The signing threshold.
    pub fn threshold(&self) -> (t: usize)
        ensures
            t == self@.threshold,
    {
        self.threshold
    }

    /// The iteration count.
    pub fn iterations(&self) -> (k: i32)
        ensures
            k == self@.iterations,
    {
        self.iterations
    }

    /// The name of the output file, where one was given. Nothing in the run
    /// writes to it.
    pub fn output(&self) -> (name: &Option<String>)
        ensures
            text_of(*name) == self@.output,
    {
        &self.output
    }
}

/// Reads an option that holds a count.
fn count_option(text: &Option<String>, default: usize) -> (r: Option<usize>)
    ensures
        match r {
            Some(v) => count_setting(text_of(*text), default as int) == Some(v as int),
            None => count_setting(text_of(*text), default as int) is None,
        },
{
    match text {
        Some(t) => parse_usize(t.as_str()),
        None => Some(default),
    }
}

} // verus!
