use bench_setup::errors::{
    ConfigError, HarnessError, NumericOption, ProtocolError, Stage, TransportError,
};
use bench_setup::messages::{endpoint, exit_code, start_announcement, wildcard};
use bench_setup::rendezvous::PeerAction;

#[test]
fn a_listener_binds_every_interface() {
    assert_eq!(wildcard(), "0.0.0.0");
}

#[test]
fn an_endpoint_is_host_colon_port() {
    assert_eq!(endpoint("10.0.0.1", 20000), "10.0.0.1:20000");
    assert_eq!(endpoint("0.0.0.0", 0), "0.0.0.0:0");
    assert_eq!(endpoint("localhost", 12345), "localhost:12345");
    assert_eq!(endpoint("", 7), ":7");
}

#[test]
fn an_action_knows_its_endpoint() {
    assert_eq!(PeerAction::Listen { peer: 0, port: 20001 }.endpoint(), Some("0.0.0.0:20001".to_string()));
    assert_eq!(
        PeerAction::Connect { peer: 2, host: "10.0.0.3".to_string(), port: 20002 }.endpoint(),
        Some("10.0.0.3:20002".to_string())
    );
    assert_eq!(PeerAction::RecordOwn.endpoint(), None);
    assert_eq!(PeerAction::Finished.endpoint(), None);
}

#[test]
fn a_party_says_whom_it_waits_for_and_whom_it_dials() {
    assert_eq!(
        PeerAction::Listen { peer: 0, port: 20001 }.announcement(2),
        Some("2 waiting for 0 to connect on 0.0.0.0:20001".to_string())
    );
    assert_eq!(
        PeerAction::Connect { peer: 2, host: "10.0.0.3".to_string(), port: 20002 }.announcement(1),
        Some("1 connecting to 2 server 10.0.0.3:20002...".to_string())
    );
    assert_eq!(PeerAction::RecordOwn.announcement(1), None);
    assert_eq!(PeerAction::Finished.announcement(1), None);
}

#[test]
fn a_party_says_when_it_starts() {
    assert_eq!(start_announcement(2, 1000), "2 connected. Performing 1000 Iteration Benchmark...");
    assert_eq!(start_announcement(0, -3), "0 connected. Performing -3 Iteration Benchmark...");
}

#[test]
fn every_configuration_fault_has_its_words() {
    assert_eq!(ConfigError::Usage("Unrecognized option: 'x'".to_string()).message(), "Unrecognized option: 'x'");
    assert_eq!(ConfigError::MissingParty.message(), "Please add the party number (-P)");
    assert_eq!(ConfigError::InvalidNumber(NumericOption::Size).message(), "Not a valid number for -N");
    assert_eq!(ConfigError::InvalidNumber(NumericOption::Threshold).message(), "Not a valid number for -T");
    assert_eq!(ConfigError::InvalidNumber(NumericOption::Party).message(), "Not a valid number for -P");
    assert_eq!(ConfigError::InvalidNumber(NumericOption::Port).message(), "Not a valid number for -p");
    assert_eq!(ConfigError::InvalidNumber(NumericOption::Iterations).message(), "Not a valid number for -n");
    assert_eq!(ConfigError::TooFewParties.message(), "At least two parties are needed");
    assert_eq!(ConfigError::PartyOutOfRange.message(), "The party number must be below the number of parties");
    assert_eq!(ConfigError::PortsRequired.message(), "Please add ports");
    assert_eq!(ConfigError::PortRange.message(), "Too few ports above the lowest port");
    assert_eq!(ConfigError::MissingAddress.message(), "Please add an address for every party");
}

#[test]
fn a_transport_failure_names_the_party_and_the_peer() {
    let at = |stage| TransportError { stage, party: 2, peer: 0 }.message();
    assert_eq!(at(Stage::Bind), "Party 2 failed to bind the port for party 0.");
    assert_eq!(at(Stage::Accept), "Party 2 failed to accept the connection of party 0.");
    assert_eq!(at(Stage::Connect), "Party 2 failed to connect to party 0.");
    assert_eq!(at(Stage::Configure), "Party 2 could not set nodelay on the channel to party 0.");
    assert_eq!(at(Stage::Send), "Party 2 failed to send ready signal to party 0.");
    assert_eq!(at(Stage::Receive), "Party 2 failed to read ready signal from party 0.");
    assert_eq!(
        TransportError { stage: Stage::Connect, party: 10, peer: 11 }.message(),
        "Party 10 failed to connect to party 11."
    );
}

#[test]
fn a_protocol_failure_has_its_words() {
    assert_eq!(
        ProtocolError::SetupFailed { party: 1, iteration: 17 }.message(),
        "Party 1 failed to set up the signer after 17 iterations."
    );
    assert_eq!(ProtocolError::Unexpected.message(), "An event came out of turn.");
    assert_eq!(ProtocolError::NoIterations.message(), "There is no average over zero iterations.");
    assert_eq!(ProtocolError::NoTime.message(), "The clock gave no time for the benchmark.");
}

#[test]
fn any_failure_speaks_as_its_kind_does() {
    assert_eq!(HarnessError::Config(ConfigError::PortsRequired).message(), "Please add ports");
    assert_eq!(
        HarnessError::Transport(TransportError { stage: Stage::Send, party: 3, peer: 1 }).message(),
        "Party 3 failed to send ready signal to party 1."
    );
    assert_eq!(
        HarnessError::Protocol(ProtocolError::NoIterations).message(),
        "There is no average over zero iterations."
    );
}

#[test]
fn only_a_configuration_fault_ends_with_status_one() {
    assert_eq!(exit_code(&None), 0);
    assert_eq!(exit_code(&Some(ConfigError::PortsRequired)), 1);
    assert_eq!(exit_code(&Some(ConfigError::MissingParty)), 1);
    assert_eq!(exit_code(&Some(ConfigError::Usage(String::new()))), 1);
}
