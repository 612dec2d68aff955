use bench_setup::config::{Config, DEFAULT_PARTIES, DEFAULT_PORT, DEFAULT_THRESHOLD};
use bench_setup::errors::{ConfigError, NumericOption};
use bench_setup::options::{process_options, CommandLine, Invocation};

fn line(party: Option<&str>) -> CommandLine {
    let mut line = CommandLine::empty();
    line.party = party.map(|p| p.to_string());
    line
}

fn fault(line: CommandLine) -> ConfigError {
    match Config::from_command_line(line) {
        Ok(_) => panic!("the command line was taken"),
        Err(e) => e,
    }
}

fn some(text: &str) -> Option<String> {
    Some(text.to_string())
}

#[test]
fn defaults_are_two_parties_threshold_two_port_12345_and_1000_iterations() {
    assert_eq!(DEFAULT_PARTIES, 2);
    assert_eq!(DEFAULT_THRESHOLD, 2);
    assert_eq!(DEFAULT_PORT, 12345);
    let config = Config::from_command_line(line(Some("1"))).unwrap();
    assert_eq!(config.threshold(), 2);
    assert_eq!(config.iterations(), 1000);
    assert_eq!(config.output(), &None);
    let mesh = config.mesh_parameters();
    assert_eq!(mesh.own_index(), 1);
    assert_eq!(mesh.party_count(), 2);
    assert_eq!(mesh.port_table().ports(), vec![12345]);
}

#[test]
fn two_parties_need_no_port_on_the_command_line() {
    let mut l = line(Some("0"));
    l.addresses = some("10.0.0.1,10.0.0.2");
    let config = Config::from_command_line(l).unwrap();
    assert_eq!(config.mesh_parameters().port_table().first_port(), 12345);
}

#[test]
fn every_option_is_taken_over() {
    let mut l = line(Some("1"));
    l.size = some("3");
    l.threshold = some("3");
    l.port = some("20000");
    l.iterations = some("25");
    l.addresses = some("a,b,c");
    l.output = some("out.txt");
    let config = Config::from_command_line(l).unwrap();
    assert_eq!(config.threshold(), 3);
    assert_eq!(config.iterations(), 25);
    assert_eq!(config.output(), &some("out.txt"));
    let mesh = config.into_mesh();
    assert_eq!(mesh.own_index(), 1);
    assert_eq!(mesh.party_count(), 3);
    assert_eq!(mesh.port_table().ports(), vec![20000, 20001, 20002]);
}

#[test]
fn the_party_has_to_be_given() {
    assert_eq!(fault(line(None)), ConfigError::MissingParty);
}

#[test]
fn a_number_that_is_none_is_refused_by_option() {
    let mut l = line(Some("0"));
    l.size = some("three");
    assert_eq!(fault(l), ConfigError::InvalidNumber(NumericOption::Size));
    let mut l = line(Some("0"));
    l.threshold = some("");
    assert_eq!(fault(l), ConfigError::InvalidNumber(NumericOption::Threshold));
    assert_eq!(fault(line(Some("-1"))), ConfigError::InvalidNumber(NumericOption::Party));
    let mut l = line(Some("1"));
    l.port = some("12 345");
    assert_eq!(fault(l), ConfigError::InvalidNumber(NumericOption::Port));
    let mut l = line(Some("1"));
    l.iterations = some("2147483648");
    assert_eq!(fault(l), ConfigError::InvalidNumber(NumericOption::Iterations));
}

#[test]
fn faults_come_in_the_order_of_the_options() {
    let mut l = line(None);
    l.size = some("x");
    l.threshold = some("y");
    l.port = some("z");
    assert_eq!(fault(l), ConfigError::InvalidNumber(NumericOption::Size));
    let mut l = line(None);
    l.threshold = some("y");
    l.port = some("z");
    assert_eq!(fault(l), ConfigError::InvalidNumber(NumericOption::Threshold));
    let mut l = line(None);
    l.port = some("z");
    l.size = some("3");
    assert_eq!(fault(l), ConfigError::MissingParty);
    let mut l = line(Some("9"));
    l.size = some("3");
    l.iterations = some("many");
    assert_eq!(fault(l), ConfigError::PortsRequired);
    let mut l = line(Some("9"));
    l.size = some("3");
    l.port = some("1");
    l.iterations = some("many");
    assert_eq!(fault(l), ConfigError::InvalidNumber(NumericOption::Iterations));
}

#[test]
fn more_than_two_parties_need_a_port() {
    let mut l = line(Some("2"));
    l.size = some("3");
    assert_eq!(fault(l), ConfigError::PortsRequired);
    let mut l = line(Some("0"));
    l.size = some("1");
    assert_eq!(fault(l), ConfigError::PortsRequired);
}

#[test]
fn fewer_than_two_parties_are_refused() {
    let mut l = line(Some("0"));
    l.size = some("1");
    l.port = some("20000");
    assert_eq!(fault(l), ConfigError::TooFewParties);
    let mut l = line(Some("0"));
    l.size = some("0");
    l.port = some("20000");
    assert_eq!(fault(l), ConfigError::TooFewParties);
}

#[test]
fn the_party_has_to_be_one_of_the_parties() {
    assert_eq!(fault(line(Some("2"))), ConfigError::PartyOutOfRange);
    let mut l = line(Some("3"));
    l.size = some("3");
    l.port = some("20000");
    l.addresses = some("a,b,c");
    assert_eq!(fault(l), ConfigError::PartyOutOfRange);
}

#[test]
fn the_block_of_ports_has_to_fit() {
    let mut l = line(Some("1"));
    l.port = Some(format!("{}", usize::MAX));
    assert_eq!(fault(l), ConfigError::PortRange);
    let mut l = line(Some("1"));
    l.port = Some(format!("{}", usize::MAX - 1));
    assert!(Config::from_command_line(l).is_ok());
}

#[test]
fn a_party_that_dials_needs_the_addresses() {
    assert_eq!(fault(line(Some("0"))), ConfigError::MissingAddress);
    let mut l = line(Some("1"));
    l.size = some("3");
    l.port = some("20000");
    l.addresses = some("a,b");
    assert_eq!(fault(l), ConfigError::MissingAddress);
}

#[test]
fn the_last_party_dials_nobody_and_needs_no_address() {
    let mut l = line(Some("2"));
    l.size = some("3");
    l.port = some("20000");
    assert!(Config::from_command_line(l).is_ok());
}

#[test]
fn a_negative_iteration_count_is_a_number() {
    let mut l = line(Some("1"));
    l.iterations = some("-3");
    assert_eq!(Config::from_command_line(l).unwrap().iterations(), -3);
}

#[test]
fn from_arguments_to_parameters() {
    let words: Vec<String> =
        ["-N", "3", "-P", "0", "-p", "20000", "-a", "h0,h1,h2", "-n", "5"].iter().map(|w| w.to_string()).collect();
    let line = match process_options("bench", &words) {
        Ok(Invocation::Run { line }) => line,
        _ => panic!("no run"),
    };
    let config = Config::from_command_line(line).unwrap();
    assert_eq!(config.iterations(), 5);
    assert_eq!(config.threshold(), 2);
    assert_eq!(config.mesh_parameters().own_index(), 0);
    assert_eq!(config.mesh_parameters().party_count(), 3);
}
