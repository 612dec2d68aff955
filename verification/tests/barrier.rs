use bench_setup::barrier::{Barrier, BarrierAction, BarrierEvent, SENTINEL};
use bench_setup::errors::{HarnessError, ProtocolError, Stage, TransportError};
use bench_setup::rendezvous::Mesh;

fn barrier(index: usize, parties: usize) -> Barrier {
    let hosts: Vec<String> = (0..parties).map(|j| format!("host-{}", j)).collect();
    Barrier::new(&Mesh::new(index, parties, 20000, hosts).unwrap())
}

#[test]
fn the_sentinel_is_a_zero_byte() {
    assert_eq!(SENTINEL, 0);
}

#[test]
fn the_highest_index_coordinates() {
    for parties in 2..=6 {
        for index in 0..parties {
            assert_eq!(barrier(index, parties).is_coordinator(), index == parties - 1);
        }
    }
}

#[test]
fn the_coordinator_sends_to_every_other_party_in_order() {
    let mut coordinator = barrier(3, 4);
    for peer in 0..3 {
        assert!(!coordinator.released());
        assert_eq!(coordinator.next_action(), BarrierAction::Send { peer });
        assert_eq!(coordinator.step(BarrierEvent::Sent), Ok(()));
    }
    assert!(coordinator.released());
    assert_eq!(coordinator.next_action(), BarrierAction::Proceed);
}

#[test]
fn any_other_party_awaits_one_byte_from_the_coordinator() {
    for index in 0..3 {
        let mut party = barrier(index, 4);
        assert!(!party.released());
        assert_eq!(party.next_action(), BarrierAction::Await { peer: 3 });
        assert_eq!(party.step(BarrierEvent::Received { byte: SENTINEL }), Ok(()));
        assert!(party.released());
        assert_eq!(party.next_action(), BarrierAction::Proceed);
    }
}

#[test]
fn the_byte_that_is_read_is_not_looked_at() {
    let mut party = barrier(0, 2);
    assert_eq!(party.step(BarrierEvent::Received { byte: 7 }), Ok(()));
    assert!(party.released());
}

#[test]
fn a_failed_write_or_read_names_the_party_and_the_peer() {
    let mut coordinator = barrier(2, 3);
    assert_eq!(coordinator.step(BarrierEvent::Sent), Ok(()));
    assert_eq!(
        coordinator.step(BarrierEvent::Failed),
        Err(HarnessError::Transport(TransportError { stage: Stage::Send, party: 2, peer: 1 }))
    );
    assert_eq!(coordinator.next_action(), BarrierAction::Send { peer: 1 });
    let mut party = barrier(0, 3);
    assert_eq!(
        party.step(BarrierEvent::Failed),
        Err(HarnessError::Transport(TransportError { stage: Stage::Receive, party: 0, peer: 2 }))
    );
    assert_eq!(party.next_action(), BarrierAction::Await { peer: 2 });
}

#[test]
fn an_event_that_does_not_fit_is_unexpected() {
    let unexpected = Err(HarnessError::Protocol(ProtocolError::Unexpected));
    let mut coordinator = barrier(1, 2);
    assert_eq!(coordinator.step(BarrierEvent::Received { byte: 0 }), unexpected);
    assert!(!coordinator.released());
    assert_eq!(coordinator.step(BarrierEvent::Sent), Ok(()));
    assert_eq!(coordinator.step(BarrierEvent::Sent), unexpected);
    assert_eq!(coordinator.step(BarrierEvent::Failed), unexpected);
    let mut party = barrier(0, 2);
    assert_eq!(party.step(BarrierEvent::Sent), unexpected);
    assert!(!party.released());
    assert_eq!(party.step(BarrierEvent::Received { byte: 0 }), Ok(()));
    assert_eq!(party.step(BarrierEvent::Received { byte: 0 }), unexpected);
}

/// All parties of a mesh at the barrier, with a queue of bytes for each party
/// in place of its channel from the coordinator. Whoever can act, acts, in an
/// order that `pick` scrambles. The log holds every send and every release.
fn run_mesh(parties: usize, pick: usize) -> Vec<(char, usize)> {
    let mut places: Vec<Barrier> = (0..parties).map(|index| barrier(index, parties)).collect();
    let mut queues: Vec<Vec<u8>> = vec![Vec::new(); parties];
    let mut log = Vec::new();
    let mut turn = pick;
    loop {
        let mut able = Vec::new();
        for index in 0..parties {
            match places[index].next_action() {
                BarrierAction::Send { .. } => able.push(index),
                BarrierAction::Await { .. } => {
                    if !queues[index].is_empty() {
                        able.push(index);
                    }
                }
                BarrierAction::Proceed => {}
            }
        }
        if able.is_empty() {
            break;
        }
        let index = able[turn % able.len()];
        turn = turn / 2 + 7 * pick + 1;
        match places[index].next_action() {
            BarrierAction::Send { peer } => {
                queues[peer].push(SENTINEL);
                log.push(('s', peer));
                assert_eq!(places[index].step(BarrierEvent::Sent), Ok(()));
            }
            BarrierAction::Await { peer } => {
                assert_eq!(peer, parties - 1);
                let byte = queues[index].remove(0);
                assert_eq!(places[index].step(BarrierEvent::Received { byte }), Ok(()));
                assert!(places[index].released());
                log.push(('r', index));
            }
            BarrierAction::Proceed => unreachable!(),
        }
    }
    for place in places.iter() {
        assert!(place.released());
    }
    log
}

#[test]
fn nobody_is_released_before_the_coordinator_has_sent_to_it() {
    for parties in 2..=7 {
        for pick in 0..40 {
            let log = run_mesh(parties, pick);
            for follower in 0..parties - 1 {
                let sent = log.iter().position(|entry| *entry == ('s', follower));
                let released = log.iter().position(|entry| *entry == ('r', follower));
                assert!(sent.is_some() && released.is_some());
                assert!(sent < released, "party {} among {} with order {}", follower, parties, pick);
            }
            assert_eq!(log.len(), 2 * (parties - 1));
        }
    }
}
