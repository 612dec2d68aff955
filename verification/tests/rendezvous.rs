use bench_setup::errors::{ConfigError, HarnessError, ProtocolError, Stage, TransportError};
use bench_setup::rendezvous::{
    role_towards, ChannelSlot, ChannelTable, Establisher, Mesh, PeerAction, PeerEvent, Role,
};

fn hosts(parties: usize) -> Vec<String> {
    (0..parties).map(|j| format!("host-{}", j)).collect()
}

fn mesh(index: usize, parties: usize, base: usize) -> Mesh {
    Mesh::new(index, parties, base, hosts(parties)).unwrap()
}

/// What one party does towards each index, with made-up handles: the handle
/// `100 * index + peer` to send on and `10000 + 100 * index + peer` to receive on.
fn open_all(index: usize, parties: usize, base: usize) -> (Vec<PeerAction>, ChannelTable<usize>) {
    let mut establisher: Establisher<usize> = Establisher::new(mesh(index, parties, base));
    let mut actions = Vec::new();
    loop {
        let action = establisher.next_action();
        let event = match &action {
            PeerAction::RecordOwn => PeerEvent::OwnRecorded,
            PeerAction::Listen { peer, .. } | PeerAction::Connect { peer, .. } => {
                PeerEvent::Established { send: 100 * index + peer, recv: 10000 + 100 * index + peer }
            }
            PeerAction::Finished => {
                actions.push(action);
                break;
            }
        };
        actions.push(action);
        assert_eq!(establisher.advance(event), Ok(()));
    }
    assert!(establisher.complete());
    (actions, establisher.finish().unwrap())
}

#[test]
fn the_higher_index_listens_and_the_lower_dials() {
    assert_eq!(role_towards(0, 1), Role::Connector);
    assert_eq!(role_towards(1, 0), Role::Listener);
    assert_eq!(role_towards(2, 2), Role::Own);
    assert_eq!(role_towards(5, 2), Role::Listener);
    assert_eq!(role_towards(2, 5), Role::Connector);
}

#[test]
fn on_every_pair_one_party_listens_and_the_other_dials() {
    for a in 0..12 {
        for b in 0..12 {
            if a == b {
                assert_eq!(role_towards(a, b), Role::Own);
            } else {
                let roles = (role_towards(a, b), role_towards(b, a));
                assert!(
                    roles == (Role::Listener, Role::Connector) || roles == (Role::Connector, Role::Listener),
                    "{:?} on ({}, {})",
                    roles,
                    a,
                    b
                );
            }
        }
    }
}

#[test]
fn three_parties_from_port_20000_meet_as_planned() {
    let (zero, _) = open_all(0, 3, 20000);
    let (one, _) = open_all(1, 3, 20000);
    let (two, _) = open_all(2, 3, 20000);
    assert!(matches!(
        zero.as_slice(),
        [
            PeerAction::RecordOwn,
            PeerAction::Connect { peer: 1, port: 20000, .. },
            PeerAction::Connect { peer: 2, port: 20001, .. },
            PeerAction::Finished
        ]
    ));
    assert!(matches!(
        one.as_slice(),
        [
            PeerAction::Listen { peer: 0, port: 20000 },
            PeerAction::RecordOwn,
            PeerAction::Connect { peer: 2, port: 20002, .. },
            PeerAction::Finished
        ]
    ));
    assert!(matches!(
        two.as_slice(),
        [
            PeerAction::Listen { peer: 0, port: 20001 },
            PeerAction::Listen { peer: 1, port: 20002 },
            PeerAction::RecordOwn,
            PeerAction::Finished
        ]
    ));
}

#[test]
fn a_connector_dials_the_address_of_its_peer() {
    let (actions, _) = open_all(0, 3, 20000);
    match &actions[1] {
        PeerAction::Connect { host, .. } => assert_eq!(host, "host-1"),
        _ => panic!("party 0 does not dial party 1"),
    }
    match &actions[2] {
        PeerAction::Connect { host, .. } => assert_eq!(host, "host-2"),
        _ => panic!("party 0 does not dial party 2"),
    }
}

#[test]
fn all_roles_of_a_mesh_fit_together() {
    for parties in 2usize..=9 {
        let base = 30000;
        let plans: Vec<Vec<PeerAction>> = (0..parties).map(|index| open_all(index, parties, base).0).collect();
        let mut listened: Vec<usize> = Vec::new();
        let mut dialled: Vec<usize> = Vec::new();
        for low in 0..parties {
            for high in (low + 1)..parties {
                let (dial_port, dial_host) = match &plans[low][high] {
                    PeerAction::Connect { peer, host, port } => {
                        assert_eq!(*peer, high);
                        (*port, host.clone())
                    }
                    _ => panic!("party {} does not dial party {}", low, high),
                };
                let listen_port = match &plans[high][low] {
                    PeerAction::Listen { peer, port } => {
                        assert_eq!(*peer, low);
                        *port
                    }
                    _ => panic!("party {} does not listen for party {}", high, low),
                };
                assert_eq!(dial_port, listen_port);
                assert_eq!(dial_host, format!("host-{}", high));
                listened.push(listen_port);
                dialled.push(dial_port);
            }
        }
        let pairs = parties * (parties - 1) / 2;
        listened.sort();
        dialled.sort();
        let block: Vec<usize> = (base..base + pairs).collect();
        assert_eq!(listened, block);
        assert_eq!(dialled, block);
        for index in 0..parties {
            assert!(matches!(plans[index][index], PeerAction::RecordOwn));
            assert!(matches!(plans[index][parties], PeerAction::Finished));
            assert_eq!(plans[index].len(), parties + 1);
        }
    }
}

#[test]
fn a_finished_table_has_one_slot_without_a_channel() {
    for parties in 2usize..=6 {
        for index in 0..parties {
            let (_, table) = open_all(index, parties, 20000);
            assert_eq!(table.len(), parties);
            assert_eq!(table.owner_index(), index);
            let mut own = 0;
            let mut connected = 0;
            for peer in 0..parties {
                match table.slot(peer) {
                    ChannelSlot::Own => {
                        assert_eq!(peer, index);
                        own += 1;
                    }
                    ChannelSlot::Connected { send, recv } => {
                        assert_eq!(*send, 100 * index + peer);
                        assert_eq!(*recv, 10000 + 100 * index + peer);
                        connected += 1;
                    }
                }
            }
            assert_eq!(own, 1);
            assert_eq!(connected, parties - 1);
        }
    }
}

#[test]
fn the_halves_keep_the_order_of_the_peers() {
    let (_, table) = open_all(1, 4, 20000);
    let (send, recv) = table.into_halves();
    assert_eq!(send, vec![Some(100), None, Some(102), Some(103)]);
    assert_eq!(recv, vec![Some(10100), None, Some(10102), Some(10103)]);
}

#[test]
fn a_failure_names_the_party_the_peer_and_the_step() {
    let mut establisher: Establisher<usize> = Establisher::new(mesh(2, 4, 20000));
    assert_eq!(establisher.advance(PeerEvent::Established { send: 1, recv: 2 }), Ok(()));
    assert_eq!(
        establisher.advance(PeerEvent::Failed { stage: Stage::Accept }),
        Err(HarnessError::Transport(TransportError { stage: Stage::Accept, party: 2, peer: 1 }))
    );
    assert!(matches!(establisher.next_action(), PeerAction::Listen { peer: 1, .. }));
    assert_eq!(establisher.advance(PeerEvent::Established { send: 3, recv: 4 }), Ok(()));
    assert_eq!(establisher.advance(PeerEvent::OwnRecorded), Ok(()));
    assert_eq!(
        establisher.advance(PeerEvent::Failed { stage: Stage::Connect }),
        Err(HarnessError::Transport(TransportError { stage: Stage::Connect, party: 2, peer: 3 }))
    );
}

#[test]
fn every_step_of_the_transport_can_be_the_one_that_failed() {
    for stage in [Stage::Bind, Stage::Accept, Stage::Connect, Stage::Configure, Stage::Send, Stage::Receive] {
        let mut establisher: Establisher<usize> = Establisher::new(mesh(1, 2, 20000));
        assert_eq!(
            establisher.advance(PeerEvent::Failed { stage }),
            Err(HarnessError::Transport(TransportError { stage, party: 1, peer: 0 }))
        );
        assert!(!establisher.complete());
    }
}

#[test]
fn an_event_out_of_turn_changes_nothing() {
    let unexpected = Err(HarnessError::Protocol(ProtocolError::Unexpected));
    let mut establisher: Establisher<usize> = Establisher::new(mesh(0, 2, 20000));
    assert_eq!(establisher.advance(PeerEvent::Established { send: 1, recv: 2 }), unexpected);
    assert_eq!(establisher.advance(PeerEvent::Failed { stage: Stage::Bind }), unexpected);
    assert!(matches!(establisher.next_action(), PeerAction::RecordOwn));
    assert_eq!(establisher.advance(PeerEvent::OwnRecorded), Ok(()));
    assert_eq!(establisher.advance(PeerEvent::OwnRecorded), unexpected);
    assert!(matches!(establisher.next_action(), PeerAction::Connect { peer: 1, .. }));
    assert_eq!(establisher.advance(PeerEvent::Established { send: 1, recv: 2 }), Ok(()));
    assert!(matches!(establisher.next_action(), PeerAction::Finished));
    assert_eq!(establisher.advance(PeerEvent::OwnRecorded), unexpected);
    assert_eq!(establisher.advance(PeerEvent::Established { send: 1, recv: 2 }), unexpected);
    assert_eq!(establisher.advance(PeerEvent::Failed { stage: Stage::Connect }), unexpected);
    assert!(establisher.complete());
}

#[test]
fn there_is_no_table_before_every_peer_is_reached() {
    let mut establisher: Establisher<usize> = Establisher::new(mesh(1, 3, 20000));
    assert_eq!(establisher.advance(PeerEvent::Established { send: 1, recv: 2 }), Ok(()));
    assert!(!establisher.complete());
    assert!(matches!(establisher.finish(), Err(ProtocolError::Unexpected)));
}

#[test]
fn a_mesh_is_checked_before_it_is_opened() {
    let fault = |r: Result<Mesh, ConfigError>| match r {
        Ok(_) => panic!("the mesh was taken"),
        Err(e) => e,
    };
    assert_eq!(fault(Mesh::new(0, 1, 20000, hosts(1))), ConfigError::TooFewParties);
    assert_eq!(fault(Mesh::new(0, 0, 20000, hosts(0))), ConfigError::TooFewParties);
    assert_eq!(fault(Mesh::new(3, 3, 20000, hosts(3))), ConfigError::PartyOutOfRange);
    assert_eq!(fault(Mesh::new(0, 3, usize::MAX - 2, hosts(3))), ConfigError::PortRange);
    assert_eq!(fault(Mesh::new(1, 3, 20000, hosts(2))), ConfigError::MissingAddress);
    assert_eq!(fault(Mesh::new(5, 1, usize::MAX, hosts(0))), ConfigError::TooFewParties);
    assert_eq!(fault(Mesh::new(5, 3, usize::MAX, hosts(0))), ConfigError::PartyOutOfRange);
    assert!(Mesh::new(2, 3, 20000, Vec::new()).is_ok());
    assert!(Mesh::new(0, 3, usize::MAX - 3, hosts(3)).is_ok());
}
