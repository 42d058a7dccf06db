use portunusd::addr::{IpAddress, Ipv4Address, SocketAddress};
use portunusd::door::{CallError, Client};
use portunusd::plan::RelayProtocol;
use portunusd::relay::{
    peer_answer, AttendantDisposition, Dispatch, DoorAttendant, PeerAnswer, RelayEngine,
    RelayTarget, RelayWork,
};

fn target(port: u16, protocol: RelayProtocol, fd: i32) -> RelayTarget {
    let address = SocketAddress::new(IpAddress::V4(Ipv4Address::new(0, 0, 0, 0)), port);
    RelayTarget::new(address, protocol, Client::from_descriptor(fd).borrow())
}

#[test]
fn one_wake_yields_one_unit_of_work() {
    let targets = vec![target(80, RelayProtocol::Tcp, 5)];
    let mut engine = RelayEngine::new(targets, 2);
    let dispatch = engine.on_ready(0).unwrap();
    assert_eq!(
        dispatch,
        Dispatch { target: 0, attendant: 0, work: RelayWork::AcceptStream, rearm: true }
    );
}

#[test]
fn datagram_targets_read_one_datagram() {
    let targets = vec![target(53, RelayProtocol::Udp, 6)];
    let mut engine = RelayEngine::new(targets, 1);
    let dispatch = engine.on_ready(0).unwrap();
    assert_eq!(dispatch.work, RelayWork::ReceiveDatagram);
    assert!(dispatch.rearm);
}

#[test]
fn work_rotates_across_attendants() {
    let targets = vec![target(80, RelayProtocol::Tcp, 5), target(81, RelayProtocol::Tcp, 6)];
    let mut engine = RelayEngine::new(targets, 3);
    // whichever target wakes, attendants take turns in order
    assert_eq!(engine.on_ready(0).unwrap().attendant, 0);
    assert_eq!(engine.on_ready(1).unwrap().attendant, 1);
    assert_eq!(engine.on_ready(0).unwrap().attendant, 2);
    assert_eq!(engine.on_ready(0).unwrap().attendant, 0);
}

#[test]
fn unknown_target_yields_nothing() {
    let targets = vec![target(80, RelayProtocol::Tcp, 5)];
    let mut engine = RelayEngine::new(targets, 1);
    assert!(engine.on_ready(3).is_none());
}

#[test]
fn attendants_queue_work_in_arrival_order() {
    let client = Client::from_descriptor(5);
    let mut attendant = DoorAttendant::new(client.borrow());
    assert_eq!(attendant.take_next(), None);
    attendant.send(10);
    attendant.send(11);
    assert_eq!(attendant.take_next(), Some(10));
    assert_eq!(attendant.take_next(), Some(11));
    assert_eq!(attendant.take_next(), None);
}

#[test]
fn a_failed_call_never_stops_an_attendant() {
    let ok: Result<(Vec<i32>, Vec<u8>), CallError> = Ok((vec![], vec![]));
    let err: Result<(Vec<i32>, Vec<u8>), CallError> = Err(CallError::NoSuchDoor);
    assert_eq!(DoorAttendant::disposition(&ok), AttendantDisposition::Continue);
    assert_eq!(DoorAttendant::disposition(&err), AttendantDisposition::LogAndContinue);
}

#[test]
fn unreachable_backend_drops_the_peer() {
    let ok: Result<(Vec<i32>, Vec<u8>), CallError> = Ok((vec![], b"Hello\n".to_vec()));
    let err: Result<(Vec<i32>, Vec<u8>), CallError> = Err(CallError::BadDescriptor);
    assert_eq!(peer_answer(ok), PeerAnswer::Respond(b"Hello\n".to_vec()));
    assert_eq!(peer_answer(err), PeerAnswer::Drop);
}

#[test]
fn fixed_response_flows_back_to_the_peer() {
    // one TCP target bound to a backend that answers every request with a
    // fixed six-byte response
    let fixed_response: &[u8] = b"Hello\n";
    let targets = vec![target(8080, RelayProtocol::Tcp, 5)];
    let mut engine = RelayEngine::new(targets, 1);

    let dispatch = engine.on_ready(0).unwrap();
    assert_eq!(dispatch.work, RelayWork::AcceptStream);

    let client = Client::from_descriptor(5);
    let mut attendant = DoorAttendant::new(client.borrow());
    attendant.send(30);
    let conn = attendant.take_next().unwrap();
    assert_eq!(conn, 30);

    // the backend answers every request with the fixed bytes, and the peer
    // receives exactly those bytes
    let outcome: Result<(Vec<i32>, Vec<u8>), CallError> = Ok((vec![], fixed_response.to_vec()));
    assert_eq!(peer_answer(outcome), PeerAnswer::Respond(b"Hello\n".to_vec()));
}
