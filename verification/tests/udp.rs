use game_server::net::udp::{send_event, Datagram, PeerAddr, UdpNetServer, WriteStep};
use game_server::net::{ClientMessage, Fault, NetIdGen, UserNetId};

fn v4(last: u32, port: u16) -> PeerAddr {
    PeerAddr::V4 { octets: 0x7f00_0000 + last, port }
}

fn from(addr: PeerAddr, data: &[u8]) -> Datagram {
    Datagram { from: addr, data: data.to_vec() }
}

fn pairs(buffer: &Vec<ClientMessage>) -> Vec<(u32, Vec<u8>)> {
    buffer.iter().map(|m| (m.net_id().0, m.data().clone())).collect()
}

#[test]
fn new_transport_has_no_peers() {
    let udp = UdpNetServer::new();
    assert_eq!(udp.len(), 0);
    assert_eq!(udp.addr(&UserNetId(0)), None);
    assert_eq!(udp.net_id(v4(1, 9000)), None);
}

#[test]
fn first_datagram_gives_the_address_an_identifier() {
    let mut ids = NetIdGen::new();
    let mut udp = UdpNetServer::new();
    let mut buffer = Vec::new();
    udp.read(&mut ids, vec![from(v4(1, 9000), b"ping")], &mut buffer);
    assert_eq!(pairs(&buffer), vec![(0, b"ping".to_vec())]);
    assert_eq!(udp.len(), 1);
    assert_eq!(udp.net_id(v4(1, 9000)), Some(UserNetId(0)));
    assert_eq!(udp.addr(&UserNetId(0)), Some(v4(1, 9000)));
    assert_eq!(ids.count(), 1);
}

#[test]
fn one_address_has_one_identifier() {
    let mut ids = NetIdGen::new();
    let mut udp = UdpNetServer::new();
    let mut buffer = Vec::new();
    let a = v4(1, 9000);
    udp.read(&mut ids, vec![from(a, b"1"), from(a, b"2"), from(a, b"3")], &mut buffer);
    udp.read(&mut ids, vec![from(a, b"4")], &mut buffer);
    udp.read(&mut ids, Vec::new(), &mut buffer);
    udp.read(&mut ids, vec![from(a, b"5"), from(a, b"6")], &mut buffer);
    assert_eq!(
        pairs(&buffer),
        vec![
            (0, b"1".to_vec()),
            (0, b"2".to_vec()),
            (0, b"3".to_vec()),
            (0, b"4".to_vec()),
            (0, b"5".to_vec()),
            (0, b"6".to_vec()),
        ]
    );
    assert_eq!(udp.len(), 1);
    assert_eq!(ids.count(), 1);
}

#[test]
fn addresses_get_identifiers_in_order_of_arrival() {
    let mut ids = NetIdGen::new();
    let mut udp = UdpNetServer::new();
    let mut buffer = Vec::new();
    let (a, b, c) = (v4(1, 9000), v4(1, 9001), v4(2, 9000));
    udp.read(
        &mut ids,
        vec![from(a, b"a1"), from(b, b"b1"), from(a, b"a2"), from(c, b"c1"), from(b, b"b2")],
        &mut buffer,
    );
    assert_eq!(
        pairs(&buffer),
        vec![
            (0, b"a1".to_vec()),
            (1, b"b1".to_vec()),
            (0, b"a2".to_vec()),
            (2, b"c1".to_vec()),
            (1, b"b2".to_vec()),
        ]
    );
    assert_eq!(udp.net_id(a), Some(UserNetId(0)));
    assert_eq!(udp.net_id(b), Some(UserNetId(1)));
    assert_eq!(udp.net_id(c), Some(UserNetId(2)));
    assert_eq!(udp.addr(&UserNetId(2)), Some(c));
}

#[test]
fn port_and_family_tell_addresses_apart() {
    let mut ids = NetIdGen::new();
    let mut udp = UdpNetServer::new();
    let mut buffer = Vec::new();
    let a = PeerAddr::V4 { octets: 1, port: 1 };
    let b = PeerAddr::V4 { octets: 1, port: 2 };
    let c = PeerAddr::V6 { segments: 1, port: 1, flowinfo: 0, scope_id: 0 };
    let d = PeerAddr::V6 { segments: 1, port: 1, flowinfo: 0, scope_id: 3 };
    udp.read(&mut ids, vec![from(a, b"x"), from(b, b"x"), from(c, b"x"), from(d, b"x")], &mut buffer);
    assert_eq!(udp.len(), 4);
    assert_eq!(udp.net_id(d), Some(UserNetId(3)));
}

#[test]
fn read_appends_to_what_the_buffer_holds() {
    let mut ids = NetIdGen::new();
    let mut udp = UdpNetServer::new();
    let mut buffer = vec![ClientMessage::new(UserNetId(50), b"old".to_vec())];
    udp.read(&mut ids, vec![from(v4(1, 1), b"new")], &mut buffer);
    assert_eq!(pairs(&buffer), vec![(50, b"old".to_vec()), (0, b"new".to_vec())]);
}

#[test]
fn payload_is_taken_verbatim() {
    let mut ids = NetIdGen::new();
    let mut udp = UdpNetServer::new();
    let mut buffer = Vec::new();
    let data: Vec<u8> = (0..=255u8).collect();
    udp.read(&mut ids, vec![from(v4(1, 1), &data)], &mut buffer);
    assert_eq!(buffer[0].data(), &data);
}

#[test]
fn ping_is_answered_with_pong() {
    let mut ids = NetIdGen::new();
    let mut udp = UdpNetServer::new();
    let mut buffer = Vec::new();
    let client = v4(1, 40_000);
    udp.read(&mut ids, vec![from(client, b"ping")], &mut buffer);
    let id = buffer[0].net_id();
    assert_eq!(buffer[0].data(), &b"ping".to_vec());
    let pong = b"pong";
    let step = udp.write(&id);
    assert_eq!(step, WriteStep::Send { to: client, from: 0 });
    let step = udp.write_next(&id, pong.len(), 0, send_event(Ok(4)));
    assert_eq!(step, WriteStep::Done(true));
    udp.flush();
    assert_eq!(udp.net_id(client), Some(id));
}

#[test]
fn write_to_an_unknown_identifier_fails() {
    let mut udp = UdpNetServer::new();
    assert_eq!(udp.write(&UserNetId(0)), WriteStep::Done(false));
    assert_eq!(udp.write_next(&UserNetId(0), 4, 0, Ok(4)), WriteStep::Done(false));
    assert_eq!(udp.write_next(&UserNetId(0), 4, 0, Err(Fault::Io)), WriteStep::Done(false));
    assert_eq!(udp.len(), 0);
}

#[test]
fn partial_send_goes_on_with_the_rest() {
    let mut ids = NetIdGen::new();
    let mut udp = UdpNetServer::new();
    let a = v4(1, 1);
    let id = udp.addr_to_net_id(&mut ids, a).unwrap();
    assert_eq!(udp.write(&id), WriteStep::Send { to: a, from: 0 });
    assert_eq!(udp.write_next(&id, 10, 0, Ok(4)), WriteStep::Send { to: a, from: 4 });
    assert_eq!(udp.write_next(&id, 10, 4, Ok(0)), WriteStep::Send { to: a, from: 4 });
    assert_eq!(udp.write_next(&id, 10, 4, Ok(5)), WriteStep::Send { to: a, from: 9 });
    assert_eq!(udp.write_next(&id, 10, 9, Ok(1)), WriteStep::Done(true));
}

#[test]
fn empty_payload_is_sent_once() {
    let mut ids = NetIdGen::new();
    let mut udp = UdpNetServer::new();
    let a = v4(1, 1);
    let id = udp.addr_to_net_id(&mut ids, a).unwrap();
    assert_eq!(udp.write(&id), WriteStep::Send { to: a, from: 0 });
    assert_eq!(udp.write_next(&id, 0, 0, Ok(0)), WriteStep::Done(true));
}

#[test]
fn would_block_sends_again() {
    let mut ids = NetIdGen::new();
    let mut udp = UdpNetServer::new();
    let a = v4(1, 1);
    let id = udp.addr_to_net_id(&mut ids, a).unwrap();
    let again = send_event(Err(std::io::Error::from(std::io::ErrorKind::WouldBlock)));
    assert_eq!(again, Err(Fault::WouldBlock));
    assert_eq!(udp.write_next(&id, 4, 0, again), WriteStep::Send { to: a, from: 0 });
    assert_eq!(udp.write_next(&id, 4, 2, again), WriteStep::Send { to: a, from: 2 });
    assert_eq!(udp.len(), 1);
}

#[test]
fn failed_send_evicts_the_peer_from_both_mappings() {
    let mut ids = NetIdGen::new();
    let mut udp = UdpNetServer::new();
    let mut buffer = Vec::new();
    let (a, b, c) = (v4(1, 1), v4(2, 2), v4(3, 3));
    udp.read(&mut ids, vec![from(a, b"a"), from(b, b"b"), from(c, b"c")], &mut buffer);
    let failed = send_event(Err(std::io::Error::from(std::io::ErrorKind::ConnectionRefused)));
    assert_eq!(failed, Err(Fault::Io));
    assert_eq!(udp.write_next(&UserNetId(1), 4, 0, failed), WriteStep::Done(false));
    assert_eq!(udp.len(), 2);
    assert_eq!(udp.addr(&UserNetId(1)), None);
    assert_eq!(udp.net_id(b), None);
    assert_eq!(udp.addr(&UserNetId(0)), Some(a));
    assert_eq!(udp.addr(&UserNetId(2)), Some(c));
    assert_eq!(udp.net_id(a), Some(UserNetId(0)));
    assert_eq!(udp.net_id(c), Some(UserNetId(2)));
    assert_eq!(udp.write(&UserNetId(1)), WriteStep::Done(false));
}

#[test]
fn evicted_address_comes_back_under_a_new_identifier() {
    let mut ids = NetIdGen::new();
    let mut udp = UdpNetServer::new();
    let mut buffer = Vec::new();
    let a = v4(1, 1);
    udp.read(&mut ids, vec![from(a, b"one")], &mut buffer);
    assert_eq!(udp.write_next(&UserNetId(0), 3, 0, Err(Fault::Io)), WriteStep::Done(false));
    udp.read(&mut ids, vec![from(a, b"two"), from(a, b"three")], &mut buffer);
    assert_eq!(
        pairs(&buffer),
        vec![(0, b"one".to_vec()), (1, b"two".to_vec()), (1, b"three".to_vec())]
    );
    assert_eq!(udp.net_id(a), Some(UserNetId(1)));
    assert_eq!(udp.addr(&UserNetId(0)), None);
    assert_eq!(udp.len(), 1);
}

#[test]
fn reading_never_evicts() {
    let mut ids = NetIdGen::new();
    let mut udp = UdpNetServer::new();
    let mut buffer = Vec::new();
    udp.read(&mut ids, vec![from(v4(1, 1), b"a"), from(v4(2, 2), b"b")], &mut buffer);
    for _ in 0..10 {
        udp.read(&mut ids, Vec::new(), &mut buffer);
        udp.flush();
        udp.remove_bad_clients();
    }
    assert_eq!(udp.len(), 2);
    assert_eq!(udp.net_id(v4(1, 1)), Some(UserNetId(0)));
    assert_eq!(udp.net_id(v4(2, 2)), Some(UserNetId(1)));
}

#[test]
fn datagram_is_dropped_when_identifiers_run_out() {
    let mut ids = NetIdGen::starting_at(u32::MAX);
    let mut udp = UdpNetServer::new();
    let mut buffer = Vec::new();
    let (a, b) = (v4(1, 1), v4(2, 2));
    udp.read(&mut ids, vec![from(a, b"a1"), from(b, b"b1"), from(a, b"a2")], &mut buffer);
    assert_eq!(pairs(&buffer), vec![(u32::MAX, b"a1".to_vec()), (u32::MAX, b"a2".to_vec())]);
    assert_eq!(udp.net_id(b), None);
    assert_eq!(udp.len(), 1);
}

#[test]
fn addr_to_net_id_is_stable() {
    let mut ids = NetIdGen::new();
    let mut udp = UdpNetServer::new();
    let (a, b) = (v4(1, 1), v4(2, 2));
    assert_eq!(udp.addr_to_net_id(&mut ids, a), Some(UserNetId(0)));
    assert_eq!(udp.addr_to_net_id(&mut ids, b), Some(UserNetId(1)));
    assert_eq!(udp.addr_to_net_id(&mut ids, a), Some(UserNetId(0)));
    assert_eq!(udp.addr_to_net_id(&mut ids, b), Some(UserNetId(1)));
    assert_eq!(ids.count(), 2);
}

#[test]
fn send_event_keeps_the_byte_count() {
    assert_eq!(send_event(Ok(0)), Ok(0));
    assert_eq!(send_event(Ok(1500)), Ok(1500));
}

#[test]
fn send_event_tells_errors_apart() {
    for kind in [
        std::io::ErrorKind::ConnectionReset,
        std::io::ErrorKind::BrokenPipe,
        std::io::ErrorKind::PermissionDenied,
        std::io::ErrorKind::Interrupted,
        std::io::ErrorKind::TimedOut,
    ] {
        assert_eq!(send_event(Err(std::io::Error::from(kind))), Err(Fault::Io));
    }
    assert_eq!(
        send_event(Err(std::io::Error::from(std::io::ErrorKind::WouldBlock))),
        Err(Fault::WouldBlock)
    );
}

#[test]
fn send_that_takes_more_than_is_left_ends_the_write() {
    let mut ids = NetIdGen::new();
    let mut udp = UdpNetServer::new();
    let a = v4(1, 1);
    let id = udp.addr_to_net_id(&mut ids, a).unwrap();
    assert_eq!(udp.write_next(&id, 4, 2, Ok(9)), WriteStep::Done(true));
    assert_eq!(udp.write_next(&id, 4, 7, Ok(0)), WriteStep::Done(true));
    assert_eq!(udp.write_next(&id, usize::MAX, 1, Ok(usize::MAX)), WriteStep::Done(true));
}
