use game_server::net::{ClientMessage, Fault, NetIdGen, UserNetId};

#[test]
fn identifiers_count_up_from_zero() {
    let mut ids = NetIdGen::new();
    assert_eq!(UserNetId::next(&mut ids), Some(UserNetId(0)));
    assert_eq!(UserNetId::next(&mut ids), Some(UserNetId(1)));
    assert_eq!(UserNetId::next(&mut ids), Some(UserNetId(2)));
    assert_eq!(ids.count(), 3);
}

#[test]
fn identifiers_are_strictly_increasing() {
    let mut ids = NetIdGen::new();
    let mut last = UserNetId::next(&mut ids).unwrap();
    for _ in 0..1000 {
        let id = UserNetId::next(&mut ids).unwrap();
        assert!(id > last);
        last = id;
    }
}

#[test]
fn generator_can_start_further_up() {
    let mut ids = NetIdGen::starting_at(41);
    assert_eq!(ids.count(), 41);
    assert_eq!(UserNetId::next(&mut ids), Some(UserNetId(41)));
    assert_eq!(ids.count(), 42);
}

#[test]
fn last_identifier_is_issued_once_and_then_none() {
    let mut ids = NetIdGen::starting_at(u32::MAX);
    assert_eq!(UserNetId::next(&mut ids), Some(UserNetId(u32::MAX)));
    assert_eq!(ids.count(), 4_294_967_296);
    assert_eq!(UserNetId::next(&mut ids), None);
    assert_eq!(UserNetId::next(&mut ids), None);
    assert_eq!(ids.count(), 4_294_967_296);
}

#[test]
fn message_hands_back_sender_and_payload() {
    let m = ClientMessage::new(UserNetId(9), vec![1, 2, 3]);
    assert_eq!(m.net_id(), UserNetId(9));
    assert_eq!(m.data(), &vec![1u8, 2, 3]);
}

#[test]
fn message_may_be_empty() {
    let m = ClientMessage::new(UserNetId(0), Vec::new());
    assert_eq!(m.net_id(), UserNetId(0));
    assert!(m.data().is_empty());
}

#[test]
fn only_would_block_is_transient() {
    assert!(Fault::WouldBlock.is_transient());
    assert!(!Fault::Io.is_transient());
    assert!(!Fault::Protocol.is_transient());
}

#[test]
fn io_errors_are_told_apart_by_kind() {
    let again = std::io::Error::from(std::io::ErrorKind::WouldBlock);
    let reset = std::io::Error::from(std::io::ErrorKind::ConnectionReset);
    let pipe = std::io::Error::from(std::io::ErrorKind::BrokenPipe);
    assert_eq!(game_server::net::io_fault(&again), Fault::WouldBlock);
    assert_eq!(game_server::net::io_fault(&reset), Fault::Io);
    assert_eq!(game_server::net::io_fault(&pipe), Fault::Io);
}

#[test]
fn fault_is_told_from_what_is_known_of_the_error() {
    assert_eq!(Fault::classify(Some(true)), Fault::WouldBlock);
    assert_eq!(Fault::classify(Some(false)), Fault::Io);
    assert_eq!(Fault::classify(None), Fault::Protocol);
}
