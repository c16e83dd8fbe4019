use smux::session::ACCEPT_BACKLOG;
use smux::{Codec, Config, Frame, Session, SmuxError, StreamIdGenerator};

fn test_config() -> Config {
    Config::default()
}

#[test]
fn test_session_creation() {
    let session = Session::client(test_config());
    assert!(!session.is_closed());
}

#[test]
fn test_session_open_stream() {
    let mut session = Session::client(test_config());
    let stream = session.open_stream().unwrap();
    assert_eq!(stream.id % 2, 1);
}

#[test]
fn test_session_close() {
    let mut session = Session::client(test_config());
    assert!(!session.is_closed());
    session.close();
    assert!(session.is_closed());
    assert!(session.accept_stream().is_none());
}

#[test]
fn test_client_server_stream_ids() {
    let mut client = Session::client(test_config());
    let mut server = Session::server(test_config());
    let client_stream = client.open_stream().unwrap();
    let server_stream = server.open_stream().unwrap();
    assert_eq!(client_stream.id % 2, 1);
    assert_eq!(server_stream.id % 2, 0);
}

#[test]
fn test_multiple_streams() {
    let mut session = Session::client(test_config());
    let stream1 = session.open_stream().unwrap();
    let stream2 = session.open_stream().unwrap();
    let stream3 = session.open_stream().unwrap();
    assert_eq!(stream1.id, 1);
    assert_eq!(stream2.id, 3);
    assert_eq!(stream3.id, 5);
}

#[test]
fn server_ids_are_even_sequence() {
    let mut session = Session::server(test_config());
    let ids: Vec<u32> = (0..3).map(|_| session.open_stream().unwrap().id).collect();
    assert_eq!(ids, vec![2, 4, 6]);
}

#[test]
fn generator_sequence_and_peer_check() {
    let mut client = StreamIdGenerator::new(true);
    assert_eq!(client.next(), Ok(1));
    assert_eq!(client.next(), Ok(3));
    assert_eq!(client.validate_peer_stream_id(2), Ok(()));
    assert_eq!(client.validate_peer_stream_id(3), Err(SmuxError::InvalidPeerStreamId(3)));
    assert_eq!(client.validate_peer_stream_id(0), Err(SmuxError::InvalidPeerStreamId(0)));
    let server = StreamIdGenerator::new(false);
    assert_eq!(server.validate_peer_stream_id(1), Ok(()));
    assert_eq!(server.validate_peer_stream_id(4), Err(SmuxError::InvalidPeerStreamId(4)));
}

#[test]
fn open_stream_syn_frame() {
    let mut session = Session::client(test_config());
    let opened = session.open_stream().unwrap();
    assert_eq!(opened.syn, Frame::new_syn(1, 1));
    assert!(session.has_stream(1));
}

#[test]
fn closed_session_refuses_everything() {
    let mut session = Session::server(test_config());
    session.close();
    session.close();
    assert!(session.is_closed());
    assert!(matches!(session.open_stream(), Err(SmuxError::SessionClosed)));
    assert!(session.accept_stream().is_none());
    assert!(matches!(session.open_stream(), Err(SmuxError::SessionClosed)));
    assert!(session.is_closed());
}

#[test]
fn fifty_opens_give_distinct_odd_ids() {
    let mut session = Session::client(test_config());
    let mut ids = Vec::new();
    for _ in 0..50 {
        ids.push(session.open_stream().unwrap().id);
    }
    for (k, id) in ids.iter().enumerate() {
        assert_eq!(*id, 2 * k as u32 + 1);
        assert!(session.has_stream(*id));
    }
    let mut sorted = ids.clone();
    sorted.dedup();
    assert_eq!(sorted.len(), 50);
}

#[test]
fn syn_registers_and_is_accepted() {
    let mut server = Session::server(test_config());
    assert_eq!(server.handle_frame(Frame::new_syn(1, 1)), Ok(()));
    assert!(server.has_stream(1));
    let accepted = server.accept_stream().unwrap();
    assert_eq!(accepted.id, 1);
    assert!(server.accept_stream().is_none());
}

#[test]
fn syn_with_wrong_parity_or_zero_is_rejected() {
    let mut server = Session::server(test_config());
    assert_eq!(server.handle_frame(Frame::new_syn(1, 2)), Err(SmuxError::InvalidPeerStreamId(2)));
    assert_eq!(server.handle_frame(Frame::new_syn(1, 0)), Err(SmuxError::InvalidPeerStreamId(0)));
    assert!(!server.has_stream(2));
    assert!(server.accept_stream().is_none());
}

#[test]
fn duplicate_syn_keeps_existing_stream() {
    let mut server = Session::server(test_config());
    server.handle_frame(Frame::new_syn(1, 3)).unwrap();
    let first = server.accept_stream().unwrap();
    assert_eq!(server.handle_frame(Frame::new_syn(1, 3)), Err(SmuxError::StreamAlreadyExists(3)));
    assert!(server.accept_stream().is_none());
    server.handle_frame(Frame::new_psh(1, 3, b"still here".to_vec())).unwrap();
    assert_eq!(first.data_rx.try_recv().unwrap(), b"still here".to_vec());
}

#[test]
fn fin_for_unknown_stream_is_noop() {
    let mut client = Session::client(test_config());
    let opened = client.open_stream().unwrap();
    assert_eq!(client.handle_frame(Frame::new_fin(1, 99)), Ok(()));
    assert!(client.has_stream(opened.id));
    client.handle_frame(Frame::new_psh(1, opened.id, b"x".to_vec())).unwrap();
    assert_eq!(opened.data_rx.try_recv().unwrap(), b"x".to_vec());
}

#[test]
fn fin_ends_input() {
    let mut client = Session::client(test_config());
    let opened = client.open_stream().unwrap();
    client.handle_frame(Frame::new_psh(1, 1, b"last".to_vec())).unwrap();
    client.handle_frame(Frame::new_fin(1, 1)).unwrap();
    assert!(!client.has_stream(1));
    assert_eq!(opened.data_rx.try_recv().unwrap(), b"last".to_vec());
    assert_eq!(opened.data_rx.try_recv(), Err(flume::TryRecvError::Disconnected));
}

#[test]
fn psh_payloads_arrive_in_order() {
    let mut client = Session::client(test_config());
    let opened = client.open_stream().unwrap();
    client.handle_frame(Frame::new_psh(1, opened.id, b"hello".to_vec())).unwrap();
    client.handle_frame(Frame::new_psh(1, opened.id, b"world".to_vec())).unwrap();
    assert_eq!(opened.data_rx.try_recv().unwrap(), b"hello".to_vec());
    assert_eq!(opened.data_rx.try_recv().unwrap(), b"world".to_vec());
    assert_eq!(opened.data_rx.try_recv(), Err(flume::TryRecvError::Empty));
}

#[test]
fn psh_for_unknown_stream_or_empty_is_ignored() {
    let mut client = Session::client(test_config());
    let opened = client.open_stream().unwrap();
    assert_eq!(client.handle_frame(Frame::new_psh(1, 7, b"lost".to_vec())), Ok(()));
    assert_eq!(client.handle_frame(Frame::new_psh(1, opened.id, Vec::new())), Ok(()));
    assert!(client.has_stream(opened.id));
    assert_eq!(opened.data_rx.try_recv(), Err(flume::TryRecvError::Empty));
}

#[test]
fn psh_to_vanished_reader_deregisters() {
    let mut client = Session::client(test_config());
    let opened = client.open_stream().unwrap();
    drop(opened.data_rx);
    client.handle_frame(Frame::new_psh(1, opened.id, b"gone".to_vec())).unwrap();
    assert!(!client.has_stream(opened.id));
}

#[test]
fn upd_and_nop_change_nothing() {
    let mut client = Session::client(test_config());
    let opened = client.open_stream().unwrap();
    assert_eq!(client.handle_frame(Frame::new_upd(1, opened.id, 10, 20)), Ok(()));
    assert_eq!(client.handle_frame(Frame::new_nop(1)), Ok(()));
    assert!(client.has_stream(opened.id));
    assert!(!client.is_closed());
}

#[test]
fn full_accept_queue_undoes_registration() {
    let mut server = Session::server(test_config());
    for k in 0..ACCEPT_BACKLOG as u32 {
        assert_eq!(server.handle_frame(Frame::new_syn(1, 2 * k + 1)), Ok(()));
    }
    let extra = 2 * ACCEPT_BACKLOG as u32 + 1;
    assert_eq!(server.handle_frame(Frame::new_syn(1, extra)), Err(SmuxError::SessionClosed));
    assert!(!server.has_stream(extra));
    assert!(!server.is_closed());
    assert_eq!(server.accept_stream().unwrap().id, 1);
}

#[test]
fn remove_stream_reports_presence() {
    let mut client = Session::client(test_config());
    let opened = client.open_stream().unwrap();
    assert!(client.remove_stream(opened.id));
    assert!(!client.remove_stream(opened.id));
    assert_eq!(opened.data_rx.try_recv(), Err(flume::TryRecvError::Disconnected));
}

fn relay(codec: &Codec, frame: &Frame, to: &mut Session) -> Result<(), SmuxError> {
    let mut wire = Vec::new();
    codec.encode(frame, &mut wire);
    let (decoded, n) = codec.decode(&wire).unwrap().unwrap();
    assert_eq!(n, wire.len());
    to.handle_frame(decoded)
}

#[test]
fn client_server_ping_pong() {
    let codec = Codec::new(test_config());
    let mut client = Session::client(test_config());
    let mut server = Session::server(test_config());

    let opened = client.open_stream().unwrap();
    assert_eq!(opened.id, 1);
    relay(&codec, &opened.syn, &mut server).unwrap();
    let accepted = server.accept_stream().unwrap();
    assert_eq!(accepted.id, 1);

    relay(&codec, &Frame::new_psh(1, 1, b"ping".to_vec()), &mut server).unwrap();
    assert_eq!(accepted.data_rx.try_recv().unwrap(), b"ping".to_vec());

    relay(&codec, &Frame::new_psh(1, 1, b"pong".to_vec()), &mut client).unwrap();
    assert_eq!(opened.data_rx.try_recv().unwrap(), b"pong".to_vec());

    relay(&codec, &Frame::new_fin(1, 1), &mut server).unwrap();
    assert_eq!(accepted.data_rx.try_recv(), Err(flume::TryRecvError::Disconnected));
}

#[test]
fn register_peer_stream_returns_handle_for_id() {
    let mut server = Session::server(test_config());
    let accepted = server.register_peer_stream(7).unwrap();
    assert_eq!(accepted.id, 7);
    assert!(server.has_stream(7));
    assert!(matches!(server.register_peer_stream(7), Err(SmuxError::StreamAlreadyExists(7))));
    assert!(matches!(server.register_peer_stream(8), Err(SmuxError::InvalidPeerStreamId(8))));
    server.handle_frame(Frame::new_psh(1, 7, b"to you".to_vec())).unwrap();
    assert_eq!(accepted.data_rx.try_recv().unwrap(), b"to you".to_vec());
}

#[test]
fn psh_delivery_hands_on_payload() {
    let mut client = Session::client(test_config());
    let opened = client.open_stream().unwrap();
    let (tx, data) = client.psh_delivery(Frame::new_psh(1, opened.id, b"abc".to_vec())).unwrap();
    assert_eq!(data, b"abc".to_vec());
    tx.try_send(data).unwrap();
    assert_eq!(opened.data_rx.try_recv().unwrap(), b"abc".to_vec());
    assert!(client.psh_delivery(Frame::new_psh(1, opened.id, Vec::new())).is_none());
    assert!(client.psh_delivery(Frame::new_psh(1, 9, b"x".to_vec())).is_none());
}

#[test]
fn accepted_streams_come_in_syn_order() {
    let mut server = Session::server(test_config());
    for id in [5u32, 1, 3] {
        server.handle_frame(Frame::new_syn(1, id)).unwrap();
    }
    let ids: Vec<u32> = (0..3).map(|_| server.accept_stream().unwrap().id).collect();
    assert_eq!(ids, vec![5, 1, 3]);
}
