use genesis::message::{SocketMessage, SocketMessageArg};
use genesis::peer_manager::{AcceptError, ObtainError, P2PConfig, P2PManager, TIME_SPAN};
use genesis::peer_socket::{
    IoFailure, PeerSocket, PeerSocketStat, SocketError, INIT_RETRY_TIMES, MSG_PAYLOAD_LEN,
};
use genesis::stun::PeerAddr;
use genesis::thread::{ThreadInfo, ThreadService, ThreadStatus};

fn addr(last: u8, port: u16) -> PeerAddr {
    PeerAddr { v6: false, ip: 0x0a00_0000 | last as u128, port }
}

fn config(peer_map_limit: usize, waiting_list_limit: usize, white_list: Vec<PeerAddr>) -> P2PConfig {
    P2PConfig::new(30001, peer_map_limit, 16, waiting_list_limit, 2, white_list, vec![addr(1, 1), addr(2, 2)])
}

fn msg(event: &str) -> SocketMessage {
    SocketMessage::new(event.to_string(), vec![], vec![])
}

#[test]
fn socket_write_msg_frames_the_body() {
    let mut s = PeerSocket::new(addr(1, 10));
    assert!(!s.prepare_to_send_data());
    assert_eq!(s.write_msg(b"hey"), Ok(()));
    assert_eq!(s.pending(), &[0, 0, 0, 0, 0, 0, 0, 3, b'h', b'e', b'y'][..]);
    assert!(s.prepare_to_send_data());
}

#[test]
fn socket_send_buffer_drains_and_counts() {
    let mut s = PeerSocket::new(addr(1, 10));
    s.write_msg(b"abc").unwrap();
    assert_eq!(s.send_buffer(Ok(5)), Ok(()));
    assert_eq!(s.pending(), &[0, 0, 3, b'a', b'b', b'c'][..]);
    assert!(s.prepare_to_send_data());
    assert_eq!(s.send_buffer(Ok(6)), Ok(()));
    assert!(s.pending().is_empty());
    assert!(!s.prepare_to_send_data());
    assert_eq!(s.stat().data_send(), 11);
}

#[test]
fn socket_read_after_write() {
    let mut w = PeerSocket::new(addr(1, 10));
    w.write_msg(b"first").unwrap();
    w.write_msg(b"").unwrap();
    w.write_msg(b"third").unwrap();
    let bytes = w.pending().to_vec();
    let mut r = PeerSocket::new(addr(2, 20));
    // the bytes arrive in two pieces, the second message cut in its header
    assert_eq!(r.store_buffer(Ok(&bytes[..17])), Ok(()));
    assert!(r.prepare_to_recv_msg());
    let got = r.read_msg().unwrap();
    assert_eq!(got, vec![b"first".to_vec()]);
    assert!(!r.prepare_to_recv_msg());
    assert_eq!(r.store_buffer(Ok(&bytes[17..])), Ok(()));
    let got = r.read_msg().unwrap();
    assert_eq!(got, vec![b"".to_vec(), b"third".to_vec()]);
    assert_eq!(r.stat().data_recv(), bytes.len());
    assert!(r.is_alive());
}

#[test]
fn socket_oversized_body_kills() {
    let mut r = PeerSocket::new(addr(2, 20));
    let size = (MSG_PAYLOAD_LEN as u64 + 1).to_be_bytes();
    r.store_buffer(Ok(&size[..])).unwrap();
    assert_eq!(r.read_msg(), Err(SocketError::InvalidData));
    assert!(!r.is_alive());
    assert_eq!(r.read_msg(), Err(SocketError::Killed));
}

#[test]
fn socket_retries_then_dies() {
    let mut s = PeerSocket::new(addr(1, 10));
    for _ in 0..(INIT_RETRY_TIMES - 1) {
        assert_eq!(s.store_buffer(Err(IoFailure::WouldBlock)), Err(SocketError::WouldBlock));
        assert!(s.is_alive());
    }
    // a successful read gives all attempts back
    s.store_buffer(Ok(&[1, 2][..])).unwrap();
    for _ in 0..(INIT_RETRY_TIMES - 1) {
        s.send_buffer(Err(IoFailure::Interrupted)).unwrap_err();
    }
    assert!(s.is_alive());
    assert_eq!(s.send_buffer(Err(IoFailure::Interrupted)), Err(SocketError::Interrupted));
    assert!(!s.is_alive());
}

#[test]
fn socket_write_not_ready_asks_to_try_again() {
    let mut s = PeerSocket::new(addr(1, 10));
    s.write_msg(b"abc").unwrap();
    let before = s.pending().to_vec();
    assert_eq!(s.send_buffer(Err(IoFailure::WouldBlock)), Err(SocketError::Interrupted));
    assert!(s.is_alive());
    assert_eq!(s.pending(), &before[..]);
    assert!(s.prepare_to_send_data());
    assert_eq!(s.send_buffer(Ok(11)), Ok(()));
}

#[test]
fn socket_failure_kills_and_dead_socket_refuses() {
    let mut s = PeerSocket::new(addr(1, 10));
    assert_eq!(s.send_buffer(Err(IoFailure::Other)), Err(SocketError::Io));
    assert!(!s.is_alive());
    assert_eq!(s.write_msg(b"x"), Err(SocketError::Killed));
    assert!(s.pending().is_empty());
    assert_eq!(s.store_buffer(Ok(&[1][..])), Err(SocketError::Killed));
    assert_eq!(s.read_msg(), Err(SocketError::Killed));
}

#[test]
fn stat_counts() {
    let mut st = PeerSocketStat::new();
    st.notify_send(3);
    st.notify_recv(4);
    st.notify_send(5);
    assert_eq!(st.data_send(), 8);
    assert_eq!(st.data_recv(), 4);
}

#[test]
fn config_white_list() {
    let mut c = config(4, 4, vec![]);
    assert!(c.in_white_list(&addr(9, 9)));
    c.set_white_list(vec![addr(1, 1)]);
    assert!(c.in_white_list(&addr(1, 1)));
    assert!(!c.in_white_list(&addr(1, 2)));
    assert_eq!(c.white_list(), vec![addr(1, 1)]);
    assert_eq!(c.bootstrap_peers(), vec![addr(1, 1), addr(2, 2)]);
    assert_eq!(c.port(), 30001);
    assert_eq!(c.peer_map_limit(), 4);
    assert_eq!(c.ban_list_limit(), 16);
    assert_eq!(c.waiting_list_limit(), 4);
    assert_eq!(c.min_peers(), 2);
}

#[test]
fn manager_accepts_up_to_limit() {
    let mut m = P2PManager::new("p2p".to_string(), config(2, 4, vec![]));
    assert_eq!(m.status(), ThreadStatus::Pause);
    assert_eq!(m.time_span(), TIME_SPAN);
    assert_eq!(m.name(), "p2p");
    assert_eq!(m.description(), "");
    assert_eq!(m.accept_peer(7, PeerSocket::new(addr(1, 10))), Ok(7));
    assert_eq!(m.accept_peer(9, PeerSocket::new(addr(2, 20))), Ok(9));
    assert_eq!(m.accept_peer(11, PeerSocket::new(addr(3, 30))), Err(AcceptError::PeerMapFull));
    assert_eq!(m.tokens(), vec![7, 9]);
    assert_eq!(m.peer_info(), vec![addr(1, 10), addr(2, 20)]);
    assert!(m.existed_in_peer_map(&addr(2, 20)));
    assert!(!m.existed_in_peer_map(&addr(3, 30)));
    assert_eq!(m.peer_addr(9), addr(2, 20));
    assert!(m.peer_is_alive(9));
    let dropped = m.drop_peer(7).unwrap();
    assert_eq!(dropped.token(), Some(7));
    assert!(m.drop_peer(7).is_none());
    assert_eq!(m.clear_peer_map(), vec![9]);
    assert!(m.tokens().is_empty());
}

#[test]
fn manager_ban_and_unban() {
    let mut m = P2PManager::new("p2p".to_string(), config(2, 4, vec![]));
    m.ban(&addr(1, 1));
    m.ban(&addr(2, 2));
    m.ban(&addr(1, 1));
    assert!(m.existed_in_ban_list(&addr(1, 1)));
    m.unban(&addr(1, 1));
    assert!(!m.existed_in_ban_list(&addr(1, 1)));
    assert!(m.existed_in_ban_list(&addr(2, 2)));
    m.unban(&addr(7, 7));
    assert!(m.existed_in_ban_list(&addr(2, 2)));
    assert!(!m.addr_is_valid_to_accept(&addr(2, 2)));
    assert!(m.addr_is_valid_to_accept(&addr(3, 3)));
}

#[test]
fn manager_waiting_list_limit() {
    let mut m = P2PManager::new("p2p".to_string(), config(2, 3, vec![]));
    // an empty waiting list takes nothing: no more join than are waiting
    let mut offered = vec![addr(3, 3), addr(4, 4)];
    assert_eq!(m.waiting_room(), 0);
    m.append_waiting_list(&mut offered);
    assert_eq!(offered, vec![addr(3, 3), addr(4, 4)]);
    assert_eq!(m.waiting_count(), 0);
    // two bootstrap peers wait; the room left under three is one
    assert!(m.pre_exec());
    assert_eq!(m.waiting_room(), 1);
    let mut offered = vec![addr(3, 3), addr(4, 4), addr(5, 5)];
    m.append_waiting_list(&mut offered);
    assert_eq!(offered, vec![addr(4, 4), addr(5, 5)]);
    assert!(m.existed_in_waiting_list(&addr(3, 3)));
    assert!(!m.existed_in_waiting_list(&addr(4, 4)));
    assert_eq!(m.waiting_count(), 3);
    assert_eq!(m.waiting_room(), 0);
    m.clear_waiting_list();
    assert!(!m.existed_in_waiting_list(&addr(1, 1)));
}

#[test]
fn manager_obtain_peer_takes_the_last() {
    let mut m = P2PManager::new("p2p".to_string(), config(2, 4, vec![]));
    assert_eq!(m.obtain_peer(), Err(ObtainError::WaitingListEmpty));
    assert!(m.pre_exec());
    m.ban(&addr(1, 1));
    assert_eq!(m.obtain_peer(), Ok(addr(2, 2)));
    assert_eq!(m.obtain_peer(), Err(ObtainError::InvalidAddress));
    assert_eq!(m.obtain_peer(), Err(ObtainError::WaitingListEmpty));
}

#[test]
fn manager_absorbs_peer_lists() {
    let mut m = P2PManager::new("p2p".to_string(), config(2, 4, vec![]));
    assert!(m.pre_exec());
    m.accept_peer(1, PeerSocket::new(addr(7, 7))).unwrap();
    m.ban(&addr(8, 8));
    let offered = vec![addr(4, 4), addr(4, 4), addr(7, 7), addr(8, 8), addr(2, 2), addr(5, 5), addr(6, 6)];
    assert_eq!(m.waiting_candidates_for(&offered), vec![addr(4, 4), addr(5, 5), addr(6, 6)]);
    m.absorb_waiting_peers(offered);
    assert!(m.existed_in_waiting_list(&addr(4, 4)));
    assert!(m.existed_in_waiting_list(&addr(5, 5)));
    assert!(!m.existed_in_waiting_list(&addr(6, 6)));
    assert!(!m.existed_in_waiting_list(&addr(7, 7)));
    assert_eq!(m.obtain_peer(), Ok(addr(5, 5)));
    assert_eq!(m.obtain_peer(), Ok(addr(4, 4)));
    assert_eq!(m.obtain_peer(), Ok(addr(2, 2)));
    assert_eq!(m.obtain_peer(), Ok(addr(1, 1)));
}

#[test]
fn manager_white_list_filters_waiting() {
    let mut m = P2PManager::new("p2p".to_string(), config(2, 4, vec![addr(5, 5), addr(6, 6)]));
    assert!(m.pre_exec());
    m.absorb_waiting_peers(vec![addr(4, 4), addr(5, 5), addr(6, 6)]);
    assert!(!m.addr_is_valid_for_waiting_list(&addr(5, 5)));
    assert!(!m.existed_in_waiting_list(&addr(4, 4)));
    assert_eq!(m.obtain_peer(), Ok(addr(6, 6)));
    assert_eq!(m.obtain_peer(), Ok(addr(5, 5)));
}

#[test]
fn manager_routes_messages() {
    let mut m = P2PManager::new("p2p".to_string(), config(2, 3, vec![]));
    m.accept_peer(1, PeerSocket::new(addr(1, 1))).unwrap();
    let msgs = vec![
        SocketMessage::heartbeat(),
        SocketMessage::discovery(),
        msg("BLOCK"),
        SocketMessage::peer_info_with(vec![1, 2, 3]),
        msg("TX"),
    ];
    let (dispatch, lists) = m.route_msgs(1, msgs);
    let events: Vec<String> = dispatch.iter().map(|m| m.event()).collect();
    assert_eq!(events, vec!["BLOCK".to_string(), "TX".to_string()]);
    assert_eq!(lists, vec![vec![1, 2, 3]]);
    assert!(m.peer_is_alive(1));
    let bad = SocketMessage::new("EXCEPTION".to_string(), vec![SocketMessageArg::Int { value: 1 }], vec![]);
    let (dispatch, _) = m.route_msgs(1, vec![bad]);
    assert!(dispatch.is_empty());
    assert!(m.peer_is_alive(1));
    let (_, _) = m.route_msgs(1, vec![SocketMessage::exception("bye")]);
    assert!(!m.peer_is_alive(1));
}

#[test]
fn manager_reads_sends_and_prunes() {
    let mut m = P2PManager::new("p2p".to_string(), config(4, 3, vec![]));
    m.accept_peer(1, PeerSocket::new(addr(1, 1))).unwrap();
    m.accept_peer(2, PeerSocket::new(addr(2, 2))).unwrap();
    let mut w = PeerSocket::new(addr(9, 9));
    w.write_msg(b"hello").unwrap();
    m.store_buffer(2, Ok(w.pending())).unwrap();
    let read = m.read_all();
    assert_eq!(read, vec![(2, vec![b"hello".to_vec()])]);
    assert!(m.read_all().is_empty());

    m.send_heart_beat(1, b"hb");
    assert_eq!(m.ready_to_send(), vec![1, 2]);
    assert_eq!(m.send_buffer(1, Ok(10)), Ok(()));
    assert_eq!(m.ready_to_send(), vec![2]);
    m.send_heart_beat(50, b"hb");
    assert_eq!(m.send_buffer(1, Ok(20)), Ok(()));
    assert_eq!(m.ready_to_send(), vec![2]);
    assert_eq!(m.send_msg(2, b"x"), Ok(()));

    assert_eq!(m.send_buffer(2, Err(IoFailure::Other)), Err(SocketError::Io));
    m.remove_dead_peers(49);
    assert_eq!(m.tokens(), vec![1, 2]);
    m.remove_dead_peers(0);
    assert_eq!(m.tokens(), vec![1, 2]);
    m.remove_dead_peers(50);
    assert_eq!(m.tokens(), vec![1]);
    m.set_status(ThreadStatus::Running);
    assert_eq!(m.status(), ThreadStatus::Running);
}

#[test]
fn manager_thread_service() {
    let mut m = P2PManager::new("p2p".to_string(), config(2, 3, vec![]));
    ThreadService::start(&mut m);
    assert_eq!(m.status(), ThreadStatus::Running);
    ThreadService::pause(&mut m);
    assert_eq!(ThreadInfo::status(&m), ThreadStatus::Pause);
    ThreadService::stop(&mut m);
    assert_eq!(m.status(), ThreadStatus::Stop);
    assert_eq!(ThreadInfo::thread_name(&m), "p2p");
    assert_eq!(ThreadInfo::thread_update_time_span(&m), TIME_SPAN);
}

#[test]
fn mod_test_launch() {
    let m = P2PManager::new("p2p".to_string(), config(4, 4, vec![]));
    assert_eq!(m.status(), ThreadStatus::Pause);
    assert!(m.tokens().is_empty());
}

#[test]
fn mod_test_start() {
    let mut m = P2PManager::new("p2p".to_string(), config(4, 4, vec![]));
    assert!(m.pre_exec());
    ThreadService::start(&mut m);
    assert_eq!(m.status(), ThreadStatus::Running);
}
