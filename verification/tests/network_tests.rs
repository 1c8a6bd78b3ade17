use genesis::address::Address;
use genesis::consensus::{ConsensusProtocol, Precommit, Prevote, Propose, RequestData, ValidatorId};

use genesis::message::{SocketMessage, SocketMessageArg};
use genesis::p2p_controller::{P2PController, CONNECT_TIMEOUT, EXPIRE, UPDATE_TIMEBASE};
use genesis::peer::{Peer, INIT_CREDIT, INIT_TTL};
use genesis::protocol::{P2PProtocol, PeerTable, PROTOCOL_VERSION};
use genesis::session::{
    ProcessStep, Session, SessionAction, SessionMode, SessionStatus, TaskContext, TaskType, CMD_ERR_PENALTY,
};
use genesis::socket::PeerSocket;
use genesis::stun::PeerAddr;

fn account() -> Address {
    Address { text: "abcdefghijklmnopqrstuvwxyz012345".to_string() }
}

fn addr(last: u8, port: u16) -> PeerAddr {
    PeerAddr { v6: false, ip: 0x0a00_0000 | last as u128, port }
}

fn hosts(v: &[&str]) -> Vec<String> {
    v.iter().map(|s| s.to_string()).collect()
}

fn arg_text(arg: &SocketMessageArg) -> Option<String> {
    match arg {
        SocketMessageArg::String { value } => Some(value.clone()),
        _ => None,
    }
}

#[test]
fn p2p_messages_carry_the_header_and_pass_verification() {
    let protocol = P2PProtocol::new();
    let msg = protocol.bootstrap(&account(), &hosts(&["10.0.0.1:80", "10.0.0.2:81"]));
    assert_eq!(msg.event(), "BOOTSTRAP");
    let args = msg.args();
    assert_eq!(args.len(), 5);
    assert_eq!(msg.version_at(0), Some(PROTOCOL_VERSION.to_string()));
    assert_eq!(msg.account_at(1).unwrap().text, account().text);
    assert!(msg.timestamp_text_at(2).is_some());
    assert_eq!(arg_text(&args[3]), Some("10.0.0.1:80".to_string()));
    assert_eq!(arg_text(&args[4]), Some("10.0.0.2:81".to_string()));
    assert!(protocol.verify(&msg));
    assert!(protocol.verify_with_age(&msg, Some(0)));
    assert!(!protocol.verify_with_age(&msg, Some(30)));
    assert!(protocol.verify_with_age(&msg, Some(29)));
    assert!(!protocol.verify_with_age(&msg, None));

    let reject = protocol.reject(&account(), "full".to_string());
    assert!(protocol.verify(&reject));
    assert_eq!(reject.string_at(3), Some("full".to_string()));

    // an account that is not 32 bytes long is refused
    let short = Address { text: "short".to_string() };
    assert!(!protocol.verify(&protocol.gossip(&short, &hosts(&[]))));
    // events the protocol does not check are refused
    assert!(!protocol.verify(&protocol.transmission_accept(&account())));
    // a heartbeat has no arguments
    assert!(protocol.heartbeat().is_heartbeat());
}

#[test]
fn peer_table_keeps_the_hosts_that_were_read() {
    let t = PeerTable::new_with_hosts(vec![Some((addr(1, 80), 80)), None, Some((addr(2, 81), 81))]);
    assert_eq!(t.table.len(), 2);
    assert_eq!(t.table[0].1, (addr(1, 80), 80));
    assert_eq!(t.table[1].1, (addr(2, 81), 81));
    assert!(t.table.iter().all(|e| e.0.is_none()));
    assert_eq!(t.limit, 512);
    assert_eq!(PeerTable::new().table.len(), 0);
}

fn hash_of(data: &[u8]) -> genesis::hash::Hash {
    genesis::hash::Hash::sha256_of(data)
}

#[test]
fn consensus_votes_read_back() {
    let protocol = ConsensusProtocol::new();
    let prevote = Prevote {
        validator: ValidatorId(3),
        height: 10,
        round: 2,
        propose_hash: hash_of(b"propose"),
        locked_round: 1,
    };
    let msg = protocol.notify_prevote(&account(), &prevote);
    assert_eq!(msg.event(), "NOTIFY_PROPOSE");
    let (back, from) = protocol.verify_prevote(&msg).unwrap();
    assert_eq!(back.validator, ValidatorId(3));
    assert_eq!(back.height, 10);
    assert_eq!(back.round, 2);
    assert_eq!(back.locked_round, 1);
    assert_eq!(from.text, account().text);
    assert!(protocol.verify_prevote_with_age(&msg, Some(30)).is_none());

    let precommit = Precommit {
        validator: ValidatorId(1),
        height: 11,
        round: 0,
        propose_hash: hash_of(b"propose"),
        block_hash: hash_of(b"block"),
        time: String::new(),
    };
    let msg = protocol.notify_precommit(&account(), &precommit);
    let (back, _) = protocol.verify_precommit(&msg).unwrap();
    assert_eq!(back.validator, ValidatorId(1));
    assert_eq!(back.height, 11);
    assert_eq!(back.time, msg.timestamp_text_at(2).unwrap());
    // a prevote is no precommit: its last argument is an integer
    assert!(protocol.verify_precommit(&protocol.notify_prevote(&account(), &prevote)).is_none());
}

#[test]
fn consensus_propose_reads_back_after_the_first_transaction() {
    let protocol = ConsensusProtocol::new();
    let propose = Propose {
        validator: ValidatorId(2),
        height: 5,
        round: 1,
        prev_hash: hash_of(b"prev"),
        transactions: vec![hash_of(b"t1"), hash_of(b"t2"), hash_of(b"t3")],
    };
    let msg = protocol.notify_propose(&account(), &propose);
    assert_eq!(msg.arg_len(), 10);
    let (back, _) = protocol.verify_propose(&msg).unwrap();
    assert_eq!(back.validator, ValidatorId(2));
    assert_eq!(back.height, 5);
    assert_eq!(back.round, 1);
    assert_eq!(back.transactions.len(), 2);
    // no transaction: too few arguments
    let bare = Propose { transactions: vec![], ..propose.clone() };
    assert!(protocol.verify_propose(&protocol.notify_propose(&account(), &bare)).is_none());
}

#[test]
fn consensus_verify_by_event() {
    let protocol = ConsensusProtocol::new();
    // events other than the three notifications pass
    let other = SocketMessage::new("NOTIFY_TNX".to_string(), vec![], vec![]);
    assert!(protocol.verify(&other));
    // a notification without arguments does not
    let empty = SocketMessage::new("NOTIFY_PREVOTE".to_string(), vec![], vec![]);
    assert!(!protocol.verify(&empty));
    let req = protocol.request(RequestData::Prevotes(4, hash_of(b"p")));
    assert_eq!(req.event(), "REQUEST_PREVOTE");
    assert_eq!(req.int_at(0), Some(4));
    assert!(req.hash_at(1).is_some());
    assert_eq!(protocol.request(RequestData::BlockTransactions).event(), "REQUEST_BLOCK_TNXS");
    let block = protocol.request(RequestData::Block(5));
    assert_eq!(block.event(), "REQUEST_BLOCK");
    assert_eq!(block.arg_len(), 1);
    assert_eq!(block.int_at(0), Some(5));
    assert_eq!(protocol.request(RequestData::BlockTransactions).arg_len(), 0);
}

#[test]
fn test_session() {
    let s = Session::new(addr(1, 80), 1000);
    assert_eq!(s.status(), SessionStatus::Init);
    assert!(!s.connected());
    assert_eq!(s.milliseconds_connecting(1500), 500);
    assert_eq!(s.milliseconds_from_last_update(1200), 200);
    assert_eq!(s.process_step(), ProcessStep::ReadEvents);
}

#[test]
fn session_moves_on_bootstrap_gossip_and_reject() {
    let protocol = P2PProtocol::new();
    let mut s = Session::new(addr(1, 80), 0);
    s.set_token(7);
    let boot = protocol.bootstrap(&account(), &hosts(&["10.0.0.3:80"]));
    let mut actions = vec![];
    assert!(s.process_event_with_age(&boot, Some(0), &mut actions));
    assert_eq!(s.status(), SessionStatus::WaitGosship);
    assert_eq!(actions.len(), 2);
    match &actions[0] {
        SessionAction::ReplaceTable { hosts } => assert_eq!(hosts, &vec!["10.0.0.3:80".to_string()]),
        _ => panic!("expected a table"),
    }
    match &actions[1] {
        SessionAction::NotifyGossip { token } => assert_eq!(*token, 7),
        _ => panic!("expected a gossip request"),
    }
    // a second bootstrap is refused
    let mut more = vec![];
    assert!(!s.process_event_with_age(&boot, Some(0), &mut more));
    assert!(more.is_empty());
    // a gossip with no host is refused, one with hosts moves it on
    let empty = protocol.gossip(&account(), &hosts(&[]));
    assert!(!s.process_event_with_age(&empty, Some(0), &mut more));
    let gossip = protocol.gossip(&account(), &hosts(&["10.0.0.4:80"]));
    assert!(s.process_event_with_age(&gossip, Some(0), &mut more));
    assert_eq!(s.status(), SessionStatus::WaitBlockInfoRequest);
    // a stale rejection is refused, a fresh one accepted
    let reject = protocol.reject(&account(), "no".to_string());
    assert!(!s.process_event_with_age(&reject, Some(30), &mut more));
    assert!(s.process_event_with_age(&reject, Some(0), &mut more));
    assert_eq!(s.status(), SessionStatus::ConnectionReject);
}

#[test]
fn session_counts_refused_messages() {
    let protocol = P2PProtocol::new();
    let mut s = Session::new(addr(1, 80), 0);
    let msgs = vec![
        SocketMessage::heartbeat(),
        protocol.gossip(&account(), &hosts(&["a"])),
        SocketMessage::discovery(),
    ];
    let (penalty, actions) = s.process_events(&msgs, 50);
    assert_eq!(penalty, 2 * CMD_ERR_PENALTY);
    assert_eq!(actions.len(), 1);
    assert_eq!(s.status(), SessionStatus::WaitBlockInfoRequest);
    assert_eq!(s.milliseconds_from_last_update(50), 0);
}

#[test]
fn session_transfer_bookkeeping() {
    let mut ctx = TaskContext::new(100, TaskType::Block);
    assert_eq!(ctx.size_expected, 100);
    ctx.reset(50);
    assert_eq!(ctx, TaskContext { data_send: 0, data_recv: 0, size_expected: 50, task_type: TaskType::Block });
    let mut s = Session::new(addr(1, 80), 0);
    s.toggle_mode(SessionMode::Transmission);
    assert_eq!(s.process_step(), ProcessStep::ReadData(0));
    s.disconnect();
    assert_eq!(s.process_step(), ProcessStep::Aborted);
}

#[test]
fn peer_credit_and_ttl() {
    let mut p = Peer::new(addr(1, 80), 0);
    assert_eq!(p.credit(), INIT_CREDIT);
    p.process_outcome(Some(300));
    assert_eq!(p.credit(), INIT_CREDIT - 300);
    p.process_outcome(Some(INIT_CREDIT));
    assert_eq!(p.credit(), 0);
    for _ in 0..INIT_TTL {
        p.process_outcome(None);
    }
    assert_eq!(p.status(), SessionStatus::Init);
    p.process_outcome(None);
    assert_eq!(p.status(), SessionStatus::Abort);
}

fn peer_at(a: PeerAddr, token: usize, now: i64) -> Peer {
    let mut p = Peer::new(a, now);
    p.set_token(token);
    p
}

#[test]
fn controller_keeps_lists_of_peers() {
    let mut c = P2PController::new(account(), 0);
    c.add_peer(1, peer_at(addr(1, 80), 1, 0));
    c.add_peer(2, peer_at(addr(2, 80), 2, 0));
    assert!(c.socket_exist(&addr(1, 80)));
    assert!(!c.socket_exist(&addr(3, 80)));
    assert_eq!(c.tokens(), vec![1, 2]);
    // the same token replaces the peer
    c.add_peer(1, peer_at(addr(3, 80), 1, 0));
    assert_eq!(c.tokens(), vec![1, 2]);
    assert!(c.socket_exist(&addr(3, 80)));
    assert!(c.remove_peer(2).is_some());
    assert!(c.remove_peer(2).is_none());
    assert_eq!(c.gossip_hosts(1), Some(vec![addr(3, 80)]));
    assert_eq!(c.gossip_hosts(9), None);

    c.ban_peer(&addr(5, 80), 0);
    assert!(c.socket_blocked(&addr(5, 80)));
    assert!(!c.socket_blocked(&addr(5, 81)));
    // a ban holds for every port of the address
    assert!(c.has_blocked(&addr(5, 81)));
    assert!(!c.accepts_peer(&addr(5, 99)));
    assert!(!c.accepts_peer(&addr(3, 80)));
    assert!(c.accepts_peer(&addr(6, 80)));
}

#[test]
fn controller_search_skips_known_and_banned_peers() {
    let mut c = P2PController::new(account(), 0);
    let mut p = peer_at(addr(1, 80), 1, 0);
    p.set_table(PeerTable::new_with_hosts(vec![Some((addr(7, 80), 80)), Some((addr(8, 80), 80))]));
    c.add_peer(1, p);
    let found = c.search_peers();
    // entries without an account count as one account: the first is kept,
    // then the bootstrap peer
    assert_eq!(found.len(), 2);
    assert!(found[0].0.is_none());
    assert_eq!(found[0].1, (addr(7, 80), 80));
    assert_eq!(found[1].0.as_ref().unwrap().text, "local_test");
    c.ban_peer(&addr(7, 80), 0);
    let found = c.search_peers();
    assert_eq!(found.len(), 1);
    assert_eq!(found[0].0.as_ref().unwrap().text, "local_test");
}

#[test]
fn controller_upkeep() {
    let mut c = P2PController::new(account(), 0);
    // too soon
    assert!(c.update(UPDATE_TIMEBASE - 1).is_none());
    let mut aborted = peer_at(addr(1, 80), 1, 0);
    aborted.disconnect();
    let mut broke = peer_at(addr(2, 80), 2, 0);
    broke.set_connected();
    broke.process_outcome(Some(INIT_CREDIT));
    let mut alive = peer_at(addr(3, 80), 3, 0);
    alive.set_connected();
    let slow = peer_at(addr(4, 80), 4, 0);
    c.add_peer(1, aborted);
    c.add_peer(2, broke);
    c.add_peer(3, alive);
    c.add_peer(4, slow);
    let now = CONNECT_TIMEOUT + 1;
    assert!(now < EXPIRE);
    let plan = c.update(now).unwrap();
    assert_eq!(plan.removed, vec![1, 2, 4]);
    assert_eq!(c.tokens(), vec![3]);
    // the peer out of credit is banned
    assert!(c.socket_blocked(&addr(2, 80)));
    // too few peers: the waiting list is refreshed with the bootstrap peer
    assert!(plan.refill);
    assert_eq!(plan.connect, vec![PeerAddr { v6: false, ip: 0x7f00_0001, port: 19999 }]);
    // the peers not bootstrapped yet are, once
    c.add_peer(5, peer_at(plan.connect[0], 5, now));
    assert_eq!(c.bootstrap_targets(), vec![3, 5]);
    assert_eq!(c.bootstrap_targets(), Vec::<usize>::new());
}

#[test]
fn socket_cuts_messages_out_of_the_stream() {
    let mut s = PeerSocket::new();
    s.queue_msg(b"hello");
    s.queue_msg(b"");
    let wire = s.pending().to_vec();
    assert_eq!(&wire[..8], &[0, 0, 0, 0, 0, 0, 0, 5]);
    assert!(s.sent(wire.len()));
    assert!(s.pending().is_empty());

    let mut r = PeerSocket::new();
    assert!(r.receive(&wire[..10]).is_empty());
    let bodies = r.receive(&wire[10..]);
    assert_eq!(bodies, vec![b"hello".to_vec(), vec![]]);
    // a size whose body has not arrived waits
    assert!(r.receive(&[0, 0, 0, 0, 0, 0, 0, 2, 1]).is_empty());
    assert_eq!(r.receive(&[2]), vec![vec![1, 2]]);
}

#[test]
fn timestamps_are_fresh_under_thirty_seconds() {
    assert!(genesis::protocol::fresh_age(Some(-5)));
    assert!(genesis::protocol::fresh_age(Some(0)));
    assert!(genesis::protocol::fresh_age(Some(29)));
    assert!(!genesis::protocol::fresh_age(Some(30)));
    assert!(!genesis::protocol::fresh_age(Some(3600)));
    assert!(!genesis::protocol::fresh_age(None));
}
