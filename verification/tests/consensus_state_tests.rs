use genesis::address::Address;
use genesis::consensus::{ConsensusProtocol, Precommit, Prevote, RequestData, ValidatorId};
use genesis::consensus_config::{init_peers_table, ConsensusConfig};
use genesis::consensus_session::{precommit_handler_with_age, prevote_handler_with_age};
use genesis::node_state::{NodeState, Validator, ValidatorState, Votes};

fn h(s: &[u8]) -> genesis::hash::Hash {
    genesis::hash::Hash::sha256_of(s)
}

fn validators(n: usize) -> Vec<Validator> {
    (0..n).map(|i| Validator { account: Address { text: format!("validator-{}", i) } }).collect()
}

fn prevote(v: u16, round: usize, hash: &[u8]) -> Prevote {
    Prevote { validator: ValidatorId(v), height: 1, round, propose_hash: h(hash), locked_round: 0 }
}

fn precommit(v: u16, round: usize, block: &[u8]) -> Precommit {
    Precommit {
        validator: ValidatorId(v),
        height: 1,
        round,
        propose_hash: h(b"p"),
        block_hash: h(block),
        time: String::new(),
    }
}

#[test]
fn votes_count_each_validator_once() {
    let mut votes: Votes<Prevote> = Votes::new(4);
    assert_eq!(votes.count(), 0);
    votes.insert(&prevote(2, 0, b"a"));
    votes.insert(&prevote(2, 0, b"a"));
    votes.insert(&prevote(0, 0, b"a"));
    assert_eq!(votes.count(), 2);
    assert_eq!(votes.messages().len(), 2);
    assert_eq!(votes.validators().get(2), Some(true));
    assert_eq!(votes.validators().get(1), Some(false));
}

#[test]
fn node_reaches_majority_of_prevotes() {
    let mut node = NodeState::new(validators(4), Some(ValidatorId(1)), h(b"last"), 10, 0);
    assert!(node.is_validator());
    assert_eq!(node.validator_id(), Some(ValidatorId(1)));
    // a majority of four is three: two of four are not more than two thirds
    assert!(!node.add_prevote(&prevote(0, 3, b"p")));
    assert!(!node.have_majority_prevotes(3, h(b"p")));
    assert!(!node.add_prevote(&prevote(1, 3, b"p")));
    assert!(!node.have_majority_prevotes(3, h(b"p")));
    assert!(node.add_prevote(&prevote(2, 3, b"p")));
    assert!(node.have_majority_prevotes(3, h(b"p")));
    assert!(node.have_majority_precommits(3, h(b"p")));
    assert!(!node.have_majority_prevotes(3, h(b"q")));
    // the node's own prevote is kept by round
    assert!(node.have_prevote(3));
    assert!(!node.have_prevote(2));
    assert_eq!(node.known_prevotes(3, &h(b"p")).get(1), Some(true));
    assert_eq!(node.known_prevotes(3, &h(b"q")).len(), 4);
}

#[test]
fn node_keeps_precommits_by_block() {
    let mut node = NodeState::new(validators(3), None, h(b"last"), 10, 0);
    assert!(!node.add_precommit(&precommit(0, 1, b"b")));
    assert!(!node.add_precommit(&precommit(2, 1, b"b")));
    assert!(node.add_precommit(&precommit(1, 1, b"b")));
    assert_eq!(node.get_precommits(1, h(b"b")).len(), 3);
    assert_eq!(node.get_precommits(1, h(b"c")).len(), 0);
    assert_eq!(node.known_precommits(1, &h(b"b")).get(2), Some(true));
    // the propose is unknown: the precommits wait for it
    assert!(node.handle_majority_precommits(1, &h(b"p"), &h(b"b")));
}

#[test]
fn node_leads_in_turn_and_locks() {
    let mut node = NodeState::new(validators(3), Some(ValidatorId(1)), h(b"last"), 4, 0);
    assert_eq!(node.leader(0), ValidatorId(1));
    assert_eq!(node.leader(2), ValidatorId(0));
    assert!(node.is_leader());
    assert_eq!(node.get_validator_key(ValidatorId(2)).unwrap().text, "validator-2");
    assert!(node.get_validator_key(ValidatorId(3)).is_none());
    assert!(node.locked_propose().is_none());
    node.inner_lock(2, h(b"p"));
    assert_eq!(node.locked_round(), 2);
    assert!(node.locked_propose().unwrap().same_as(&h(b"p")));
    // a lock on an earlier round changes nothing
    node.inner_lock(1, h(b"q"));
    assert_eq!(node.locked_round(), 2);
    assert!(node.have_prevote_ready());
    node.init();
    assert_eq!(node.height(), 4);
}

#[test]
fn node_requests() {
    let mut node = NodeState::new(validators(3), None, h(b"last"), 0, 0);
    let req = node.add_request(ValidatorId(1), RequestData::Prevotes(2, h(b"p")));
    assert!(req.unwrap().same_request(&RequestData::Prevotes(2, h(b"p"))));
    node.handle_majority_prevotes(2, &h(b"p"));
    node.remove_request(&RequestData::Block(1));
    let mut vs = ValidatorState::new(ValidatorId(4));
    assert!(!vs.have_prevote(0));
    vs.set_validator_id(ValidatorId(5));
    assert_eq!(vs.validator_id(), ValidatorId(5));
    vs.clear();
}

fn sender() -> Address {
    Address { text: "abcdefghijklmnopqrstuvwxyz012345".to_string() }
}

fn is_propose_request(r: &RequestData, hash: &[u8]) -> bool {
    matches!(r, RequestData::Propose(x) if x.data() == h(hash).data())
}

#[test]
fn prevote_handler_counts_and_asks_for_the_propose() {
    let protocol = ConsensusProtocol::new();
    let mut node = NodeState::new(validators(3), Some(ValidatorId(0)), h(b"last"), 10, 0);
    let mut vote = prevote(1, 2, b"p");
    vote.locked_round = 1;
    let msg = protocol.notify_prevote(&sender(), &vote);
    let (ok, sent) = prevote_handler_with_age(&protocol, &mut node, &msg, Some(0));
    assert!(ok);
    assert_eq!(sent.len(), 2);
    assert!(is_propose_request(&sent[0], b"p"));
    assert!(matches!(&sent[1], RequestData::Prevotes(1, x) if x.data() == h(b"p").data()));
    assert!(!node.have_majority_prevotes(2, h(b"p")));
    // two of three are not more than two thirds; three are
    let msg = protocol.notify_prevote(&sender(), &prevote(2, 2, b"p"));
    let (ok, sent) = prevote_handler_with_age(&protocol, &mut node, &msg, Some(0));
    assert!(ok);
    assert_eq!(sent.len(), 1);
    assert!(!node.have_majority_prevotes(2, h(b"p")));
    let msg = protocol.notify_prevote(&sender(), &prevote(0, 2, b"p"));
    let (ok, _) = prevote_handler_with_age(&protocol, &mut node, &msg, Some(0));
    assert!(ok);
    assert!(node.have_majority_prevotes(2, h(b"p")));
    // a stale message is refused and changes nothing
    let msg = protocol.notify_prevote(&sender(), &prevote(0, 4, b"q"));
    let (ok, sent) = prevote_handler_with_age(&protocol, &mut node, &msg, Some(30));
    assert!(!ok);
    assert!(sent.is_empty());
    assert!(!node.have_prevote(4));
}

#[test]
fn precommit_handler_counts_and_waits_for_the_propose() {
    let protocol = ConsensusProtocol::new();
    let mut node = NodeState::new(validators(3), None, h(b"last"), 10, 0);
    let msg = protocol.notify_precommit(&sender(), &precommit(0, 0, b"b"));
    let (ok, sent) = precommit_handler_with_age(&protocol, &mut node, &msg, Some(0));
    assert!(ok);
    assert_eq!(sent.len(), 1);
    assert!(is_propose_request(&sent[0], b"p"));
    let msg = protocol.notify_precommit(&sender(), &precommit(1, 0, b"b"));
    let (ok, sent) = precommit_handler_with_age(&protocol, &mut node, &msg, Some(0));
    assert!(ok);
    assert_eq!(sent.len(), 1);
    let msg = protocol.notify_precommit(&sender(), &precommit(2, 0, b"b"));
    let (ok, sent) = precommit_handler_with_age(&protocol, &mut node, &msg, Some(0));
    assert!(ok);
    assert_eq!(sent.len(), 2);
    assert!(matches!(&sent[1], RequestData::ProposeTransactions(x) if x.data() == h(b"p").data()));
    assert_eq!(node.get_precommits(0, h(b"b")).len(), 3);
    let msg = protocol.notify_precommit(&sender(), &precommit(0, 3, b"b"));
    let (_, sent) = precommit_handler_with_age(&protocol, &mut node, &msg, Some(0));
    assert!(matches!(&sent[1], RequestData::Prevotes(3, _)));
}

fn local(port: u16) -> (genesis::stun::PeerAddr, u16) {
    (genesis::stun::PeerAddr { v6: false, ip: 0x7f00_0001, port }, port)
}

#[test]
fn consensus_config_mock() {
    let config = ConsensusConfig::mock(&sender());
    assert_eq!(config.server_addr(), local(40000).0);
    assert_eq!(config.events_size(), 1024);
    assert_eq!(config.update_timebase(), 3000);
    assert_eq!(config.connect_timeout(), 3000);
    assert_eq!(config.peer_expire(), 60000);
    let ports: Vec<u16> = config.validator_keys().iter().map(|v| v.addr.1).collect();
    assert_eq!(ports, vec![40001, 40002, 40003, 40004]);
    let peer = ConsensusConfig::mock_peer(&sender());
    assert_eq!(peer.server_addr(), local(40001).0);
    let ports: Vec<u16> = peer.validator_keys().iter().map(|v| v.addr.1).collect();
    assert_eq!(ports, vec![40000, 40002, 40003, 40004]);
}

#[test]
fn consensus_targets_leave_out_the_node() {
    let me = Address { text: "me".to_string() };
    let mut config = ConsensusConfig::mock(&me);
    config.validator_keys[1].account = Address { text: "other".to_string() };
    let tables = vec![
        vec![(Some(Address { text: "me".to_string() }), local(1)), (None, local(2))],
        vec![],
        vec![(Some(Address { text: "x".to_string() }), local(3))],
    ];
    let targets = init_peers_table(&tables, &config, &me);
    assert_eq!(targets, vec![local(2), local(3), local(40002)]);
}

#[test]
fn consensus_node_finds_itself_among_validators() {
    let me = Address { text: "me".to_string() };
    let mut config = ConsensusConfig::mock(&me);
    assert_eq!(config.validator_of(&me).map(|a| a.text), Some("me".to_string()));
    let stranger = Address { text: "stranger".to_string() };
    assert!(config.validator_of(&stranger).is_none());
    config.validator_keys[2].account = Address { text: "stranger".to_string() };
    assert_eq!(config.validator_of(&stranger).map(|a| a.text), Some("stranger".to_string()));
}
