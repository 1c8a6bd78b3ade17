use genesis::utils::{is_dotted_quad, local_ip_from_ifconfig};
use genesis::p2p_config::{MockConfig, P2PConfig};
use genesis::address::Address;
use genesis::hash::Hashable;
use genesis::socket_message::{SocketMessageHeader, MSG_HEADER_LEN};
use genesis::stun::{STUNClassType, STUNMessageType};
use genesis::thread::{loop_step, LoopStep, ThreadStatus};

#[test]
fn socket_header_round_trip() {
    let header = SocketMessageHeader::new(0x0102_0304);
    let mut buff = vec![0xaa];
    header.write_header(&mut buff);
    assert_eq!(buff, vec![0xaa, 0, 0, 0, 0, 1, 2, 3, 4]);
    let back = SocketMessageHeader::read_header(&buff[1..]).unwrap();
    assert_eq!(back.body_size(), 0x0102_0304);
    assert!(SocketMessageHeader::read_header(&buff[..MSG_HEADER_LEN - 1]).is_none());
}

#[test]
fn stun_message_types() {
    assert_eq!(STUNMessageType::BindingRequest.raw_value(), 0x0001);
    assert_eq!(STUNMessageType::BindingResponse.raw_value(), 0x0101);
    assert_eq!(STUNMessageType::SharedSecretErrorResponse.raw_value(), 0x0112);
    assert_eq!(STUNMessageType::BindingRequest.msg_class(), STUNClassType::Request);
    assert_eq!(STUNMessageType::BindingResponse.msg_class(), STUNClassType::SuccessResp);
    assert_eq!(STUNMessageType::BindingErrorResponse.msg_class(), STUNClassType::ErrResponse);
    let mut out = vec![];
    STUNMessageType::SharedSecretResponse.write_msg_type(&mut out);
    assert_eq!(out, vec![0x01, 0x02]);
    assert_eq!(STUNMessageType::read_msg_type(&out), STUNMessageType::SharedSecretResponse);
    // the two leading bits are skipped
    assert_eq!(STUNMessageType::read_msg_type(&[0xc1, 0x01]), STUNMessageType::BindingResponse);
}

#[test]
fn address_of_key_gives_the_key_back() {
    let mut key = [0u8; 32];
    for i in 0..32 {
        key[i] = i as u8;
    }
    let text = Address::key2addr(key);
    let addr = Address { text: text.clone() };
    assert_eq!(addr.to_key(), Some(key));
    // a key with leading zeros
    let zeros = [0u8; 32];
    let addr = Address { text: Address::key2addr(zeros) };
    assert_eq!(addr.to_key(), Some(zeros));
    // not base58
    assert_eq!(Address { text: "0OIl".to_string() }.to_key(), None);
    // base58 of the wrong length
    assert_eq!(Address { text: "ZiCa".to_string() }.to_key(), None);
}

struct Blob(Vec<u8>);

impl Hashable for Blob {
    fn serialized(&self) -> Vec<u8> {
        unreachable!()
    }

    fn serialized_data(&self) -> &[u8] {
        &self.0
    }

    fn serialized_str(&self) -> &str {
        ""
    }
}

#[test]
fn test_encrype() {
    let h = Blob(b"abc".to_vec()).encrype_sha256();
    let text = format!("{:?}", h);
    assert!(text.contains("ba7816bf8f01cfea414140de5dae2223b00361a396177a9cb410ff61f20015ad"));
    assert!(text.contains("SHA256"));
    let empty = format!("{:?}", genesis::hash::Hash::sha256_of(&[]));
    assert!(empty.contains("e3b0c44298fc1c149afbf4c8996fb92427ae41e4649b934ca495991b7852b855"));
}

#[test]
fn run_loop_turns() {
    assert_eq!(loop_step(ThreadStatus::Running), LoopStep::Execute);
    assert_eq!(loop_step(ThreadStatus::Pause), LoopStep::Idle);
    assert_eq!(loop_step(ThreadStatus::Stop), LoopStep::Exit);
}

#[test]
fn create_key_pair() {
    match genesis::key::KeyPair::gen_ed25519_keypair() {
        Ok(genesis::key::KeyPair::Ed25519KeyPair { .. }) => {}
        Ok(_) => panic!("an Ed25519 key pair was asked for"),
        Err(e) => panic!("{}", e),
    }
    // a document that is no PKCS#8 is refused
    let refused = genesis::key::KeyPair::ed25519_from_document(Some(vec![1, 2, 3]));
    assert_eq!(refused.err(), Some(genesis::key::KEY_PAIR_ERROR.to_string()));
    let missing = genesis::key::KeyPair::ed25519_from_document(None);
    assert_eq!(missing.err(), Some(genesis::key::PKCS8_ERROR.to_string()));
}

#[test]
fn test_block() {
    let h = |s: &[u8]| genesis::hash::Hash::sha256_of(s);
    let block = genesis::block::Block {
        version: [0, 0, 0, 1],
        height: 7,
        tx_count: 0,
        prev_hash: h(b"prev"),
        tx_hash: h(b"txs"),
        state_hash: h(b"state"),
    };
    let proof = genesis::block::BlockProof { block, precommits: vec![] };
    assert_eq!(proof.block.height, 7);
    assert!(proof.block.prev_hash.same_as(&h(b"prev")));
    assert!(!proof.block.prev_hash.same_as(&proof.block.tx_hash));
    assert_eq!(proof.block.prev_hash.data().len(), 64);
}

#[test]
fn p2p_mock_settings() {
    let c = P2PConfig::mock();
    assert_eq!(c.server_addr().port, 40000);
    assert_eq!(c.min_required_peer(), 5);
    assert_eq!(c.connect_timeout(), c.update_timebase());
    let ports: Vec<u16> = c.bootstrap_peers().iter().map(|p| p.1.port).collect();
    assert_eq!(ports, vec![40001, 40002, 40003, 40004]);
    let p = P2PConfig::mock_peer();
    assert_eq!(p.server_addr().port, 40001);
    assert_eq!(p.bootstrap_peers()[0].1.port, 40000);
}

#[test]
fn log_line_format() {
    let line = genesis::log_writer::LogWritter::format_line(
        "2018-01-02 03:04:05",
        "hello",
        genesis::log_writer::LogType::WARN,
        genesis::log_writer::LogLevel::HIGH,
    );
    assert_eq!(line, "2018-01-02 03:04:05 [WARN] [HIGH] hello");
}

#[test]
fn log_writer_kinds() {
    let mut w = genesis::log_writer::LogWritter::new();
    let line = w.info("started").unwrap();
    assert!(line.ends_with(" [INFO] [LOW] started"));
    assert_eq!(line.len(), "2018-01-02 03:04:05".len() + " [INFO] [LOW] started".len());
    w.enabled_info(false);
    assert!(w.info("started").is_none());
    assert!(w.info_with_level("x", genesis::log_writer::LogLevel::MEDIUM).is_none());
    assert!(w.debug("x").is_some());
    w.enabled_debug(false);
    w.enabled_warn(false);
    assert!(w.debug_with_level("x", genesis::log_writer::LogLevel::HIGH).is_none());
    assert!(w.warn("x").is_none());
    assert!(w.warn_with_level("x", genesis::log_writer::LogLevel::LOW).is_none());
    let e = w.error_with_level("boom", genesis::log_writer::LogLevel::HIGH).unwrap();
    assert!(e.ends_with(" [ERROR] [HIGH] boom"));
    w.enabled_error(false);
    assert!(w.error("boom").is_none());
}

#[test]
fn stun_manager_sets_up_its_buffers() {
    let _manager = genesis::stun::STUNManager::new();
}

#[test]
fn dotted_quads_are_read_as_ipv4_does() {
    assert!(is_dotted_quad(b"192.168.1.20"));
    assert!(is_dotted_quad(b"0.0.0.0"));
    assert!(is_dotted_quad(b"255.255.255.255"));
    assert!(!is_dotted_quad(b"256.1.1.1"));
    assert!(!is_dotted_quad(b"01.2.3.4"));
    assert!(!is_dotted_quad(b"1.2.3"));
    assert!(!is_dotted_quad(b"1.2.3.4.5"));
    assert!(!is_dotted_quad(b"1..3.4"));
    assert!(!is_dotted_quad(b"1.2.3.1234"));
    assert!(!is_dotted_quad(b"a.2.3.4"));
}

#[test]
fn local_ip_skips_the_loopback() {
    let linux = "lo: flags=73<UP,LOOPBACK,RUNNING>  mtu 65536\n        inet 127.0.0.1  netmask 255.0.0.0\neth0: flags=4163<UP>  mtu 1500\n        inet 10.0.2.15  netmask 255.255.255.0  broadcast 10.0.2.255\n";
    assert_eq!(local_ip_from_ifconfig(linux), Some("10.0.2.15".to_string()));
    let old_style = "eth0      Link encap:Ethernet\n          inet addr:172.17.0.2  Bcast:172.17.255.255\n";
    assert_eq!(local_ip_from_ifconfig(old_style), Some("172.17.0.2".to_string()));
    let only_loopback = "lo: flags=73\n        inet 127.0.0.1  netmask 255.0.0.0\n";
    assert_eq!(local_ip_from_ifconfig(only_loopback), None);
    let bad_then_good = "        inet 999.1.1.1  netmask 0\n        inet 192.168.0.7  netmask 0\n";
    assert_eq!(local_ip_from_ifconfig(bad_then_good), Some("192.168.0.7".to_string()));
}
